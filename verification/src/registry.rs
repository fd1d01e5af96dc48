//! The registry of provisioned participants. A participant's resources are
//! addressed by its identifier, so the registry records which identifiers
//! have been provisioned.

use crate::action::OwnerId;
use crate::world::OWNER_TABLE_LIMIT;
use vstd::prelude::*;

verus! {

/// The set of participants that have been provisioned in a run.
pub struct OwnerRegistry {
    present: Vec<bool>,
}

impl View for OwnerRegistry {
    type V = Set<OwnerId>;

    closed spec fn view(&self) -> Set<OwnerId> {
        Set::new(|o: OwnerId| self.present@[o.0 as int])
    }
}

impl OwnerRegistry {
    /// The registry has a place for every identifier.
    pub closed spec fn well_formed(&self) -> bool {
        self.present@.len() == OWNER_TABLE_LIMIT
    }

    /// A registry in which nobody is provisioned.
    pub fn new() -> (registry: OwnerRegistry)
        ensures
            registry.well_formed(),
            registry@ == Set::<OwnerId>::empty(),
    {
        let mut present: Vec<bool> = Vec::new();
        let mut i: usize = 0;
        while i < OWNER_TABLE_LIMIT
            invariant
                i <= OWNER_TABLE_LIMIT,
                present@.len() == i,
                forall|j: int| 0 <= j < i ==> !present@[j],
            decreases OWNER_TABLE_LIMIT - i,
        {
            present.push(false);
            i += 1;
        }
        let registry = OwnerRegistry { present };
        proof {
            assert(registry@ =~= Set::<OwnerId>::empty());
        }
        registry
    }

    /// Whether the participant has been provisioned.
    pub fn contains(&self, id: OwnerId) -> (known: bool)
        requires
            self.well_formed(),
        ensures
            known == self@.contains(id),
    {
        self.present[id.0 as usize]
    }

    /// Provisions a participant on its first mention and reports whether
    /// that happened now. Provisioning a known participant changes nothing.
    pub fn provision(&mut self, id: OwnerId) -> (created: bool)
        requires
            old(self).well_formed(),
        ensures
            final(self).well_formed(),
            final(self)@ == old(self)@.insert(id),
            created == !old(self)@.contains(id),
            old(self)@.contains(id) ==> final(self)@ == old(self)@,
    {
        let known = self.present[id.0 as usize];
        self.present.set(id.0 as usize, true);
        proof {
            assert(self@ =~= old(self)@.insert(id)) by {
                assert forall|o: OwnerId| self@.contains(o) == old(self)@.insert(id).contains(o) by {
                    if o != id {
                        assert(o.0 != id.0);
                    }
                }
            }
            if known {
                assert(old(self)@.insert(id) =~= old(self)@);
            }
        }
        !known
    }

    /// The provisioned participants in ascending order of their identifiers.
    pub fn owners_in_order(&self) -> (ids: Vec<OwnerId>)
        requires
            self.well_formed(),
        ensures
            forall|o: OwnerId| ids@.contains(o) <==> self@.contains(o),
            forall|i: int, j: int| 0 <= i < j < ids@.len() ==> ids@[i].0 < ids@[j].0,
    {
        let mut ids: Vec<OwnerId> = Vec::new();
        let mut i: usize = 0;
        while i < OWNER_TABLE_LIMIT
            invariant
                i <= OWNER_TABLE_LIMIT,
                self.well_formed(),
                forall|k: int| 0 <= k < ids@.len() ==> (#[trigger] ids@[k]).0 < i && self@.contains(
                    ids@[k],
                ),
                forall|o: OwnerId| o.0 < i && self@.contains(o) ==> ids@.contains(o),
                forall|a: int, b: int| 0 <= a < b < ids@.len() ==> ids@[a].0 < ids@[b].0,
            decreases OWNER_TABLE_LIMIT - i,
        {
            if self.present[i] {
                let ghost before = ids@;
                ids.push(OwnerId(i as u8));
                proof {
                    assert(ids@[before.len() as int] == OwnerId(i as u8));
                    assert forall|o: OwnerId| o.0 < i + 1 && self@.contains(o) implies ids@.contains(
                        o,
                    ) by {
                        if o.0 < i {
                            let k = choose|k: int| 0 <= k < before.len() && before[k] == o;
                            assert(ids@[k] == o);
                        } else {
                            assert(o == OwnerId(i as u8));
                        }
                    }
                }
            }
            i += 1;
        }
        ids
    }
}

} // verus!
