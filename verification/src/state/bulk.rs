//! Drops of several objects of one family.
use crate::collections::{lemma_with_each, with_each};
use crate::identifiers::{ObjectId, ObjectIdView};
use crate::model::role::RoleStateView;
use crate::model::sequence::SequenceStateView;
use crate::model::Overlay;
use crate::state::journal::{group_kept, kept};
use crate::state::{AnalysisState, StateData};
use vstd::prelude::*;

verus! {

broadcast use group_kept;

impl AnalysisState {
    /// Marks sequences as dropped.
    pub(crate) fn drop_sequences(&mut self, ids: &Vec<ObjectId>)
        ensures
            final(self)@.data == (StateData { sequences: with_each(old(self)@.data.sequences, ids.deep_view(), Overlay::Dropped), ..old(self)@.data }),
            kept(old(self)@, final(self)@),
    {
        let ghost start = self@;
        let ghost keys = ids.deep_view();
        let mut i: usize = 0;
        proof {
            assert(keys.take(0) =~= Seq::<ObjectIdView>::empty());
            assert(with_each(start.data.sequences, keys.take(0), Overlay::Dropped) =~= start.data.sequences);
        }
        while i < ids.len()
            invariant
                i <= ids.len(),
                keys == ids.deep_view(),
                self@.data == (StateData { sequences: with_each(start.data.sequences, keys.take(i as int), Overlay::Dropped), ..start.data }),
                kept(start, self@),
            decreases ids.len() - i,
        {
            proof {
                lemma_with_each(start.data.sequences, keys, Overlay::<SequenceStateView>::Dropped, i as int);
            }
            self.put_sequence(&ids[i], Overlay::Dropped);
            i = i + 1;
        }
        assert(keys.take(keys.len() as int) =~= keys);
    }

    /// Marks roles as dropped.
    pub(crate) fn drop_roles(&mut self, ids: &Vec<ObjectId>)
        ensures
            final(self)@.data == (StateData { roles: with_each(old(self)@.data.roles, ids.deep_view(), Overlay::Dropped), ..old(self)@.data }),
            kept(old(self)@, final(self)@),
    {
        let ghost start = self@;
        let ghost keys = ids.deep_view();
        let mut i: usize = 0;
        proof {
            assert(keys.take(0) =~= Seq::<ObjectIdView>::empty());
            assert(with_each(start.data.roles, keys.take(0), Overlay::Dropped) =~= start.data.roles);
        }
        while i < ids.len()
            invariant
                i <= ids.len(),
                keys == ids.deep_view(),
                self@.data == (StateData { roles: with_each(start.data.roles, keys.take(i as int), Overlay::Dropped), ..start.data }),
                kept(start, self@),
            decreases ids.len() - i,
        {
            proof {
                lemma_with_each(start.data.roles, keys, Overlay::<RoleStateView>::Dropped, i as int);
            }
            self.put_role(&ids[i], Overlay::Dropped);
            i = i + 1;
        }
        assert(keys.take(keys.len() as int) =~= keys);
    }

}

} // verus!
