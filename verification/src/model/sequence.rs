//! Sequences.
use crate::collections::Dup;
use crate::identifiers::{ObjectId, ObjectIdView};
use crate::model::Overlay;
use vstd::prelude::*;

verus! {

/// How a sequence came into being.
#[derive(Clone, Copy, Debug, PartialEq, Eq, Structural)]
pub enum SequenceKind {
    Standalone,
    Owned,
    SerialLike,
    Identity,
}

impl DeepView for SequenceKind {
    type V = SequenceKind;

    open spec fn deep_view(&self) -> SequenceKind {
        *self
    }
}

impl Dup for SequenceKind {
    fn dup(&self) -> (r: Self) {
        *self
    }
}

/// A sequence, and the table column that owns it.
#[derive(Clone, Debug)]
pub struct SequenceState {
    pub id: ObjectId,
    pub owner: ObjectId,
    pub owned_by: Option<(ObjectId, String)>,
    pub kind: SequenceKind,
    pub generation: u64,
}

#[verifier::ext_equal]
pub struct SequenceStateView {
    pub id: ObjectIdView,
    pub owner: ObjectIdView,
    pub owned_by: Option<(ObjectIdView, Seq<char>)>,
    pub kind: SequenceKind,
    pub generation: u64,
}

impl View for SequenceState {
    type V = SequenceStateView;

    open spec fn view(&self) -> SequenceStateView {
        SequenceStateView {
            id: self.id.deep_view(),
            owner: self.owner.deep_view(),
            owned_by: self.owned_by.deep_view(),
            kind: self.kind.deep_view(),
            generation: self.generation.deep_view(),
        }
    }
}

impl DeepView for SequenceState {
    type V = SequenceStateView;

    open spec fn deep_view(&self) -> SequenceStateView {
        self@
    }
}

impl Dup for SequenceState {
    fn dup(&self) -> (r: Self) {
        SequenceState {
            id: self.id.dup(),
            owner: self.owner.dup(),
            owned_by: self.owned_by.dup(),
            kind: self.kind.dup(),
            generation: self.generation.dup(),
        }
    }
}

pub type SequenceOverlay = Overlay<SequenceState>;

} // verus!
