//! Table constraints.
use crate::collections::Dup;
use crate::identifiers::{ObjectId, ObjectIdView};
use vstd::prelude::*;

verus! {

/// What a constraint demands.
#[derive(Clone, Copy, Debug, PartialEq, Eq, Structural)]
pub enum ConstraintKind {
    PrimaryKey,
    Unique,
    ForeignKey,
    Check,
    Exclusion,
    NotNull,
}

impl DeepView for ConstraintKind {
    type V = ConstraintKind;

    open spec fn deep_view(&self) -> ConstraintKind {
        *self
    }
}

impl Dup for ConstraintKind {
    fn dup(&self) -> (r: Self) {
        *self
    }
}

/// A constraint on a table.
#[derive(Clone, Debug)]
pub struct ConstraintState {
    pub table_id: ObjectId,
    pub name: String,
    pub kind: ConstraintKind,
    pub validated: bool,
    pub backing_index: Option<ObjectId>,
}

#[verifier::ext_equal]
pub struct ConstraintStateView {
    pub table_id: ObjectIdView,
    pub name: Seq<char>,
    pub kind: ConstraintKind,
    pub validated: bool,
    pub backing_index: Option<ObjectIdView>,
}

impl View for ConstraintState {
    type V = ConstraintStateView;

    open spec fn view(&self) -> ConstraintStateView {
        ConstraintStateView {
            table_id: self.table_id.deep_view(),
            name: self.name.deep_view(),
            kind: self.kind.deep_view(),
            validated: self.validated.deep_view(),
            backing_index: self.backing_index.deep_view(),
        }
    }
}

impl DeepView for ConstraintState {
    type V = ConstraintStateView;

    open spec fn deep_view(&self) -> ConstraintStateView {
        self@
    }
}

impl Dup for ConstraintState {
    fn dup(&self) -> (r: Self) {
        ConstraintState {
            table_id: self.table_id.dup(),
            name: self.name.dup(),
            kind: self.kind.dup(),
            validated: self.validated.dup(),
            backing_index: self.backing_index.dup(),
        }
    }
}

} // verus!
