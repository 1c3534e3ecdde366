//! Schemas.
use crate::collections::Dup;
use crate::identifiers::{ObjectId, ObjectIdView};
use crate::model::Overlay;
use vstd::prelude::*;

verus! {

/// A schema.
#[derive(Clone, Debug)]
pub struct SchemaState {
    pub name: String,
    pub owner: ObjectId,
    pub generation: u64,
}

#[verifier::ext_equal]
pub struct SchemaStateView {
    pub name: Seq<char>,
    pub owner: ObjectIdView,
    pub generation: u64,
}

impl View for SchemaState {
    type V = SchemaStateView;

    open spec fn view(&self) -> SchemaStateView {
        SchemaStateView {
            name: self.name.deep_view(),
            owner: self.owner.deep_view(),
            generation: self.generation.deep_view(),
        }
    }
}

impl DeepView for SchemaState {
    type V = SchemaStateView;

    open spec fn deep_view(&self) -> SchemaStateView {
        self@
    }
}

impl Dup for SchemaState {
    fn dup(&self) -> (r: Self) {
        SchemaState {
            name: self.name.dup(),
            owner: self.owner.dup(),
            generation: self.generation.dup(),
        }
    }
}

pub type SchemaOverlay = Overlay<SchemaState>;

} // verus!
