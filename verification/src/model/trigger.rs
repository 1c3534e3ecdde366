//! Triggers.
use crate::collections::Dup;
use crate::identifiers::{ObjectId, ObjectIdView};
use crate::model::Overlay;
use vstd::prelude::*;

verus! {

/// When a trigger fires.
#[derive(Clone, Copy, Debug, PartialEq, Eq, Structural)]
pub enum TriggerEnableMode {
    Origin,
    Disabled,
    Replica,
    Always,
}

impl DeepView for TriggerEnableMode {
    type V = TriggerEnableMode;

    open spec fn deep_view(&self) -> TriggerEnableMode {
        *self
    }
}

impl Dup for TriggerEnableMode {
    fn dup(&self) -> (r: Self) {
        *self
    }
}

/// A trigger on a table.
#[derive(Clone, Debug)]
pub struct TriggerState {
    pub name: String,
    pub id: ObjectId,
    pub table_id: ObjectId,
    pub enabled_mode: TriggerEnableMode,
    pub generation: u64,
}

#[verifier::ext_equal]
pub struct TriggerStateView {
    pub name: Seq<char>,
    pub id: ObjectIdView,
    pub table_id: ObjectIdView,
    pub enabled_mode: TriggerEnableMode,
    pub generation: u64,
}

impl View for TriggerState {
    type V = TriggerStateView;

    open spec fn view(&self) -> TriggerStateView {
        TriggerStateView {
            name: self.name.deep_view(),
            id: self.id.deep_view(),
            table_id: self.table_id.deep_view(),
            enabled_mode: self.enabled_mode.deep_view(),
            generation: self.generation.deep_view(),
        }
    }
}

impl DeepView for TriggerState {
    type V = TriggerStateView;

    open spec fn deep_view(&self) -> TriggerStateView {
        self@
    }
}

impl Dup for TriggerState {
    fn dup(&self) -> (r: Self) {
        TriggerState {
            name: self.name.dup(),
            id: self.id.dup(),
            table_id: self.table_id.dup(),
            enabled_mode: self.enabled_mode.dup(),
            generation: self.generation.dup(),
        }
    }
}

pub type TriggerOverlay = Overlay<TriggerState>;

} // verus!
