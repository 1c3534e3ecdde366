//! Catalog objects as the analysis models them.
pub mod column;
pub mod column_action;
pub mod constraint;
pub mod function;
pub mod privileges;
pub mod relation;
pub mod replication;
pub mod role;
pub mod schema;
pub mod sequence;
pub mod trigger;
pub mod types;

use crate::collections::Dup;
use vstd::prelude::*;

verus! {

/// What the migration knows of an object: its state, or that it is gone.
#[derive(Clone, Debug)]
pub enum Overlay<T> {
    Present(T),
    Dropped,
}

impl<T: DeepView> DeepView for Overlay<T> {
    type V = Overlay<T::V>;

    open spec fn deep_view(&self) -> Overlay<T::V> {
        match self {
            Overlay::Present(state) => Overlay::Present(state.deep_view()),
            Overlay::Dropped => Overlay::Dropped,
        }
    }
}

impl<T: Dup> Dup for Overlay<T> {
    fn dup(&self) -> (r: Self) {
        match self {
            Overlay::Present(state) => Overlay::Present(state.dup()),
            Overlay::Dropped => Overlay::Dropped,
        }
    }
}

} // verus!
