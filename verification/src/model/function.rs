//! Functions, procedures and aggregates.
use crate::collections::Dup;
use crate::identifiers::{ObjectId, ObjectIdView};
use crate::model::Overlay;
use vstd::prelude::*;

verus! {

/// What kind of routine an identity names.
#[derive(Clone, Copy, Debug, PartialEq, Eq, Structural)]
pub enum RoutineKind {
    Function,
    Procedure,
    Aggregate,
}

impl DeepView for RoutineKind {
    type V = RoutineKind;

    open spec fn deep_view(&self) -> RoutineKind {
        *self
    }
}

impl Dup for RoutineKind {
    fn dup(&self) -> (r: Self) {
        *self
    }
}

/// Whether a routine may give different results.
#[derive(Clone, Copy, Debug, PartialEq, Eq, Structural)]
pub enum Volatility {
    Immutable,
    Stable,
    Volatile,
}

impl DeepView for Volatility {
    type V = Volatility;

    open spec fn deep_view(&self) -> Volatility {
        *self
    }
}

impl Dup for Volatility {
    fn dup(&self) -> (r: Self) {
        *self
    }
}

/// With whose rights a routine runs.
#[derive(Clone, Copy, Debug, PartialEq, Eq, Structural)]
pub enum SecurityMode {
    Invoker,
    Definer,
}

impl DeepView for SecurityMode {
    type V = SecurityMode;

    open spec fn deep_view(&self) -> SecurityMode {
        *self
    }
}

impl Dup for SecurityMode {
    fn dup(&self) -> (r: Self) {
        *self
    }
}

/// A routine.
#[derive(Clone, Debug)]
pub struct FunctionState {
    pub id: ObjectId,
    pub routine_kind: RoutineKind,
    pub arg_types: Vec<String>,
    pub arg_type_ids: Vec<Option<ObjectId>>,
    pub return_type: String,
    pub return_type_id: Option<ObjectId>,
    pub volatility: Volatility,
    pub language: String,
    pub security: SecurityMode,
}

#[verifier::ext_equal]
pub struct FunctionStateView {
    pub id: ObjectIdView,
    pub routine_kind: RoutineKind,
    pub arg_types: Seq<Seq<char>>,
    pub arg_type_ids: Seq<Option<ObjectIdView>>,
    pub return_type: Seq<char>,
    pub return_type_id: Option<ObjectIdView>,
    pub volatility: Volatility,
    pub language: Seq<char>,
    pub security: SecurityMode,
}

impl View for FunctionState {
    type V = FunctionStateView;

    open spec fn view(&self) -> FunctionStateView {
        FunctionStateView {
            id: self.id.deep_view(),
            routine_kind: self.routine_kind.deep_view(),
            arg_types: self.arg_types.deep_view(),
            arg_type_ids: self.arg_type_ids.deep_view(),
            return_type: self.return_type.deep_view(),
            return_type_id: self.return_type_id.deep_view(),
            volatility: self.volatility.deep_view(),
            language: self.language.deep_view(),
            security: self.security.deep_view(),
        }
    }
}

impl DeepView for FunctionState {
    type V = FunctionStateView;

    open spec fn deep_view(&self) -> FunctionStateView {
        self@
    }
}

impl Dup for FunctionState {
    fn dup(&self) -> (r: Self) {
        FunctionState {
            id: self.id.dup(),
            routine_kind: self.routine_kind.dup(),
            arg_types: self.arg_types.dup(),
            arg_type_ids: self.arg_type_ids.dup(),
            return_type: self.return_type.dup(),
            return_type_id: self.return_type_id.dup(),
            volatility: self.volatility.dup(),
            language: self.language.dup(),
            security: self.security.dup(),
        }
    }
}

pub type FunctionOverlay = Overlay<FunctionState>;

} // verus!
