//! Moving routines to another name or schema.
use crate::collections::{Dup, Key};
use crate::graph::{edge, with_function_renamed, DependencyEdge, DependencyEdgeView, DependencyKind, DependencyKindView};
use crate::identifiers::{ObjectId, ObjectIdView};
use crate::model::function::FunctionStateView;
use crate::model::Overlay;
use crate::state::journal::{group_steps, kept, kept_as, EdgeUndo};
use crate::state::lookup::{present, schema_target_checked, state_of};
use crate::state::{AnalysisState, MutationResult, MutationResultView, StateData};
use crate::text::join3;
use vstd::prelude::*;

verus! {

broadcast use group_steps;

pub open spec fn functions_moved(m: Map<ObjectIdView, Overlay<FunctionStateView>>, from: ObjectIdView, to: ObjectIdView) -> Map<
    ObjectIdView,
    Overlay<FunctionStateView>,
> {
    if present(m, from) {
        m.remove(from).insert(to, Overlay::Present(FunctionStateView { id: to, ..state_of(m, from) }))
    } else {
        m.remove(from)
    }
}

pub open spec fn routine_edges_moved(g: Seq<DependencyEdgeView>, from: ObjectIdView, to: ObjectIdView) -> Seq<DependencyEdgeView> {
    g.map_values(|e: DependencyEdgeView| with_function_renamed(e, from, to)).push(edge(from, to, DependencyKindView::RenameTo))
}

/// The data after a routine moved.
#[verifier::opaque]
pub open spec fn function_moved(d: StateData, from: ObjectIdView, to: ObjectIdView) -> StateData {
    StateData { functions: functions_moved(d.functions, from, to), graph: routine_edges_moved(d.graph, from, to), ..d }
}

/// What checking the new identity of a routine leads to.
pub open spec fn function_move_checked(d: StateData, from: ObjectIdView, to: ObjectIdView) -> (StateData, Option<MutationResultView>) {
    if from == to {
        (d, None)
    } else if schema_target_checked(d, to.schema).1 is Some {
        schema_target_checked(d, to.schema)
    } else if present(d.functions, to) {
        (d, Some(MutationResultView::Conflict { reason: "routine '"@ + to.shown() + "' already exists"@ }))
    } else {
        (d, None)
    }
}

/// A routine that moved is found under its new identity and, unless that is
/// its old one, not under the old one.
pub proof fn law_move_keeps_routine(d: StateData, from: ObjectIdView, to: ObjectIdView)
    requires
        present(d.functions, from),
    ensures
        present(function_moved(d, from, to).functions, to),
        state_of(function_moved(d, from, to).functions, to) == (FunctionStateView { id: to, ..state_of(d.functions, from) }),
        from != to ==> !present(function_moved(d, from, to).functions, from),
{
    reveal(function_moved);
}

impl AnalysisState {
    /// Moves a routine, and what depends on it.
    pub fn move_function(&mut self, old_id: &ObjectId, new_id: &ObjectId)
        ensures
            final(self)@.data == function_moved(old(self)@.data, old_id@, new_id@),
            kept_as(old(self)@, final(self)@, EdgeUndo::PutBack),
    {
        proof {
            reveal(function_moved);
        }
        let ghost d = self@.data;
        let function = match self.present_function(old_id) {
            Some(function) => Some(function.dup()),
            None => None,
        };
        self.remove_function(old_id);
        if let Some(function) = function {
            let mut function = function;
            function.id = new_id.dup();
            self.put_function(new_id, Overlay::Present(function));
        }
        let mut graph = self.graph().dup();
        graph.propagate_function_rename(old_id, new_id);
        graph.add_edge(DependencyEdge::new(old_id.dup(), new_id.dup(), DependencyKind::RenameTo));
        self.set_graph(graph);
    }

    /// Checks that a routine can move.
    pub fn validate_function_move(&mut self, old_id: &ObjectId, new_id: &ObjectId) -> (r: Result<(), MutationResult>)
        ensures
            ({
                let (data, outcome) = function_move_checked(old(self)@.data, old_id@, new_id@);
                &&& final(self)@.data == data
                &&& match r {
                    Ok(_) => outcome is None,
                    Err(result) => outcome == Some(result@),
                }
            }),
            kept(old(self)@, final(self)@),
    {
        if old_id.same(new_id) {
            return Ok(());
        }
        match self.ensure_schema_target(&new_id.schema) {
            Ok(_) => {},
            Err(result) => {
                return Err(result);
            },
        }
        if self.routine_is_present(new_id) {
            Err(MutationResult::Conflict { reason: join3("routine '", &new_id.show(), "' already exists") })
        } else {
            Ok(())
        }
    }
}

} // verus!
