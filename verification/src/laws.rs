//! What statements do to the modeled catalog, said of the catalog before a
//! statement and the catalog after it.
//!
//! A law names what is there by looking into the data itself. How a statement
//! comes to its outcome is told where the statement is applied; here stands what
//! the outcome has to be.
use crate::evidence::EvidenceCode;
use crate::graph::{DependencyEdgeView, DependencyKindView};
use crate::identifiers::ObjectIdView;
use crate::model::column::ColumnView;
use crate::model::Overlay;
use crate::mutations::Mutation;
use crate::state::apply::{applied, executed, is_control, is_on_objects, object_effect, other_effect};
use crate::state::cascade::CascadeView;
use crate::state::unmodeled::is_unmodeled;
use crate::state::{AnalysisStateView, MutationResultView, StateData};
use vstd::prelude::*;

pub mod columns;
pub mod constraints;
pub mod dependents;
pub mod drops;
pub mod edges;
pub mod expressions;
pub mod gaps;
pub mod keys;
pub mod lookups;
pub mod memberships;
pub mod names;
pub mod objects;
pub mod privileges;
pub mod renames;
pub mod replication;
pub mod schemas;
pub mod sequences;
pub mod session;
pub mod start;
pub mod statements;
pub mod tables;
pub mod timeouts;
pub mod transactions;
pub mod types;

verus! {

/// What a family holds under a name, where it is present.
pub open spec fn at<K, V>(m: Map<K, Overlay<V>>, k: K) -> Option<V> {
    if m.dom().contains(k) {
        match m[k] {
            Overlay::Present(v) => Some(v),
            Overlay::Dropped => None,
        }
    } else {
        None
    }
}

/// Whether two families hold the same under every name but one.
pub open spec fn same_but<K, V>(a: Map<K, V>, b: Map<K, V>, k: K) -> bool {
    forall|x: K| x != k ==> (#[trigger] a.dom().contains(x) <==> b.dom().contains(x)) && (a.dom().contains(x) ==> a[x] == b[x])
}

/// Whether there is an edge.
pub open spec fn has_edge(d: StateData, dependent: ObjectIdView, referenced: ObjectIdView, kind: DependencyKindView) -> bool {
    exists|i: int| 0 <= i < d.graph.len() && #[trigger] d.graph[i] == (DependencyEdgeView { dependent, referenced, kind })
}

/// Whether a gap of some sort is on record.
pub open spec fn has_evidence(d: StateData, code: EvidenceCode) -> bool {
    exists|i: int| 0 <= i < d.evidence.len() && (#[trigger] d.evidence[i]).code == code
}

/// The columns of a table that is present.
pub open spec fn columns_at(d: StateData, id: ObjectIdView) -> Seq<ColumnView> {
    at(d.relations, id)->0.columns
}

/// Whether a table has a column of that name.
pub open spec fn column_at(d: StateData, id: ObjectIdView, name: Seq<char>) -> bool {
    exists|i: int| 0 <= i < columns_at(d, id).len() && (#[trigger] columns_at(d, id)[i]).name == name
}

/// A statement on relations, schemas or sequences that is executed leads to
/// what it leads to.
pub(crate) proof fn lemma_on_objects(s: AnalysisStateView, m: Mutation, c: Option<CascadeView>, t: AnalysisStateView, r: MutationResultView)
    requires
        applied(s, m, c, t, r),
        r is Applied || !s.aborted,
        is_on_objects(m),
        !is_unmodeled(m),
        !is_control(m),
    ensures
        object_effect(s, m, c, t.data, r),
{
    let aborted = choose|aborted: bool| #[trigger]
        executed(s, m, c, AnalysisStateView { aborted, ..t }, r) && t.aborted == (aborted || (r is Conflict && t.frames.len() > 0));
}

/// The same for the other statements.
pub(crate) proof fn lemma_on_others(s: AnalysisStateView, m: Mutation, c: Option<CascadeView>, t: AnalysisStateView, r: MutationResultView)
    requires
        applied(s, m, c, t, r),
        r is Applied || !s.aborted,
        !is_on_objects(m),
        !is_unmodeled(m),
        !is_control(m),
    ensures
        other_effect(s, m, t.data, r),
{
    let aborted = choose|aborted: bool| #[trigger]
        executed(s, m, c, AnalysisStateView { aborted, ..t }, r) && t.aborted == (aborted || (r is Conflict && t.frames.len() > 0));
}

} // verus!
