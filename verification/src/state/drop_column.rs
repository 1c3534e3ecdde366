//! `ALTER TABLE ... DROP COLUMN`.
use crate::cache::CatalogFamily;
use crate::collections::{lemma_filter_all, lemma_filtered, set_of, vec_any, vec_contains, vec_filter, vec_map, Dup, Key, VecSet};
use crate::graph::{resolved, DependencyEdge, DependencyEdgeView, DependencyKind, DependencyKindView};
use crate::identifiers::{ObjectId, ObjectIdView};
use crate::model::column::{Column, ColumnView};
use crate::model::column_action::has_column;
use crate::model::constraint::{ConstraintState, ConstraintStateView};
use crate::model::sequence::SequenceOverlay;
use crate::model::Overlay;
use crate::reach::{reach, reachable};
use crate::state::alter_column::{column_missing, columns_of, owned_by_column, with_columns, with_graph};
use crate::state::alter_constraint::columns_known;
use crate::state::apply_schema::{drop_where, dropped_where};
use crate::state::apply_view_index::family_without;
use crate::state::cascade::{cascade_for, constraints_removed, edge_is_current, CascadeResult, CascadeView};
use crate::state::journal::{group_steps, if_applied, kept, kept_as, namespace_of, undone, with_namespace, EdgeUndo};
use crate::state::lookup::{present, scoped_family_object};
use crate::state::refusal::{refused, Refusal, RefusalView};
use crate::state::{data_of, AnalysisState, MutationResult, MutationResultView, StateData};
use crate::text::{join5};
use crate::transaction::{NamespaceSnapshot, NamespaceSnapshotView};
use vstd::prelude::*;

verus! {

broadcast use group_steps;

/// Whether a list of columns names one of a set.
pub open spec fn meets(columns: Seq<Seq<char>>, set: Set<Seq<char>>) -> bool {
    exists|i: int| 0 <= i < columns.len() && set.contains(#[trigger] columns[i])
}

/// Whether a column is generated from the one that is dropped.
pub open spec fn is_generated_from(d: StateData, e: DependencyEdgeView, table: ObjectIdView, name: Seq<char>) -> bool {
    edge_is_current(d, e) && match e.kind {
        DependencyKindView::ColumnGeneratedFrom { column, depends_on_column } => (resolved(d.graph, e.dependent) == table || resolved(
            d.graph,
            e.referenced,
        ) == table) && column != name && depends_on_column == name,
        _ => false,
    }
}

pub open spec fn generated_column(e: DependencyEdgeView) -> Seq<char> {
    match e.kind {
        DependencyKindView::ColumnGeneratedFrom { column, .. } => column,
        _ => Seq::empty(),
    }
}

/// Whether another column than the dropped one is generated from a column of
/// the same table.
pub open spec fn generates_further(d: StateData, e: DependencyEdgeView, table: ObjectIdView, name: Seq<char>, from: Seq<char>) -> bool {
    match e.kind {
        DependencyKindView::ColumnGeneratedFrom { column, depends_on_column } => resolved(d.graph, e.dependent) == table && resolved(
            d.graph,
            e.referenced,
        ) == table && column != name && depends_on_column == from,
        _ => false,
    }
}

/// The columns that are generated from the dropped one at first hand.
pub open spec fn first_generated(d: StateData, table: ObjectIdView, name: Seq<char>, cascade: bool) -> Seq<Seq<char>> {
    if cascade {
        d.graph.filter(|e: DependencyEdgeView| is_generated_from(d, e, table, name)).map_values(|e: DependencyEdgeView| generated_column(e))
    } else {
        Seq::empty()
    }
}

pub open spec fn next_generated(d: StateData, table: ObjectIdView, name: Seq<char>, from: Seq<char>) -> Seq<Seq<char>> {
    d.graph.filter(|e: DependencyEdgeView| generates_further(d, e, table, name, from)).map_values(|e: DependencyEdgeView| generated_column(e))
}

/// The generated columns that fall with a column.
#[verifier::opaque]
pub open spec fn generated_with(d: StateData, table: ObjectIdView, name: Seq<char>, cascade: bool) -> Set<Seq<char>> {
    Set::new(|c: Seq<char>| reachable(|from: Seq<char>| next_generated(d, table, name, from), first_generated(d, table, name, cascade), c))
}

/// What is asked about the drop of a column.
pub struct ColumnDrop {
    pub table: ObjectId,
    pub name: String,
    pub cascade: bool,
    pub generated: VecSet<String>,
}

pub struct ColumnDropView {
    pub table: ObjectIdView,
    pub name: Seq<char>,
    pub cascade: bool,
    pub generated: Set<Seq<char>>,
}

impl View for ColumnDrop {
    type V = ColumnDropView;

    open spec fn view(&self) -> ColumnDropView {
        ColumnDropView { table: self.table@, name: self.name@, cascade: self.cascade, generated: self.generated@ }
    }
}

impl ColumnDropView {
    /// The columns that go.
    pub open spec fn gone(self) -> Set<Seq<char>> {
        self.generated.insert(self.name)
    }
}

/// Whether a constraint falls with the columns. A foreign key of the table to
/// itself falls with its own columns, and with generated ones that it refers
/// to.
pub open spec fn key_falls(d: StateData, e: DependencyEdgeView, q: ColumnDropView) -> bool {
    let dependent = resolved(d.graph, e.dependent);
    let referenced = resolved(d.graph, e.referenced);
    edge_is_current(d, e) && match e.kind {
        DependencyKindView::ForeignKey { from_columns, to_columns, .. } => {
            ||| dependent == q.table && meets(from_columns, q.gone())
            ||| dependent != q.table && referenced == q.table && to_columns.contains(q.name)
            ||| referenced == q.table && meets(to_columns, q.generated)
        },
        DependencyKindView::ConstraintOnRelation { columns, .. } => dependent == q.table && meets(columns, q.gone()),
        DependencyKindView::ConstraintDependency { columns, .. } => dependent == q.table && meets(columns, q.gone()),
        _ => false,
    }
}

pub open spec fn key_of(e: DependencyEdgeView) -> Option<Seq<char>> {
    match e.kind {
        DependencyKindView::ForeignKey { constraint_name, .. } => constraint_name,
        DependencyKindView::ConstraintOnRelation { constraint_name, .. } => Some(constraint_name),
        DependencyKindView::ConstraintDependency { constraint_name, .. } => Some(constraint_name),
        _ => None,
    }
}

pub open spec fn index_falls(d: StateData, e: DependencyEdgeView, q: ColumnDropView) -> bool {
    edge_is_current(d, e) && resolved(d.graph, e.referenced) == q.table && match e.kind {
        DependencyKindView::IndexOnRelation { dependency_columns, dependency_columns_known, .. } => dependency_columns_known && meets(
            dependency_columns,
            q.gone(),
        ),
        _ => false,
    }
}

pub open spec fn view_falls(d: StateData, e: DependencyEdgeView, q: ColumnDropView) -> bool {
    edge_is_current(d, e) && resolved(d.graph, e.referenced) == q.table && match e.kind {
        DependencyKindView::ViewDependency { referenced_column, .. } => match referenced_column {
            Some(column) => (column == q.name && q.cascade) || q.generated.contains(column),
            None => false,
        },
        _ => false,
    }
}

/// Whether an edge leaves open whether it depends on the column.
pub open spec fn edge_is_open(d: StateData, e: DependencyEdgeView, q: ColumnDropView) -> bool {
    let dependent = resolved(d.graph, e.dependent);
    let referenced = resolved(d.graph, e.referenced);
    edge_is_current(d, e) && match e.kind {
        DependencyKindView::ForeignKey { constraint_name, from_columns, to_columns, .. } => {
            ||| dependent == q.table && from_columns.len() == 0
            ||| dependent != q.table && referenced == q.table && to_columns.len() == 0
            ||| constraint_name is None && key_falls(d, e, q)
        },
        DependencyKindView::ConstraintOnRelation { columns, .. } => dependent == q.table && columns.len() == 0,
        DependencyKindView::IndexOnRelation { dependency_columns_known, .. } => referenced == q.table && !dependency_columns_known,
        DependencyKindView::ViewDependency { referenced_column, .. } => referenced == q.table && referenced_column is None,
        _ => false,
    }
}

/// Whether an edge shows that something depends on the column that does not
/// fall with it silently.
pub open spec fn edge_depends(d: StateData, e: DependencyEdgeView, q: ColumnDropView) -> bool {
    let dependent = resolved(d.graph, e.dependent);
    let referenced = resolved(d.graph, e.referenced);
    edge_is_current(d, e) && match e.kind {
        DependencyKindView::ForeignKey { from_columns, to_columns, .. } => if dependent == q.table {
            from_columns.contains(q.name)
        } else {
            referenced == q.table && to_columns.contains(q.name)
        },
        DependencyKindView::ConstraintOnRelation { columns, .. } => dependent == q.table && columns.contains(q.name),
        DependencyKindView::ConstraintDependency { columns, .. } => dependent == q.table && columns.contains(q.name),
        DependencyKindView::ViewDependency { referenced_column, .. } => referenced == q.table && referenced_column == Some(q.name),
        DependencyKindView::ColumnGeneratedFrom { .. } => is_generated_from(d, e, q.table, q.name),
        _ => false,
    }
}

/// Whether an edge gives the columns of a constraint.
pub open spec fn represents(e: DependencyEdgeView, table: ObjectIdView, name: Seq<char>) -> bool {
    match e.kind {
        DependencyKindView::ConstraintOnRelation { constraint_name, .. } => e.dependent == table && constraint_name == name,
        DependencyKindView::ConstraintDependency { constraint_name, .. } => e.dependent == table && constraint_name == name,
        DependencyKindView::ForeignKey { constraint_name, .. } => (e.dependent == table || e.referenced == table) && constraint_name == Some(name),
        _ => false,
    }
}

pub open spec fn is_represented(d: StateData, table: ObjectIdView, name: Seq<char>) -> bool {
    exists|i: int| 0 <= i < d.graph.len() && represents(#[trigger] d.graph[i], table, name)
}

/// Whether a constraint of the table has no edge, so that its columns are not
/// known.
pub open spec fn has_open_constraint(d: StateData, table: ObjectIdView) -> bool {
    exists|key: (ObjectIdView, Seq<char>)| #[trigger]
        d.constraints.dom().contains(key) && resolved(d.graph, key.0) == table && !is_represented(d, table, key.1)
}

pub open spec fn drop_is_open(d: StateData, q: ColumnDropView) -> bool {
    ||| exists|i: int| 0 <= i < d.graph.len() && edge_is_open(d, #[trigger] d.graph[i], q)
    ||| has_open_constraint(d, q.table)
}

pub open spec fn column_is_needed(d: StateData, q: ColumnDropView) -> bool {
    exists|i: int| 0 <= i < d.graph.len() && edge_depends(d, #[trigger] d.graph[i], q)
}

pub open spec fn column_drop(d: StateData, id: ObjectIdView, name: Seq<char>, cascade: bool) -> ColumnDropView {
    let table = resolved(d.graph, id);
    ColumnDropView { table, name, cascade, generated: generated_with(d, table, name, cascade) }
}

/// Why a column cannot be dropped.
#[verifier::opaque]
pub open spec fn drop_refusal(d: StateData, id: ObjectIdView, name: Seq<char>, if_exists: bool, cascade: bool) -> Option<RefusalView> {
    let q = column_drop(d, id, name, cascade);
    if !columns_known(d, id) {
        Some(RefusalView::Uncovered)
    } else if !has_column(columns_of(d, id), name) {
        Some(
            if if_exists {
                RefusalView::NoEffect
            } else {
                column_missing(id, name)
            },
        )
    } else if d.baseline_relations.contains(q.table) && (!d.baseline_coverage.families.contains(CatalogFamily::Dependencies) || scoped_family_object(
        d,
        q.table,
        CatalogFamily::Relations,
    )) {
        Some(RefusalView::Uncovered)
    } else if drop_is_open(d, q) {
        Some(RefusalView::Uncovered)
    } else if column_is_needed(d, q) && !cascade {
        Some(RefusalView::Conflict("column '"@ + id.shown() + "."@ + name + "' has dependent objects; use CASCADE"@))
    } else {
        None
    }
}

/// The constraints that fall.
pub open spec fn falling_keys(d: StateData, q: ColumnDropView) -> Set<(ObjectIdView, Seq<char>)> {
    d.graph.filter(|e: DependencyEdgeView| key_falls(d, e, q) && key_of(e) is Some).map_values(
        |e: DependencyEdgeView| (resolved(d.graph, e.dependent), key_of(e)->0),
    ).to_set()
}

pub open spec fn falling_indexes(d: StateData, q: ColumnDropView) -> Set<ObjectIdView> {
    d.graph.filter(|e: DependencyEdgeView| index_falls(d, e, q)).map_values(|e: DependencyEdgeView| resolved(d.graph, e.dependent)).to_set()
}

pub open spec fn falling_views(d: StateData, q: ColumnDropView) -> Seq<ObjectIdView> {
    d.graph.filter(|e: DependencyEdgeView| view_falls(d, e, q)).map_values(|e: DependencyEdgeView| resolved(d.graph, e.dependent))
}

pub open spec fn is_falling_key_edge(d: StateData, e: DependencyEdgeView, keys: Set<(ObjectIdView, Seq<char>)>) -> bool {
    key_of(e) is Some && keys.contains((resolved(d.graph, e.dependent), key_of(e)->0))
}

/// The data without constraints and their edges.
#[verifier::opaque]
pub open spec fn without_keys_and_edges(d: StateData, keys: Set<(ObjectIdView, Seq<char>)>) -> StateData {
    let d1 = constraints_removed(d, CascadeView { relations: Set::empty(), indexes: Set::empty(), constraints: keys });
    with_graph(d1, d1.graph.filter(|e: DependencyEdgeView| !is_falling_key_edge(d1, e, keys)))
}

/// Whether an edge is about a column that is gone, or an index that fell.
pub open spec fn has_stale_edge(d: StateData, id: ObjectIdView, gone: Set<Seq<char>>, indexes: Set<ObjectIdView>) -> bool {
    exists|i: int| 0 <= i < d.graph.len() && is_stale_edge(d, #[trigger] d.graph[i], id, gone, indexes)
}

pub open spec fn stale_edge_undo(d: StateData, id: ObjectIdView, gone: Set<Seq<char>>, indexes: Set<ObjectIdView>) -> EdgeUndo {
    if indexes == Set::<ObjectIdView>::empty() && !has_stale_edge(d, id, gone, indexes) {
        EdgeUndo::Stay
    } else {
        EdgeUndo::PutBack
    }
}

/// How dropping a column is undone: it has to do with edges only where
/// something falls with the column.
pub open spec fn column_edge_undo(d: StateData, id: ObjectIdView, q: ColumnDropView) -> EdgeUndo {
    if falling_keys(d, q) == Set::<(ObjectIdView, Seq<char>)>::empty() && falling_views(d, q).len() == 0 && owned_sequences(d, id, q.name) == Set::<
        ObjectIdView,
    >::empty() {
        stale_edge_undo(d, id, q.gone(), falling_indexes(d, q))
    } else {
        EdgeUndo::PutBack
    }
}

proof fn lemma_nothing_owned(d: StateData)
    ensures
        with_namespace(d, namespace_without_owned(d, namespace_of(d), Set::empty())) == d,
{
    reveal(namespace_without_owned);
    reveal(crate::state::journal::undone);
    let none = Set::<ObjectIdView>::empty();
    let n = namespace_without_owned(d, namespace_of(d), none);
    assert(n.sequences =~= d.sequences);
    lemma_filter_all(d.graph, |e: DependencyEdgeView| !(e.kind is SequenceOwnedBy && none.contains(e.dependent)));
}

/// A filter that keeps the length keeps all.
proof fn lemma_full_filter(s: Seq<DependencyEdgeView>, p: spec_fn(DependencyEdgeView) -> bool)
    requires
        s.filter(p).len() == s.len(),
    ensures
        forall|i: int| 0 <= i < s.len() ==> p(#[trigger] s[i]),
        s.filter(p) == s,
    decreases s.len(),
{
    reveal(Seq::filter);
    if s.len() > 0 {
        let t = s.drop_last();
        t.lemma_filter_len(p);
        lemma_full_filter(t, p);
        assert forall|i: int| 0 <= i < s.len() implies p(#[trigger] s[i]) by {
            if i < s.len() - 1 {
                assert(p(t[i]));
            }
        }
        assert(t.push(s.last()) =~= s);
    }
}

/// The data without views and what falls with them.
#[verifier::opaque]
pub open spec fn without_views(d: StateData, views: Seq<ObjectIdView>) -> StateData {
    if views.len() == 0 {
        d
    } else {
        family_without(d, cascade_for(d, views.to_set()), true)
    }
}

/// Whether an edge is about a column that is gone, or an index that fell.
pub open spec fn is_stale_edge(d: StateData, e: DependencyEdgeView, id: ObjectIdView, gone: Set<Seq<char>>, indexes: Set<ObjectIdView>) -> bool {
    match e.kind {
        DependencyKindView::ColumnGeneratedFrom { column, .. } => resolved(d.graph, e.dependent) == resolved(d.graph, id) && gone.contains(column),
        DependencyKindView::ColumnDefaultOnSequence { column } => resolved(d.graph, e.dependent) == resolved(d.graph, id) && gone.contains(column),
        DependencyKindView::IndexOnRelation { .. } => indexes.contains(e.dependent),
        _ => false,
    }
}

/// The data without edges of columns that are gone.
#[verifier::opaque]
pub open spec fn without_stale_edges(d: StateData, id: ObjectIdView, gone: Set<Seq<char>>, indexes: Set<ObjectIdView>) -> StateData {
    with_graph(d, d.graph.filter(|e: DependencyEdgeView| !is_stale_edge(d, e, id, gone, indexes)))
}

/// The namespace without the sequences that a column owned.
#[verifier::opaque]
pub open spec fn namespace_without_owned(d: StateData, n: NamespaceSnapshotView, owned: Set<ObjectIdView>) -> NamespaceSnapshotView {
    NamespaceSnapshotView {
        sequences: dropped_where(d.sequences, |s: ObjectIdView| owned.contains(s)),
        graph: d.graph.filter(|e: DependencyEdgeView| !(e.kind is SequenceOwnedBy && owned.contains(e.dependent))),
        ..n
    }
}

pub open spec fn owned_sequences(d: StateData, id: ObjectIdView, name: Seq<char>) -> Set<ObjectIdView> {
    Set::new(|s: ObjectIdView| owned_by_column(d, s, id, name))
}

/// The data without a column and all that falls with it.
#[verifier::opaque]
pub open spec fn without_column(d: StateData, id: ObjectIdView, q: ColumnDropView) -> StateData {
    let d1 = with_columns(d, id, columns_of(d, id).filter(|c: ColumnView| !q.gone().contains(c.name)));
    let d2 = without_keys_and_edges(d1, falling_keys(d, q));
    let d3 = without_views(d2, falling_views(d, q));
    let d4 = without_stale_edges(d3, id, q.gone(), falling_indexes(d, q));
    with_namespace(d4, namespace_without_owned(d4, namespace_of(d4), owned_sequences(d, id, q.name)))
}

/// `DROP COLUMN`.
pub open spec fn column_dropped(d: StateData, id: ObjectIdView, name: Seq<char>, if_exists: bool, cascade: bool) -> (StateData, MutationResultView) {
    let refusal = drop_refusal(d, id, name, if_exists, cascade);
    if refusal is Some {
        refused(d, refusal->0)
    } else {
        (without_column(d, id, column_drop(d, id, name, cascade)), MutationResultView::Applied)
    }
}

/// A column that something depends on stays unless `CASCADE` is given.
pub proof fn law_needed_column_is_not_dropped(d: StateData, id: ObjectIdView, name: Seq<char>, if_exists: bool)
    requires
        column_is_needed(d, column_drop(d, id, name, false)),
    ensures
        !(column_dropped(d, id, name, if_exists, false).1 is Applied),
{
    reveal(drop_refusal);
    crate::state::refusal::lemma_refused(d, drop_refusal(d, id, name, if_exists, false)->0);
}

// ---------------------------------------------------------------------------
// Execution
// ---------------------------------------------------------------------------

fn names_meet(columns: &Vec<String>, set: &VecSet<String>) -> (r: bool)
    ensures
        r == meets(columns.deep_view(), set@),
{
    let is = |c: &String| -> (b: bool)
        ensures
            b == set@.contains(c@),
        { set.contains(c) };
    vec_any(columns, is, Ghost(|c: Seq<char>| set@.contains(c)))
}

/// Whether a list names the dropped column or a generated one.
fn names_gone(columns: &Vec<String>, q: &ColumnDrop) -> (r: bool)
    ensures
        r == meets(columns.deep_view(), q@.gone()),
{
    let is = |c: &String| -> (b: bool)
        ensures
            b == q@.gone().contains(c@),
        { *c == q.name || q.generated.contains(c) };
    vec_any(columns, is, Ghost(|c: Seq<char>| q@.gone().contains(c)))
}

fn key_name_of(e: &DependencyEdge) -> (r: Option<String>)
    ensures
        r.deep_view() == key_of(e@),
{
    match &e.kind {
        DependencyKind::ForeignKey { constraint_name, .. } => constraint_name.dup(),
        DependencyKind::ConstraintOnRelation { constraint_name, .. } => Some(constraint_name.clone()),
        DependencyKind::ConstraintDependency { constraint_name, .. } => Some(constraint_name.clone()),
        _ => None,
    }
}

fn generated_column_of(e: &DependencyEdge) -> (r: String)
    ensures
        r@ == generated_column(e@),
{
    match &e.kind {
        DependencyKind::ColumnGeneratedFrom { column, .. } => column.clone(),
        _ => {
            let r = String::new();
            assert(r@ =~= Seq::<char>::empty());
            r
        },
    }
}

fn represents_constraint(e: &DependencyEdge, table: &ObjectId, name: &String) -> (r: bool)
    ensures
        r == represents(e@, table@, name@),
{
    match &e.kind {
        DependencyKind::ConstraintOnRelation { constraint_name, .. } => e.dependent.same(table) && *constraint_name == *name,
        DependencyKind::ConstraintDependency { constraint_name, .. } => e.dependent.same(table) && *constraint_name == *name,
        DependencyKind::ForeignKey { constraint_name, .. } => (e.dependent.same(table) || e.referenced.same(table)) && match constraint_name {
            Some(other) => *other == *name,
            None => false,
        },
        _ => false,
    }
}

impl AnalysisState {
    fn is_generated_from(&self, e: &DependencyEdge, table: &ObjectId, name: &String) -> (r: bool)
        ensures
            r == is_generated_from(self@.data, e@, table@, name@),
    {
        self.dependency_edge_is_current(e) && match &e.kind {
            DependencyKind::ColumnGeneratedFrom { column, depends_on_column } => (self.graph().resolve_rename(&e.dependent).same(table)
                || self.graph().resolve_rename(&e.referenced).same(table)) && !(*column == *name) && *depends_on_column == *name,
            _ => false,
        }
    }

    fn generates_further(&self, e: &DependencyEdge, table: &ObjectId, name: &String, from: &String) -> (r: bool)
        ensures
            r == generates_further(self@.data, e@, table@, name@, from@),
    {
        match &e.kind {
            DependencyKind::ColumnGeneratedFrom { column, depends_on_column } => self.graph().resolve_rename(&e.dependent).same(table)
                && self.graph().resolve_rename(&e.referenced).same(table) && !(*column == *name) && *depends_on_column == *from,
            _ => false,
        }
    }

    fn first_generated(&self, table: &ObjectId, name: &String, cascade: bool) -> (r: Vec<String>)
        ensures
            r.deep_view() == first_generated(self@.data, table@, name@, cascade),
    {
        if !cascade {
            let r: Vec<String> = Vec::new();
            assert(r.deep_view() =~= Seq::<Seq<char>>::empty());
            return r;
        }
        let is = |e: &DependencyEdge| -> (b: bool)
            ensures
                b == is_generated_from(self@.data, e@, table@, name@),
            { self.is_generated_from(e, table, name) };
        let ghost d = self@.data;
        let list = vec_filter(self.graph().edges(), is, Ghost(|e: DependencyEdgeView| is_generated_from(d, e, table@, name@)));
        let make = |e: &DependencyEdge| -> (x: String)
            ensures
                x@ == generated_column(e@),
            { generated_column_of(e) };
        vec_map(&list, make, Ghost(|e: DependencyEdgeView| generated_column(e)))
    }

    fn next_generated(&self, table: &ObjectId, name: &String, from: &String) -> (r: Vec<String>)
        ensures
            r.deep_view() == next_generated(self@.data, table@, name@, from@),
    {
        let is = |e: &DependencyEdge| -> (b: bool)
            ensures
                b == generates_further(self@.data, e@, table@, name@, from@),
            { self.generates_further(e, table, name, from) };
        let ghost d = self@.data;
        let list = vec_filter(self.graph().edges(), is, Ghost(|e: DependencyEdgeView| generates_further(d, e, table@, name@, from@)));
        let make = |e: &DependencyEdge| -> (x: String)
            ensures
                x@ == generated_column(e@),
            { generated_column_of(e) };
        vec_map(&list, make, Ghost(|e: DependencyEdgeView| generated_column(e)))
    }

    fn generated_with(&self, table: &ObjectId, name: &String, cascade: bool) -> (r: VecSet<String>)
        ensures
            r@ == generated_with(self@.data, table@, name@, cascade),
    {
        let ghost d = self@.data;
        let roots = self.first_generated(table, name, cascade);
        let ghost starts = roots.deep_view();
        let follow = |from: &String| -> (v: Vec<String>)
            ensures
                v.deep_view() == next_generated(self@.data, table@, name@, from@),
            { self.next_generated(table, name, from) };
        let ghost next = |from: Seq<char>| next_generated(d, table@, name@, from);
        let ghost keys = d.graph.map_values(
            |e: DependencyEdgeView|
                match e.kind {
                    DependencyKindView::ColumnGeneratedFrom { depends_on_column, .. } => depends_on_column,
                    _ => Seq::empty(),
                },
        );
        proof {
            assert forall|c: Seq<char>| #[trigger] next(c).len() > 0 implies keys.contains(c) by {
                let p = |e: DependencyEdgeView| generates_further(d, e, table@, name@, c);
                let list = d.graph.filter(p);
                assert(list.len() > 0);
                lemma_filtered(d.graph, p);
                assert(list.contains(list[0]));
                assert(d.graph.contains(list[0]) && p(list[0]));
                let i = choose|i: int| 0 <= i < d.graph.len() && d.graph[i] == list[0];
                assert(keys[i] == c);
            }
        }
        let found = reach(roots, follow, Ghost(next), Ghost(keys));
        proof {
            reveal(generated_with);
            assert(found@ =~= generated_with(d, table@, name@, cascade));
        }
        found
    }

    fn key_falls(&self, e: &DependencyEdge, q: &ColumnDrop) -> (r: bool)
        ensures
            r == key_falls(self@.data, e@, q@),
    {
        if !self.dependency_edge_is_current(e) {
            return false;
        }
        let here = self.graph().resolve_rename(&e.dependent).same(&q.table);
        let there = self.graph().resolve_rename(&e.referenced).same(&q.table);
        match &e.kind {
            DependencyKind::ForeignKey { from_columns, to_columns, .. } => (here && names_gone(from_columns, q)) || (!here && there && vec_contains(
                to_columns,
                &q.name,
            )) || (there && names_meet(to_columns, &q.generated)),
            DependencyKind::ConstraintOnRelation { columns, .. } => here && names_gone(columns, q),
            DependencyKind::ConstraintDependency { columns, .. } => here && names_gone(columns, q),
            _ => false,
        }
    }

    fn index_falls(&self, e: &DependencyEdge, q: &ColumnDrop) -> (r: bool)
        ensures
            r == index_falls(self@.data, e@, q@),
    {
        self.dependency_edge_is_current(e) && self.graph().resolve_rename(&e.referenced).same(&q.table) && match &e.kind {
            DependencyKind::IndexOnRelation { dependency_columns, dependency_columns_known, .. } => *dependency_columns_known && names_gone(
                dependency_columns,
                q,
            ),
            _ => false,
        }
    }

    fn view_falls(&self, e: &DependencyEdge, q: &ColumnDrop) -> (r: bool)
        ensures
            r == view_falls(self@.data, e@, q@),
    {
        self.dependency_edge_is_current(e) && self.graph().resolve_rename(&e.referenced).same(&q.table) && match &e.kind {
            DependencyKind::ViewDependency { referenced_column, .. } => match referenced_column {
                Some(column) => (*column == q.name && q.cascade) || q.generated.contains(column),
                None => false,
            },
            _ => false,
        }
    }

    fn edge_is_open(&self, e: &DependencyEdge, q: &ColumnDrop) -> (r: bool)
        ensures
            r == edge_is_open(self@.data, e@, q@),
    {
        if !self.dependency_edge_is_current(e) {
            return false;
        }
        let here = self.graph().resolve_rename(&e.dependent).same(&q.table);
        let there = self.graph().resolve_rename(&e.referenced).same(&q.table);
        match &e.kind {
            DependencyKind::ForeignKey { constraint_name, from_columns, to_columns, .. } => (here && from_columns.len() == 0) || (!here && there
                && to_columns.len() == 0) || (constraint_name.is_none() && self.key_falls(e, q)),
            DependencyKind::ConstraintOnRelation { columns, .. } => here && columns.len() == 0,
            DependencyKind::IndexOnRelation { dependency_columns_known, .. } => there && !*dependency_columns_known,
            DependencyKind::ViewDependency { referenced_column, .. } => there && referenced_column.is_none(),
            _ => false,
        }
    }

    fn edge_depends(&self, e: &DependencyEdge, q: &ColumnDrop) -> (r: bool)
        ensures
            r == edge_depends(self@.data, e@, q@),
    {
        if !self.dependency_edge_is_current(e) {
            return false;
        }
        let here = self.graph().resolve_rename(&e.dependent).same(&q.table);
        let there = self.graph().resolve_rename(&e.referenced).same(&q.table);
        match &e.kind {
            DependencyKind::ForeignKey { from_columns, to_columns, .. } => if here {
                vec_contains(from_columns, &q.name)
            } else {
                there && vec_contains(to_columns, &q.name)
            },
            DependencyKind::ConstraintOnRelation { columns, .. } => here && vec_contains(columns, &q.name),
            DependencyKind::ConstraintDependency { columns, .. } => here && vec_contains(columns, &q.name),
            DependencyKind::ViewDependency { referenced_column, .. } => there && match referenced_column {
                Some(column) => *column == q.name,
                None => false,
            },
            DependencyKind::ColumnGeneratedFrom { .. } => self.is_generated_from(e, &q.table, &q.name),
            _ => false,
        }
    }

    fn is_represented(&self, table: &ObjectId, name: &String) -> (r: bool)
        ensures
            r == is_represented(self@.data, table@, name@),
    {
        let is = |e: &DependencyEdge| -> (b: bool)
            ensures
                b == represents(e@, table@, name@),
            { represents_constraint(e, table, name) };
        self.graph().any_edge(is, Ghost(|e: DependencyEdgeView| represents(e, table@, name@)))
    }

    fn has_open_constraint(&self, table: &ObjectId) -> (r: bool)
        ensures
            r == has_open_constraint(self@.data, table@),
    {
        proof {
            reveal(data_of);
        }
        let ghost d = self@.data;
        let is = |key: &(ObjectId, String), c: &ConstraintState| -> (b: bool)
            ensures
                b == (resolved(self@.data.graph, key.deep_view().0) == table@ && !is_represented(self@.data, table@, key.deep_view().1)),
            { self.graph().resolve_rename(&key.0).same(table) && !self.is_represented(table, &key.1) };
        let ghost p = |key: (ObjectIdView, Seq<char>), c: ConstraintStateView| resolved(d.graph, key.0) == table@ && !is_represented(d, table@, key.1);
        let r = self.local.constraints.any(is, Ghost(p));
        proof {
            let m = self@.data.constraints;
            if r {
                let key = choose|key: (ObjectIdView, Seq<char>)| #[trigger] self.local.constraints@.dom().contains(key) && p(key, self.local.constraints@[key]);
                assert(m.dom().contains(key));
            } else {
                assert forall|key: (ObjectIdView, Seq<char>)| #[trigger] m.dom().contains(key) implies !(resolved(d.graph, key.0) == table@
                    && !is_represented(d, table@, key.1)) by {
                    assert(!p(key, self.local.constraints@[key]));
                }
            }
        }
        r
    }

    fn drop_is_open(&self, q: &ColumnDrop) -> (r: bool)
        ensures
            r == drop_is_open(self@.data, q@),
    {
        let is = |e: &DependencyEdge| -> (b: bool)
            ensures
                b == edge_is_open(self@.data, e@, q@),
            { self.edge_is_open(e, q) };
        let ghost d = self@.data;
        self.graph().any_edge(is, Ghost(|e: DependencyEdgeView| edge_is_open(d, e, q@))) || self.has_open_constraint(&q.table)
    }

    fn column_is_needed(&self, q: &ColumnDrop) -> (r: bool)
        ensures
            r == column_is_needed(self@.data, q@),
    {
        let is = |e: &DependencyEdge| -> (b: bool)
            ensures
                b == edge_depends(self@.data, e@, q@),
            { self.edge_depends(e, q) };
        let ghost d = self@.data;
        self.graph().any_edge(is, Ghost(|e: DependencyEdgeView| edge_depends(d, e, q@)))
    }

    fn column_drop(&self, id: &ObjectId, name: &String, cascade: bool) -> (r: ColumnDrop)
        ensures
            r@ == column_drop(self@.data, id@, name@, cascade),
    {
        let table = self.graph().resolve_rename(id).dup();
        let generated = self.generated_with(&table, name, cascade);
        ColumnDrop { table, name: name.clone(), cascade, generated }
    }

    fn drop_refusal(&self, id: &ObjectId, q: &ColumnDrop, if_exists: bool) -> (r: Option<Refusal>)
        requires
            present(self@.data.relations, id@),
            q@ == column_drop(self@.data, id@, q@.name, q@.cascade),
        ensures
            r.deep_view() == drop_refusal(self@.data, id@, q@.name, if_exists, q@.cascade),
    {
        proof {
            reveal(drop_refusal);
        }
        if !self.columns_known(id) {
            return Some(Refusal::Uncovered);
        }
        let found = match self.present_relation(id) {
            Some(relation) => relation.has_column(&q.name),
            None => false,
        };
        if !found {
            return Some(
                if if_exists {
                    Refusal::NoEffect
                } else {
                    Refusal::Conflict(join5("column '", &q.name, "' does not exist on relation '", &id.show(), "'"))
                },
            );
        }
        if self.baseline_relation_is_known(&q.table) && (!self.baseline_has_coverage(CatalogFamily::Dependencies)
            || self.baseline_scoped_family_object(&q.table, CatalogFamily::Relations)) {
            return Some(Refusal::Uncovered);
        }
        if self.drop_is_open(q) {
            return Some(Refusal::Uncovered);
        }
        if self.column_is_needed(q) && !q.cascade {
            return Some(Refusal::Conflict(join5("column '", &id.show(), ".", &q.name, "' has dependent objects; use CASCADE")));
        }
        None
    }

    fn falling_keys(&self, q: &ColumnDrop) -> (r: VecSet<(ObjectId, String)>)
        ensures
            r@ == falling_keys(self@.data, q@),
    {
        let ghost d = self@.data;
        let is = |e: &DependencyEdge| -> (b: bool)
            ensures
                b == (key_falls(self@.data, e@, q@) && key_of(e@) is Some),
            { self.key_falls(e, q) && key_name_of(e).is_some() };
        let list = vec_filter(
            self.graph().edges(),
            is,
            Ghost(|e: DependencyEdgeView| key_falls(d, e, q@) && key_of(e) is Some),
        );
        let ghost p = |e: DependencyEdgeView| key_falls(d, e, q@) && key_of(e) is Some;
        let ghost picked = d.graph.filter(p);
        let ghost make = |e: DependencyEdgeView| (resolved(d.graph, e.dependent), key_of(e)->0);
        let mut out: Vec<(ObjectId, String)> = Vec::new();
        let mut i: usize = 0;
        proof {
            lemma_filtered(d.graph, p);
        }
        while i < list.len()
            invariant
                i <= list.len(),
                out.len() == i,
                d == self@.data,
                list.deep_view() == picked,
                forall|j: int| 0 <= j < picked.len() ==> key_of(#[trigger] picked[j]) is Some,
                make == (|e: DependencyEdgeView| (resolved(d.graph, e.dependent), key_of(e)->0)),
                forall|j: int| 0 <= j < i ==> #[trigger] out@[j].deep_view() == make(picked[j]),
            decreases list.len() - i,
        {
            assert(picked[i as int] == list@[i as int]@);
            let name = match key_name_of(&list[i]) {
                Some(name) => name,
                None => String::new(),
            };
            out.push((self.graph().resolve_rename(&list[i].dependent).dup(), name));
            i = i + 1;
        }
        assert(out.deep_view() =~= picked.map_values(make));
        set_of(&out)
    }

    fn falling_indexes(&self, q: &ColumnDrop) -> (r: VecSet<ObjectId>)
        ensures
            r@ == falling_indexes(self@.data, q@),
    {
        let ghost d = self@.data;
        let is = |e: &DependencyEdge| -> (b: bool)
            ensures
                b == index_falls(self@.data, e@, q@),
            { self.index_falls(e, q) };
        let list = vec_filter(self.graph().edges(), is, Ghost(|e: DependencyEdgeView| index_falls(d, e, q@)));
        let make = |e: &DependencyEdge| -> (x: ObjectId)
            ensures
                x@ == resolved(self@.data.graph, e@.dependent),
            { self.graph().resolve_rename(&e.dependent).dup() };
        set_of(&vec_map(&list, make, Ghost(|e: DependencyEdgeView| resolved(d.graph, e.dependent))))
    }

    fn falling_views(&self, q: &ColumnDrop) -> (r: Vec<ObjectId>)
        ensures
            r.deep_view() == falling_views(self@.data, q@),
    {
        let ghost d = self@.data;
        let is = |e: &DependencyEdge| -> (b: bool)
            ensures
                b == view_falls(self@.data, e@, q@),
            { self.view_falls(e, q) };
        let list = vec_filter(self.graph().edges(), is, Ghost(|e: DependencyEdgeView| view_falls(d, e, q@)));
        let make = |e: &DependencyEdge| -> (x: ObjectId)
            ensures
                x@ == resolved(self@.data.graph, e@.dependent),
            { self.graph().resolve_rename(&e.dependent).dup() };
        vec_map(&list, make, Ghost(|e: DependencyEdgeView| resolved(d.graph, e.dependent)))
    }

    fn owned_sequences(&self, id: &ObjectId, name: &String) -> (r: VecSet<ObjectId>)
        ensures
            r@ == owned_sequences(self@.data, id@, name@),
    {
        proof {
            reveal(data_of);
        }
        let ghost d = self@.data;
        let is = |s: &ObjectId, o: &SequenceOverlay| -> (b: bool)
            ensures
                b == owned_by_column(self@.data, s@, id@, name@),
            { self.owned_by_column(s, id, name) };
        let list = self.local.sequences.keys_where(
            is,
            Ghost(|s: ObjectIdView, o: Overlay<crate::model::sequence::SequenceStateView>| owned_by_column(d, s, id@, name@)),
        );
        proof {
            assert forall|s: ObjectIdView| list.deep_view().to_set().contains(s) <==> owned_sequences(d, id@, name@).contains(s) by {
                assert(list.deep_view().to_set().contains(s) <==> list.deep_view().contains(s));
            }
            assert(list.deep_view().to_set() =~= owned_sequences(d, id@, name@));
        }
        set_of(&list)
    }

    fn drop_columns(&mut self, id: &ObjectId, q: &ColumnDrop)
        requires
            present(old(self)@.data.relations, id@),
        ensures
            final(self)@.data == with_columns(
                old(self)@.data,
                id@,
                columns_of(old(self)@.data, id@).filter(|c: ColumnView| !q@.gone().contains(c.name)),
            ),
            kept(old(self)@, final(self)@),
    {
        proof {
            reveal(with_columns);
        }
        let stays = |c: &Column| -> (b: bool)
            ensures
                b == !q@.gone().contains(c@.name),
            { !(c.name == q.name || q.generated.contains(&c.name)) };
        if let Some(relation) = self.present_relation(id) {
            let mut relation = relation.dup();
            relation.columns = vec_filter(&relation.columns, stays, Ghost(|c: ColumnView| !q@.gone().contains(c.name)));
            self.put_relation(id, Overlay::Present(relation));
        }
    }

    fn drop_keys_and_edges(&mut self, keys: VecSet<(ObjectId, String)>)
        ensures
            final(self)@.data == without_keys_and_edges(old(self)@.data, keys@),
            keys@ == Set::<(ObjectIdView, Seq<char>)>::empty() ==> final(self)@.data.graph == old(self)@.data.graph,
            kept_as(
                old(self)@,
                final(self)@,
                if keys@ == Set::<(ObjectIdView, Seq<char>)>::empty() {
                    EdgeUndo::Stay
                } else {
                    EdgeUndo::PutBack
                },
            ),
    {
        proof {
            reveal(without_keys_and_edges);
        }
        let none = keys.is_empty();
        let c = CascadeResult { dropped_relations: VecSet::new(), dropped_indexes: VecSet::new(), dropped_constraints: keys };
        assert(c@ == (CascadeView { relations: Set::empty(), indexes: Set::empty(), constraints: keys@ }));
        self.remove_dropped_constraints(&c);
        let ghost d = self@.data;
        proof {
            reveal(constraints_removed);
            reveal(with_graph);
        }
        if none {
            proof {
                lemma_filter_all(d.graph, |e: DependencyEdgeView| !is_falling_key_edge(d, e, keys@));
            }
            return;
        }
        let stays = |e: &DependencyEdge| -> (b: bool)
            ensures
                b == !is_falling_key_edge(self@.data, e@, keys@),
            {
                match key_name_of(e) {
                    Some(name) => !c.dropped_constraints.contains(&(self.graph().resolve_rename(&e.dependent).dup(), name)),
                    None => true,
                }
            };
        let left = vec_filter(self.graph().edges(), stays, Ghost(|e: DependencyEdgeView| !is_falling_key_edge(d, e, keys@)));
        self.replace_graph(left);
    }

    fn drop_dependent_views(&mut self, views: &Vec<ObjectId>)
        ensures
            final(self)@.data == without_views(old(self)@.data, views.deep_view()),
            views.len() == 0 ==> final(self)@.data == old(self)@.data,
            kept_as(
                old(self)@,
                final(self)@,
                if views.len() == 0 {
                    EdgeUndo::Stay
                } else {
                    EdgeUndo::PutBack
                },
            ),
    {
        proof {
            reveal(without_views);
        }
        if views.len() > 0 {
            let c = self.cascade_for_relations(views);
            self.drop_family(&c, true);
        }
    }

    fn drop_stale_edges(&mut self, id: &ObjectId, q: &ColumnDrop, indexes: &VecSet<ObjectId>)
        ensures
            final(self)@.data == without_stale_edges(old(self)@.data, id@, q@.gone(), indexes@),
            kept_as(old(self)@, final(self)@, stale_edge_undo(old(self)@.data, id@, q@.gone(), indexes@)),
            stale_edge_undo(old(self)@.data, id@, q@.gone(), indexes@) == EdgeUndo::Stay ==> final(self)@ == old(self)@,
    {
        proof {
            reveal(without_stale_edges);
        }
        let ghost d = self@.data;
        let stays = |e: &DependencyEdge| -> (b: bool)
            ensures
                b == !is_stale_edge(self@.data, e@, id@, q@.gone(), indexes@),
            {
                match &e.kind {
                    DependencyKind::ColumnGeneratedFrom { column, .. } => !(self.graph().resolve_rename(&e.dependent).same(
                        self.graph().resolve_rename(id),
                    ) && (*column == q.name || q.generated.contains(column))),
                    DependencyKind::ColumnDefaultOnSequence { column } => !(self.graph().resolve_rename(&e.dependent).same(
                        self.graph().resolve_rename(id),
                    ) && (*column == q.name || q.generated.contains(column))),
                    DependencyKind::IndexOnRelation { .. } => !indexes.contains(&e.dependent),
                    _ => true,
                }
            };
        let ghost p = |e: DependencyEdgeView| !is_stale_edge(d, e, id@, q@.gone(), indexes@);
        let left = vec_filter(self.graph().edges(), stays, Ghost(p));
        if indexes.is_empty() && left.len() == self.graph().edge_count() {
            proof {
                reveal(with_graph);
                lemma_full_filter(d.graph, p);
                assert(!has_stale_edge(d, id@, q@.gone(), indexes@));
            }
            return;
        }
        proof {
            if !has_stale_edge(d, id@, q@.gone(), indexes@) {
                lemma_filter_all(d.graph, p);
            }
        }
        self.replace_graph(left);
    }

    fn namespace_without_owned(&self, owned: &VecSet<ObjectId>) -> (r: NamespaceSnapshot)
        ensures
            r@ == namespace_without_owned(self@.data, namespace_of(self@.data), owned@),
    {
        let ghost d = self@.data;
        let mut n = self.current_namespace();
        let falls = |s: &ObjectId| -> (b: bool)
            ensures
                b == owned@.contains(s@),
            { owned.contains(s) };
        n.sequences = drop_where(&n.sequences, falls, Ghost(|s: ObjectIdView| owned@.contains(s)));
        let stays = |e: &DependencyEdge| -> (b: bool)
            ensures
                b == !(e@.kind is SequenceOwnedBy && owned@.contains(e@.dependent)),
            {
                match &e.kind {
                    DependencyKind::SequenceOwnedBy { .. } => !owned.contains(&e.dependent),
                    _ => true,
                }
            };
        n.graph = vec_filter(
            self.graph().edges(),
            stays,
            Ghost(|e: DependencyEdgeView| !(e.kind is SequenceOwnedBy && owned@.contains(e.dependent))),
        );
        proof {
            reveal(namespace_without_owned);
            assert(n@ =~= namespace_without_owned(d, namespace_of(d), owned@));
        }
        n
    }

    fn remove_column(&mut self, id: &ObjectId, q: &ColumnDrop)
        requires
            present(old(self)@.data.relations, id@),
        ensures
            final(self)@.data == without_column(old(self)@.data, id@, q@),
            kept_as(old(self)@, final(self)@, column_edge_undo(old(self)@.data, id@, q@)),
    {
        proof {
            reveal(without_column);
        }
        let keys = self.falling_keys(q);
        let views = self.falling_views(q);
        let indexes = self.falling_indexes(q);
        let owned = self.owned_sequences(id, &q.name);
        let ghost d = self@.data;
        let ghost s0 = self@;
        self.drop_columns(id, q);
        proof {
            reveal(with_columns);
        }
        let ghost s1 = self@;
        self.drop_keys_and_edges(keys);
        let ghost s2 = self@;
        self.drop_dependent_views(&views);
        let ghost s3 = self@;
        self.drop_stale_edges(id, q, &indexes);
        let ghost s4 = self@;
        proof {
            assert(falling_views(d, q@).len() == views.len());
            if falling_keys(d, q@) == Set::<(ObjectIdView, Seq<char>)>::empty() && views.len() == 0 {
                assert(s3.data.graph == d.graph);
                assert(has_stale_edge(s3.data, id@, q@.gone(), indexes@) == has_stale_edge(d, id@, q@.gone(), indexes@));
            }
        }
        if owned.is_empty() {
            proof {
                lemma_nothing_owned(s4.data);
            }
            return;
        }
        let n = self.namespace_without_owned(&owned);
        self.replace_namespace(n);
    }

    pub(crate) fn drop_column(&mut self, id: &ObjectId, name: &String, if_exists: bool, cascade: bool) -> (r: MutationResult)
        requires
            present(old(self)@.data.relations, id@),
        ensures
            (final(self)@.data, r@) == column_dropped(old(self)@.data, id@, name@, if_exists, cascade),
            kept_as(old(self)@, final(self)@, if_applied(r@, column_edge_undo(old(self)@.data, id@, column_drop(old(self)@.data, id@, name@, cascade)))),
    {
        let q = self.column_drop(id, name, cascade);
        if let Some(refusal) = self.drop_refusal(id, &q, if_exists) {
            return self.refuse(refusal);
        }
        self.remove_column(id, &q);
        MutationResult::Applied
    }
}

} // verus!
