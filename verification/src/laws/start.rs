//! The catalog that an analysis starts from.
use crate::cache::{
    ConstraintDependencyCacheView, ConstraintKeyCacheView, DbCacheView, DefaultSequenceDependencyCacheView, DependencyCacheView, ForeignKeyCacheView,
    GeneratedColumnDependencyCacheView, IndexCacheView, InheritanceCacheView, TriggerCacheView,
};
use crate::collections::lemma_filtered;
use crate::graph::{DependencyEdgeView, DependencyKindView};
use crate::identifiers::ObjectIdView;
use crate::laws::{at, columns_at, has_edge};
use crate::model::column::ColumnView;
use crate::model::constraint::ConstraintStateView;
use crate::model::relation::{RelationKind, RelationStateView};
use crate::state::apply_policy_trigger::trigger_key;
use crate::state::hydration::{
    constraint_dependency_edge, constraint_key_edge, default_sequence_edge, dependency_counts, dependency_edge, foreign_key_edge, generated_column_edge,
    hydrated_constraints, hydrated_data, hydrated_graph, hydrated_triggers, index_edge, inheritance_edge, opened, ownership_edges, publication_edges, reads,
    starts_from, trigger_edge, with_default_path, ReadingOrder,
};
use crate::state::journal::{tainted, tainted_if};
use crate::state::search_path::refreshed;
use crate::state::StateData;
use vstd::prelude::*;

verus! {

proof fn lemma_start(c: DbCacheView, available: bool, d: StateData) -> (order: ReadingOrder)
    requires
        starts_from(c, available, d),
    ensures
        reads(c, order),
        ({
            let e = hydrated_data(c, available, order);
            d == StateData { search_path: d.search_path, default_search_path: d.default_search_path, evidence: d.evidence, confidence: d.confidence, ..e }
        }),
{
    let order = choose|order: ReadingOrder| #[trigger] reads(c, order) && d == opened(c, available, order);
    reveal(opened);
    reveal(tainted_if);
    reveal(tainted);
    reveal(with_default_path);
    reveal(refreshed);
    order
}

/// Whether a row of dependencies says that a view reads another object, or that
/// something outside of the schemas that were read does.
pub open spec fn is_dependency_of_view(c: DbCacheView, row: DependencyCacheView) -> bool {
    &&& row.dependent != row.referenced
    &&& {
        ||| c.relations.dom().contains(row.dependent) && (c.relations[row.dependent].kind == RelationKind::View || c.relations[row.dependent].kind
            == RelationKind::MaterializedView)
        ||| c.metadata.schemas is Some && !c.metadata.schemas->0.contains(row.dependent.schema)
    }
}

proof fn lemma_parts(a: Seq<DependencyEdgeView>, b: Seq<DependencyEdgeView>, x: DependencyEdgeView)
    ensures
        (a + b).contains(x) <==> a.contains(x) || b.contains(x),
{
    if a.contains(x) {
        let i = choose|i: int| 0 <= i < a.len() && a[i] == x;
        assert((a + b)[i] == x);
    }
    if b.contains(x) {
        let i = choose|i: int| 0 <= i < b.len() && b[i] == x;
        assert((a + b)[a.len() + i] == x);
    }
    if (a + b).contains(x) {
        let i = choose|i: int| 0 <= i < (a + b).len() && (a + b)[i] == x;
        if i < a.len() {
            assert(a[i] == x);
        } else {
            assert(b[i - a.len()] == x);
        }
    }
}

spec fn key_rows(c: DbCacheView) -> Seq<DependencyEdgeView> {
    c.foreign_keys.map_values(|x: ForeignKeyCacheView| foreign_key_edge(x))
}

spec fn index_rows(c: DbCacheView) -> Seq<DependencyEdgeView> {
    c.indexes.map_values(|x: IndexCacheView| index_edge(x))
}

spec fn view_rows(c: DbCacheView) -> Seq<DependencyEdgeView> {
    c.dependencies.filter(|x: DependencyCacheView| dependency_counts(c, x)).map_values(|x: DependencyCacheView| dependency_edge(x))
}

spec fn parent_rows(c: DbCacheView) -> Seq<DependencyEdgeView> {
    c.inheritances.map_values(|x: InheritanceCacheView| inheritance_edge(x))
}

spec fn constraint_key_rows(c: DbCacheView) -> Seq<DependencyEdgeView> {
    c.constraint_keys.map_values(|x: ConstraintKeyCacheView| constraint_key_edge(x))
}

spec fn constraint_rows(c: DbCacheView) -> Seq<DependencyEdgeView> {
    c.constraint_dependencies.map_values(|x: ConstraintDependencyCacheView| constraint_dependency_edge(x))
}

spec fn generated_rows(c: DbCacheView) -> Seq<DependencyEdgeView> {
    c.generated_column_dependencies.map_values(|x: GeneratedColumnDependencyCacheView| generated_column_edge(x))
}

spec fn default_rows(c: DbCacheView) -> Seq<DependencyEdgeView> {
    c.default_sequence_dependencies.map_values(|x: DefaultSequenceDependencyCacheView| default_sequence_edge(x))
}

spec fn trigger_rows(c: DbCacheView) -> Seq<DependencyEdgeView> {
    c.triggers.map_values(|x: TriggerCacheView| trigger_edge(x))
}

proof fn lemma_graph_parts(c: DbCacheView, order: ReadingOrder, x: DependencyEdgeView)
    ensures
        hydrated_graph(c, order).contains(x) <==> {
            ||| ownership_edges(c, order.sequences, order.sequences.len()).contains(x)
            ||| key_rows(c).contains(x)
            ||| index_rows(c).contains(x)
            ||| view_rows(c).contains(x)
            ||| parent_rows(c).contains(x)
            ||| constraint_key_rows(c).contains(x)
            ||| constraint_rows(c).contains(x)
            ||| generated_rows(c).contains(x)
            ||| default_rows(c).contains(x)
            ||| trigger_rows(c).contains(x)
            ||| publication_edges(c, order.publications, order.publications.len()).contains(x)
        },
{
    let a0 = ownership_edges(c, order.sequences, order.sequences.len());
    let a1 = a0 + key_rows(c);
    let a2 = a1 + index_rows(c);
    let a3 = a2 + view_rows(c);
    let a4 = a3 + parent_rows(c);
    let a5 = a4 + constraint_key_rows(c);
    let a6 = a5 + constraint_rows(c);
    let a7 = a6 + generated_rows(c);
    let a8 = a7 + default_rows(c);
    let a9 = a8 + trigger_rows(c);
    let last = publication_edges(c, order.publications, order.publications.len());
    assert(hydrated_graph(c, order) == a9 + last);
    lemma_parts(a0, key_rows(c), x);
    lemma_parts(a1, index_rows(c), x);
    lemma_parts(a2, view_rows(c), x);
    lemma_parts(a3, parent_rows(c), x);
    lemma_parts(a4, constraint_key_rows(c), x);
    lemma_parts(a5, constraint_rows(c), x);
    lemma_parts(a6, generated_rows(c), x);
    lemma_parts(a7, default_rows(c), x);
    lemma_parts(a8, trigger_rows(c), x);
    lemma_parts(a9, last, x);
}

proof fn lemma_held(d: StateData, x: DependencyEdgeView)
    requires
        d.graph.contains(x),
    ensures
        has_edge(d, x.dependent, x.referenced, x.kind),
{
    let i = choose|i: int| 0 <= i < d.graph.len() && d.graph[i] == x;
    assert(d.graph[i] == (DependencyEdgeView { dependent: x.dependent, referenced: x.referenced, kind: x.kind }));
}

/// Each row of the snapshot that relates two objects is an edge from the one
/// that depends to the one that it depends on: a view to what it reads, a table
/// to what its foreign key refers to, a child or partition to its parent, an
/// index to its table, and a default to its sequence.
pub proof fn law_rows_are_edges(c: DbCacheView, available: bool, d: StateData, i: int)
    requires
        starts_from(c, available, d),
        i >= 0,
    ensures
        i < c.dependencies.len() && is_dependency_of_view(c, c.dependencies[i]) ==> has_edge(
            d,
            c.dependencies[i].dependent,
            c.dependencies[i].referenced,
            DependencyKindView::ViewDependency { view_generation: 0, referenced_column: c.dependencies[i].referenced_column },
        ),
        i < c.inheritances.len() ==> has_edge(
            d,
            c.inheritances[i].child,
            c.inheritances[i].parent,
            if c.inheritances[i].is_partition {
                DependencyKindView::PartitionOf
            } else {
                DependencyKindView::InheritanceOf
            },
        ),
        i < c.constraint_keys.len() ==> has_edge(
            d,
            c.constraint_keys[i].table_id,
            c.constraint_keys[i].table_id,
            DependencyKindView::ConstraintOnRelation {
                constraint_name: c.constraint_keys[i].constraint_name,
                columns: c.constraint_keys[i].columns,
                is_primary: c.constraint_keys[i].is_primary,
            },
        ),
        i < c.constraint_dependencies.len() ==> has_edge(
            d,
            c.constraint_dependencies[i].table_id,
            c.constraint_dependencies[i].table_id,
            DependencyKindView::ConstraintDependency {
                constraint_name: c.constraint_dependencies[i].constraint_name,
                columns: c.constraint_dependencies[i].columns,
            },
        ),
        i < c.generated_column_dependencies.len() ==> has_edge(
            d,
            c.generated_column_dependencies[i].table_id,
            c.generated_column_dependencies[i].table_id,
            DependencyKindView::ColumnGeneratedFrom {
                column: c.generated_column_dependencies[i].column_name,
                depends_on_column: c.generated_column_dependencies[i].depends_on_column,
            },
        ),
        i < c.default_sequence_dependencies.len() ==> has_edge(
            d,
            c.default_sequence_dependencies[i].table_id,
            c.default_sequence_dependencies[i].sequence_id,
            DependencyKindView::ColumnDefaultOnSequence { column: c.default_sequence_dependencies[i].column_name },
        ),
{
    let order = lemma_start(c, available, d);
    reveal(hydrated_data);
    if i < c.dependencies.len() && is_dependency_of_view(c, c.dependencies[i]) {
        let row = c.dependencies[i];
        let p = |x: DependencyCacheView| dependency_counts(c, x);
        lemma_filtered(c.dependencies, p);
        let list = c.dependencies.filter(p);
        assert(c.dependencies.contains(row));
        assert(list.contains(row));
        let j = choose|j: int| 0 <= j < list.len() && list[j] == row;
        assert(view_rows(c)[j] == dependency_edge(row));
        lemma_graph_parts(c, order, dependency_edge(row));
        lemma_held(d, dependency_edge(row));
    }
    if i < c.inheritances.len() {
        let x = inheritance_edge(c.inheritances[i]);
        assert(parent_rows(c)[i] == x);
        lemma_graph_parts(c, order, x);
        lemma_held(d, x);
    }
    if i < c.constraint_keys.len() {
        let x = constraint_key_edge(c.constraint_keys[i]);
        assert(constraint_key_rows(c)[i] == x);
        lemma_graph_parts(c, order, x);
        lemma_held(d, x);
    }
    if i < c.constraint_dependencies.len() {
        let x = constraint_dependency_edge(c.constraint_dependencies[i]);
        assert(constraint_rows(c)[i] == x);
        lemma_graph_parts(c, order, x);
        lemma_held(d, x);
    }
    if i < c.generated_column_dependencies.len() {
        let x = generated_column_edge(c.generated_column_dependencies[i]);
        assert(generated_rows(c)[i] == x);
        lemma_graph_parts(c, order, x);
        lemma_held(d, x);
    }
    if i < c.default_sequence_dependencies.len() {
        let x = default_sequence_edge(c.default_sequence_dependencies[i]);
        assert(default_rows(c)[i] == x);
        lemma_graph_parts(c, order, x);
        lemma_held(d, x);
    }
}

/// The same for the rows that say more of a relation between two objects:
/// foreign keys, indexes and triggers.
pub proof fn law_detailed_rows_are_edges(c: DbCacheView, available: bool, d: StateData, i: int)
    requires
        starts_from(c, available, d),
        i >= 0,
    ensures
        i < c.foreign_keys.len() ==> exists|k: int|
            0 <= k < d.graph.len() && (#[trigger] d.graph[k]).dependent == c.foreign_keys[i].from_table && d.graph[k].referenced == c.foreign_keys[i].to_table
                && match d.graph[k].kind {
                DependencyKindView::ForeignKey { constraint_name, from_columns, to_columns, operator_evidence, from_generation } => {
                    &&& constraint_name == Some(c.foreign_keys[i].constraint_name)
                    &&& from_columns == c.foreign_keys[i].from_columns
                    &&& to_columns == c.foreign_keys[i].to_columns
                    &&& from_generation == 0
                    &&& operator_evidence is Some ==> operator_evidence->0.pk_fk == c.foreign_keys[i].pk_fk_equality_operators
                        && operator_evidence->0.pk_pk == c.foreign_keys[i].pk_pk_equality_operators && operator_evidence->0.fk_fk
                        == c.foreign_keys[i].fk_fk_equality_operators
                },
                _ => false,
            },
        i < c.foreign_keys.len() ==> d.baseline_foreign_keys.contains((c.foreign_keys[i].from_table, c.foreign_keys[i].constraint_name)),
        i < c.indexes.len() ==> exists|k: int|
            0 <= k < d.graph.len() && (#[trigger] d.graph[k]).dependent == c.indexes[i].index_id && d.graph[k].referenced == c.indexes[i].table_id
                && match d.graph[k].kind {
                DependencyKindView::IndexOnRelation {
                    using_method,
                    key_columns,
                    included_columns,
                    dependency_columns,
                    dependency_columns_known,
                    has_expression_keys,
                    has_predicate,
                    is_unique,
                    is_valid,
                    is_ready,
                    is_live,
                    has_default_sort_order,
                    has_default_opclasses,
                    has_default_collations,
                    eligibility_known,
                    is_concurrent,
                } => {
                    let row = c.indexes[i];
                    &&& using_method == Some(row.using_method)
                    &&& key_columns == row.key_columns
                    &&& included_columns == row.included_columns
                    &&& dependency_columns == row.dependency_columns
                    &&& dependency_columns_known == row.dependency_columns_known
                    &&& has_expression_keys == row.has_expression_keys
                    &&& has_predicate == row.has_predicate
                    &&& is_unique == row.is_unique
                    &&& is_valid == row.is_valid
                    &&& is_ready == row.is_ready
                    &&& is_live == row.is_live
                    &&& has_default_sort_order == row.has_default_sort_order
                    &&& has_default_opclasses == row.has_default_opclasses
                    &&& has_default_collations == row.has_default_collations
                    &&& eligibility_known
                    &&& !is_concurrent
                },
                _ => false,
            },
        i < c.indexes.len() ==> d.baseline_indexes.contains(c.indexes[i].index_id),
        i < c.triggers.len() ==> exists|k: int|
            0 <= k < d.graph.len() && (#[trigger] d.graph[k]).referenced == c.triggers[i].table_id && match d.graph[k].kind {
                DependencyKindView::TriggerOnTable { trigger_id, function_id, trigger_generation } => trigger_id == d.graph[k].dependent && function_id
                    == c.triggers[i].function_id && trigger_generation == 0 && d.triggers.dom().contains(trigger_id),
                _ => false,
            },
{
    let order = lemma_start(c, available, d);
    reveal(hydrated_data);
    if i < c.foreign_keys.len() {
        let x = foreign_key_edge(c.foreign_keys[i]);
        assert(key_rows(c)[i] == x);
        lemma_graph_parts(c, order, x);
        let k = choose|k: int| 0 <= k < d.graph.len() && d.graph[k] == x;
        assert(d.graph[k].dependent == c.foreign_keys[i].from_table);
        let keys = c.foreign_keys.map_values(|y: ForeignKeyCacheView| (y.from_table, y.constraint_name));
        assert(keys[i] == (c.foreign_keys[i].from_table, c.foreign_keys[i].constraint_name));
        assert(keys.contains(keys[i]));
    }
    if i < c.indexes.len() {
        let x = index_edge(c.indexes[i]);
        assert(index_rows(c)[i] == x);
        lemma_graph_parts(c, order, x);
        let k = choose|k: int| 0 <= k < d.graph.len() && d.graph[k] == x;
        assert(d.graph[k].dependent == c.indexes[i].index_id);
        let ids = c.indexes.map_values(|y: IndexCacheView| y.index_id);
        assert(ids[i] == c.indexes[i].index_id);
        assert(ids.contains(ids[i]));
    }
    if i < c.triggers.len() {
        let x = trigger_edge(c.triggers[i]);
        assert(trigger_rows(c)[i] == x);
        lemma_graph_parts(c, order, x);
        let k = choose|k: int| 0 <= k < d.graph.len() && d.graph[k] == x;
        assert(d.graph[k].referenced == c.triggers[i].table_id);
        lemma_triggers(c.triggers, c.triggers.len(), i);
    }
}

proof fn lemma_ownership_kind(c: DbCacheView, ids: Seq<ObjectIdView>, n: nat)
    requires
        n <= ids.len(),
        forall|id: ObjectIdView| ids.contains(id) ==> #[trigger] c.sequences.dom().contains(id),
    ensures
        forall|k: int|
            0 <= k < ownership_edges(c, ids, n).len() ==> is_ownership_row(c, #[trigger] ownership_edges(c, ids, n)[k]),
        forall|j: int|
            0 <= j < n && (#[trigger] c.sequences[ids[j]]).owned_by is Some ==> ownership_edges(c, ids, n).contains(
                DependencyEdgeView {
                    dependent: c.sequences[ids[j]].id,
                    referenced: (c.sequences[ids[j]].owned_by->0).0,
                    kind: DependencyKindView::SequenceOwnedBy { column: (c.sequences[ids[j]].owned_by->0).1 },
                },
            ),
    decreases n,
{
    if n > 0 {
        lemma_ownership_kind(c, ids, (n - 1) as nat);
        let before = ownership_edges(c, ids, (n - 1) as nat);
        let all = ownership_edges(c, ids, n);
        assert(ids.contains(ids[n - 1]));
        assert forall|k: int| 0 <= k < all.len() implies is_ownership_row(c, #[trigger] all[k]) by {
            if k < before.len() {
                assert(all[k] == before[k]);
            } else {
                assert(c.sequences.dom().contains(ids[n - 1]));
            }
        }
        assert forall|j: int| 0 <= j < n && (#[trigger] c.sequences[ids[j]]).owned_by is Some implies all.contains(
            DependencyEdgeView {
                dependent: c.sequences[ids[j]].id,
                referenced: (c.sequences[ids[j]].owned_by->0).0,
                kind: DependencyKindView::SequenceOwnedBy { column: (c.sequences[ids[j]].owned_by->0).1 },
            },
        ) by {
            let x = DependencyEdgeView {
                dependent: c.sequences[ids[j]].id,
                referenced: (c.sequences[ids[j]].owned_by->0).0,
                kind: DependencyKindView::SequenceOwnedBy { column: (c.sequences[ids[j]].owned_by->0).1 },
            };
            if j < n - 1 {
                let k = choose|k: int| 0 <= k < before.len() && before[k] == x;
                assert(all[k] == x);
            } else {
                assert(all[all.len() - 1] == x);
            }
        }
    }
}

/// Whether an edge is the one of a sequence to the column that owns it.
pub open spec fn is_ownership_row(c: DbCacheView, e: DependencyEdgeView) -> bool {
    exists|id: ObjectIdView| #[trigger]
        c.sequences.dom().contains(id) && c.sequences[id].id == e.dependent && c.sequences[id].owned_by is Some && e.referenced == (
        c.sequences[id].owned_by->0).0 && e.kind == (DependencyKindView::SequenceOwnedBy { column: (c.sequences[id].owned_by->0).1 })
}

/// A sequence of the snapshot that a column owns has an edge to the table of the
/// column.
pub proof fn law_owned_sequences_are_edges(c: DbCacheView, available: bool, d: StateData, id: ObjectIdView)
    requires
        starts_from(c, available, d),
        c.sequences.dom().contains(id),
        c.sequences[id].owned_by is Some,
    ensures
        has_edge(
            d,
            c.sequences[id].id,
            (c.sequences[id].owned_by->0).0,
            DependencyKindView::SequenceOwnedBy { column: (c.sequences[id].owned_by->0).1 },
        ),
{
    let order = lemma_start(c, available, d);
    reveal(hydrated_data);
    assert(order.sequences.contains(id));
    let j = choose|j: int| 0 <= j < order.sequences.len() && order.sequences[j] == id;
    lemma_ownership_kind(c, order.sequences, order.sequences.len());
    assert(c.sequences[order.sequences[j]].owned_by is Some);
    let x = DependencyEdgeView {
        dependent: c.sequences[id].id,
        referenced: (c.sequences[id].owned_by->0).0,
        kind: DependencyKindView::SequenceOwnedBy { column: (c.sequences[id].owned_by->0).1 },
    };
    lemma_graph_parts(c, order, x);
    lemma_held(d, x);
}

proof fn lemma_publication_kind(c: DbCacheView, names: Seq<Seq<char>>, n: nat)
    requires
        n <= names.len(),
    ensures
        forall|k: int| 0 <= k < publication_edges(c, names, n).len() ==> (#[trigger] publication_edges(c, names, n)[k]).kind is PublicationIncludes,
    decreases n,
{
    if n > 0 {
        lemma_publication_kind(c, names, (n - 1) as nat);
        let objects = crate::state::hydration::publication_objects(c.publications[names[n - 1]]);
        lemma_object_kind(names[n - 1], objects, objects.len());
    }
}

proof fn lemma_object_kind(publication: Seq<char>, objects: Seq<crate::facts::PublicationObjectFactView>, n: nat)
    requires
        n <= objects.len(),
    ensures
        forall|k: int|
            0 <= k < crate::state::hydration::object_edges(publication, objects, n).len() ==> (
            #[trigger] crate::state::hydration::object_edges(publication, objects, n)[k]).kind is PublicationIncludes,
    decreases n,
{
    if n > 0 {
        lemma_object_kind(publication, objects, (n - 1) as nat);
    }
}

/// No edge stands at the start that no row of the snapshot says.
pub proof fn law_edges_are_rows(c: DbCacheView, available: bool, d: StateData, k: int)
    requires
        starts_from(c, available, d),
        0 <= k < d.graph.len(),
    ensures
        ({
            let e = d.graph[k];
            match e.kind {
                DependencyKindView::ViewDependency { view_generation, referenced_column } => exists|i: int|
                    0 <= i < c.dependencies.len() && is_dependency_of_view(c, #[trigger] c.dependencies[i]) && c.dependencies[i].dependent == e.dependent
                        && c.dependencies[i].referenced == e.referenced && c.dependencies[i].referenced_column == referenced_column,
                DependencyKindView::PartitionOf => exists|i: int|
                    0 <= i < c.inheritances.len() && (#[trigger] c.inheritances[i]).child == e.dependent && c.inheritances[i].parent == e.referenced
                        && c.inheritances[i].is_partition,
                DependencyKindView::InheritanceOf => exists|i: int|
                    0 <= i < c.inheritances.len() && (#[trigger] c.inheritances[i]).child == e.dependent && c.inheritances[i].parent == e.referenced
                        && !c.inheritances[i].is_partition,
                DependencyKindView::ForeignKey { constraint_name, .. } => exists|i: int|
                    0 <= i < c.foreign_keys.len() && (#[trigger] c.foreign_keys[i]).from_table == e.dependent && c.foreign_keys[i].to_table
                        == e.referenced && Some(c.foreign_keys[i].constraint_name) == constraint_name,
                DependencyKindView::IndexOnRelation { .. } => exists|i: int|
                    0 <= i < c.indexes.len() && (#[trigger] c.indexes[i]).index_id == e.dependent && c.indexes[i].table_id == e.referenced,
                DependencyKindView::SequenceOwnedBy { .. } => is_ownership_row(c, e),
                DependencyKindView::ColumnDefaultOnSequence { column } => exists|i: int|
                    0 <= i < c.default_sequence_dependencies.len() && (#[trigger] c.default_sequence_dependencies[i]).table_id == e.dependent
                        && c.default_sequence_dependencies[i].sequence_id == e.referenced && c.default_sequence_dependencies[i].column_name == column,
                DependencyKindView::RenameTo => false,
                _ => true,
            }
        }),
{
    let order = lemma_start(c, available, d);
    reveal(hydrated_data);
    let e = d.graph[k];
    assert(hydrated_graph(c, order).contains(e));
    lemma_graph_parts(c, order, e);
    lemma_ownership_kind(c, order.sequences, order.sequences.len());
    lemma_publication_kind(c, order.publications, order.publications.len());
    let p = |x: DependencyCacheView| dependency_counts(c, x);
    lemma_filtered(c.dependencies, p);
    let list = c.dependencies.filter(p);
    if view_rows(c).contains(e) {
        let j = choose|j: int| 0 <= j < view_rows(c).len() && view_rows(c)[j] == e;
        assert(list.contains(list[j]));
        let i = choose|i: int| 0 <= i < c.dependencies.len() && c.dependencies[i] == list[j];
        assert(is_dependency_of_view(c, c.dependencies[i]));
    }
    if key_rows(c).contains(e) {
        let j = choose|j: int| 0 <= j < key_rows(c).len() && key_rows(c)[j] == e;
        assert(c.foreign_keys[j].from_table == e.dependent);
    }
    if index_rows(c).contains(e) {
        let j = choose|j: int| 0 <= j < index_rows(c).len() && index_rows(c)[j] == e;
        assert(c.indexes[j].index_id == e.dependent);
    }
    if parent_rows(c).contains(e) {
        let j = choose|j: int| 0 <= j < parent_rows(c).len() && parent_rows(c)[j] == e;
        assert(c.inheritances[j].child == e.dependent);
    }
    if default_rows(c).contains(e) {
        let j = choose|j: int| 0 <= j < default_rows(c).len() && default_rows(c)[j] == e;
        assert(c.default_sequence_dependencies[j].table_id == e.dependent);
    }
}

/// The relations at the start are those of the snapshot: each has its kind, its
/// owner, its privileges and its columns, with their types, defaults and whether
/// they take nulls.
pub proof fn law_start_has_the_relations(c: DbCacheView, available: bool, d: StateData, id: ObjectIdView, i: int)
    requires
        starts_from(c, available, d),
    ensures
        d.relations.dom().contains(id) == c.relations.dom().contains(id),
        c.relations.dom().contains(id) ==> at(d.relations, id) == Some(RelationStateView { columns: columns_at(d, id), ..c.relations[id] }),
        c.relations.dom().contains(id) ==> columns_at(d, id).len() == c.relations[id].columns.len(),
        c.relations.dom().contains(id) && 0 <= i < c.relations[id].columns.len() ==> columns_at(d, id)[i] == (ColumnView {
            type_id: columns_at(d, id)[i].type_id,
            ..c.relations[id].columns[i]
        }),
        c.types.dom().contains(id) == (at(d.types, id) is Some),
        c.functions.dom().contains(id) == (at(d.functions, id) is Some),
        c.functions.dom().contains(id) ==> at(d.functions, id)->0.routine_kind == c.functions[id].routine_kind && at(d.functions, id)->0.id
            == c.functions[id].id,
        at(d.sequences, id) == (if c.sequences.dom().contains(id) {
            Some(c.sequences[id])
        } else {
            None
        }),
        at(d.roles, id) == (if c.roles.dom().contains(id) {
            Some(c.roles[id])
        } else {
            None
        }),
        d.role_membership_grantors == c.role_membership_grantors,
        d.pg_version_num == c.pg_version_num,
{
    let order = lemma_start(c, available, d);
    reveal(hydrated_data);
}

proof fn lemma_triggers(rows: Seq<TriggerCacheView>, n: nat, i: int)
    requires
        0 <= i < n <= rows.len(),
    ensures
        hydrated_triggers(rows, n).dom().contains(trigger_key(rows[i].table_id, rows[i].trigger_id.name)),
    decreases n,
{
    if i < n - 1 {
        lemma_triggers(rows, (n - 1) as nat, i);
    }
}

proof fn lemma_constraint_rows(rows: Seq<ConstraintStateView>, n: nat, i: int)
    requires
        0 <= i < n <= rows.len(),
    ensures
        hydrated_constraints(rows, n).dom().contains((rows[i].table_id, rows[i].name)),
        (forall|j: int| i < j < n ==> (#[trigger] rows[j]).table_id != rows[i].table_id || rows[j].name != rows[i].name) ==> hydrated_constraints(rows, n)[(
            rows[i].table_id,
            rows[i].name,
        )] == rows[i],
    decreases n,
{
    if i < n - 1 {
        lemma_constraint_rows(rows, (n - 1) as nat, i);
    }
}

/// Each constraint of the snapshot is known at the start, as the last row of
/// its name says it.
pub proof fn law_start_has_the_constraints(c: DbCacheView, available: bool, d: StateData, i: int)
    requires
        starts_from(c, available, d),
        0 <= i < c.constraints.len(),
    ensures
        d.constraints.dom().contains((c.constraints[i].table_id, c.constraints[i].name)),
        (forall|j: int| i < j < c.constraints.len() ==> (#[trigger] c.constraints[j]).table_id != c.constraints[i].table_id || c.constraints[j].name
            != c.constraints[i].name) ==> d.constraints[(c.constraints[i].table_id, c.constraints[i].name)] == c.constraints[i],
{
    let order = lemma_start(c, available, d);
    reveal(hydrated_data);
    lemma_constraint_rows(c.constraints, c.constraints.len(), i);
}

/// The session starts as the one that read the snapshot: with its roles, where
/// they are known, and with its timeouts, where there was a server.
pub proof fn law_start_has_the_session(c: DbCacheView, available: bool, d: StateData)
    requires
        starts_from(c, available, d),
    ensures
        c.metadata.source_role is Some ==> d.current_role == c.metadata.source_role->0 && d.persistent_current_role == c.metadata.source_role->0,
        d.current_role_known == c.metadata.source_role is Some,
        c.metadata.source_session_role is Some ==> d.session_role == c.metadata.source_session_role->0 && d.authenticated_role
            == c.metadata.source_session_role->0 && d.persistent_session_role == c.metadata.source_session_role->0,
        d.session_role_known == c.metadata.source_session_role is Some,
        d.authenticated_role_known == c.metadata.source_session_role is Some,
        available ==> d.lock_timeout.effective == Some(c.metadata.source_lock_timeout_ms) && d.lock_timeout.session == Some(
            c.metadata.source_lock_timeout_ms,
        ) && d.lock_timeout.default == Some(c.metadata.source_lock_timeout_ms),
        available ==> d.statement_timeout.effective == Some(c.metadata.source_statement_timeout_ms) && d.statement_timeout.session == Some(
            c.metadata.source_statement_timeout_ms,
        ) && d.statement_timeout.default == Some(c.metadata.source_statement_timeout_ms),
        !available ==> d.lock_timeout.effective is None && d.statement_timeout.effective is None && !d.roles_known,
        d.baseline_available == available,
        d.baseline_coverage == c.coverage,
        d.baseline_schemas is None == c.metadata.schemas is None,
        forall|name: Seq<char>|
            c.metadata.schemas is Some ==> (#[trigger] d.baseline_schemas->0.contains(name) <==> c.metadata.schemas->0.contains(name)),
        !c.coverage.families.contains(crate::cache::CatalogFamily::Roles) ==> !d.roles_known,
        d.pending_validation == Set::<(ObjectIdView, Seq<char>)>::empty(),
        d.default_search_path == d.search_path,
{
    let order = lemma_start(c, available, d);
    reveal(hydrated_data);
    let o = choose|order: ReadingOrder| #[trigger] reads(c, order) && d == opened(c, available, order);
    reveal(opened);
    reveal(tainted_if);
    reveal(tainted);
    reveal(with_default_path);
}

} // verus!
