//! What a new name of a schema changes.
use crate::collections::{image, remapped, vec_map, Dup, VecMap, VecSet};
use crate::facts::{PublicationObjectFact, PublicationObjectFactView, PublicationScope, PublicationScopeView};
use crate::graph::{edge, swap_name, swap_schema, swapped_schema, with_schema_renamed, DependencyEdge, DependencyEdgeView, DependencyGraph, DependencyKind, DependencyKindView};
use crate::identifiers::{Ident, IdentView, ObjectId, ObjectIdView, QualifiedName, QualifiedNameView};
use crate::model::constraint::{ConstraintState, ConstraintStateView};
use crate::model::function::{FunctionOverlay, FunctionStateView};
use crate::model::relation::{RelationOverlay, RelationStateView};
use crate::model::replication::{PublicationOverlay, PublicationState, PublicationStateView};
use crate::model::schema::{SchemaState, SchemaStateView};
use crate::model::sequence::{SequenceOverlay, SequenceStateView};
use crate::model::trigger::{TriggerOverlay, TriggerStateView};
use crate::model::types::{TypeOverlay, TypeStateView};
use crate::model::Overlay;
use crate::state::journal::{group_steps, kept_as, namespace_of, with_namespace, EdgeUndo};
use crate::state::lookup::{present, state_of};
use crate::state::search_path::refreshed;
use crate::state::{AnalysisState, StateData};
use crate::transaction::{NamespaceSnapshot, NamespaceSnapshotView};
use vstd::prelude::*;

verus! {

broadcast use group_steps;

pub open spec fn relation_moved(o: Overlay<RelationStateView>, from: Seq<char>, to: Seq<char>) -> Overlay<RelationStateView> {
    match o {
        Overlay::Present(s) => Overlay::Present(RelationStateView { id: swap_schema(s.id, from, to), ..s }),
        Overlay::Dropped => Overlay::Dropped,
    }
}

pub open spec fn type_moved(o: Overlay<TypeStateView>, from: Seq<char>, to: Seq<char>) -> Overlay<TypeStateView> {
    match o {
        Overlay::Present(s) => Overlay::Present(TypeStateView { id: swap_schema(s.id, from, to), ..s }),
        Overlay::Dropped => Overlay::Dropped,
    }
}

pub open spec fn function_moved(o: Overlay<FunctionStateView>, from: Seq<char>, to: Seq<char>) -> Overlay<FunctionStateView> {
    match o {
        Overlay::Present(s) => Overlay::Present(FunctionStateView { id: swap_schema(s.id, from, to), ..s }),
        Overlay::Dropped => Overlay::Dropped,
    }
}

pub open spec fn sequence_moved(o: Overlay<SequenceStateView>, from: Seq<char>, to: Seq<char>) -> Overlay<SequenceStateView> {
    match o {
        Overlay::Present(s) => Overlay::Present(
            SequenceStateView {
                id: swap_schema(s.id, from, to),
                owned_by: match s.owned_by {
                    Some((table, column)) => Some((swap_schema(table, from, to), column)),
                    None => None,
                },
                ..s
            },
        ),
        Overlay::Dropped => Overlay::Dropped,
    }
}

pub open spec fn trigger_moved(o: Overlay<TriggerStateView>, from: Seq<char>, to: Seq<char>) -> Overlay<TriggerStateView> {
    match o {
        Overlay::Present(s) => Overlay::Present(
            TriggerStateView { id: swap_schema(s.id, from, to), table_id: swap_schema(s.table_id, from, to), ..s },
        ),
        Overlay::Dropped => Overlay::Dropped,
    }
}

pub open spec fn published_moved(o: PublicationObjectFactView, from: Seq<char>, to: Seq<char>) -> PublicationObjectFactView {
    match o {
        PublicationObjectFactView::Table { name, only, include_partitions, columns, row_filter } => PublicationObjectFactView::Table {
            name: if name.schema is Some && name.schema->0.resolved() == from {
                QualifiedNameView { schema: Some(IdentView { text: to, quoted: true }), name: name.name }
            } else {
                name
            },
            only,
            include_partitions,
            columns,
            row_filter,
        },
        PublicationObjectFactView::SchemaTables { schema, row_filter } => PublicationObjectFactView::SchemaTables {
            schema: swap_name(schema, from, to),
            row_filter,
        },
        _ => o,
    }
}

pub open spec fn publication_moved(o: Overlay<PublicationStateView>, from: Seq<char>, to: Seq<char>) -> Overlay<PublicationStateView> {
    match o {
        Overlay::Present(s) => match s.scope {
            PublicationScopeView::Explicit(objects) => Overlay::Present(
                PublicationStateView {
                    scope: PublicationScopeView::Explicit(objects.map_values(|x: PublicationObjectFactView| published_moved(x, from, to))),
                    ..s
                },
            ),
            _ => o,
        },
        Overlay::Dropped => o,
    }
}

pub open spec fn key_moved(key: (ObjectIdView, Seq<char>), from: Seq<char>, to: Seq<char>) -> (ObjectIdView, Seq<char>) {
    (swap_schema(key.0, from, to), key.1)
}

pub open spec fn constraint_moved(c: ConstraintStateView, from: Seq<char>, to: Seq<char>) -> ConstraintStateView {
    ConstraintStateView { table_id: swap_schema(c.table_id, from, to), ..c }
}

/// The identities that a rename of a schema changes, family by family, each
/// once and in any order.
pub struct MovedIds {
    pub relations: Seq<ObjectIdView>,
    pub types: Seq<ObjectIdView>,
    pub functions: Seq<ObjectIdView>,
    pub sequences: Seq<ObjectIdView>,
    pub triggers: Seq<ObjectIdView>,
}

pub open spec fn lists_schema<V>(ids: Seq<ObjectIdView>, m: Map<ObjectIdView, V>, schema: Seq<char>) -> bool {
    &&& ids.no_duplicates()
    &&& forall|id: ObjectIdView| #[trigger] ids.contains(id) <==> m.dom().contains(id) && id.schema == schema
}

pub open spec fn lists_moved(l: MovedIds, n: NamespaceSnapshotView, from: Seq<char>) -> bool {
    &&& lists_schema(l.relations, n.relations, from)
    &&& lists_schema(l.types, n.types, from)
    &&& lists_schema(l.functions, n.functions, from)
    &&& lists_schema(l.sequences, n.sequences, from)
    &&& lists_schema(l.triggers, n.triggers, from)
}

/// One rename edge for each identity.
pub open spec fn rename_edges(ids: Seq<ObjectIdView>, from: Seq<char>, to: Seq<char>) -> Seq<DependencyEdgeView> {
    ids.map_values(|id: ObjectIdView| edge(id, swap_schema(id, from, to), DependencyKindView::RenameTo))
}

pub open spec fn moved_edges(l: MovedIds, from: Seq<char>, to: Seq<char>) -> Seq<DependencyEdgeView> {
    rename_edges(l.relations, from, to) + rename_edges(l.types, from, to) + rename_edges(l.functions, from, to) + rename_edges(
        l.sequences,
        from,
        to,
    ) + rename_edges(l.triggers, from, to)
}

/// Whether the graph `after` follows a rename: every edge follows, and the
/// renames are recorded behind them.
pub open spec fn graph_moved(n: NamespaceSnapshotView, after: Seq<DependencyEdgeView>, from: Seq<char>, to: Seq<char>) -> bool {
    exists|l: MovedIds| #[trigger]
        lists_moved(l, n, from) && after == n.graph.map_values(|e: DependencyEdgeView| with_schema_renamed(e, from, to)) + moved_edges(l, from, to)
}

pub open spec fn schemas_moved(m: Map<Seq<char>, Overlay<SchemaStateView>>, from: Seq<char>, to: Seq<char>) -> Map<Seq<char>, Overlay<SchemaStateView>> {
    m.remove(from).insert(to, Overlay::Present(SchemaStateView { name: to, ..state_of(m, from) })).insert(from, Overlay::Dropped)
}

pub open spec fn names_moved(s: Option<Set<Seq<char>>>, from: Seq<char>, to: Seq<char>) -> Option<Set<Seq<char>>> {
    match s {
        Some(names) => Some(
            if names.contains(from) {
                names.remove(from).insert(to)
            } else {
                names
            },
        ),
        None => None,
    }
}

pub open spec fn ids_moved(s: Set<ObjectIdView>, from: Seq<char>, to: Seq<char>) -> Set<ObjectIdView> {
    image(s, |id: ObjectIdView| swap_schema(id, from, to))
}

pub open spec fn keys_moved(s: Set<(ObjectIdView, Seq<char>)>, from: Seq<char>, to: Seq<char>) -> Set<(ObjectIdView, Seq<char>)> {
    image(s, |key: (ObjectIdView, Seq<char>)| key_moved(key, from, to))
}

/// Whether `m` is the namespace `n` after the schema `from` became `to`.
/// Where an object of that schema meets a leftover entry of the same name
/// under the new schema, either may stay.
#[verifier::opaque]
pub open spec fn namespace_renamed(n: NamespaceSnapshotView, m: NamespaceSnapshotView, from: Seq<char>, to: Seq<char>) -> bool {
    &&& m.schemas == schemas_moved(n.schemas, from, to)
    &&& remapped(
        n.relations,
        m.relations,
        |id: ObjectIdView| swap_schema(id, from, to),
        |o: Overlay<RelationStateView>| relation_moved(o, from, to),
    )
    &&& remapped(n.types, m.types, |id: ObjectIdView| swap_schema(id, from, to), |o: Overlay<TypeStateView>| type_moved(o, from, to))
    &&& remapped(
        n.functions,
        m.functions,
        |id: ObjectIdView| swap_schema(id, from, to),
        |o: Overlay<FunctionStateView>| function_moved(o, from, to),
    )
    &&& remapped(
        n.sequences,
        m.sequences,
        |id: ObjectIdView| swap_schema(id, from, to),
        |o: Overlay<SequenceStateView>| sequence_moved(o, from, to),
    )
    &&& remapped(
        n.triggers,
        m.triggers,
        |id: ObjectIdView| swap_schema(id, from, to),
        |o: Overlay<TriggerStateView>| trigger_moved(o, from, to),
    )
    &&& m.publications == Map::new(
        |name: Seq<char>| n.publications.dom().contains(name),
        |name: Seq<char>| publication_moved(n.publications[name], from, to),
    )
    &&& remapped(
        n.constraints,
        m.constraints,
        |key: (ObjectIdView, Seq<char>)| key_moved(key, from, to),
        |c: ConstraintStateView| constraint_moved(c, from, to),
    )
    &&& graph_moved(n, m.graph, from, to)
    &&& m.pending_validation == keys_moved(n.pending_validation, from, to)
    &&& m.baseline_relations == ids_moved(n.baseline_relations, from, to)
    &&& m.baseline_indexes == ids_moved(n.baseline_indexes, from, to)
    &&& m.baseline_foreign_keys == keys_moved(n.baseline_foreign_keys, from, to)
    &&& m.baseline_fk_dependencies == ids_moved(n.baseline_fk_dependencies, from, to)
    &&& m.baseline_sequences == ids_moved(n.baseline_sequences, from, to)
    &&& m.scoped_external_relation_dependencies == ids_moved(n.scoped_external_relation_dependencies, from, to)
    &&& m.scoped_external_type_dependencies == ids_moved(n.scoped_external_type_dependencies, from, to)
    &&& m.scoped_external_routine_dependencies == ids_moved(n.scoped_external_routine_dependencies, from, to)
    &&& m.baseline_schemas == names_moved(n.baseline_schemas, from, to)
    &&& m.search_path == n.search_path
    &&& m.search_path_template == n.search_path_template
    &&& m.session_search_path_template == n.session_search_path_template
}

/// Whether `after` is the data `d` after the schema `from` became `to`: the
/// namespace follows, and the search path is computed anew.
pub open spec fn schema_namespace_renamed(d: StateData, after: StateData, from: Seq<char>, to: Seq<char>) -> bool {
    exists|m: NamespaceSnapshotView| #[trigger] namespace_renamed(namespace_of(d), m, from, to) && after == refreshed(with_namespace(d, m))
}

fn move_relation(o: &RelationOverlay, from: &String, to: &String) -> (r: RelationOverlay)
    ensures
        r.deep_view() == relation_moved(o.deep_view(), from@, to@),
{
    match o {
        Overlay::Present(s) => {
            let mut s = s.dup();
            s.id = swapped_schema(&s.id, from, to);
            Overlay::Present(s)
        },
        Overlay::Dropped => Overlay::Dropped,
    }
}

fn move_type(o: &TypeOverlay, from: &String, to: &String) -> (r: TypeOverlay)
    ensures
        r.deep_view() == type_moved(o.deep_view(), from@, to@),
{
    match o {
        Overlay::Present(s) => {
            let mut s = s.dup();
            s.id = swapped_schema(&s.id, from, to);
            Overlay::Present(s)
        },
        Overlay::Dropped => Overlay::Dropped,
    }
}

fn move_routine(o: &FunctionOverlay, from: &String, to: &String) -> (r: FunctionOverlay)
    ensures
        r.deep_view() == function_moved(o.deep_view(), from@, to@),
{
    match o {
        Overlay::Present(s) => {
            let mut s = s.dup();
            s.id = swapped_schema(&s.id, from, to);
            Overlay::Present(s)
        },
        Overlay::Dropped => Overlay::Dropped,
    }
}

fn move_sequence(o: &SequenceOverlay, from: &String, to: &String) -> (r: SequenceOverlay)
    ensures
        r.deep_view() == sequence_moved(o.deep_view(), from@, to@),
{
    match o {
        Overlay::Present(s) => {
            let mut s = s.dup();
            s.id = swapped_schema(&s.id, from, to);
            s.owned_by = match &s.owned_by {
                Some((table, column)) => Some((swapped_schema(table, from, to), column.clone())),
                None => None,
            };
            Overlay::Present(s)
        },
        Overlay::Dropped => Overlay::Dropped,
    }
}

fn move_trigger(o: &TriggerOverlay, from: &String, to: &String) -> (r: TriggerOverlay)
    ensures
        r.deep_view() == trigger_moved(o.deep_view(), from@, to@),
{
    match o {
        Overlay::Present(s) => {
            let mut s = s.dup();
            s.id = swapped_schema(&s.id, from, to);
            s.table_id = swapped_schema(&s.table_id, from, to);
            Overlay::Present(s)
        },
        Overlay::Dropped => Overlay::Dropped,
    }
}

fn move_published(o: &PublicationObjectFact, from: &String, to: &String) -> (r: PublicationObjectFact)
    ensures
        r@ == published_moved(o@, from@, to@),
{
    match o {
        PublicationObjectFact::Table { name, only, include_partitions, columns, row_filter } => {
            let in_schema = match &name.schema {
                Some(schema) => schema.resolve() == *from,
                None => false,
            };
            let name = if in_schema {
                QualifiedName { schema: Some(Ident::new(to, true)), name: name.name.dup() }
            } else {
                name.dup()
            };
            PublicationObjectFact::Table {
                name,
                only: *only,
                include_partitions: *include_partitions,
                columns: columns.dup(),
                row_filter: row_filter.dup(),
            }
        },
        PublicationObjectFact::SchemaTables { schema, row_filter } => {
            let schema = if *schema == *from {
                to.clone()
            } else {
                schema.clone()
            };
            PublicationObjectFact::SchemaTables { schema, row_filter: row_filter.dup() }
        },
        _ => o.dup(),
    }
}

fn move_publication(o: &PublicationOverlay, from: &String, to: &String) -> (r: PublicationOverlay)
    ensures
        r.deep_view() == publication_moved(o.deep_view(), from@, to@),
{
    match o {
        Overlay::Present(s) => match &s.scope {
            PublicationScope::Explicit(objects) => {
                let follow = |x: &PublicationObjectFact| -> (y: PublicationObjectFact)
                    ensures
                        y@ == published_moved(x@, from@, to@),
                    { move_published(x, from, to) };
                let moved = vec_map(objects, follow, Ghost(|x: PublicationObjectFactView| published_moved(x, from@, to@)));
                Overlay::Present(PublicationState { name: s.name.dup(), scope: PublicationScope::Explicit(moved), params: s.params.dup() })
            },
            _ => o.dup(),
        },
        Overlay::Dropped => Overlay::Dropped,
    }
}

fn move_ids(s: &VecSet<ObjectId>, from: &String, to: &String) -> (r: VecSet<ObjectId>)
    ensures
        r@ == ids_moved(s@, from@, to@),
{
    let follow = |id: &ObjectId| -> (x: ObjectId)
        ensures
            x@ == swap_schema(id@, from@, to@),
        { swapped_schema(id, from, to) };
    s.map_elements(follow, Ghost(|id: ObjectIdView| swap_schema(id, from@, to@)))
}

fn move_keys(s: &VecSet<(ObjectId, String)>, from: &String, to: &String) -> (r: VecSet<(ObjectId, String)>)
    ensures
        r@ == keys_moved(s@, from@, to@),
{
    let follow = |key: &(ObjectId, String)| -> (x: (ObjectId, String))
        ensures
            x.deep_view() == key_moved(key.deep_view(), from@, to@),
        { (swapped_schema(&key.0, from, to), key.1.dup()) };
    s.map_elements(follow, Ghost(|key: (ObjectIdView, Seq<char>)| key_moved(key, from@, to@)))
}

fn move_names(s: &Option<VecSet<String>>, from: &String, to: &String) -> (r: Option<VecSet<String>>)
    ensures
        r.deep_view() == names_moved(s.deep_view(), from@, to@),
{
    match s {
        Some(names) => {
            let mut names = names.dup();
            if names.contains(from) {
                names.remove(from);
                names.insert(to.clone());
            }
            Some(names)
        },
        None => None,
    }
}

/// The keys of a family that lie in a schema.
fn keys_in_schema<V: Dup>(m: &VecMap<ObjectId, V>, schema: &String) -> (r: Vec<ObjectId>)
    ensures
        lists_schema(r.deep_view(), m@, schema@),
{
    let inside = |id: &ObjectId, v: &V| -> (b: bool)
        ensures
            b == (id@.schema == schema@),
        { id.schema == *schema };
    m.keys_where(inside, Ghost(|id: ObjectIdView, v: V::V| id.schema == schema@))
}

/// The entries of a family under the new name of a schema.
fn move_family<V: Dup, F: Fn(&V) -> V>(m: &VecMap<ObjectId, V>, from: &String, to: &String, f: F, Ghost(p): Ghost<spec_fn(V::V) -> V::V>) -> (r:
    VecMap<ObjectId, V>)
    requires
        forall|v: &V| f.requires((v,)),
        forall|v: &V, x: V| f.ensures((v,), x) ==> x.deep_view() == p(v.deep_view()),
    ensures
        remapped(m@, r@, |id: ObjectIdView| swap_schema(id, from@, to@), p),
{
    let follow = |id: &ObjectId| -> (x: ObjectId)
        ensures
            x@ == swap_schema(id@, from@, to@),
        { swapped_schema(id, from, to) };
    m.remap(follow, f, Ghost(|id: ObjectIdView| swap_schema(id, from@, to@)), Ghost(p))
}

fn append_renames(edges: &mut Vec<DependencyEdge>, ids: &Vec<ObjectId>, from: &String, to: &String)
    ensures
        final(edges).deep_view() == old(edges).deep_view() + rename_edges(ids.deep_view(), from@, to@),
{
    let ghost before = edges.deep_view();
    let renamed = |id: &ObjectId| -> (e: DependencyEdge)
        ensures
            e@ == edge(id@, swap_schema(id@, from@, to@), DependencyKindView::RenameTo),
        { DependencyEdge::new(id.dup(), swapped_schema(id, from, to), DependencyKind::RenameTo) };
    let mut more = vec_map(ids, renamed, Ghost(|id: ObjectIdView| edge(id, swap_schema(id, from@, to@), DependencyKindView::RenameTo)));
    let ghost added = more.deep_view();
    edges.append(&mut more);
    assert(edges.deep_view() =~= before + added);
}

/// The graph after a schema was renamed.
fn move_graph(n: &NamespaceSnapshot, from: &String, to: &String) -> (r: Vec<DependencyEdge>)
    ensures
        graph_moved(n@, r.deep_view(), from@, to@),
{
    let mut graph = DependencyGraph::new();
    graph.replace_edges(n.graph.dup());
    graph.remap_schema_namespace(from, to);
    let mut edges = graph.edges().dup();
    let relations = keys_in_schema(&n.relations, from);
    let types = keys_in_schema(&n.types, from);
    let functions = keys_in_schema(&n.functions, from);
    let sequences = keys_in_schema(&n.sequences, from);
    let triggers = keys_in_schema(&n.triggers, from);
    let ghost base = edges.deep_view();
    append_renames(&mut edges, &relations, from, to);
    append_renames(&mut edges, &types, from, to);
    append_renames(&mut edges, &functions, from, to);
    append_renames(&mut edges, &sequences, from, to);
    append_renames(&mut edges, &triggers, from, to);
    proof {
        let l = MovedIds {
            relations: relations.deep_view(),
            types: types.deep_view(),
            functions: functions.deep_view(),
            sequences: sequences.deep_view(),
            triggers: triggers.deep_view(),
        };
        assert(lists_moved(l, n@, from@));
        assert(edges.deep_view() =~= base + moved_edges(l, from@, to@));
    }
    edges
}

fn move_constraints(m: &VecMap<(ObjectId, String), ConstraintState>, from: &String, to: &String) -> (r: VecMap<(ObjectId, String), ConstraintState>)
    ensures
        remapped(
            m@,
            r@,
            |key: (ObjectIdView, Seq<char>)| key_moved(key, from@, to@),
            |c: ConstraintStateView| constraint_moved(c, from@, to@),
        ),
{
    let follow = |key: &(ObjectId, String)| -> (x: (ObjectId, String))
        ensures
            x.deep_view() == key_moved(key.deep_view(), from@, to@),
        { (swapped_schema(&key.0, from, to), key.1.dup()) };
    let change = |c: &ConstraintState| -> (x: ConstraintState)
        ensures
            x@ == constraint_moved(c@, from@, to@),
        {
            let mut x = c.dup();
            x.table_id = swapped_schema(&x.table_id, from, to);
            x
        };
    m.remap(
        follow,
        change,
        Ghost(|key: (ObjectIdView, Seq<char>)| key_moved(key, from@, to@)),
        Ghost(|c: ConstraintStateView| constraint_moved(c, from@, to@)),
    )
}

fn move_schemas(m: &VecMap<String, Overlay<SchemaState>>, from: &String, to: &String) -> (r: VecMap<String, Overlay<SchemaState>>)
    requires
        present(m@, from@),
    ensures
        r@ == schemas_moved(m@, from@, to@),
{
    let mut out = m.dup();
    if let Some(Overlay::Present(schema)) = m.get(from) {
        let mut schema = schema.dup();
        schema.name = to.clone();
        out.remove(from);
        out.insert(to.clone(), Overlay::Present(schema));
        out.insert(from.clone(), Overlay::Dropped);
    }
    out
}

fn move_publications(m: &VecMap<String, PublicationOverlay>, from: &String, to: &String) -> (r: VecMap<String, PublicationOverlay>)
    ensures
        r@ == Map::new(|name: Seq<char>| m@.dom().contains(name), |name: Seq<char>| publication_moved(m@[name], from@, to@)),
{
    let follow = |name: &String, o: &PublicationOverlay| -> (x: PublicationOverlay)
        ensures
            x.deep_view() == publication_moved(o.deep_view(), from@, to@),
        { move_publication(o, from, to) };
    let r = m.map_entries(follow, Ghost(|name: Seq<char>, o: Overlay<PublicationStateView>| publication_moved(o, from@, to@)));
    assert(r@ =~= Map::new(|name: Seq<char>| m@.dom().contains(name), |name: Seq<char>| publication_moved(m@[name], from@, to@)));
    r
}

fn move_namespace(n: &NamespaceSnapshot, from: &String, to: &String) -> (r: NamespaceSnapshot)
    requires
        present(n@.schemas, from@),
    ensures
        namespace_renamed(n@, r@, from@, to@),
{
    let relation = |o: &RelationOverlay| -> (x: RelationOverlay)
        ensures
            x.deep_view() == relation_moved(o.deep_view(), from@, to@),
        { move_relation(o, from, to) };
    let type_of = |o: &TypeOverlay| -> (x: TypeOverlay)
        ensures
            x.deep_view() == type_moved(o.deep_view(), from@, to@),
        { move_type(o, from, to) };
    let routine = |o: &FunctionOverlay| -> (x: FunctionOverlay)
        ensures
            x.deep_view() == function_moved(o.deep_view(), from@, to@),
        { move_routine(o, from, to) };
    let sequence = |o: &SequenceOverlay| -> (x: SequenceOverlay)
        ensures
            x.deep_view() == sequence_moved(o.deep_view(), from@, to@),
        { move_sequence(o, from, to) };
    let trigger = |o: &TriggerOverlay| -> (x: TriggerOverlay)
        ensures
            x.deep_view() == trigger_moved(o.deep_view(), from@, to@),
        { move_trigger(o, from, to) };
    let r = NamespaceSnapshot {
        schemas: move_schemas(&n.schemas, from, to),
        relations: move_family(&n.relations, from, to, relation, Ghost(|o: Overlay<RelationStateView>| relation_moved(o, from@, to@))),
        types: move_family(&n.types, from, to, type_of, Ghost(|o: Overlay<TypeStateView>| type_moved(o, from@, to@))),
        functions: move_family(&n.functions, from, to, routine, Ghost(|o: Overlay<FunctionStateView>| function_moved(o, from@, to@))),
        sequences: move_family(&n.sequences, from, to, sequence, Ghost(|o: Overlay<SequenceStateView>| sequence_moved(o, from@, to@))),
        publications: move_publications(&n.publications, from, to),
        triggers: move_family(&n.triggers, from, to, trigger, Ghost(|o: Overlay<TriggerStateView>| trigger_moved(o, from@, to@))),
        constraints: move_constraints(&n.constraints, from, to),
        graph: move_graph(n, from, to),
        pending_validation: move_keys(&n.pending_validation, from, to),
        baseline_relations: move_ids(&n.baseline_relations, from, to),
        baseline_indexes: move_ids(&n.baseline_indexes, from, to),
        baseline_foreign_keys: move_keys(&n.baseline_foreign_keys, from, to),
        baseline_fk_dependencies: move_ids(&n.baseline_fk_dependencies, from, to),
        baseline_sequences: move_ids(&n.baseline_sequences, from, to),
        scoped_external_relation_dependencies: move_ids(&n.scoped_external_relation_dependencies, from, to),
        scoped_external_type_dependencies: move_ids(&n.scoped_external_type_dependencies, from, to),
        scoped_external_routine_dependencies: move_ids(&n.scoped_external_routine_dependencies, from, to),
        baseline_schemas: move_names(&n.baseline_schemas, from, to),
        search_path: n.search_path.dup(),
        search_path_template: n.search_path_template.dup(),
        session_search_path_template: n.session_search_path_template.dup(),
    };
    proof {
        reveal(namespace_renamed);
    }
    r
}

impl AnalysisState {
    /// Gives a schema another name.
    pub(crate) fn rename_schema_namespace(&mut self, old_name: &String, new_name: &String)
        requires
            present(old(self)@.data.schemas, old_name@),
        ensures
            schema_namespace_renamed(old(self)@.data, final(self)@.data, old_name@, new_name@),
            kept_as(old(self)@, final(self)@, EdgeUndo::PutBack),
    {
        let ghost d = self@.data;
        let n = self.current_namespace();
        let moved = move_namespace(&n, old_name, new_name);
        let ghost m = moved@;
        self.replace_namespace(moved);
        self.refresh_role_sensitive_search_path();
        assert(namespace_renamed(namespace_of(d), m, old_name@, new_name@));
    }
}

/// After a rename nothing is left under the old name of the schema, and what
/// was there is found under the new one.
pub proof fn law_rename_moves_relations(n: NamespaceSnapshotView, m: NamespaceSnapshotView, from: Seq<char>, to: Seq<char>, id: ObjectIdView)
    requires
        namespace_renamed(n, m, from, to),
        from != to,
        id.schema == from,
    ensures
        !m.relations.dom().contains(id),
        n.relations.dom().contains(id) ==> m.relations.dom().contains(swap_schema(id, from, to)),
        m.schemas.dom().contains(from) && m.schemas[from] is Dropped,
        present(m.schemas, to),
{
    reveal(namespace_renamed);
    if m.relations.dom().contains(id) {
        let q = |id: ObjectIdView| swap_schema(id, from, to);
        let p = |o: Overlay<RelationStateView>| relation_moved(o, from, to);
        assert(crate::collections::comes_from(n.relations, m.relations, q, p, id));
        let s = choose|s: ObjectIdView| #[trigger] n.relations.dom().contains(s) && q(s) == id && m.relations[id] == p(n.relations[s]);
        assert(swap_schema(s, from, to) == id);
    }
}

} // verus!
