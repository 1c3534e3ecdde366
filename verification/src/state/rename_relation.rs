//! Renaming relations and indexes, and moving them to another schema.
use crate::cache::CatalogFamily;
use crate::collections::{image, vec_filter, vec_map, Dup, Key, VecMap, VecSet};
use crate::facts::{PublicationObjectFact, PublicationObjectFactView, PublicationScope, PublicationScopeView};
use crate::graph::{
    edge, swap_id, with_index_renamed, with_relation_renamed, with_sequence_renamed, with_trigger_renamed, DependencyEdge, DependencyEdgeView, DependencyGraph,
    DependencyKind, DependencyKindView,
};
use crate::identifiers::{object, Ident, IdentView, ObjectId, ObjectIdView, QualifiedName, QualifiedNameView};
use crate::model::constraint::{ConstraintState, ConstraintStateView};
use crate::model::relation::RelationStateView;
use crate::model::replication::{PublicationOverlay, PublicationState, PublicationStateView};
use crate::model::sequence::{SequenceOverlay, SequenceStateView};
use crate::model::trigger::{TriggerOverlay, TriggerState, TriggerStateView};
use crate::model::Overlay;
use crate::mutations::Rename;
use crate::state::apply_policy_trigger::trigger_key;
use crate::state::journal::{group_steps, if_applied, kept_as, namespace_of, undone, with_namespace, EdgeUndo};
use crate::state::lookup::{
    covers_family, index_present, namespace_taken, present, relation_id, relation_or_index_lookup, schema_absence_is_authoritative, state_of,
};
use crate::state::refusal::{refused, Refusal, RefusalView};
use crate::state::{data_of, AnalysisState, MutationResult, MutationResultView, ObjectLookup, StateData};
use crate::text::{join3};
use crate::transaction::{NamespaceSnapshot, NamespaceSnapshotView};
use vstd::prelude::*;

verus! {

broadcast use group_steps;

/// The order in which sequences and triggers follow their table.
pub struct FollowOrder {
    pub sequences: Seq<ObjectIdView>,
    pub triggers: Seq<ObjectIdView>,
}

pub open spec fn owned_by_table(d: StateData, s: ObjectIdView, table: ObjectIdView) -> bool {
    present(d.sequences, s) && state_of(d.sequences, s).owned_by is Some && (state_of(d.sequences, s).owned_by->0).0 == table
}

pub open spec fn is_on_table(d: StateData, t: ObjectIdView, table: ObjectIdView) -> bool {
    present(d.triggers, t) && state_of(d.triggers, t).table_id == table
}

/// Whether an order names what follows the table, each once.
pub open spec fn follows(d: StateData, table: ObjectIdView, order: FollowOrder) -> bool {
    &&& order.sequences.no_duplicates()
    &&& forall|s: ObjectIdView| order.sequences.contains(s) <==> #[trigger] owned_by_table(d, s, table)
    &&& order.triggers.no_duplicates()
    &&& forall|t: ObjectIdView| order.triggers.contains(t) <==> #[trigger] is_on_table(d, t, table)
}

pub open spec fn moves_schema(from: ObjectIdView, to: ObjectIdView) -> bool {
    from.schema != to.schema
}

pub open spec fn in_schema(id: ObjectIdView, schema: Seq<char>) -> ObjectIdView {
    object(schema, id.name)
}

pub open spec fn is_index_on(e: DependencyEdgeView, table: ObjectIdView) -> bool {
    e.kind is IndexOnRelation && e.referenced == table
}

/// The indexes of a table, in edge order.
pub open spec fn indexes_on(d: StateData, table: ObjectIdView) -> Seq<ObjectIdView> {
    d.graph.filter(|e: DependencyEdgeView| is_index_on(e, table)).map_values(|e: DependencyEdgeView| e.dependent)
}

/// The sequences that move along, in order.
pub open spec fn moving_sequences(order: FollowOrder, from: ObjectIdView, to: ObjectIdView) -> Seq<ObjectIdView> {
    if moves_schema(from, to) {
        order.sequences
    } else {
        Seq::empty()
    }
}

pub open spec fn moving_indexes(d: StateData, from: ObjectIdView, to: ObjectIdView) -> Seq<ObjectIdView> {
    if moves_schema(from, to) {
        indexes_on(d, from)
    } else {
        Seq::empty()
    }
}

/// The position of the first object whose new name is taken.
pub open spec fn first_taken(d: StateData, ids: Seq<ObjectIdView>, schema: Seq<char>, i: nat) -> nat
    decreases ids.len() - i,
{
    if i >= ids.len() || (in_schema(ids[i as int], schema) != ids[i as int] && namespace_taken(d, in_schema(ids[i as int], schema))) {
        i
    } else {
        first_taken(d, ids, schema, i + 1)
    }
}

/// Why what follows a relation cannot.
pub open spec fn followers_refusal(d: StateData, ids: Seq<ObjectIdView>, schema: Seq<char>) -> Option<RefusalView> {
    let i = first_taken(d, ids, schema, 0);
    if i < ids.len() {
        Some(RefusalView::Conflict("associated object '"@ + in_schema(ids[i as int], schema).shown() + "' already exists"@))
    } else {
        None
    }
}

/// Why a relation cannot take another name.
#[verifier::opaque]
pub open spec fn rename_refusal(d: StateData, from: ObjectIdView, to: ObjectIdView) -> Option<RefusalView> {
    if relation_or_index_lookup(d, from) != ObjectLookup::Present {
        if covers_family(d, from, CatalogFamily::Relations) || covers_family(d, from, CatalogFamily::Indexes) {
            Some(RefusalView::Conflict("relation '"@ + from.shown() + "' does not exist"@))
        } else {
            Some(RefusalView::Unknown)
        }
    } else if from != to && namespace_taken(d, to) {
        Some(RefusalView::Conflict("relation '"@ + to.shown() + "' already exists"@))
    } else if moves_schema(from, to) && !present(d.schemas, to.schema) {
        if schema_absence_is_authoritative(d, to.schema) {
            Some(RefusalView::Conflict("schema '"@ + to.schema + "' does not exist"@))
        } else {
            Some(RefusalView::Uncovered)
        }
    } else {
        None
    }
}

// ---------------------------------------------------------------------------
// What follows
// ---------------------------------------------------------------------------

pub open spec fn relations_renamed(m: Map<ObjectIdView, Overlay<RelationStateView>>, from: ObjectIdView, to: ObjectIdView) -> Map<
    ObjectIdView,
    Overlay<RelationStateView>,
> {
    if present(m, from) {
        m.remove(from).insert(to, Overlay::Present(RelationStateView { id: to, ..state_of(m, from) }))
    } else {
        m.remove(from)
    }
}

pub open spec fn sequence_follows(o: Overlay<SequenceStateView>, from: ObjectIdView, to: ObjectIdView) -> Overlay<SequenceStateView> {
    match o {
        Overlay::Present(s) => match s.owned_by {
            Some((table, column)) => if table == from {
                Overlay::Present(SequenceStateView { owned_by: Some((to, column)), ..s })
            } else {
                o
            },
            None => o,
        },
        Overlay::Dropped => o,
    }
}

pub open spec fn sequences_follow(m: Map<ObjectIdView, Overlay<SequenceStateView>>, from: ObjectIdView, to: ObjectIdView) -> Map<
    ObjectIdView,
    Overlay<SequenceStateView>,
> {
    Map::new(|s: ObjectIdView| m.dom().contains(s), |s: ObjectIdView| sequence_follows(m[s], from, to))
}

/// The sequences after the first `n` moved to another schema.
pub open spec fn sequences_moved(m: Map<ObjectIdView, Overlay<SequenceStateView>>, ids: Seq<ObjectIdView>, schema: Seq<char>, n: nat) -> Map<
    ObjectIdView,
    Overlay<SequenceStateView>,
>
    decreases n,
{
    if n == 0 {
        m
    } else {
        let before = sequences_moved(m, ids, schema, (n - 1) as nat);
        let s = ids[n - 1];
        let t = in_schema(s, schema);
        if present(before, s) {
            before.remove(s).insert(t, Overlay::Present(SequenceStateView { id: t, ..state_of(before, s) }))
        } else {
            before.remove(s)
        }
    }
}

/// The edges after the first `n` sequences moved.
pub open spec fn sequence_edges_moved(
    g: Seq<DependencyEdgeView>,
    m: Map<ObjectIdView, Overlay<SequenceStateView>>,
    ids: Seq<ObjectIdView>,
    schema: Seq<char>,
    n: nat,
) -> Seq<DependencyEdgeView>
    decreases n,
{
    if n == 0 {
        g
    } else {
        let before = sequence_edges_moved(g, m, ids, schema, (n - 1) as nat);
        let s = ids[n - 1];
        let t = in_schema(s, schema);
        if present(sequences_moved(m, ids, schema, (n - 1) as nat), s) {
            before.map_values(|e: DependencyEdgeView| with_sequence_renamed(e, s, t)).push(edge(s, t, DependencyKindView::RenameTo))
        } else {
            before
        }
    }
}

pub open spec fn index_edges_moved(g: Seq<DependencyEdgeView>, ids: Seq<ObjectIdView>, schema: Seq<char>, n: nat) -> Seq<DependencyEdgeView>
    decreases n,
{
    if n == 0 {
        g
    } else {
        let before = index_edges_moved(g, ids, schema, (n - 1) as nat);
        let s = ids[n - 1];
        let t = in_schema(s, schema);
        before.map_values(|e: DependencyEdgeView| with_index_renamed(e, s, t)).push(edge(s, t, DependencyKindView::RenameTo))
    }
}

pub open spec fn new_trigger_id(d: StateData, t: ObjectIdView, to: ObjectIdView) -> ObjectIdView {
    trigger_key(to, state_of(d.triggers, t).name)
}

/// The triggers after the first `n` followed their table.
pub open spec fn triggers_moved(d: StateData, ids: Seq<ObjectIdView>, to: ObjectIdView, n: nat) -> Map<ObjectIdView, Overlay<TriggerStateView>>
    decreases n,
{
    if n == 0 {
        d.triggers
    } else {
        let t = ids[n - 1];
        let u = new_trigger_id(d, t, to);
        triggers_moved(d, ids, to, (n - 1) as nat).remove(t).insert(
            u,
            Overlay::Present(TriggerStateView { id: u, table_id: to, ..state_of(d.triggers, t) }),
        )
    }
}

pub open spec fn trigger_edges_moved(d: StateData, g: Seq<DependencyEdgeView>, ids: Seq<ObjectIdView>, to: ObjectIdView, n: nat) -> Seq<DependencyEdgeView>
    decreases n,
{
    if n == 0 {
        g
    } else {
        let t = ids[n - 1];
        let u = new_trigger_id(d, t, to);
        trigger_edges_moved(d, g, ids, to, (n - 1) as nat).map_values(|e: DependencyEdgeView| with_trigger_renamed(e, t, u)).push(
            edge(t, u, DependencyKindView::RenameTo),
        )
    }
}

/// The edges after the relation or index itself took its new name.
pub open spec fn own_edges_renamed(g: Seq<DependencyEdgeView>, is_relation: bool, is_index: bool, from: ObjectIdView, to: ObjectIdView) -> Seq<
    DependencyEdgeView,
> {
    let a = g.push(edge(from, to, DependencyKindView::RenameTo));
    let b = if is_relation {
        a.map_values(|e: DependencyEdgeView| with_relation_renamed(e, from, to))
    } else {
        a
    };
    if is_index {
        b.map_values(|e: DependencyEdgeView| with_index_renamed(e, from, to))
    } else {
        b
    }
}

pub open spec fn constraints_follow(m: Map<(ObjectIdView, Seq<char>), ConstraintStateView>, from: ObjectIdView, to: ObjectIdView) -> Map<
    (ObjectIdView, Seq<char>),
    ConstraintStateView,
> {
    Map::new(
        |key: (ObjectIdView, Seq<char>)| (m.dom().contains(key) && key.0 != from) || (key.0 == to && m.dom().contains((from, key.1))),
        |key: (ObjectIdView, Seq<char>)|
            if key.0 == to && m.dom().contains((from, key.1)) {
                ConstraintStateView { table_id: to, ..m[(from, key.1)] }
            } else {
                m[key]
            },
    )
}

/// A published name that denotes the relation takes its new name.
pub open spec fn published_renamed(name: QualifiedNameView, from: ObjectIdView, to: ObjectIdView) -> QualifiedNameView {
    QualifiedNameView {
        name: IdentView { text: to.name, quoted: name.name.quoted },
        schema: if name.schema is Some || moves_schema(from, to) {
            Some(IdentView { text: to.schema, quoted: name.schema is Some && name.schema->0.quoted })
        } else {
            name.schema
        },
    }
}

pub open spec fn object_renamed(d: StateData, o: PublicationObjectFactView, from: ObjectIdView, to: ObjectIdView) -> PublicationObjectFactView {
    match o {
        PublicationObjectFactView::Table { name, only, include_partitions, columns, row_filter } => if relation_id(d, name) == from {
            PublicationObjectFactView::Table { name: published_renamed(name, from, to), only, include_partitions, columns, row_filter }
        } else {
            o
        },
        _ => o,
    }
}

pub open spec fn publication_renamed(d: StateData, o: Overlay<PublicationStateView>, from: ObjectIdView, to: ObjectIdView) -> Overlay<PublicationStateView> {
    match o {
        Overlay::Present(s) => match s.scope {
            PublicationScopeView::Explicit(objects) => Overlay::Present(
                PublicationStateView {
                    scope: PublicationScopeView::Explicit(objects.map_values(|x: PublicationObjectFactView| object_renamed(d, x, from, to))),
                    ..s
                },
            ),
            _ => o,
        },
        Overlay::Dropped => o,
    }
}

pub open spec fn publications_renamed(d: StateData, from: ObjectIdView, to: ObjectIdView) -> Map<Seq<char>, Overlay<PublicationStateView>> {
    Map::new(
        |name: Seq<char>| d.publications.dom().contains(name),
        |name: Seq<char>| publication_renamed(d, d.publications[name], from, to),
    )
}

pub open spec fn key_follows(key: (ObjectIdView, Seq<char>), from: ObjectIdView, to: ObjectIdView) -> (ObjectIdView, Seq<char>) {
    (swap_id(key.0, from, to), key.1)
}

pub open spec fn keys_follow(s: Set<(ObjectIdView, Seq<char>)>, from: ObjectIdView, to: ObjectIdView) -> Set<(ObjectIdView, Seq<char>)> {
    image(s, |key: (ObjectIdView, Seq<char>)| key_follows(key, from, to))
}

pub open spec fn id_moved(s: Set<ObjectIdView>, from: ObjectIdView, to: ObjectIdView) -> Set<ObjectIdView> {
    if s.contains(from) {
        s.remove(from).insert(to)
    } else {
        s
    }
}

pub open spec fn ids_moved(s: Set<ObjectIdView>, ids: Seq<ObjectIdView>, schema: Seq<char>, n: nat) -> Set<ObjectIdView>
    decreases n,
{
    if n == 0 {
        s
    } else {
        id_moved(ids_moved(s, ids, schema, (n - 1) as nat), ids[n - 1], in_schema(ids[n - 1], schema))
    }
}

/// The edges after a rename.
pub open spec fn graph_renamed(d: StateData, from: ObjectIdView, to: ObjectIdView, order: FollowOrder) -> Seq<DependencyEdgeView> {
    let sequences = moving_sequences(order, from, to);
    let indexes = moving_indexes(d, from, to);
    let a = sequence_edges_moved(d.graph, sequences_follow(d.sequences, from, to), sequences, to.schema, sequences.len());
    let b = index_edges_moved(a, indexes, to.schema, indexes.len());
    let c = trigger_edges_moved(d, b, order.triggers, to, order.triggers.len());
    own_edges_renamed(c, present(d.relations, from), index_present(d, from), from, to)
}

pub open spec fn baseline_indexes_renamed(d: StateData, from: ObjectIdView, to: ObjectIdView) -> Set<ObjectIdView> {
    let indexes = moving_indexes(d, from, to);
    ids_moved(
        if index_present(d, from) {
            id_moved(d.baseline_indexes, from, to)
        } else {
            d.baseline_indexes
        },
        indexes,
        to.schema,
        indexes.len(),
    )
}

/// The namespace after a rename.
#[verifier::opaque]
pub open spec fn namespace_renamed(d: StateData, n: NamespaceSnapshotView, from: ObjectIdView, to: ObjectIdView, order: FollowOrder) -> NamespaceSnapshotView {
    let sequences = moving_sequences(order, from, to);
    let is_relation = present(d.relations, from);
    NamespaceSnapshotView {
        relations: relations_renamed(d.relations, from, to),
        sequences: sequences_moved(sequences_follow(d.sequences, from, to), sequences, to.schema, sequences.len()),
        triggers: triggers_moved(d, order.triggers, to, order.triggers.len()),
        constraints: constraints_follow(d.constraints, from, to),
        publications: publications_renamed(d, from, to),
        pending_validation: keys_follow(d.pending_validation, from, to),
        graph: graph_renamed(d, from, to, order),
        baseline_relations: if is_relation {
            id_moved(d.baseline_relations, from, to)
        } else {
            d.baseline_relations
        },
        baseline_fk_dependencies: if is_relation {
            id_moved(d.baseline_fk_dependencies, from, to)
        } else {
            d.baseline_fk_dependencies
        },
        baseline_foreign_keys: if is_relation {
            keys_follow(d.baseline_foreign_keys, from, to)
        } else {
            d.baseline_foreign_keys
        },
        baseline_indexes: baseline_indexes_renamed(d, from, to),
        baseline_sequences: ids_moved(d.baseline_sequences, sequences, to.schema, sequences.len()),
        ..n
    }
}

/// A rename in which sequences and triggers follow in a given order.
#[verifier::opaque]
pub open spec fn renamed_in_order(d: StateData, from: ObjectIdView, to: ObjectIdView, order: FollowOrder) -> (StateData, MutationResultView) {
    let followers = moving_sequences(order, from, to) + moving_indexes(d, from, to);
    if rename_refusal(d, from, to) is Some {
        refused(d, rename_refusal(d, from, to)->0)
    } else if followers_refusal(d, followers, to.schema) is Some {
        refused(d, followers_refusal(d, followers, to.schema)->0)
    } else {
        (with_namespace(d, namespace_renamed(d, namespace_of(d), from, to, order)), MutationResultView::Applied)
    }
}

/// Whether `after` and `r` are what renaming a relation or an index leads to.
/// In which order sequences and triggers follow is left open.
pub open spec fn relation_renamed(d: StateData, from: ObjectIdView, to: ObjectIdView, after: StateData, r: MutationResultView) -> bool {
    exists|order: FollowOrder| #[trigger] follows(d, from, order) && (after, r) == renamed_in_order(d, from, to, order)
}

/// A relation that was renamed is found under its new name and not under its
/// old one, and is the same but for its name.
pub proof fn law_rename_moves_relation(d: StateData, from: ObjectIdView, to: ObjectIdView, after: StateData)
    requires
        relation_renamed(d, from, to, after, MutationResultView::Applied),
        present(d.relations, from),
        from != to,
    ensures
        !present(after.relations, from),
        present(after.relations, to),
        state_of(after.relations, to) == (RelationStateView { id: to, ..state_of(d.relations, from) }),
{
    let order = choose|order: FollowOrder| #[trigger] follows(d, from, order) && (after, MutationResultView::Applied) == renamed_in_order(d, from, to, order);
    reveal(renamed_in_order);
    reveal(namespace_renamed);
    reveal(crate::state::journal::undone);
    if rename_refusal(d, from, to) is Some {
        crate::state::refusal::lemma_refused(d, rename_refusal(d, from, to)->0);
    }
    let followers = moving_sequences(order, from, to) + moving_indexes(d, from, to);
    if followers_refusal(d, followers, to.schema) is Some {
        crate::state::refusal::lemma_refused(d, followers_refusal(d, followers, to.schema)->0);
    }
}

// ---------------------------------------------------------------------------
// Execution
// ---------------------------------------------------------------------------

fn move_id(s: &VecSet<ObjectId>, from: &ObjectId, to: &ObjectId) -> (r: VecSet<ObjectId>)
    ensures
        r@ == id_moved(s@, from@, to@),
{
    let mut r = s.dup();
    if r.contains(from) {
        r.remove(from);
        r.insert(to.dup());
    }
    r
}

fn move_ids(s: &VecSet<ObjectId>, ids: &Vec<ObjectId>, schema: &String) -> (r: VecSet<ObjectId>)
    ensures
        r@ == ids_moved(s@, ids.deep_view(), schema@, ids.deep_view().len()),
{
    let mut r = s.dup();
    let mut i: usize = 0;
    while i < ids.len()
        invariant
            i <= ids.len(),
            r@ == ids_moved(s@, ids.deep_view(), schema@, i as nat),
        decreases ids.len() - i,
    {
        assert(ids.deep_view()[i as int] == ids@[i as int]@);
        r = move_id(&r, &ids[i], &ObjectId::new(schema, &ids[i].name));
        i = i + 1;
    }
    r
}

fn follow_keys(s: &VecSet<(ObjectId, String)>, from: &ObjectId, to: &ObjectId) -> (r: VecSet<(ObjectId, String)>)
    ensures
        r@ == keys_follow(s@, from@, to@),
{
    let f = |key: &(ObjectId, String)| -> (x: (ObjectId, String))
        ensures
            x.deep_view() == key_follows(key.deep_view(), from@, to@),
        {
            if key.0.same(from) {
                (to.dup(), key.1.clone())
            } else {
                (key.0.dup(), key.1.clone())
            }
        };
    s.map_elements(f, Ghost(|key: (ObjectIdView, Seq<char>)| key_follows(key, from@, to@)))
}

fn follow_sequences(m: &VecMap<ObjectId, SequenceOverlay>, from: &ObjectId, to: &ObjectId) -> (r: VecMap<ObjectId, SequenceOverlay>)
    ensures
        r@ == sequences_follow(m@, from@, to@),
{
    let f = |s: &ObjectId, o: &SequenceOverlay| -> (x: SequenceOverlay)
        ensures
            x.deep_view() == sequence_follows(o.deep_view(), from@, to@),
        {
            match o {
                Overlay::Present(state) => {
                    let mut state = state.dup();
                    let column = match &state.owned_by {
                        Some((table, column)) => if table.same(from) {
                            Some(column.clone())
                        } else {
                            None
                        },
                        None => None,
                    };
                    if let Some(column) = column {
                        state.owned_by = Some((to.dup(), column));
                    }
                    Overlay::Present(state)
                },
                Overlay::Dropped => Overlay::Dropped,
            }
        };
    let r = m.map_entries(f, Ghost(|s: ObjectIdView, o: Overlay<SequenceStateView>| sequence_follows(o, from@, to@)));
    assert(r@ =~= sequences_follow(m@, from@, to@));
    r
}

/// Moves sequences, and their edges with them.
fn move_sequences(m: &VecMap<ObjectId, SequenceOverlay>, graph: &mut DependencyGraph, ids: &Vec<ObjectId>, schema: &String) -> (r: VecMap<
    ObjectId,
    SequenceOverlay,
>)
    ensures
        r@ == sequences_moved(m@, ids.deep_view(), schema@, ids.deep_view().len()),
        final(graph)@ == sequence_edges_moved(old(graph)@, m@, ids.deep_view(), schema@, ids.deep_view().len()),
{
    let mut r = m.dup();
    let mut i: usize = 0;
    let ghost g = graph@;
    while i < ids.len()
        invariant
            i <= ids.len(),
            g == old(graph)@,
            r@ == sequences_moved(m@, ids.deep_view(), schema@, i as nat),
            graph@ == sequence_edges_moved(g, m@, ids.deep_view(), schema@, i as nat),
        decreases ids.len() - i,
    {
        assert(ids.deep_view()[i as int] == ids@[i as int]@);
        let id = &ids[i];
        let new_id = ObjectId::new(schema, &id.name);
        let state = match r.get(id) {
            Some(Overlay::Present(state)) => Some(state.dup()),
            _ => None,
        };
        r.remove(id);
        if let Some(state) = state {
            let mut state = state;
            state.id = new_id.dup();
            r.insert(new_id.dup(), Overlay::Present(state));
            graph.propagate_sequence_rename(id, &new_id);
            graph.add_edge(DependencyEdge::new(id.dup(), new_id, DependencyKind::RenameTo));
        }
        i = i + 1;
    }
    r
}

fn move_indexes(graph: &mut DependencyGraph, ids: &Vec<ObjectId>, schema: &String)
    ensures
        final(graph)@ == index_edges_moved(old(graph)@, ids.deep_view(), schema@, ids.deep_view().len()),
{
    let mut i: usize = 0;
    let ghost g = graph@;
    while i < ids.len()
        invariant
            i <= ids.len(),
            g == old(graph)@,
            graph@ == index_edges_moved(g, ids.deep_view(), schema@, i as nat),
        decreases ids.len() - i,
    {
        assert(ids.deep_view()[i as int] == ids@[i as int]@);
        let id = &ids[i];
        let new_id = ObjectId::new(schema, &id.name);
        graph.propagate_index_rename(id, &new_id);
        graph.add_edge(DependencyEdge::new(id.dup(), new_id, DependencyKind::RenameTo));
        i = i + 1;
    }
}

fn rename_own_edges(graph: &mut DependencyGraph, is_relation: bool, is_index: bool, from: &ObjectId, to: &ObjectId)
    ensures
        final(graph)@ == own_edges_renamed(old(graph)@, is_relation, is_index, from@, to@),
{
    graph.add_edge(DependencyEdge::new(from.dup(), to.dup(), DependencyKind::RenameTo));
    if is_relation {
        graph.propagate_relation_rename(from, to);
    }
    if is_index {
        graph.propagate_index_rename(from, to);
    }
}

fn follow_constraints(m: &VecMap<(ObjectId, String), ConstraintState>, from: &ObjectId, to: &ObjectId) -> (r: VecMap<(ObjectId, String), ConstraintState>)
    ensures
        r@ == constraints_follow(m@, from@, to@),
{
    let mut r: VecMap<(ObjectId, String), ConstraintState> = VecMap::new();
    let n = m.len();
    let ghost items = m.items();
    let mut i: usize = 0;
    // Constraints of other tables first, so that those that follow win.
    while i < n
        invariant
            i <= n,
            n == m.items().len(),
            items == m.items(),
            crate::collections::distinct_keys(items),
            forall|k: (ObjectIdView, Seq<char>)| #[trigger]
                r@.dom().contains(k) <==> k.0 != from@ && exists|j: int| 0 <= j < i && #[trigger] items[j].0 == k,
            forall|j: int| 0 <= j < i && (#[trigger] items[j]).0.0 != from@ ==> r@[items[j].0] == items[j].1,
        decreases n - i,
    {
        let key = m.key_at(i);
        let ghost before = r@;
        if !key.0.same(from) {
            r.insert(key.dup(), m.value_at(i).dup());
        }
        proof {
            assert forall|k: (ObjectIdView, Seq<char>)| #[trigger] r@.dom().contains(k) <==> k.0 != from@ && exists|j: int|
                0 <= j < i + 1 && #[trigger] items[j].0 == k by {
                if before.dom().contains(k) {
                    let j = choose|j: int| 0 <= j < i && #[trigger] items[j].0 == k;
                    assert(items[j].0 == k);
                }
                if k == items[i as int].0 && k.0 != from@ {
                    assert(items[i as int].0 == k);
                }
            }
            assert forall|j: int| 0 <= j < i + 1 && (#[trigger] items[j]).0.0 != from@ implies r@[items[j].0] == items[j].1 by {
                if j < i {
                    assert(items[j].0 != items[i as int].0);
                }
            }
        }
        i = i + 1;
    }
    let ghost others = r@;
    i = 0;
    while i < n
        invariant
            i <= n,
            n == m.items().len(),
            items == m.items(),
            crate::collections::distinct_keys(items),
            forall|k: (ObjectIdView, Seq<char>)| #[trigger]
                r@.dom().contains(k) <==> others.dom().contains(k) || (k.0 == to@ && exists|j: int| 0 <= j < i && #[trigger] items[j].0 == (from@, k.1)),
            forall|k: (ObjectIdView, Seq<char>)| #[trigger]
                r@.dom().contains(k) && !(k.0 == to@ && exists|j: int| 0 <= j < i && #[trigger] items[j].0 == (from@, k.1)) ==> r@[k] == others[k],
            forall|j: int|
                0 <= j < i && (#[trigger] items[j]).0.0 == from@ ==> r@.dom().contains((to@, items[j].0.1)) && r@[(to@, items[j].0.1)] == (
                ConstraintStateView { table_id: to@, ..items[j].1 }),
        decreases n - i,
    {
        let key = m.key_at(i);
        let ghost before = r@;
        if key.0.same(from) {
            let mut c = m.value_at(i).dup();
            c.table_id = to.dup();
            r.insert((to.dup(), key.1.clone()), c);
        }
        proof {
            let here = items[i as int];
            assert forall|k: (ObjectIdView, Seq<char>)| #[trigger] r@.dom().contains(k) <==> others.dom().contains(k) || (k.0 == to@ && exists|j: int|
                0 <= j < i + 1 && #[trigger] items[j].0 == (from@, k.1)) by {
                if k.0 == to@ && exists|j: int| 0 <= j < i && #[trigger] items[j].0 == (from@, k.1) {
                    let j = choose|j: int| 0 <= j < i && #[trigger] items[j].0 == (from@, k.1);
                    assert(items[j].0 == (from@, k.1));
                }
                if here.0.0 == from@ && k == (to@, here.0.1) {
                    assert(items[i as int].0 == (from@, k.1));
                }
                if k.0 == to@ && (exists|j: int| 0 <= j < i + 1 && #[trigger] items[j].0 == (from@, k.1)) && !before.dom().contains(k) {
                    let j = choose|j: int| 0 <= j < i + 1 && #[trigger] items[j].0 == (from@, k.1);
                    assert(j == i);
                }
            }
            assert forall|k: (ObjectIdView, Seq<char>)| #[trigger] r@.dom().contains(k) && !(k.0 == to@ && exists|j: int|
                0 <= j < i + 1 && #[trigger] items[j].0 == (from@, k.1)) implies r@[k] == others[k] by {
                if k.0 == to@ && exists|j: int| 0 <= j < i && #[trigger] items[j].0 == (from@, k.1) {
                    let j = choose|j: int| 0 <= j < i && #[trigger] items[j].0 == (from@, k.1);
                    assert(items[j].0 == (from@, k.1));
                }
                if here.0.0 == from@ {
                    assert(items[i as int].0 == (from@, here.0.1));
                    assert(k != (to@, here.0.1));
                }
                assert(before.dom().contains(k));
            }
            assert forall|j: int| 0 <= j < i + 1 && (#[trigger] items[j]).0.0 == from@ implies r@.dom().contains((to@, items[j].0.1)) && r@[(
                to@,
                items[j].0.1,
            )] == (ConstraintStateView { table_id: to@, ..items[j].1 }) by {
                if j < i {
                    assert(items[j].0 != here.0);
                    if here.0.0 == from@ {
                        assert(items[j].0.1 != here.0.1);
                    }
                }
            }
        }
        i = i + 1;
    }
    proof {
        let goal = constraints_follow(m@, from@, to@);
        assert forall|k: (ObjectIdView, Seq<char>)| #[trigger] r@.dom().contains(k) <==> goal.dom().contains(k) by {
            if others.dom().contains(k) {
                let j = choose|j: int| 0 <= j < n && #[trigger] items[j].0 == k;
                assert(m@.dom().contains(items[j].0));
            }
            if k.0 == to@ && exists|j: int| 0 <= j < n && #[trigger] items[j].0 == (from@, k.1) {
                let j = choose|j: int| 0 <= j < n && #[trigger] items[j].0 == (from@, k.1);
                assert(m@.dom().contains(items[j].0));
            }
            if m@.dom().contains(k) && k.0 != from@ {
                let j = choose|j: int| 0 <= j < items.len() && items[j].0 == k;
                assert(items[j].0 == k);
            }
            if k.0 == to@ && m@.dom().contains((from@, k.1)) {
                let j = choose|j: int| 0 <= j < items.len() && items[j].0 == (from@, k.1);
                assert(items[j].0 == (from@, k.1));
            }
        }
        assert forall|k: (ObjectIdView, Seq<char>)| #[trigger] r@.dom().contains(k) implies r@[k] == goal[k] by {
            if k.0 == to@ && m@.dom().contains((from@, k.1)) {
                let j = choose|j: int| 0 <= j < items.len() && items[j].0 == (from@, k.1);
                assert(items[j].0.0 == from@);
                assert(m@[items[j].0] == items[j].1);
            } else {
                if k.0 == to@ && exists|j: int| 0 <= j < n && #[trigger] items[j].0 == (from@, k.1) {
                    let j = choose|j: int| 0 <= j < n && #[trigger] items[j].0 == (from@, k.1);
                    assert(m@.dom().contains(items[j].0));
                }
                assert(r@[k] == others[k]);
                let j = choose|j: int| 0 <= j < items.len() && items[j].0 == k;
                assert(items[j].0.0 != from@);
                assert(m@[items[j].0] == items[j].1);
            }
        }
        assert(r@ =~= goal);
    }
    r
}

fn rename_published(name: &QualifiedName, from: &ObjectId, to: &ObjectId) -> (r: QualifiedName)
    ensures
        r@ == published_renamed(name@, from@, to@),
{
    let moves = !(from.schema == to.schema);
    let schema = match &name.schema {
        Some(schema) => Some(Ident::new(&to.schema, schema.quoted)),
        None => if moves {
            Some(Ident::new(&to.schema, false))
        } else {
            None
        },
    };
    QualifiedName { schema, name: Ident::new(&to.name, name.name.quoted) }
}

impl AnalysisState {
    fn object_renamed(&self, o: &PublicationObjectFact, from: &ObjectId, to: &ObjectId) -> (r: PublicationObjectFact)
        ensures
            r@ == object_renamed(self@.data, o@, from@, to@),
    {
        match o {
            PublicationObjectFact::Table { name, only, include_partitions, columns, row_filter } => {
                if self.resolve_relation_id(name).same(from) {
                    PublicationObjectFact::Table {
                        name: rename_published(name, from, to),
                        only: *only,
                        include_partitions: *include_partitions,
                        columns: columns.dup(),
                        row_filter: row_filter.dup(),
                    }
                } else {
                    o.dup()
                }
            },
            _ => o.dup(),
        }
    }

    fn publication_renamed(&self, o: &PublicationOverlay, from: &ObjectId, to: &ObjectId) -> (r: PublicationOverlay)
        ensures
            r.deep_view() == publication_renamed(self@.data, o.deep_view(), from@, to@),
    {
        match o {
            Overlay::Present(s) => match &s.scope {
                PublicationScope::Explicit(objects) => {
                    let change = |x: &PublicationObjectFact| -> (y: PublicationObjectFact)
                        ensures
                            y@ == object_renamed(self@.data, x@, from@, to@),
                        { self.object_renamed(x, from, to) };
                    let ghost d = self@.data;
                    let list = vec_map(objects, change, Ghost(|x: PublicationObjectFactView| object_renamed(d, x, from@, to@)));
                    Overlay::Present(PublicationState { name: s.name.dup(), scope: PublicationScope::Explicit(list), params: s.params.dup() })
                },
                _ => o.dup(),
            },
            Overlay::Dropped => Overlay::Dropped,
        }
    }

    fn publications_renamed(&self, from: &ObjectId, to: &ObjectId) -> (r: VecMap<String, PublicationOverlay>)
        ensures
            r@ == publications_renamed(self@.data, from@, to@),
    {
        proof {
            reveal(data_of);
        }
        let ghost d = self@.data;
        let change = |name: &String, o: &PublicationOverlay| -> (x: PublicationOverlay)
            ensures
                x.deep_view() == publication_renamed(self@.data, o.deep_view(), from@, to@),
            { self.publication_renamed(o, from, to) };
        let r = self.local.publications.map_entries(
            change,
            Ghost(|name: Seq<char>, o: Overlay<PublicationStateView>| publication_renamed(d, o, from@, to@)),
        );
        assert(r@ =~= publications_renamed(d, from@, to@));
        r
    }

    /// Moves triggers, and their edges with them.
    fn move_triggers(&self, graph: &mut DependencyGraph, ids: &Vec<ObjectId>, to: &ObjectId) -> (r: VecMap<ObjectId, TriggerOverlay>)
        requires
            forall|i: int| 0 <= i < ids.deep_view().len() ==> present(self@.data.triggers, #[trigger] ids.deep_view()[i]),
        ensures
            r@ == triggers_moved(self@.data, ids.deep_view(), to@, ids.deep_view().len()),
            final(graph)@ == trigger_edges_moved(self@.data, old(graph)@, ids.deep_view(), to@, ids.deep_view().len()),
    {
        proof {
            reveal(data_of);
        }
        let ghost d = self@.data;
        let mut r = self.local.triggers.dup();
        let mut i: usize = 0;
        let ghost g = graph@;
        while i < ids.len()
            invariant
                i <= ids.len(),
                d == self@.data,
                g == old(graph)@,
                forall|i: int| 0 <= i < ids.deep_view().len() ==> present(d.triggers, #[trigger] ids.deep_view()[i]),
                r@ == triggers_moved(d, ids.deep_view(), to@, i as nat),
                graph@ == trigger_edges_moved(d, g, ids.deep_view(), to@, i as nat),
            decreases ids.len() - i,
        {
            assert(ids.deep_view()[i as int] == ids@[i as int]@);
            let id = &ids[i];
            if let Some(state) = self.present_trigger(id) {
                let new_id = AnalysisState::trigger_key(to, &state.name);
                let moved = TriggerState {
                    name: state.name.clone(),
                    id: new_id.dup(),
                    table_id: to.dup(),
                    enabled_mode: state.enabled_mode,
                    generation: state.generation,
                };
                r.remove(id);
                r.insert(new_id.dup(), Overlay::Present(moved));
                graph.propagate_trigger_rename(id, &new_id);
                graph.add_edge(DependencyEdge::new(id.dup(), new_id, DependencyKind::RenameTo));
            }
            i = i + 1;
        }
        r
    }

    fn sequences_of_table(&self, table: &ObjectId) -> (r: Vec<ObjectId>)
        ensures
            r.deep_view().no_duplicates(),
            forall|s: ObjectIdView| r.deep_view().contains(s) <==> #[trigger] owned_by_table(self@.data, s, table@),
    {
        proof {
            reveal(data_of);
        }
        let owned = |s: &ObjectId, o: &SequenceOverlay| -> (b: bool)
            ensures
                b == (match o.deep_view() {
                    Overlay::Present(state) => state.owned_by is Some && (state.owned_by->0).0 == table@,
                    Overlay::Dropped => false,
                }),
            {
                match o {
                    Overlay::Present(state) => match &state.owned_by {
                        Some((t, _)) => t.same(table),
                        None => false,
                    },
                    Overlay::Dropped => false,
                }
            };
        self.local.sequences.keys_where(
            owned,
            Ghost(
                |s: ObjectIdView, o: Overlay<SequenceStateView>|
                    match o {
                        Overlay::Present(state) => state.owned_by is Some && (state.owned_by->0).0 == table@,
                        Overlay::Dropped => false,
                    },
            ),
        )
    }

    fn triggers_of_table(&self, table: &ObjectId) -> (r: Vec<ObjectId>)
        ensures
            r.deep_view().no_duplicates(),
            forall|t: ObjectIdView| r.deep_view().contains(t) <==> #[trigger] is_on_table(self@.data, t, table@),
    {
        proof {
            reveal(data_of);
        }
        let on = |t: &ObjectId, o: &TriggerOverlay| -> (b: bool)
            ensures
                b == (match o.deep_view() {
                    Overlay::Present(state) => state.table_id == table@,
                    Overlay::Dropped => false,
                }),
            {
                match o {
                    Overlay::Present(state) => state.table_id.same(table),
                    Overlay::Dropped => false,
                }
            };
        self.local.triggers.keys_where(
            on,
            Ghost(
                |t: ObjectIdView, o: Overlay<TriggerStateView>|
                    match o {
                        Overlay::Present(state) => state.table_id == table@,
                        Overlay::Dropped => false,
                    },
            ),
        )
    }

    fn indexes_of_table(&self, table: &ObjectId) -> (r: Vec<ObjectId>)
        ensures
            r.deep_view() == indexes_on(self@.data, table@),
    {
        let is = |e: &DependencyEdge| -> (b: bool)
            ensures
                b == is_index_on(e@, table@),
            {
                match &e.kind {
                    DependencyKind::IndexOnRelation { .. } => e.referenced.same(table),
                    _ => false,
                }
            };
        let list = vec_filter(self.graph().edges(), is, Ghost(|e: DependencyEdgeView| is_index_on(e, table@)));
        let make = |e: &DependencyEdge| -> (x: ObjectId)
            ensures
                x@ == e@.dependent,
            { e.dependent.dup() };
        vec_map(&list, make, Ghost(|e: DependencyEdgeView| e.dependent))
    }

    fn rename_relation_refusal(&self, from: &ObjectId, to: &ObjectId) -> (r: Option<Refusal>)
        ensures
            r.deep_view() == rename_refusal(self@.data, from@, to@),
    {
        proof {
            reveal(rename_refusal);
        }
        match self.relation_or_index_lookup(from) {
            ObjectLookup::Present => {},
            _ => {
                return Some(
                    if self.baseline_covers_family_object(from, CatalogFamily::Relations) || self.baseline_covers_family_object(
                        from,
                        CatalogFamily::Indexes,
                    ) {
                        Refusal::Conflict(join3("relation '", &from.show(), "' does not exist"))
                    } else {
                        Refusal::Unknown
                    },
                );
            },
        }
        if !from.same(to) && self.relation_namespace_is_taken(to) {
            return Some(Refusal::Conflict(join3("relation '", &to.show(), "' already exists")));
        }
        if !(from.schema == to.schema) && !self.schema_is_present(&to.schema) {
            return Some(
                if self.schema_absence_is_authoritative(&to.schema) {
                    Refusal::Conflict(join3("schema '", &to.schema, "' does not exist"))
                } else {
                    Refusal::Uncovered
                },
            );
        }
        None
    }

    fn followers_refusal(&self, ids: &Vec<ObjectId>, schema: &String) -> (r: Option<Refusal>)
        ensures
            r.deep_view() == followers_refusal(self@.data, ids.deep_view(), schema@),
    {
        let ghost d = self@.data;
        let mut i: usize = 0;
        while i < ids.len()
            invariant
                i <= ids.len(),
                d == self@.data,
                first_taken(d, ids.deep_view(), schema@, 0) == first_taken(d, ids.deep_view(), schema@, i as nat),
            decreases ids.len() - i,
        {
            assert(ids.deep_view()[i as int] == ids@[i as int]@);
            let new_id = ObjectId::new(schema, &ids[i].name);
            if !new_id.same(&ids[i]) && self.relation_namespace_is_taken(&new_id) {
                return Some(Refusal::Conflict(join3("associated object '", &new_id.show(), "' already exists")));
            }
            i = i + 1;
        }
        None
    }

    fn namespace_renamed(
        &self,
        from: &ObjectId,
        to: &ObjectId,
        sequences: &Vec<ObjectId>,
        indexes: &Vec<ObjectId>,
        triggers: &Vec<ObjectId>,
        Ghost(order): Ghost<FollowOrder>,
    ) -> (r: NamespaceSnapshot)
        requires
            follows(self@.data, from@, order),
            sequences.deep_view() == moving_sequences(order, from@, to@),
            indexes.deep_view() == moving_indexes(self@.data, from@, to@),
            triggers.deep_view() == order.triggers,
        ensures
            r@ == namespace_renamed(self@.data, namespace_of(self@.data), from@, to@, order),
    {
        let ghost d = self@.data;
        let is_relation = self.relation_is_present(from);
        let is_index = self.index_is_present(from);
        let mut n = self.current_namespace();
        let state = match self.present_relation(from) {
            Some(relation) => Some(relation.dup()),
            None => None,
        };
        n.relations.remove(from);
        if let Some(state) = state {
            let mut state = state;
            state.id = to.dup();
            n.relations.insert(to.dup(), Overlay::Present(state));
        }
        let mut graph = self.graph().dup();
        let followed = follow_sequences(&n.sequences, from, to);
        n.sequences = move_sequences(&followed, &mut graph, sequences, &to.schema);
        move_indexes(&mut graph, indexes, &to.schema);
        proof {
            assert forall|i: int| 0 <= i < triggers.deep_view().len() implies present(d.triggers, #[trigger] triggers.deep_view()[i]) by {
                assert(order.triggers.contains(order.triggers[i]));
                assert(is_on_table(d, order.triggers[i], from@));
            }
        }
        n.triggers = self.move_triggers(&mut graph, triggers, to);
        rename_own_edges(&mut graph, is_relation, is_index, from, to);
        n.graph = graph.edges().dup();
        n.constraints = follow_constraints(&n.constraints, from, to);
        n.publications = self.publications_renamed(from, to);
        n.pending_validation = follow_keys(&n.pending_validation, from, to);
        if is_relation {
            n.baseline_relations = move_id(&n.baseline_relations, from, to);
            n.baseline_fk_dependencies = move_id(&n.baseline_fk_dependencies, from, to);
            n.baseline_foreign_keys = follow_keys(&n.baseline_foreign_keys, from, to);
        }
        if is_index {
            n.baseline_indexes = move_id(&n.baseline_indexes, from, to);
        }
        n.baseline_indexes = move_ids(&n.baseline_indexes, indexes, &to.schema);
        n.baseline_sequences = move_ids(&n.baseline_sequences, sequences, &to.schema);
        proof {
            reveal(namespace_renamed);
            assert(n@ =~= namespace_renamed(d, namespace_of(d), from@, to@, order));
        }
        n
    }

    pub(crate) fn apply_rename_relation(&mut self, rename: &Rename) -> (r: MutationResult)
        ensures
            relation_renamed(old(self)@.data, rename.old_id@, rename.new_id@, final(self)@.data, r@),
            kept_as(old(self)@, final(self)@, if_applied(r@, EdgeUndo::PutBack)),
    {
        let from = &rename.old_id;
        let to = &rename.new_id;
        let ghost d = self@.data;
        let owned = self.sequences_of_table(from);
        let triggers = self.triggers_of_table(from);
        let ghost order = FollowOrder { sequences: owned.deep_view(), triggers: triggers.deep_view() };
        proof {
            reveal(renamed_in_order);
            assert(follows(d, from@, order));
        }
        if let Some(refusal) = self.rename_relation_refusal(from, to) {
            return self.refuse(refusal);
        }
        let moves = !(from.schema == to.schema);
        let sequences = if moves {
            owned
        } else {
            Vec::new()
        };
        let indexes = if moves {
            self.indexes_of_table(from)
        } else {
            Vec::new()
        };
        proof {
            if !moves {
                assert(sequences.deep_view() =~= Seq::<ObjectIdView>::empty());
                assert(indexes.deep_view() =~= Seq::<ObjectIdView>::empty());
            }
        }
        let followers = crate::collections::concat(sequences.dup(), indexes.dup());
        if let Some(refusal) = self.followers_refusal(&followers, &to.schema) {
            return self.refuse(refusal);
        }
        let n = self.namespace_renamed(from, to, &sequences, &indexes, &triggers, Ghost(order));
        self.replace_namespace(n);
        MutationResult::Applied
    }
}

} // verus!
