//! `ALTER TABLE ... RENAME TO` and its kin: what follows a relation or an index
//! to its new name.
use crate::graph::{DependencyEdgeView, DependencyKindView};
use crate::identifiers::ObjectIdView;
use crate::laws::{at, has_edge, lemma_on_objects};
use crate::model::constraint::ConstraintStateView;
use crate::model::relation::RelationStateView;
use crate::model::sequence::SequenceStateView;
use crate::mutations::{Mutation, Rename};
use crate::state::apply::{applied, object_effect};
use crate::state::cascade::CascadeView;
use crate::state::journal::{namespace_of, undone, with_namespace};
use crate::state::lookup::{index_present, present};
use crate::state::refusal::lemma_refused;
use crate::state::rename_relation::{
    first_taken, follows, followers_refusal, graph_renamed, index_edges_moved, moving_indexes, moving_sequences, namespace_renamed,
    own_edges_renamed, rename_refusal, renamed_in_order, sequence_edges_moved, sequences_follow, sequences_moved, trigger_edges_moved,
    triggers_moved, FollowOrder,
};
use crate::state::{AnalysisStateView, MutationResultView, StateData};
use vstd::prelude::*;

verus! {

proof fn lemma_renamed(s: AnalysisStateView, rename: Rename, c: Option<CascadeView>, t: AnalysisStateView, r: MutationResultView) -> (order: FollowOrder)
    requires
        applied(s, Mutation::Rename(rename), c, t, r),
        r is Applied,
    ensures
        follows(s.data, rename.old_id@, order),
        t.data == with_namespace(s.data, namespace_renamed(s.data, namespace_of(s.data), rename.old_id@, rename.new_id@, order)),
        rename_refusal(s.data, rename.old_id@, rename.new_id@) is None,
        followers_refusal(
            s.data,
            moving_sequences(order, rename.old_id@, rename.new_id@) + moving_indexes(s.data, rename.old_id@, rename.new_id@),
            rename.new_id@.schema,
        ) is None,
{
    lemma_on_objects(s, Mutation::Rename(rename), c, t, r);
    reveal(object_effect);
    reveal(renamed_in_order);
    let d = s.data;
    let from = rename.old_id@;
    let to = rename.new_id@;
    let order = choose|order: FollowOrder| #[trigger] follows(d, from, order) && (t.data, r) == renamed_in_order(d, from, to, order);
    if rename_refusal(d, from, to) is Some {
        lemma_refused(d, rename_refusal(d, from, to)->0);
    }
    let followers = moving_sequences(order, from, to) + moving_indexes(d, from, to);
    if followers_refusal(d, followers, to.schema) is Some {
        lemma_refused(d, followers_refusal(d, followers, to.schema)->0);
    }
    order
}

proof fn lemma_namespace(d: StateData, from: ObjectIdView, to: ObjectIdView, order: FollowOrder)
    ensures
        ({
            let e = with_namespace(d, namespace_renamed(d, namespace_of(d), from, to, order));
            let sequences = moving_sequences(order, from, to);
            &&& e.relations == crate::state::rename_relation::relations_renamed(d.relations, from, to)
            &&& e.sequences == sequences_moved(sequences_follow(d.sequences, from, to), sequences, to.schema, sequences.len())
            &&& e.triggers == triggers_moved(d, order.triggers, to, order.triggers.len())
            &&& e.constraints == crate::state::rename_relation::constraints_follow(d.constraints, from, to)
            &&& e.graph == graph_renamed(d, from, to, order)
            &&& e.schemas == d.schemas
            &&& e.types == d.types
            &&& e.functions == d.functions
            &&& e.roles == d.roles
        }),
{
    reveal(namespace_renamed);
    reveal(undone);
}

/// A relation that is renamed is found under its new name, as it was, and not
/// under its old one. The new name was free, and its schema is there. Every other
/// relation stays.
pub proof fn law_relation_is_renamed(s: AnalysisStateView, rename: Rename, c: Option<CascadeView>, t: AnalysisStateView, r: MutationResultView, other: ObjectIdView)
    requires
        applied(s, Mutation::Rename(rename), c, t, r),
        r is Applied,
        at(s.data.relations, rename.old_id@) is Some,
    ensures
        at(t.data.relations, rename.new_id@) == Some(RelationStateView { id: rename.new_id@, ..at(s.data.relations, rename.old_id@)->0 }),
        rename.old_id@ != rename.new_id@ ==> at(t.data.relations, rename.old_id@) is None && at(s.data.relations, rename.new_id@) is None && at(
            s.data.sequences,
            rename.new_id@,
        ) is None && at(s.data.types, rename.new_id@) is None,
        rename.old_id@.schema != rename.new_id@.schema ==> at(s.data.schemas, rename.new_id@.schema) is Some,
        other != rename.old_id@ && other != rename.new_id@ ==> at(t.data.relations, other) == at(s.data.relations, other),
        t.data.schemas == s.data.schemas,
        t.data.types == s.data.types,
        t.data.roles == s.data.roles,
{
    let order = lemma_renamed(s, rename, c, t, r);
    lemma_namespace(s.data, rename.old_id@, rename.new_id@, order);
    reveal(rename_refusal);
}

/// The constraints of a relation follow it to its new name; those of others
/// stay.
pub proof fn law_constraints_follow_relation(s: AnalysisStateView, rename: Rename, c: Option<CascadeView>, t: AnalysisStateView, r: MutationResultView, name: Seq<char>, other: ObjectIdView)
    requires
        applied(s, Mutation::Rename(rename), c, t, r),
        r is Applied,
        rename.old_id@ != rename.new_id@,
    ensures
        ({
            let old_key = (rename.old_id@, name);
            let new_key = (rename.new_id@, name);
            &&& !t.data.constraints.dom().contains(old_key)
            &&& s.data.constraints.dom().contains(old_key) ==> t.data.constraints.dom().contains(new_key) && t.data.constraints[new_key] == (
            ConstraintStateView { table_id: rename.new_id@, ..s.data.constraints[old_key] })
            &&& other != rename.old_id@ && other != rename.new_id@ ==> (t.data.constraints.dom().contains((other, name))
                <==> s.data.constraints.dom().contains((other, name))) && (s.data.constraints.dom().contains((other, name)) ==> t.data.constraints[(
                other,
                name,
            )] == s.data.constraints[(other, name)])
        }),
{
    let order = lemma_renamed(s, rename, c, t, r);
    lemma_namespace(s.data, rename.old_id@, rename.new_id@, order);
}

/// The sequences that columns of a relation own follow it: their owner is
/// the relation under its new name. Within a schema they keep their own names, and
/// a sequence of another relation stays as it is.
pub proof fn law_sequences_follow_relation(s: AnalysisStateView, rename: Rename, c: Option<CascadeView>, t: AnalysisStateView, r: MutationResultView, id: ObjectIdView)
    requires
        applied(s, Mutation::Rename(rename), c, t, r),
        r is Applied,
        rename.old_id@.schema == rename.new_id@.schema,
        at(s.data.sequences, id) is Some,
    ensures
        ({
            let before = at(s.data.sequences, id)->0;
            let owned = before.owned_by is Some && (before.owned_by->0).0 == rename.old_id@;
            &&& owned ==> at(t.data.sequences, id) == Some(SequenceStateView { owned_by: Some((rename.new_id@, (before.owned_by->0).1)), ..before })
            &&& !owned ==> at(t.data.sequences, id) == Some(before)
        }),
{
    let order = lemma_renamed(s, rename, c, t, r);
    lemma_namespace(s.data, rename.old_id@, rename.new_id@, order);
    assert(sequences_moved(sequences_follow(s.data.sequences, rename.old_id@, rename.new_id@), Seq::empty(), rename.new_id@.schema, 0) == sequences_follow(
        s.data.sequences,
        rename.old_id@,
        rename.new_id@,
    ));
}

/// A sequence in another schema.
pub open spec fn taken_along(id: ObjectIdView, schema: Seq<char>) -> ObjectIdView {
    ObjectIdView { schema, name: id.name }
}

proof fn lemma_names_free(d: StateData, ids: Seq<ObjectIdView>, schema: Seq<char>, from: nat, i: int)
    requires
        from <= i < ids.len(),
        first_taken(d, ids, schema, from) >= ids.len(),
        taken_along(ids[i], schema) != ids[i],
    ensures
        at(d.sequences, taken_along(ids[i], schema)) is None,
    decreases i - from,
{
    if from < i {
        lemma_names_free(d, ids, schema, from + 1, i);
    }
}

proof fn lemma_sequences_moved(d: StateData, from: ObjectIdView, to: ObjectIdView, ids: Seq<ObjectIdView>, n: nat, i: int)
    requires
        n <= ids.len(),
        ids.no_duplicates(),
        0 <= i < ids.len(),
        forall|k: int| 0 <= k < ids.len() ==> (#[trigger] ids[k]).schema == from.schema && present(d.sequences, ids[k]),
        from.schema != to.schema,
    ensures
        ({
            let m = sequences_moved(sequences_follow(d.sequences, from, to), ids, to.schema, n);
            let before = sequences_follow(d.sequences, from, to)[ids[i]];
            &&& i < n ==> !m.dom().contains(ids[i]) && m.dom().contains(taken_along(ids[i], to.schema)) && before is Present && m[taken_along(
                ids[i],
                to.schema,
            )] == crate::model::Overlay::Present(SequenceStateView { id: taken_along(ids[i], to.schema), ..before->Present_0 })
            &&& i >= n ==> m.dom().contains(ids[i]) && m[ids[i]] == before
        }),
    decreases n,
{
    let m0 = sequences_follow(d.sequences, from, to);
    assert(ids[i].schema == from.schema && present(d.sequences, ids[i]));
    if n > 0 {
        lemma_sequences_moved(d, from, to, ids, (n - 1) as nat, i);
        lemma_sequences_moved(d, from, to, ids, (n - 1) as nat, n - 1);
        assert(ids[n - 1].schema == from.schema && present(d.sequences, ids[n - 1]));
        if i < n - 1 {
            assert(ids[i] != ids[n - 1]);
            assert(taken_along(ids[i], to.schema) != ids[n - 1]);
            assert(taken_along(ids[i], to.schema) != taken_along(ids[n - 1], to.schema));
        }
    }
}

/// A relation that goes to another schema takes the sequences along that its
/// columns own, as far as they were in its schema: they are found there under
/// their names, and not where they were. Their names were free.
pub proof fn law_sequences_go_along(s: AnalysisStateView, rename: Rename, c: Option<CascadeView>, t: AnalysisStateView, r: MutationResultView, id: ObjectIdView)
    requires
        applied(s, Mutation::Rename(rename), c, t, r),
        r is Applied,
        rename.old_id@.schema != rename.new_id@.schema,
        at(s.data.sequences, id) is Some,
        at(s.data.sequences, id)->0.owned_by is Some,
        (at(s.data.sequences, id)->0.owned_by->0).0 == rename.old_id@,
        forall|x: ObjectIdView|
            at(s.data.sequences, x) is Some && #[trigger] at(s.data.sequences, x)->0.owned_by is Some && (at(s.data.sequences, x)->0.owned_by->0).0
                == rename.old_id@ ==> x.schema == rename.old_id@.schema,
    ensures
        at(t.data.sequences, id) is None,
        at(s.data.sequences, taken_along(id, rename.new_id@.schema)) is None,
        at(t.data.sequences, taken_along(id, rename.new_id@.schema)) == Some(
            SequenceStateView {
                id: taken_along(id, rename.new_id@.schema),
                owned_by: Some((rename.new_id@, (at(s.data.sequences, id)->0.owned_by->0).1)),
                ..at(s.data.sequences, id)->0
            },
        ),
{
    let order = lemma_renamed(s, rename, c, t, r);
    let d = s.data;
    let from = rename.old_id@;
    let to = rename.new_id@;
    lemma_namespace(d, from, to, order);
    let ids = order.sequences;
    assert(crate::state::rename_relation::owned_by_table(d, id, from));
    let i = choose|i: int| 0 <= i < ids.len() && ids[i] == id;
    assert forall|k: int| 0 <= k < ids.len() implies (#[trigger] ids[k]).schema == from.schema && present(d.sequences, ids[k]) by {
        assert(ids.contains(ids[k]));
        assert(crate::state::rename_relation::owned_by_table(d, ids[k], from));
        assert(at(d.sequences, ids[k]) is Some && at(d.sequences, ids[k])->0.owned_by is Some);
    }
    lemma_sequences_moved(d, from, to, ids, ids.len(), i);
    let followers = moving_sequences(order, from, to) + moving_indexes(d, from, to);
    assert(followers[i] == id);
    lemma_names_free(d, followers, to.schema, 0, i);
}

proof fn lemma_triggers_moved(d: StateData, ids: Seq<ObjectIdView>, from: ObjectIdView, to: ObjectIdView, n: nat, id: ObjectIdView)
    requires
        n <= ids.len(),
        from != to,
        at(triggers_moved(d, ids, to, n), id) is Some,
        at(triggers_moved(d, ids, to, n), id)->0.table_id == from,
    ensures
        at(d.triggers, id) is Some,
        at(d.triggers, id)->0.table_id == from,
        forall|k: int| 0 <= k < n ==> #[trigger] ids[k] != id,
    decreases n,
{
    if n > 0 {
        lemma_triggers_moved(d, ids, from, to, (n - 1) as nat, id);
    }
}

/// No trigger is left on the old name of a relation.
pub proof fn law_triggers_follow_relation(s: AnalysisStateView, rename: Rename, c: Option<CascadeView>, t: AnalysisStateView, r: MutationResultView, id: ObjectIdView)
    requires
        applied(s, Mutation::Rename(rename), c, t, r),
        r is Applied,
        rename.old_id@ != rename.new_id@,
        at(t.data.triggers, id) is Some,
    ensures
        at(t.data.triggers, id)->0.table_id != rename.old_id@,
{
    let order = lemma_renamed(s, rename, c, t, r);
    let d = s.data;
    let from = rename.old_id@;
    lemma_namespace(d, from, rename.new_id@, order);
    if at(t.data.triggers, id)->0.table_id == from {
        lemma_triggers_moved(d, order.triggers, from, rename.new_id@, order.triggers.len(), id);
        assert(crate::state::rename_relation::is_on_table(d, id, from));
        assert(order.triggers.contains(id));
    }
}

// ---------------------------------------------------------------------------
// Edges
// ---------------------------------------------------------------------------

/// Whether an edge is of none of the kinds that name a sequence, an index or a
/// trigger.
pub open spec fn is_between_relations(k: DependencyKindView) -> bool {
    k is ForeignKey || k is ViewDependency || k is PartitionOf || k is InheritanceOf
}

/// What an identity is after a relation took another name.
pub open spec fn follows_rename(id: ObjectIdView, from: ObjectIdView, to: ObjectIdView) -> ObjectIdView {
    if id == from {
        to
    } else {
        id
    }
}

proof fn lemma_sequence_edges(g: Seq<DependencyEdgeView>, m: Map<ObjectIdView, crate::model::Overlay<SequenceStateView>>, ids: Seq<ObjectIdView>, schema: Seq<char>, n: nat, k: int)
    requires
        0 <= k < g.len(),
        n <= ids.len(),
    ensures
        sequence_edges_moved(g, m, ids, schema, n).len() >= g.len(),
        !(g[k].kind is SequenceOwnedBy) ==> sequence_edges_moved(g, m, ids, schema, n)[k] == g[k],
        sequence_edges_moved(g, m, ids, schema, n)[k].kind == g[k].kind,
        sequence_edges_moved(g, m, ids, schema, n)[k].referenced == g[k].referenced,
        n == 0 ==> sequence_edges_moved(g, m, ids, schema, n) == g,
    decreases n,
{
    if n > 0 {
        lemma_sequence_edges(g, m, ids, schema, (n - 1) as nat, k);
    }
}

proof fn lemma_index_edges(g: Seq<DependencyEdgeView>, ids: Seq<ObjectIdView>, schema: Seq<char>, n: nat, k: int)
    requires
        0 <= k < g.len(),
        n <= ids.len(),
    ensures
        index_edges_moved(g, ids, schema, n).len() >= g.len(),
        !(g[k].kind is IndexOnRelation) ==> index_edges_moved(g, ids, schema, n)[k] == g[k],
        index_edges_moved(g, ids, schema, n)[k].kind == g[k].kind,
        index_edges_moved(g, ids, schema, n)[k].referenced == g[k].referenced,
        n == 0 ==> index_edges_moved(g, ids, schema, n) == g,
    decreases n,
{
    if n > 0 {
        lemma_index_edges(g, ids, schema, (n - 1) as nat, k);
    }
}

proof fn lemma_trigger_edges(d: StateData, g: Seq<DependencyEdgeView>, ids: Seq<ObjectIdView>, to: ObjectIdView, n: nat, k: int)
    requires
        0 <= k < g.len(),
        n <= ids.len(),
    ensures
        trigger_edges_moved(d, g, ids, to, n).len() >= g.len(),
        !(g[k].kind is TriggerOnTable) ==> trigger_edges_moved(d, g, ids, to, n)[k] == g[k],
        trigger_edges_moved(d, g, ids, to, n)[k].referenced == g[k].referenced,
        g[k].kind is TriggerOnTable ==> trigger_edges_moved(d, g, ids, to, n)[k].kind is TriggerOnTable,
    decreases n,
{
    if n > 0 {
        lemma_trigger_edges(d, g, ids, to, (n - 1) as nat, k);
    }
}

/// The edges of a relation follow it to its new name: what read it reads it
/// still, what it refers to stays what it refers to, and its indexes, its
/// sequences and its triggers stay on it. A relation that was renamed is found by
/// its old name.
pub proof fn law_edges_follow_relation(s: AnalysisStateView, rename: Rename, c: Option<CascadeView>, t: AnalysisStateView, r: MutationResultView, k: int)
    requires
        applied(s, Mutation::Rename(rename), c, t, r),
        r is Applied,
        at(s.data.relations, rename.old_id@) is Some,
    ensures
        ({
            let from = rename.old_id@;
            let to = rename.new_id@;
            &&& t.data.graph.len() > s.data.graph.len()
            &&& has_edge(t.data, from, to, DependencyKindView::RenameTo)
            &&& 0 <= k < s.data.graph.len() && is_between_relations(s.data.graph[k].kind) ==> t.data.graph[k] == (DependencyEdgeView {
                dependent: follows_rename(s.data.graph[k].dependent, from, to),
                referenced: follows_rename(s.data.graph[k].referenced, from, to),
                kind: s.data.graph[k].kind,
            })
            &&& 0 <= k < s.data.graph.len() && (s.data.graph[k].kind is IndexOnRelation || s.data.graph[k].kind is SequenceOwnedBy
                || s.data.graph[k].kind is TriggerOnTable) ==> t.data.graph[k].referenced == follows_rename(s.data.graph[k].referenced, from, to)
        }),
{
    let order = lemma_renamed(s, rename, c, t, r);
    let d = s.data;
    let from = rename.old_id@;
    let to = rename.new_id@;
    lemma_namespace(d, from, to, order);
    let sequences = moving_sequences(order, from, to);
    let indexes = moving_indexes(d, from, to);
    let follow = sequences_follow(d.sequences, from, to);
    let a = sequence_edges_moved(d.graph, follow, sequences, to.schema, sequences.len());
    let b = index_edges_moved(a, indexes, to.schema, indexes.len());
    let e = trigger_edges_moved(d, b, order.triggers, to, order.triggers.len());
    let last = own_edges_renamed(e, present(d.relations, from), index_present(d, from), from, to);
    assert(t.data.graph == last);
    lemma_lengths(d, follow, sequences, indexes, order.triggers, to);
    assert(last[e.len() as int] == (DependencyEdgeView { dependent: from, referenced: to, kind: DependencyKindView::RenameTo }));
    if 0 <= k < d.graph.len() {
        lemma_sequence_edges(d.graph, follow, sequences, to.schema, sequences.len(), k);
        lemma_index_edges(a, indexes, to.schema, indexes.len(), k);
        lemma_trigger_edges(d, b, order.triggers, to, order.triggers.len(), k);
        assert(e.push(DependencyEdgeView { dependent: from, referenced: to, kind: DependencyKindView::RenameTo })[k] == e[k]);
    }
}

proof fn lemma_lengths(
    d: StateData,
    follow: Map<ObjectIdView, crate::model::Overlay<SequenceStateView>>,
    sequences: Seq<ObjectIdView>,
    indexes: Seq<ObjectIdView>,
    triggers: Seq<ObjectIdView>,
    to: ObjectIdView,
)
    ensures
        ({
            let a = sequence_edges_moved(d.graph, follow, sequences, to.schema, sequences.len());
            let b = index_edges_moved(a, indexes, to.schema, indexes.len());
            let e = trigger_edges_moved(d, b, triggers, to, triggers.len());
            e.len() >= d.graph.len()
        }),
{
    let a = sequence_edges_moved(d.graph, follow, sequences, to.schema, sequences.len());
    let b = index_edges_moved(a, indexes, to.schema, indexes.len());
    if d.graph.len() > 0 {
        lemma_sequence_edges(d.graph, follow, sequences, to.schema, sequences.len(), 0);
        lemma_index_edges(a, indexes, to.schema, indexes.len(), 0);
        lemma_trigger_edges(d, b, triggers, to, triggers.len(), 0);
    }
}

/// An index that is renamed stays on its table, under its new name.
pub proof fn law_index_is_renamed(s: AnalysisStateView, rename: Rename, c: Option<CascadeView>, t: AnalysisStateView, r: MutationResultView, k: int)
    requires
        applied(s, Mutation::Rename(rename), c, t, r),
        r is Applied,
        at(s.data.relations, rename.old_id@) is None,
        rename.old_id@.schema == rename.new_id@.schema,
    ensures
        t.data.graph.len() > s.data.graph.len(),
        0 <= k < s.data.graph.len() && s.data.graph[k].kind is IndexOnRelation ==> t.data.graph[k] == (DependencyEdgeView {
            dependent: follows_rename(s.data.graph[k].dependent, rename.old_id@, rename.new_id@),
            ..s.data.graph[k]
        }),
        0 <= k < s.data.graph.len() && is_between_relations(s.data.graph[k].kind) ==> t.data.graph[k] == s.data.graph[k],
        has_edge(t.data, rename.old_id@, rename.new_id@, DependencyKindView::RenameTo),
{
    let order = lemma_renamed(s, rename, c, t, r);
    reveal(rename_refusal);
    let d = s.data;
    let from = rename.old_id@;
    let to = rename.new_id@;
    lemma_namespace(d, from, to, order);
    assert(index_present(d, from));
    let follow = sequences_follow(d.sequences, from, to);
    let a = sequence_edges_moved(d.graph, follow, Seq::empty(), to.schema, 0);
    let b = index_edges_moved(a, Seq::empty(), to.schema, 0);
    let e = trigger_edges_moved(d, b, order.triggers, to, order.triggers.len());
    let last = own_edges_renamed(e, false, true, from, to);
    assert(t.data.graph == last);
    lemma_lengths(d, follow, Seq::empty(), Seq::empty(), order.triggers, to);
    assert(last[e.len() as int] == (DependencyEdgeView { dependent: from, referenced: to, kind: DependencyKindView::RenameTo }));
    if 0 <= k < d.graph.len() {
        lemma_trigger_edges(d, b, order.triggers, to, order.triggers.len(), k);
        assert(e.push(DependencyEdgeView { dependent: from, referenced: to, kind: DependencyKindView::RenameTo })[k] == e[k]);
    }
}

} // verus!
