//! Views, indexes, policies and triggers.
use crate::collections::lemma_filtered;
use crate::graph::{resolved, DependencyEdgeView, DependencyKindView};
use crate::identifiers::ObjectIdView;
use crate::laws::constraints::goes_on;
use crate::laws::{at, has_edge, lemma_on_objects, lemma_on_others, same_but};
use crate::model::relation::RelationStateView;
use crate::model::trigger::TriggerStateView;
use crate::mutations::{CreateIndex, CreateView, DropIndex, Mutation};
use crate::state::apply::{applied, object_effect, other_effect};
use crate::state::apply_policy_trigger::trigger_key;
use crate::state::apply_view_index::{
    dependencies_checked, first_bad_dependency, first_refused_index, index_drop_checked, index_drop_refused, index_target_checked, indexes_dropped, is_index_of, is_view, is_view_edge_of,
    view_edges, with_edge, with_materialized_view, with_view,
};
use crate::state::cascade::CascadeView;
use crate::state::lookup::{relation_lookup, RelationFilter};
use crate::state::{ObjectLookup, AnalysisStateView, MutationResultView, StateData};
use vstd::prelude::*;

verus! {

// ---------------------------------------------------------------------------
// Views
// ---------------------------------------------------------------------------

proof fn lemma_stops_at_bad(d: StateData, id: ObjectIdView, list: Seq<ObjectIdView>, from: nat)
    ensures
        ({
            let i = first_bad_dependency(d, id, list, from);
            i < list.len() ==> relation_lookup(d, list[i as int], RelationFilter::Any) != ObjectLookup::Present
        }),
    decreases list.len() - from,
{
    if from < list.len() {
        lemma_stops_at_bad(d, id, list, from + 1);
    }
}

proof fn lemma_dependency_is_there(d: StateData, id: ObjectIdView, list: Seq<ObjectIdView>, from: nat, i: int)
    requires
        from <= i < list.len(),
        first_bad_dependency(d, id, list, from) >= list.len(),
        list[i] != id,
    ensures
        at(d.relations, list[i]) is Some,
    decreases i - from,
{
    if from < i {
        lemma_dependency_is_there(d, id, list, from + 1, i);
    }
}

/// `CREATE VIEW` makes a view that belongs to the current role, with an edge to
/// each relation that it reads, all of which are there. With `OR REPLACE` a view
/// of that name keeps what it was but reads anew; no other relation is
/// replaced.
pub proof fn law_view_reads_what_is_written(s: AnalysisStateView, create: CreateView, c: Option<CascadeView>, t: AnalysisStateView, r: MutationResultView, i: int, k: int)
    requires
        applied(s, Mutation::CreateView(create), c, t, r),
        r is Applied,
        s.data.generation_counter < u64::MAX,
    ensures
        at(t.data.relations, create.id@) is Some,
        at(t.data.relations, create.id@)->0.kind is View,
        at(t.data.relations, create.id@)->0.id == create.id@,
        at(t.data.relations, create.id@)->0.generation > s.data.generation_counter,
        same_but(s.data.relations, t.data.relations, create.id@),
        at(s.data.schemas, create.id@.schema) is Some,
        at(s.data.relations, create.id@) is Some ==> create.or_replace && at(s.data.relations, create.id@)->0.kind is View && at(
            t.data.relations,
            create.id@,
        )->0.owner == at(s.data.relations, create.id@)->0.owner && at(t.data.relations, create.id@)->0.privileges == at(
            s.data.relations,
            create.id@,
        )->0.privileges,
        at(s.data.relations, create.id@) is None ==> at(t.data.relations, create.id@)->0.owner.name == s.data.current_role,
        0 <= i < create.depends_on.deep_view().len() ==> has_edge(
            t.data,
            create.id@,
            create.depends_on.deep_view()[i],
            DependencyKindView::ViewDependency { view_generation: at(t.data.relations, create.id@)->0.generation, referenced_column: None },
        ),
        0 <= i < create.depends_on.deep_view().len() && create.depends_on.deep_view()[i] != create.id@ ==> at(
            s.data.relations,
            create.depends_on.deep_view()[i],
        ) is Some,
        0 <= k < t.data.graph.len() && t.data.graph[k].kind is ViewDependency && t.data.graph[k].dependent == create.id@ ==> create.depends_on.deep_view().contains(
            t.data.graph[k].referenced,
        ) || at(s.data.relations, create.id@) is None,
        t.data.sequences == s.data.sequences,
        t.data.constraints == s.data.constraints,
{
    let depth = lemma_view_made(s, create, c, t, r);
    let d = s.data;
    let id = create.id@;
    let list = create.depends_on.deep_view();
    lemma_with_view(d, id, list, depth, i, k);
    if 0 <= i < list.len() && list[i] != id {
        lemma_stops_at_bad(d, id, list, 0);
        lemma_dependency_is_there(d, id, list, 0, i);
    }
}

proof fn lemma_view_made(s: AnalysisStateView, create: CreateView, c: Option<CascadeView>, t: AnalysisStateView, r: MutationResultView) -> (depth: u64)
    requires
        applied(s, Mutation::CreateView(create), c, t, r),
        r is Applied,
    ensures
        t.data == with_view(s.data, create.id@, create.depends_on.deep_view(), depth),
        at(s.data.schemas, create.id@.schema) is Some,
        at(s.data.relations, create.id@) is Some ==> create.or_replace && is_view(s.data, create.id@),
        first_bad_dependency(s.data, create.id@, create.depends_on.deep_view(), 0) >= create.depends_on.deep_view().len(),
{
    lemma_on_objects(s, Mutation::CreateView(create), c, t, r);
    reveal(object_effect);
    reveal(dependencies_checked);
    lemma_stops_at_bad(s.data, create.id@, create.depends_on.deep_view(), 0);
    choose|depth: u64| t.data == #[trigger] with_view(s.data, create.id@, create.depends_on.deep_view(), depth)
}

proof fn lemma_with_view(d: StateData, id: ObjectIdView, list: Seq<ObjectIdView>, depth: u64, i: int, k: int)
    requires
        d.generation_counter < u64::MAX,
        at(d.relations, id) is Some ==> is_view(d, id),
    ensures
        ({
            let e = with_view(d, id, list, depth);
            let view = at(e.relations, id)->0;
            let before = at(d.relations, id);
            &&& at(e.relations, id) is Some
            &&& view.kind is View
            &&& view.id == id
            &&& view.generation > d.generation_counter
            &&& same_but(d.relations, e.relations, id)
            &&& before is Some ==> before->0.kind is View && view.owner == before->0.owner && view.privileges == before->0.privileges
            &&& before is None ==> view.owner.name == d.current_role
            &&& 0 <= i < list.len() ==> has_edge(
                e,
                id,
                list[i],
                DependencyKindView::ViewDependency { view_generation: view.generation, referenced_column: None },
            )
            &&& 0 <= k < e.graph.len() && e.graph[k].kind is ViewDependency && e.graph[k].dependent == id && before is Some ==> list.contains(
                e.graph[k].referenced,
            )
            &&& e.sequences == d.sequences
            &&& e.constraints == d.constraints
        }),
{
    reveal(with_view);
    let p = |e: DependencyEdgeView| !is_view_edge_of(e, id);
    lemma_filtered(d.graph, p);
    let left = if is_view(d, id) {
        d.graph.filter(p)
    } else {
        d.graph
    };
    let generation = (d.generation_counter + 1) as u64;
    let graph = with_view(d, id, list, depth).graph;
    assert(graph == left + view_edges(id, list, generation));
    if 0 <= i < list.len() {
        assert(graph[left.len() + i] == view_edges(id, list, generation)[i]);
    }
    if 0 <= k < graph.len() && graph[k].kind is ViewDependency && graph[k].dependent == id && at(d.relations, id) is Some {
        if k < left.len() {
            assert(left.contains(left[k]));
        } else {
            assert(graph[k] == view_edges(id, list, generation)[k - left.len()]);
            assert(list.contains(list[k - left.len()]));
        }
    }
}

/// `CREATE MATERIALIZED VIEW` makes a new materialized view that reads what is
/// written.
pub proof fn law_materialized_view_reads_what_is_written(
    s: AnalysisStateView,
    create: crate::mutations::CreateMaterializedView,
    c: Option<CascadeView>,
    t: AnalysisStateView,
    r: MutationResultView,
    i: int,
)
    requires
        applied(s, Mutation::CreateMaterializedView(create), c, t, r),
        r is Applied,
    ensures
        at(s.data.relations, create.id@) is None,
        at(t.data.relations, create.id@) is Some,
        at(t.data.relations, create.id@)->0.kind is MaterializedView,
        at(t.data.relations, create.id@)->0.owner.name == s.data.current_role,
        same_but(s.data.relations, t.data.relations, create.id@),
        goes_on(s.data.graph, t.data.graph),
        0 <= i < create.depends_on.deep_view().len() ==> has_edge(
            t.data,
            create.id@,
            create.depends_on.deep_view()[i],
            DependencyKindView::ViewDependency { view_generation: at(t.data.relations, create.id@)->0.generation, referenced_column: None },
        ),
        0 <= i < create.depends_on.deep_view().len() && create.depends_on.deep_view()[i] != create.id@ ==> at(
            s.data.relations,
            create.depends_on.deep_view()[i],
        ) is Some,
{
    lemma_on_objects(s, Mutation::CreateMaterializedView(create), c, t, r);
    reveal(object_effect);
    reveal(dependencies_checked);
    reveal(with_materialized_view);
    let d = s.data;
    let id = create.id@;
    let list = create.depends_on.deep_view();
    let generation = (d.generation_counter + 1) as u64;
    assert(t.data.graph == d.graph + view_edges(id, list, generation));
    if 0 <= i < list.len() {
        assert(t.data.graph[d.graph.len() + i] == view_edges(id, list, generation)[i]);
        if list[i] != id {
            lemma_stops_at_bad(d, id, list, 0);
            lemma_dependency_is_there(d, id, list, 0, i);
        }
    }
}

/// `REFRESH MATERIALIZED VIEW` is accepted for a materialized view; with
/// `CONCURRENTLY` not within a transaction, and not where the view is known to
/// hold nothing. It changes nothing that is modeled.
pub proof fn law_refresh(s: AnalysisStateView, refresh: crate::mutations::RefreshMaterializedViewMutation, c: Option<CascadeView>, t: AnalysisStateView, r: MutationResultView)
    requires
        applied(s, Mutation::RefreshMaterializedView(refresh), c, t, r),
        !s.aborted,
        at(s.data.relations, refresh.id@) is Some,
    ensures
        t.data == s.data,
        r is Applied <==> at(s.data.relations, refresh.id@)->0.kind is MaterializedView && !(refresh.concurrently && (s.frames.len() > 0 || at(
            s.data.relations,
            refresh.id@,
        )->0.is_populated == Some(false))),
        !(r is Applied) ==> r is Conflict,
{
    lemma_on_objects(s, Mutation::RefreshMaterializedView(refresh), c, t, r);
    reveal(object_effect);
}

// ---------------------------------------------------------------------------
// Indexes
// ---------------------------------------------------------------------------

/// `CREATE INDEX` adds the edge from the index to its table, with what is
/// written of the index. The table is there, and is a table or a materialized
/// view; the name is new; and `CONCURRENTLY` is not accepted within a
/// transaction.
pub proof fn law_index_is_created(s: AnalysisStateView, create: CreateIndex, c: Option<CascadeView>, t: AnalysisStateView, r: MutationResultView)
    requires
        applied(s, Mutation::CreateIndex(create), c, t, r),
        r is Applied,
    ensures
        t.data == (StateData { graph: t.data.graph, ..s.data }),
        goes_on(s.data.graph, t.data.graph),
        t.data.graph.len() == s.data.graph.len() + 1,
        at(s.data.relations, create.table@) is Some,
        !(at(s.data.relations, create.table@)->0.kind is View),
        at(s.data.relations, create.id@) is None,
        at(s.data.sequences, create.id@) is None,
        at(s.data.schemas, create.id@.schema) is Some,
        create.concurrently ==> s.frames.len() == 0 && at(s.data.relations, create.table@)->0.partition_type is None,
        ({
            let e = t.data.graph[s.data.graph.len() as int];
            &&& e.dependent == create.id@
            &&& e.referenced == create.table@
            &&& match e.kind {
                DependencyKindView::IndexOnRelation {
                    using_method,
                    key_columns,
                    included_columns,
                    dependency_columns,
                    dependency_columns_known,
                    has_expression_keys,
                    has_predicate,
                    is_concurrent,
                    is_unique,
                    is_valid,
                    is_ready,
                    is_live,
                    has_default_sort_order,
                    has_default_opclasses,
                    has_default_collations,
                    eligibility_known,
                } => {
                    &&& using_method == create.using_method.deep_view()
                    &&& key_columns == create.key_columns.deep_view()
                    &&& included_columns == create.included_columns.deep_view()
                    &&& dependency_columns == create.key_columns.deep_view() + create.included_columns.deep_view()
                    &&& dependency_columns_known == (!create.has_expression_keys && !create.has_predicate)
                    &&& has_expression_keys == create.has_expression_keys
                    &&& has_predicate == create.has_predicate
                    &&& is_concurrent == create.concurrently
                    &&& is_unique == create.unique
                    &&& is_valid && is_ready && is_live
                    &&& has_default_sort_order == create.has_default_sort_order
                    &&& has_default_opclasses == create.has_default_opclasses
                    &&& has_default_collations == create.has_default_collations
                },
                _ => false,
            }
        }),
{
    lemma_on_objects(s, Mutation::CreateIndex(create), c, t, r);
    reveal(object_effect);
    reveal(index_target_checked);
    reveal(with_edge);
}

/// An index whose name is taken is not created: with `IF NOT EXISTS` and an
/// index of that name nothing happens, else there is a conflict.
pub proof fn law_taken_index_is_not_created(s: AnalysisStateView, create: CreateIndex, c: Option<CascadeView>, t: AnalysisStateView, r: MutationResultView, k: int)
    requires
        applied(s, Mutation::CreateIndex(create), c, t, r),
        !s.aborted,
        !create.concurrently,
        at(s.data.schemas, create.id@.schema) is Some,
        0 <= k < s.data.graph.len(),
        s.data.graph[k].kind is IndexOnRelation,
        s.data.graph[k].dependent == create.id@,
    ensures
        t.data == s.data,
        create.if_not_exists ==> r is Skipped,
        !create.if_not_exists ==> r is Conflict,
{
    lemma_on_objects(s, Mutation::CreateIndex(create), c, t, r);
    reveal(object_effect);
    assert(crate::state::lookup::is_index(s.data.graph[k], create.id@));
}

/// `DROP INDEX` takes away the edges of the indexes, and nothing else. An index
/// that backs a key is not dropped; `CONCURRENTLY` is not accepted within a
/// transaction or with `CASCADE`.
pub proof fn law_indexes_are_dropped(s: AnalysisStateView, drop: DropIndex, c: Option<CascadeView>, t: AnalysisStateView, r: MutationResultView, e: DependencyEdgeView)
    requires
        applied(s, Mutation::DropIndex(drop), c, t, r),
        r is Applied,
    ensures
        t.data == (StateData { graph: t.data.graph, ..s.data }),
        t.data.graph.contains(e) <==> s.data.graph.contains(e) && !(e.kind is IndexOnRelation && drop.ids.deep_view().contains(e.dependent)),
        drop.concurrently ==> s.frames.len() == 0 && !drop.cascade,
{
    lemma_on_objects(s, Mutation::DropIndex(drop), c, t, r);
    reveal(object_effect);
    reveal(index_drop_checked);
    reveal(index_drop_refused);
    let p = |x: DependencyEdgeView| !is_index_of(x, drop.ids.deep_view());
    lemma_filtered(s.data.graph, p);
    lemma_refused_is_not_applied(s.data, drop.ids.deep_view(), drop.concurrently, 0);
}

proof fn lemma_refused_is_not_applied(d: StateData, ids: Seq<ObjectIdView>, concurrently: bool, i: nat)
    ensures
        ({
            let k = crate::state::apply_view_index::first_refused_index(d, ids, concurrently, i);
            let refusal = index_drop_refused(d, ids[k as int], concurrently);
            k < ids.len() ==> refusal is Some && !((refusal->0).1 is Applied)
        }),
    decreases ids.len() - i,
{
    reveal(index_drop_refused);
    if i < ids.len() {
        lemma_refused_is_not_applied(d, ids, concurrently, i + 1);
    }
}

/// An index that a primary key or a unique constraint of its table bears the name
/// of is not dropped.
pub proof fn law_backing_index_stays(s: AnalysisStateView, drop: DropIndex, c: Option<CascadeView>, t: AnalysisStateView, r: MutationResultView, i: int, k: int, key: (ObjectIdView, Seq<char>))
    requires
        applied(s, Mutation::DropIndex(drop), c, t, r),
        !s.aborted,
        0 <= i < drop.ids.deep_view().len(),
        0 <= k < s.data.graph.len(),
        s.data.graph[k].kind is IndexOnRelation,
        s.data.graph[k].dependent == drop.ids.deep_view()[i],
        forall|j: int|
            0 <= j < s.data.graph.len() && (#[trigger] s.data.graph[j]).kind is IndexOnRelation && s.data.graph[j].dependent == drop.ids.deep_view()[i]
                ==> s.data.graph[j].referenced == s.data.graph[k].referenced,
        s.data.constraints.dom().contains(key),
        key.1 == drop.ids.deep_view()[i].name,
        resolved(s.data.graph, key.0) == resolved(s.data.graph, s.data.graph[k].referenced),
        s.data.constraints[key].kind is PrimaryKey || s.data.constraints[key].kind is Unique,
    ensures
        !(r is Applied),
        t.data.graph == s.data.graph,
{
    lemma_on_objects(s, Mutation::DropIndex(drop), c, t, r);
    let d = s.data;
    let ids = drop.ids.deep_view();
    lemma_backing_is_refused(d, ids[i], drop.concurrently, k, key);
    assert(crate::state::lookup::is_index(d.graph[k], ids[i]));
    lemma_refusal_reached(d, ids, drop.concurrently, 0, i);
    lemma_refused_is_not_applied(d, ids, drop.concurrently, 0);
    lemma_refused_keeps_edges(d, s.frames.len() > 0, drop);
    assert((t.data, r) == indexes_dropped(d, s.frames.len() > 0, drop)) by {
        reveal(object_effect);
    }
}

proof fn lemma_refused_keeps_edges(d: StateData, in_transaction: bool, drop: DropIndex)
    requires
        first_refused_index(d, drop.ids.deep_view(), drop.concurrently, 0) < drop.ids.deep_view().len(),
    ensures
        index_drop_checked(d, in_transaction, drop).1 is Some,
        index_drop_checked(d, in_transaction, drop).0.graph == d.graph,
        !(index_drop_checked(d, in_transaction, drop).1->0 is Applied),
{
    reveal(index_drop_checked);
    reveal(crate::state::journal::distrusted);
    lemma_refused_is_not_applied(d, drop.ids.deep_view(), drop.concurrently, 0);
    let n = first_refused_index(d, drop.ids.deep_view(), drop.concurrently, 0);
    assert((index_drop_refused(d, drop.ids.deep_view()[n as int], drop.concurrently)->0).0.graph == d.graph) by {
        reveal(index_drop_refused);
    }
}

proof fn lemma_backing_is_refused(d: StateData, id: ObjectIdView, concurrently: bool, k: int, key: (ObjectIdView, Seq<char>))
    requires
        0 <= k < d.graph.len(),
        d.graph[k].kind is IndexOnRelation,
        d.graph[k].dependent == id,
        forall|j: int|
            0 <= j < d.graph.len() && (#[trigger] d.graph[j]).kind is IndexOnRelation && d.graph[j].dependent == id ==> d.graph[j].referenced
                == d.graph[k].referenced,
        d.constraints.dom().contains(key),
        key.1 == id.name,
        resolved(d.graph, key.0) == resolved(d.graph, d.graph[k].referenced),
        d.constraints[key].kind is PrimaryKey || d.constraints[key].kind is Unique,
    ensures
        index_drop_refused(d, id, concurrently) is Some,
{
    reveal(index_drop_refused);
    assert(crate::state::lookup::is_index(d.graph[k], id));
    lemma_first_index(d.graph, id);
    assert(crate::state::apply_view_index::backs_constraint(d, id, resolved(d.graph, d.graph[k].referenced)));
}

proof fn lemma_first_index(graph: Seq<DependencyEdgeView>, id: ObjectIdView)
    requires
        exists|k: int| 0 <= k < graph.len() && crate::state::lookup::is_index(#[trigger] graph[k], id),
    ensures
        exists|k: int| 0 <= k < graph.len() && crate::state::lookup::is_index(#[trigger] graph[k], id) && graph[k] == crate::state::apply_view_index::index_edge(
            graph,
            id,
        ),
{
    let p = |e: DependencyEdgeView| crate::state::lookup::is_index(e, id);
    lemma_filtered(graph, p);
    let list = graph.filter(p);
    let k = choose|k: int| 0 <= k < graph.len() && crate::state::lookup::is_index(#[trigger] graph[k], id);
    assert(graph.contains(graph[k]));
    assert(list.contains(graph[k]));
    assert(list.len() > 0);
    assert(list.contains(list[0]));
    let j = choose|j: int| 0 <= j < graph.len() && graph[j] == list[0];
    assert(crate::state::lookup::is_index(graph[j], id));
}

proof fn lemma_refusal_reached(d: StateData, ids: Seq<ObjectIdView>, concurrently: bool, from: nat, i: int)
    requires
        from <= i < ids.len(),
        crate::state::lookup::index_present(d, ids[i]),
        index_drop_refused(d, ids[i], concurrently) is Some,
    ensures
        crate::state::apply_view_index::first_refused_index(d, ids, concurrently, from) <= i,
    decreases i - from,
{
    if from < i {
        lemma_refusal_reached(d, ids, concurrently, from + 1, i);
    }
}

// ---------------------------------------------------------------------------
// Policies and triggers
// ---------------------------------------------------------------------------

/// `CREATE POLICY` gives the relation a policy that it did not have, and `DROP
/// POLICY` takes one away that it had. Nothing else differs.
pub proof fn law_policies(s: AnalysisStateView, m: Mutation, c: Option<CascadeView>, t: AnalysisStateView, r: MutationResultView, name: Seq<char>, table: ObjectIdView, other: Seq<char>)
    requires
        applied(s, m, c, t, r),
        r is Applied,
        match m {
            Mutation::CreatePolicy(x) => x.name@ == name && x.table@ == table,
            Mutation::DropPolicy(x) => x.name@ == name && x.table@ == table,
            _ => false,
        },
    ensures
        at(s.data.relations, table) is Some,
        at(t.data.relations, table) == Some(
            RelationStateView { policies: at(t.data.relations, table)->0.policies, ..at(s.data.relations, table)->0 },
        ),
        t.data == (StateData { relations: t.data.relations, ..s.data }),
        same_but(s.data.relations, t.data.relations, table),
        ({
            let before = at(s.data.relations, table)->0.policies;
            let after = at(t.data.relations, table)->0.policies;
            &&& before.contains(name) == m is DropPolicy
            &&& after.contains(name) == m is CreatePolicy
            &&& other != name ==> after.contains(other) == before.contains(other)
        }),
{
    lemma_on_others(s, m, c, t, r);
    reveal(other_effect);
}

/// A policy is created exactly where the relation is there without it, and
/// dropped exactly where the relation is there with it.
pub proof fn law_policy_outcome(s: AnalysisStateView, m: Mutation, c: Option<CascadeView>, t: AnalysisStateView, r: MutationResultView, name: Seq<char>, table: ObjectIdView)
    requires
        applied(s, m, c, t, r),
        !s.aborted,
        match m {
            Mutation::CreatePolicy(x) => x.name@ == name && x.table@ == table,
            Mutation::DropPolicy(x) => x.name@ == name && x.table@ == table,
            _ => false,
        },
    ensures
        r is Applied <==> at(s.data.relations, table) is Some && at(s.data.relations, table)->0.policies.contains(name) == m is DropPolicy,
        !(r is Applied) ==> t.data == s.data,
        m is CreatePolicy && !(r is Applied) ==> r is Conflict,
        m is DropPolicy && at(s.data.relations, table) is Some && !(r is Applied) ==> (if m->DropPolicy_0.if_exists {
            r is Skipped
        } else {
            r is Conflict
        }),
        m is DropPolicy && at(s.data.relations, table) is None ==> r is Conflict,
{
    lemma_on_others(s, m, c, t, r);
    reveal(other_effect);
}

/// `CREATE TRIGGER` makes a trigger on the table that fires, with an edge to the
/// table that names its function; the table knows the trigger by its name.
pub proof fn law_trigger_is_created(s: AnalysisStateView, create: crate::mutations::CreateTriggerMutation, c: Option<CascadeView>, t: AnalysisStateView, r: MutationResultView, id: ObjectIdView)
    requires
        applied(s, Mutation::CreateTrigger(create), c, t, r),
        r is Applied,
    ensures
        ({
            let key = trigger_key(create.table@, create.name@);
            let trigger = at(t.data.triggers, key);
            &&& at(s.data.triggers, key) is None
            &&& trigger is Some
            &&& trigger->0.name == create.name@
            &&& trigger->0.table_id == create.table@
            &&& trigger->0.enabled_mode is Origin
            &&& trigger->0.id == key
            &&& same_but(s.data.triggers, t.data.triggers, key)
            &&& same_but(s.data.relations, t.data.relations, create.table@)
            &&& goes_on(s.data.graph, t.data.graph)
            &&& t.data.graph.len() == s.data.graph.len() + 1
            &&& has_edge(
                t.data,
                key,
                create.table@,
                DependencyKindView::TriggerOnTable {
                    trigger_id: key,
                    function_id: create.function_id@,
                    trigger_generation: trigger->0.generation,
                },
            )
            &&& at(s.data.relations, create.table@) is Some ==> at(t.data.relations, create.table@) is Some && at(
                t.data.relations,
                create.table@,
            )->0.triggers.contains(create.name@)
            &&& t.data.constraints == s.data.constraints
            &&& t.data.sequences == s.data.sequences
        }),
{
    lemma_on_others(s, Mutation::CreateTrigger(create), c, t, r);
    reveal(other_effect);
    assert(t.data.graph[t.data.graph.len() - 1] == t.data.graph.last());
}

/// `DROP TRIGGER` leaves no trigger of that name on the table, nor its edge; the
/// table does not know it any more.
pub proof fn law_trigger_is_dropped(s: AnalysisStateView, drop: crate::mutations::DropTriggerMutation, c: Option<CascadeView>, t: AnalysisStateView, r: MutationResultView, e: DependencyEdgeView, other: Seq<char>)
    requires
        applied(s, Mutation::DropTrigger(drop), c, t, r),
        r is Applied,
    ensures
        ({
            let key = trigger_key(drop.table@, drop.name@);
            &&& at(s.data.triggers, key) is Some
            &&& at(t.data.triggers, key) is None
            &&& same_but(s.data.triggers, t.data.triggers, key)
            &&& same_but(s.data.relations, t.data.relations, drop.table@)
            &&& t.data.graph.contains(e) <==> s.data.graph.contains(e) && !(e.kind is TriggerOnTable && e.dependent == key)
            &&& at(s.data.relations, drop.table@) is Some ==> at(t.data.relations, drop.table@) is Some && !at(
                t.data.relations,
                drop.table@,
            )->0.triggers.contains(drop.name@) && (other != drop.name@ ==> at(t.data.relations, drop.table@)->0.triggers.contains(other) == at(
                s.data.relations,
                drop.table@,
            )->0.triggers.contains(other))
        }),
{
    lemma_on_others(s, Mutation::DropTrigger(drop), c, t, r);
    reveal(other_effect);
    let key = trigger_key(drop.table@, drop.name@);
    lemma_filtered(s.data.graph, |x: DependencyEdgeView| !crate::state::apply_policy_trigger::is_trigger_edge_of(x, key));
}

/// `ALTER TRIGGER ... RENAME TO` leaves the trigger, on its table and as it was,
/// under its new name, and none under the old one.
pub proof fn law_trigger_is_renamed(s: AnalysisStateView, rename: crate::mutations::RenameTriggerMutation, c: Option<CascadeView>, t: AnalysisStateView, r: MutationResultView)
    requires
        applied(s, Mutation::RenameTrigger(rename), c, t, r),
        r is Applied,
        trigger_key(rename.table@, rename.name@) != trigger_key(rename.table@, rename.new_name@),
    ensures
        ({
            let from = trigger_key(rename.table@, rename.name@);
            let to = trigger_key(rename.table@, rename.new_name@);
            &&& at(s.data.triggers, from) is Some
            &&& at(s.data.triggers, to) is None
            &&& at(t.data.triggers, from) is None
            &&& at(t.data.triggers, to) == Some(TriggerStateView { id: to, name: rename.new_name@, ..at(s.data.triggers, from)->0 })
            &&& has_edge(t.data, from, to, DependencyKindView::RenameTo)
            &&& at(s.data.relations, rename.table@) is Some && rename.name@ != rename.new_name@ ==> at(t.data.relations, rename.table@) is Some && at(
                t.data.relations,
                rename.table@,
            )->0.triggers.contains(rename.new_name@) && !at(t.data.relations, rename.table@)->0.triggers.contains(rename.name@)
        }),
{
    lemma_on_others(s, Mutation::RenameTrigger(rename), c, t, r);
    reveal(other_effect);
    assert(t.data.graph[t.data.graph.len() - 1] == t.data.graph.last());
}

/// Triggers are created where there is none of that name, and dropped and
/// renamed where there is one.
pub proof fn law_trigger_outcome(s: AnalysisStateView, m: Mutation, c: Option<CascadeView>, t: AnalysisStateView, r: MutationResultView)
    requires
        applied(s, m, c, t, r),
        !s.aborted,
    ensures
        match m {
            Mutation::CreateTrigger(x) => {
                &&& r is Applied <==> at(s.data.triggers, trigger_key(x.table@, x.name@)) is None
                &&& !(r is Applied) ==> r is Conflict && t.data == s.data
            },
            Mutation::DropTrigger(x) => {
                &&& r is Applied <==> at(s.data.triggers, trigger_key(x.table@, x.name@)) is Some
                &&& !(r is Applied) ==> t.data == s.data && (if x.if_exists {
                    r is Skipped
                } else {
                    r is Conflict
                })
            },
            Mutation::RenameTrigger(x) => !(r is Applied) ==> r is Conflict && t.data == s.data,
            _ => true,
        },
{
    if m is CreateTrigger || m is DropTrigger || m is RenameTrigger {
        lemma_on_others(s, m, c, t, r);
        reveal(other_effect);
    }
}

} // verus!
