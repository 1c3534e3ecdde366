//! Schemas: what makes them, what moves with them and what falls with them.
use crate::collections::{comes_from, lemma_filtered};
use crate::evidence::{EvidenceCode, EvidenceScope};
use crate::facts::RoleFact;
use crate::graph::{resolved, DependencyEdgeView, DependencyKindView};
use crate::identifiers::ObjectIdView;
use crate::laws::constraints::role_meant;
use crate::laws::session::{lemma_refreshed, path_follows_template};
use crate::laws::{at, has_edge, lemma_on_objects, same_but};
use crate::model::function::FunctionStateView;
use crate::model::relation::RelationStateView;
use crate::model::schema::SchemaStateView;
use crate::model::sequence::SequenceStateView;
use crate::model::trigger::TriggerStateView;
use crate::model::types::TypeStateView;
use crate::model::Overlay;
use crate::mutations::{AlterSchemaMutation, CreateSchemaMutation, DropSchemaMutation, Mutation};
use crate::state::apply::{applied, object_effect};
use crate::state::apply_schema::{
    edge_stays, law_dropped_schema_is_gone, namespace_without_schemas, owner_looked_up, owner_named, present_schemas, reaches_unmodeled,
    schema_cascade, schema_owner, schemas_cascaded, schemas_restricted, with_schema, with_schema_owner,
};
use crate::state::apply_privileges::coverage_gap;
use crate::state::cascade::{constraints_removed, CascadeView};
use crate::state::journal::{namespace_of, tainted, tainted_if, undone, with_namespace};
use crate::state::lookup::present;
use crate::state::schema_rename::{
    function_moved, lists_moved, moved_edges, namespace_renamed, relation_moved, rename_edges, sequence_moved, trigger_moved, type_moved, MovedIds,
};
use crate::state::search_path::refreshed;
use crate::state::{AnalysisStateView, MutationResultView, StateData};
use crate::transaction::NamespaceSnapshotView;
use vstd::prelude::*;

verus! {

/// `CREATE SCHEMA` makes a new schema that belongs to the role that is written,
/// else to the current one. The path is computed anew.
pub proof fn law_schema_is_created(s: AnalysisStateView, create: CreateSchemaMutation, c: Option<CascadeView>, t: AnalysisStateView, r: MutationResultView)
    requires
        applied(s, Mutation::CreateSchema(create), c, t, r),
        r is Applied,
    ensures
        at(s.data.schemas, create.name@) is None,
        ({
            let schema = at(t.data.schemas, create.name@);
            &&& schema is Some
            &&& schema->0.name == create.name@
            &&& schema->0.owner.schema == ""@
            &&& create.authorization is None ==> schema->0.owner.name == s.data.current_role
            &&& create.authorization is Some && role_meant(s.data, create.authorization->0) is Some ==> schema->0.owner.name == role_meant(
                s.data,
                create.authorization->0,
            )->0
            &&& create.authorization is Some && create.authorization->0 is Named && s.data.roles_known ==> at(s.data.roles, schema->0.owner) is Some
        }),
        same_but(s.data.schemas, t.data.schemas, create.name@),
        t.data.relations == s.data.relations,
        t.data.graph == s.data.graph,
        path_follows_template(t.data),
        t.data.search_path_template == s.data.search_path_template,
{
    lemma_on_objects(s, Mutation::CreateSchema(create), c, t, r);
    reveal(object_effect);
    let d = s.data;
    let (owner, known) = schema_owner(d, create.authorization);
    let d1 = owner_looked_up(owner_named(d, create.authorization), known);
    assert(t.data == with_schema(d1, create.name@, owner));
    lemma_gaps(d, create.authorization, known);
    lemma_with_schema(d1, create.name@, owner);
}

proof fn lemma_gaps(d: StateData, authorization: Option<RoleFact>, known: bool)
    ensures
        ({
            let e = owner_looked_up(owner_named(d, authorization), known);
            e == (StateData { evidence: e.evidence, confidence: e.confidence, ..d })
        }),
{
    reveal(owner_named);
    reveal(owner_looked_up);
    reveal(tainted_if);
}

proof fn lemma_with_schema(d: StateData, name: Seq<char>, owner: Seq<char>)
    ensures
        ({
            let e = with_schema(d, name, owner);
            &&& at(e.schemas, name) is Some
            &&& at(e.schemas, name)->0.name == name
            &&& at(e.schemas, name)->0.owner == (ObjectIdView { schema: ""@, name: owner })
            &&& same_but(d.schemas, e.schemas, name)
            &&& e.relations == d.relations
            &&& e.graph == d.graph
            &&& path_follows_template(e)
            &&& e.search_path_template == d.search_path_template
        }),
{
    reveal(with_schema);
    let generation = (d.generation_counter + 1) as u64;
    lemma_refreshed(
        StateData {
            generation_counter: generation,
            schemas: d.schemas.insert(
                name,
                Overlay::Present(SchemaStateView { name, owner: crate::identifiers::role_object(owner), generation }),
            ),
            ..d
        },
    );
}

/// A schema that is there is not created again: with `IF NOT EXISTS` nothing
/// happens, else there is a conflict.
pub proof fn law_schema_stays(s: AnalysisStateView, create: CreateSchemaMutation, c: Option<CascadeView>, t: AnalysisStateView, r: MutationResultView)
    requires
        applied(s, Mutation::CreateSchema(create), c, t, r),
        !s.aborted,
        at(s.data.schemas, create.name@) is Some,
    ensures
        t.data == s.data,
        create.if_not_exists ==> r is Skipped,
        !create.if_not_exists ==> r is Conflict,
{
    lemma_on_objects(s, Mutation::CreateSchema(create), c, t, r);
    reveal(object_effect);
}

/// `ALTER SCHEMA ... OWNER TO` gives the schema to the role that is meant, and
/// changes nothing else. A role that is known not to exist gets nothing.
pub proof fn law_schema_gets_owner(s: AnalysisStateView, alter: AlterSchemaMutation, c: Option<CascadeView>, t: AnalysisStateView, r: MutationResultView)
    requires
        applied(s, Mutation::AlterSchema(alter), c, t, r),
        r is Applied,
        alter is OwnerTo,
    ensures
        ({
            let name = alter->OwnerTo_name@;
            let role = role_meant(s.data, alter->new_owner);
            &&& role is Some
            &&& at(s.data.schemas, name) is Some
            &&& at(t.data.schemas, name) == Some(
                SchemaStateView { owner: ObjectIdView { schema: ""@, name: role->0 }, ..at(s.data.schemas, name)->0 },
            )
            &&& same_but(s.data.schemas, t.data.schemas, name)
            &&& t.data.relations == s.data.relations
            &&& t.data.graph == s.data.graph
            &&& alter->new_owner is Named && s.data.roles_known ==> at(s.data.roles, ObjectIdView { schema: ""@, name: role->0 }) is Some
        }),
{
    lemma_on_objects(s, Mutation::AlterSchema(alter), c, t, r);
    reveal(object_effect);
    reveal(with_schema_owner);
    reveal(owner_looked_up);
    reveal(tainted_if);
}

// ---------------------------------------------------------------------------
// Rename
// ---------------------------------------------------------------------------

/// An identity in another schema.
pub open spec fn placed_in(id: ObjectIdView, schema: Seq<char>) -> ObjectIdView {
    ObjectIdView { schema, name: id.name }
}

/// What an identity is after a schema took another name.
pub open spec fn follows_schema(id: ObjectIdView, from: Seq<char>, to: Seq<char>) -> ObjectIdView {
    if id.schema == from {
        placed_in(id, to)
    } else {
        id
    }
}

proof fn lemma_schema_renamed(s: AnalysisStateView, alter: AlterSchemaMutation, c: Option<CascadeView>, t: AnalysisStateView, r: MutationResultView) -> (m: NamespaceSnapshotView)
    requires
        applied(s, Mutation::AlterSchema(alter), c, t, r),
        r is Applied,
        alter is Rename,
    ensures
        namespace_renamed(namespace_of(s.data), m, alter->old_name@, alter->new_name@),
        t.data == refreshed(with_namespace(s.data, m)),
        at(s.data.schemas, alter->old_name@) is Some,
        at(s.data.schemas, alter->new_name@) is None,
{
    lemma_on_objects(s, Mutation::AlterSchema(alter), c, t, r);
    reveal(object_effect);
    choose|m: NamespaceSnapshotView| #[trigger]
        namespace_renamed(namespace_of(s.data), m, alter->old_name@, alter->new_name@) && t.data == refreshed(with_namespace(s.data, m))
}

proof fn lemma_namespace_reads(d: StateData, m: NamespaceSnapshotView)
    ensures
        ({
            let e = refreshed(with_namespace(d, m));
            &&& e.schemas == m.schemas
            &&& e.relations == m.relations
            &&& e.types == m.types
            &&& e.functions == m.functions
            &&& e.sequences == m.sequences
            &&& e.triggers == m.triggers
            &&& e.constraints == m.constraints
            &&& e.graph == m.graph
            &&& e.search_path_template == m.search_path_template
            &&& e.roles == d.roles
            &&& path_follows_template(e)
        }),
{
    reveal(undone);
    lemma_refreshed(with_namespace(d, m));
}

/// `ALTER SCHEMA ... RENAME TO` leaves the schema, as it was, under its new name,
/// and none under the old one. The template of the path stays as it is written.
pub proof fn law_schema_is_renamed(s: AnalysisStateView, alter: AlterSchemaMutation, c: Option<CascadeView>, t: AnalysisStateView, r: MutationResultView, other: Seq<char>)
    requires
        applied(s, Mutation::AlterSchema(alter), c, t, r),
        r is Applied,
        alter is Rename,
    ensures
        ({
            let from = alter->old_name@;
            let to = alter->new_name@;
            &&& from != to
            &&& at(s.data.schemas, from) is Some
            &&& at(s.data.schemas, to) is None
            &&& at(t.data.schemas, from) is None
            &&& at(t.data.schemas, to) == Some(SchemaStateView { name: to, ..at(s.data.schemas, from)->0 })
            &&& other != from && other != to ==> at(t.data.schemas, other) == at(s.data.schemas, other)
            &&& t.data.search_path_template == s.data.search_path_template
            &&& path_follows_template(t.data)
            &&& t.data.roles == s.data.roles
        }),
{
    let m = lemma_schema_renamed(s, alter, c, t, r);
    lemma_namespace_reads(s.data, m);
    reveal(namespace_renamed);
}

/// What is in a schema that takes another name is found under the new name as
/// it was, and nothing under the old one. What is elsewhere stays. (An object of
/// the same name that was dropped under the new schema may be in the way.)
pub proof fn law_objects_follow_schema(s: AnalysisStateView, alter: AlterSchemaMutation, c: Option<CascadeView>, t: AnalysisStateView, r: MutationResultView, id: ObjectIdView)
    requires
        applied(s, Mutation::AlterSchema(alter), c, t, r),
        r is Applied,
        alter is Rename,
        id.schema == alter->old_name@,
    ensures
        ({
            let to = alter->new_name@;
            let new_id = placed_in(id, to);
            &&& !t.data.relations.dom().contains(id)
            &&& !t.data.types.dom().contains(id)
            &&& !t.data.functions.dom().contains(id)
            &&& !t.data.sequences.dom().contains(id)
            &&& !t.data.triggers.dom().contains(id)
            &&& at(s.data.relations, id) is Some && !s.data.relations.dom().contains(new_id) ==> at(t.data.relations, new_id) == Some(
                RelationStateView { id: follows_schema(at(s.data.relations, id)->0.id, id.schema, to), ..at(s.data.relations, id)->0 },
            )
            &&& at(s.data.types, id) is Some && !s.data.types.dom().contains(new_id) ==> at(t.data.types, new_id) == Some(
                TypeStateView { id: follows_schema(at(s.data.types, id)->0.id, id.schema, to), ..at(s.data.types, id)->0 },
            )
            &&& at(s.data.functions, id) is Some && !s.data.functions.dom().contains(new_id) ==> at(t.data.functions, new_id) == Some(
                FunctionStateView { id: follows_schema(at(s.data.functions, id)->0.id, id.schema, to), ..at(s.data.functions, id)->0 },
            )
        }),
{
    let m = lemma_schema_renamed(s, alter, c, t, r);
    lemma_namespace_reads(s.data, m);
    reveal(namespace_renamed);
    let d = s.data;
    let from = alter->old_name@;
    let to = alter->new_name@;
    let q = |x: ObjectIdView| crate::graph::swap_schema(x, from, to);
    let new_id = placed_in(id, to);
    assert(q(id) == new_id);
    lemma_moved(d.relations, m.relations, from, to, |o: Overlay<RelationStateView>| relation_moved(o, from, to), id);
    lemma_moved(d.types, m.types, from, to, |o: Overlay<TypeStateView>| type_moved(o, from, to), id);
    lemma_moved(d.functions, m.functions, from, to, |o: Overlay<FunctionStateView>| function_moved(o, from, to), id);
    lemma_moved(d.sequences, m.sequences, from, to, |o: Overlay<SequenceStateView>| sequence_moved(o, from, to), id);
    lemma_moved(d.triggers, m.triggers, from, to, |o: Overlay<TriggerStateView>| trigger_moved(o, from, to), id);
}

proof fn lemma_moved<V>(
    before: Map<ObjectIdView, V>,
    after: Map<ObjectIdView, V>,
    from: Seq<char>,
    to: Seq<char>,
    p: spec_fn(V) -> V,
    id: ObjectIdView,
)
    requires
        from != to,
        crate::collections::remapped(before, after, |x: ObjectIdView| crate::graph::swap_schema(x, from, to), p),
    ensures
        id.schema == from ==> !after.dom().contains(id),
        id.schema == from && before.dom().contains(id) && !before.dom().contains(placed_in(id, to)) ==> after.dom().contains(placed_in(id, to))
            && after[placed_in(id, to)] == p(before[id]),
        id.schema != from && id.schema != to && before.dom().contains(id) ==> after.dom().contains(id) && after[id] == p(before[id]),
        id.schema != from && id.schema != to && !before.dom().contains(id) ==> !after.dom().contains(id),
{
    let q = |x: ObjectIdView| crate::graph::swap_schema(x, from, to);
    if after.dom().contains(id) {
        assert(comes_from(before, after, q, p, id));
        let x = choose|x: ObjectIdView| #[trigger] before.dom().contains(x) && q(x) == id && after[id] == p(before[x]);
        assert(crate::graph::swap_schema(x, from, to) == id);
        if id.schema != from && id.schema != to {
            assert(x == id);
        }
    }
    if id.schema == from && before.dom().contains(id) {
        let new_id = placed_in(id, to);
        assert(q(id) == new_id);
        assert(after.dom().contains(q(id)));
        assert(comes_from(before, after, q, p, new_id));
        let x = choose|x: ObjectIdView| #[trigger] before.dom().contains(x) && q(x) == new_id && after[new_id] == p(before[x]);
        assert(crate::graph::swap_schema(x, from, to) == new_id);
        if x.schema == from {
            assert(x == id);
        } else {
            assert(x == new_id);
        }
    }
    if id.schema != from && before.dom().contains(id) {
        assert(q(id) == id);
        assert(after.dom().contains(q(id)));
    }
}

/// What is in neither schema stays where it is when a schema takes another
/// name; sequences and triggers follow the tables that they belong to.
pub proof fn law_objects_elsewhere_stay(s: AnalysisStateView, alter: AlterSchemaMutation, c: Option<CascadeView>, t: AnalysisStateView, r: MutationResultView, id: ObjectIdView)
    requires
        applied(s, Mutation::AlterSchema(alter), c, t, r),
        r is Applied,
        alter is Rename,
        id.schema != alter->old_name@,
        id.schema != alter->new_name@,
        at(s.data.relations, id) is Some ==> at(s.data.relations, id)->0.id == id,
        at(s.data.sequences, id) is Some ==> at(s.data.sequences, id)->0.id == id,
        at(s.data.types, id) is Some ==> at(s.data.types, id)->0.id == id,
        at(s.data.functions, id) is Some ==> at(s.data.functions, id)->0.id == id,
    ensures
        at(t.data.relations, id) == at(s.data.relations, id),
        at(t.data.types, id) == at(s.data.types, id),
        at(t.data.functions, id) == at(s.data.functions, id),
        at(s.data.sequences, id) is Some <==> at(t.data.sequences, id) is Some,
        ({
            let before = at(s.data.sequences, id)->0;
            let after = at(t.data.sequences, id)->0;
            &&& at(s.data.sequences, id) is Some ==> after.kind == before.kind && after.owner == before.owner
            &&& at(s.data.sequences, id) is Some && before.owned_by is None ==> after.owned_by is None
            &&& at(s.data.sequences, id) is Some && before.owned_by is Some ==> after.owned_by is Some && (after.owned_by->0).1 == (
            before.owned_by->0).1 && (after.owned_by->0).0 == follows_schema((before.owned_by->0).0, alter->old_name@, alter->new_name@)
        }),
{
    let m = lemma_schema_renamed(s, alter, c, t, r);
    lemma_namespace_reads(s.data, m);
    reveal(namespace_renamed);
    let d = s.data;
    let from = alter->old_name@;
    let to = alter->new_name@;
    lemma_moved(d.relations, m.relations, from, to, |o: Overlay<RelationStateView>| relation_moved(o, from, to), id);
    lemma_moved(d.types, m.types, from, to, |o: Overlay<TypeStateView>| type_moved(o, from, to), id);
    lemma_moved(d.functions, m.functions, from, to, |o: Overlay<FunctionStateView>| function_moved(o, from, to), id);
    lemma_moved(d.sequences, m.sequences, from, to, |o: Overlay<SequenceStateView>| sequence_moved(o, from, to), id);
}

/// The edges follow a schema that takes another name: their ends move with it,
/// and each relation of the schema is found under its new name by its old one.
pub proof fn law_edges_follow_schema(s: AnalysisStateView, alter: AlterSchemaMutation, c: Option<CascadeView>, t: AnalysisStateView, r: MutationResultView, k: int, id: ObjectIdView)
    requires
        applied(s, Mutation::AlterSchema(alter), c, t, r),
        r is Applied,
        alter is Rename,
    ensures
        ({
            let from = alter->old_name@;
            let to = alter->new_name@;
            &&& t.data.graph.len() >= s.data.graph.len()
            &&& 0 <= k < s.data.graph.len() ==> t.data.graph[k].dependent == follows_schema(s.data.graph[k].dependent, from, to)
            &&& 0 <= k < s.data.graph.len() && !(s.data.graph[k].kind is PublicationIncludes) ==> t.data.graph[k].referenced == follows_schema(
                s.data.graph[k].referenced,
                from,
                to,
            )
            &&& 0 <= k < s.data.graph.len() && !(s.data.graph[k].kind is TriggerOnTable) ==> t.data.graph[k].kind == s.data.graph[k].kind
            &&& s.data.graph.len() <= k < t.data.graph.len() ==> t.data.graph[k].kind is RenameTo && t.data.graph[k].dependent.schema == from
                && t.data.graph[k].referenced == placed_in(t.data.graph[k].dependent, to)
            &&& id.schema == from && s.data.relations.dom().contains(id) ==> has_edge(t.data, id, placed_in(id, to), DependencyKindView::RenameTo)
        }),
{
    let m = lemma_schema_renamed(s, alter, c, t, r);
    lemma_namespace_reads(s.data, m);
    reveal(namespace_renamed);
    let d = s.data;
    let from = alter->old_name@;
    let to = alter->new_name@;
    let n = namespace_of(d);
    let l = choose|l: MovedIds| #[trigger]
        lists_moved(l, n, from) && m.graph == n.graph.map_values(|e: DependencyEdgeView| crate::graph::with_schema_renamed(e, from, to)) + moved_edges(
            l,
            from,
            to,
        );
    let followed = d.graph.map_values(|e: DependencyEdgeView| crate::graph::with_schema_renamed(e, from, to));
    let added = moved_edges(l, from, to);
    assert(t.data.graph == followed + added);
    if 0 <= k < d.graph.len() {
        assert(t.data.graph[k] == followed[k]);
    }
    lemma_rename_edges(l.relations, from, to);
    lemma_rename_edges(l.types, from, to);
    lemma_rename_edges(l.functions, from, to);
    lemma_rename_edges(l.sequences, from, to);
    lemma_rename_edges(l.triggers, from, to);
    assert forall|x: ObjectIdView| l.relations.contains(x) implies x.schema == from by {}
    assert forall|x: ObjectIdView| l.types.contains(x) implies x.schema == from by {}
    assert forall|x: ObjectIdView| l.functions.contains(x) implies x.schema == from by {}
    assert forall|x: ObjectIdView| l.sequences.contains(x) implies x.schema == from by {}
    assert forall|x: ObjectIdView| l.triggers.contains(x) implies x.schema == from by {}
    if d.graph.len() <= k < t.data.graph.len() {
        assert(t.data.graph[k] == added[k - d.graph.len()]);
    }
    if id.schema == from && d.relations.dom().contains(id) {
        assert(l.relations.contains(id));
        let i = choose|i: int| 0 <= i < l.relations.len() && l.relations[i] == id;
        assert(added[i] == rename_edges(l.relations, from, to)[i]);
        assert(t.data.graph[d.graph.len() + i] == added[i]);
    }
}

proof fn lemma_rename_edges(ids: Seq<ObjectIdView>, from: Seq<char>, to: Seq<char>)
    requires
        forall|x: ObjectIdView| #[trigger] ids.contains(x) ==> x.schema == from,
    ensures
        rename_edges(ids, from, to).len() == ids.len(),
        forall|i: int|
            0 <= i < ids.len() ==> (#[trigger] rename_edges(ids, from, to)[i]).kind is RenameTo && rename_edges(ids, from, to)[i].dependent == ids[i]
                && ids[i].schema == from && rename_edges(ids, from, to)[i].referenced == placed_in(ids[i], to),
{
    assert forall|i: int| 0 <= i < ids.len() implies (#[trigger] rename_edges(ids, from, to)[i]).kind is RenameTo && rename_edges(ids, from, to)[i].dependent
        == ids[i] && ids[i].schema == from && rename_edges(ids, from, to)[i].referenced == placed_in(ids[i], to) by {
        assert(ids.contains(ids[i]));
    }
}

// ---------------------------------------------------------------------------
// Drop
// ---------------------------------------------------------------------------

/// Without `CASCADE` no schema is dropped. One that holds an object is a conflict
/// that changes nothing.
pub proof fn law_schema_that_is_used_stays(s: AnalysisStateView, drop: DropSchemaMutation, c: Option<CascadeView>, t: AnalysisStateView, r: MutationResultView, id: ObjectIdView)
    requires
        applied(s, Mutation::DropSchema(drop), c, t, r),
        !s.aborted,
        !drop.cascade,
    ensures
        !(r is Applied),
        t.data == (StateData { evidence: t.data.evidence, confidence: t.data.confidence, ..s.data }),
        (forall|i: int| 0 <= i < drop.names.deep_view().len() ==> at(s.data.schemas, #[trigger] drop.names.deep_view()[i]) is Some)
            && drop.names.deep_view().contains(id.schema) && (at(s.data.relations, id) is Some || at(s.data.types, id) is Some || at(
            s.data.sequences,
            id,
        ) is Some || at(s.data.functions, id) is Some) ==> r is Conflict && t.data == s.data,
{
    lemma_on_objects(s, Mutation::DropSchema(drop), c, t, r);
    reveal(object_effect);
    let d = s.data;
    let names = drop.names.deep_view();
    lemma_restricted(d, names, id);
    reveal(tainted_if);
    if (forall|i: int| 0 <= i < names.len() ==> at(d.schemas, #[trigger] names[i]) is Some) && names.contains(id.schema) {
        lemma_all_there(d, names, drop.if_exists, 0);
        let p = |x: Seq<char>| present(d.schemas, x);
        lemma_filtered(names, p);
        assert(names.filter(p).contains(id.schema));
    }
}

proof fn lemma_restricted(d: StateData, names: Seq<Seq<char>>, id: ObjectIdView)
    ensures
        ({
            let (e, r) = schemas_restricted(d, names);
            &&& !(r is Applied)
            &&& e == (StateData { evidence: e.evidence, confidence: e.confidence, ..d })
            &&& names.contains(id.schema) && (at(d.relations, id) is Some || at(d.types, id) is Some || at(d.sequences, id) is Some || at(
                d.functions,
                id,
            ) is Some) ==> r is Conflict && e == d
        }),
{
    reveal(schemas_restricted);
    assert(tainted(d, EvidenceCode::UnmodeledState, EvidenceScope::Chain) == (StateData {
        evidence: tainted(d, EvidenceCode::UnmodeledState, EvidenceScope::Chain).evidence,
        confidence: tainted(d, EvidenceCode::UnmodeledState, EvidenceScope::Chain).confidence,
        ..d
    })) by {
        reveal(tainted);
    }
}

proof fn lemma_all_there(d: StateData, names: Seq<Seq<char>>, if_exists: bool, i: nat)
    requires
        i <= names.len(),
        forall|k: int| 0 <= k < names.len() ==> at(d.schemas, #[trigger] names[k]) is Some,
    ensures
        crate::state::apply_schema::first_missing_schema(d, names, if_exists, i) == names.len(),
        !crate::state::apply_schema::unknown_schema_before(d, names, names.len()),
    decreases names.len() - i,
{
    assert forall|k: int| 0 <= k < names.len() implies crate::state::lookup::schema_lookup(d, #[trigger] names[k]) == crate::state::ObjectLookup::Present by {
        assert(at(d.schemas, names[k]) is Some);
    }
    if i < names.len() {
        lemma_all_there(d, names, if_exists, i + 1);
    }
}

/// With `CASCADE` the schemas fall with all that is in them: relations,
/// sequences, types and routines. No edge is left that leads into or out of
/// them, and what is in no such schema keeps its types and routines.
pub proof fn law_dropped_schema_takes_all(s: AnalysisStateView, drop: DropSchemaMutation, c: Option<CascadeView>, t: AnalysisStateView, r: MutationResultView, id: ObjectIdView, k: int)
    requires
        applied(s, Mutation::DropSchema(drop), c, t, r),
        r is Applied,
        at(s.data.schemas, id.schema) is Some,
    ensures
        drop.names.deep_view().contains(id.schema) ==> {
            &&& at(t.data.schemas, id.schema) is None
            &&& at(t.data.types, id) is None
            &&& at(t.data.functions, id) is None
            &&& at(t.data.sequences, id) is None
            &&& resolved(s.data.graph, id) == id ==> at(t.data.relations, id) is None
        },
        drop.names.deep_view().contains(id.schema) && 0 <= k < t.data.graph.len() ==> t.data.graph[k].dependent.schema != id.schema
            && t.data.graph[k].referenced.schema != id.schema,
        !drop.names.deep_view().contains(id.schema) ==> {
            &&& at(t.data.schemas, id.schema) == at(s.data.schemas, id.schema)
            &&& at(t.data.types, id) == at(s.data.types, id)
            &&& at(t.data.functions, id) == at(s.data.functions, id)
        },
        path_follows_template(t.data),
{
    lemma_on_objects(s, Mutation::DropSchema(drop), c, t, r);
    reveal(object_effect);
    reveal(schemas_restricted);
    let d = s.data;
    let written = drop.names.deep_view();
    let names = present_schemas(d, written);
    let p = |x: Seq<char>| present(d.schemas, x);
    lemma_filtered(written, p);
    assert(names.contains(id.schema) <==> written.contains(id.schema));
    assert(t.data == schemas_cascaded(d, names));
    if names.contains(id.schema) {
        law_dropped_schema_is_gone(d, names, id.schema);
        assert(!present(t.data.types, id));
        assert(!present(t.data.functions, id));
        assert(!present(t.data.sequences, id));
        assert(!present(t.data.relations, id) || resolved(d.graph, id) != id);
    }
    lemma_schemas_cascaded(d, names, id, k);
}

proof fn lemma_schemas_cascaded(d: StateData, names: Seq<Seq<char>>, id: ObjectIdView, k: int)
    ensures
        ({
            let e = schemas_cascaded(d, names);
            &&& 0 <= k < e.graph.len() ==> !names.contains(e.graph[k].dependent.schema) && !names.contains(e.graph[k].referenced.schema)
            &&& !names.contains(id.schema) ==> at(e.schemas, id.schema) == at(d.schemas, id.schema)
            &&& !names.contains(id.schema) ==> at(e.types, id) == at(d.types, id) && at(e.functions, id) == at(d.functions, id)
            &&& path_follows_template(e)
        }),
{
    reveal(schemas_cascaded);
    reveal(constraints_removed);
    reveal(tainted_if);
    let c = schema_cascade(d, names);
    let d1 = constraints_removed(coverage_gap(d, reaches_unmodeled(d, c)), c);
    let n = namespace_without_schemas(d1, namespace_of(d1), names, c);
    lemma_namespace_reads(d1, n);
    reveal(namespace_without_schemas);
    let p = |e: DependencyEdgeView| edge_stays(d1, e, names, c);
    lemma_filtered(d1.graph, p);
    assert(n.graph == d1.graph.filter(p));
    if 0 <= k < n.graph.len() {
        assert(d1.graph.filter(p).contains(n.graph[k]));
    }
}

} // verus!
