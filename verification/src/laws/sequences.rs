//! Sequences: what creates them, what moves them and what they fall with.
use crate::collections::lemma_filtered;
use crate::graph::{DependencyEdgeView, DependencyKindView};
use crate::identifiers::ObjectIdView;
use crate::laws::constraints::{goes_on, role_meant};
use crate::laws::{at, column_at, has_edge, lemma_on_objects, same_but};
use crate::model::column::ColumnView;
use crate::model::sequence::{SequenceKind, SequenceStateView};
use crate::mutations::{AlterSequenceActionMutation, AlterSequenceMutation, CreateSequenceMutation, DropSequenceMutation, Mutation};
use crate::state::apply::{applied, object_effect};
use crate::state::apply_sequence::{
    distrusted_if, sequence_given_to, first_held, first_sequence_stop, is_ownership_of, present_sequences, sequence_held, with_sequence_moved, without_sequences,
};
use crate::state::cascade::CascadeView;
use crate::state::journal::{namespace_of, undone};
use crate::state::lookup::{present, role_identity, state_of};
use crate::state::sequence_refs::{default_falls, default_falls_with_any, relations_without_defaults};
use crate::state::{AnalysisStateView, MutationResultView, StateData};
use vstd::prelude::*;

verus! {

/// `CREATE SEQUENCE` makes a new sequence of the current role. With `OWNED BY`
/// the column is there, in a table of the same schema, and an edge leads to the
/// table; without, the sequence stands alone.
pub proof fn law_sequence_is_created(s: AnalysisStateView, create: CreateSequenceMutation, c: Option<CascadeView>, t: AnalysisStateView, r: MutationResultView)
    requires
        applied(s, Mutation::CreateSequence(create), c, t, r),
        r is Applied,
    ensures
        at(s.data.sequences, create.id@) is None,
        at(s.data.relations, create.id@) is None,
        at(s.data.schemas, create.id@.schema) is Some,
        same_but(s.data.sequences, t.data.sequences, create.id@),
        t.data.relations == s.data.relations,
        t.data.constraints == s.data.constraints,
        goes_on(s.data.graph, t.data.graph),
        ({
            let sequence = at(t.data.sequences, create.id@);
            let owned_by = create.owned_by.deep_view();
            &&& sequence is Some
            &&& sequence->0.id == create.id@
            &&& sequence->0.owner.name == s.data.current_role
            &&& sequence->0.owned_by == owned_by
            &&& owned_by is Some ==> sequence->0.kind is Owned && has_edge(
                t.data,
                create.id@,
                (owned_by->0).0,
                DependencyKindView::SequenceOwnedBy { column: (owned_by->0).1 },
            ) && at(s.data.relations, (owned_by->0).0) is Some && column_at(s.data, (owned_by->0).0, (owned_by->0).1) && (owned_by->0).0.schema
                == create.id@.schema
            &&& owned_by is None ==> sequence->0.kind is Standalone && t.data.graph == s.data.graph
        }),
{
    lemma_on_objects(s, Mutation::CreateSequence(create), c, t, r);
    reveal(object_effect);
    if create.owned_by is Some {
        assert(t.data.graph[t.data.graph.len() - 1] == t.data.graph.last());
    }
}

/// `ALTER SEQUENCE ... OWNED BY` makes the column the owner, and takes away the
/// edge to any column that was.
pub proof fn law_sequence_is_reowned(s: AnalysisStateView, alter: AlterSequenceMutation, c: Option<CascadeView>, t: AnalysisStateView, r: MutationResultView, k: int)
    requires
        applied(s, Mutation::AlterSequence(alter), c, t, r),
        r is Applied,
        alter.action is OwnedBy,
    ensures
        ({
            let owned_by = alter.action->OwnedBy_0.deep_view();
            let before = at(s.data.sequences, alter.id@);
            let after = at(t.data.sequences, alter.id@);
            &&& before is Some && !(before->0.kind is Identity)
            &&& after == Some(
                SequenceStateView {
                    owned_by,
                    kind: if owned_by is Some {
                        SequenceKind::Owned
                    } else {
                        SequenceKind::Standalone
                    },
                    ..before->0
                },
            )
            &&& same_but(s.data.sequences, t.data.sequences, alter.id@)
            &&& t.data.relations == s.data.relations
            &&& owned_by is Some ==> has_edge(t.data, alter.id@, (owned_by->0).0, DependencyKindView::SequenceOwnedBy { column: (owned_by->0).1 }) && column_at(
                s.data,
                (owned_by->0).0,
                (owned_by->0).1,
            ) && at(s.data.relations, (owned_by->0).0)->0.owner == before->0.owner
            &&& 0 <= k < t.data.graph.len() && t.data.graph[k].kind is SequenceOwnedBy && t.data.graph[k].dependent == alter.id@ ==> owned_by is Some
                && t.data.graph[k].referenced == (owned_by->0).0
        }),
{
    lemma_on_objects(s, Mutation::AlterSequence(alter), c, t, r);
    reveal(object_effect);
    let p = |e: DependencyEdgeView| !is_ownership_of(e, alter.id@);
    let left = s.data.graph.filter(p);
    lemma_filtered(s.data.graph, p);
    if alter.action->OwnedBy_0 is Some {
        assert(t.data.graph[t.data.graph.len() - 1] == t.data.graph.last());
    }
    if 0 <= k < left.len() {
        assert(left.contains(left[k]));
        assert(t.data.graph[k] == left[k]);
    }
}

/// `ALTER SEQUENCE ... RENAME TO` and `SET SCHEMA` leave the sequence, as it
/// was, under its new name, and none under the old one. The edges to the columns
/// that own it follow.
pub proof fn law_sequence_is_renamed(s: AnalysisStateView, alter: AlterSequenceMutation, c: Option<CascadeView>, t: AnalysisStateView, r: MutationResultView, new_id: ObjectIdView, k: int)
    requires
        applied(s, Mutation::AlterSequence(alter), c, t, r),
        r is Applied,
        match alter.action {
            AlterSequenceActionMutation::RenameTo(x) => x@ == new_id,
            AlterSequenceActionMutation::SetSchema(x) => x@ == new_id,
            _ => false,
        },
    ensures
        at(s.data.sequences, alter.id@) is Some,
        at(s.data.sequences, new_id) is None,
        at(s.data.relations, new_id) is None,
        at(t.data.sequences, alter.id@) is None,
        at(t.data.sequences, new_id) == Some(SequenceStateView { id: new_id, ..at(s.data.sequences, alter.id@)->0 }),
        t.data.relations == s.data.relations,
        t.data.baseline_sequences.contains(new_id) || !s.data.baseline_sequences.contains(alter.id@),
        has_edge(t.data, alter.id@, new_id, DependencyKindView::RenameTo),
        0 <= k < s.data.graph.len() ==> t.data.graph[k].kind == s.data.graph[k].kind && t.data.graph[k].referenced == s.data.graph[k].referenced
            && t.data.graph[k].dependent == (if s.data.graph[k].kind is SequenceOwnedBy && s.data.graph[k].dependent == alter.id@ {
            new_id
        } else {
            s.data.graph[k].dependent
        }),
{
    lemma_on_objects(s, Mutation::AlterSequence(alter), c, t, r);
    reveal(object_effect);
    reveal(undone);
    let n = with_sequence_moved(namespace_of(s.data), alter.id@, new_id);
    assert(t.data.graph == n.graph);
    assert(t.data.graph[t.data.graph.len() - 1] == t.data.graph.last());
}

/// `ALTER SEQUENCE ... OWNER TO` gives the sequence to the role that is meant;
/// one that a column owns only to the owner of the table.
pub proof fn law_sequence_gets_owner(s: AnalysisStateView, alter: AlterSequenceMutation, c: Option<CascadeView>, t: AnalysisStateView, r: MutationResultView)
    requires
        applied(s, Mutation::AlterSequence(alter), c, t, r),
        r is Applied,
        alter.action is OwnerTo,
    ensures
        ({
            let role = role_meant(s.data, alter.action->OwnerTo_0);
            let before = at(s.data.sequences, alter.id@);
            &&& role is Some
            &&& before is Some && !(before->0.kind is Identity)
            &&& at(t.data.sequences, alter.id@) == Some(SequenceStateView { owner: ObjectIdView { schema: ""@, name: role->0 }, ..before->0 })
            &&& same_but(s.data.sequences, t.data.sequences, alter.id@)
            &&& t.data.graph == s.data.graph
            &&& t.data.relations == s.data.relations
            &&& before->0.owned_by is Some ==> at(s.data.relations, (before->0.owned_by->0).0) is Some && at(
                s.data.relations,
                (before->0.owned_by->0).0,
            )->0.owner.name == role->0
        }),
{
    lemma_on_objects(s, Mutation::AlterSequence(alter), c, t, r);
    reveal(object_effect);
    let d = s.data;
    let identity = role_identity(d, alter.action->OwnerTo_0)->0;
    let gap = identity.1 && !d.roles_known;
    lemma_gap(d, gap);
    assert(role_meant(d, alter.action->OwnerTo_0) == Some(identity.0));
    assert((t.data, r) == sequence_given_to(distrusted_if(d, gap), alter.id@, identity.0));
}

proof fn lemma_gap(d: StateData, gap: bool)
    ensures
        distrusted_if(d, gap) == (StateData { confidence: distrusted_if(d, gap).confidence, ..d }),
{
    reveal(distrusted_if);
}

proof fn lemma_no_sequence_stops(d: StateData, ids: Seq<ObjectIdView>, if_exists: bool, i: nat)
    requires
        i <= ids.len(),
        forall|k: int| 0 <= k < ids.len() ==> at(d.sequences, #[trigger] ids[k]) is Some,
    ensures
        first_sequence_stop(d, ids, if_exists, i) == ids.len(),
    decreases ids.len() - i,
{
    if i < ids.len() {
        assert(at(d.sequences, ids[i as int]) is Some);
        lemma_no_sequence_stops(d, ids, if_exists, i + 1);
    }
}

proof fn lemma_held(d: StateData, ids: Seq<ObjectIdView>, cascade: bool)
    ensures
        first_held(d, ids, cascade) is Some <==> exists|i: int| 0 <= i < ids.len() && sequence_held(d, #[trigger] ids[i], cascade) is Some,
        first_held(d, ids, cascade) is Some ==> first_held(d, ids, cascade)->0 is Conflict,
    decreases ids.len(),
{
    if ids.len() > 0 {
        lemma_held(d, ids.drop_first(), cascade);
        let rest = ids.drop_first();
        if sequence_held(d, ids[0], cascade) is None {
            if exists|i: int| 0 <= i < ids.len() && sequence_held(d, #[trigger] ids[i], cascade) is Some {
                let i = choose|i: int| 0 <= i < ids.len() && sequence_held(d, #[trigger] ids[i], cascade) is Some;
                assert(rest[i - 1] == ids[i]);
            }
            if exists|i: int| 0 <= i < rest.len() && sequence_held(d, #[trigger] rest[i], cascade) is Some {
                let i = choose|i: int| 0 <= i < rest.len() && sequence_held(d, #[trigger] rest[i], cascade) is Some;
                assert(ids[i + 1] == rest[i]);
            }
        }
    }
}

/// A sequence of an identity column is not dropped on its own, nor one of a
/// serial column without `CASCADE`: there is a conflict that changes nothing.
/// Where no sequence is held so and the catalog shows all dependents, the
/// sequences are dropped.
pub proof fn law_held_sequence_stays(s: AnalysisStateView, drop: DropSequenceMutation, c: Option<CascadeView>, t: AnalysisStateView, r: MutationResultView)
    requires
        applied(s, Mutation::DropSequence(drop), c, t, r),
        !s.aborted,
        drop.ids.deep_view().len() > 0,
        forall|k: int| 0 <= k < drop.ids.deep_view().len() ==> at(s.data.sequences, #[trigger] drop.ids.deep_view()[k]) is Some,
    ensures
        (exists|k: int| 0 <= k < drop.ids.deep_view().len() && is_held(s.data, #[trigger] drop.ids.deep_view()[k], drop.cascade)) ==> r is Conflict && t.data
            == s.data,
        (forall|k: int| 0 <= k < drop.ids.deep_view().len() ==> !is_held(s.data, #[trigger] drop.ids.deep_view()[k], drop.cascade))
            && crate::laws::drops::dependents_are_known(s.data) ==> r is Applied,
{
    lemma_on_objects(s, Mutation::DropSequence(drop), c, t, r);
    reveal(object_effect);
    let d = s.data;
    let ids = drop.ids.deep_view();
    lemma_no_sequence_stops(d, ids, drop.if_exists, 0);
    assert forall|k: int| 0 <= k < ids.len() implies present(d.sequences, #[trigger] ids[k]) by {
        assert(at(d.sequences, ids[k]) is Some);
    }
    crate::collections::lemma_filter_all(ids, |id: ObjectIdView| present(d.sequences, id));
    assert(present_sequences(d, ids) == ids);
    lemma_held(d, ids, drop.cascade);
    assert forall|k: int| 0 <= k < ids.len() implies is_held(d, #[trigger] ids[k], drop.cascade) == (sequence_held(d, ids[k], drop.cascade) is Some) by {}
    if exists|k: int| 0 <= k < ids.len() && is_held(d, #[trigger] ids[k], drop.cascade) {
        let k = choose|k: int| 0 <= k < ids.len() && is_held(d, #[trigger] ids[k], drop.cascade);
        assert(sequence_held(d, ids[k], drop.cascade) is Some);
    }
}

/// Whether a column holds a sequence.
pub open spec fn is_held(d: StateData, id: ObjectIdView, cascade: bool) -> bool {
    at(d.sequences, id)->0.kind is Identity || (at(d.sequences, id)->0.kind is SerialLike && !cascade)
}

/// Sequences that were dropped are gone, as are the edges to the columns that
/// own them; every other sequence is as it was. Without `CASCADE` no relation
/// differs.
pub proof fn law_sequences_are_dropped(s: AnalysisStateView, drop: DropSequenceMutation, c: Option<CascadeView>, t: AnalysisStateView, r: MutationResultView, id: ObjectIdView, e: DependencyEdgeView)
    requires
        applied(s, Mutation::DropSequence(drop), c, t, r),
        r is Applied,
    ensures
        drop.ids.deep_view().contains(id) ==> at(t.data.sequences, id) is None,
        !drop.ids.deep_view().contains(id) ==> at(t.data.sequences, id) == at(s.data.sequences, id),
        !drop.cascade ==> t.data.relations == s.data.relations,
        t.data.constraints == s.data.constraints,
        t.data.graph.contains(e) ==> s.data.graph.contains(e),
        e.kind is SequenceOwnedBy && drop.ids.deep_view().contains(e.dependent) && at(s.data.sequences, e.dependent) is Some ==> !t.data.graph.contains(e),
        s.data.graph.contains(e) && !(e.kind is SequenceOwnedBy && drop.ids.deep_view().contains(e.dependent)) ==> t.data.graph.contains(e),
{
    lemma_on_objects(s, Mutation::DropSequence(drop), c, t, r);
    reveal(object_effect);
    reveal(without_sequences);
    let d = s.data;
    let ids = drop.ids.deep_view();
    let found = present_sequences(d, ids);
    lemma_held(d, found, drop.cascade);
    lemma_filtered(ids, |x: ObjectIdView| present(d.sequences, x));
    let p = |x: DependencyEdgeView| !(x.kind is SequenceOwnedBy && found.contains(x.dependent));
    lemma_filtered(d.graph, p);
    assert(t.data.graph == d.graph.filter(p));
}

/// A serial column loses its default with its sequence: where `CASCADE` is given
/// and the sequence was made for a column, the column has no default any more. No
/// column gets another type or name.
pub proof fn law_defaults_fall_with_their_sequence(
    s: AnalysisStateView,
    drop: DropSequenceMutation,
    c: Option<CascadeView>,
    t: AnalysisStateView,
    r: MutationResultView,
    id: ObjectIdView,
    table: ObjectIdView,
    i: int,
)
    requires
        applied(s, Mutation::DropSequence(drop), c, t, r),
        r is Applied,
        drop.cascade,
        at(s.data.relations, table) is Some,
        0 <= i < at(s.data.relations, table)->0.columns.len(),
    ensures
        at(t.data.relations, table) is Some,
        at(t.data.relations, table)->0.columns.len() == at(s.data.relations, table)->0.columns.len(),
        ({
            let before = at(s.data.relations, table)->0.columns;
            let after = at(t.data.relations, table)->0.columns;
            &&& after[i] == before[i] || after[i] == (ColumnView { default: None, default_expr_text: None, ..before[i] })
            &&& drop.ids.deep_view().contains(id) && at(s.data.sequences, id) is Some && at(s.data.sequences, id)->0.kind is SerialLike && at(
                s.data.sequences,
                id,
            )->0.owned_by == Some((table, before[i].name)) && (forall|j: int| 0 <= j < i ==> (#[trigger] before[j]).name != before[i].name)
                ==> after[i].default is None && after[i].default_expr_text is None
        }),
{
    lemma_on_objects(s, Mutation::DropSequence(drop), c, t, r);
    reveal(object_effect);
    let d = s.data;
    let ids = drop.ids.deep_view();
    let found = present_sequences(d, ids);
    lemma_held(d, found, drop.cascade);
    let p = |x: ObjectIdView| present(d.sequences, x);
    lemma_filtered(ids, p);
    assert(t.data.relations == relations_without_defaults(d.relations, d.sequences, found.to_set())) by {
        reveal(without_sequences);
    }
    reveal(relations_without_defaults);
    let before = at(d.relations, table)->0.columns;
    if ids.contains(id) && at(d.sequences, id) is Some && at(d.sequences, id)->0.kind is SerialLike && at(d.sequences, id)->0.owned_by == Some(
        (table, before[i].name),
    ) {
        assert(ids.filter(p).contains(id));
        assert(found.to_set().contains(id));
        assert(default_falls(before[i], table, id, state_of(d.sequences, id)));
        assert(default_falls_with_any(before[i], table, d.sequences, found.to_set()));
    }
}

} // verus!
