//! Notes of what relations were before a transaction changed them.
use crate::collections::{Dup, VecMap};
use crate::graph::DependencyEdgeView;
use crate::identifiers::{ObjectId, ObjectIdView};
use crate::model::relation::{RelationOverlay, RelationStateView};
use crate::model::Overlay;
use crate::mutations::{AlterTableActionMutation, Mutation};
use crate::state::journal::{edges_undone, kept, kept_as, looked_up, recorded, undone, undone_all, undone_by, with_edges, EdgeUndo};
use crate::state::lookup::dropped;
use crate::state::pre_state::{first_relation_record, relation_before};
use crate::state::{data_of, AnalysisState, AnalysisStateView, MutationResultView, StateData};
use crate::transaction::{StateChange, StateChangeView, TransactionFrameView};
use vstd::prelude::*;

verus! {

/// Whether an action on a table is noted as a change of the table once the
/// whole statement went through.
pub open spec fn is_noted_action(action: AlterTableActionMutation) -> bool {
    match action {
        AlterTableActionMutation::AlterConstraint { .. } | AlterTableActionMutation::SetStorage { .. } | AlterTableActionMutation::SetAccessMethod
        | AlterTableActionMutation::Opaque | AlterTableActionMutation::DisableTrigger { .. } | AlterTableActionMutation::EnableTrigger { .. } => false,
        _ => true,
    }
}

/// Whether a statement that drops relations marked this one as dropped.
pub open spec fn newly_dropped(d: StateData, after: StateData, id: ObjectIdView) -> bool {
    dropped(after.relations, id) && !dropped(d.relations, id)
}

/// Whether a statement that was applied is noted as a change of a relation.
pub open spec fn is_noted(d: StateData, m: Mutation, after: StateData, id: ObjectIdView) -> bool {
    match m {
        Mutation::CreateTable(x) => x.id@ == id,
        Mutation::AlterTable(x) => x.id@ == id && is_noted_action(x.action),
        Mutation::ChangeRelationOwner { id: x, .. } => x@ == id,
        Mutation::DropTable(_) | Mutation::DropView(_) | Mutation::DropMaterializedView(_) => newly_dropped(d, after, id),
        _ => false,
    }
}

/// What is known of a relation from before the transaction changed it, once it
/// is noted: the oldest note that there is.
pub open spec fn oldest_note(s: AnalysisStateView, id: ObjectIdView) -> Option<Overlay<RelationStateView>> {
    match relation_before(s.frames, id, 0) {
        Some(previous) => previous,
        None => looked_up(s.data.relations, id),
    }
}

/// Whether a relation is noted with what it was before the transaction changed
/// it.
pub open spec fn is_noted_since(s: AnalysisStateView, id: ObjectIdView, t: AnalysisStateView) -> bool {
    s.frames.len() > 0 ==> relation_before(t.frames, id, 0) == Some(oldest_note(s, id))
}

/// Whether each relation that a statement changed within a transaction is
/// noted with what it was before the transaction changed it.
pub open spec fn notes_changes(s: AnalysisStateView, m: Mutation, t: AnalysisStateView, r: MutationResultView) -> bool {
    s.frames.len() > 0 && r is Applied ==> forall|id: ObjectIdView| #[trigger]
        is_noted(s.data, m, t.data, id) ==> relation_before(t.frames, id, 0) == Some(oldest_note(s, id))
}

/// The note of a relation.
pub open spec fn note(d: StateData, id: ObjectIdView) -> StateChangeView {
    StateChangeView::RelationSnapshot { id, previous: looked_up(d.relations, id) }
}

pub open spec fn records(c: StateChangeView, id: ObjectIdView) -> bool {
    match c {
        StateChangeView::RelationSnapshot { id: x, .. } => x == id,
        _ => false,
    }
}

proof fn lemma_first_record(log: Seq<StateChangeView>, id: ObjectIdView, i: nat)
    ensures
        first_relation_record(log, id, i) is None ==> forall|k: int| i <= k < log.len() ==> !records(#[trigger] log[k], id),
        first_relation_record(log, id, i) is Some ==> exists|k: int|
            i <= k < log.len() && #[trigger] log[k] == (StateChangeView::RelationSnapshot { id, previous: first_relation_record(log, id, i)->0 })
                && forall|j: int| i <= j < k ==> !records(#[trigger] log[j], id),
    decreases log.len() - i,
{
    if i < log.len() {
        lemma_first_record(log, id, i + 1);
        if records(log[i as int], id) {
            assert(log[i as int] == (StateChangeView::RelationSnapshot { id, previous: first_relation_record(log, id, i)->0 }));
        } else {
            if first_relation_record(log, id, i) is Some {
                let k = choose|k: int|
                    i + 1 <= k < log.len() && #[trigger] log[k] == (StateChangeView::RelationSnapshot {
                        id,
                        previous: first_relation_record(log, id, i + 1)->0,
                    }) && forall|j: int| i + 1 <= j < k ==> !records(#[trigger] log[j], id);
                assert(forall|j: int| i <= j < k ==> !records(#[trigger] log[j], id));
            }
        }
    }
}

proof fn lemma_first_record_is(log: Seq<StateChangeView>, id: ObjectIdView, i: nat, k: int, previous: Option<Overlay<RelationStateView>>)
    requires
        i <= k < log.len(),
        log[k] == (StateChangeView::RelationSnapshot { id, previous }),
        forall|j: int| i <= j < k ==> !records(#[trigger] log[j], id),
    ensures
        first_relation_record(log, id, i) == Some(previous),
    decreases k - i,
{
    if i < k {
        assert(!records(log[i as int], id));
        lemma_first_record_is(log, id, i + 1, k, previous);
    }
}

/// What a log that was extended says of a relation that it records first, or
/// first among the new records.
proof fn lemma_extended_log(old_log: Seq<StateChangeView>, notes: Seq<StateChangeView>, rest: Seq<StateChangeView>, d: StateData, id: ObjectIdView)
    requires
        notes.contains(note(d, id)),
        forall|k: int| 0 <= k < notes.len() ==> records(#[trigger] notes[k], id) ==> notes[k] == note(d, id),
    ensures
        first_relation_record(old_log + notes + rest, id, 0) == (match first_relation_record(old_log, id, 0) {
            Some(previous) => Some(previous),
            None => Some(looked_up(d.relations, id)),
        }),
{
    let log = old_log + notes + rest;
    lemma_first_record(old_log, id, 0);
    lemma_first_record(notes, id, 0);
    match first_relation_record(old_log, id, 0) {
        Some(previous) => {
            let k = choose|k: int|
                0 <= k < old_log.len() && #[trigger] old_log[k] == (StateChangeView::RelationSnapshot { id, previous }) && forall|j: int|
                    0 <= j < k ==> !records(#[trigger] old_log[j], id);
            assert forall|j: int| 0 <= j < k implies !records(#[trigger] log[j], id) by {
                assert(log[j] == old_log[j]);
            }
            assert(log[k] == old_log[k]);
            lemma_first_record_is(log, id, 0, k, previous);
        },
        None => {
            let m = choose|m: int| 0 <= m < notes.len() && notes[m] == note(d, id);
            assert(records(notes[m], id));
            let previous = first_relation_record(notes, id, 0)->0;
            let k = choose|k: int|
                0 <= k < notes.len() && #[trigger] notes[k] == (StateChangeView::RelationSnapshot { id, previous }) && forall|j: int|
                    0 <= j < k ==> !records(#[trigger] notes[j], id);
            assert(records(notes[k], id));
            let n = old_log.len() as int;
            assert forall|j: int| 0 <= j < n + k implies !records(#[trigger] log[j], id) by {
                if j < n {
                    assert(log[j] == old_log[j]);
                } else {
                    assert(log[j] == notes[j - n]);
                }
            }
            assert(log[n + k] == notes[k]);
            lemma_first_record_is(log, id, 0, n + k, previous);
        },
    }
}

/// Frames that differ in the innermost one only say the same of a relation
/// wherever the others record it.
proof fn lemma_relation_before(a: Seq<TransactionFrameView>, b: Seq<TransactionFrameView>, id: ObjectIdView, i: nat)
    requires
        a.len() == b.len(),
        i < a.len(),
        a.drop_last() == b.drop_last(),
    ensures
        ({
            let x = first_relation_record(a.last().undo_log, id, 0);
            let y = first_relation_record(b.last().undo_log, id, 0);
            ||| relation_before(a, id, i) == relation_before(b, id, i) && relation_before(a, id, i) is Some
            ||| relation_before(a, id, i) == x && relation_before(b, id, i) == y
        }),
    decreases a.len() - i,
{
    reveal_with_fuel(relation_before, 2);
    if i + 1 < a.len() {
        assert(a.drop_last()[i as int] == b.drop_last()[i as int]);
        lemma_relation_before(a, b, id, i + 1);
    }
}

/// What is recorded later leaves a note as it is.
proof fn lemma_note_stays(a: Seq<TransactionFrameView>, b: Seq<TransactionFrameView>, id: ObjectIdView)
    requires
        a.len() == b.len(),
        a.len() > 0,
        a.drop_last() == b.drop_last(),
        a.last().undo_log.len() <= b.last().undo_log.len(),
        b.last().undo_log.take(a.last().undo_log.len() as int) == a.last().undo_log,
        relation_before(a, id, 0) is Some,
    ensures
        relation_before(b, id, 0) == relation_before(a, id, 0),
{
    lemma_relation_before(a, b, id, 0);
    let x = a.last().undo_log;
    let y = b.last().undo_log;
    if first_relation_record(x, id, 0) is Some {
        let previous = first_relation_record(x, id, 0)->0;
        lemma_first_record(x, id, 0);
        let k = choose|k: int|
            0 <= k < x.len() && #[trigger] x[k] == (StateChangeView::RelationSnapshot { id, previous }) && forall|j: int|
                0 <= j < k ==> !records(#[trigger] x[j], id);
        assert forall|j: int| 0 <= j <= k implies #[trigger] y[j] == x[j] by {
            assert(y.take(x.len() as int)[j] == x[j]);
        }
        lemma_first_record_is(y, id, 0, k, previous);
    }
}

/// A note that a step records first is there after the step, and after a mark
/// that follows it.
pub proof fn lemma_noted_first(s: AnalysisStateView, id: ObjectIdView, noted: AnalysisStateView, mid: AnalysisStateView, c: StateChangeView, t: AnalysisStateView)
    requires
        noted.frames == recorded(s.frames, note(s.data, id)),
        kept(noted, mid),
        t.frames == recorded(mid.frames, c),
    ensures
        is_noted_since(s, id, t),
{
    reveal(kept_as);
    reveal(undone_by);
    if s.frames.len() > 0 {
        let log = s.frames.last().undo_log;
        let notes = seq![note(s.data, id)];
        assert(notes[0] == note(s.data, id));
        assert(log + notes + Seq::<StateChangeView>::empty() =~= log.push(note(s.data, id)));
        lemma_extended_log(log, notes, Seq::empty(), s.data, id);
        assert(noted.frames.drop_last() =~= s.frames.drop_last());
        lemma_relation_before(s.frames, noted.frames, id, 0);
        lemma_note_stays(noted.frames, mid.frames, id);
        let later = mid.frames.last().undo_log;
        assert(t.frames.drop_last() =~= mid.frames.drop_last());
        assert(later.push(c).take(later.len() as int) =~= later);
        lemma_note_stays(mid.frames, t.frames, id);
    }
}

/// Notes of what relations were at the start of a step can be put before what
/// the step recorded.
proof fn lemma_noted_step(a: AnalysisStateView, b: AnalysisStateView, c: AnalysisStateView, notes: Seq<StateChangeView>, how: EdgeUndo)
    requires
        kept_as(a, b, how),
        a.frames.len() > 0,
        forall|k: int| 0 <= k < notes.len() ==> exists|id: ObjectIdView| #[trigger] notes[k] == note(a.data, id),
        c == (AnalysisStateView {
            frames: b.frames.drop_last().push(
                TransactionFrameView {
                    undo_log: a.frames.last().undo_log + notes + b.frames.last().undo_log.skip(a.frames.last().undo_log.len() as int),
                    ..b.frames.last()
                },
            ),
            ..b
        }),
    ensures
        kept_as(a, c, how),
        forall|id: ObjectIdView| #[trigger] notes.contains(note(a.data, id)) ==> relation_before(c.frames, id, 0) == Some(oldest_note(a, id)),
{
    reveal(kept_as);
    reveal(undone_by);
    let before = a.frames.last().undo_log;
    let rest = b.frames.last().undo_log.skip(before.len() as int);
    let log = c.frames.last().undo_log;
    assert(c.frames.drop_last() =~= b.frames.drop_last());
    assert(log.take(before.len() as int) =~= before);
    assert(log.skip(before.len() as int) =~= notes + rest);
    assert forall|g: Seq<DependencyEdgeView>| undone_all(#[trigger] with_edges(c.data, g), notes + rest) == with_edges(
        a.data,
        edges_undone(how, a.data.graph, g),
    ) by {
        let d = with_edges(a.data, edges_undone(how, a.data.graph, g));
        crate::state::journal::lemma_undone_concat(with_edges(c.data, g), notes, rest);
        assert(undone_all(with_edges(b.data, g), rest) == d);
        assert forall|k: int| 0 <= k < notes.len() implies exists|id: ObjectIdView| #[trigger] notes[k] == note(d, id) by {
            let id = choose|id: ObjectIdView| #[trigger] notes[k] == note(a.data, id);
            assert(notes[k] == note(d, id));
        }
        lemma_notes_undo_to_same(d, notes);
    }
    assert forall|id: ObjectIdView| #[trigger] notes.contains(note(a.data, id)) implies relation_before(c.frames, id, 0) == Some(oldest_note(a, id)) by {
        assert forall|k: int| 0 <= k < notes.len() && records(#[trigger] notes[k], id) implies notes[k] == note(a.data, id) by {
            let x = choose|x: ObjectIdView| #[trigger] notes[k] == note(a.data, x);
        }
        lemma_extended_log(before, notes, rest, a.data, id);
        lemma_relation_before(a.frames, c.frames, id, 0);
    }
}

proof fn lemma_notes_undo_to_same(d: StateData, notes: Seq<StateChangeView>)
    requires
        forall|k: int| 0 <= k < notes.len() ==> exists|id: ObjectIdView| #[trigger] notes[k] == note(d, id),
    ensures
        undone_all(d, notes) == d,
    decreases notes.len(),
{
    if notes.len() > 0 {
        let id = choose|id: ObjectIdView| #[trigger] notes[notes.len() - 1] == note(d, id);
        reveal(undone);
        crate::state::journal::lemma_put_back(d.relations, id);
        assert(undone(d, notes.last()) =~= d);
        assert forall|k: int| 0 <= k < notes.drop_last().len() implies exists|id: ObjectIdView| #[trigger] notes.drop_last()[k] == note(d, id) by {
            assert(notes.drop_last()[k] == notes[k]);
        }
        lemma_notes_undo_to_same(d, notes.drop_last());
    }
}

pub(crate) fn is_noted_change(action: &AlterTableActionMutation) -> (r: bool)
    ensures
        r == is_noted_action(*action),
{
    match action {
        AlterTableActionMutation::AlterConstraint { .. } | AlterTableActionMutation::SetStorage { .. } | AlterTableActionMutation::SetAccessMethod
        | AlterTableActionMutation::Opaque | AlterTableActionMutation::DisableTrigger { .. } | AlterTableActionMutation::EnableTrigger { .. } => false,
        _ => true,
    }
}

fn notes_for(before: &VecMap<ObjectId, RelationOverlay>, ids: &Vec<ObjectId>, Ghost(d): Ghost<StateData>) -> (r: Vec<StateChange>)
    requires
        before@ == d.relations,
    ensures
        r.deep_view() == ids.deep_view().map_values(|id: ObjectIdView| note(d, id)),
{
    let mut r: Vec<StateChange> = Vec::new();
    let ghost make = |id: ObjectIdView| note(d, id);
    let mut i: usize = 0;
    while i < ids.len()
        invariant
            i <= ids.len(),
            before@ == d.relations,
            r.len() == i,
            forall|j: int| 0 <= j < i ==> (#[trigger] r@[j])@ == note(d, ids@[j]@),
        decreases ids.len() - i,
    {
        let previous = match before.get(&ids[i]) {
            Some(state) => Some(state.dup()),
            None => None,
        };
        r.push(StateChange::RelationSnapshot { id: ids[i].dup(), previous: Box::new(previous) });
        i = i + 1;
    }
    assert(r.deep_view() =~= ids.deep_view().map_values(make));
    r
}

impl AnalysisState {
    /// The relations that were marked as dropped since `before`.
    fn newly_dropped(&self, before: &VecMap<ObjectId, RelationOverlay>, Ghost(d): Ghost<StateData>) -> (r: Vec<ObjectId>)
        requires
            before@ == d.relations,
        ensures
            forall|id: ObjectIdView| #[trigger] newly_dropped(d, self@.data, id) ==> r.deep_view().contains(id),
    {
        proof {
            reveal(data_of);
        }
        let relations = &self.local.relations;
        let mut r: Vec<ObjectId> = Vec::new();
        let n = relations.len();
        let ghost items = relations.items();
        let mut i: usize = 0;
        while i < n
            invariant
                i <= n,
                n == items.len(),
                items == relations.items(),
                relations@ == self@.data.relations,
                before@ == d.relations,
                forall|k: int| 0 <= k < i && newly_dropped(d, self@.data, (#[trigger] items[k]).0) ==> r.deep_view().contains(items[k].0),
                forall|k: int| 0 <= k < items.len() ==> relations@.dom().contains(#[trigger] items[k].0) && relations@[items[k].0] == items[k].1,
            decreases n - i,
        {
            let is_dropped = match relations.value_at(i) {
                Overlay::Dropped => true,
                _ => false,
            };
            let was_dropped = match before.get(relations.key_at(i)) {
                Some(Overlay::Dropped) => true,
                _ => false,
            };
            let ghost earlier = r.deep_view();
            if is_dropped && !was_dropped {
                r.push(relations.key_at(i).dup());
                proof {
                    assert(r.deep_view() =~= earlier.push(items[i as int].0));
                    assert(r.deep_view()[earlier.len() as int] == items[i as int].0);
                    assert forall|x: ObjectIdView| earlier.contains(x) implies #[trigger] r.deep_view().contains(x) by {
                        let k = choose|k: int| 0 <= k < earlier.len() && earlier[k] == x;
                        assert(r.deep_view()[k] == x);
                    }
                }
            }
            i = i + 1;
        }
        proof {
            assert forall|id: ObjectIdView| #[trigger] newly_dropped(d, self@.data, id) implies r.deep_view().contains(id) by {
                let k = choose|k: int| 0 <= k < items.len() && items[k].0 == id;
                assert(newly_dropped(d, self@.data, items[k].0));
            }
        }
        r
    }

    /// Puts notes into the innermost log, before what was recorded from
    /// position `mark` on.
    fn insert_notes(&mut self, mark: usize, notes: Vec<StateChange>)
        requires
            old(self)@.frames.len() > 0,
            mark <= old(self)@.frames.last().undo_log.len(),
        ensures
            final(self)@ == (AnalysisStateView {
                frames: old(self)@.frames.drop_last().push(
                    TransactionFrameView {
                        undo_log: old(self)@.frames.last().undo_log.take(mark as int) + notes.deep_view() + old(self)@.frames.last().undo_log.skip(
                            mark as int,
                        ),
                        ..old(self)@.frames.last()
                    },
                ),
                ..old(self)@
            }),
    {
        proof {
            reveal(data_of);
        }
        let ghost before = self@;
        if let Some(frame) = self.local.transactions.pop() {
            let mut frame = frame;
            let ghost log = frame.undo_log.deep_view();
            let ghost added = notes.deep_view();
            let mut rest = frame.undo_log.split_off(mark);
            let mut notes = notes;
            frame.undo_log.append(&mut notes);
            frame.undo_log.append(&mut rest);
            assert(frame.undo_log.deep_view() =~= log.take(mark as int) + added + log.skip(mark as int));
            self.local.transactions.push(frame);
            assert(self@.frames =~= before.frames.drop_last().push(
                TransactionFrameView { undo_log: log.take(mark as int) + added + log.skip(mark as int), ..before.frames.last() },
            ));
        }
    }

    /// Notes what relations were before a statement that was applied.
    pub(crate) fn note_changes(
        &mut self,
        mutation: &Mutation,
        before: &VecMap<ObjectId, RelationOverlay>,
        mark: usize,
        Ghost(s): Ghost<AnalysisStateView>,
        Ghost(r): Ghost<MutationResultView>,
        Ghost(how): Ghost<EdgeUndo>,
    )
        requires
            s.frames.len() > 0,
            kept_as(s, old(self)@, how),
            before@ == s.data.relations,
            mark == s.frames.last().undo_log.len(),
        ensures
            final(self)@.data == old(self)@.data,
            kept_as(s, final(self)@, how),
            notes_changes(s, *mutation, final(self)@, r),
    {
        let ids: Vec<ObjectId> = match mutation {
            Mutation::CreateTable(create) => vec![create.id.dup()],
            Mutation::AlterTable(alter) => if is_noted_change(&alter.action) {
                vec![alter.id.dup()]
            } else {
                Vec::new()
            },
            Mutation::ChangeRelationOwner { id, .. } => vec![id.dup()],
            Mutation::DropTable(_) | Mutation::DropView(_) | Mutation::DropMaterializedView(_) => self.newly_dropped(before, Ghost(s.data)),
            _ => Vec::new(),
        };
        let ghost list = ids.deep_view();
        let ghost mid = self@;
        proof {
            reveal(kept_as);
            reveal(undone_by);
            assert forall|id: ObjectIdView| #[trigger] is_noted(s.data, *mutation, mid.data, id) implies list.contains(id) by {
                match *mutation {
                    Mutation::CreateTable(x) => {
                        assert(list[0] == id);
                    },
                    Mutation::AlterTable(x) => {
                        assert(list[0] == id);
                    },
                    Mutation::ChangeRelationOwner { id: x, .. } => {
                        assert(list[0] == id);
                    },
                    _ => {},
                }
            }
        }
        let notes = notes_for(before, &ids, Ghost(s.data));
        let ghost added = notes.deep_view();
        self.insert_notes(mark, notes);
        proof {
            assert forall|k: int| 0 <= k < added.len() implies exists|id: ObjectIdView| #[trigger] added[k] == note(s.data, id) by {
                assert(added[k] == note(s.data, list[k]));
            }
            lemma_noted_step(s, mid, self@, added, how);
            assert forall|id: ObjectIdView| #[trigger] is_noted(s.data, *mutation, self@.data, id) implies relation_before(self@.frames, id, 0) == Some(
                oldest_note(s, id),
            ) by {
                let k = choose|k: int| 0 <= k < list.len() && list[k] == id;
                assert(added[k] == note(s.data, id));
                assert(added.contains(note(s.data, id)));
            }
        }
    }
}

} // verus!
