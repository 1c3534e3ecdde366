//! The constraints of a table that exists.
use crate::cache::CatalogFamily;
use crate::collections::{Dup, Key, VecSet};
use crate::evidence::{EvidenceCode, EvidenceScope};
use crate::graph::{edge, resolved, with_constraint_renamed, DependencyEdge, DependencyEdgeView, DependencyKind, DependencyKindView};
use crate::identifiers::{object, ObjectId, ObjectIdView};
use crate::model::column::ColumnView;
use crate::model::column_action::with_nullability;
use crate::model::constraint::{ConstraintKind, ConstraintState, ConstraintStateView};
use crate::model::relation::RelationStateView;
use crate::model::Overlay;
use crate::state::apply_view_index::index_edge;
use crate::state::create_table::{key_columns_refusal, refuse_key_columns, requested_name, NameRequest, NameRequestView};
use crate::state::foreign_keys::{key_checked, key_columns_from, key_columns_of, KeyCheckView, KeyUse, KeyUseView};
use crate::state::journal::{
    appending, group_steps, if_applied, kept, kept_as, lemma_undone_after, namespace_of, tainted, tainted_if, undone, undone_by, with_edges_marked,
    with_namespace, EdgeUndo,
};
use crate::state::lookup::{covers_family, index_present, namespace_object_present, present, state_of};
use crate::state::notes::{is_noted_since, lemma_noted_first};
use crate::state::refusal::{refused, Refusal, RefusalView};
use crate::state::{data_of, AnalysisState, AnalysisStateView, MutationResult, MutationResultView, StateData};
use crate::text::{ascii_lowercase, eq_ignore_ascii_case, join3, join5, join_all, joined};
use crate::transaction::{NamespaceSnapshot, NamespaceSnapshotView, StateChangeView};
use vstd::prelude::*;

verus! {

broadcast use group_steps;

/// Whether a step replaces the edges last, with no more recorded than how many
/// there were.
pub open spec fn ends_with_mark(a: AnalysisStateView, b: AnalysisStateView) -> bool {
    exists|mid: AnalysisStateView| #[trigger] kept(a, mid) && b == with_edges_marked(mid, b.data.graph)
}

/// Whether the columns of a table are known.
pub open spec fn columns_known(d: StateData, id: ObjectIdView) -> bool {
    state_of(d.relations, id).columns.len() > 0 || state_of(d.relations, id).estimated_rows is Some
}

pub open spec fn has_constraint(d: StateData, id: ObjectIdView, name: Seq<char>) -> bool {
    d.constraints.dom().contains((id, name))
}

pub open spec fn constraint_exists(id: ObjectIdView, name: Seq<char>) -> RefusalView {
    RefusalView::Conflict("constraint '"@ + name + "' already exists on relation '"@ + id.shown() + "'"@)
}

pub open spec fn constraint_missing(id: ObjectIdView, name: Seq<char>) -> RefusalView {
    RefusalView::Conflict("constraint '"@ + name + "' does not exist on relation '"@ + id.shown() + "'"@)
}

/// A constraint that is about to be added.
pub struct NewConstraint {
    pub name: String,
    pub kind: ConstraintKind,
    pub not_valid: bool,
    pub backing_index: Option<ObjectId>,
}

pub struct NewConstraintView {
    pub name: Seq<char>,
    pub kind: ConstraintKind,
    pub not_valid: bool,
    pub backing_index: Option<ObjectIdView>,
}

impl View for NewConstraint {
    type V = NewConstraintView;

    open spec fn view(&self) -> NewConstraintView {
        NewConstraintView {
            name: self.name@,
            kind: self.kind,
            not_valid: self.not_valid,
            backing_index: self.backing_index.deep_view(),
        }
    }
}

/// The data with one constraint more.
#[verifier::opaque]
pub open spec fn with_constraint(d: StateData, id: ObjectIdView, c: NewConstraintView) -> StateData {
    StateData {
        constraints: d.constraints.insert(
            (id, c.name),
            ConstraintStateView { table_id: id, name: c.name, kind: c.kind, validated: !c.not_valid, backing_index: c.backing_index },
        ),
        pending_validation: if c.not_valid {
            d.pending_validation.insert((id, c.name))
        } else {
            d.pending_validation
        },
        ..d
    }
}

/// The data with an edge for what a constraint reads, where that is known.
#[verifier::opaque]
pub open spec fn with_known_edge(d: StateData, known: bool, e: DependencyEdgeView) -> StateData {
    StateData {
        graph: if known {
            d.graph.push(e)
        } else {
            d.graph
        },
        ..tainted_if(d, !known, EvidenceCode::CatalogCoverageIncomplete, EvidenceScope::Chain)
    }
}

/// The name of a constraint that `ALTER TABLE` adds.
pub open spec fn added_name(d: StateData, id: ObjectIdView, request: NameRequestView) -> Seq<char> {
    requested_name(d, id, request, Seq::empty())
}

// ---------------------------------------------------------------------------
// Foreign keys
// ---------------------------------------------------------------------------

pub open spec fn fk_name(d: StateData, id: ObjectIdView, explicit: Option<Seq<char>>, from_columns: Seq<Seq<char>>) -> Seq<char> {
    added_name(d, id, NameRequestView { explicit, second: Some(joined(from_columns, "_"@)), kind: ConstraintKind::ForeignKey })
}

pub open spec fn fk_check(d: StateData, k: KeyUseView) -> KeyCheckView {
    let relation = state_of(d.relations, k.table);
    key_checked(d, k, key_columns_of(relation.columns), !d.baseline_relations.contains(k.table) || relation.columns.len() > 0, None)
}

pub open spec fn fk_edge(k: KeyUseView, name: Seq<char>, columns: Seq<Seq<char>>, generation: u64) -> DependencyEdgeView {
    edge(
        k.table,
        k.to_table,
        DependencyKindView::ForeignKey {
            constraint_name: Some(name),
            from_columns: k.from_columns,
            to_columns: columns,
            operator_evidence: None,
            from_generation: generation,
        },
    )
}

/// The data with a foreign key.
#[verifier::opaque]
pub open spec fn with_fk(d: StateData, k: KeyUseView, name: Seq<char>, not_valid: bool) -> StateData {
    let check = fk_check(d, k);
    let d1 = tainted_if(d, check.gap, EvidenceCode::CatalogCoverageIncomplete, EvidenceScope::Chain);
    let d2 = with_constraint(d1, k.table, NewConstraintView { name, kind: ConstraintKind::ForeignKey, not_valid, backing_index: None });
    with_known_edge(d2, true, fk_edge(k, name, check.columns, state_of(d.relations, k.table).generation))
}

/// `ADD FOREIGN KEY`.
#[verifier::opaque]
pub open spec fn fk_added(d: StateData, k: KeyUseView, explicit: Option<Seq<char>>, not_valid: bool) -> (StateData, MutationResultView) {
    let name = fk_name(d, k.table, explicit, k.from_columns);
    if has_constraint(d, k.table, name) {
        refused(d, constraint_exists(k.table, name))
    } else if fk_check(d, k).refusal is Some {
        refused(d, fk_check(d, k).refusal->0)
    } else {
        (with_fk(d, k, name, not_valid), MutationResultView::Applied)
    }
}

// ---------------------------------------------------------------------------
// Checks and exclusions
// ---------------------------------------------------------------------------

/// `ADD CHECK` and `ADD EXCLUDE`.
#[verifier::opaque]
pub open spec fn inline_added(
    d: StateData,
    id: ObjectIdView,
    kind: ConstraintKind,
    explicit: Option<Seq<char>>,
    columns: Seq<Seq<char>>,
    complete: bool,
    not_valid: bool,
) -> (StateData, MutationResultView) {
    let name = added_name(d, id, NameRequestView { explicit, second: None, kind });
    if has_constraint(d, id, name) {
        refused(d, constraint_exists(id, name))
    } else {
        (
            with_known_edge(
                with_constraint(d, id, NewConstraintView { name, kind, not_valid, backing_index: None }),
                columns_known(d, id) && complete,
                edge(id, id, DependencyKindView::ConstraintDependency { constraint_name: name, columns }),
            ),
            MutationResultView::Applied,
        )
    }
}

// ---------------------------------------------------------------------------
// Keys
// ---------------------------------------------------------------------------

pub open spec fn names_of(columns: Seq<ColumnView>) -> Seq<Seq<char>> {
    columns.map_values(|c: ColumnView| c.name)
}

pub open spec fn is_primary_of(key: (ObjectIdView, Seq<char>), c: ConstraintStateView, id: ObjectIdView) -> bool {
    key.0 == id && c.kind == ConstraintKind::PrimaryKey
}

pub open spec fn has_primary_key(d: StateData, id: ObjectIdView) -> bool {
    exists|key: (ObjectIdView, Seq<char>)| #[trigger] d.constraints.dom().contains(key) && is_primary_of(key, d.constraints[key], id)
}

/// A key constraint takes the name of the index that it adopts.
pub open spec fn key_name(d: StateData, id: ObjectIdView, kind: ConstraintKind, explicit: Option<Seq<char>>, using_index: Option<ObjectIdView>) -> Seq<char> {
    added_name(
        d,
        id,
        NameRequestView {
            explicit: if explicit is Some {
                explicit
            } else {
                match using_index {
                    Some(index) => Some(index.name),
                    None => None,
                }
            },
            second: None,
            kind,
        },
    )
}

/// Whether an index can back a key constraint.
pub open spec fn can_back_key(kind: DependencyKindView) -> bool {
    match kind {
        DependencyKindView::IndexOnRelation {
            using_method,
            has_expression_keys,
            has_predicate,
            is_unique,
            is_valid,
            is_ready,
            is_live,
            has_default_sort_order,
            has_default_opclasses,
            has_default_collations,
            ..
        } => is_unique && !has_predicate && !has_expression_keys && is_valid && is_ready && is_live && has_default_sort_order && has_default_opclasses
            && has_default_collations && using_method is Some && ascii_lowercase(using_method->0) == ascii_lowercase("btree"@),
        _ => false,
    }
}

/// Why a key constraint cannot adopt an index under a name.
pub open spec fn index_refusal(d: StateData, id: ObjectIdView, index: ObjectIdView, name: Seq<char>) -> Option<RefusalView> {
    let e = index_edge(d.graph, index);
    let adopted = object(index.schema, name);
    if !index_present(d, index) {
        Some(RefusalView::Conflict("constraint references index '"@ + index.shown() + "' which does not exist"@))
    } else if e.referenced != id {
        Some(
            RefusalView::Conflict(
                "constraint index '"@ + index.shown() + "' belongs to relation '"@ + e.referenced.shown() + "', not '"@ + (id.shown() + "'"@),
            ),
        )
    } else if !e.kind->eligibility_known {
        Some(RefusalView::Uncovered)
    } else if !can_back_key(e.kind) {
        Some(
            RefusalView::Conflict(
                "constraint index '"@ + index.shown()
                    + "' must be unique and non-partial, live/valid/ready, a btree with simple columns, and use the default definition"@,
            ),
        )
    } else if adopted != index && namespace_object_present(d, adopted) {
        Some(RefusalView::Conflict("constraint index '"@ + adopted.shown() + "' already exists"@))
    } else {
        None
    }
}

/// Why a key constraint is refused.
#[verifier::opaque]
pub open spec fn key_refusal(
    d: StateData,
    id: ObjectIdView,
    kind: ConstraintKind,
    explicit: Option<Seq<char>>,
    columns: Seq<Seq<char>>,
    using_index: Option<ObjectIdView>,
) -> Option<RefusalView> {
    let name = key_name(d, id, kind, explicit, using_index);
    let shape = key_columns_refusal(columns, names_of(state_of(d.relations, id).columns), columns_known(d, id), id);
    if using_index is None && shape is Some {
        shape
    } else if kind == ConstraintKind::PrimaryKey && has_primary_key(d, id) {
        Some(RefusalView::Conflict("relation '"@ + id.shown() + "' already has a primary key"@))
    } else if has_constraint(d, id, name) {
        Some(constraint_exists(id, name))
    } else {
        match using_index {
            Some(index) => index_refusal(d, id, index, name),
            None => None,
        }
    }
}

/// The edges after a key constraint adopted an index, which takes its name.
#[verifier::opaque]
pub open spec fn with_index_adopted(d: StateData, id: ObjectIdView, index: ObjectIdView, name: Seq<char>) -> StateData {
    let adopted = object(index.schema, name);
    StateData {
        graph: if adopted == index {
            d.graph
        } else {
            d.graph.filter(|e: DependencyEdgeView| !crate::state::lookup::is_index(e, index)).push(
                edge(adopted, id, index_edge(d.graph, index).kind),
            )
        },
        ..d
    }
}

pub open spec fn index_adopted(d: StateData, id: ObjectIdView, using_index: Option<ObjectIdView>, name: Seq<char>) -> StateData {
    match using_index {
        Some(index) => with_index_adopted(d, id, index, name),
        None => d,
    }
}

pub open spec fn backing_of(using_index: Option<ObjectIdView>, name: Seq<char>) -> Option<ObjectIdView> {
    match using_index {
        Some(index) => Some(object(index.schema, name)),
        None => None,
    }
}

/// The data with a key constraint.
#[verifier::opaque]
pub open spec fn with_key(
    d: StateData,
    id: ObjectIdView,
    kind: ConstraintKind,
    name: Seq<char>,
    columns: Seq<Seq<char>>,
    using_index: Option<ObjectIdView>,
) -> StateData {
    with_known_edge(
        with_constraint(
            index_adopted(d, id, using_index, name),
            id,
            NewConstraintView { name, kind, not_valid: false, backing_index: backing_of(using_index, name) },
        ),
        columns.len() > 0 && columns_known(d, id),
        edge(
            id,
            id,
            DependencyKindView::ConstraintOnRelation { constraint_name: name, columns, is_primary: kind == ConstraintKind::PrimaryKey },
        ),
    )
}

/// Whether a constraint takes an index over that bears its name already.
pub open spec fn is_adopted_as_is(index: ObjectIdView, name: Seq<char>) -> bool {
    object(index.schema, name) == index
}

/// How adding a key is undone: an index that gets another name has its edge
/// replaced.
pub open spec fn key_edge_undo(d: StateData, name: Seq<char>, using_index: Option<ObjectIdView>, after: StateData) -> EdgeUndo {
    if using_index is Some && !is_adopted_as_is(using_index->0, name) {
        EdgeUndo::PutBack
    } else {
        appending(d.graph, after.graph)
    }
}

/// `ADD PRIMARY KEY` and `ADD UNIQUE`.
pub open spec fn key_added(
    d: StateData,
    id: ObjectIdView,
    kind: ConstraintKind,
    explicit: Option<Seq<char>>,
    columns: Seq<Seq<char>>,
    using_index: Option<ObjectIdView>,
) -> (StateData, MutationResultView) {
    let refusal = key_refusal(d, id, kind, explicit, columns, using_index);
    if refusal is Some {
        refused(d, refusal->0)
    } else {
        (with_key(d, id, kind, key_name(d, id, kind, explicit, using_index), columns, using_index), MutationResultView::Applied)
    }
}

// ---------------------------------------------------------------------------
// Changes of a constraint
// ---------------------------------------------------------------------------

pub open spec fn moved_key(keys: Set<(ObjectIdView, Seq<char>)>, id: ObjectIdView, from: Seq<char>, to: Seq<char>) -> Set<(ObjectIdView, Seq<char>)> {
    if keys.contains((id, from)) {
        keys.remove((id, from)).insert((id, to))
    } else {
        keys
    }
}

/// The namespace with a constraint under another name.
#[verifier::opaque]
pub open spec fn namespace_with_renamed(d: StateData, n: NamespaceSnapshotView, id: ObjectIdView, from: Seq<char>, to: Seq<char>) -> NamespaceSnapshotView {
    NamespaceSnapshotView {
        constraints: d.constraints.remove((id, from)).insert((id, to), ConstraintStateView { name: to, ..d.constraints[(id, from)] }),
        pending_validation: moved_key(d.pending_validation, id, from, to),
        baseline_foreign_keys: moved_key(d.baseline_foreign_keys, id, from, to),
        graph: d.graph.map_values(|e: DependencyEdgeView| with_constraint_renamed(e, id, from, to)),
        ..n
    }
}

/// `RENAME CONSTRAINT`.
#[verifier::opaque]
pub open spec fn constraint_renamed(d: StateData, id: ObjectIdView, from: Seq<char>, to: Seq<char>) -> (StateData, MutationResultView) {
    if !has_constraint(d, id, from) {
        refused(d, constraint_missing(id, from))
    } else if has_constraint(d, id, to) {
        refused(d, constraint_exists(id, to))
    } else {
        (with_namespace(d, namespace_with_renamed(d, namespace_of(d), id, from, to)), MutationResultView::Applied)
    }
}

/// `VALIDATE CONSTRAINT`.
#[verifier::opaque]
pub open spec fn constraint_validated(d: StateData, id: ObjectIdView, name: Seq<char>) -> (StateData, MutationResultView) {
    if !has_constraint(d, id, name) {
        refused(d, constraint_missing(id, name))
    } else {
        (
            StateData {
                constraints: d.constraints.insert((id, name), ConstraintStateView { validated: true, ..d.constraints[(id, name)] }),
                pending_validation: d.pending_validation.remove((id, name)),
                ..d
            },
            MutationResultView::Applied,
        )
    }
}

/// `ALTER CONSTRAINT`: what it changes is not modeled.
#[verifier::opaque]
pub open spec fn constraint_altered(d: StateData, id: ObjectIdView, name: Option<Seq<char>>) -> (StateData, MutationResultView) {
    if name is Some && !has_constraint(d, id, name->0) {
        refused(d, constraint_missing(id, name->0))
    } else {
        (tainted(d, EvidenceCode::UnsupportedSemantics, EvidenceScope::Chain), MutationResultView::Applied)
    }
}

/// Why a constraint cannot be dropped.
#[verifier::opaque]
pub open spec fn constraint_drop_refusal(d: StateData, id: ObjectIdView, name: Seq<char>, if_exists: bool) -> Option<RefusalView> {
    if has_constraint(d, id, name) {
        None
    } else if !covers_family(d, id, CatalogFamily::Relations) {
        Some(RefusalView::Uncovered)
    } else if if_exists {
        Some(RefusalView::NoEffect)
    } else {
        Some(constraint_missing(id, name))
    }
}

/// Whether an edge belongs to a constraint.
pub open spec fn is_constraint_edge(d: StateData, e: DependencyEdgeView, id: ObjectIdView, name: Seq<char>) -> bool {
    resolved(d.graph, e.dependent) == id && match e.kind {
        DependencyKindView::ForeignKey { constraint_name, .. } => constraint_name == Some(name),
        DependencyKindView::ConstraintOnRelation { constraint_name, .. } => constraint_name == name,
        DependencyKindView::ConstraintDependency { constraint_name, .. } => constraint_name == name,
        _ => false,
    }
}

/// The relations after a constraint was dropped: a column without its `NOT
/// NULL` constraint, which bears its name, takes nulls.
pub open spec fn relations_without_constraint(d: StateData, id: ObjectIdView, name: Seq<char>) -> Map<ObjectIdView, Overlay<RelationStateView>> {
    let relation = state_of(d.relations, id);
    if d.constraints[(id, name)].kind == ConstraintKind::NotNull && present(d.relations, id) {
        d.relations.insert(id, Overlay::Present(RelationStateView { columns: with_nullability(relation.columns, name, true), ..relation }))
    } else {
        d.relations
    }
}

/// The namespace without a constraint, but with its edges.
#[verifier::opaque]
pub open spec fn namespace_without_constraint(d: StateData, n: NamespaceSnapshotView, id: ObjectIdView, name: Seq<char>) -> NamespaceSnapshotView {
    NamespaceSnapshotView {
        constraints: d.constraints.remove((id, name)),
        relations: relations_without_constraint(d, id, name),
        pending_validation: d.pending_validation.remove((id, name)),
        baseline_foreign_keys: d.baseline_foreign_keys.remove((id, name)),
        ..n
    }
}

/// The data without a constraint.
#[verifier::opaque]
pub open spec fn without_constraint(d: StateData, id: ObjectIdView, name: Seq<char>) -> StateData {
    let d1 = with_namespace(d, namespace_without_constraint(d, namespace_of(d), id, name));
    StateData { graph: d1.graph.filter(|e: DependencyEdgeView| !is_constraint_edge(d1, e, id, name)), ..d1 }
}

/// `DROP CONSTRAINT`.
pub open spec fn constraint_dropped(d: StateData, id: ObjectIdView, name: Seq<char>, if_exists: bool) -> (StateData, MutationResultView) {
    let refusal = constraint_drop_refusal(d, id, name, if_exists);
    if refusal is Some {
        refused(d, refusal->0)
    } else {
        (without_constraint(d, id, name), MutationResultView::Applied)
    }
}

/// A constraint that was added and then dropped is gone, as are its edges.
pub proof fn law_dropped_constraint_is_gone(d: StateData, id: ObjectIdView, name: Seq<char>, i: int)
    requires
        0 <= i < without_constraint(d, id, name).graph.len(),
    ensures
        !has_constraint(without_constraint(d, id, name), id, name),
        !is_constraint_edge(d, without_constraint(d, id, name).graph[i], id, name),
{
    reveal(without_constraint);
    reveal(namespace_without_constraint);
    reveal(undone);
    let d1 = with_namespace(d, namespace_without_constraint(d, namespace_of(d), id, name));
    let p = |e: DependencyEdgeView| !is_constraint_edge(d1, e, id, name);
    crate::collections::lemma_filtered(d1.graph, p);
    let after = without_constraint(d, id, name).graph;
    assert(after == d1.graph.filter(p));
    assert(after.contains(after[i]));
}

// ---------------------------------------------------------------------------
// Execution
// ---------------------------------------------------------------------------

fn can_back_key_with(kind: &DependencyKind) -> (r: bool)
    ensures
        r == can_back_key(kind@),
{
    match kind {
        DependencyKind::IndexOnRelation {
            using_method,
            has_expression_keys,
            has_predicate,
            is_unique,
            is_valid,
            is_ready,
            is_live,
            has_default_sort_order,
            has_default_opclasses,
            has_default_collations,
            ..
        } => {
            let btree = match using_method {
                Some(method) => eq_ignore_ascii_case(method, "btree"),
                None => false,
            };
            *is_unique && !*has_predicate && !*has_expression_keys && *is_valid && *is_ready && *is_live && *has_default_sort_order
                && *has_default_opclasses && *has_default_collations && btree
        },
        _ => false,
    }
}

fn move_key(keys: &VecSet<(ObjectId, String)>, id: &ObjectId, from: &String, to: &String) -> (r: VecSet<(ObjectId, String)>)
    ensures
        r@ == moved_key(keys@, id@, from@, to@),
{
    let mut r = keys.dup();
    let key = (id.dup(), from.clone());
    if r.contains(&key) {
        r.remove(&key);
        r.insert((id.dup(), to.clone()));
    }
    r
}

impl AnalysisState {
    pub(crate) fn columns_known(&self, id: &ObjectId) -> (r: bool)
        requires
            present(self@.data.relations, id@),
        ensures
            r == columns_known(self@.data, id@),
    {
        match self.present_relation(id) {
            Some(relation) => relation.columns.len() > 0 || relation.estimated_rows.is_some(),
            None => false,
        }
    }

    fn has_constraint(&self, id: &ObjectId, name: &String) -> (r: bool)
        ensures
            r == has_constraint(self@.data, id@, name@),
    {
        self.constraint(id, name).is_some()
    }

    fn add_constraint(&mut self, id: &ObjectId, c: &NewConstraint)
        ensures
            final(self)@.data == with_constraint(old(self)@.data, id@, c@),
            final(self)@.data.graph == old(self)@.data.graph,
            kept(old(self)@, final(self)@),
    {
        proof {
            reveal(with_constraint);
        }
        let state = ConstraintState {
            table_id: id.dup(),
            name: c.name.clone(),
            kind: c.kind,
            validated: !c.not_valid,
            backing_index: c.backing_index.dup(),
        };
        self.put_constraint(id, &c.name, state);
        if c.not_valid {
            let mut pending = self.pending_validation().dup();
            pending.insert((id.dup(), c.name.clone()));
            self.set_pending_validation(pending);
        }
    }

    fn add_known_edge(&mut self, known: bool, e: DependencyEdge)
        ensures
            final(self)@.data == with_known_edge(old(self)@.data, known, e@),
            appending(old(self)@.data.graph, final(self)@.data.graph) == (if known {
                EdgeUndo::Cut
            } else {
                EdgeUndo::Stay
            }),
            kept_as(old(self)@, final(self)@, appending(old(self)@.data.graph, final(self)@.data.graph)),
    {
        proof {
            reveal(with_known_edge);
            reveal(tainted);
            reveal(tainted_if);
        }
        if known {
            self.append_edge(e);
        } else {
            self.taint(EvidenceCode::CatalogCoverageIncomplete, EvidenceScope::Chain);
        }
    }

    fn added_name(&self, id: &ObjectId, request: &NameRequest) -> (r: String)
        ensures
            r@ == added_name(self@.data, id@, request@),
    {
        let none: VecSet<String> = VecSet::new();
        assert(Seq::<Seq<char>>::empty().to_set() =~= Set::<Seq<char>>::empty());
        self.requested_name(id, request, &none)
    }

    fn fk_check(&self, k: &KeyUse) -> (r: crate::state::foreign_keys::KeyCheck)
        requires
            present(self@.data.relations, k@.table),
        ensures
            r@ == fk_check(self@.data, k@),
    {
        let sources = match self.present_relation(&k.table) {
            Some(relation) => key_columns_from(&relation.columns),
            None => Vec::new(),
        };
        assert(sources.deep_view().len() == sources.len());
        let known = !self.baseline_relation_is_known(&k.table) || sources.len() > 0;
        self.check_foreign_key(k, &sources, known, None)
    }

    fn add_fk(&mut self, k: &KeyUse, check: &crate::state::foreign_keys::KeyCheck, name: &String, not_valid: bool)
        requires
            present(old(self)@.data.relations, k@.table),
            check@ == fk_check(old(self)@.data, k@),
        ensures
            final(self)@.data == with_fk(old(self)@.data, k@, name@, not_valid),
            kept_as(old(self)@, final(self)@, EdgeUndo::Cut),
    {
        proof {
            reveal(with_fk);
        }
        let generation: u64 = match self.present_relation(&k.table) {
            Some(relation) => relation.generation,
            None => 0,
        };
        self.taint_if(check.gap, EvidenceCode::CatalogCoverageIncomplete, EvidenceScope::Chain);
        let c = NewConstraint { name: name.clone(), kind: ConstraintKind::ForeignKey, not_valid, backing_index: None };
        self.add_constraint(&k.table, &c);
        let e = DependencyEdge::new(
            k.table.dup(),
            k.to_table.dup(),
            DependencyKind::ForeignKey {
                constraint_name: Some(name.clone()),
                from_columns: k.from_columns.dup(),
                to_columns: check.columns.dup(),
                operator_evidence: None,
                from_generation: generation,
            },
        );
        self.add_known_edge(true, e);
    }

    pub(crate) fn add_foreign_key(&mut self, k: &KeyUse, explicit: &Option<String>, not_valid: bool) -> (r: MutationResult)
        requires
            present(old(self)@.data.relations, k@.table),
        ensures
            (final(self)@.data, r@) == fk_added(old(self)@.data, k@, explicit.deep_view(), not_valid),
            kept_as(old(self)@, final(self)@, if_applied(r@, EdgeUndo::Cut)),
    {
        proof {
            reveal(fk_added);
        }
        let request = NameRequest { explicit: explicit.dup(), second: Some(join_all(&k.from_columns, "_")), kind: ConstraintKind::ForeignKey };
        let name = self.added_name(&k.table, &request);
        if self.has_constraint(&k.table, &name) {
            return self.refuse(Refusal::Conflict(join5("constraint '", &name, "' already exists on relation '", &k.table.show(), "'")));
        }
        let check = self.fk_check(k);
        match check.refusal {
            Some(refusal) => self.refuse(refusal),
            None => {
                self.add_fk(k, &check, &name, not_valid);
                MutationResult::Applied
            },
        }
    }

    pub(crate) fn add_inline(
        &mut self,
        id: &ObjectId,
        kind: ConstraintKind,
        explicit: &Option<String>,
        columns: &Vec<String>,
        complete: bool,
        not_valid: bool,
    ) -> (r: MutationResult)
        requires
            present(old(self)@.data.relations, id@),
        ensures
            (final(self)@.data, r@) == inline_added(
                old(self)@.data,
                id@,
                kind,
                explicit.deep_view(),
                columns.deep_view(),
                complete,
                not_valid,
            ),
            kept_as(old(self)@, final(self)@, if_applied(r@, appending(old(self)@.data.graph, final(self)@.data.graph))),
    {
        proof {
            reveal(inline_added);
        }
        let name = self.added_name(id, &NameRequest { explicit: explicit.dup(), second: None, kind });
        if self.has_constraint(id, &name) {
            return self.refuse(Refusal::Conflict(join5("constraint '", &name, "' already exists on relation '", &id.show(), "'")));
        }
        let known = self.columns_known(id) && complete;
        self.add_constraint(id, &NewConstraint { name: name.clone(), kind, not_valid, backing_index: None });
        let e = DependencyEdge::new(
            id.dup(),
            id.dup(),
            DependencyKind::ConstraintDependency { constraint_name: name, columns: columns.dup() },
        );
        self.add_known_edge(known, e);
        MutationResult::Applied
    }

    fn has_primary_key(&self, id: &ObjectId) -> (r: bool)
        ensures
            r == has_primary_key(self@.data, id@),
    {
        proof {
            reveal(data_of);
        }
        let is = |key: &(ObjectId, String), c: &ConstraintState| -> (b: bool)
            ensures
                b == is_primary_of(key.deep_view(), c.deep_view(), id@),
            {
                key.0.same(id) && match c.kind {
                    ConstraintKind::PrimaryKey => true,
                    _ => false,
                }
            };
        let ghost p = |key: (ObjectIdView, Seq<char>), c: ConstraintStateView| is_primary_of(key, c, id@);
        let r = self.local.constraints.any(is, Ghost(p));
        proof {
            let m = self@.data.constraints;
            if r {
                let key = choose|key: (ObjectIdView, Seq<char>)| #[trigger] self.local.constraints@.dom().contains(key) && p(key, self.local.constraints@[key]);
                assert(m.dom().contains(key) && is_primary_of(key, m[key], id@));
            } else {
                assert forall|key: (ObjectIdView, Seq<char>)| #[trigger] m.dom().contains(key) implies !is_primary_of(key, m[key], id@) by {
                    assert(!p(key, self.local.constraints@[key]));
                }
            }
        }
        r
    }

    fn key_name(&self, id: &ObjectId, kind: ConstraintKind, explicit: &Option<String>, using_index: &Option<ObjectId>) -> (r: String)
        ensures
            r@ == key_name(self@.data, id@, kind, explicit.deep_view(), using_index.deep_view()),
    {
        let chosen = match explicit {
            Some(name) => Some(name.clone()),
            None => match using_index {
                Some(index) => Some(index.name.clone()),
                None => None,
            },
        };
        self.added_name(id, &NameRequest { explicit: chosen, second: None, kind })
    }

    fn index_refusal(&self, id: &ObjectId, index: &ObjectId, name: &String) -> (r: Option<Refusal>)
        ensures
            r.deep_view() == index_refusal(self@.data, id@, index@, name@),
    {
        if !self.index_is_present(index) {
            return Some(Refusal::Conflict(join3("constraint references index '", &index.show(), "' which does not exist")));
        }
        let e = self.index_edge(index);
        if !e.referenced.same(id) {
            let tail = crate::text::join2(&id.show(), "'");
            let head = join5("constraint index '", &index.show(), "' belongs to relation '", &e.referenced.show(), "', not '");
            return Some(Refusal::Conflict(crate::text::join2(&head, &tail)));
        }
        let known = match &e.kind {
            DependencyKind::IndexOnRelation { eligibility_known, .. } => *eligibility_known,
            _ => true,
        };
        if !known {
            return Some(Refusal::Uncovered);
        }
        if !can_back_key_with(&e.kind) {
            return Some(
                Refusal::Conflict(
                    join3(
                        "constraint index '",
                        &index.show(),
                        "' must be unique and non-partial, live/valid/ready, a btree with simple columns, and use the default definition",
                    ),
                ),
            );
        }
        let adopted = ObjectId::new(&index.schema, name);
        if !adopted.same(index) && self.relation_namespace_object_is_present(&adopted) {
            return Some(Refusal::Conflict(join3("constraint index '", &adopted.show(), "' already exists")));
        }
        None
    }

    fn column_names(&self, id: &ObjectId) -> (r: Vec<String>)
        requires
            present(self@.data.relations, id@),
        ensures
            r.deep_view() == names_of(state_of(self@.data.relations, id@).columns),
    {
        let make = |c: &crate::model::column::Column| -> (x: String)
            ensures
                x@ == c@.name,
            { c.name.clone() };
        match self.present_relation(id) {
            Some(relation) => crate::collections::vec_map(&relation.columns, make, Ghost(|c: ColumnView| c.name)),
            None => Vec::new(),
        }
    }

    fn key_refusal(&self, id: &ObjectId, kind: ConstraintKind, explicit: &Option<String>, columns: &Vec<String>, using_index: &Option<ObjectId>) -> (r: Option<
        Refusal,
    >)
        requires
            present(self@.data.relations, id@),
        ensures
            r.deep_view() == key_refusal(
                self@.data,
                id@,
                kind,
                explicit.deep_view(),
                columns.deep_view(),
                using_index.deep_view(),
            ),
    {
        proof {
            reveal(key_refusal);
        }
        if using_index.is_none() {
            let shape = refuse_key_columns(columns, &self.column_names(id), self.columns_known(id), id);
            if shape.is_some() {
                return shape;
            }
        }
        let primary = match kind {
            ConstraintKind::PrimaryKey => true,
            _ => false,
        };
        if primary && self.has_primary_key(id) {
            return Some(Refusal::Conflict(join3("relation '", &id.show(), "' already has a primary key")));
        }
        let name = self.key_name(id, kind, explicit, using_index);
        if self.has_constraint(id, &name) {
            return Some(Refusal::Conflict(join5("constraint '", &name, "' already exists on relation '", &id.show(), "'")));
        }
        match using_index {
            Some(index) => self.index_refusal(id, index, &name),
            None => None,
        }
    }

    /// The constraint takes the index over under its own name.
    fn adopt_index_for_constraint(&mut self, index: &ObjectId, table: &ObjectId, constraint_name: &String)
        requires
            index_present(old(self)@.data, index@),
        ensures
            final(self)@.data == with_index_adopted(old(self)@.data, table@, index@, constraint_name@),
            kept_as(
                old(self)@,
                final(self)@,
                if is_adopted_as_is(index@, constraint_name@) {
                    EdgeUndo::Stay
                } else {
                    EdgeUndo::PutBack
                },
            ),
            is_adopted_as_is(index@, constraint_name@) ==> final(self)@.data.graph == old(self)@.data.graph,
    {
        proof {
            reveal(with_index_adopted);
        }
        let adopted = ObjectId::new(&index.schema, constraint_name);
        if adopted.same(index) {
            return;
        }
        let e = self.index_edge(index);
        let stays = |e: &DependencyEdge| -> (b: bool)
            ensures
                b == !crate::state::lookup::is_index(e@, index@),
            {
                match &e.kind {
                    DependencyKind::IndexOnRelation { .. } => !e.dependent.same(index),
                    _ => true,
                }
            };
        let mut graph = self.graph().dup();
        graph.retain_matching(stays, Ghost(|e: DependencyEdgeView| !crate::state::lookup::is_index(e, index@)));
        graph.add_edge(DependencyEdge::new(adopted, table.dup(), e.kind));
        self.set_graph(graph);
    }

    fn add_key(&mut self, id: &ObjectId, kind: ConstraintKind, name: &String, columns: &Vec<String>, using_index: &Option<ObjectId>)
        requires
            present(old(self)@.data.relations, id@),
            using_index is Some ==> index_present(old(self)@.data, using_index->0@),
        ensures
            final(self)@.data == with_key(old(self)@.data, id@, kind, name@, columns.deep_view(), using_index.deep_view()),
            kept_as(old(self)@, final(self)@, key_edge_undo(old(self)@.data, name@, using_index.deep_view(), final(self)@.data)),
    {
        proof {
            reveal(with_key);
        }
        let known = columns.len() > 0 && self.columns_known(id);
        let backing_index = match using_index {
            Some(index) => Some(ObjectId::new(&index.schema, name)),
            None => None,
        };
        if let Some(index) = using_index {
            self.adopt_index_for_constraint(index, id, name);
        }
        self.add_constraint(id, &NewConstraint { name: name.clone(), kind, not_valid: false, backing_index });
        let is_primary = match kind {
            ConstraintKind::PrimaryKey => true,
            _ => false,
        };
        let e = DependencyEdge::new(
            id.dup(),
            id.dup(),
            DependencyKind::ConstraintOnRelation { constraint_name: name.clone(), columns: columns.dup(), is_primary },
        );
        self.add_known_edge(known, e);
    }

    pub(crate) fn add_key_constraint(
        &mut self,
        id: &ObjectId,
        kind: ConstraintKind,
        explicit: &Option<String>,
        columns: &Vec<String>,
        using_index: &Option<ObjectId>,
    ) -> (r: MutationResult)
        requires
            present(old(self)@.data.relations, id@),
        ensures
            (final(self)@.data, r@) == key_added(
                old(self)@.data,
                id@,
                kind,
                explicit.deep_view(),
                columns.deep_view(),
                using_index.deep_view(),
            ),
            kept_as(
                old(self)@,
                final(self)@,
                if_applied(
                    r@,
                    key_edge_undo(
                        old(self)@.data,
                        key_name(old(self)@.data, id@, kind, explicit.deep_view(), using_index.deep_view()),
                        using_index.deep_view(),
                        final(self)@.data,
                    ),
                ),
            ),
    {
        if let Some(refusal) = self.key_refusal(id, kind, explicit, columns, using_index) {
            return self.refuse(refusal);
        }
        let name = self.key_name(id, kind, explicit, using_index);
        proof {
            reveal(key_refusal);
        }
        self.add_key(id, kind, &name, columns, using_index);
        MutationResult::Applied
    }

    fn namespace_with_renamed(&self, id: &ObjectId, from: &String, to: &String) -> (r: NamespaceSnapshot)
        requires
            has_constraint(self@.data, id@, from@),
        ensures
            r@ == namespace_with_renamed(self@.data, namespace_of(self@.data), id@, from@, to@),
    {
        let ghost d = self@.data;
        let mut n = self.current_namespace();
        if let Some(c) = self.constraint(id, from) {
            let mut c = c.dup();
            c.name = to.clone();
            n.constraints.remove(&(id.dup(), from.clone()));
            n.constraints.insert((id.dup(), to.clone()), c);
        }
        n.pending_validation = move_key(&n.pending_validation, id, from, to);
        n.baseline_foreign_keys = move_key(&n.baseline_foreign_keys, id, from, to);
        let mut graph = self.graph().dup();
        graph.rename_foreign_key_constraint(id, from, to);
        n.graph = graph.edges().dup();
        proof {
            reveal(namespace_with_renamed);
            assert(n@ =~= namespace_with_renamed(d, namespace_of(d), id@, from@, to@));
        }
        n
    }

    pub(crate) fn rename_constraint(&mut self, id: &ObjectId, from: &String, to: &String) -> (r: MutationResult)
        ensures
            (final(self)@.data, r@) == constraint_renamed(old(self)@.data, id@, from@, to@),
            kept_as(old(self)@, final(self)@, if_applied(r@, EdgeUndo::PutBack)),
    {
        proof {
            reveal(constraint_renamed);
        }
        if !self.has_constraint(id, from) {
            return self.refuse(Refusal::Conflict(join5("constraint '", from, "' does not exist on relation '", &id.show(), "'")));
        }
        if self.has_constraint(id, to) {
            return self.refuse(Refusal::Conflict(join5("constraint '", to, "' already exists on relation '", &id.show(), "'")));
        }
        let n = self.namespace_with_renamed(id, from, to);
        self.replace_namespace(n);
        MutationResult::Applied
    }

    pub(crate) fn validate_constraint(&mut self, id: &ObjectId, name: &String) -> (r: MutationResult)
        ensures
            (final(self)@.data, r@) == constraint_validated(old(self)@.data, id@, name@),
            kept(old(self)@, final(self)@),
    {
        proof {
            reveal(constraint_validated);
        }
        match self.constraint(id, name) {
            None => self.refuse(Refusal::Conflict(join5("constraint '", name, "' does not exist on relation '", &id.show(), "'"))),
            Some(c) => {
                let mut c = c.dup();
                c.validated = true;
                self.put_constraint(id, name, c);
                let mut pending = self.pending_validation().dup();
                pending.remove(&(id.dup(), name.clone()));
                self.set_pending_validation(pending);
                MutationResult::Applied
            },
        }
    }

    pub(crate) fn alter_constraint(&mut self, id: &ObjectId, name: &Option<String>) -> (r: MutationResult)
        ensures
            (final(self)@.data, r@) == constraint_altered(old(self)@.data, id@, name.deep_view()),
            kept(old(self)@, final(self)@),
    {
        proof {
            reveal(constraint_altered);
        }
        if let Some(name) = name {
            if !self.has_constraint(id, name) {
                return self.refuse(Refusal::Conflict(join5("constraint '", name, "' does not exist on relation '", &id.show(), "'")));
            }
        }
        self.taint(EvidenceCode::UnsupportedSemantics, EvidenceScope::Chain);
        MutationResult::Applied
    }

    fn constraint_drop_refusal(&self, id: &ObjectId, name: &String, if_exists: bool) -> (r: Option<Refusal>)
        ensures
            r.deep_view() == constraint_drop_refusal(self@.data, id@, name@, if_exists),
    {
        proof {
            reveal(constraint_drop_refusal);
        }
        if self.has_constraint(id, name) {
            return None;
        }
        if !self.baseline_covers_family_object(id, CatalogFamily::Relations) {
            return Some(Refusal::Uncovered);
        }
        if if_exists {
            return Some(Refusal::NoEffect);
        }
        Some(Refusal::Conflict(join5("constraint '", name, "' does not exist on relation '", &id.show(), "'")))
    }

    fn namespace_without_constraint(&self, id: &ObjectId, name: &String) -> (r: NamespaceSnapshot)
        requires
            has_constraint(self@.data, id@, name@),
        ensures
            r@ == namespace_without_constraint(self@.data, namespace_of(self@.data), id@, name@),
    {
        let ghost d = self@.data;
        let mut n = self.current_namespace();
        let not_null = match self.constraint(id, name) {
            Some(c) => match c.kind {
                ConstraintKind::NotNull => true,
                _ => false,
            },
            None => false,
        };
        if not_null {
            if let Some(relation) = self.present_relation(id) {
                let mut relation = relation.dup();
                relation.apply_column_action(&crate::model::column_action::ColumnAction::DropNotNull { name: name.clone() });
                n.relations.insert(id.dup(), Overlay::Present(relation));
            }
        }
        n.constraints.remove(&(id.dup(), name.clone()));
        n.pending_validation.remove(&(id.dup(), name.clone()));
        n.baseline_foreign_keys.remove(&(id.dup(), name.clone()));
        proof {
            reveal(namespace_without_constraint);
            assert(n@ =~= namespace_without_constraint(d, namespace_of(d), id@, name@));
        }
        n
    }

    fn is_constraint_edge(&self, e: &DependencyEdge, id: &ObjectId, name: &String) -> (r: bool)
        ensures
            r == is_constraint_edge(self@.data, e@, id@, name@),
    {
        self.graph().resolve_rename(&e.dependent).same(id) && match &e.kind {
            DependencyKind::ForeignKey { constraint_name, .. } => match constraint_name {
                Some(other) => *other == *name,
                None => false,
            },
            DependencyKind::ConstraintOnRelation { constraint_name, .. } => *constraint_name == *name,
            DependencyKind::ConstraintDependency { constraint_name, .. } => *constraint_name == *name,
            _ => false,
        }
    }

    fn remove_table_constraint(&mut self, id: &ObjectId, name: &String)
        requires
            has_constraint(old(self)@.data, id@, name@),
        ensures
            final(self)@.data == without_constraint(old(self)@.data, id@, name@),
            ends_with_mark(old(self)@, final(self)@),
            undone_by(old(self)@, final(self)@, EdgeUndo::Cut),
    {
        proof {
            reveal(without_constraint);
        }
        let ghost start = self@;
        let n = self.namespace_without_constraint(id, name);
        proof {
            reveal(namespace_without_constraint);
        }
        self.replace_appending(n);
        let ghost mid = self@;
        let stays = |e: &DependencyEdge| -> (b: bool)
            ensures
                b == !is_constraint_edge(self@.data, e@, id@, name@),
            { !self.is_constraint_edge(e, id, name) };
        let left = crate::collections::vec_filter(
            self.graph().edges(),
            stays,
            Ghost(|e: DependencyEdgeView| !is_constraint_edge(mid.data, e, id@, name@)),
        );
        self.replace_edges_marked(left);
        assert(kept(start, mid) && self@ == with_edges_marked(mid, self@.data.graph));
        proof {
            lemma_undone_after(start, mid, self@, EdgeUndo::Stay, EdgeUndo::Cut);
        }
    }

    pub(crate) fn drop_constraint(&mut self, id: &ObjectId, name: &String, if_exists: bool) -> (r: MutationResult)
        ensures
            (final(self)@.data, r@) == constraint_dropped(old(self)@.data, id@, name@, if_exists),
            r@ is Applied ==> undone_by(old(self)@, final(self)@, EdgeUndo::Cut),
            !(r@ is Applied) ==> kept(old(self)@, final(self)@),
            r@ is Applied ==> is_noted_since(old(self)@, id@, final(self)@),
    {
        if let Some(refusal) = self.constraint_drop_refusal(id, name, if_exists) {
            return self.refuse(refusal);
        }
        proof {
            reveal(constraint_drop_refusal);
        }
        let ghost start = self@;
        self.snapshot_relation(id);
        let ghost noted = self@;
        self.remove_table_constraint(id, name);
        proof {
            let mid = choose|mid: AnalysisStateView| #[trigger] kept(noted, mid) && self@ == with_edges_marked(mid, self@.data.graph);
            assert(kept(start, mid));
            lemma_undone_after(start, noted, self@, EdgeUndo::Stay, EdgeUndo::Cut);
            lemma_noted_first(start, id@, noted, mid, StateChangeView::GraphLengthMarker { len: mid.data.graph.len() as usize }, self@);
        }
        MutationResult::Applied
    }
}

} // verus!
