//! The columns of a table that exists.
use crate::collections::{Dup, Key, VecSet};
use crate::evidence::{EvidenceCode, EvidenceScope};
use crate::expr_ir::{ExprIr, ExprIrView};
use crate::facts::{ColumnGeneration, PublicationObjectFact, PublicationObjectFactView, PublicationScope, PublicationScopeView};
use crate::graph::{
    column_renamed, edge, index_column_renamed, resolved, swap_name, swap_names, swapped_names, with_column_renamed, with_index_column_renamed, DependencyEdge,
    DependencyEdgeView, DependencyKind, DependencyKindView,
};
use crate::identifiers::{ObjectId, ObjectIdView};
use crate::model::column::ColumnView;
use crate::model::column_action::{
    column_of, has_column, with_column_added, with_data_type, with_default, with_name_changed, with_nullability, with_sequence_default, with_type_id, ColumnAction,
};
use crate::model::relation::{RelationState, RelationStateView};
use crate::model::replication::{PublicationOverlay, PublicationState, PublicationStateView};
use crate::model::sequence::{SequenceKind, SequenceOverlay, SequenceState, SequenceStateView};
use crate::model::Overlay;
use crate::state::alter_constraint::columns_known;
use crate::state::create_table::{nextval_call, nextval_text, sequence_kind, sequence_nextval_default, sequence_nextval_text};
use crate::state::generated_names::implicit_sequence;
use crate::state::journal::{appending, group_steps, if_applied, kept, kept_as, namespace_of, tainted_if, with_namespace, EdgeUndo};
use crate::state::lookup::{present, relation_id, state_of};
use crate::state::refusal::{refused, Refusal, RefusalView};
use crate::state::sequence_refs::{expression_references, expression_references_sequence};
use crate::state::type_refs::{optional_type, type_reference};
use crate::state::{data_of, AnalysisState, MutationResult, MutationResultView, StateData};
use crate::text::{join2, join5};
use crate::transaction::{NamespaceSnapshot, NamespaceSnapshotView};
use vstd::prelude::*;

verus! {

broadcast use group_steps;

pub open spec fn column_missing(id: ObjectIdView, name: Seq<char>) -> RefusalView {
    RefusalView::Conflict("column '"@ + name + "' does not exist on relation '"@ + id.shown() + "'"@)
}

/// Why a column cannot be changed.
#[verifier::opaque]
pub open spec fn column_refusal(d: StateData, id: ObjectIdView, name: Seq<char>) -> Option<RefusalView> {
    if !columns_known(d, id) {
        Some(RefusalView::Uncovered)
    } else if !has_column(state_of(d.relations, id).columns, name) {
        Some(column_missing(id, name))
    } else {
        None
    }
}

/// The data with other columns of a table.
#[verifier::opaque]
pub open spec fn with_columns(d: StateData, id: ObjectIdView, columns: Seq<ColumnView>) -> StateData {
    StateData { relations: d.relations.insert(id, Overlay::Present(RelationStateView { columns, ..state_of(d.relations, id) })), ..d }
}

pub open spec fn columns_of(d: StateData, id: ObjectIdView) -> Seq<ColumnView> {
    state_of(d.relations, id).columns
}

/// `SET NOT NULL` and `DROP NOT NULL`.
pub open spec fn nullability_changed(d: StateData, id: ObjectIdView, name: Seq<char>, nullable: bool) -> (StateData, MutationResultView) {
    if column_refusal(d, id, name) is Some {
        refused(d, column_refusal(d, id, name)->0)
    } else {
        (with_columns(d, id, with_nullability(columns_of(d, id), name, nullable)), MutationResultView::Applied)
    }
}

/// `SET DATA TYPE`.
pub open spec fn type_changed(d: StateData, id: ObjectIdView, name: Seq<char>, ty: Seq<char>) -> (StateData, MutationResultView) {
    if column_refusal(d, id, name) is Some {
        refused(d, column_refusal(d, id, name)->0)
    } else {
        (
            with_columns(d, id, with_type_id(with_data_type(columns_of(d, id), name, ty), name, type_reference(d, ty))),
            MutationResultView::Applied,
        )
    }
}

// ---------------------------------------------------------------------------
// Defaults
// ---------------------------------------------------------------------------

pub open spec fn draws_from(d: StateData, default: ExprIrView, id: ObjectIdView) -> bool {
    present(d.sequences, id) && expression_references(default, id)
}

/// Whether a default draws from this sequence and no other.
pub open spec fn draws_only_from(d: StateData, default: ExprIrView, id: ObjectIdView) -> bool {
    draws_from(d, default, id) && forall|other: ObjectIdView| #[trigger] draws_from(d, default, other) ==> other == id
}

/// The one sequence that a default draws from.
pub open spec fn sole_sequence(d: StateData, default: Option<ExprIrView>) -> Option<ObjectIdView> {
    match default {
        Some(e) => if exists|id: ObjectIdView| draws_only_from(d, e, id) {
            Some(choose|id: ObjectIdView| draws_only_from(d, e, id))
        } else {
            None
        },
        None => None,
    }
}

pub open spec fn is_default_edge(e: DependencyEdgeView, id: ObjectIdView, name: Seq<char>) -> bool {
    e.kind == (DependencyKindView::ColumnDefaultOnSequence { column: name }) && e.dependent == id
}

/// The edges after a column got a default.
pub open spec fn edges_with_default(d: StateData, id: ObjectIdView, name: Seq<char>, default: Option<ExprIrView>) -> Seq<DependencyEdgeView> {
    let left = d.graph.filter(|e: DependencyEdgeView| !is_default_edge(e, id, name));
    match sole_sequence(d, default) {
        Some(sequence) => left.push(edge(id, sequence, DependencyKindView::ColumnDefaultOnSequence { column: name })),
        None => left,
    }
}

#[verifier::opaque]
pub open spec fn with_graph(d: StateData, graph: Seq<DependencyEdgeView>) -> StateData {
    StateData { graph, ..d }
}

/// `SET DEFAULT` and `DROP DEFAULT`: a default is only followed where it draws
/// from exactly one sequence.
#[verifier::opaque]
pub open spec fn default_changed(d: StateData, id: ObjectIdView, name: Seq<char>, default: Option<ExprIrView>) -> (StateData, MutationResultView) {
    if column_refusal(d, id, name) is Some {
        refused(d, column_refusal(d, id, name)->0)
    } else {
        (
            tainted_if(
                with_graph(with_columns(d, id, with_default(columns_of(d, id), name, default)), edges_with_default(d, id, name, default)),
                default is Some && sole_sequence(d, default) is None,
                EvidenceCode::CatalogCoverageIncomplete,
                EvidenceScope::Chain,
            ),
            MutationResultView::Applied,
        )
    }
}

// ---------------------------------------------------------------------------
// New columns
// ---------------------------------------------------------------------------

/// A column that `ALTER TABLE` adds.
pub struct NewColumn {
    pub name: String,
    pub ty: Option<String>,
    pub not_null: bool,
    pub default: Option<ExprIr>,
    pub depends_on: Option<(ObjectId, String)>,
    pub generation: ColumnGeneration,
}

pub struct NewColumnView {
    pub name: Seq<char>,
    pub ty: Option<Seq<char>>,
    pub not_null: bool,
    pub default: Option<ExprIrView>,
    pub depends_on: Option<(ObjectIdView, Seq<char>)>,
    pub generation: ColumnGeneration,
}

impl View for NewColumn {
    type V = NewColumnView;

    open spec fn view(&self) -> NewColumnView {
        NewColumnView {
            name: self.name@,
            ty: self.ty.deep_view(),
            not_null: self.not_null,
            default: self.default.deep_view(),
            depends_on: self.depends_on.deep_view(),
            generation: self.generation,
        }
    }
}

pub open spec fn type_text(ty: Option<Seq<char>>) -> Seq<char> {
    match ty {
        Some(text) => text,
        None => "unknown"@,
    }
}

/// Why a column cannot be added.
#[verifier::opaque]
pub open spec fn new_column_refusal(d: StateData, id: ObjectIdView, name: Seq<char>, ty: Option<Seq<char>>, if_not_exists: bool) -> Option<RefusalView> {
    match column_of(columns_of(d, id), name) {
        Some(column) => Some(
            if if_not_exists {
                RefusalView::NoEffect
            } else {
                RefusalView::Conflict(
                    "column '"@ + name + "' already exists with type "@ + type_text(column.data_type) + "; this statement adds it again with type "@
                        + type_text(ty),
                )
            },
        ),
        None => None,
    }
}

/// The sequence of a new column.
pub open spec fn new_column_sequence(d: StateData, id: ObjectIdView, c: NewColumnView) -> Option<ObjectIdView> {
    if sequence_kind(c.generation) is Some {
        Some(implicit_sequence(d, id, c.name, Set::empty()))
    } else {
        None
    }
}

pub open spec fn columns_with(d: StateData, id: ObjectIdView, c: NewColumnView) -> Seq<ColumnView> {
    let added = with_type_id(with_column_added(columns_of(d, id), c.name, c.ty, c.not_null, c.default), c.name, optional_type(d, c.ty));
    match new_column_sequence(d, id, c) {
        Some(sequence) => with_sequence_default(added, c.name, nextval_call(sequence), nextval_text(sequence)),
        None => added,
    }
}

pub open spec fn sequences_with(d: StateData, id: ObjectIdView, c: NewColumnView) -> Map<ObjectIdView, Overlay<SequenceStateView>> {
    match new_column_sequence(d, id, c) {
        Some(sequence) => d.sequences.insert(
            sequence,
            Overlay::Present(
                SequenceStateView {
                    id: sequence,
                    owner: state_of(d.relations, id).owner,
                    owned_by: Some((id, c.name)),
                    kind: sequence_kind(c.generation)->0,
                    generation: (d.generation_counter + 1) as u64,
                },
            ),
        ),
        None => d.sequences,
    }
}

pub open spec fn edges_with_column(d: StateData, id: ObjectIdView, c: NewColumnView) -> Seq<DependencyEdgeView> {
    let a = match c.depends_on {
        Some((source, column)) => d.graph.push(
            edge(id, source, DependencyKindView::ColumnGeneratedFrom { column: c.name, depends_on_column: column }),
        ),
        None => d.graph,
    };
    match new_column_sequence(d, id, c) {
        Some(sequence) => a.push(edge(sequence, id, DependencyKindView::SequenceOwnedBy { column: c.name })),
        None => a,
    }
}

#[verifier::opaque]
pub open spec fn namespace_with_column(d: StateData, n: NamespaceSnapshotView, id: ObjectIdView, c: NewColumnView) -> NamespaceSnapshotView {
    NamespaceSnapshotView {
        relations: d.relations.insert(id, Overlay::Present(RelationStateView { columns: columns_with(d, id, c), ..state_of(d.relations, id) })),
        sequences: sequences_with(d, id, c),
        graph: edges_with_column(d, id, c),
        ..n
    }
}

#[verifier::opaque]
pub open spec fn with_generation(d: StateData, generation: u64) -> StateData {
    StateData { generation_counter: generation, ..d }
}

/// The data with a new column.
#[verifier::opaque]
pub open spec fn with_new_column(d: StateData, id: ObjectIdView, c: NewColumnView) -> StateData {
    with_generation(
        with_namespace(d, namespace_with_column(d, namespace_of(d), id, c)),
        if new_column_sequence(d, id, c) is Some {
            (d.generation_counter + 1) as u64
        } else {
            d.generation_counter
        },
    )
}

/// `ADD COLUMN`.
pub open spec fn column_added(d: StateData, id: ObjectIdView, c: NewColumnView, if_not_exists: bool) -> (StateData, MutationResultView) {
    let refusal = new_column_refusal(d, id, c.name, c.ty, if_not_exists);
    if refusal is Some {
        refused(d, refusal->0)
    } else {
        (with_new_column(d, id, c), MutationResultView::Applied)
    }
}

// ---------------------------------------------------------------------------
// Names of columns
// ---------------------------------------------------------------------------

/// Whether a sequence is owned by a column.
pub open spec fn owned_by_column(d: StateData, s: ObjectIdView, id: ObjectIdView, name: Seq<char>) -> bool {
    present(d.sequences, s) && state_of(d.sequences, s).owned_by == Some((id, name))
}

pub open spec fn sequence_with_column_renamed(o: Overlay<SequenceStateView>, id: ObjectIdView, from: Seq<char>, to: Seq<char>) -> Overlay<SequenceStateView> {
    match o {
        Overlay::Present(s) => if s.owned_by == Some((id, from)) {
            Overlay::Present(SequenceStateView { owned_by: Some((id, to)), ..s })
        } else {
            o
        },
        Overlay::Dropped => o,
    }
}

/// An edge after a column of `id`, which is now called `table`, was renamed.
pub open spec fn edge_with_column_renamed(
    d: StateData,
    e: DependencyEdgeView,
    id: ObjectIdView,
    table: ObjectIdView,
    from: Seq<char>,
    to: Seq<char>,
) -> DependencyEdgeView {
    let e1 = with_index_column_renamed(with_column_renamed(e, id, from, to), table, from, to);
    match e1.kind {
        DependencyKindView::SequenceOwnedBy { column } => if owned_by_column(d, e1.dependent, id, from) {
            DependencyEdgeView { kind: DependencyKindView::SequenceOwnedBy { column: swap_name(column, from, to) }, ..e1 }
        } else {
            e1
        },
        _ => e1,
    }
}

/// The column list of a publication follows the column.
pub open spec fn object_with_column_renamed(
    d: StateData,
    o: PublicationObjectFactView,
    id: ObjectIdView,
    from: Seq<char>,
    to: Seq<char>,
) -> PublicationObjectFactView {
    match o {
        PublicationObjectFactView::Table { name, only, include_partitions, columns, row_filter } => if relation_id(d, name) == id {
            PublicationObjectFactView::Table {
                name,
                only,
                include_partitions,
                columns: match columns {
                    Some(list) => Some(swap_names(list, from, to)),
                    None => None,
                },
                row_filter,
            }
        } else {
            o
        },
        _ => o,
    }
}

pub open spec fn publication_with_column_renamed(
    d: StateData,
    o: Overlay<PublicationStateView>,
    id: ObjectIdView,
    from: Seq<char>,
    to: Seq<char>,
) -> Overlay<PublicationStateView> {
    match o {
        Overlay::Present(s) => match s.scope {
            PublicationScopeView::Explicit(objects) => Overlay::Present(
                PublicationStateView {
                    scope: PublicationScopeView::Explicit(
                        objects.map_values(|x: PublicationObjectFactView| object_with_column_renamed(d, x, id, from, to)),
                    ),
                    ..s
                },
            ),
            _ => o,
        },
        Overlay::Dropped => o,
    }
}

/// The namespace after a column was renamed.
#[verifier::opaque]
pub open spec fn namespace_with_column_renamed(
    d: StateData,
    n: NamespaceSnapshotView,
    id: ObjectIdView,
    from: Seq<char>,
    to: Seq<char>,
) -> NamespaceSnapshotView {
    let table = resolved(d.graph, id);
    NamespaceSnapshotView {
        relations: d.relations.insert(
            id,
            Overlay::Present(RelationStateView { columns: with_name_changed(columns_of(d, id), from, to), ..state_of(d.relations, id) }),
        ),
        sequences: Map::new(
            |s: ObjectIdView| d.sequences.dom().contains(s),
            |s: ObjectIdView| sequence_with_column_renamed(d.sequences[s], id, from, to),
        ),
        publications: Map::new(
            |name: Seq<char>| d.publications.dom().contains(name),
            |name: Seq<char>| publication_with_column_renamed(d, d.publications[name], id, from, to),
        ),
        graph: d.graph.map_values(|e: DependencyEdgeView| edge_with_column_renamed(d, e, id, table, from, to)),
        ..n
    }
}

/// Why a column cannot be renamed.
#[verifier::opaque]
pub open spec fn rename_refusal(d: StateData, id: ObjectIdView, from: Seq<char>, to: Seq<char>) -> Option<RefusalView> {
    if column_refusal(d, id, from) is Some {
        column_refusal(d, id, from)
    } else if has_column(columns_of(d, id), to) {
        Some(RefusalView::Conflict("column '"@ + to + "' already exists on relation '"@ + id.shown() + "'"@))
    } else {
        None
    }
}

/// `RENAME COLUMN`.
pub open spec fn column_renamed_in(d: StateData, id: ObjectIdView, from: Seq<char>, to: Seq<char>) -> (StateData, MutationResultView) {
    if rename_refusal(d, id, from, to) is Some {
        refused(d, rename_refusal(d, id, from, to)->0)
    } else {
        (with_namespace(d, namespace_with_column_renamed(d, namespace_of(d), id, from, to)), MutationResultView::Applied)
    }
}

// ---------------------------------------------------------------------------
// Execution
// ---------------------------------------------------------------------------

proof fn lemma_sole_sequence(d: StateData, e: ExprIrView, ids: Seq<ObjectIdView>)
    requires
        ids.no_duplicates(),
        forall|id: ObjectIdView| ids.contains(id) <==> #[trigger] draws_from(d, e, id),
    ensures
        ids.len() == 1 ==> sole_sequence(d, Some(e)) == Some(ids[0]),
        ids.len() != 1 ==> sole_sequence(d, Some(e)) is None,
{
    if ids.len() == 1 {
        assert(ids.contains(ids[0]));
        assert forall|other: ObjectIdView| #[trigger] draws_from(d, e, other) implies other == ids[0] by {
            assert(ids.contains(other));
        }
        assert(draws_only_from(d, e, ids[0]));
        let chosen = choose|id: ObjectIdView| draws_only_from(d, e, id);
        assert(draws_from(d, e, ids[0]));
        assert(chosen == ids[0]);
    } else if exists|id: ObjectIdView| draws_only_from(d, e, id) {
        let id = choose|id: ObjectIdView| draws_only_from(d, e, id);
        assert(ids.contains(id));
        if ids.len() > 1 {
            assert(ids.contains(ids[0]) && ids.contains(ids[1]));
            assert(draws_from(d, e, ids[0]) && draws_from(d, e, ids[1]));
            assert(ids[0] != ids[1]);
        }
    }
}

fn type_text_of(ty: &Option<String>) -> (r: String)
    ensures
        r@ == type_text(ty.deep_view()),
{
    match ty {
        Some(text) => text.clone(),
        None => "unknown".to_string(),
    }
}

impl AnalysisState {
    fn column_refusal(&self, id: &ObjectId, name: &String) -> (r: Option<Refusal>)
        requires
            present(self@.data.relations, id@),
        ensures
            r.deep_view() == column_refusal(self@.data, id@, name@),
    {
        proof {
            reveal(column_refusal);
        }
        if !self.columns_known(id) {
            return Some(Refusal::Uncovered);
        }
        let found = match self.present_relation(id) {
            Some(relation) => relation.has_column(name),
            None => false,
        };
        if !found {
            return Some(Refusal::Conflict(join5("column '", name, "' does not exist on relation '", &id.show(), "'")));
        }
        None
    }

    /// Makes one change of the columns of a table.
    fn change_columns(&mut self, id: &ObjectId, action: &ColumnAction)
        requires
            present(old(self)@.data.relations, id@),
        ensures
            final(self)@.data == with_columns(
                old(self)@.data,
                id@,
                crate::model::column_action::with_action(columns_of(old(self)@.data, id@), *action),
            ),
            kept(old(self)@, final(self)@),
    {
        proof {
            reveal(with_columns);
        }
        if let Some(relation) = self.present_relation(id) {
            let mut relation = relation.dup();
            relation.apply_column_action(action);
            self.put_relation(id, Overlay::Present(relation));
        }
    }

    pub(crate) fn change_nullability(&mut self, id: &ObjectId, name: &String, nullable: bool) -> (r: MutationResult)
        requires
            present(old(self)@.data.relations, id@),
        ensures
            (final(self)@.data, r@) == nullability_changed(old(self)@.data, id@, name@, nullable),
            kept(old(self)@, final(self)@),
    {
        if let Some(refusal) = self.column_refusal(id, name) {
            return self.refuse(refusal);
        }
        let action = if nullable {
            ColumnAction::DropNotNull { name: name.clone() }
        } else {
            ColumnAction::SetNotNull { name: name.clone() }
        };
        self.change_columns(id, &action);
        MutationResult::Applied
    }

    pub(crate) fn change_type(&mut self, id: &ObjectId, name: &String, ty: &String) -> (r: MutationResult)
        requires
            present(old(self)@.data.relations, id@),
        ensures
            (final(self)@.data, r@) == type_changed(old(self)@.data, id@, name@, ty@),
            kept(old(self)@, final(self)@),
    {
        if let Some(refusal) = self.column_refusal(id, name) {
            return self.refuse(refusal);
        }
        proof {
            reveal(with_columns);
        }
        let type_id = self.resolve_type_reference(ty);
        if let Some(relation) = self.present_relation(id) {
            let mut relation = relation.dup();
            relation.apply_column_action(&ColumnAction::SetType { name: name.clone(), data_type: ty.clone() });
            relation.set_type_id(name, &type_id);
            self.put_relation(id, Overlay::Present(relation));
        }
        MutationResult::Applied
    }

    fn sole_sequence(&self, default: &Option<ExprIr>) -> (r: Option<ObjectId>)
        ensures
            r.deep_view() == sole_sequence(self@.data, default.deep_view()),
    {
        proof {
            reveal(data_of);
        }
        match default {
            None => None,
            Some(e) => {
                let draws = |id: &ObjectId, o: &SequenceOverlay| -> (b: bool)
                    ensures
                        b == (o.deep_view() is Present && expression_references(e.deep_view(), id@)),
                    {
                        match o {
                            Overlay::Present(_) => expression_references_sequence(e, id),
                            Overlay::Dropped => false,
                        }
                    };
                let ids = self.local.sequences.keys_where(
                    draws,
                    Ghost(|id: ObjectIdView, o: Overlay<SequenceStateView>| o is Present && expression_references(e.deep_view(), id)),
                );
                proof {
                    let d = self@.data;
                    assert forall|id: ObjectIdView| ids.deep_view().contains(id) <==> #[trigger] draws_from(d, e.deep_view(), id) by {}
                    lemma_sole_sequence(d, e.deep_view(), ids.deep_view());
                }
                if ids.len() == 1 {
                    assert(ids.deep_view()[0] == ids@[0]@);
                    Some(ids[0].dup())
                } else {
                    None
                }
            },
        }
    }

    pub(crate) fn replace_graph(&mut self, edges: Vec<DependencyEdge>)
        ensures
            final(self)@.data == with_graph(old(self)@.data, edges.deep_view()),
            kept_as(old(self)@, final(self)@, EdgeUndo::PutBack),
    {
        proof {
            reveal(with_graph);
        }
        let mut graph = self.graph().dup();
        graph.replace_edges(edges);
        self.set_graph(graph);
    }

    fn edges_with_default(&self, id: &ObjectId, name: &String, sequence: &Option<ObjectId>, Ghost(default): Ghost<Option<ExprIrView>>) -> (r: Vec<
        DependencyEdge,
    >)
        requires
            sequence.deep_view() == sole_sequence(self@.data, default),
        ensures
            r.deep_view() == edges_with_default(self@.data, id@, name@, default),
    {
        let stays = |e: &DependencyEdge| -> (b: bool)
            ensures
                b == !is_default_edge(e@, id@, name@),
            {
                match &e.kind {
                    DependencyKind::ColumnDefaultOnSequence { column } => !(e.dependent.same(id) && *column == *name),
                    _ => true,
                }
            };
        let mut left = crate::collections::vec_filter(
            self.graph().edges(),
            stays,
            Ghost(|e: DependencyEdgeView| !is_default_edge(e, id@, name@)),
        );
        if let Some(sequence) = sequence {
            let e = DependencyEdge::new(id.dup(), sequence.dup(), DependencyKind::ColumnDefaultOnSequence { column: name.clone() });
            let ghost before = left.deep_view();
            let ghost v = e@;
            left.push(e);
            assert(left.deep_view() =~= before.push(v));
        }
        left
    }

    pub(crate) fn change_default(&mut self, id: &ObjectId, name: &String, default: &Option<ExprIr>) -> (r: MutationResult)
        requires
            present(old(self)@.data.relations, id@),
        ensures
            (final(self)@.data, r@) == default_changed(old(self)@.data, id@, name@, default.deep_view()),
            kept_as(old(self)@, final(self)@, if_applied(r@, EdgeUndo::PutBack)),
    {
        proof {
            reveal(default_changed);
        }
        if let Some(refusal) = self.column_refusal(id, name) {
            return self.refuse(refusal);
        }
        let sequence = self.sole_sequence(default);
        let edges = self.edges_with_default(id, name, &sequence, Ghost(default.deep_view()));
        let gap = default.is_some() && sequence.is_none();
        self.change_columns(id, &ColumnAction::SetDefault { name: name.clone(), default: default.dup() });
        self.replace_graph(edges);
        self.taint_if(gap, EvidenceCode::CatalogCoverageIncomplete, EvidenceScope::Chain);
        MutationResult::Applied
    }

    fn new_column_refusal(&self, id: &ObjectId, c: &NewColumn, if_not_exists: bool) -> (r: Option<Refusal>)
        requires
            present(self@.data.relations, id@),
        ensures
            r.deep_view() == new_column_refusal(self@.data, id@, c@.name, c@.ty, if_not_exists),
    {
        proof {
            reveal(new_column_refusal);
        }
        let existing = match self.present_relation(id) {
            Some(relation) => relation.get_column(&c.name),
            None => None,
        };
        match existing {
            None => None,
            Some(column) => {
                if if_not_exists {
                    return Some(Refusal::NoEffect);
                }
                let head = join5(
                    "column '",
                    &c.name,
                    "' already exists with type ",
                    &type_text_of(&column.data_type),
                    "; this statement adds it again with type ",
                );
                Some(Refusal::Conflict(join2(&head, &type_text_of(&c.ty))))
            },
        }
    }

    fn new_column_sequence(&self, id: &ObjectId, c: &NewColumn) -> (r: Option<ObjectId>)
        ensures
            r.deep_view() == new_column_sequence(self@.data, id@, c@),
    {
        let draws = match c.generation {
            ColumnGeneration::Ordinary => false,
            _ => true,
        };
        if draws {
            let none: VecSet<ObjectId> = VecSet::new();
            Some(self.next_implicit_sequence_id(id, &c.name, &none))
        } else {
            None
        }
    }

    fn relation_with_column(&self, id: &ObjectId, c: &NewColumn, sequence: &Option<ObjectId>) -> (r: RelationState)
        requires
            present(self@.data.relations, id@),
            sequence.deep_view() == new_column_sequence(self@.data, id@, c@),
        ensures
            r@ == (RelationStateView { columns: columns_with(self@.data, id@, c@), ..state_of(self@.data.relations, id@) }),
    {
        let type_id = self.resolve_optional_type(&c.ty);
        let mut relation = match self.present_relation(id) {
            Some(relation) => relation.dup(),
            None => RelationState::new(
                id.dup(),
                id.dup(),
                0,
                None,
                crate::model::relation::RelationKind::Table,
                crate::model::relation::Persistence::Permanent,
                0,
            ),
        };
        relation.apply_column_action(
            &ColumnAction::Add { name: c.name.clone(), data_type: c.ty.dup(), not_null: c.not_null, default: c.default.dup() },
        );
        relation.set_type_id(&c.name, &type_id);
        if let Some(sequence) = sequence {
            relation.set_sequence_default(&c.name, &sequence_nextval_default(sequence), &sequence_nextval_text(sequence));
        }
        relation
    }

    fn edges_with_column(&self, id: &ObjectId, c: &NewColumn, sequence: &Option<ObjectId>) -> (r: Vec<DependencyEdge>)
        requires
            sequence.deep_view() == new_column_sequence(self@.data, id@, c@),
        ensures
            r.deep_view() == edges_with_column(self@.data, id@, c@),
    {
        let mut graph = self.graph().dup();
        if let Some((source, column)) = &c.depends_on {
            graph.add_edge(
                DependencyEdge::new(
                    id.dup(),
                    source.dup(),
                    DependencyKind::ColumnGeneratedFrom { column: c.name.clone(), depends_on_column: column.clone() },
                ),
            );
        }
        if let Some(sequence) = sequence {
            graph.add_edge(DependencyEdge::new(sequence.dup(), id.dup(), DependencyKind::SequenceOwnedBy { column: c.name.clone() }));
        }
        graph.edges().dup()
    }

    fn namespace_with_column(&self, id: &ObjectId, c: &NewColumn, sequence: &Option<ObjectId>) -> (r: NamespaceSnapshot)
        requires
            present(self@.data.relations, id@),
            self@.data.generation_counter < u64::MAX,
            sequence.deep_view() == new_column_sequence(self@.data, id@, c@),
        ensures
            r@ == namespace_with_column(self@.data, namespace_of(self@.data), id@, c@),
    {
        let ghost d = self@.data;
        let mut n = self.current_namespace();
        let relation = self.relation_with_column(id, c, sequence);
        let owner = relation.owner.dup();
        n.relations.insert(id.dup(), Overlay::Present(relation));
        if let Some(sequence) = sequence {
            let kind = match c.generation {
                ColumnGeneration::Serial => SequenceKind::SerialLike,
                _ => SequenceKind::Identity,
            };
            let state = SequenceState {
                id: sequence.dup(),
                owner,
                owned_by: Some((id.dup(), c.name.clone())),
                kind,
                generation: self.generation() + 1,
            };
            n.sequences.insert(sequence.dup(), Overlay::Present(state));
        }
        n.graph = self.edges_with_column(id, c, sequence);
        proof {
            reveal(namespace_with_column);
            assert(n@ =~= namespace_with_column(d, namespace_of(d), id@, c@));
        }
        n
    }

    fn move_generation(&mut self, generation: u64)
        ensures
            final(self)@.data == with_generation(old(self)@.data, generation),
            kept(old(self)@, final(self)@),
    {
        proof {
            reveal(with_generation);
        }
        self.set_generation(generation);
    }

    fn add_new_column(&mut self, id: &ObjectId, c: &NewColumn)
        requires
            present(old(self)@.data.relations, id@),
            old(self)@.data.generation_counter < u64::MAX,
        ensures
            final(self)@.data == with_new_column(old(self)@.data, id@, c@),
            kept_as(old(self)@, final(self)@, appending(old(self)@.data.graph, final(self)@.data.graph)),
    {
        proof {
            reveal(with_new_column);
        }
        let sequence = self.new_column_sequence(id, c);
        let generation = self.generation();
        let n = self.namespace_with_column(id, c, &sequence);
        proof {
            reveal(namespace_with_column);
        }
        self.replace_appending(n);
        let next = if sequence.is_some() {
            generation + 1
        } else {
            generation
        };
        self.move_generation(next);
        proof {
            reveal(with_generation);
        }
    }

    pub(crate) fn add_column(&mut self, id: &ObjectId, c: &NewColumn, if_not_exists: bool) -> (r: MutationResult)
        requires
            present(old(self)@.data.relations, id@),
            old(self)@.data.generation_counter < u64::MAX,
        ensures
            (final(self)@.data, r@) == column_added(old(self)@.data, id@, c@, if_not_exists),
            kept_as(old(self)@, final(self)@, if_applied(r@, appending(old(self)@.data.graph, final(self)@.data.graph))),
    {
        if let Some(refusal) = self.new_column_refusal(id, c, if_not_exists) {
            return self.refuse(refusal);
        }
        self.add_new_column(id, c);
        MutationResult::Applied
    }

    pub(crate) fn owned_by_column(&self, s: &ObjectId, id: &ObjectId, name: &String) -> (r: bool)
        ensures
            r == owned_by_column(self@.data, s@, id@, name@),
    {
        match self.present_sequence(s) {
            Some(sequence) => match &sequence.owned_by {
                Some((table, column)) => table.same(id) && *column == *name,
                None => false,
            },
            None => false,
        }
    }

    fn edge_with_column_renamed(&self, e: &DependencyEdge, id: &ObjectId, table: &ObjectId, from: &String, to: &String) -> (r: DependencyEdge)
        ensures
            r@ == edge_with_column_renamed(self@.data, e@, id@, table@, from@, to@),
    {
        let e1 = index_column_renamed(&column_renamed(e, id, from, to), table, from, to);
        if let DependencyKind::SequenceOwnedBy { column } = &e1.kind {
            if self.owned_by_column(&e1.dependent, id, from) {
                let column = if *column == *from {
                    to.clone()
                } else {
                    column.clone()
                };
                return DependencyEdge::new(e1.dependent.dup(), e1.referenced.dup(), DependencyKind::SequenceOwnedBy { column });
            }
        }
        e1
    }

    fn object_with_column_renamed(&self, o: &PublicationObjectFact, id: &ObjectId, from: &String, to: &String) -> (r: PublicationObjectFact)
        ensures
            r@ == object_with_column_renamed(self@.data, o@, id@, from@, to@),
    {
        match o {
            PublicationObjectFact::Table { name, only, include_partitions, columns, row_filter } => {
                if self.resolve_relation_id(name).same(id) {
                    PublicationObjectFact::Table {
                        name: name.dup(),
                        only: *only,
                        include_partitions: *include_partitions,
                        columns: match columns {
                            Some(list) => Some(swapped_names(list, from, to)),
                            None => None,
                        },
                        row_filter: row_filter.dup(),
                    }
                } else {
                    o.dup()
                }
            },
            _ => o.dup(),
        }
    }

    fn publication_with_column_renamed(&self, o: &PublicationOverlay, id: &ObjectId, from: &String, to: &String) -> (r: PublicationOverlay)
        ensures
            r.deep_view() == publication_with_column_renamed(self@.data, o.deep_view(), id@, from@, to@),
    {
        match o {
            Overlay::Present(s) => match &s.scope {
                PublicationScope::Explicit(objects) => {
                    let change = |x: &PublicationObjectFact| -> (y: PublicationObjectFact)
                        ensures
                            y@ == object_with_column_renamed(self@.data, x@, id@, from@, to@),
                        { self.object_with_column_renamed(x, id, from, to) };
                    let ghost d = self@.data;
                    let list = crate::collections::vec_map(
                        objects,
                        change,
                        Ghost(|x: PublicationObjectFactView| object_with_column_renamed(d, x, id@, from@, to@)),
                    );
                    Overlay::Present(PublicationState { name: s.name.dup(), scope: PublicationScope::Explicit(list), params: s.params.dup() })
                },
                _ => o.dup(),
            },
            Overlay::Dropped => Overlay::Dropped,
        }
    }

    fn namespace_with_column_renamed(&self, id: &ObjectId, from: &String, to: &String) -> (r: NamespaceSnapshot)
        requires
            present(self@.data.relations, id@),
        ensures
            r@ == namespace_with_column_renamed(self@.data, namespace_of(self@.data), id@, from@, to@),
    {
        let ghost d = self@.data;
        let mut n = self.current_namespace();
        if let Some(relation) = self.present_relation(id) {
            let mut relation = relation.dup();
            relation.apply_column_action(&ColumnAction::Rename { from: from.clone(), to: to.clone() });
            n.relations.insert(id.dup(), Overlay::Present(relation));
        }
        let sequence = |s: &ObjectId, o: &SequenceOverlay| -> (x: SequenceOverlay)
            ensures
                x.deep_view() == sequence_with_column_renamed(o.deep_view(), id@, from@, to@),
            {
                match o {
                    Overlay::Present(state) => {
                        let mut state = state.dup();
                        let owned = match &state.owned_by {
                            Some((table, column)) => table.same(id) && *column == *from,
                            None => false,
                        };
                        if owned {
                            state.owned_by = Some((id.dup(), to.clone()));
                        }
                        Overlay::Present(state)
                    },
                    Overlay::Dropped => Overlay::Dropped,
                }
            };
        n.sequences = n.sequences.map_entries(
            sequence,
            Ghost(|s: ObjectIdView, o: Overlay<SequenceStateView>| sequence_with_column_renamed(o, id@, from@, to@)),
        );
        let publication = |name: &String, o: &PublicationOverlay| -> (x: PublicationOverlay)
            ensures
                x.deep_view() == publication_with_column_renamed(self@.data, o.deep_view(), id@, from@, to@),
            { self.publication_with_column_renamed(o, id, from, to) };
        n.publications = n.publications.map_entries(
            publication,
            Ghost(|name: Seq<char>, o: Overlay<PublicationStateView>| publication_with_column_renamed(d, o, id@, from@, to@)),
        );
        let table = self.graph().resolve_rename(id);
        let follow = |e: &DependencyEdge| -> (x: DependencyEdge)
            ensures
                x@ == edge_with_column_renamed(self@.data, e@, id@, table@, from@, to@),
            { self.edge_with_column_renamed(e, id, table, from, to) };
        n.graph = crate::collections::vec_map(
            self.graph().edges(),
            follow,
            Ghost(|e: DependencyEdgeView| edge_with_column_renamed(d, e, id@, table@, from@, to@)),
        );
        proof {
            reveal(namespace_with_column_renamed);
            let goal = namespace_with_column_renamed(d, namespace_of(d), id@, from@, to@);
            assert(n@.sequences =~= goal.sequences);
            assert(n@.publications =~= goal.publications);
            assert(n@.graph =~= goal.graph);
            assert(n@ =~= goal);
        }
        n
    }

    fn rename_refusal(&self, id: &ObjectId, from: &String, to: &String) -> (r: Option<Refusal>)
        requires
            present(self@.data.relations, id@),
        ensures
            r.deep_view() == rename_refusal(self@.data, id@, from@, to@),
    {
        proof {
            reveal(rename_refusal);
        }
        let refusal = self.column_refusal(id, from);
        if refusal.is_some() {
            return refusal;
        }
        let taken = match self.present_relation(id) {
            Some(relation) => relation.has_column(to),
            None => false,
        };
        if taken {
            return Some(Refusal::Conflict(join5("column '", to, "' already exists on relation '", &id.show(), "'")));
        }
        None
    }

    pub(crate) fn rename_column(&mut self, id: &ObjectId, from: &String, to: &String) -> (r: MutationResult)
        requires
            present(old(self)@.data.relations, id@),
        ensures
            (final(self)@.data, r@) == column_renamed_in(old(self)@.data, id@, from@, to@),
            kept_as(old(self)@, final(self)@, if_applied(r@, EdgeUndo::PutBack)),
    {
        if let Some(refusal) = self.rename_refusal(id, from, to) {
            return self.refuse(refusal);
        }
        let n = self.namespace_with_column_renamed(id, from, to);
        self.replace_namespace(n);
        MutationResult::Applied
    }
}

} // verus!
