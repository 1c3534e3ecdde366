//! `CREATE TABLE`.
use crate::collections::{concat, each, pick, vec_any, vec_contains, vec_filter, vec_map, Dup, Key, VecMap, VecSet};
use crate::evidence::{EvidenceCode, EvidenceScope};
use crate::expr_ir::{ExprIr, ExprIrView};
use crate::facts::{ColumnGeneration, TableConstraintFact, TableConstraintFactView};
use crate::graph::{edge, DependencyEdge, DependencyEdgeView, DependencyKind, DependencyKindView};
use crate::identifiers::{role_object, ObjectId, ObjectIdView};
use crate::model::column::{Column, ColumnView};
use crate::model::column_action::{new_relation, with_sequence_default};
use crate::model::constraint::{ConstraintKind, ConstraintState, ConstraintStateView};
use crate::model::relation::{Persistence, RelationKind, RelationState, RelationStateView};
use crate::model::sequence::{SequenceKind, SequenceOverlay, SequenceState, SequenceStateView};
use crate::model::Overlay;
use crate::mutations::{ColumnMutation, CreateTable, FkMutation, PersistenceMutation};
use crate::state::apply_view_index::is_partitioned;
use crate::state::foreign_keys::{
    first_repeated, key_checked, KeyCheck, KeyCheckView, KeyColumn, KeyColumnView, KeyTarget, KeyTargetView, KeyUse, KeyUseView, KeyView,
};
use crate::state::generated_names::{constraint_name, implicit_sequence, is_label};
use crate::state::journal::{
    appending, group_steps, if_applied, kept, kept_as, looked_up, namespace_of, tainted, tainted_if, undone, undone_by, with_namespace,
};
use crate::state::lookup::{namespace_taken, present, schema_lookup, state_of, RelationFilter};
use crate::state::refusal::{refused, relation_refusal, Refusal, RefusalView};
use crate::state::type_refs::optional_type;
use crate::state::{data_of, AnalysisState, MutationResult, MutationResultView, ObjectLookup, StateData};
use crate::text::{find_word, first_index, index_of, join3, join5, join_all, joined, nth_word, text_of, to_uppercase, uppercase_of};
use crate::transaction::{NamespaceSnapshot, NamespaceSnapshotView};
use vstd::prelude::*;

verus! {

broadcast use group_steps;

// ---------------------------------------------------------------------------
// What a table is made of
// ---------------------------------------------------------------------------

pub open spec fn column_names(create: CreateTable) -> Seq<Seq<char>> {
    create.columns@.map_values(|c: ColumnMutation| c.name@)
}

pub open spec fn is_primary_constraint(c: TableConstraintFactView) -> bool {
    c is PrimaryKey
}

/// The columns that are declared as primary key on their own.
pub open spec fn primary_columns(create: CreateTable) -> Seq<Seq<char>> {
    create.columns@.filter(|c: ColumnMutation| c.is_primary_key).map_values(|c: ColumnMutation| c.name@)
}

pub open spec fn primary_constraints(create: CreateTable) -> Seq<TableConstraintFactView> {
    create.table_constraints.deep_view().filter(|c: TableConstraintFactView| is_primary_constraint(c))
}

pub open spec fn primary_declarations(create: CreateTable) -> nat {
    primary_columns(create).len() + primary_constraints(create).len()
}

pub open spec fn constraint_columns(c: TableConstraintFactView) -> Seq<Seq<char>> {
    match c {
        TableConstraintFactView::PrimaryKey { columns, .. } => columns,
        TableConstraintFactView::Unique { columns, .. } => columns,
        TableConstraintFactView::Check { columns, .. } => columns,
        TableConstraintFactView::Exclude { columns, .. } => columns,
    }
}

pub open spec fn explicit_name(c: TableConstraintFactView) -> Option<Seq<char>> {
    match c {
        TableConstraintFactView::PrimaryKey { constraint_name, .. } => constraint_name,
        TableConstraintFactView::Unique { constraint_name, .. } => constraint_name,
        TableConstraintFactView::Check { constraint_name, .. } => constraint_name,
        TableConstraintFactView::Exclude { constraint_name, .. } => constraint_name,
    }
}

/// The columns of the primary key.
pub open spec fn primary_key_columns(create: CreateTable) -> Seq<Seq<char>> {
    if primary_constraints(create).len() > 0 {
        constraint_columns(primary_constraints(create)[0])
    } else {
        primary_columns(create)
    }
}

/// A unique key: its name, where it has one, and its columns.
pub type UniqueView = (Option<Seq<char>>, Seq<Seq<char>>);

pub open spec fn unique_columns(create: CreateTable) -> Seq<UniqueView> {
    create.columns@.filter(|c: ColumnMutation| c.is_unique).map_values(
        |c: ColumnMutation| (c.unique_constraint_name.deep_view(), seq![c.name@]),
    )
}

pub open spec fn unique_constraints(create: CreateTable) -> Seq<UniqueView> {
    create.table_constraints.deep_view().filter(|c: TableConstraintFactView| c is Unique).map_values(
        |c: TableConstraintFactView| (explicit_name(c), constraint_columns(c)),
    )
}

/// The unique keys, in the order in which they are named.
pub open spec fn uniques(create: CreateTable) -> Seq<UniqueView> {
    unique_columns(create) + unique_constraints(create)
}

pub open spec fn is_inline(c: TableConstraintFactView) -> bool {
    c is Check || c is Exclude
}

/// The check and exclusion constraints.
pub open spec fn inlines(create: CreateTable) -> Seq<TableConstraintFactView> {
    create.table_constraints.deep_view().filter(|c: TableConstraintFactView| is_inline(c))
}

// ---------------------------------------------------------------------------
// Refusals
// ---------------------------------------------------------------------------

/// The position of the first column of a key that stands in it before, or is
/// no column of the table.
pub open spec fn first_bad_key_column(columns: Seq<Seq<char>>, names: Seq<Seq<char>>, names_known: bool, i: nat) -> nat
    decreases columns.len() - i,
{
    if i >= columns.len() || columns.take(i as int).contains(columns[i as int]) || (names_known && !names.contains(columns[i as int])) {
        i
    } else {
        first_bad_key_column(columns, names, names_known, i + 1)
    }
}

/// Why a key is refused for its columns.
pub open spec fn key_columns_refusal(columns: Seq<Seq<char>>, names: Seq<Seq<char>>, names_known: bool, id: ObjectIdView) -> Option<RefusalView> {
    let i = first_bad_key_column(columns, names, names_known, 0);
    if columns.len() == 0 {
        Some(RefusalView::Conflict("key constraint must name at least one column"@))
    } else if i < columns.len() {
        if columns.take(i as int).contains(columns[i as int]) {
            Some(RefusalView::Conflict("column '"@ + columns[i as int] + "' appears more than once in a key constraint"@))
        } else {
            Some(
                RefusalView::Conflict(
                    "constraint references column '"@ + columns[i as int] + "' which does not exist on relation '"@ + id.shown() + "'"@,
                ),
            )
        }
    } else {
        None
    }
}

pub open spec fn table_constraint_refusal(create: CreateTable, c: TableConstraintFactView) -> Option<RefusalView> {
    if c is PrimaryKey || c is Unique {
        key_columns_refusal(constraint_columns(c), column_names(create), true, create.id@)
    } else {
        None
    }
}

/// Why the first constraint that is refused, from position `i` on, is refused.
pub open spec fn constraints_refusal(create: CreateTable, i: nat) -> Option<RefusalView>
    decreases create.table_constraints.deep_view().len() - i,
{
    let list = create.table_constraints.deep_view();
    if i >= list.len() {
        None
    } else if table_constraint_refusal(create, list[i as int]) is Some {
        table_constraint_refusal(create, list[i as int])
    } else {
        constraints_refusal(create, i + 1)
    }
}

/// Why the schema of a new object cannot be used.
pub open spec fn schema_refusal(d: StateData, schema: Seq<char>) -> Option<RefusalView> {
    match schema_lookup(d, schema) {
        ObjectLookup::Present => None,
        ObjectLookup::Unknown => Some(RefusalView::Unknown),
        _ => Some(RefusalView::Conflict("schema '"@ + schema + "' does not exist"@)),
    }
}

/// Why the parent of a partition cannot be used.
pub open spec fn parent_refusal(d: StateData, parent: ObjectIdView) -> Option<RefusalView> {
    let refusal = relation_refusal(
        d,
        parent,
        RelationFilter::Table,
        "partition parent relation '"@ + parent.shown() + "' does not exist"@,
        "partition parent '"@ + parent.shown() + "' is not a table"@,
    );
    if refusal is Some {
        refusal
    } else if !is_partitioned(d, parent) {
        Some(RefusalView::Conflict("partition parent '"@ + parent.shown() + "' is not partitioned"@))
    } else {
        None
    }
}

/// Why a table cannot be created where it is to be.
pub open spec fn place_refusal(d: StateData, create: CreateTable) -> Option<RefusalView> {
    if schema_refusal(d, create.id@.schema) is Some {
        schema_refusal(d, create.id@.schema)
    } else if namespace_taken(d, create.id@) {
        Some(
            if create.if_not_exists {
                RefusalView::NoEffect
            } else {
                RefusalView::Conflict("relation '"@ + create.id@.shown() + "' already exists"@)
            },
        )
    } else {
        None
    }
}

/// Why the columns and keys of a table are refused.
pub open spec fn parts_refusal(create: CreateTable) -> Option<RefusalView> {
    let repeated = first_repeated(column_names(create), 0);
    if repeated < column_names(create).len() {
        Some(RefusalView::Conflict("column '"@ + column_names(create)[repeated as int] + "' specified more than once"@))
    } else if primary_declarations(create) > 1 {
        Some(RefusalView::Conflict("multiple primary keys for table are not allowed"@))
    } else {
        constraints_refusal(create, 0)
    }
}

/// Why a table is refused before its foreign keys are looked at.
#[verifier::opaque]
pub open spec fn table_refusal(d: StateData, create: CreateTable) -> Option<RefusalView> {
    if place_refusal(d, create) is Some {
        place_refusal(d, create)
    } else if parts_refusal(create) is Some {
        parts_refusal(create)
    } else {
        match create.partition_of {
            Some(parent) => parent_refusal(d, parent@),
            None => None,
        }
    }
}

// ---------------------------------------------------------------------------
// Foreign keys
// ---------------------------------------------------------------------------

pub open spec fn own_columns(d: StateData, create: CreateTable) -> Seq<KeyColumnView> {
    create.columns@.map_values(
        |c: ColumnMutation| KeyColumnView { name: c.name@, type_id: optional_type(d, c.ty.deep_view()), data_type: c.ty.deep_view() },
    )
}

/// The keys that the table will have.
pub open spec fn own_keys(create: CreateTable) -> Seq<KeyView> {
    (if primary_declarations(create) == 1 {
        seq![(primary_key_columns(create), true)]
    } else {
        Seq::empty()
    }) + (unique_constraints(create) + unique_columns(create)).map_values(|u: UniqueView| (u.1, false))
}

pub open spec fn own_target(d: StateData, create: CreateTable) -> KeyTargetView {
    KeyTargetView {
        columns: own_columns(d, create),
        columns_known: !d.baseline_relations.contains(create.id@) || create.columns@.len() > 0,
        keys: Some(own_keys(create)),
    }
}

pub open spec fn key_use(create: CreateTable, fk: FkMutation) -> KeyUseView {
    KeyUseView {
        table: create.id@,
        to_table: fk.to_table@,
        from_columns: fk.from_columns.deep_view(),
        to_columns: fk.to_columns.deep_view(),
    }
}

#[verifier::opaque]
pub open spec fn fk_checked(d: StateData, create: CreateTable, fk: FkMutation) -> KeyCheckView {
    key_checked(
        d,
        key_use(create, fk),
        own_columns(d, create),
        true,
        if fk.to_table@ == create.id@ {
            Some(own_target(d, create))
        } else {
            None
        },
    )
}

/// The position of the first foreign key that is refused.
pub open spec fn first_refused_fk(d: StateData, create: CreateTable, i: nat) -> nat
    decreases create.foreign_keys@.len() - i,
{
    if i >= create.foreign_keys@.len() || fk_checked(d, create, create.foreign_keys@[i as int]).refusal is Some {
        i
    } else {
        first_refused_fk(d, create, i + 1)
    }
}

/// Whether something about the first `n` foreign keys could not be checked.
pub open spec fn fk_gap(d: StateData, create: CreateTable, n: nat) -> bool {
    exists|i: int| 0 <= i < n && fk_checked(d, create, #[trigger] create.foreign_keys@[i]).gap
}

pub open spec fn fk_columns(d: StateData, create: CreateTable) -> Seq<Seq<Seq<char>>> {
    create.foreign_keys@.map_values(|fk: FkMutation| fk_checked(d, create, fk).columns)
}

// ---------------------------------------------------------------------------
// Names
// ---------------------------------------------------------------------------

/// A constraint that needs a name.
pub struct NameRequest {
    pub explicit: Option<String>,
    pub second: Option<String>,
    pub kind: ConstraintKind,
}

pub struct NameRequestView {
    pub explicit: Option<Seq<char>>,
    pub second: Option<Seq<char>>,
    pub kind: ConstraintKind,
}

impl View for NameRequest {
    type V = NameRequestView;

    open spec fn view(&self) -> NameRequestView {
        NameRequestView { explicit: self.explicit.deep_view(), second: self.second.deep_view(), kind: self.kind }
    }
}

impl DeepView for NameRequest {
    type V = NameRequestView;

    open spec fn deep_view(&self) -> NameRequestView {
        self@
    }
}

pub open spec fn label_of(kind: ConstraintKind) -> Seq<char> {
    match kind {
        ConstraintKind::PrimaryKey => "pkey"@,
        ConstraintKind::Unique => "key"@,
        ConstraintKind::ForeignKey => "fkey"@,
        ConstraintKind::Check => "check"@,
        ConstraintKind::Exclusion => "excl"@,
        ConstraintKind::NotNull => "null"@,
    }
}

pub open spec fn primary_request(create: CreateTable) -> Seq<NameRequestView> {
    let columns = create.columns@.filter(|c: ColumnMutation| c.is_primary_key);
    if columns.len() > 0 {
        seq![NameRequestView { explicit: columns[0].primary_key_constraint_name.deep_view(), second: None, kind: ConstraintKind::PrimaryKey }]
    } else if primary_constraints(create).len() > 0 {
        seq![NameRequestView { explicit: explicit_name(primary_constraints(create)[0]), second: None, kind: ConstraintKind::PrimaryKey }]
    } else {
        Seq::empty()
    }
}

pub open spec fn unique_request(u: UniqueView) -> NameRequestView {
    NameRequestView { explicit: u.0, second: Some(joined(u.1, "_"@)), kind: ConstraintKind::Unique }
}

pub open spec fn fk_request(fk: FkMutation) -> NameRequestView {
    NameRequestView {
        explicit: fk.constraint_name.deep_view(),
        second: Some(joined(fk.from_columns.deep_view(), "_"@)),
        kind: ConstraintKind::ForeignKey,
    }
}

pub open spec fn inline_kind(c: TableConstraintFactView) -> ConstraintKind {
    if c is Check {
        ConstraintKind::Check
    } else {
        ConstraintKind::Exclusion
    }
}

pub open spec fn inline_request(c: TableConstraintFactView) -> NameRequestView {
    NameRequestView { explicit: explicit_name(c), second: None, kind: inline_kind(c) }
}

/// The constraints in the order in which they get their names.
pub open spec fn name_requests(create: CreateTable) -> Seq<NameRequestView> {
    primary_request(create) + uniques(create).map_values(|u: UniqueView| unique_request(u)) + create.foreign_keys@.map_values(
        |fk: FkMutation| fk_request(fk),
    ) + inlines(create).map_values(|c: TableConstraintFactView| inline_request(c))
}

/// The name of a constraint, apart from `taken`.
pub open spec fn requested_name(d: StateData, id: ObjectIdView, request: NameRequestView, taken: Seq<Seq<char>>) -> Seq<char> {
    match request.explicit {
        Some(name) => name,
        None => constraint_name(d, id, id.name, request.second, label_of(request.kind), taken.to_set()),
    }
}

/// The names of all constraints, or the first name that occurs twice.
pub open spec fn chosen_names(d: StateData, id: ObjectIdView, requests: Seq<NameRequestView>, names: Seq<Seq<char>>) -> Result<
    Seq<Seq<char>>,
    Seq<char>,
>
    decreases requests.len() - names.len(),
{
    if names.len() >= requests.len() {
        Ok(names)
    } else {
        let name = requested_name(d, id, requests[names.len() as int], names);
        if names.contains(name) {
            Err(name)
        } else {
            chosen_names(d, id, requests, names.push(name))
        }
    }
}

// ---------------------------------------------------------------------------
// Sequences
// ---------------------------------------------------------------------------

/// The sequence of a serial or identity column.
pub struct ImplicitSequence {
    pub id: ObjectId,
    pub column: String,
    pub kind: SequenceKind,
}

pub struct ImplicitSequenceView {
    pub id: ObjectIdView,
    pub column: Seq<char>,
    pub kind: SequenceKind,
}

impl View for ImplicitSequence {
    type V = ImplicitSequenceView;

    open spec fn view(&self) -> ImplicitSequenceView {
        ImplicitSequenceView { id: self.id@, column: self.column@, kind: self.kind }
    }
}

impl DeepView for ImplicitSequence {
    type V = ImplicitSequenceView;

    open spec fn deep_view(&self) -> ImplicitSequenceView {
        self@
    }
}

pub open spec fn sequence_kind(generation: ColumnGeneration) -> Option<SequenceKind> {
    match generation {
        ColumnGeneration::Serial => Some(SequenceKind::SerialLike),
        ColumnGeneration::Identity => Some(SequenceKind::Identity),
        ColumnGeneration::Ordinary => None,
    }
}

pub open spec fn ids_of(list: Seq<ImplicitSequenceView>) -> Set<ObjectIdView> {
    list.map_values(|s: ImplicitSequenceView| s.id).to_set()
}

/// The sequences of the first `n` columns.
pub open spec fn implicit_sequences(d: StateData, create: CreateTable, n: nat) -> Seq<ImplicitSequenceView>
    decreases n,
{
    if n == 0 {
        Seq::empty()
    } else {
        let before = implicit_sequences(d, create, (n - 1) as nat);
        let column = create.columns@[n - 1];
        match sequence_kind(column.generation) {
            Some(kind) => before.push(
                ImplicitSequenceView { id: implicit_sequence(d, create.id@, column.name@, ids_of(before)), column: column.name@, kind },
            ),
            None => before,
        }
    }
}

// ---------------------------------------------------------------------------
// The table
// ---------------------------------------------------------------------------

/// What was decided about a table before anything is changed.
pub struct TablePlan {
    pub fk_columns: Vec<Vec<String>>,
    pub names: Vec<String>,
    pub sequences: Vec<ImplicitSequence>,
}

pub struct TablePlanView {
    pub fk_columns: Seq<Seq<Seq<char>>>,
    pub names: Seq<Seq<char>>,
    pub sequences: Seq<ImplicitSequenceView>,
}

impl View for TablePlan {
    type V = TablePlanView;

    open spec fn view(&self) -> TablePlanView {
        TablePlanView { fk_columns: self.fk_columns.deep_view(), names: self.names.deep_view(), sequences: self.sequences.deep_view() }
    }
}

/// The strategy in the text of a `PARTITION BY` clause.
pub open spec fn partition_strategy(text: Seq<char>) -> Option<Seq<char>> {
    match nth_word(text, 2) {
        Some(word) => Some(uppercase_of(word.take(first_index(word, '(')))),
        None => None,
    }
}

/// How a table is partitioned: as it says, or as its parent is.
pub open spec fn table_partition_type(d: StateData, create: CreateTable) -> Option<Seq<char>> {
    let own = match create.partition_by {
        Some(text) => partition_strategy(text@),
        None => None,
    };
    if own is Some {
        own
    } else {
        match create.partition_of {
            Some(parent) => if present(d.relations, parent@) {
                state_of(d.relations, parent@).partition_type
            } else {
                None
            },
            None => None,
        }
    }
}

pub open spec fn is_primary_column(create: CreateTable, c: ColumnMutation) -> bool {
    c.is_primary_key || exists|i: int|
        0 <= i < primary_constraints(create).len() && #[trigger] constraint_columns(primary_constraints(create)[i]).contains(c.name@)
}

pub open spec fn table_column(d: StateData, create: CreateTable, c: ColumnMutation) -> ColumnView {
    ColumnView {
        name: c.name@,
        data_type: c.ty.deep_view(),
        type_id: optional_type(d, c.ty.deep_view()),
        is_nullable: !(c.not_null || is_primary_column(create, c)),
        default: c.default.deep_view(),
        avg_width: None,
        default_expr_text: None,
        type_modifier: None,
    }
}

/// The call that draws the next value of a sequence.
pub open spec fn nextval_call(id: ObjectIdView) -> ExprIrView {
    ExprIrView::FunctionCall { name: "nextval"@, args: seq![ExprIrView::Literal(id.schema + "."@ + id.name)] }
}

pub open spec fn nextval_text(id: ObjectIdView) -> Seq<char> {
    "nextval('"@ + id.schema + "."@ + id.name + "'::regclass)"@
}

/// The columns with the defaults that draw from the first `n` sequences.
pub open spec fn with_sequence_defaults(columns: Seq<ColumnView>, sequences: Seq<ImplicitSequenceView>, n: nat) -> Seq<ColumnView>
    decreases n,
{
    if n == 0 {
        columns
    } else {
        let s = sequences[n - 1];
        with_sequence_default(with_sequence_defaults(columns, sequences, (n - 1) as nat), s.column, nextval_call(s.id), nextval_text(s.id))
    }
}

pub open spec fn persistence_of(p: PersistenceMutation) -> Persistence {
    match p {
        PersistenceMutation::Permanent => Persistence::Permanent,
        PersistenceMutation::Temporary => Persistence::Temporary,
        PersistenceMutation::Unlogged => Persistence::Unlogged,
    }
}

pub open spec fn table_state(d: StateData, create: CreateTable, plan: TablePlanView, depth: u64) -> RelationStateView {
    RelationStateView {
        columns: with_sequence_defaults(
            create.columns@.map_values(|c: ColumnMutation| table_column(d, create, c)),
            plan.sequences,
            plan.sequences.len(),
        ),
        partition_type: table_partition_type(d, create),
        partition_by: create.partition_by.deep_view(),
        ..new_relation(
            create.id@,
            role_object(d.current_role),
            (d.generation_counter + 1) as u64,
            if create.as_select {
                None
            } else {
                Some(0)
            },
            RelationKind::Table,
            persistence_of(create.persistence),
            depth,
        )
    }
}

pub open spec fn implicit_state(d: StateData, create: CreateTable, s: ImplicitSequenceView, i: nat) -> SequenceStateView {
    SequenceStateView {
        id: s.id,
        owner: role_object(d.current_role),
        owned_by: Some((create.id@, s.column)),
        kind: s.kind,
        generation: (d.generation_counter + 2 + i) as u64,
    }
}

/// The sequences with the first `n` implicit ones.
pub open spec fn with_implicit(d: StateData, create: CreateTable, list: Seq<ImplicitSequenceView>, n: nat) -> Map<ObjectIdView, Overlay<SequenceStateView>>
    decreases n,
{
    if n == 0 {
        d.sequences
    } else {
        with_implicit(d, create, list, (n - 1) as nat).insert(
            list[n - 1].id,
            Overlay::Present(implicit_state(d, create, list[n - 1], (n - 1) as nat)),
        )
    }
}

pub open spec fn table_constraint(id: ObjectIdView, name: Seq<char>, kind: ConstraintKind) -> ConstraintStateView {
    ConstraintStateView { table_id: id, name, kind, validated: true, backing_index: None }
}

/// The constraints with the first `n` of the table.
pub open spec fn with_table_constraints(
    m: Map<(ObjectIdView, Seq<char>), ConstraintStateView>,
    id: ObjectIdView,
    requests: Seq<NameRequestView>,
    names: Seq<Seq<char>>,
    n: nat,
) -> Map<(ObjectIdView, Seq<char>), ConstraintStateView>
    decreases n,
{
    if n == 0 {
        m
    } else {
        with_table_constraints(m, id, requests, names, (n - 1) as nat).insert(
            (id, names[n - 1]),
            table_constraint(id, names[n - 1], requests[n - 1].kind),
        )
    }
}

pub open spec fn sequence_edges(create: CreateTable, list: Seq<ImplicitSequenceView>) -> Seq<DependencyEdgeView> {
    list.map_values(|s: ImplicitSequenceView| edge(s.id, create.id@, DependencyKindView::SequenceOwnedBy { column: s.column }))
}

/// The edges of unique keys, whose names start at position `at`.
pub open spec fn unique_edges(create: CreateTable, names: Seq<Seq<char>>, at: int) -> Seq<DependencyEdgeView> {
    Seq::new(
        uniques(create).len(),
        |i: int|
            edge(
                create.id@,
                create.id@,
                DependencyKindView::ConstraintOnRelation { constraint_name: names[at + i], columns: uniques(create)[i].1, is_primary: false },
            ),
    )
}

pub open spec fn partition_edge(create: CreateTable) -> Seq<DependencyEdgeView> {
    match create.partition_of {
        Some(parent) => seq![edge(create.id@, parent@, DependencyKindView::PartitionOf)],
        None => Seq::empty(),
    }
}

pub open spec fn fk_edges(create: CreateTable, plan: TablePlanView, generation: u64, at: int) -> Seq<DependencyEdgeView> {
    Seq::new(
        create.foreign_keys@.len(),
        |i: int|
            edge(
                create.id@,
                create.foreign_keys@[i].to_table@,
                DependencyKindView::ForeignKey {
                    constraint_name: Some(plan.names[at + i]),
                    from_columns: create.foreign_keys@[i].from_columns.deep_view(),
                    to_columns: plan.fk_columns[i],
                    operator_evidence: None,
                    from_generation: generation,
                },
            ),
    )
}

pub open spec fn is_complete(c: TableConstraintFactView) -> bool {
    match c {
        TableConstraintFactView::Check { columns_complete, .. } => columns_complete,
        TableConstraintFactView::Exclude { columns_complete, .. } => columns_complete,
        _ => true,
    }
}

/// The edges of the first `n` check and exclusion constraints: those whose
/// columns are all known have one.
pub open spec fn inline_edges(create: CreateTable, names: Seq<Seq<char>>, at: int, n: nat) -> Seq<DependencyEdgeView>
    decreases n,
{
    if n == 0 {
        Seq::empty()
    } else {
        let before = inline_edges(create, names, at, (n - 1) as nat);
        let c = inlines(create)[n - 1];
        if is_complete(c) {
            before.push(
                edge(
                    create.id@,
                    create.id@,
                    DependencyKindView::ConstraintDependency { constraint_name: names[at + n - 1], columns: constraint_columns(c) },
                ),
            )
        } else {
            before
        }
    }
}

pub open spec fn primary_edge(create: CreateTable, names: Seq<Seq<char>>) -> Seq<DependencyEdgeView> {
    if primary_request(create).len() > 0 {
        seq![
            edge(
                create.id@,
                create.id@,
                DependencyKindView::ConstraintOnRelation { constraint_name: names[0], columns: primary_key_columns(create), is_primary: true },
            ),
        ]
    } else {
        Seq::empty()
    }
}

/// The edges of a table, in the order in which they are recorded.
pub open spec fn table_edges(create: CreateTable, plan: TablePlanView, generation: u64) -> Seq<DependencyEdgeView> {
    let a = primary_request(create).len() as int;
    let b = a + uniques(create).len();
    let c = b + create.foreign_keys@.len();
    sequence_edges(create, plan.sequences) + unique_edges(create, plan.names, a) + partition_edge(create) + fk_edges(create, plan, generation, b)
        + inline_edges(create, plan.names, c, inlines(create).len()) + primary_edge(create, plan.names)
}

/// The namespace with a new table.
#[verifier::opaque]
pub open spec fn namespace_with_table(d: StateData, n: NamespaceSnapshotView, create: CreateTable, plan: TablePlanView, depth: u64) -> NamespaceSnapshotView {
    let requests = name_requests(create);
    NamespaceSnapshotView {
        relations: d.relations.insert(create.id@, Overlay::Present(table_state(d, create, plan, depth))),
        sequences: with_implicit(d, create, plan.sequences, plan.sequences.len()),
        constraints: with_table_constraints(d.constraints, create.id@, requests, plan.names, requests.len()),
        graph: d.graph + table_edges(create, plan, (d.generation_counter + 1) as u64),
        ..n
    }
}

/// The data with a new table.
#[verifier::opaque]
pub open spec fn with_table(d: StateData, create: CreateTable, plan: TablePlanView, depth: u64) -> StateData {
    let d1 = with_namespace(d, namespace_with_table(d, namespace_of(d), create, plan, depth));
    StateData { generation_counter: (d.generation_counter + 1 + plan.sequences.len()) as u64, ..d1 }
}

pub open spec fn has_incomplete(create: CreateTable) -> bool {
    exists|i: int| 0 <= i < inlines(create).len() && !is_complete(#[trigger] inlines(create)[i])
}

/// The data after a table was added. The columns of a table that is made from a
/// query are not modeled.
#[verifier::opaque]
pub open spec fn table_added(d: StateData, create: CreateTable, plan: TablePlanView, depth: u64) -> StateData {
    let d1 = tainted_if(d, create.as_select, EvidenceCode::UnsupportedSemantics, EvidenceScope::Chain);
    tainted_if(with_table(d1, create, plan, depth), has_incomplete(create), EvidenceCode::CatalogCoverageIncomplete, EvidenceScope::Chain)
}

pub open spec fn table_plan(d: StateData, create: CreateTable, names: Seq<Seq<char>>) -> TablePlanView {
    TablePlanView { fk_columns: fk_columns(d, create), names, sequences: implicit_sequences(d, create, create.columns@.len()) }
}

/// What planning a table leads to: whether something about its foreign keys
/// could not be checked, and the plan or why there is none.
#[verifier::opaque]
pub open spec fn table_planned(d: StateData, create: CreateTable) -> (bool, Result<TablePlanView, RefusalView>) {
    let stop = first_refused_fk(d, create, 0);
    let gap = fk_gap(d, create, stop);
    if stop < create.foreign_keys@.len() {
        (gap, Err(fk_checked(d, create, create.foreign_keys@[stop as int]).refusal->0))
    } else {
        match chosen_names(d, create.id@, name_requests(create), Seq::empty()) {
            Ok(names) => (gap, Ok(table_plan(d, create, names))),
            Err(name) => (gap, Err(RefusalView::Conflict("constraint '"@ + name + "' is specified more than once"@))),
        }
    }
}

/// `CREATE TABLE`.
pub open spec fn table_created(d: StateData, create: CreateTable, depth: u64) -> (StateData, MutationResultView) {
    if table_refusal(d, create) is Some {
        refused(d, table_refusal(d, create)->0)
    } else {
        let (gap, plan) = table_planned(d, create);
        let d1 = tainted_if(d, gap, EvidenceCode::CatalogCoverageIncomplete, EvidenceScope::Chain);
        match plan {
            Err(refusal) => refused(d1, refusal),
            Ok(plan) => (table_added(d1, create, plan, depth), MutationResultView::Applied),
        }
    }
}

/// A table that was created is present, with the columns that the statement
/// lists, and every other relation is as it was.
pub proof fn law_created_table_is_present(d: StateData, create: CreateTable, depth: u64)
    requires
        table_created(d, create, depth).1 is Applied,
    ensures
        present(table_created(d, create, depth).0.relations, create.id@),
        ({
            let table = state_of(table_created(d, create, depth).0.relations, create.id@);
            &&& table.kind is Table
            &&& table.owner == role_object(d.current_role)
            &&& table.columns.len() == create.columns@.len()
            &&& forall|i: int| 0 <= i < table.columns.len() ==> (#[trigger] table.columns[i]).name == create.columns@[i].name@
        }),
        forall|id: ObjectIdView|
            id != create.id@ ==> #[trigger] looked_up(table_created(d, create, depth).0.relations, id) == looked_up(d.relations, id),
{
    reveal(refused);
    let (gap, plan) = table_planned(d, create);
    let d1 = tainted_if(d, gap, EvidenceCode::CatalogCoverageIncomplete, EvidenceScope::Chain);
    let d2 = tainted_if(d1, create.as_select, EvidenceCode::UnsupportedSemantics, EvidenceScope::Chain);
    let plan = plan->Ok_0;
    let columns = create.columns@.map_values(|c: ColumnMutation| table_column(d2, create, c));
    lemma_taint_keeps_relations(d, gap, EvidenceCode::CatalogCoverageIncomplete);
    lemma_taint_keeps_relations(d1, create.as_select, EvidenceCode::UnsupportedSemantics);
    lemma_added_relations(d1, create, plan, depth);
    lemma_defaults_keep_names(columns, plan.sequences, plan.sequences.len());
}

proof fn lemma_taint_keeps_relations(d: StateData, gap: bool, code: EvidenceCode)
    ensures
        tainted_if(d, gap, code, EvidenceScope::Chain).relations == d.relations,
        tainted_if(d, gap, code, EvidenceScope::Chain).current_role == d.current_role,
{
    reveal(tainted_if);
    reveal(tainted);
}

proof fn lemma_added_relations(d: StateData, create: CreateTable, plan: TablePlanView, depth: u64)
    ensures
        ({
            let d1 = tainted_if(d, create.as_select, EvidenceCode::UnsupportedSemantics, EvidenceScope::Chain);
            table_added(d, create, plan, depth).relations == d1.relations.insert(create.id@, Overlay::Present(table_state(d1, create, plan, depth)))
        }),
{
    reveal(table_added);
    reveal(with_table);
    reveal(namespace_with_table);
    reveal(undone);
    let d1 = tainted_if(d, create.as_select, EvidenceCode::UnsupportedSemantics, EvidenceScope::Chain);
    lemma_taint_keeps_relations(with_table(d1, create, plan, depth), has_incomplete(create), EvidenceCode::CatalogCoverageIncomplete);
}

proof fn lemma_defaults_keep_names(columns: Seq<ColumnView>, sequences: Seq<ImplicitSequenceView>, n: nat)
    ensures
        with_sequence_defaults(columns, sequences, n).len() == columns.len(),
        forall|i: int| 0 <= i < columns.len() ==> (#[trigger] with_sequence_defaults(columns, sequences, n)[i]).name == columns[i].name,
    decreases n,
{
    if n > 0 {
        lemma_defaults_keep_names(columns, sequences, (n - 1) as nat);
    }
}

// ---------------------------------------------------------------------------
// Reading the statement
// ---------------------------------------------------------------------------

fn column_names_of(create: &CreateTable) -> (r: Vec<String>)
    ensures
        r.deep_view() == column_names(*create),
{
    let make = |c: &ColumnMutation| -> (x: String)
        ensures
            x@ == c.name@,
        { c.name.clone() };
    each(&create.columns, make, Ghost(|c: ColumnMutation| c.name@))
}

fn primary_columns_of(create: &CreateTable) -> (r: Vec<String>)
    ensures
        r.deep_view() == primary_columns(*create),
{
    let keep = |c: &ColumnMutation| -> (b: bool)
        ensures
            b == c.is_primary_key,
        { c.is_primary_key };
    let make = |c: &ColumnMutation| -> (x: String)
        ensures
            x@ == c.name@,
        { c.name.clone() };
    pick(&create.columns, keep, make, Ghost(|c: ColumnMutation| c.is_primary_key), Ghost(|c: ColumnMutation| c.name@))
}

fn primary_constraints_of(create: &CreateTable) -> (r: Vec<TableConstraintFact>)
    ensures
        r.deep_view() == primary_constraints(*create),
{
    let keep = |c: &TableConstraintFact| -> (b: bool)
        ensures
            b == is_primary_constraint(c.deep_view()),
        {
            match c {
                TableConstraintFact::PrimaryKey { .. } => true,
                _ => false,
            }
        };
    vec_filter(&create.table_constraints, keep, Ghost(|c: TableConstraintFactView| is_primary_constraint(c)))
}

fn columns_of_constraint(c: &TableConstraintFact) -> (r: &Vec<String>)
    ensures
        r.deep_view() == constraint_columns(c.deep_view()),
{
    match c {
        TableConstraintFact::PrimaryKey { columns, .. } => columns,
        TableConstraintFact::Unique { columns, .. } => columns,
        TableConstraintFact::Check { columns, .. } => columns,
        TableConstraintFact::Exclude { columns, .. } => columns,
    }
}

fn explicit_name_of(c: &TableConstraintFact) -> (r: &Option<String>)
    ensures
        r.deep_view() == explicit_name(c.deep_view()),
{
    match c {
        TableConstraintFact::PrimaryKey { constraint_name, .. } => constraint_name,
        TableConstraintFact::Unique { constraint_name, .. } => constraint_name,
        TableConstraintFact::Check { constraint_name, .. } => constraint_name,
        TableConstraintFact::Exclude { constraint_name, .. } => constraint_name,
    }
}

fn primary_key_columns_of(create: &CreateTable) -> (r: Vec<String>)
    ensures
        r.deep_view() == primary_key_columns(*create),
{
    let list = primary_constraints_of(create);
    if list.len() > 0 {
        assert(list.deep_view()[0] == list@[0].deep_view());
        return columns_of_constraint(&list[0]).dup();
    }
    primary_columns_of(create)
}

fn unique_columns_of(create: &CreateTable) -> (r: Vec<(Option<String>, Vec<String>)>)
    ensures
        r.deep_view() == unique_columns(*create),
{
    let keep = |c: &ColumnMutation| -> (b: bool)
        ensures
            b == c.is_unique,
        { c.is_unique };
    let make = |c: &ColumnMutation| -> (x: (Option<String>, Vec<String>))
        ensures
            x.deep_view() == (c.unique_constraint_name.deep_view(), seq![c.name@]),
        {
            let mut columns: Vec<String> = Vec::new();
            columns.push(c.name.clone());
            assert(columns.deep_view() =~= seq![c.name@]);
            (c.unique_constraint_name.dup(), columns)
        };
    pick(
        &create.columns,
        keep,
        make,
        Ghost(|c: ColumnMutation| c.is_unique),
        Ghost(|c: ColumnMutation| (c.unique_constraint_name.deep_view(), seq![c.name@])),
    )
}

fn unique_constraints_of(create: &CreateTable) -> (r: Vec<(Option<String>, Vec<String>)>)
    ensures
        r.deep_view() == unique_constraints(*create),
{
    let keep = |c: &TableConstraintFact| -> (b: bool)
        ensures
            b == (c.deep_view() is Unique),
        {
            match c {
                TableConstraintFact::Unique { .. } => true,
                _ => false,
            }
        };
    let list = vec_filter(&create.table_constraints, keep, Ghost(|c: TableConstraintFactView| c is Unique));
    let make = |c: &TableConstraintFact| -> (x: (Option<String>, Vec<String>))
        ensures
            x.deep_view() == (explicit_name(c.deep_view()), constraint_columns(c.deep_view())),
        { (explicit_name_of(c).dup(), columns_of_constraint(c).dup()) };
    vec_map(&list, make, Ghost(|c: TableConstraintFactView| (explicit_name(c), constraint_columns(c))))
}

fn uniques_of(create: &CreateTable) -> (r: Vec<(Option<String>, Vec<String>)>)
    ensures
        r.deep_view() == uniques(*create),
{
    concat(unique_columns_of(create), unique_constraints_of(create))
}

fn inlines_of(create: &CreateTable) -> (r: Vec<TableConstraintFact>)
    ensures
        r.deep_view() == inlines(*create),
{
    let keep = |c: &TableConstraintFact| -> (b: bool)
        ensures
            b == is_inline(c.deep_view()),
        {
            match c {
                TableConstraintFact::Check { .. } => true,
                TableConstraintFact::Exclude { .. } => true,
                _ => false,
            }
        };
    vec_filter(&create.table_constraints, keep, Ghost(|c: TableConstraintFactView| is_inline(c)))
}

fn has_several_primary_keys(create: &CreateTable) -> (r: bool)
    ensures
        r == (primary_declarations(*create) > 1),
{
    let a = primary_columns_of(create).len();
    let b = primary_constraints_of(create).len();
    a > 1 || b > 1 || (a == 1 && b == 1)
}

fn has_one_primary_key(create: &CreateTable) -> (r: bool)
    ensures
        r == (primary_declarations(*create) == 1),
{
    let a = primary_columns_of(create).len();
    let b = primary_constraints_of(create).len();
    (a == 1 && b == 0) || (a == 0 && b == 1)
}

// ---------------------------------------------------------------------------
// Refusals
// ---------------------------------------------------------------------------

pub(crate) fn refuse_key_columns(columns: &Vec<String>, names: &Vec<String>, names_known: bool, id: &ObjectId) -> (r: Option<Refusal>)
    ensures
        r.deep_view() == key_columns_refusal(columns.deep_view(), names.deep_view(), names_known, id@),
{
    if columns.len() == 0 {
        return Some(Refusal::Conflict("key constraint must name at least one column".to_string()));
    }
    let ghost list = columns.deep_view();
    let mut seen: Vec<String> = Vec::new();
    let mut i: usize = 0;
    assert(seen.deep_view() =~= list.take(0));
    while i < columns.len()
        invariant
            i <= columns.len(),
            columns.len() > 0,
            list == columns.deep_view(),
            seen.deep_view() == list.take(i as int),
            first_bad_key_column(list, names.deep_view(), names_known, 0) == first_bad_key_column(list, names.deep_view(), names_known, i as nat),
        decreases columns.len() - i,
    {
        assert(list[i as int] == columns@[i as int]@);
        if vec_contains(&seen, &columns[i]) {
            return Some(Refusal::Conflict(join3("column '", &columns[i], "' appears more than once in a key constraint")));
        }
        if names_known && !vec_contains(names, &columns[i]) {
            return Some(
                Refusal::Conflict(
                    join5("constraint references column '", &columns[i], "' which does not exist on relation '", &id.show(), "'"),
                ),
            );
        }
        let ghost before = seen.deep_view();
        seen.push(columns[i].clone());
        assert(seen.deep_view() =~= before.push(list[i as int]));
        assert(list.take(i + 1) =~= list.take(i as int).push(list[i as int]));
        i = i + 1;
    }
    None
}

fn refuse_constraint(create: &CreateTable, names: &Vec<String>, c: &TableConstraintFact) -> (r: Option<Refusal>)
    requires
        names.deep_view() == column_names(*create),
    ensures
        r.deep_view() == table_constraint_refusal(*create, c.deep_view()),
{
    match c {
        TableConstraintFact::PrimaryKey { columns, .. } => refuse_key_columns(columns, names, true, &create.id),
        TableConstraintFact::Unique { columns, .. } => refuse_key_columns(columns, names, true, &create.id),
        _ => None,
    }
}

fn refuse_constraints(create: &CreateTable) -> (r: Option<Refusal>)
    ensures
        r.deep_view() == constraints_refusal(*create, 0),
{
    let names = column_names_of(create);
    let mut i: usize = 0;
    while i < create.table_constraints.len()
        invariant
            i <= create.table_constraints.len(),
            names.deep_view() == column_names(*create),
            constraints_refusal(*create, 0) == constraints_refusal(*create, i as nat),
        decreases create.table_constraints.len() - i,
    {
        assert(create.table_constraints.deep_view()[i as int] == create.table_constraints@[i as int].deep_view());
        let refusal = refuse_constraint(create, &names, &create.table_constraints[i]);
        if refusal.is_some() {
            return refusal;
        }
        i = i + 1;
    }
    None
}

fn refuse_parts(create: &CreateTable) -> (r: Option<Refusal>)
    ensures
        r.deep_view() == parts_refusal(*create),
{
    let names = column_names_of(create);
    let repeated = crate::state::foreign_keys::find_repeated(&names);
    if repeated < names.len() {
        assert(names.deep_view()[repeated as int] == names@[repeated as int]@);
        return Some(Refusal::Conflict(join3("column '", &names[repeated], "' specified more than once")));
    }
    if has_several_primary_keys(create) {
        return Some(Refusal::Conflict("multiple primary keys for table are not allowed".to_string()));
    }
    refuse_constraints(create)
}

// ---------------------------------------------------------------------------
// Names
// ---------------------------------------------------------------------------

fn own_keys_of(create: &CreateTable) -> (r: Vec<(Vec<String>, bool)>)
    ensures
        r.deep_view() == own_keys(*create),
{
    let mut keys: Vec<(Vec<String>, bool)> = Vec::new();
    assert(keys.deep_view() =~= Seq::<KeyView>::empty());
    if has_one_primary_key(create) {
        let columns = primary_key_columns_of(create);
        let ghost c = columns.deep_view();
        keys.push((columns, true));
        assert(keys.deep_view() =~= seq![(c, true)]);
    }
    let list = concat(unique_constraints_of(create), unique_columns_of(create));
    let make = |u: &(Option<String>, Vec<String>)| -> (x: (Vec<String>, bool))
        ensures
            x.deep_view() == (u.deep_view().1, false),
        { (u.1.dup(), false) };
    let rest = vec_map(&list, make, Ghost(|u: UniqueView| (u.1, false)));
    concat(keys, rest)
}

pub(crate) fn label_for(kind: ConstraintKind) -> (r: &'static str)
    ensures
        r@ == label_of(kind),
        is_label(r@),
{
    proof {
        reveal_strlit("pkey");
        reveal_strlit("key");
        reveal_strlit("fkey");
        reveal_strlit("check");
        reveal_strlit("excl");
        reveal_strlit("null");
    }
    match kind {
        ConstraintKind::PrimaryKey => "pkey",
        ConstraintKind::Unique => "key",
        ConstraintKind::ForeignKey => "fkey",
        ConstraintKind::Check => "check",
        ConstraintKind::Exclusion => "excl",
        ConstraintKind::NotNull => "null",
    }
}

fn primary_request_of(create: &CreateTable) -> (r: Vec<NameRequest>)
    ensures
        r.deep_view() == primary_request(*create),
{
    let mut out: Vec<NameRequest> = Vec::new();
    let keep = |c: &ColumnMutation| -> (b: bool)
        ensures
            b == c.is_primary_key,
        { c.is_primary_key };
    let make = |c: &ColumnMutation| -> (x: Option<String>)
        ensures
            x.deep_view() == c.primary_key_constraint_name.deep_view(),
        { c.primary_key_constraint_name.dup() };
    let columns = pick(
        &create.columns,
        keep,
        make,
        Ghost(|c: ColumnMutation| c.is_primary_key),
        Ghost(|c: ColumnMutation| c.primary_key_constraint_name.deep_view()),
    );
    let list = primary_constraints_of(create);
    proof {
        let picked = create.columns@.filter(|c: ColumnMutation| c.is_primary_key);
        assert(columns.deep_view().len() == picked.len());
        if picked.len() > 0 {
            assert(columns.deep_view()[0] == picked[0].primary_key_constraint_name.deep_view());
        }
    }
    if columns.len() > 0 {
        assert(columns.deep_view()[0] == columns@[0].deep_view());
        let request = NameRequest { explicit: columns[0].dup(), second: None, kind: ConstraintKind::PrimaryKey };
        let ghost v = request@;
        out.push(request);
        assert(out.deep_view() =~= seq![v]);
    } else if list.len() > 0 {
        assert(list.deep_view()[0] == list@[0].deep_view());
        let request = NameRequest { explicit: explicit_name_of(&list[0]).dup(), second: None, kind: ConstraintKind::PrimaryKey };
        let ghost v = request@;
        out.push(request);
        assert(out.deep_view() =~= seq![v]);
    } else {
        assert(out.deep_view() =~= Seq::<NameRequestView>::empty());
    }
    out
}

fn name_requests_of(create: &CreateTable) -> (r: Vec<NameRequest>)
    ensures
        r.deep_view() == name_requests(*create),
{
    let unique = |u: &(Option<String>, Vec<String>)| -> (x: NameRequest)
        ensures
            x@ == unique_request(u.deep_view()),
        { NameRequest { explicit: u.0.dup(), second: Some(join_all(&u.1, "_")), kind: ConstraintKind::Unique } };
    let fk = |fk: &FkMutation| -> (x: NameRequest)
        ensures
            x@ == fk_request(*fk),
        { NameRequest { explicit: fk.constraint_name.dup(), second: Some(join_all(&fk.from_columns, "_")), kind: ConstraintKind::ForeignKey } };
    let inline = |c: &TableConstraintFact| -> (x: NameRequest)
        ensures
            x@ == inline_request(c.deep_view()),
        {
            NameRequest {
                explicit: explicit_name_of(c).dup(),
                second: None,
                kind: match c {
                    TableConstraintFact::Check { .. } => ConstraintKind::Check,
                    _ => ConstraintKind::Exclusion,
                },
            }
        };
    let a = primary_request_of(create);
    let b = vec_map(&uniques_of(create), unique, Ghost(|u: UniqueView| unique_request(u)));
    let c = each(&create.foreign_keys, fk, Ghost(|fk: FkMutation| fk_request(fk)));
    let d = vec_map(&inlines_of(create), inline, Ghost(|c: TableConstraintFactView| inline_request(c)));
    concat(concat(concat(a, b), c), d)
}

// ---------------------------------------------------------------------------
// Edges
// ---------------------------------------------------------------------------

fn sequence_edges_of(create: &CreateTable, list: &Vec<ImplicitSequence>) -> (r: Vec<DependencyEdge>)
    ensures
        r.deep_view() == sequence_edges(*create, list.deep_view()),
{
    let make = |s: &ImplicitSequence| -> (e: DependencyEdge)
        ensures
            e@ == edge(s@.id, create.id@, DependencyKindView::SequenceOwnedBy { column: s@.column }),
        { DependencyEdge::new(s.id.dup(), create.id.dup(), DependencyKind::SequenceOwnedBy { column: s.column.clone() }) };
    vec_map(
        list,
        make,
        Ghost(|s: ImplicitSequenceView| edge(s.id, create.id@, DependencyKindView::SequenceOwnedBy { column: s.column })),
    )
}

fn unique_edges_of(create: &CreateTable, names: &Vec<String>, at: usize) -> (r: Vec<DependencyEdge>)
    requires
        at + uniques(*create).len() <= names.len(),
    ensures
        r.deep_view() == unique_edges(*create, names.deep_view(), at as int),
{
    let list = uniques_of(create);
    let mut out: Vec<DependencyEdge> = Vec::new();
    let mut i: usize = 0;
    while i < list.len()
        invariant
            i <= list.len(),
            out.len() == i,
            list.deep_view() == uniques(*create),
            at + list.len() <= names.len(),
            forall|j: int| 0 <= j < i ==> #[trigger] out@[j]@ == unique_edges(*create, names.deep_view(), at as int)[j],
        decreases list.len() - i,
    {
        assert(list.deep_view()[i as int] == list@[i as int].deep_view());
        assert(names.deep_view()[at + i] == names@[at + i]@);
        out.push(
            DependencyEdge::new(
                create.id.dup(),
                create.id.dup(),
                DependencyKind::ConstraintOnRelation { constraint_name: names[at + i].clone(), columns: list[i].1.dup(), is_primary: false },
            ),
        );
        i = i + 1;
    }
    assert(out.deep_view() =~= unique_edges(*create, names.deep_view(), at as int));
    out
}

fn partition_edge_of(create: &CreateTable) -> (r: Vec<DependencyEdge>)
    ensures
        r.deep_view() == partition_edge(*create),
{
    let mut out: Vec<DependencyEdge> = Vec::new();
    if let Some(parent) = &create.partition_of {
        out.push(DependencyEdge::new(create.id.dup(), parent.dup(), DependencyKind::PartitionOf));
    }
    assert(out.deep_view() =~= partition_edge(*create));
    out
}

fn fk_edges_of(create: &CreateTable, plan: &TablePlan, generation: u64, at: usize) -> (r: Vec<DependencyEdge>)
    requires
        at + create.foreign_keys@.len() <= plan.names.len(),
        plan.fk_columns.len() == create.foreign_keys.len(),
    ensures
        r.deep_view() == fk_edges(*create, plan@, generation, at as int),
{
    let mut out: Vec<DependencyEdge> = Vec::new();
    let mut i: usize = 0;
    while i < create.foreign_keys.len()
        invariant
            i <= create.foreign_keys.len(),
            out.len() == i,
            at + create.foreign_keys@.len() <= plan.names.len(),
            plan.fk_columns.len() == create.foreign_keys.len(),
            forall|j: int| 0 <= j < i ==> #[trigger] out@[j]@ == fk_edges(*create, plan@, generation, at as int)[j],
        decreases create.foreign_keys.len() - i,
    {
        assert(plan@.names[at + i] == plan.names@[at + i]@);
        assert(plan@.fk_columns[i as int] == plan.fk_columns@[i as int].deep_view());
        let fk = &create.foreign_keys[i];
        out.push(
            DependencyEdge::new(
                create.id.dup(),
                fk.to_table.dup(),
                DependencyKind::ForeignKey {
                    constraint_name: Some(plan.names[at + i].clone()),
                    from_columns: fk.from_columns.dup(),
                    to_columns: plan.fk_columns[i].dup(),
                    operator_evidence: None,
                    from_generation: generation,
                },
            ),
        );
        i = i + 1;
    }
    assert(out.deep_view() =~= fk_edges(*create, plan@, generation, at as int));
    out
}

fn is_complete_constraint(c: &TableConstraintFact) -> (r: bool)
    ensures
        r == is_complete(c.deep_view()),
{
    match c {
        TableConstraintFact::Check { columns_complete, .. } => *columns_complete,
        TableConstraintFact::Exclude { columns_complete, .. } => *columns_complete,
        _ => true,
    }
}

fn inline_edges_of(create: &CreateTable, names: &Vec<String>, at: usize) -> (r: Vec<DependencyEdge>)
    requires
        at + inlines(*create).len() <= names.len(),
    ensures
        r.deep_view() == inline_edges(*create, names.deep_view(), at as int, inlines(*create).len()),
{
    let list = inlines_of(create);
    let mut out: Vec<DependencyEdge> = Vec::new();
    let mut i: usize = 0;
    assert(out.deep_view() =~= Seq::<DependencyEdgeView>::empty());
    while i < list.len()
        invariant
            i <= list.len(),
            list.deep_view() == inlines(*create),
            at + list.len() <= names.len(),
            out.deep_view() == inline_edges(*create, names.deep_view(), at as int, i as nat),
        decreases list.len() - i,
    {
        assert(list.deep_view()[i as int] == list@[i as int].deep_view());
        assert(names.deep_view()[at + i] == names@[at + i]@);
        let ghost before = out.deep_view();
        if is_complete_constraint(&list[i]) {
            let e = DependencyEdge::new(
                create.id.dup(),
                create.id.dup(),
                DependencyKind::ConstraintDependency { constraint_name: names[at + i].clone(), columns: columns_of_constraint(&list[i]).dup() },
            );
            let ghost v = e@;
            out.push(e);
            assert(out.deep_view() =~= before.push(v));
        }
        i = i + 1;
    }
    out
}

fn primary_edge_of(create: &CreateTable, names: &Vec<String>) -> (r: Vec<DependencyEdge>)
    requires
        primary_request(*create).len() <= names.len(),
    ensures
        r.deep_view() == primary_edge(*create, names.deep_view()),
{
    let mut out: Vec<DependencyEdge> = Vec::new();
    if primary_request_of(create).len() > 0 {
        assert(names.deep_view()[0] == names@[0]@);
        out.push(
            DependencyEdge::new(
                create.id.dup(),
                create.id.dup(),
                DependencyKind::ConstraintOnRelation {
                    constraint_name: names[0].clone(),
                    columns: primary_key_columns_of(create),
                    is_primary: true,
                },
            ),
        );
    }
    assert(out.deep_view() =~= primary_edge(*create, names.deep_view()));
    out
}

fn table_edges_of(create: &CreateTable, plan: &TablePlan, generation: u64) -> (r: Vec<DependencyEdge>)
    requires
        plan.names.len() == name_requests(*create).len(),
        plan.fk_columns.len() == create.foreign_keys.len(),
    ensures
        r.deep_view() == table_edges(*create, plan@, generation),
{
    let a = primary_request_of(create).len();
    let b = a + uniques_of(create).len();
    let c = b + create.foreign_keys.len();
    let x = concat(sequence_edges_of(create, &plan.sequences), unique_edges_of(create, &plan.names, a));
    let y = concat(concat(x, partition_edge_of(create)), fk_edges_of(create, plan, generation, b));
    concat(concat(y, inline_edges_of(create, &plan.names, c)), primary_edge_of(create, &plan.names))
}

// ---------------------------------------------------------------------------
// The table
// ---------------------------------------------------------------------------

pub(crate) fn strategy_of(text: &str) -> (r: Option<String>)
    ensures
        r.deep_view() == partition_strategy(text@),
{
    match find_word(text, 2) {
        Some(word) => {
            let at = index_of(&word, '(');
            let head = text_of(&word, 0, at);
            assert(word@.subrange(0, at as int) =~= word@.take(at as int));
            Some(to_uppercase(&head))
        },
        None => None,
    }
}

fn is_primary_column_of(create: &CreateTable, c: &ColumnMutation) -> (r: bool)
    ensures
        r == is_primary_column(*create, *c),
{
    if c.is_primary_key {
        return true;
    }
    let list = primary_constraints_of(create);
    let holds = |x: &TableConstraintFact| -> (b: bool)
        ensures
            b == constraint_columns(x.deep_view()).contains(c.name@),
        { vec_contains(columns_of_constraint(x), &c.name) };
    let ghost p = |x: TableConstraintFactView| constraint_columns(x).contains(c.name@);
    let r = vec_any(&list, holds, Ghost(p));
    proof {
        let s = primary_constraints(*create);
        if r {
            let i = choose|i: int| 0 <= i < s.len() && p(#[trigger] s[i]);
            assert(constraint_columns(s[i]).contains(c.name@));
        } else {
            assert forall|i: int| 0 <= i < s.len() implies !(#[trigger] constraint_columns(s[i]).contains(c.name@)) by {
                assert(!p(s[i]));
            }
        }
    }
    r
}

pub(crate) fn sequence_nextval_default(id: &ObjectId) -> (r: ExprIr)
    ensures
        r.deep_view() == nextval_call(id@),
{
    let mut args: Vec<ExprIr> = Vec::new();
    args.push(ExprIr::Literal(join3(&id.schema, ".", &id.name)));
    proof {
        crate::expr_ir::lemma_args_view(args, 1);
        assert(crate::expr_ir::args_view(args, 1) =~= seq![ExprIrView::Literal(id@.schema + "."@ + id@.name)]);
    }
    ExprIr::FunctionCall { name: "nextval".to_string(), args }
}

pub(crate) fn sequence_nextval_text(id: &ObjectId) -> (r: String)
    ensures
        r@ == nextval_text(id@),
{
    join5("nextval('", &id.schema, ".", &id.name, "'::regclass)")
}

fn persistence_for(p: &PersistenceMutation) -> (r: Persistence)
    ensures
        r == persistence_of(*p),
{
    match p {
        PersistenceMutation::Permanent => Persistence::Permanent,
        PersistenceMutation::Temporary => Persistence::Temporary,
        PersistenceMutation::Unlogged => Persistence::Unlogged,
    }
}

fn has_incomplete_constraint(create: &CreateTable) -> (r: bool)
    ensures
        r == has_incomplete(*create),
{
    let list = inlines_of(create);
    let incomplete = |c: &TableConstraintFact| -> (b: bool)
        ensures
            b == !is_complete(c.deep_view()),
        { !is_complete_constraint(c) };
    vec_any(&list, incomplete, Ghost(|c: TableConstraintFactView| !is_complete(c)))
}

impl AnalysisState {
    pub(crate) fn schema_refusal(&self, schema: &String) -> (r: Option<Refusal>)
        ensures
            r.deep_view() == schema_refusal(self@.data, schema@),
    {
        match self.schema_lookup(schema) {
            ObjectLookup::Present => None,
            ObjectLookup::Unknown => Some(Refusal::Unknown),
            _ => Some(Refusal::Conflict(join3("schema '", schema, "' does not exist"))),
        }
    }

    fn parent_refusal(&self, parent: &ObjectId) -> (r: Option<Refusal>)
        ensures
            r.deep_view() == parent_refusal(self@.data, parent@),
    {
        let shown = parent.show();
        let refusal = self.relation_refusal(
            parent,
            RelationFilter::Table,
            join3("partition parent relation '", &shown, "' does not exist"),
            join3("partition parent '", &shown, "' is not a table"),
        );
        if refusal.is_some() {
            return refusal;
        }
        if !self.is_partitioned(parent) {
            return Some(Refusal::Conflict(join3("partition parent '", &shown, "' is not partitioned")));
        }
        None
    }

    fn place_refusal(&self, create: &CreateTable) -> (r: Option<Refusal>)
        ensures
            r.deep_view() == place_refusal(self@.data, *create),
    {
        let refusal = self.schema_refusal(&create.id.schema);
        if refusal.is_some() {
            return refusal;
        }
        if self.relation_namespace_is_taken(&create.id) {
            return Some(
                if create.if_not_exists {
                    Refusal::NoEffect
                } else {
                    Refusal::Conflict(join3("relation '", &create.id.show(), "' already exists"))
                },
            );
        }
        None
    }

    fn table_refusal(&self, create: &CreateTable) -> (r: Option<Refusal>)
        ensures
            r.deep_view() == table_refusal(self@.data, *create),
    {
        proof {
            reveal(table_refusal);
        }
        let refusal = self.place_refusal(create);
        if refusal.is_some() {
            return refusal;
        }
        let refusal = refuse_parts(create);
        if refusal.is_some() {
            return refusal;
        }
        match &create.partition_of {
            Some(parent) => self.parent_refusal(parent),
            None => None,
        }
    }

    fn own_columns(&self, create: &CreateTable) -> (r: Vec<KeyColumn>)
        ensures
            r.deep_view() == own_columns(self@.data, *create),
    {
        let make = |c: &ColumnMutation| -> (x: KeyColumn)
            ensures
                x@ == (KeyColumnView {
                    name: c.name@,
                    type_id: optional_type(self@.data, c.ty.deep_view()),
                    data_type: c.ty.deep_view(),
                }),
            { KeyColumn { name: c.name.clone(), type_id: self.resolve_optional_type(&c.ty), data_type: c.ty.dup() } };
        let ghost d = self@.data;
        each(
            &create.columns,
            make,
            Ghost(
                |c: ColumnMutation|
                    KeyColumnView { name: c.name@, type_id: optional_type(d, c.ty.deep_view()), data_type: c.ty.deep_view() },
            ),
        )
    }

    fn check_fk(&self, create: &CreateTable, fk: &FkMutation) -> (r: KeyCheck)
        ensures
            r@ == fk_checked(self@.data, *create, *fk),
    {
        proof {
            reveal(fk_checked);
        }
        let k = KeyUse {
            table: create.id.dup(),
            to_table: fk.to_table.dup(),
            from_columns: fk.from_columns.dup(),
            to_columns: fk.to_columns.dup(),
        };
        let sources = self.own_columns(create);
        if fk.to_table.same(&create.id) {
            let own = KeyTarget {
                columns: self.own_columns(create),
                columns_known: !self.baseline_relation_is_known(&create.id) || create.columns.len() > 0,
                keys: Some(own_keys_of(create)),
            };
            self.check_foreign_key(&k, &sources, true, Some(&own))
        } else {
            self.check_foreign_key(&k, &sources, true, None)
        }
    }

    /// Checks the foreign keys up to the first that is refused.
    fn check_fks(&self, create: &CreateTable) -> (r: (bool, Option<Refusal>, Vec<Vec<String>>))
        ensures
            ({
                let d = self@.data;
                let stop = first_refused_fk(d, *create, 0);
                &&& r.0 == fk_gap(d, *create, stop)
                &&& match r.1 {
                    Some(refusal) => stop < create.foreign_keys@.len() && fk_checked(d, *create, create.foreign_keys@[stop as int]).refusal == Some(
                        refusal@,
                    ),
                    None => stop >= create.foreign_keys@.len() && r.2.deep_view() == fk_columns(d, *create),
                }
            }),
    {
        let ghost d = self@.data;
        let mut gap = false;
        let mut columns: Vec<Vec<String>> = Vec::new();
        let mut i: usize = 0;
        while i < create.foreign_keys.len()
            invariant
                i <= create.foreign_keys.len(),
                d == self@.data,
                first_refused_fk(d, *create, 0) == first_refused_fk(d, *create, i as nat),
                gap == fk_gap(d, *create, i as nat),
                columns.len() == i,
                forall|j: int| 0 <= j < i ==> #[trigger] columns@[j].deep_view() == fk_columns(d, *create)[j],
            decreases create.foreign_keys.len() - i,
        {
            let check = self.check_fk(create, &create.foreign_keys[i]);
            if let Some(refusal) = check.refusal {
                return (gap, Some(refusal), columns);
            }
            proof {
                let fk = create.foreign_keys@[i as int];
                assert(fk_gap(d, *create, (i + 1) as nat) == (gap || fk_checked(d, *create, fk).gap)) by {
                    if fk_gap(d, *create, (i + 1) as nat) && !fk_checked(d, *create, fk).gap {
                        let j = choose|j: int| 0 <= j < i + 1 && fk_checked(d, *create, #[trigger] create.foreign_keys@[j]).gap;
                        assert(fk_checked(d, *create, create.foreign_keys@[j]).gap);
                    }
                }
            }
            gap = gap || check.gap;
            columns.push(check.columns);
            i = i + 1;
        }
        assert(columns.deep_view() =~= fk_columns(d, *create));
        (gap, None, columns)
    }

    pub(crate) fn requested_name(&self, id: &ObjectId, request: &NameRequest, taken: &VecSet<String>) -> (r: String)
        ensures
            r@ == (match request@.explicit {
                Some(name) => name,
                None => constraint_name(self@.data, id@, id@.name, request@.second, label_of(request@.kind), taken@),
            }),
    {
        match &request.explicit {
            Some(name) => name.clone(),
            None => {
                let label = label_for(request.kind);
                match &request.second {
                    Some(second) => self.next_generated_constraint_name_avoiding(id, &id.name, Some(second), label, taken),
                    None => self.next_generated_constraint_name_avoiding(id, &id.name, None, label, taken),
                }
            },
        }
    }

    fn choose_names(&self, id: &ObjectId, requests: &Vec<NameRequest>) -> (r: Result<Vec<String>, String>)
        ensures
            match r {
                Ok(names) => chosen_names(self@.data, id@, requests.deep_view(), Seq::empty()) == Ok::<Seq<Seq<char>>, Seq<char>>(names.deep_view())
                    && names.len() == requests.len(),
                Err(name) => chosen_names(self@.data, id@, requests.deep_view(), Seq::empty()) == Err::<Seq<Seq<char>>, Seq<char>>(name@),
            },
    {
        let ghost d = self@.data;
        let ghost list = requests.deep_view();
        let mut names: Vec<String> = Vec::new();
        let mut taken: VecSet<String> = VecSet::new();
        proof {
            assert(names.deep_view() =~= Seq::<Seq<char>>::empty());
            assert(names.deep_view().to_set() =~= Set::<Seq<char>>::empty());
        }
        while names.len() < requests.len()
            invariant
                names.len() <= requests.len(),
                d == self@.data,
                list == requests.deep_view(),
                taken@ == names.deep_view().to_set(),
                chosen_names(d, id@, list, names.deep_view()) == chosen_names(d, id@, list, Seq::empty()),
            decreases requests.len() - names.len(),
        {
            let i = names.len();
            assert(list[i as int] == requests@[i as int]@);
            let name = self.requested_name(id, &requests[i], &taken);
            let ghost before = names.deep_view();
            assert(before.len() == i);
            assert(before.to_set().contains(name@) <==> before.contains(name@));
            if taken.contains(&name) {
                return Err(name);
            }
            taken.insert(name.clone());
            let ghost text = name@;
            names.push(name);
            proof {
                assert(names.deep_view() =~= before.push(text));
                assert forall|x: Seq<char>| before.push(text).to_set().contains(x) <==> before.to_set().insert(text).contains(x) by {
                    if x == text {
                        assert(before.push(text)[before.len() as int] == x);
                    }
                    if before.contains(x) {
                        let j = choose|j: int| 0 <= j < before.len() && before[j] == x;
                        assert(before.push(text)[j] == x);
                    }
                }
                assert(before.push(text).to_set() =~= before.to_set().insert(text));
            }
        }
        Ok(names)
    }

    fn implicit_sequences(&self, create: &CreateTable) -> (r: Vec<ImplicitSequence>)
        ensures
            r.deep_view() == implicit_sequences(self@.data, *create, create.columns@.len()),
            r.len() <= create.columns.len(),
    {
        let ghost d = self@.data;
        let mut out: Vec<ImplicitSequence> = Vec::new();
        let mut ids: VecSet<ObjectId> = VecSet::new();
        let mut i: usize = 0;
        proof {
            assert(out.deep_view() =~= Seq::<ImplicitSequenceView>::empty());
            assert(ids_of(out.deep_view()) =~= Set::<ObjectIdView>::empty());
        }
        while i < create.columns.len()
            invariant
                i <= create.columns.len(),
                out.len() <= i,
                d == self@.data,
                out.deep_view() == implicit_sequences(d, *create, i as nat),
                ids@ == ids_of(out.deep_view()),
            decreases create.columns.len() - i,
        {
            let column = &create.columns[i];
            let kind = match column.generation {
                ColumnGeneration::Serial => Some(SequenceKind::SerialLike),
                ColumnGeneration::Identity => Some(SequenceKind::Identity),
                ColumnGeneration::Ordinary => None,
            };
            if let Some(kind) = kind {
                let id = self.next_implicit_sequence_id(&create.id, &column.name, &ids);
                let ghost before = out.deep_view();
                ids.insert(id.dup());
                let s = ImplicitSequence { id, column: column.name.clone(), kind };
                let ghost v = s@;
                out.push(s);
                proof {
                    assert(out.deep_view() =~= before.push(v));
                    let a = before.map_values(|s: ImplicitSequenceView| s.id);
                    let b = before.push(v).map_values(|s: ImplicitSequenceView| s.id);
                    assert(b =~= a.push(v.id));
                    assert forall|x: ObjectIdView| b.to_set().contains(x) <==> a.to_set().insert(v.id).contains(x) by {
                        if x == v.id {
                            assert(b[a.len() as int] == x);
                        }
                        if a.contains(x) {
                            let j = choose|j: int| 0 <= j < a.len() && a[j] == x;
                            assert(b[j] == x);
                        }
                    }
                    assert(ids_of(before.push(v)) =~= ids_of(before).insert(v.id));
                }
            }
            i = i + 1;
        }
        out
    }

    fn plan_table(&self, create: &CreateTable) -> (r: (bool, Result<TablePlan, Refusal>))
        ensures
            ({
                let planned = table_planned(self@.data, *create);
                &&& r.0 == planned.0
                &&& match r.1 {
                    Ok(plan) => planned.1 == Ok::<TablePlanView, RefusalView>(plan@) && plan.names.len() == name_requests(*create).len()
                        && plan.fk_columns.len() == create.foreign_keys.len() && plan.sequences.len() <= create.columns.len(),
                    Err(refusal) => planned.1 == Err::<TablePlanView, RefusalView>(refusal@),
                }
            }),
    {
        proof {
            reveal(table_planned);
        }
        let (gap, refusal, columns) = self.check_fks(create);
        if let Some(refusal) = refusal {
            return (gap, Err(refusal));
        }
        let requests = name_requests_of(create);
        match self.choose_names(&create.id, &requests) {
            Err(name) => (gap, Err(Refusal::Conflict(join3("constraint '", &name, "' is specified more than once")))),
            Ok(names) => {
                let sequences = self.implicit_sequences(create);
                assert(requests.deep_view().len() == requests.len());
                assert(columns.deep_view().len() == columns.len());
                (gap, Ok(TablePlan { fk_columns: columns, names, sequences }))
            },
        }
    }

    fn partition_type_of(&self, create: &CreateTable) -> (r: Option<String>)
        ensures
            r.deep_view() == table_partition_type(self@.data, *create),
    {
        if let Some(text) = &create.partition_by {
            let own = strategy_of(text);
            if own.is_some() {
                return own;
            }
        }
        match &create.partition_of {
            Some(parent) => match self.present_relation(parent) {
                Some(relation) => relation.partition_type.dup(),
                None => None,
            },
            None => None,
        }
    }

    fn table_columns(&self, create: &CreateTable) -> (r: Vec<Column>)
        ensures
            r.deep_view() == create.columns@.map_values(|c: ColumnMutation| table_column(self@.data, *create, c)),
    {
        let make = |c: &ColumnMutation| -> (x: Column)
            ensures
                x@ == table_column(self@.data, *create, *c),
            {
                Column {
                    name: c.name.clone(),
                    data_type: c.ty.dup(),
                    type_id: self.resolve_optional_type(&c.ty),
                    is_nullable: !(c.not_null || is_primary_column_of(create, c)),
                    default: c.default.dup(),
                    avg_width: None,
                    default_expr_text: None,
                    type_modifier: None,
                }
            };
        let ghost d = self@.data;
        let r = each(&create.columns, make, Ghost(|c: ColumnMutation| table_column(d, *create, c)));
        assert(r.deep_view() =~= create.columns@.map_values(|c: ColumnMutation| table_column(self@.data, *create, c)));
        r
    }

    fn table_state(&self, create: &CreateTable, plan: &TablePlan, depth: usize) -> (r: RelationState)
        requires
            self@.data.generation_counter < u64::MAX,
        ensures
            r@ == table_state(self@.data, *create, plan@, depth as u64),
    {
        let ghost d = self@.data;
        let owner = ObjectId::new("", self.current_role());
        let rows: Option<u64> = if create.as_select {
            None
        } else {
            Some(0)
        };
        let generation = self.generation() + 1;
        let mut relation = RelationState::new(
            create.id.dup(),
            owner,
            generation,
            rows,
            RelationKind::Table,
            persistence_for(&create.persistence),
            depth,
        );
        relation.columns = self.table_columns(create);
        relation.partition_type = self.partition_type_of(create);
        relation.partition_by = create.partition_by.dup();
        let ghost base = relation@;
        let mut i: usize = 0;
        while i < plan.sequences.len()
            invariant
                i <= plan.sequences.len(),
                relation@ == (RelationStateView {
                    columns: with_sequence_defaults(base.columns, plan@.sequences, i as nat),
                    ..base
                }),
            decreases plan.sequences.len() - i,
        {
            assert(plan@.sequences[i as int] == plan.sequences@[i as int]@);
            let s = &plan.sequences[i];
            relation.set_sequence_default(&s.column, &sequence_nextval_default(&s.id), &sequence_nextval_text(&s.id));
            i = i + 1;
        }
        relation
    }

    fn with_implicit(&self, create: &CreateTable, list: &Vec<ImplicitSequence>) -> (r: VecMap<ObjectId, SequenceOverlay>)
        requires
            self@.data.generation_counter + 1 + list.len() <= u64::MAX,
        ensures
            r@ == with_implicit(self@.data, *create, list.deep_view(), list.deep_view().len()),
    {
        proof {
            reveal(data_of);
        }
        let ghost d = self@.data;
        let mut r = self.local.sequences.dup();
        let first = self.generation();
        let mut i: usize = 0;
        while i < list.len()
            invariant
                i <= list.len(),
                d == self@.data,
                first == d.generation_counter,
                d.generation_counter + 1 + list.len() <= u64::MAX,
                r@ == with_implicit(d, *create, list.deep_view(), i as nat),
            decreases list.len() - i,
        {
            assert(list.deep_view()[i as int] == list@[i as int]@);
            let s = &list[i];
            let state = SequenceState {
                id: s.id.dup(),
                owner: ObjectId::new("", self.current_role()),
                owned_by: Some((create.id.dup(), s.column.clone())),
                kind: s.kind,
                generation: first + 2 + i as u64,
            };
            r.insert(s.id.dup(), Overlay::Present(state));
            i = i + 1;
        }
        r
    }

    fn with_table_constraints(&self, id: &ObjectId, requests: &Vec<NameRequest>, names: &Vec<String>) -> (r: VecMap<(ObjectId, String), ConstraintState>)
        requires
            names.len() == requests.len(),
        ensures
            r@ == with_table_constraints(self@.data.constraints, id@, requests.deep_view(), names.deep_view(), requests.deep_view().len()),
    {
        proof {
            reveal(data_of);
        }
        let ghost m = self@.data.constraints;
        let mut r = self.local.constraints.dup();
        let mut i: usize = 0;
        while i < requests.len()
            invariant
                i <= requests.len(),
                names.len() == requests.len(),
                r@ == with_table_constraints(m, id@, requests.deep_view(), names.deep_view(), i as nat),
            decreases requests.len() - i,
        {
            assert(requests.deep_view()[i as int] == requests@[i as int]@);
            assert(names.deep_view()[i as int] == names@[i as int]@);
            let state = ConstraintState {
                table_id: id.dup(),
                name: names[i].clone(),
                kind: requests[i].kind,
                validated: true,
                backing_index: None,
            };
            r.insert((id.dup(), names[i].clone()), state);
            i = i + 1;
        }
        r
    }

    fn namespace_with_table(&self, create: &CreateTable, plan: &TablePlan, depth: usize) -> (r: NamespaceSnapshot)
        requires
            self@.data.generation_counter + 1 + plan.sequences.len() <= u64::MAX,
            plan.names.len() == name_requests(*create).len(),
            plan.fk_columns.len() == create.foreign_keys.len(),
        ensures
            r@ == namespace_with_table(self@.data, namespace_of(self@.data), *create, plan@, depth as u64),
    {
        let ghost d = self@.data;
        let mut n = self.current_namespace();
        let relation = self.table_state(create, plan, depth);
        n.relations.insert(create.id.dup(), Overlay::Present(relation));
        n.sequences = self.with_implicit(create, &plan.sequences);
        let requests = name_requests_of(create);
        assert(requests.deep_view().len() == requests.len());
        n.constraints = self.with_table_constraints(&create.id, &requests, &plan.names);
        let generation = self.generation() + 1;
        n.graph = concat(n.graph, table_edges_of(create, plan, generation));
        proof {
            reveal(namespace_with_table);
            assert(n@ =~= namespace_with_table(d, namespace_of(d), *create, plan@, depth as u64));
        }
        n
    }

    fn add_table(&mut self, create: &CreateTable, plan: &TablePlan)
        requires
            old(self)@.data.generation_counter + 1 + plan.sequences.len() <= u64::MAX,
            plan.names.len() == name_requests(*create).len(),
            plan.fk_columns.len() == create.foreign_keys.len(),
        ensures
            final(self)@.data == with_table(old(self)@.data, *create, plan@, old(self)@.frames.len() as u64),
            kept_as(old(self)@, final(self)@, appending(old(self)@.data.graph, final(self)@.data.graph)),
    {
        proof {
            reveal(with_table);
        }
        let depth = self.transaction_depth();
        let generation = self.generation() + 1 + plan.sequences.len() as u64;
        let n = self.namespace_with_table(create, plan, depth);
        proof {
            reveal(namespace_with_table);
        }
        self.replace_appending(n);
        self.set_generation(generation);
    }

    fn place_table(&mut self, create: &CreateTable, plan: &TablePlan)
        requires
            old(self)@.data.generation_counter + 1 + plan.sequences.len() <= u64::MAX,
            plan.names.len() == name_requests(*create).len(),
            plan.fk_columns.len() == create.foreign_keys.len(),
        ensures
            final(self)@.data == table_added(old(self)@.data, *create, plan@, old(self)@.frames.len() as u64),
            kept_as(old(self)@, final(self)@, appending(old(self)@.data.graph, final(self)@.data.graph)),
    {
        proof {
            reveal(table_added);
            reveal(tainted);
            reveal(tainted_if);
            lemma_kept_depth(old(self)@, self@);
        }
        let ghost start = self@;
        self.taint_if(create.as_select, EvidenceCode::UnsupportedSemantics, EvidenceScope::Chain);
        proof {
            lemma_kept_depth(start, self@);
        }
        self.add_table(create, plan);
        let incomplete = has_incomplete_constraint(create);
        self.taint_if(incomplete, EvidenceCode::CatalogCoverageIncomplete, EvidenceScope::Chain);
    }

    pub(crate) fn apply_create_table(&mut self, create: &CreateTable) -> (r: MutationResult)
        requires
            old(self)@.data.generation_counter + 1 + create.columns.len() <= u64::MAX,
        ensures
            (final(self)@.data, r@) == table_created(old(self)@.data, *create, old(self)@.frames.len() as u64),
            kept_as(old(self)@, final(self)@, if_applied(r@, appending(old(self)@.data.graph, final(self)@.data.graph))),
    {
        if let Some(refusal) = self.table_refusal(create) {
            return self.refuse(refusal);
        }
        let (gap, plan) = self.plan_table(create);
        let ghost start = self@;
        self.taint_if(gap, EvidenceCode::CatalogCoverageIncomplete, EvidenceScope::Chain);
        proof {
            lemma_kept_depth(start, self@);
            reveal(tainted);
            reveal(tainted_if);
        }
        match plan {
            Err(refusal) => self.refuse(refusal),
            Ok(plan) => {
                self.place_table(create, &plan);
                MutationResult::Applied
            },
        }
    }
}

/// Steps that keep the open frames do not open or close any.
pub proof fn lemma_kept_depth(a: crate::state::AnalysisStateView, b: crate::state::AnalysisStateView)
    requires
        kept(a, b),
    ensures
        a.frames.len() == b.frames.len(),
{
    reveal(kept_as);
    reveal(undone_by);
}

} // verus!
