//! What the names in a statement denote, and what a statement asks for.
use crate::facts::{AlterTableActionFact, StatementFact};
use crate::identifiers::{ObjectIdView, QualifiedNameView};
use crate::laws::columns::law_column_is_renamed;
use crate::laws::{at, column_at, columns_at};
use crate::model::column::ColumnView;
use crate::mutations::{AlterTableActionMutationView, Mutation, MutationView, ObjectKind, OpaqueMutationView};
use crate::resolver::statement::{missing_target, resolved_control, resolved_definition, resolved_other, resolved_statement};
use crate::resolver::{created_id, looked_up_id, schema_holding, schema_with_type, type_id};
use crate::state::apply::applied;
use crate::state::cascade::CascadeView;
use crate::state::lookup::{relation_id, visible_schema};
use crate::state::{AnalysisStateView, MutationResultView, StateData};
use vstd::prelude::*;

verus! {

/// Whether a schema has an entry under a name that a statement can mean.
pub open spec fn is_known_in(d: StateData, schema: Seq<char>, name: Seq<char>) -> bool {
    let id = ObjectIdView { schema, name };
    ||| d.relations.dom().contains(id)
    ||| d.types.dom().contains(id)
    ||| d.sequences.dom().contains(id)
    ||| exists|f: ObjectIdView| #[trigger] d.functions.dom().contains(f) && f.schema == schema && (f.name == name || (name + "("@).is_prefix_of(f.name))
}

proof fn lemma_first_holding(d: StateData, name: Seq<char>, from: int, i: int)
    requires
        0 <= from <= i < d.search_path.len(),
        is_known_in(d, d.search_path[i], name),
        forall|j: int| from <= j < i ==> !is_known_in(d, #[trigger] d.search_path[j], name),
    ensures
        schema_holding(d, name, from) == d.search_path[i],
    decreases i - from,
{
    if from < i {
        assert(!is_known_in(d, d.search_path[from], name));
        lemma_first_holding(d, name, from + 1, i);
    }
}

proof fn lemma_none_holding(d: StateData, name: Seq<char>, from: int)
    requires
        0 <= from <= d.search_path.len(),
        forall|j: int| from <= j < d.search_path.len() ==> !is_known_in(d, #[trigger] d.search_path[j], name),
    ensures
        schema_holding(d, name, from) == (if d.search_path.len() > 0 {
            d.search_path[0]
        } else {
            "public"@
        }),
    decreases d.search_path.len() - from,
{
    if from < d.search_path.len() {
        lemma_none_holding(d, name, from + 1);
    }
}

/// A name with a schema means what is in that schema. A name without one means
/// what the first schema of the search path has that has something of that
/// name; where none has, it is of the first schema of the path.
pub proof fn law_name_is_looked_up_along_the_path(d: StateData, name: QualifiedNameView, i: int)
    ensures
        looked_up_id(d, name).name == name.name.resolved(),
        name.schema is Some ==> looked_up_id(d, name).schema == name.schema->0.resolved(),
        name.schema is None && 0 <= i < d.search_path.len() && is_known_in(d, d.search_path[i], name.name.resolved()) && (forall|j: int|
            0 <= j < i ==> !is_known_in(d, #[trigger] d.search_path[j], name.name.resolved())) ==> looked_up_id(d, name).schema == d.search_path[i],
        name.schema is None && (forall|j: int| 0 <= j < d.search_path.len() ==> !is_known_in(d, #[trigger] d.search_path[j], name.name.resolved()))
            ==> looked_up_id(d, name).schema == (if d.search_path.len() > 0 {
            d.search_path[0]
        } else {
            "public"@
        }),
{
    let n = name.name.resolved();
    if name.schema is None && 0 <= i < d.search_path.len() && is_known_in(d, d.search_path[i], n) && (forall|j: int|
        0 <= j < i ==> !is_known_in(d, #[trigger] d.search_path[j], n)) {
        lemma_first_holding(d, n, 0, i);
    }
    if name.schema is None && (forall|j: int| 0 <= j < d.search_path.len() ==> !is_known_in(d, #[trigger] d.search_path[j], n)) {
        lemma_none_holding(d, n, 0);
    }
}

/// What is created goes into the schema that is written, or into the first of
/// the search path.
pub proof fn law_new_name_goes_first(d: StateData, name: QualifiedNameView)
    ensures
        created_id(d, name).name == name.name.resolved(),
        name.schema is Some ==> created_id(d, name).schema == name.schema->0.resolved(),
        name.schema is None && d.search_path.len() > 0 ==> created_id(d, name).schema == d.search_path[0],
        name.schema is None && d.search_path.len() == 0 ==> created_id(d, name).schema == "public"@,
{
}

/// Whether a schema has a relation, a sequence or an index of that name.
pub open spec fn is_visible_in(d: StateData, schema: Seq<char>, name: Seq<char>) -> bool {
    let id = ObjectIdView { schema, name };
    ||| at(d.relations, id) is Some
    ||| at(d.sequences, id) is Some
    ||| exists|k: int| 0 <= k < d.graph.len() && (#[trigger] d.graph[k]).kind is IndexOnRelation && d.graph[k].dependent == id
}

proof fn lemma_first_visible(d: StateData, name: Seq<char>, from: int, i: int)
    requires
        0 <= from <= i < d.search_path.len(),
        is_visible_in(d, d.search_path[i], name),
        forall|j: int| from <= j < i ==> !is_visible_in(d, #[trigger] d.search_path[j], name),
    ensures
        visible_schema(d, name, from) == d.search_path[i],
    decreases i - from,
{
    let id = ObjectIdView { schema: d.search_path[from], name };
    if from < i {
        assert(!is_visible_in(d, d.search_path[from], name));
        lemma_first_visible(d, name, from + 1, i);
    } else if exists|k: int| 0 <= k < d.graph.len() && (#[trigger] d.graph[k]).kind is IndexOnRelation && d.graph[k].dependent == id {
        let k = choose|k: int| 0 <= k < d.graph.len() && (#[trigger] d.graph[k]).kind is IndexOnRelation && d.graph[k].dependent == id;
        assert(crate::state::lookup::is_index(d.graph[k], id));
    }
}

/// Among relations, a name without a schema means the one that the first schema
/// of the search path has; among types likewise.
pub proof fn law_relations_and_types_are_found_first(d: StateData, name: QualifiedNameView, i: int)
    requires
        0 <= i < d.search_path.len(),
    ensures
        relation_id(d, name).name == name.name.resolved(),
        type_id(d, name).name == name.name.resolved(),
        name.schema is Some ==> relation_id(d, name).schema == name.schema->0.resolved() && type_id(d, name).schema == name.schema->0.resolved(),
        name.schema is None && is_visible_in(d, d.search_path[i], name.name.resolved()) && (forall|j: int|
            0 <= j < i ==> !is_visible_in(d, #[trigger] d.search_path[j], name.name.resolved())) ==> relation_id(d, name).schema == d.search_path[i],
        name.schema is None && at(d.types, ObjectIdView { schema: d.search_path[i], name: name.name.resolved() }) is Some && (forall|j: int|
            0 <= j < i ==> at(d.types, ObjectIdView { schema: #[trigger] d.search_path[j], name: name.name.resolved() }) is None) ==> type_id(d, name).schema
            == d.search_path[i],
{
    let n = name.name.resolved();
    if name.schema is None && is_visible_in(d, d.search_path[i], n) && (forall|j: int| 0 <= j < i ==> !is_visible_in(d, #[trigger] d.search_path[j], n)) {
        lemma_first_visible(d, n, 0, i);
    }
    if name.schema is None && at(d.types, ObjectIdView { schema: d.search_path[i], name: n }) is Some && (forall|j: int|
        0 <= j < i ==> at(d.types, ObjectIdView { schema: #[trigger] d.search_path[j], name: n }) is None) {
        lemma_first_type(d, n, 0, i);
    }
}

proof fn lemma_first_type(d: StateData, name: Seq<char>, from: int, i: int)
    requires
        0 <= from <= i < d.search_path.len(),
        at(d.types, ObjectIdView { schema: d.search_path[i], name }) is Some,
        forall|j: int| from <= j < i ==> at(d.types, ObjectIdView { schema: #[trigger] d.search_path[j], name }) is None,
    ensures
        schema_with_type(d, name, from) == d.search_path[i],
    decreases i - from,
{
    if from < i {
        assert(at(d.types, ObjectIdView { schema: d.search_path[from], name }) is None);
        lemma_first_type(d, name, from + 1, i);
    }
}

// ---------------------------------------------------------------------------
// `ALTER TABLE`
// ---------------------------------------------------------------------------

/// Whether an action refers to a table that is not there.
pub open spec fn refers_to_absent(d: StateData, a: AlterTableActionFact) -> bool {
    match a {
        AlterTableActionFact::AddForeignKey { references, .. } => at(d.relations, looked_up_id(d, references@)) is None,
        _ => false,
    }
}

proof fn lemma_missing(d: StateData, actions: Seq<AlterTableActionFact>, from: nat)
    requires
        from <= actions.len(),
    ensures
        missing_target(d, actions, from) is Some <==> exists|i: int| from <= i < actions.len() && refers_to_absent(d, #[trigger] actions[i]),
        missing_target(d, actions, from) is Some ==> exists|i: int|
            from <= i < actions.len() && refers_to_absent(d, #[trigger] actions[i]) && actions[i] is AddForeignKey && looked_up_id(
                d,
                actions[i]->AddForeignKey_references@,
            ) == missing_target(d, actions, from)->0 && forall|j: int| from <= j < i ==> !refers_to_absent(d, #[trigger] actions[j]),
    decreases actions.len() - from,
{
    if from < actions.len() {
        lemma_missing(d, actions, from + 1);
        if refers_to_absent(d, actions[from as int]) {
            assert(missing_target(d, actions, from) is Some);
        } else if missing_target(d, actions, from + 1) is Some {
            let i = choose|i: int|
                from + 1 <= i < actions.len() && refers_to_absent(d, #[trigger] actions[i]) && actions[i] is AddForeignKey && looked_up_id(
                    d,
                    actions[i]->AddForeignKey_references@,
                ) == missing_target(d, actions, from + 1)->0 && forall|j: int| from + 1 <= j < i ==> !refers_to_absent(d, #[trigger] actions[j]);
            assert(refers_to_absent(d, actions[i]));
        }
    }
}

proof fn lemma_alter(d: StateData, f: StatementFact)
    requires
        f is AlterTable,
    ensures
        resolved_statement(d, f) == resolved_definition(d, f),
{
    assert(resolved_control(d, f) =~= Seq::<MutationView>::empty());
    assert(resolved_other(d, f) =~= Seq::<MutationView>::empty());
    assert(resolved_statement(d, f) =~= resolved_definition(d, f));
}

/// `ALTER TABLE` asks for one thing for each action, in their order, unless a
/// foreign key refers to a table that is not there: the statement is then one
/// unresolved reference to the first such table.
pub proof fn law_each_action_is_asked_for(d: StateData, f: StatementFact)
    requires
        f is AlterTable,
    ensures
        (forall|i: int| 0 <= i < f->AlterTable_actions@.len() ==> !refers_to_absent(d, #[trigger] f->AlterTable_actions@[i])) ==> resolved_statement(
            d,
            f,
        ).len() == f->AlterTable_actions@.len(),
        forall|i: int|
            0 <= i < f->AlterTable_actions@.len() && refers_to_absent(d, #[trigger] f->AlterTable_actions@[i]) && (forall|j: int|
                0 <= j < i ==> !refers_to_absent(d, #[trigger] f->AlterTable_actions@[j])) ==> resolved_statement(d, f) == seq![
                MutationView::Opaque(
                    OpaqueMutationView::UnresolvedReference {
                        object_kind: ObjectKind::Table,
                        object_name: looked_up_id(d, f->AlterTable_actions@[i]->AddForeignKey_references@).shown(),
                    },
                ),
            ],
{
    lemma_alter(d, f);
    lemma_missing(d, f->AlterTable_actions@, 0);
    let actions = f->AlterTable_actions@;
    assert forall|i: int|
        0 <= i < actions.len() && refers_to_absent(d, #[trigger] actions[i]) && (forall|j: int|
            0 <= j < i ==> !refers_to_absent(d, #[trigger] actions[j])) implies resolved_statement(d, f) == seq![
        MutationView::Opaque(
            OpaqueMutationView::UnresolvedReference {
                object_kind: ObjectKind::Table,
                object_name: looked_up_id(d, actions[i]->AddForeignKey_references@).shown(),
            },
        ),
    ] by {
        let k = choose|k: int|
            0 <= k < actions.len() && refers_to_absent(d, #[trigger] actions[k]) && actions[k] is AddForeignKey && looked_up_id(
                d,
                actions[k]->AddForeignKey_references@,
            ) == missing_target(d, actions, 0)->0 && forall|j: int| 0 <= j < k ==> !refers_to_absent(d, #[trigger] actions[j]);
        assert(k == i);
    }
}

/// What is asked for of one action is what is written in it.
pub proof fn law_action_is_asked_for_as_written(d: StateData, f: StatementFact, i: int)
    requires
        f is AlterTable,
        forall|j: int| 0 <= j < f->AlterTable_actions@.len() ==> !refers_to_absent(d, #[trigger] f->AlterTable_actions@[j]),
        0 <= i < f->AlterTable_actions@.len(),
    ensures
        ({
            let m = resolved_statement(d, f)[i];
            let id = looked_up_id(d, f->AlterTable_name@);
            match f->AlterTable_actions@[i] {
                AlterTableActionFact::RenameTo { new_name } => m is Rename && m->Rename_0.old_id == id && m->Rename_0.new_id == (ObjectIdView {
                    schema: id.schema,
                    name: new_name@.resolved(),
                }),
                a => m is AlterTable && m->AlterTable_0.id == id && match (a, m->AlterTable_0.action) {
                    (
                        AlterTableActionFact::AddColumn { name, ty, if_not_exists, not_null, default, generation },
                        AlterTableActionMutationView::AddColumn {
                            name: n,
                            ty: t,
                            if_not_exists: e,
                            not_null: x,
                            default: df,
                            depends_on,
                            generation: g,
                        },
                    ) => n == name@ && t == ty.deep_view() && e == if_not_exists && x == not_null && df == default.deep_view() && g == generation
                        && depends_on is None,
                    (
                        AlterTableActionFact::DropColumn { name, if_exists, cascade },
                        AlterTableActionMutationView::DropColumn { name: n, if_exists: e, cascade: x },
                    ) => n == name@ && e == if_exists && x == cascade,
                    (AlterTableActionFact::RenameColumn { from, to }, AlterTableActionMutationView::RenameColumn { from: a, to: b }) => a
                        == from@.resolved() && b == to@.resolved(),
                    (
                        AlterTableActionFact::AddForeignKey { constraint_name, references, from_columns, to_columns, not_valid },
                        AlterTableActionMutationView::AddForeignKey { constraint_name: n, to_table, from_columns: a, to_columns: b, not_valid: v },
                    ) => n == constraint_name.deep_view() && to_table == looked_up_id(d, references@) && a == from_columns.deep_view() && b
                        == to_columns.deep_view() && v == not_valid,
                    (
                        AlterTableActionFact::RenameConstraint { old_name, new_name },
                        AlterTableActionMutationView::RenameConstraint { old_name: a, new_name: b },
                    ) => a == old_name@ && b == new_name@,
                    (
                        AlterTableActionFact::DropConstraint { name, if_exists, cascade },
                        AlterTableActionMutationView::DropConstraint { name: n, if_exists: e, cascade: x },
                    ) => n == name@ && e == if_exists && x == cascade,
                    (
                        AlterTableActionFact::AlterConstraint { name, deferrable },
                        AlterTableActionMutationView::AlterConstraint { name: n, deferrable: x },
                    ) => n == name.deep_view() && x == deferrable,
                    (
                        AlterTableActionFact::AddCheckConstraint { constraint_name, columns, columns_complete, not_valid },
                        AlterTableActionMutationView::AddCheckConstraint { constraint_name: n, columns: x, columns_complete: y, not_valid: v },
                    ) => n == constraint_name.deep_view() && x == columns.deep_view() && y == columns_complete && v == not_valid,
                    (
                        AlterTableActionFact::AddExcludeConstraint { constraint_name, columns, columns_complete },
                        AlterTableActionMutationView::AddExcludeConstraint { constraint_name: n, columns: x, columns_complete: y },
                    ) => n == constraint_name.deep_view() && x == columns.deep_view() && y == columns_complete,
                    (
                        AlterTableActionFact::AddUniqueConstraint { constraint_name, columns, using_index },
                        AlterTableActionMutationView::AddUniqueConstraint { constraint_name: n, columns: x, using_index: y },
                    ) => n == constraint_name.deep_view() && x == columns.deep_view() && names_index(using_index, id, y),
                    (
                        AlterTableActionFact::AddPrimaryKeyConstraint { constraint_name, columns, using_index },
                        AlterTableActionMutationView::AddPrimaryKeyConstraint { constraint_name: n, columns: x, using_index: y },
                    ) => n == constraint_name.deep_view() && x == columns.deep_view() && names_index(using_index, id, y),
                    (AlterTableActionFact::SetNotNull { column }, AlterTableActionMutationView::SetNotNull { column: x }) => x == column@,
                    (AlterTableActionFact::DropNotNull { column }, AlterTableActionMutationView::DropNotNull { column: x }) => x == column@,
                    (AlterTableActionFact::SetType { column, ty, has_using }, AlterTableActionMutationView::SetType { column: x, ty: t, has_using: u }) => x
                        == column@ && t == ty@ && u == has_using,
                    (AlterTableActionFact::SetDefault { column, default }, AlterTableActionMutationView::SetDefault { column: x, default: y }) => x
                        == column@ && y == default.deep_view(),
                    (
                        AlterTableActionFact::ValidateConstraint { constraint_name },
                        AlterTableActionMutationView::ValidateConstraint { constraint_name: n },
                    ) => n == constraint_name@,
                    (AlterTableActionFact::AttachPartition { child, strategy }, AlterTableActionMutationView::AttachPartition { child: x, strategy: y }) => x
                        == looked_up_id(d, child@) && y == strategy.deep_view(),
                    (AlterTableActionFact::DetachPartition { child }, AlterTableActionMutationView::DetachPartition { child: x }) => x == looked_up_id(
                        d,
                        child@,
                    ),
                    (AlterTableActionFact::SetStorage { column }, AlterTableActionMutationView::SetStorage { column: x }) => x == column@,
                    (AlterTableActionFact::SetAccessMethod, AlterTableActionMutationView::SetAccessMethod) => true,
                    (AlterTableActionFact::DisableTrigger { trigger_name }, AlterTableActionMutationView::DisableTrigger { trigger_name: x }) => x
                        == trigger_name.deep_view(),
                    (AlterTableActionFact::EnableTrigger { trigger_name }, AlterTableActionMutationView::EnableTrigger { trigger_name: x }) => x
                        == trigger_name.deep_view(),
                    (AlterTableActionFact::SetSchema { .. }, AlterTableActionMutationView::Opaque) => true,
                    (AlterTableActionFact::OwnerTo { .. }, AlterTableActionMutationView::Opaque) => true,
                    (a, AlterTableActionMutationView::Opaque) => is_metadata(a),
                    _ => false,
                },
            }
        }),
{
    lemma_alter(d, f);
    lemma_missing(d, f->AlterTable_actions@, 0);
}

/// Whether an action changes nothing that is modeled.
pub open spec fn is_metadata(a: AlterTableActionFact) -> bool {
    match a {
        AlterTableActionFact::AddColumn { .. } | AlterTableActionFact::DropColumn { .. } | AlterTableActionFact::RenameColumn { .. }
        | AlterTableActionFact::RenameTo { .. } | AlterTableActionFact::AddForeignKey { .. } | AlterTableActionFact::AlterConstraint { .. }
        | AlterTableActionFact::RenameConstraint { .. } | AlterTableActionFact::DropConstraint { .. } | AlterTableActionFact::AddCheckConstraint { .. }
        | AlterTableActionFact::AddUniqueConstraint { .. } | AlterTableActionFact::AddPrimaryKeyConstraint { .. }
        | AlterTableActionFact::AddExcludeConstraint { .. } | AlterTableActionFact::SetNotNull { .. } | AlterTableActionFact::DropNotNull { .. }
        | AlterTableActionFact::SetType { .. } | AlterTableActionFact::SetDefault { .. } | AlterTableActionFact::ValidateConstraint { .. }
        | AlterTableActionFact::AttachPartition { .. } | AlterTableActionFact::DetachPartition { .. } | AlterTableActionFact::DisableTrigger { .. }
        | AlterTableActionFact::EnableTrigger { .. } => false,
        _ => true,
    }
}

/// An index that a constraint names is in the schema of the table unless another
/// one is written.
pub open spec fn names_index(written: Option<crate::identifiers::QualifiedName>, table: ObjectIdView, id: Option<ObjectIdView>) -> bool {
    match written {
        Some(name) => id is Some && id->0.name == name@.name.resolved() && id->0.schema == (match name@.schema {
            Some(schema) => schema.resolved(),
            None => table.schema,
        }),
        None => id is None,
    }
}

/// `ALTER TABLE t RENAME COLUMN a TO b`, resolved and applied, leaves the table
/// with column `b` in the place of `a`, and with no column `a`.
pub proof fn law_rename_column_statement(
    s: AnalysisStateView,
    f: StatementFact,
    m: Mutation,
    c: Option<CascadeView>,
    t: AnalysisStateView,
    r: MutationResultView,
    i: int,
)
    requires
        f is AlterTable,
        f->AlterTable_actions@.len() == 1,
        f->AlterTable_actions@[0] is RenameColumn,
        resolved_statement(s.data, f) == seq![m@],
        applied(s, m, c, t, r),
        r is Applied,
        0 <= i < columns_at(s.data, looked_up_id(s.data, f->AlterTable_name@)).len(),
    ensures
        ({
            let id = looked_up_id(s.data, f->AlterTable_name@);
            let a = f->AlterTable_actions@[0]->from@.resolved();
            let b = f->AlterTable_actions@[0]->to@.resolved();
            let before = columns_at(s.data, id);
            let after = columns_at(t.data, id);
            &&& column_at(s.data, id, a) && !column_at(s.data, id, b)
            &&& column_at(t.data, id, b) && !column_at(t.data, id, a)
            &&& after.len() == before.len()
            &&& before[i].name == a ==> after[i] == ColumnView { name: b, ..before[i] }
            &&& before[i].name != a ==> after[i] == before[i]
        }),
{
    let d = s.data;
    let actions = f->AlterTable_actions@;
    assert forall|j: int| 0 <= j < actions.len() implies !refers_to_absent(d, #[trigger] actions[j]) by {}
    law_action_is_asked_for_as_written(d, f, 0);
    assert(resolved_statement(d, f)[0] == m@);
    assert(m is AlterTable);
    let alter = m->AlterTable_0;
    assert(alter.action is RenameColumn);
    law_column_is_renamed(s, alter, c, t, r, i);
}

} // verus!
