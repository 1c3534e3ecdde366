//! `CREATE TABLE`.
use crate::collections::lemma_filtered;
use crate::evidence::{EvidenceCode, EvidenceScope};
use crate::facts::TableConstraintFactView;
use crate::graph::DependencyKindView;
use crate::identifiers::ObjectIdView;
use crate::laws::{at, columns_at, has_edge, lemma_on_objects, same_but};
use crate::model::column::ColumnView;
use crate::model::constraint::{ConstraintKind, ConstraintStateView};
use crate::mutations::{ColumnMutation, CreateTable, FkMutation, Mutation};
use crate::state::apply::{applied, object_effect};
use crate::state::cascade::CascadeView;
use crate::state::create_table::{
    chosen_names, constraint_columns, first_refused_fk, fk_checked, fk_edges, fk_request, has_incomplete, implicit_sequences, inline_edges, inlines,
    is_primary_column, is_primary_constraint, name_requests, namespace_with_table, partition_edge, primary_columns, primary_constraints,
    primary_edge, primary_key_columns, primary_request, requested_name, sequence_edges, sequence_kind, table_added, table_column, table_edges,
    table_plan, table_planned, table_refusal, table_state, unique_columns, unique_constraints, unique_edges, unique_request, uniques, with_implicit,
    with_sequence_defaults, with_table, with_table_constraints, ImplicitSequenceView, NameRequestView, TablePlanView,
};
use crate::state::foreign_keys::{first_repeated, key_checked};
use crate::state::journal::{tainted, tainted_if, undone};
use crate::state::refusal::refused;
use crate::state::{AnalysisStateView, MutationResultView, StateData};
use vstd::prelude::*;

verus! {

// ---------------------------------------------------------------------------
// What a created table is made of
// ---------------------------------------------------------------------------

proof fn lemma_chosen(d: StateData, id: ObjectIdView, requests: Seq<NameRequestView>, names: Seq<Seq<char>>)
    requires
        names.len() <= requests.len(),
        names.no_duplicates(),
        forall|i: int| 0 <= i < names.len() && (#[trigger] requests[i]).explicit is Some ==> names[i] == requests[i].explicit->0,
        chosen_names(d, id, requests, names) is Ok,
    ensures
        ({
            let all = chosen_names(d, id, requests, names)->Ok_0;
            &&& all.len() == requests.len()
            &&& all.no_duplicates()
            &&& forall|i: int| 0 <= i < all.len() && (#[trigger] requests[i]).explicit is Some ==> all[i] == requests[i].explicit->0
        }),
    decreases requests.len() - names.len(),
{
    if names.len() < requests.len() {
        let name = requested_name(d, id, requests[names.len() as int], names);
        assert(names.push(name).no_duplicates());
        lemma_chosen(d, id, requests, names.push(name));
    }
}

/// What an applied `CREATE TABLE` made of the data.
proof fn lemma_created(s: AnalysisStateView, create: CreateTable, c: Option<CascadeView>, t: AnalysisStateView, r: MutationResultView) -> (names: Seq<Seq<char>>)
    requires
        applied(s, Mutation::CreateTable(create), c, t, r),
        r is Applied,
    ensures
        names.len() == name_requests(create).len(),
        names.no_duplicates(),
        forall|i: int|
            0 <= i < names.len() && (#[trigger] name_requests(create)[i]).explicit is Some ==> names[i] == name_requests(create)[i].explicit->0,
        t.data.graph == s.data.graph + table_edges(create, table_plan(s.data, create, names), (s.data.generation_counter + 1) as u64),
        t.data.constraints == with_table_constraints(s.data.constraints, create.id@, name_requests(create), names, name_requests(create).len()),
        table_refusal(s.data, create) is None,
        first_refused_fk(s.data, create, 0) >= create.foreign_keys@.len(),
        exists|d: StateData| #[trigger]
            is_as_read(s.data, d) && t.data.relations == s.data.relations.insert(
                create.id@,
                crate::model::Overlay::Present(table_state(d, create, table_plan(s.data, create, names), s.frames.len() as u64)),
            ) && t.data.sequences == with_implicit(
                d,
                create,
                table_plan(s.data, create, names).sequences,
                table_plan(s.data, create, names).sequences.len(),
            ),
        t.data.schemas == s.data.schemas,
        t.data.types == s.data.types,
        t.data.triggers == s.data.triggers,
        t.data.pending_validation == s.data.pending_validation,
{
    lemma_on_objects(s, Mutation::CreateTable(create), c, t, r);
    reveal(object_effect);
    reveal(refused);
    reveal(table_planned);
    let d = s.data;
    let (gap, planned) = table_planned(d, create);
    let names = chosen_names(d, create.id@, name_requests(create), Seq::empty())->Ok_0;
    lemma_chosen(d, create.id@, name_requests(create), Seq::empty());
    let d1 = tainted_if(d, gap, EvidenceCode::CatalogCoverageIncomplete, EvidenceScope::Chain);
    let d2 = tainted_if(d1, create.as_select, EvidenceCode::UnsupportedSemantics, EvidenceScope::Chain);
    assert(planned == Ok::<TablePlanView, crate::state::refusal::RefusalView>(table_plan(d, create, names)));
    lemma_taint_reads_same(d, gap, EvidenceCode::CatalogCoverageIncomplete);
    lemma_taint_reads_same(d1, create.as_select, EvidenceCode::UnsupportedSemantics);
    assert(is_as_read(d, d2));
    lemma_added(d1, create, table_plan(d, create, names), s.frames.len() as u64);
    names
}

proof fn lemma_taint_reads_same(d: StateData, gap: bool, code: EvidenceCode)
    ensures
        is_as_read(d, tainted_if(d, gap, code, EvidenceScope::Chain)),
{
    reveal(tainted_if);
    reveal(tainted);
}

/// What a new table made of the data.
proof fn lemma_added(d1: StateData, create: CreateTable, plan: TablePlanView, depth: u64)
    ensures
        ({
            let d = tainted_if(d1, create.as_select, EvidenceCode::UnsupportedSemantics, EvidenceScope::Chain);
            let after = table_added(d1, create, plan, depth);
            &&& after.graph == d.graph + table_edges(create, plan, (d.generation_counter + 1) as u64)
            &&& after.constraints == with_table_constraints(d.constraints, create.id@, name_requests(create), plan.names, name_requests(create).len())
            &&& after.relations == d.relations.insert(create.id@, crate::model::Overlay::Present(table_state(d, create, plan, depth)))
            &&& after.sequences == with_implicit(d, create, plan.sequences, plan.sequences.len())
            &&& after.schemas == d.schemas
            &&& after.types == d.types
            &&& after.triggers == d.triggers
            &&& after.pending_validation == d.pending_validation
        }),
{
    reveal(table_added);
    reveal(with_table);
    reveal(namespace_with_table);
    reveal(undone);
    let d = tainted_if(d1, create.as_select, EvidenceCode::UnsupportedSemantics, EvidenceScope::Chain);
    lemma_taint_reads_same(with_table(d, create, plan, depth), has_incomplete(create), EvidenceCode::CatalogCoverageIncomplete);
}

/// Whether two data differ in evidence alone, as far as a new table reads them.
spec fn is_as_read(d: StateData, e: StateData) -> bool {
    e == StateData { evidence: e.evidence, confidence: e.confidence, ..d }
}

/// Whether a `PRIMARY KEY` clause of a table names a column.
pub open spec fn is_in_primary_key(create: CreateTable, name: Seq<char>) -> bool {
    exists|k: int|
        0 <= k < create.table_constraints.deep_view().len() && match #[trigger] create.table_constraints.deep_view()[k] {
            TableConstraintFactView::PrimaryKey { columns, .. } => columns.contains(name),
            _ => false,
        }
}

/// The table that `CREATE TABLE` makes is new, in a schema that is there, and
/// belongs to the current role. It is made of the columns that are written, in
/// their order, with their types. A column takes nulls unless `NOT NULL` is
/// written, it is in the primary key, or it draws from a sequence; and it has
/// the default that is written, unless it draws from a sequence.
pub proof fn law_table_is_made_as_written(s: AnalysisStateView, create: CreateTable, c: Option<CascadeView>, t: AnalysisStateView, r: MutationResultView, i: int)
    requires
        applied(s, Mutation::CreateTable(create), c, t, r),
        r is Applied,
    ensures
        at(s.data.relations, create.id@) is None,
        at(s.data.sequences, create.id@) is None,
        at(s.data.types, create.id@) is None,
        at(s.data.schemas, create.id@.schema) is Some,
        at(t.data.relations, create.id@) is Some,
        same_but(s.data.relations, t.data.relations, create.id@),
        columns_at(t.data, create.id@).len() == create.columns@.len(),
        ({
            let table = at(t.data.relations, create.id@)->0;
            &&& table.id == create.id@
            &&& table.kind is Table
            &&& table.owner.name == s.data.current_role
            &&& table.persistence is Temporary <==> create.persistence is Temporary
            &&& table.persistence is Unlogged <==> create.persistence is Unlogged
            &&& table.partition_by == create.partition_by.deep_view()
            &&& table.estimated_rows == (if create.as_select {
                None
            } else {
                Some(0u64)
            })
            &&& table.privileges.grants.len() == 0
            &&& forall|name: Seq<char>| !(#[trigger] table.policies.contains(name)) && !table.triggers.contains(name)
            &&& s.data.generation_counter < u64::MAX ==> table.generation > s.data.generation_counter
        }),
        0 <= i < create.columns@.len() ==> {
            let written = create.columns@[i];
            let column = columns_at(t.data, create.id@)[i];
            &&& column.name == written.name@
            &&& column.data_type == written.ty.deep_view()
            &&& written.generation is Ordinary ==> column.default == written.default.deep_view()
            &&& written.generation is Ordinary ==> column.is_nullable == !(written.not_null || written.is_primary_key || is_in_primary_key(
                create,
                written.name@,
            ))
            &&& !(written.generation is Ordinary) ==> !column.is_nullable && column.default is Some
        },
{
    let names = lemma_created(s, create, c, t, r);
    reveal(table_refusal);
    let d = choose|d: StateData| #[trigger]
        is_as_read(s.data, d) && t.data.relations == s.data.relations.insert(
            create.id@,
            crate::model::Overlay::Present(table_state(d, create, table_plan(s.data, create, names), s.frames.len() as u64)),
        ) && t.data.sequences == with_implicit(
            d,
            create,
            table_plan(s.data, create, names).sequences,
            table_plan(s.data, create, names).sequences.len(),
        );
    let base = create.columns@.map_values(|x: ColumnMutation| table_column(d, create, x));
    let list = implicit_sequences(s.data, create, create.columns@.len());
    lemma_distinct_columns(create);
    lemma_implicit_columns(s.data, create, create.columns@.len());
    if 0 <= i < create.columns@.len() {
        lemma_defaults_at(base, list, list.len(), i);
        lemma_primary_column(create, create.columns@[i]);
        if create.columns@[i].generation is Ordinary {
            assert forall|k: int| 0 <= k < list.len() implies (#[trigger] list[k]).column != create.columns@[i].name@ by {
                let j = choose|j: int|
                    0 <= j < create.columns@.len() && create.columns@[j].name@ == list[k].column && !((#[trigger] create.columns@[j]).generation is Ordinary);
                assert(j != i);
            }
        } else {
            lemma_implicit_of(s.data, create, create.columns@.len(), i);
        }
    }
    lemma_defaults_len(base, list, list.len());
}

proof fn lemma_primary_column(create: CreateTable, x: ColumnMutation)
    ensures
        is_primary_column(create, x) == (x.is_primary_key || is_in_primary_key(create, x.name@)),
{
    let all = create.table_constraints.deep_view();
    let p = |q: TableConstraintFactView| is_primary_constraint(q);
    let list = primary_constraints(create);
    lemma_filtered(all, p);
    if is_in_primary_key(create, x.name@) {
        let k = choose|k: int|
            0 <= k < all.len() && match #[trigger] all[k] {
                TableConstraintFactView::PrimaryKey { columns, .. } => columns.contains(x.name@),
                _ => false,
            };
        assert(all.contains(all[k]));
        assert(list.contains(all[k]));
        let j = choose|j: int| 0 <= j < list.len() && list[j] == all[k];
        assert(constraint_columns(list[j]).contains(x.name@));
    }
    if exists|j: int| 0 <= j < list.len() && #[trigger] constraint_columns(list[j]).contains(x.name@) {
        let j = choose|j: int| 0 <= j < list.len() && #[trigger] constraint_columns(list[j]).contains(x.name@);
        assert(list.contains(list[j]));
        let k = choose|k: int| 0 <= k < all.len() && all[k] == list[j];
        assert(all[k] is PrimaryKey);
    }
}

proof fn lemma_repeated(names: Seq<Seq<char>>, i: nat)
    requires
        first_repeated(names, i) >= names.len(),
        forall|a: int, b: int| 0 <= a < b < i && b < names.len() ==> names[a] != names[b],
    ensures
        names.no_duplicates(),
    decreases names.len() - i,
{
    if i < names.len() {
        assert forall|a: int| 0 <= a < i implies names[a] != names[i as int] by {
            assert(names.take(i as int)[a] == names[a]);
        }
        lemma_repeated(names, i + 1);
    }
}

proof fn lemma_distinct_columns(create: CreateTable)
    requires
        crate::state::create_table::parts_refusal(create) is None,
    ensures
        forall|a: int, b: int| 0 <= a < b < create.columns@.len() ==> (#[trigger] create.columns@[a]).name@ != (#[trigger] create.columns@[b]).name@,
{
    let names = crate::state::create_table::column_names(create);
    lemma_repeated(names, 0);
    assert forall|a: int, b: int| 0 <= a < b < create.columns@.len() implies (#[trigger] create.columns@[a]).name@ != (#[trigger] create.columns@[b]).name@ by {
        assert(names[a] == create.columns@[a].name@);
        assert(names[b] == create.columns@[b].name@);
    }
}

/// Every implicit sequence is of a column that draws.
proof fn lemma_implicit_columns(d: StateData, create: CreateTable, n: nat)
    requires
        n <= create.columns@.len(),
    ensures
        forall|k: int|
            0 <= k < implicit_sequences(d, create, n).len() ==> exists|j: int|
                0 <= j < create.columns@.len() && create.columns@[j].name@ == (#[trigger] implicit_sequences(d, create, n)[k]).column && !((
                #[trigger] create.columns@[j]).generation is Ordinary),
    decreases n,
{
    if n > 0 {
        lemma_implicit_columns(d, create, (n - 1) as nat);
        let before = implicit_sequences(d, create, (n - 1) as nat);
        let all = implicit_sequences(d, create, n);
        assert forall|k: int| 0 <= k < all.len() implies exists|j: int|
            0 <= j < create.columns@.len() && create.columns@[j].name@ == (#[trigger] all[k]).column && !((#[trigger] create.columns@[j]).generation is Ordinary) by {
            if k < before.len() {
                assert(all[k] == before[k]);
            } else {
                assert(create.columns@[n - 1].name@ == all[k].column);
            }
        }
    }
}

/// A column that draws has its sequence.
proof fn lemma_implicit_of(d: StateData, create: CreateTable, n: nat, i: int)
    requires
        0 <= i < n <= create.columns@.len(),
        !(create.columns@[i].generation is Ordinary),
    ensures
        exists|k: int|
            0 <= k < implicit_sequences(d, create, n).len() && (#[trigger] implicit_sequences(d, create, n)[k]).column == create.columns@[i].name@
                && Some(implicit_sequences(d, create, n)[k].kind) == sequence_kind(create.columns@[i].generation),
    decreases n,
{
    let before = implicit_sequences(d, create, (n - 1) as nat);
    let all = implicit_sequences(d, create, n);
    if i < n - 1 {
        lemma_implicit_of(d, create, (n - 1) as nat, i);
        let k = choose|k: int|
            0 <= k < before.len() && (#[trigger] before[k]).column == create.columns@[i].name@ && Some(before[k].kind) == sequence_kind(
                create.columns@[i].generation,
            );
        assert(all[k] == before[k]);
    } else {
        assert(all[all.len() - 1].column == create.columns@[i].name@);
    }
}

proof fn lemma_defaults_len(columns: Seq<ColumnView>, list: Seq<ImplicitSequenceView>, n: nat)
    requires
        n <= list.len(),
    ensures
        with_sequence_defaults(columns, list, n).len() == columns.len(),
    decreases n,
{
    if n > 0 {
        lemma_defaults_len(columns, list, (n - 1) as nat);
    }
}

/// What the defaults of sequences make of a column.
proof fn lemma_defaults_at(columns: Seq<ColumnView>, list: Seq<ImplicitSequenceView>, n: nat, i: int)
    requires
        n <= list.len(),
        0 <= i < columns.len(),
    ensures
        with_sequence_defaults(columns, list, n).len() == columns.len(),
        ({
            let after = with_sequence_defaults(columns, list, n)[i];
            &&& after.name == columns[i].name
            &&& after.data_type == columns[i].data_type
            &&& (forall|k: int| 0 <= k < n ==> (#[trigger] list[k]).column != columns[i].name) ==> after == columns[i]
            &&& (exists|k: int| 0 <= k < n && (#[trigger] list[k]).column == columns[i].name) ==> !after.is_nullable && after.default is Some
        }),
    decreases n,
{
    if n > 0 {
        lemma_defaults_at(columns, list, (n - 1) as nat, i);
        let before = with_sequence_defaults(columns, list, (n - 1) as nat);
        let after = with_sequence_defaults(columns, list, n);
        assert(after[i].name == columns[i].name);
        if list[n - 1].column != columns[i].name {
            assert(after[i] == before[i]);
            if exists|k: int| 0 <= k < n && (#[trigger] list[k]).column == columns[i].name {
                let k = choose|k: int| 0 <= k < n && (#[trigger] list[k]).column == columns[i].name;
                assert(k < n - 1);
            }
        } else {
            assert(!after[i].is_nullable && after[i].default is Some);
        }
    }
}

// ---------------------------------------------------------------------------
// Partitions
// ---------------------------------------------------------------------------

/// A table that is created as a partition has an edge to its parent that says
/// so, and the parent is a table that is partitioned. No other edge of a
/// partition comes in: a table that is created as no partition gets none.
pub proof fn law_partition_hangs_on_its_parent(s: AnalysisStateView, create: CreateTable, c: Option<CascadeView>, t: AnalysisStateView, r: MutationResultView, k: int)
    requires
        applied(s, Mutation::CreateTable(create), c, t, r),
        r is Applied,
    ensures
        create.partition_of is Some ==> has_edge(t.data, create.id@, create.partition_of->0@, DependencyKindView::PartitionOf),
        create.partition_of is Some ==> {
            let parent = at(s.data.relations, create.partition_of->0@);
            parent is Some && parent->0.kind is Table && parent->0.partition_type is Some
        },
        s.data.graph.len() <= k < t.data.graph.len() && t.data.graph[k].kind is PartitionOf ==> create.partition_of is Some && t.data.graph[k].dependent
            == create.id@ && t.data.graph[k].referenced == create.partition_of->0@,
{
    let names = lemma_created(s, create, c, t, r);
    reveal(table_refusal);
    let plan = table_plan(s.data, create, names);
    let generation = (s.data.generation_counter + 1) as u64;
    let n = s.data.graph.len();
    let x = sequence_edges(create, plan.sequences).len() + uniques(create).len();
    if create.partition_of is Some {
        assert(t.data.graph[(n + x) as int] == partition_edge(create)[0]);
    }
    lemma_inline_edges_kind(
        create,
        plan.names,
        (primary_request(create).len() + uniques(create).len() + create.foreign_keys@.len()) as int,
        inlines(create).len(),
    );
    if n <= k < t.data.graph.len() {
        assert(t.data.graph[k] == table_edges(create, plan, generation)[k - n]);
    }
}

proof fn lemma_inline_edges_kind(create: CreateTable, names: Seq<Seq<char>>, at: int, n: nat)
    requires
        n <= inlines(create).len(),
    ensures
        inline_edges(create, names, at, n).len() <= n,
        forall|k: int|
            0 <= k < inline_edges(create, names, at, n).len() ==> (#[trigger] inline_edges(create, names, at, n)[k]).kind is ConstraintDependency
                && inline_edges(create, names, at, n)[k].dependent == create.id@ && inline_edges(create, names, at, n)[k].referenced == create.id@,
    decreases n,
{
    if n > 0 {
        lemma_inline_edges_kind(create, names, at, (n - 1) as nat);
    }
}

/// Creating a table takes no edge away, and adds none but its own: what comes in
/// leads from the table, or from a sequence that it owns to the table.
pub proof fn law_new_edges_are_of_the_table(s: AnalysisStateView, create: CreateTable, c: Option<CascadeView>, t: AnalysisStateView, r: MutationResultView, k: int)
    requires
        applied(s, Mutation::CreateTable(create), c, t, r),
        r is Applied,
        0 <= k < t.data.graph.len(),
    ensures
        t.data.graph.len() >= s.data.graph.len(),
        k < s.data.graph.len() ==> t.data.graph[k] == s.data.graph[k],
        k >= s.data.graph.len() ==> (t.data.graph[k].dependent == create.id@ || (t.data.graph[k].kind is SequenceOwnedBy && t.data.graph[k].referenced
            == create.id@)),
{
    let names = lemma_created(s, create, c, t, r);
    let plan = table_plan(s.data, create, names);
    let generation = (s.data.generation_counter + 1) as u64;
    let n = s.data.graph.len();
    lemma_inline_edges_kind(
        create,
        plan.names,
        (primary_request(create).len() + uniques(create).len() + create.foreign_keys@.len()) as int,
        inlines(create).len(),
    );
    if n <= k {
        assert(t.data.graph[k] == table_edges(create, plan, generation)[k - n]);
    }
}

// ---------------------------------------------------------------------------
// Constraints
// ---------------------------------------------------------------------------

proof fn lemma_constraints(m: Map<(ObjectIdView, Seq<char>), ConstraintStateView>, id: ObjectIdView, requests: Seq<NameRequestView>, names: Seq<Seq<char>>, n: nat)
    requires
        names.len() == requests.len(),
        names.no_duplicates(),
        n <= names.len(),
    ensures
        ({
            let after = with_table_constraints(m, id, requests, names, n);
            &&& forall|i: int|
                0 <= i < n ==> after.dom().contains((id, #[trigger] names[i])) && after[(id, names[i])] == (ConstraintStateView {
                    table_id: id,
                    name: names[i],
                    kind: requests[i].kind,
                    validated: true,
                    backing_index: None,
                })
            &&& forall|key: (ObjectIdView, Seq<char>)|
                key.0 != id ==> (#[trigger] after.dom().contains(key) <==> m.dom().contains(key)) && (m.dom().contains(key) ==> after[key] == m[key])
        }),
    decreases n,
{
    if n > 0 {
        lemma_constraints(m, id, requests, names, (n - 1) as nat);
        let before = with_table_constraints(m, id, requests, names, (n - 1) as nat);
        let after = with_table_constraints(m, id, requests, names, n);
        assert forall|i: int| 0 <= i < n implies after.dom().contains((id, #[trigger] names[i])) && after[(id, names[i])] == (ConstraintStateView {
            table_id: id,
            name: names[i],
            kind: requests[i].kind,
            validated: true,
            backing_index: None,
        }) by {
            if i < n - 1 {
                assert(names[i] != names[n - 1]);
            }
        }
    }
}

/// Whether a table has a constraint of a kind under a name, validated.
pub open spec fn has_valid_constraint(d: StateData, id: ObjectIdView, name: Seq<char>, kind: ConstraintKind) -> bool {
    d.constraints.dom().contains((id, name)) && d.constraints[(id, name)].kind == kind && d.constraints[(id, name)].validated && d.constraints[(
        id,
        name,
    )].table_id == id && d.constraints[(id, name)].name == name
}

/// Each foreign key of a new table is a constraint of the table and an edge to
/// the table that it refers to. The edge has the columns that are written, in
/// their order, and the name of the constraint, which is the one that is written
/// if one is.
pub proof fn law_foreign_key_leads_to_its_target(s: AnalysisStateView, create: CreateTable, c: Option<CascadeView>, t: AnalysisStateView, r: MutationResultView, i: int)
    requires
        applied(s, Mutation::CreateTable(create), c, t, r),
        r is Applied,
        0 <= i < create.foreign_keys@.len(),
    ensures
        exists|k: int|
            s.data.graph.len() <= k < t.data.graph.len() && (#[trigger] t.data.graph[k]).dependent == create.id@ && t.data.graph[k].referenced
                == create.foreign_keys@[i].to_table@ && match t.data.graph[k].kind {
                DependencyKindView::ForeignKey { constraint_name, from_columns, to_columns, from_generation, .. } => {
                    &&& from_columns == create.foreign_keys@[i].from_columns.deep_view()
                    &&& create.foreign_keys@[i].to_columns.deep_view().len() > 0 ==> to_columns == create.foreign_keys@[i].to_columns.deep_view()
                    &&& constraint_name is Some
                    &&& create.foreign_keys@[i].constraint_name is Some ==> constraint_name->0 == create.foreign_keys@[i].constraint_name->0@
                    &&& has_valid_constraint(t.data, create.id@, constraint_name->0, ConstraintKind::ForeignKey)
                    &&& from_generation == at(t.data.relations, create.id@)->0.generation
                },
                _ => false,
            },
{
    let names = lemma_created(s, create, c, t, r);
    let requests = name_requests(create);
    let plan = table_plan(s.data, create, names);
    let generation = (s.data.generation_counter + 1) as u64;
    let n = s.data.graph.len();
    let b = primary_request(create).len() + uniques(create).len();
    let at_edge = sequence_edges(create, plan.sequences).len() + uniques(create).len() + partition_edge(create).len();
    let k = n + at_edge + i;
    let fk = create.foreign_keys@[i];
    lemma_constraints(s.data.constraints, create.id@, requests, names, requests.len());
    assert(requests[b + i] == fk_request(fk));
    assert(t.data.graph[k] == table_edges(create, plan, generation)[at_edge + i]);
    assert(t.data.graph[k] == fk_edges(create, plan, generation, b as int)[i]);
    lemma_fk_accepted(s.data, create, 0, i);
    if fk.to_columns.deep_view().len() > 0 {
        lemma_written_columns(s.data, create, fk);
    }
    assert(has_valid_constraint(t.data, create.id@, names[b + i], ConstraintKind::ForeignKey));
}

proof fn lemma_fk_accepted(d: StateData, create: CreateTable, from: nat, i: int)
    requires
        from <= i < create.foreign_keys@.len(),
        first_refused_fk(d, create, from) >= create.foreign_keys@.len(),
    ensures
        fk_checked(d, create, create.foreign_keys@[i]).refusal is None,
    decreases i - from,
{
    if from < i {
        lemma_fk_accepted(d, create, from + 1, i);
    }
}

proof fn lemma_written_columns(d: StateData, create: CreateTable, fk: FkMutation)
    requires
        fk_checked(d, create, fk).refusal is None,
        fk.to_columns.deep_view().len() > 0,
    ensures
        fk_checked(d, create, fk).columns == fk.to_columns.deep_view(),
{
    reveal(fk_checked);
    reveal(key_checked);
}

/// Every constraint of another table is as it was, and a constraint of the new
/// table that has a name written has that name.
pub proof fn law_other_constraints_stay(s: AnalysisStateView, create: CreateTable, c: Option<CascadeView>, t: AnalysisStateView, r: MutationResultView, table: ObjectIdView, name: Seq<char>)
    requires
        applied(s, Mutation::CreateTable(create), c, t, r),
        r is Applied,
        table != create.id@,
    ensures
        t.data.constraints.dom().contains((table, name)) == s.data.constraints.dom().contains((table, name)),
        s.data.constraints.dom().contains((table, name)) ==> t.data.constraints[(table, name)] == s.data.constraints[(table, name)],
{
    let names = lemma_created(s, create, c, t, r);
    lemma_constraints(s.data.constraints, create.id@, name_requests(create), names, name_requests(create).len());
}

/// A column that is declared unique, and each `UNIQUE` clause, is a unique
/// constraint of the table and an edge that gives its columns.
pub proof fn law_unique_key_is_recorded(s: AnalysisStateView, create: CreateTable, c: Option<CascadeView>, t: AnalysisStateView, r: MutationResultView, i: int, k: int)
    requires
        applied(s, Mutation::CreateTable(create), c, t, r),
        r is Applied,
    ensures
        0 <= i < create.columns@.len() && create.columns@[i].is_unique ==> has_unique_key(
            s.data,
            t.data,
            create.id@,
            seq![create.columns@[i].name@],
            create.columns@[i].unique_constraint_name.deep_view(),
        ),
        0 <= k < create.table_constraints.deep_view().len() ==> match create.table_constraints.deep_view()[k] {
            TableConstraintFactView::Unique { constraint_name, columns } => has_unique_key(s.data, t.data, create.id@, columns, constraint_name),
            _ => true,
        },
{
    let names = lemma_created(s, create, c, t, r);
    let requests = name_requests(create);
    lemma_constraints(s.data.constraints, create.id@, requests, names, requests.len());
    let all = uniques(create);
    if 0 <= i < create.columns@.len() && create.columns@[i].is_unique {
        let p = |x: ColumnMutation| x.is_unique;
        lemma_filtered(create.columns@, p);
        let list = create.columns@.filter(p);
        assert(create.columns@.contains(create.columns@[i]));
        let j = choose|j: int| 0 <= j < list.len() && list[j] == create.columns@[i];
        assert(unique_columns(create)[j] == (create.columns@[i].unique_constraint_name.deep_view(), seq![create.columns@[i].name@]));
        assert(all[j] == unique_columns(create)[j]);
        lemma_unique_at(s, create, t, names, j);
    }
    if 0 <= k < create.table_constraints.deep_view().len() && create.table_constraints.deep_view()[k] is Unique {
        let rows = create.table_constraints.deep_view();
        let p = |x: TableConstraintFactView| x is Unique;
        lemma_filtered(rows, p);
        let list = rows.filter(p);
        assert(rows.contains(rows[k]));
        let j = choose|j: int| 0 <= j < list.len() && list[j] == rows[k];
        let at_unique = unique_columns(create).len() + j;
        assert(all[at_unique] == unique_constraints(create)[j]);
        lemma_unique_at(s, create, t, names, at_unique);
    }
}

/// Whether a table has a unique constraint on columns that it did not have, and
/// the edge that says so; under the name that is written, if one is.
pub open spec fn has_unique_key(before: StateData, d: StateData, id: ObjectIdView, columns: Seq<Seq<char>>, written: Option<Seq<char>>) -> bool {
    exists|k: int|
        before.graph.len() <= k < d.graph.len() && (#[trigger] d.graph[k]).dependent == id && d.graph[k].referenced == id && match d.graph[k].kind {
            DependencyKindView::ConstraintOnRelation { constraint_name, columns: x, is_primary } => x == columns && !is_primary && has_valid_constraint(
                d,
                id,
                constraint_name,
                ConstraintKind::Unique,
            ) && (written is Some ==> constraint_name == written->0),
            _ => false,
        }
}

proof fn lemma_unique_at(s: AnalysisStateView, create: CreateTable, t: AnalysisStateView, names: Seq<Seq<char>>, j: int)
    requires
        0 <= j < uniques(create).len(),
        names.len() == name_requests(create).len(),
        forall|i: int|
            0 <= i < names.len() && (#[trigger] name_requests(create)[i]).explicit is Some ==> names[i] == name_requests(create)[i].explicit->0,
        forall|i: int| 0 <= i < names.len() ==> t.data.constraints.dom().contains((create.id@, #[trigger] names[i])) && t.data.constraints[(
            create.id@,
            names[i],
        )] == (ConstraintStateView { table_id: create.id@, name: names[i], kind: name_requests(create)[i].kind, validated: true, backing_index: None }),
        t.data.graph == s.data.graph + table_edges(create, table_plan(s.data, create, names), (s.data.generation_counter + 1) as u64),
    ensures
        has_unique_key(s.data, t.data, create.id@, uniques(create)[j].1, uniques(create)[j].0),
{
    let requests = name_requests(create);
    let plan = table_plan(s.data, create, names);
    let generation = (s.data.generation_counter + 1) as u64;
    let a = primary_request(create).len();
    let at_edge = sequence_edges(create, plan.sequences).len() + j;
    let k = s.data.graph.len() + at_edge;
    assert(requests[a + j] == unique_request(uniques(create)[j]));
    assert(t.data.graph[k] == table_edges(create, plan, generation)[at_edge]);
    assert(t.data.graph[k] == unique_edges(create, names, a as int)[j]);
    assert(has_valid_constraint(t.data, create.id@, names[a + j], ConstraintKind::Unique));
}

/// The primary key of a new table is a constraint of it and an edge that gives
/// its columns: those of the `PRIMARY KEY` clause, or the column that is declared
/// as primary key. There is at most one; without a declaration there is none.
pub proof fn law_primary_key_is_recorded(s: AnalysisStateView, create: CreateTable, c: Option<CascadeView>, t: AnalysisStateView, r: MutationResultView, i: int, k: int, x: int)
    requires
        applied(s, Mutation::CreateTable(create), c, t, r),
        r is Applied,
    ensures
        0 <= i < create.columns@.len() && create.columns@[i].is_primary_key ==> has_primary_key_on(s.data, t.data, create.id@, seq![create.columns@[i].name@]),
        0 <= k < create.table_constraints.deep_view().len() ==> match create.table_constraints.deep_view()[k] {
            TableConstraintFactView::PrimaryKey { columns, .. } => has_primary_key_on(s.data, t.data, create.id@, columns),
            _ => true,
        },
        s.data.graph.len() <= x < t.data.graph.len() ==> match t.data.graph[x].kind {
            DependencyKindView::ConstraintOnRelation { is_primary, .. } => is_primary ==> (exists|j: int|
                0 <= j < create.columns@.len() && (#[trigger] create.columns@[j]).is_primary_key) || (exists|j: int|
                0 <= j < create.table_constraints.deep_view().len() && #[trigger] create.table_constraints.deep_view()[j] is PrimaryKey),
            _ => true,
        },
{
    let names = lemma_created(s, create, c, t, r);
    reveal(table_refusal);
    let requests = name_requests(create);
    lemma_constraints(s.data.constraints, create.id@, requests, names, requests.len());
    let plan = table_plan(s.data, create, names);
    let generation = (s.data.generation_counter + 1) as u64;
    let rows = create.table_constraints.deep_view();
    let p = |q: ColumnMutation| q.is_primary_key;
    let q = |q: TableConstraintFactView| is_primary_constraint(q);
    lemma_filtered(create.columns@, p);
    lemma_filtered(rows, q);
    let columns = create.columns@.filter(p);
    let clauses = rows.filter(q);
    assert(columns.len() == primary_columns(create).len());
    assert(clauses == primary_constraints(create));
    if primary_request(create).len() > 0 {
        let edges = table_edges(create, plan, generation);
        let last = t.data.graph.len() - 1;
        assert(t.data.graph[last] == edges[edges.len() - 1]);
        assert(t.data.graph[last] == primary_edge(create, names)[0]);
        assert(requests[0] == primary_request(create)[0]);
        assert(has_valid_constraint(t.data, create.id@, names[0], ConstraintKind::PrimaryKey));
        assert(has_primary_key_on(s.data, t.data, create.id@, primary_key_columns(create)));
    }
    if 0 <= i < create.columns@.len() && create.columns@[i].is_primary_key {
        assert(create.columns@.contains(create.columns@[i]));
        let j = choose|j: int| 0 <= j < columns.len() && columns[j] == create.columns@[i];
        assert(columns.len() == 1 && clauses.len() == 0);
        assert(primary_columns(create) =~= seq![create.columns@[i].name@]);
    }
    if 0 <= k < rows.len() && rows[k] is PrimaryKey {
        assert(rows.contains(rows[k]));
        let j = choose|j: int| 0 <= j < clauses.len() && clauses[j] == rows[k];
        assert(clauses.len() == 1 && columns.len() == 0);
    }
    lemma_inline_edges_kind(
        create,
        plan.names,
        (primary_request(create).len() + uniques(create).len() + create.foreign_keys@.len()) as int,
        inlines(create).len(),
    );
    if s.data.graph.len() <= x < t.data.graph.len() {
        assert(t.data.graph[x] == table_edges(create, plan, generation)[x - s.data.graph.len()]);
        if primary_request(create).len() > 0 {
            if columns.len() > 0 {
                assert(columns.contains(columns[0]));
                let j = choose|j: int| 0 <= j < create.columns@.len() && create.columns@[j] == columns[0];
                assert(create.columns@[j].is_primary_key);
            } else {
                assert(clauses.contains(clauses[0]));
                let j = choose|j: int| 0 <= j < rows.len() && rows[j] == clauses[0];
                assert(rows[j] is PrimaryKey);
            }
        }
    }
}

pub open spec fn has_primary_key_on(before: StateData, d: StateData, id: ObjectIdView, columns: Seq<Seq<char>>) -> bool {
    exists|k: int|
        before.graph.len() <= k < d.graph.len() && (#[trigger] d.graph[k]).dependent == id && d.graph[k].referenced == id && match d.graph[k].kind {
            DependencyKindView::ConstraintOnRelation { constraint_name, columns: x, is_primary } => x == columns && is_primary && has_valid_constraint(
                d,
                id,
                constraint_name,
                ConstraintKind::PrimaryKey,
            ),
            _ => false,
        }
}

/// A name that is taken is not created again: with `IF NOT EXISTS` nothing
/// happens, else there is a conflict that changes nothing. Nor is a table
/// created that has two columns of one name, or two primary keys.
pub proof fn law_taken_name_is_not_created(s: AnalysisStateView, create: CreateTable, c: Option<CascadeView>, t: AnalysisStateView, r: MutationResultView, i: int, j: int)
    requires
        applied(s, Mutation::CreateTable(create), c, t, r),
        !s.aborted,
        at(s.data.schemas, create.id@.schema) is Some,
    ensures
        at(s.data.relations, create.id@) is Some || at(s.data.sequences, create.id@) is Some || at(s.data.types, create.id@) is Some ==> t.data == s.data
            && (if create.if_not_exists {
            r is Skipped
        } else {
            r is Conflict
        }),
        0 <= i < j < create.columns@.len() && create.columns@[i].name@ == create.columns@[j].name@ ==> !(r is Applied),
        0 <= i < j < create.columns@.len() && create.columns@[i].is_primary_key && create.columns@[j].is_primary_key ==> !(r is Applied),
{
    lemma_on_objects(s, Mutation::CreateTable(create), c, t, r);
    reveal(object_effect);
    reveal(refused);
    reveal(table_refusal);
    if r is Applied {
        let names = lemma_created(s, create, c, t, r);
        lemma_distinct_columns(create);
        if 0 <= i < j < create.columns@.len() && create.columns@[i].is_primary_key && create.columns@[j].is_primary_key {
            let p = |q: ColumnMutation| q.is_primary_key;
            lemma_filtered(create.columns@, p);
            let columns = create.columns@.filter(p);
            assert(create.columns@.contains(create.columns@[i]));
            assert(create.columns@.contains(create.columns@[j]));
            let a = choose|a: int| 0 <= a < columns.len() && columns[a] == create.columns@[i];
            let b = choose|b: int| 0 <= b < columns.len() && columns[b] == create.columns@[j];
            assert(primary_columns(create).len() == columns.len());
            assert(create.columns@[i].name@ != create.columns@[j].name@);
        }
    }
}

/// Every serial or identity column of a new table owns a new sequence.
pub proof fn law_drawing_columns_own_sequences(s: AnalysisStateView, create: CreateTable, c: Option<CascadeView>, t: AnalysisStateView, r: MutationResultView, i: int)
    requires
        applied(s, Mutation::CreateTable(create), c, t, r),
        r is Applied,
        0 <= i < create.columns@.len(),
        !(create.columns@[i].generation is Ordinary),
    ensures
        exists|k: int|
            s.data.graph.len() <= k < t.data.graph.len() && (#[trigger] t.data.graph[k]).referenced == create.id@ && t.data.graph[k].kind == (
            DependencyKindView::SequenceOwnedBy { column: create.columns@[i].name@ }),
{
    let names = lemma_created(s, create, c, t, r);
    let plan = table_plan(s.data, create, names);
    let generation = (s.data.generation_counter + 1) as u64;
    lemma_implicit_of(s.data, create, create.columns@.len(), i);
    let list = plan.sequences;
    let j = choose|j: int|
        0 <= j < list.len() && (#[trigger] list[j]).column == create.columns@[i].name@ && Some(list[j].kind) == sequence_kind(create.columns@[i].generation);
    let k = s.data.graph.len() + j;
    assert(t.data.graph[k] == table_edges(create, plan, generation)[j]);
    assert(t.data.graph[k] == sequence_edges(create, list)[j]);
}

} // verus!
