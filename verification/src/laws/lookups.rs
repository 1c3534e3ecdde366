//! Looking objects up: what is there, what was dropped, and when absence is
//! proved.
use crate::cache::{CatalogFamily, SchemaScopeView};
use crate::collections::lemma_filtered;
use crate::graph::DependencyEdgeView;
use crate::identifiers::ObjectIdView;
use crate::laws::at;
use crate::model::relation::RelationKind;
use crate::state::lookup::{
    covers_family, covers_object, index_lookup, namespace_taken, relation_lookup, role_lookup, schema_lookup, sequence_lookup, trigger_lookup,
    RelationFilter,
};
use crate::state::pre_state::{column_is_new, is_usable_unique_index, pre_state_of, relation_before, type_lookup, TypeFilter};
use crate::state::StateData;
use crate::transaction::{StateChangeView, TransactionFrameView};
use vstd::prelude::*;

verus! {

/// Whether the catalog was read completely for the schema of an object.
pub open spec fn is_covered(d: StateData, schema: Seq<char>) -> bool {
    &&& d.baseline_available
    &&& d.baseline_schemas is None || d.baseline_schemas->0.contains(schema)
    &&& match d.baseline_coverage.schema_scope {
        SchemaScopeView::All => true,
        SchemaScopeView::Only(schemas) => schemas.contains(schema),
    }
}

/// Whether a statement accepts a kind of relation.
pub open spec fn takes(filter: RelationFilter, kind: RelationKind) -> bool {
    match kind {
        RelationKind::Table => filter is Any || filter is Table || filter is Indexable,
        RelationKind::View => filter is Any || filter is View,
        RelationKind::MaterializedView => filter is Any || filter is MaterializedView || filter is Indexable,
    }
}

/// A relation is found where it is there and of a kind that is accepted, and is of
/// the wrong kind where it is there and of another one. Absence is proved where it
/// was dropped, or where the catalog was read for its schema and its family and
/// holds nothing under that name; else nothing is known.
pub proof fn law_relation_is_found(d: StateData, id: ObjectIdView, filter: RelationFilter)
    ensures
        ({
            let found = relation_lookup(d, id, filter);
            let there = at(d.relations, id);
            &&& found is Present <==> there is Some && takes(filter, there->0.kind)
            &&& there is Some && !takes(filter, there->0.kind) ==> found is WrongKind
            &&& there is None && d.relations.dom().contains(id) ==> found is Tombstone
            &&& !d.relations.dom().contains(id) && at(d.sequences, id) is Some ==> found is WrongKind
            &&& found is AuthoritativelyAbsent ==> !d.relations.dom().contains(id) && is_covered(d, id.schema)
                && d.baseline_coverage.families.contains(CatalogFamily::Relations)
            &&& found is Unknown ==> !(is_covered(d, id.schema) && d.baseline_coverage.families.contains(CatalogFamily::Relations))
        }),
{
}

/// Sequences, triggers, schemas, roles and indexes are found where they are
/// there; absence is proved by a drop or by a catalog that was read.
pub proof fn law_others_are_found(d: StateData, id: ObjectIdView, schema: Seq<char>, k: int)
    ensures
        sequence_lookup(d, id) is Present <==> at(d.sequences, id) is Some,
        trigger_lookup(d, id) is Present <==> at(d.triggers, id) is Some,
        role_lookup(d, id) is Present <==> at(d.roles, id) is Some,
        schema_lookup(d, schema) is Present <==> at(d.schemas, schema) is Some,
        0 <= k < d.graph.len() && d.graph[k].kind is IndexOnRelation && d.graph[k].dependent == id ==> index_lookup(d, id) is Present,
        index_lookup(d, id) is Present ==> exists|j: int| 0 <= j < d.graph.len() && (#[trigger] d.graph[j]).kind is IndexOnRelation && d.graph[j].dependent
            == id,
        sequence_lookup(d, id) is Tombstone <==> at(d.sequences, id) is None && d.sequences.dom().contains(id),
        role_lookup(d, id) is Tombstone <==> at(d.roles, id) is None && d.roles.dom().contains(id),
        schema_lookup(d, schema) is Tombstone <==> at(d.schemas, schema) is None && d.schemas.dom().contains(schema),
        sequence_lookup(d, id) is AuthoritativelyAbsent <==> !d.sequences.dom().contains(id) && is_covered(d, id.schema),
        role_lookup(d, id) is AuthoritativelyAbsent <==> !d.roles.dom().contains(id) && d.roles_known,
        schema_lookup(d, schema) is AuthoritativelyAbsent <==> !d.schemas.dom().contains(schema) && d.baseline_available
            && d.baseline_coverage.families.contains(CatalogFamily::Schemas) && (d.baseline_schemas is None || d.baseline_schemas->0.contains(schema)),
{
    if 0 <= k < d.graph.len() && d.graph[k].kind is IndexOnRelation && d.graph[k].dependent == id {
        assert(crate::state::lookup::is_index(d.graph[k], id));
    }
    if crate::state::lookup::index_present(d, id) {
        let j = choose|j: int| 0 <= j < d.graph.len() && crate::state::lookup::is_index(#[trigger] d.graph[j], id);
        assert(d.graph[j].kind is IndexOnRelation && d.graph[j].dependent == id);
    }
}

/// Relations, sequences, indexes and types share their names.
pub proof fn law_names_are_shared(d: StateData, id: ObjectIdView)
    ensures
        namespace_taken(d, id) <==> at(d.relations, id) is Some || at(d.sequences, id) is Some || at(d.types, id) is Some || exists|k: int|
            0 <= k < d.graph.len() && (#[trigger] d.graph[k]).kind is IndexOnRelation && d.graph[k].dependent == id,
{
    if exists|k: int| 0 <= k < d.graph.len() && (#[trigger] d.graph[k]).kind is IndexOnRelation && d.graph[k].dependent == id {
        let k = choose|k: int| 0 <= k < d.graph.len() && (#[trigger] d.graph[k]).kind is IndexOnRelation && d.graph[k].dependent == id;
        assert(crate::state::lookup::is_index(d.graph[k], id));
    }
    if crate::state::lookup::index_present(d, id) {
        let j = choose|j: int| 0 <= j < d.graph.len() && crate::state::lookup::is_index(#[trigger] d.graph[j], id);
        assert(d.graph[j].kind is IndexOnRelation && d.graph[j].dependent == id);
    }
}

/// The catalog answers for an object where it was read for its schema, and for
/// its family where that was read too.
pub proof fn law_catalog_answers_for_what_was_read(d: StateData, id: ObjectIdView, family: CatalogFamily)
    ensures
        covers_object(d, id) == is_covered(d, id.schema),
        covers_family(d, id, family) == (is_covered(d, id.schema) && d.baseline_coverage.families.contains(family)),
{
}

/// Types are found by what a statement accepts: enums, domains or anything but
/// domains.
pub proof fn law_type_is_found(d: StateData, id: ObjectIdView, filter: TypeFilter)
    ensures
        ({
            let there = at(d.types, id);
            let fits = match filter {
                TypeFilter::Any => true,
                TypeFilter::Enum => there->0.kind is Enum,
                TypeFilter::Domain => there->0.kind is Domain,
                TypeFilter::NotDomain => !(there->0.kind is Domain),
            };
            &&& type_lookup(d, id, filter) is Present <==> there is Some && fits
            &&& type_lookup(d, id, filter) is WrongKind <==> there is Some && !fits
            &&& type_lookup(d, id, filter) is Tombstone <==> there is None && d.types.dom().contains(id)
        }),
{
}

// ---------------------------------------------------------------------------
// What a statement finds
// ---------------------------------------------------------------------------

/// What is captured before a statement is what is there, family by family, and
/// the indexes in their order.
pub proof fn law_what_is_there_is_captured(d: StateData, id: ObjectIdView, name: Seq<char>, e: DependencyEdgeView)
    ensures
        ({
            let p = pre_state_of(d);
            &&& p.relations.dom().contains(id) <==> at(d.relations, id) is Some
            &&& at(d.relations, id) is Some ==> p.relations[id] == at(d.relations, id)->0
            &&& p.functions.dom().contains(id) <==> at(d.functions, id) is Some
            &&& at(d.functions, id) is Some ==> p.functions[id] == at(d.functions, id)->0
            &&& p.roles.dom().contains(id) <==> at(d.roles, id) is Some
            &&& at(d.roles, id) is Some ==> p.roles[id] == at(d.roles, id)->0
            &&& p.sequences.dom().contains(id) <==> at(d.sequences, id) is Some
            &&& at(d.sequences, id) is Some ==> p.sequences[id] == at(d.sequences, id)->0
            &&& p.types.dom().contains(id) <==> at(d.types, id) is Some
            &&& at(d.types, id) is Some ==> p.types[id] == at(d.types, id)->0
            &&& p.publications.dom().contains(name) <==> at(d.publications, name) is Some
            &&& p.subscriptions.dom().contains(name) <==> at(d.subscriptions, name) is Some
            &&& p.indexes.contains(e) <==> d.graph.contains(e) && e.kind is IndexOnRelation
            &&& p.baseline_foreign_keys == d.baseline_foreign_keys
        }),
{
    let q = |x: DependencyEdgeView| x.kind is IndexOnRelation;
    lemma_filtered(d.graph, q);
    assert(pre_state_of(d).indexes == d.graph.filter(q));
}

/// A unique index can identify the rows of a relation only where it is of that
/// relation, unique, valid, ready and live, and has neither expressions nor a
/// predicate.
pub proof fn law_usable_index(e: DependencyEdgeView, relation: ObjectIdView)
    ensures
        is_usable_unique_index(e, relation) ==> e.kind is IndexOnRelation && e.referenced == relation && e.kind->is_unique && e.kind->is_valid
            && e.kind->is_ready && e.kind->is_live && !e.kind->has_expression_keys && !e.kind->has_predicate,
        e.kind is IndexOnRelation && e.referenced == relation && e.kind->is_unique && e.kind->is_valid && e.kind->is_ready && e.kind->is_live
            && !e.kind->has_expression_keys && !e.kind->has_predicate && e.kind->eligibility_known ==> is_usable_unique_index(e, relation),
{
}

proof fn lemma_no_record(log: Seq<StateChangeView>, table: ObjectIdView, from: nat)
    requires
        forall|j: int|
            0 <= j < log.len() ==> !(#[trigger] log[j] is RelationSnapshot && log[j]->RelationSnapshot_id == table),
    ensures
        crate::state::pre_state::first_relation_record(log, table, from) is None,
    decreases log.len() - from,
{
    if from < log.len() {
        assert(!(log[from as int] is RelationSnapshot && log[from as int]->RelationSnapshot_id == table));
        lemma_no_record(log, table, from + 1);
    }
}

proof fn lemma_no_frame(frames: Seq<TransactionFrameView>, table: ObjectIdView, from: nat)
    requires
        forall|i: int, j: int|
            0 <= i < frames.len() && 0 <= j < frames[i].undo_log.len() ==> !((#[trigger] frames[i].undo_log[j]) is RelationSnapshot
                && frames[i].undo_log[j]->RelationSnapshot_id == table),
    ensures
        relation_before(frames, table, from) is None,
    decreases frames.len() - from,
{
    if from < frames.len() {
        let log = frames[from as int].undo_log;
        assert forall|j: int| 0 <= j < log.len() implies !(#[trigger] log[j] is RelationSnapshot && log[j]->RelationSnapshot_id == table) by {
            assert(!(frames[from as int].undo_log[j] is RelationSnapshot && frames[from as int].undo_log[j]->RelationSnapshot_id == table));
        }
        lemma_no_record(log, table, 0);
        lemma_no_frame(frames, table, from + 1);
    }
}

/// A column of a table that the transaction did not touch is not new.
pub proof fn law_untouched_column_is_old(frames: Seq<TransactionFrameView>, table: ObjectIdView, column: Seq<char>)
    requires
        forall|i: int, j: int|
            0 <= i < frames.len() && 0 <= j < frames[i].undo_log.len() ==> !((#[trigger] frames[i].undo_log[j]) is RelationSnapshot
                && frames[i].undo_log[j]->RelationSnapshot_id == table),
    ensures
        !column_is_new(frames, table, column),
{
    lemma_no_frame(frames, table, 0);
}

} // verus!
