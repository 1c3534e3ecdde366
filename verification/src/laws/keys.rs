//! Foreign keys and generated names: what a key may refer to, and what an object
//! is called that the statement does not name.
use crate::collections::lemma_filtered;
use crate::graph::{resolved, DependencyEdgeView};
use crate::identifiers::ObjectIdView;
use crate::laws::at;
use crate::model::relation::RelationKind;
use crate::state::foreign_keys::{
    checked_against, first_missing, first_repeated, has_key_column, is_key_edge, key_checked, key_column, key_of_edge, known_keys, primary_keys,
    target_of, type_match_at, unique_keys, KeyColumnView, KeyTargetView, KeyUseView, TypeMatch,
};
use crate::state::generated_names::{object_name, text_bytes, MAX_IDENTIFIER_BYTES};
use crate::state::StateData;
use vstd::prelude::*;

verus! {

proof fn lemma_repeated(names: Seq<Seq<char>>, from: nat)
    ensures
        first_repeated(names, from) >= names.len() ==> forall|i: int, j: int| from <= j < names.len() && 0 <= i < j ==> #[trigger] names[i] != #[trigger] names[j],
    decreases names.len() - from,
{
    if from < names.len() {
        lemma_repeated(names, from + 1);
        if first_repeated(names, from) >= names.len() {
            assert forall|i: int, j: int| from <= j < names.len() && 0 <= i < j implies #[trigger] names[i] != #[trigger] names[j] by {
                if j == from {
                    assert(names.take(from as int)[i] == names[i]);
                }
            }
        }
    }
}

proof fn lemma_none_missing(names: Seq<Seq<char>>, columns: Seq<KeyColumnView>, from: nat, i: int)
    requires
        from <= i < names.len(),
        first_missing(names, columns, from) >= names.len(),
    ensures
        has_key_column(columns, names[i]),
    decreases i - from,
{
    if from < i {
        lemma_none_missing(names, columns, from + 1, i);
    }
}

/// A foreign key that is accepted has columns, none of them twice, and as many
/// that it refers to, or none written. Its own columns are there, where they are
/// known; so are those that it refers to.
pub proof fn law_accepted_key_is_well_formed(
    d: StateData,
    k: KeyUseView,
    sources: Seq<KeyColumnView>,
    sources_known: bool,
    own: Option<KeyTargetView>,
    i: int,
    j: int,
)
    requires
        key_checked(d, k, sources, sources_known, own).refusal is None,
    ensures
        k.from_columns.len() > 0,
        k.to_columns.len() == 0 || k.to_columns.len() == k.from_columns.len(),
        0 <= i < j < k.from_columns.len() ==> k.from_columns[i] != k.from_columns[j],
        0 <= i < j < k.to_columns.len() ==> k.to_columns[i] != k.to_columns[j],
        sources_known && 0 <= i < k.from_columns.len() ==> exists|c: int| 0 <= c < sources.len() && (#[trigger] sources[c]).name == k.from_columns[i],
        own is Some && own->0.columns_known && 0 <= i < k.to_columns.len() ==> exists|c: int|
            0 <= c < own->0.columns.len() && (#[trigger] own->0.columns[c]).name == k.to_columns[i],
        own is None ==> at(d.relations, k.to_table) is Some && at(d.relations, k.to_table)->0.kind == RelationKind::Table,
        own is None && !d.baseline_relations.contains(k.to_table) && 0 <= i < k.to_columns.len() ==> exists|c: int|
            0 <= c < at(d.relations, k.to_table)->0.columns.len() && (#[trigger] at(d.relations, k.to_table)->0.columns[c]).name == k.to_columns[i],
{
    reveal(key_checked);
    lemma_repeated(k.from_columns, 0);
    lemma_repeated(k.to_columns, 0);
    if 0 <= i < k.from_columns.len() && sources_known {
        lemma_none_missing(k.from_columns, sources, 0, i);
    }
    let target = if own is Some {
        own->0
    } else {
        target_of(d, k.to_table)
    };
    if 0 <= i < k.to_columns.len() && target.columns_known {
        lemma_none_missing(k.to_columns, target.columns, 0, i);
        let c = choose|c: int| 0 <= c < target.columns.len() && (#[trigger] target.columns[c]).name == k.to_columns[i];
        if own is None {
            assert(at(d.relations, k.to_table)->0.columns[c].name == k.to_columns[i]);
        }
    }
}

/// What an accepted foreign key refers to: the columns that are written, else
/// those of the primary key. Where the keys of the table are known, the columns
/// are those of one of them. Columns whose types are known have the same type as
/// those that they refer to.
pub proof fn law_accepted_key_refers_to_a_key(k: KeyUseView, sources: Seq<KeyColumnView>, target: KeyTargetView, i: int)
    requires
        checked_against(k, sources, target).refusal is None,
    ensures
        ({
            let columns = checked_against(k, sources, target).columns;
            &&& k.to_columns.len() > 0 ==> columns == k.to_columns
            &&& target.keys is Some ==> exists|n: int| 0 <= n < target.keys->0.len() && (#[trigger] target.keys->0[n]).0 == columns
            &&& target.keys is Some && k.to_columns.len() == 0 ==> exists|n: int|
                0 <= n < target.keys->0.len() && (#[trigger] target.keys->0[n]).0 == columns && target.keys->0[n].1
            &&& 0 <= i < k.from_columns.len() && i < columns.len() && key_column(sources, k.from_columns[i]) is Some && key_column(
                target.columns,
                columns[i],
            ) is Some ==> {
                let a = key_column(sources, k.from_columns[i])->0;
                let b = key_column(target.columns, columns[i])->0;
                a.type_id is Some && b.type_id is Some ==> a.type_id == b.type_id
            }
        }),
{
    let columns = checked_against(k, sources, target).columns;
    if target.keys is Some {
        let keys = target.keys->0;
        let p = |key: (Seq<Seq<char>>, bool)| key.1;
        lemma_filtered(keys, p);
        assert(primary_keys(keys) == keys.filter(p));
        if k.to_columns.len() == 0 {
            assert(keys.contains(keys.filter(p)[0]) && p(keys.filter(p)[0]));
            let n = choose|n: int| 0 <= n < keys.len() && keys[n] == keys.filter(p)[0];
            assert(keys[n].0 == columns && keys[n].1);
        }
    }
    if 0 <= i < k.from_columns.len() && i < columns.len() {
        assert(type_match_at(k, columns, sources, target, i) != TypeMatch::Different);
    }
}

/// The keys of a relation are those that edges of its keys show, and only those.
pub proof fn law_keys_are_those_shown(d: StateData, id: ObjectIdView, columns: Seq<Seq<char>>, is_primary: bool)
    requires
        unique_keys(d, id) is Some,
    ensures
        unique_keys(d, id)->0.contains((columns, is_primary)) <==> exists|k: int|
            0 <= k < d.graph.len() && (#[trigger] d.graph[k]).dependent == resolved(d.graph, id) && d.graph[k].kind is ConstraintOnRelation
                && d.graph[k].kind->ConstraintOnRelation_columns == columns && d.graph[k].kind->is_primary == is_primary && columns.len() > 0,
{
    reveal(unique_keys);
    let table = resolved(d.graph, id);
    let p = |e: DependencyEdgeView| is_key_edge(e, table);
    lemma_filtered(d.graph, p);
    let shown = d.graph.filter(p);
    let keys = known_keys(d.graph, table);
    assert(keys == shown.map_values(|e: DependencyEdgeView| key_of_edge(e)));
    if keys.contains((columns, is_primary)) {
        let i = choose|i: int| 0 <= i < keys.len() && keys[i] == (columns, is_primary);
        assert(d.graph.contains(shown[i]) && p(shown[i]));
        let k = choose|k: int| 0 <= k < d.graph.len() && d.graph[k] == shown[i];
        assert(d.graph[k].dependent == table);
    }
    if exists|k: int|
        0 <= k < d.graph.len() && (#[trigger] d.graph[k]).dependent == table && d.graph[k].kind is ConstraintOnRelation
            && d.graph[k].kind->ConstraintOnRelation_columns == columns && d.graph[k].kind->is_primary == is_primary && columns.len() > 0 {
        let k = choose|k: int|
            0 <= k < d.graph.len() && (#[trigger] d.graph[k]).dependent == table && d.graph[k].kind is ConstraintOnRelation
                && d.graph[k].kind->ConstraintOnRelation_columns == columns && d.graph[k].kind->is_primary == is_primary && columns.len() > 0;
        assert(d.graph.contains(d.graph[k]) && p(d.graph[k]));
        assert(shown.contains(d.graph[k]));
        let i = choose|i: int| 0 <= i < shown.len() && shown[i] == d.graph[k];
        assert(keys[i] == (columns, is_primary));
    }
}

/// A generated name that fits is made of the names and the label as they are,
/// with underscores between them.
pub proof fn law_short_names_stay_whole(name1: Seq<char>, name2: Seq<char>, label: Seq<char>)
    ensures
        text_bytes(name1) + text_bytes(name2) + text_bytes(label) + 2 <= MAX_IDENTIFIER_BYTES ==> object_name(name1, Some(name2), label) == name1 + "_"@
            + name2 + "_"@ + label,
        text_bytes(name1) + text_bytes(label) + 1 <= MAX_IDENTIFIER_BYTES ==> object_name(name1, None, label) == name1 + "_"@ + label,
{
}

} // verus!
