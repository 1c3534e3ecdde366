//! Publications and subscriptions: edges, options and booleans.
use crate::collections::lemma_filtered;
use crate::facts::{AttributeFactView, PublicationObjectFactView};
use crate::graph::{DependencyEdgeView, DependencyKindView};
use crate::identifiers::ObjectIdView;
use crate::facts::PublicationScopeView;
use crate::state::lookup::relation_id;
use crate::state::replication::{boolean_of, is_edge_of, last_option, option_value, publication_edges, publication_edges_replaced};
use crate::state::StateData;
use crate::text::{ascii_lowercase, trimmed};
use vstd::prelude::*;

verus! {

/// The edge by which a publication holds a table.
pub open spec fn publishes(d: StateData, publication: Seq<char>, o: PublicationObjectFactView, e: DependencyEdgeView) -> bool {
    match o {
        PublicationObjectFactView::Table { name, .. } => e.dependent == relation_id(d, name) && e.referenced == (ObjectIdView {
            schema: "public"@,
            name: publication,
        }) && e.kind == (DependencyKindView::PublicationIncludes { publication_name: publication }),
        _ => false,
    }
}

proof fn lemma_publication_edges(d: StateData, publication: Seq<char>, objects: Seq<PublicationObjectFactView>, n: nat, e: DependencyEdgeView)
    requires
        n <= objects.len(),
    ensures
        publication_edges(d, publication, objects, n).contains(e) <==> exists|i: int| 0 <= i < n && publishes(d, publication, #[trigger] objects[i], e),
    decreases n,
{
    if n > 0 {
        lemma_publication_edges(d, publication, objects, (n - 1) as nat, e);
        let before = publication_edges(d, publication, objects, (n - 1) as nat);
        let after = publication_edges(d, publication, objects, n);
        match objects[n - 1] {
            PublicationObjectFactView::Table { name, .. } => {
                crate::collections::lemma_push_contains(before, after.last(), e);
                assert(after == before.push(after.last()));
                assert(publishes(d, publication, objects[n - 1], after.last()));
                if publishes(d, publication, objects[n - 1], e) {
                    assert(e == after.last());
                }
            },
            _ => {},
        }
        if exists|i: int| 0 <= i < n && publishes(d, publication, #[trigger] objects[i], e) {
            let i = choose|i: int| 0 <= i < n && publishes(d, publication, #[trigger] objects[i], e);
            if i == n - 1 {
                assert(after.contains(e));
            }
        }
    }
}

/// After a publication was given other objects its edges are those of the tables
/// among them. No edge of anything else changes.
pub proof fn law_publication_holds_its_tables(d: StateData, publication: Seq<char>, objects: Seq<PublicationObjectFactView>, e: DependencyEdgeView)
    ensures
        ({
            let after = publication_edges_replaced(d, publication, PublicationScopeView::Explicit(objects));
            let own = e.kind == (DependencyKindView::PublicationIncludes { publication_name: publication });
            &&& !own ==> (after.contains(e) <==> d.graph.contains(e))
            &&& own ==> (after.contains(e) <==> exists|i: int| 0 <= i < objects.len() && publishes(d, publication, #[trigger] objects[i], e))
        }),
{
    let p = |x: DependencyEdgeView| !is_edge_of(x, publication);
    lemma_filtered(d.graph, p);
    lemma_publication_edges(d, publication, objects, objects.len(), e);
    let left = d.graph.filter(p);
    let own = publication_edges(d, publication, objects, objects.len());
    let after = publication_edges_replaced(d, publication, PublicationScopeView::Explicit(objects));
    assert(after == left + own);
    if after.contains(e) {
        let i = choose|i: int| 0 <= i < after.len() && after[i] == e;
        if i < left.len() {
            assert(left[i] == e);
        } else {
            assert(own[i - left.len()] == e);
        }
    }
    if left.contains(e) {
        let i = choose|i: int| 0 <= i < left.len() && left[i] == e;
        assert(after[i] == e);
    }
    if own.contains(e) {
        let i = choose|i: int| 0 <= i < own.len() && own[i] == e;
        assert(after[left.len() + i] == e);
    }
}

proof fn lemma_last_option(params: Seq<AttributeFactView>, name: Seq<char>, n: nat, i: int)
    requires
        0 <= i < n <= params.len(),
        ascii_lowercase(params[i].name) == ascii_lowercase(name),
        forall|j: int| i < j < n ==> ascii_lowercase((#[trigger] params[j]).name) != ascii_lowercase(name),
    ensures
        last_option(params, name, n) == Some(params[i].value),
    decreases n,
{
    if i < n - 1 {
        assert(ascii_lowercase(params[n - 1].name) != ascii_lowercase(name));
        lemma_last_option(params, name, (n - 1) as nat, i);
    }
}

/// The last option of a name counts, in any case.
pub proof fn law_last_option_counts(params: Seq<AttributeFactView>, name: Seq<char>, i: int)
    requires
        0 <= i < params.len(),
        ascii_lowercase(params[i].name) == ascii_lowercase(name),
        forall|j: int| i < j < params.len() ==> ascii_lowercase((#[trigger] params[j]).name) != ascii_lowercase(name),
    ensures
        option_value(Some(params), name) == Some(params[i].value),
{
    lemma_last_option(params, name, params.len(), i);
}

/// What stands for true is `1` or the start of `true`, `yes` or `on`; what stands
/// for false is `0` or the start of `false`, `no` or `off`. Space around it and
/// case do not count.
pub proof fn law_boolean_is_read(text: Seq<char>, other: Seq<char>)
    ensures
        ({
            let v = ascii_lowercase(trimmed(text));
            &&& boolean_of(text) == Some(true) ==> v == "1"@ || v.is_prefix_of("true"@) || v.is_prefix_of("yes"@) || v.is_prefix_of("on"@)
            &&& boolean_of(text) == Some(false) ==> v == "0"@ || v.is_prefix_of("false"@) || v.is_prefix_of("no"@) || v.is_prefix_of("off"@)
            &&& v == "1"@ ==> boolean_of(text) == Some(true)
            &&& v == "0"@ ==> boolean_of(text) == Some(false)
            &&& v.len() > 0 && (v.is_prefix_of("true"@) || v.is_prefix_of("yes"@)) ==> boolean_of(text) == Some(true)
            &&& v.len() > 0 && (v.is_prefix_of("false"@) || v.is_prefix_of("no"@)) ==> boolean_of(text) == Some(false)
            &&& v.len() > 1 && v.is_prefix_of("on"@) ==> boolean_of(text) == Some(true)
            &&& v.len() > 1 && v.is_prefix_of("off"@) ==> boolean_of(text) == Some(false)
            &&& v.len() == 0 ==> boolean_of(text) is None
            &&& ascii_lowercase(trimmed(other)) == v ==> boolean_of(other) == boolean_of(text)
        }),
{
    let v = ascii_lowercase(trimmed(text));
    reveal_strlit("1");
    reveal_strlit("0");
    reveal_strlit("");
    reveal_strlit("true");
    reveal_strlit("yes");
    reveal_strlit("on");
    reveal_strlit("false");
    reveal_strlit("no");
    reveal_strlit("off");
    if v.len() == 0 {
        assert(v =~= ""@);
    } else {
        lemma_starts(v, "true"@);
        lemma_starts(v, "yes"@);
        lemma_starts(v, "on"@);
        lemma_starts(v, "false"@);
        lemma_starts(v, "no"@);
        lemma_starts(v, "off"@);
    }
}

proof fn lemma_starts(v: Seq<char>, word: Seq<char>)
    requires
        v.len() > 0,
        word.len() > 1,
    ensures
        v.is_prefix_of(word) ==> v[0] == word[0] && (v.len() > 1 ==> v[1] == word[1]),
{
    if v.is_prefix_of(word) {
        assert(v =~= word.take(v.len() as int));
        assert(word.take(v.len() as int)[0] == word[0]);
        if v.len() > 1 {
            assert(word.take(v.len() as int)[1] == word[1]);
        }
    }
}

} // verus!
