//! `DROP TABLE`.
use crate::cache::CatalogFamily;
use crate::collections::{vec_any, vec_filter, Dup, Key, VecMap, VecSet};
use crate::evidence::{EvidenceCode, EvidenceScope};
use crate::facts::{PublicationObjectFact, PublicationObjectFactView, PublicationScope, PublicationScopeView};
use crate::graph::{resolved, DependencyEdge, DependencyEdgeView, DependencyGraph, DependencyKind, DependencyKindView};
use crate::identifiers::{ObjectId, ObjectIdView};
use crate::model::replication::{PublicationOverlay, PublicationState, PublicationStateView};
use crate::model::Overlay;
use crate::mutations::DropTable;
use crate::state::apply_schema::{drop_where, dropped_where};
use crate::state::apply_view_index::accepted_relations;
use crate::state::cascade::{cascade_for, constraints_removed, edge_is_current, CascadeResult, CascadeView};
use crate::state::journal::{group_steps, if_applied, kept, kept_as, namespace_of, tainted, tainted_if, undone, with_namespace, EdgeUndo};
use crate::state::lookup::{conflict, conflict_with, present, relation_id, relation_lookup, scoped_family_object, state_of, RelationFilter};
use crate::state::{AnalysisState, MutationResult, MutationResultView, ObjectLookup, StateData};
use crate::text::join3;
use crate::transaction::{NamespaceSnapshot, NamespaceSnapshotView};
use vstd::prelude::*;

verus! {

broadcast use group_steps;

/// Whether `DROP TABLE` stops at a name.
pub open spec fn table_drop_stops_at(d: StateData, id: ObjectIdView, if_exists: bool) -> bool {
    match relation_lookup(d, id, RelationFilter::Table) {
        ObjectLookup::Present => false,
        ObjectLookup::WrongKind => true,
        _ => !if_exists,
    }
}

pub open spec fn first_table_stop(d: StateData, ids: Seq<ObjectIdView>, if_exists: bool, i: nat) -> nat
    decreases ids.len() - i,
{
    if i >= ids.len() || table_drop_stops_at(d, ids[i as int], if_exists) {
        i
    } else {
        first_table_stop(d, ids, if_exists, i + 1)
    }
}

pub open spec fn unknown_table_before(d: StateData, ids: Seq<ObjectIdView>, n: nat) -> bool {
    exists|i: int| 0 <= i < n && relation_lookup(d, #[trigger] ids[i], RelationFilter::Table) == ObjectLookup::Unknown
}

/// What stops a drop at a name.
pub open spec fn table_stop(d: StateData, id: ObjectIdView) -> MutationResultView {
    match relation_lookup(d, id, RelationFilter::Table) {
        ObjectLookup::WrongKind => conflict("'"@ + id.shown() + "' is not a table"@),
        ObjectLookup::Unknown => MutationResultView::Skipped,
        _ => conflict("table '"@ + id.shown() + "' does not exist"@),
    }
}

/// The tables to drop.
pub open spec fn drop_targets(d: StateData, ids: Seq<ObjectIdView>) -> Seq<ObjectIdView> {
    accepted_relations(d, ids, RelationFilter::Table)
}

/// What looking the tables up leads to. `IF EXISTS` does not prove that a table
/// outside of the baseline is absent.
#[verifier::opaque]
pub open spec fn table_names_checked(d: StateData, ids: Seq<ObjectIdView>, if_exists: bool) -> (StateData, Option<MutationResultView>) {
    let stop = first_table_stop(d, ids, if_exists, 0);
    if stop < ids.len() {
        let unknown = unknown_table_before(d, ids, stop + 1);
        (tainted_if(d, unknown, EvidenceCode::UnknownObjectState, EvidenceScope::Chain), Some(table_stop(d, ids[stop as int])))
    } else if unknown_table_before(d, ids, stop) {
        (tainted(d, EvidenceCode::UnknownObjectState, EvidenceScope::Chain), Some(MutationResultView::Skipped))
    } else if drop_targets(d, ids).len() == 0 {
        (d, Some(MutationResultView::Skipped))
    } else {
        (d, None)
    }
}

pub open spec fn is_drop_gap(d: StateData, id: ObjectIdView) -> bool {
    (d.baseline_relations.contains(id) && !d.baseline_coverage.families.contains(CatalogFamily::Dependencies)) || scoped_family_object(
        d,
        id,
        CatalogFamily::Relations,
    )
}

/// Whether the baseline leaves open what depends on a table to drop.
pub open spec fn drop_is_uncovered(d: StateData, targets: Seq<ObjectIdView>) -> bool {
    exists|i: int| 0 <= i < targets.len() && is_drop_gap(d, #[trigger] targets[i])
}

/// The tables by their current names.
pub open spec fn drop_roots(d: StateData, targets: Seq<ObjectIdView>) -> Set<ObjectIdView> {
    targets.map_values(|id: ObjectIdView| resolved(d.graph, id)).to_set()
}

/// What falls with the tables.
pub open spec fn drop_closure(d: StateData, targets: Seq<ObjectIdView>, cascade: bool, precomputed: Option<CascadeView>) -> CascadeView {
    if cascade {
        match precomputed {
            Some(c) => c,
            None => cascade_for(d, targets.to_set()),
        }
    } else {
        CascadeView { relations: drop_roots(d, targets), indexes: Set::empty(), constraints: Set::empty() }
    }
}

pub open spec fn closure_touches_baseline(d: StateData, c: CascadeView, roots: Set<ObjectIdView>) -> bool {
    ||| exists|id: ObjectIdView| #[trigger] c.relations.contains(id) && d.baseline_relations.contains(id) && !roots.contains(id)
    ||| exists|key: (ObjectIdView, Seq<char>)| #[trigger] c.constraints.contains(key) && d.baseline_foreign_keys.contains(key)
}

/// Whether the closure holds a relation of which nothing is known.
pub open spec fn closure_has_unknown(d: StateData, c: CascadeView) -> bool {
    exists|id: ObjectIdView| #[trigger] c.relations.contains(id) && !present(d.relations, id) && !d.baseline_relations.contains(id)
}

pub open spec fn depends_on_dropped(d: StateData, e: DependencyEdgeView, roots: Set<ObjectIdView>) -> bool {
    &&& match e.kind {
        DependencyKindView::ViewDependency { .. } => edge_is_current(d, e),
        DependencyKindView::ForeignKey { .. } => edge_is_current(d, e),
        DependencyKindView::InheritanceOf => true,
        DependencyKindView::PartitionOf => true,
        _ => false,
    }
    &&& roots.contains(resolved(d.graph, e.referenced))
    &&& !roots.contains(resolved(d.graph, e.dependent))
}

/// Whether something outside of the tables depends on them.
pub open spec fn has_dependents(d: StateData, roots: Set<ObjectIdView>) -> bool {
    exists|i: int| 0 <= i < d.graph.len() && depends_on_dropped(d, #[trigger] d.graph[i], roots)
}

/// The first `n` names, as they are shown.
pub open spec fn listed(ids: Seq<ObjectIdView>, n: nat) -> Seq<char>
    decreases n,
{
    if n == 0 {
        Seq::empty()
    } else if n == 1 {
        ids[0].shown()
    } else {
        listed(ids, (n - 1) as nat) + ", "@ + ids[n - 1].shown()
    }
}

pub open spec fn all_same(targets: Seq<ObjectIdView>) -> bool {
    forall|i: int| 0 <= i < targets.len() ==> #[trigger] targets[i] == targets[0]
}

/// Why tables cannot be dropped without what depends on them.
pub open spec fn still_needed(ids: Seq<ObjectIdView>, targets: Seq<ObjectIdView>) -> MutationResultView {
    if all_same(targets) {
        conflict("relation '"@ + listed(ids, ids.len()) + "' still has dependent objects; use CASCADE"@)
    } else {
        conflict("relations '"@ + listed(ids, ids.len()) + "' still have dependent objects; use CASCADE"@)
    }
}

/// The family with the objects of a set dropped, known or not.
pub open spec fn tombstoned<V>(m: Map<ObjectIdView, Overlay<V>>, ids: Set<ObjectIdView>) -> Map<ObjectIdView, Overlay<V>> {
    Map::new(
        |id: ObjectIdView| m.dom().contains(id) || ids.contains(id),
        |id: ObjectIdView|
            if ids.contains(id) {
                Overlay::Dropped
            } else {
                m[id]
            },
    )
}

pub open spec fn owned_by_dropped(d: StateData, c: CascadeView, id: ObjectIdView) -> bool {
    present(d.sequences, id) && match state_of(d.sequences, id).owned_by {
        Some((table, _)) => c.relations.contains(resolved(d.graph, table)),
        None => false,
    }
}

pub open spec fn is_trigger_on_dropped(d: StateData, e: DependencyEdgeView, c: CascadeView, id: ObjectIdView) -> bool {
    e.kind is TriggerOnTable && e.dependent == id && c.relations.contains(resolved(d.graph, e.referenced))
}

pub open spec fn trigger_on_dropped(d: StateData, c: CascadeView, id: ObjectIdView) -> bool {
    present(d.triggers, id) && {
        ||| c.relations.contains(resolved(d.graph, state_of(d.triggers, id).table_id))
        ||| exists|i: int| 0 <= i < d.graph.len() && is_trigger_on_dropped(d, #[trigger] d.graph[i], c, id)
    }
}

/// Whether an edge outlives the drop of tables.
pub open spec fn edge_outlives(d: StateData, e: DependencyEdgeView, c: CascadeView) -> bool {
    let dependent = resolved(d.graph, e.dependent);
    &&& !c.relations.contains(dependent)
    &&& !c.relations.contains(resolved(d.graph, e.referenced))
    &&& !c.indexes.contains(dependent)
    &&& match e.kind {
        DependencyKindView::ForeignKey { constraint_name, .. } => constraint_name is None || !c.constraints.contains((dependent, constraint_name->0)),
        _ => true,
    }
}

/// The namespace without dropped tables.
#[verifier::opaque]
pub open spec fn namespace_without_tables(d: StateData, n: NamespaceSnapshotView, c: CascadeView) -> NamespaceSnapshotView {
    NamespaceSnapshotView {
        relations: tombstoned(d.relations, c.relations),
        sequences: dropped_where(d.sequences, |id: ObjectIdView| owned_by_dropped(d, c, id)),
        triggers: dropped_where(d.triggers, |id: ObjectIdView| trigger_on_dropped(d, c, id)),
        graph: d.graph.filter(|e: DependencyEdgeView| edge_outlives(d, e, c)),
        ..n
    }
}

/// Whether a publication keeps an object. A name without schema denotes what
/// is visible once the tables are gone.
pub open spec fn is_still_published(d: StateData, renames: Seq<DependencyEdgeView>, o: PublicationObjectFactView, dropped: Set<ObjectIdView>) -> bool {
    match o {
        PublicationObjectFactView::Table { name, .. } => !dropped.contains(resolved(renames, relation_id(d, name))),
        _ => true,
    }
}

pub open spec fn publication_without(
    d: StateData,
    renames: Seq<DependencyEdgeView>,
    o: Overlay<PublicationStateView>,
    dropped: Set<ObjectIdView>,
) -> Overlay<PublicationStateView> {
    match o {
        Overlay::Present(s) => match s.scope {
            PublicationScopeView::Explicit(objects) => Overlay::Present(
                PublicationStateView {
                    scope: PublicationScopeView::Explicit(objects.filter(|x: PublicationObjectFactView| is_still_published(d, renames, x, dropped))),
                    ..s
                },
            ),
            _ => o,
        },
        Overlay::Dropped => o,
    }
}

/// The data with publications of what is left.
#[verifier::opaque]
pub open spec fn publications_without(d: StateData, renames: Seq<DependencyEdgeView>, dropped: Set<ObjectIdView>) -> StateData {
    StateData {
        publications: Map::new(
            |name: Seq<char>| d.publications.dom().contains(name),
            |name: Seq<char>| publication_without(d, renames, d.publications[name], dropped),
        ),
        ..d
    }
}

/// The data without tables and what falls with them.
#[verifier::opaque]
pub open spec fn tables_removed(d: StateData, c: CascadeView) -> StateData {
    let d1 = constraints_removed(d, c);
    let d2 = with_namespace(d1, namespace_without_tables(d1, namespace_of(d1), c));
    publications_without(d2, d.graph, c.relations)
}

/// `DROP TABLE` of tables that the baseline covers.
#[verifier::opaque]
pub open spec fn targets_dropped(
    d: StateData,
    ids: Seq<ObjectIdView>,
    targets: Seq<ObjectIdView>,
    cascade: bool,
    precomputed: Option<CascadeView>,
) -> (StateData, MutationResultView) {
    let c = drop_closure(d, targets, cascade, precomputed);
    let roots = drop_roots(d, targets);
    if cascade {
        if closure_touches_baseline(d, c, roots) && !d.baseline_coverage.families.contains(CatalogFamily::Dependencies) {
            (tainted(d, EvidenceCode::CatalogCoverageIncomplete, EvidenceScope::Chain), MutationResultView::Skipped)
        } else {
            (
                tables_removed(tainted_if(d, closure_has_unknown(d, c), EvidenceCode::UnknownObjectState, EvidenceScope::Chain), c),
                MutationResultView::Applied,
            )
        }
    } else if has_dependents(d, roots) {
        (d, still_needed(ids, targets))
    } else {
        (tables_removed(d, c), MutationResultView::Applied)
    }
}

/// `DROP TABLE`.
pub open spec fn tables_dropped(d: StateData, ids: Seq<ObjectIdView>, if_exists: bool, cascade: bool, precomputed: Option<CascadeView>) -> (
    StateData,
    MutationResultView,
) {
    let (d1, refused) = table_names_checked(d, ids, if_exists);
    let targets = drop_targets(d, ids);
    if refused is Some {
        (d1, refused->0)
    } else if drop_is_uncovered(d, targets) {
        (tainted(d, EvidenceCode::CatalogCoverageIncomplete, EvidenceScope::Chain), MutationResultView::Skipped)
    } else {
        targets_dropped(d, ids, targets, cascade, precomputed)
    }
}

/// A relation that was dropped is gone, and no edge leads to it or from it.
pub proof fn law_dropped_table_is_gone(d: StateData, c: CascadeView, id: ObjectIdView)
    requires
        c.relations.contains(id),
    ensures
        !present(tables_removed(d, c).relations, id),
        forall|i: int|
            0 <= i < tables_removed(d, c).graph.len() ==> {
                let e = #[trigger] tables_removed(d, c).graph[i];
                resolved(d.graph, e.dependent) != id && resolved(d.graph, e.referenced) != id
            },
{
    reveal(tables_removed);
    reveal(constraints_removed);
    reveal(namespace_without_tables);
    reveal(publications_without);
    reveal(undone);
    let after = tables_removed(d, c);
    let stays = |e: DependencyEdgeView| edge_outlives(constraints_removed(d, c), e, c);
    assert(after.graph == d.graph.filter(stays));
    crate::collections::lemma_filtered(d.graph, stays);
    assert forall|i: int| 0 <= i < after.graph.len() implies {
        let e = #[trigger] after.graph[i];
        resolved(d.graph, e.dependent) != id && resolved(d.graph, e.referenced) != id
    } by {
        assert(d.graph.filter(stays).contains(after.graph[i]));
    }
}

/// What the drop of tables leaves untouched.
pub proof fn law_drop_leaves_other_relations(d: StateData, c: CascadeView, id: ObjectIdView)
    requires
        !c.relations.contains(id),
    ensures
        present(tables_removed(d, c).relations, id) == present(d.relations, id),
        present(d.relations, id) ==> state_of(tables_removed(d, c).relations, id) == state_of(d.relations, id),
{
    reveal(tables_removed);
    reveal(constraints_removed);
    reveal(namespace_without_tables);
    reveal(publications_without);
    reveal(undone);
}

/// The family with the objects of a set dropped.
fn tombstone<T: Dup>(m: &VecMap<ObjectId, Overlay<T>>, ids: &VecSet<ObjectId>) -> (r: VecMap<ObjectId, Overlay<T>>)
    ensures
        r@ == tombstoned(m@, ids@),
{
    let mut r = m.dup();
    let ghost items = ids.items();
    let mut i: usize = 0;
    while i < ids.len()
        invariant
            i <= items.len(),
            items == ids.items(),
            r@.dom() =~= Set::new(|id: ObjectIdView| m@.dom().contains(id) || items.take(i as int).contains(id)),
            forall|id: ObjectIdView| #[trigger]
                r@.dom().contains(id) ==> r@[id] == (if items.take(i as int).contains(id) {
                    Overlay::Dropped
                } else {
                    m@[id]
                }),
        decreases items.len() - i,
    {
        let ghost before = r@;
        r.insert(ids.at(i).dup(), Overlay::Dropped);
        proof {
            let a = items.take(i as int);
            let b = items.take(i + 1);
            assert(b =~= a.push(items[i as int]));
            assert forall|id: ObjectIdView| b.contains(id) <==> (a.contains(id) || id == items[i as int]) by {
                if id == items[i as int] {
                    assert(b[i as int] == id);
                }
                if a.contains(id) {
                    let j = choose|j: int| 0 <= j < a.len() && a[j] == id;
                    assert(b[j] == id);
                }
            }
            assert(r@ == before.insert(items[i as int], Overlay::Dropped));
        }
        i = i + 1;
    }
    proof {
        assert(items.take(items.len() as int) =~= items);
        assert forall|id: ObjectIdView| items.contains(id) <==> ids@.contains(id) by {}
        assert(r@ =~= tombstoned(m@, ids@));
    }
    r
}

fn listed_names(ids: &Vec<ObjectId>) -> (r: String)
    ensures
        r@ == listed(ids.deep_view(), ids.deep_view().len()),
{
    let mut text = "".to_string();
    proof {
        reveal_strlit("");
        assert(text@ =~= Seq::empty());
    }
    let mut i: usize = 0;
    while i < ids.len()
        invariant
            i <= ids.len(),
            text@ == listed(ids.deep_view(), i as nat),
        decreases ids.len() - i,
    {
        assert(ids.deep_view()[i as int] == ids@[i as int]@);
        if i == 0 {
            text = ids[i].show();
        } else {
            text = join3(&text, ", ", &ids[i].show());
        }
        i = i + 1;
    }
    text
}

fn targets_are_same(targets: &Vec<ObjectId>) -> (r: bool)
    requires
        targets.len() > 0,
    ensures
        r == all_same(targets.deep_view()),
{
    let ghost list = targets.deep_view();
    assert(list[0] == targets@[0]@);
    let same = |id: &ObjectId| -> (b: bool)
        ensures
            b == (id@ == targets@[0]@),
        { id.same(&targets[0]) };
    crate::collections::vec_all(targets, same, Ghost(|id: ObjectIdView| id == targets@[0]@))
}

impl AnalysisState {
    /// The first name that the drop stops at, and whether an unknown table
    /// comes before it or stands there.
    fn scan_tables(&self, ids: &Vec<ObjectId>, if_exists: bool) -> (r: (usize, bool))
        ensures
            ({
                let list = ids.deep_view();
                let stop = first_table_stop(self@.data, list, if_exists, 0);
                &&& r.0 == stop
                &&& r.0 <= ids.len()
                &&& r.1 == (if stop < list.len() {
                    unknown_table_before(self@.data, list, stop + 1)
                } else {
                    unknown_table_before(self@.data, list, stop)
                })
            }),
    {
        let ghost d = self@.data;
        let ghost list = ids.deep_view();
        let mut unknown = false;
        let mut i: usize = 0;
        while i < ids.len()
            invariant
                i <= ids.len(),
                d == self@.data,
                list == ids.deep_view(),
                first_table_stop(d, list, if_exists, 0) == first_table_stop(d, list, if_exists, i as nat),
                unknown == unknown_table_before(d, list, i as nat),
            decreases ids.len() - i,
        {
            proof {
                assert(list[i as int] == ids@[i as int]@);
                assert(unknown_table_before(d, list, (i + 1) as nat) == (unknown || relation_lookup(d, list[i as int], RelationFilter::Table)
                    == ObjectLookup::Unknown)) by {
                    if unknown_table_before(d, list, (i + 1) as nat) && relation_lookup(d, list[i as int], RelationFilter::Table)
                        != ObjectLookup::Unknown {
                        let j = choose|j: int| 0 <= j < i + 1 && relation_lookup(d, #[trigger] list[j], RelationFilter::Table) == ObjectLookup::Unknown;
                        assert(relation_lookup(d, list[j], RelationFilter::Table) == ObjectLookup::Unknown);
                    }
                }
            }
            match self.relation_lookup(&ids[i], RelationFilter::Table) {
                ObjectLookup::Present => {},
                ObjectLookup::WrongKind => {
                    return (i, unknown);
                },
                ObjectLookup::Unknown => {
                    unknown = true;
                    if !if_exists {
                        return (i, unknown);
                    }
                },
                _ => {
                    if !if_exists {
                        return (i, unknown);
                    }
                },
            }
            i = i + 1;
        }
        (i, unknown)
    }

    fn table_stop(&self, id: &ObjectId) -> (r: MutationResult)
        ensures
            r@ == table_stop(self@.data, id@),
    {
        match self.relation_lookup(id, RelationFilter::Table) {
            ObjectLookup::WrongKind => conflict_with(join3("'", &id.show(), "' is not a table")),
            ObjectLookup::Unknown => MutationResult::Skipped,
            _ => conflict_with(join3("table '", &id.show(), "' does not exist")),
        }
    }

    fn check_table_names(&mut self, ids: &Vec<ObjectId>, if_exists: bool) -> (r: Result<Vec<ObjectId>, MutationResult>)
        ensures
            ({
                let (data, outcome) = table_names_checked(old(self)@.data, ids.deep_view(), if_exists);
                &&& final(self)@.data == data
                &&& match r {
                    Ok(targets) => outcome is None && final(self)@ == old(self)@ && targets.deep_view() == drop_targets(
                        old(self)@.data,
                        ids.deep_view(),
                    ) && targets.len() > 0,
                    Err(result) => outcome == Some(result@) && !(result@ is Applied),
                }
            }),
            kept(old(self)@, final(self)@),
    {
        proof {
            reveal(table_names_checked);
        }
        let (stop, unknown) = self.scan_tables(ids, if_exists);
        let targets = self.accepted_relations(ids, RelationFilter::Table);
        if stop < ids.len() {
            assert(ids.deep_view()[stop as int] == ids@[stop as int]@);
            let result = self.table_stop(&ids[stop]);
            self.taint_if(unknown, EvidenceCode::UnknownObjectState, EvidenceScope::Chain);
            return Err(result);
        }
        if unknown {
            self.taint(EvidenceCode::UnknownObjectState, EvidenceScope::Chain);
            return Err(MutationResult::Skipped);
        }
        if targets.len() == 0 {
            return Err(MutationResult::Skipped);
        }
        Ok(targets)
    }

    fn drop_is_uncovered(&self, targets: &Vec<ObjectId>) -> (r: bool)
        ensures
            r == drop_is_uncovered(self@.data, targets.deep_view()),
    {
        let gap = |id: &ObjectId| -> (b: bool)
            ensures
                b == is_drop_gap(self@.data, id@),
            {
                (self.baseline_relation_is_known(id) && !self.baseline_has_coverage(CatalogFamily::Dependencies))
                    || self.baseline_scoped_family_object(id, CatalogFamily::Relations)
            };
        let ghost d = self@.data;
        vec_any(targets, gap, Ghost(|id: ObjectIdView| is_drop_gap(d, id)))
    }

    fn drop_roots(&self, targets: &Vec<ObjectId>) -> (r: VecSet<ObjectId>)
        ensures
            r@ == drop_roots(self@.data, targets.deep_view()),
    {
        let resolve = |id: &ObjectId| -> (x: ObjectId)
            ensures
                x@ == resolved(self@.data.graph, id@),
            { self.graph().resolve_rename(id).dup() };
        let ghost d = self@.data;
        let names = crate::collections::vec_map(targets, resolve, Ghost(|id: ObjectIdView| resolved(d.graph, id)));
        crate::collections::set_of(&names)
    }

    fn drop_closure(&self, targets: &Vec<ObjectId>, cascade: bool, precomputed: Option<&CascadeResult>) -> (r: CascadeResult)
        ensures
            r@ == drop_closure(
                self@.data,
                targets.deep_view(),
                cascade,
                match precomputed {
                    Some(c) => Some(c@),
                    None => None,
                },
            ),
    {
        if cascade {
            return match precomputed {
                Some(c) => CascadeResult {
                    dropped_relations: c.dropped_relations.dup(),
                    dropped_indexes: c.dropped_indexes.dup(),
                    dropped_constraints: c.dropped_constraints.dup(),
                },
                None => self.cascade_for_relations(targets),
            };
        }
        CascadeResult { dropped_relations: self.drop_roots(targets), dropped_indexes: VecSet::new(), dropped_constraints: VecSet::new() }
    }

    fn closure_touches_baseline(&self, c: &CascadeResult, roots: &VecSet<ObjectId>) -> (r: bool)
        ensures
            r == closure_touches_baseline(self@.data, c@, roots@),
    {
        let relation = |id: &ObjectId| -> (b: bool)
            ensures
                b == (self@.data.baseline_relations.contains(id@) && !roots@.contains(id@)),
            { self.baseline_relation_is_known(id) && !roots.contains(id) };
        let key = |key: &(ObjectId, String)| -> (b: bool)
            ensures
                b == self@.data.baseline_foreign_keys.contains(key.deep_view()),
            { self.known_foreign_keys().contains(key) };
        let ghost d = self@.data;
        let ghost p = |id: ObjectIdView| d.baseline_relations.contains(id) && !roots@.contains(id);
        let ghost q = |key: (ObjectIdView, Seq<char>)| d.baseline_foreign_keys.contains(key);
        let first = c.dropped_relations.any(relation, Ghost(p));
        let second = c.dropped_constraints.any(key, Ghost(q));
        proof {
            if first {
                let id = choose|id: ObjectIdView| #[trigger] c.dropped_relations@.contains(id) && p(id);
                assert(c@.relations.contains(id));
            }
            if second {
                let k = choose|k: (ObjectIdView, Seq<char>)| #[trigger] c.dropped_constraints@.contains(k) && q(k);
                assert(c@.constraints.contains(k));
            }
        }
        first || second
    }

    fn closure_has_unknown(&self, c: &CascadeResult) -> (r: bool)
        ensures
            r == closure_has_unknown(self@.data, c@),
    {
        let unknown = |id: &ObjectId| -> (b: bool)
            ensures
                b == (!present(self@.data.relations, id@) && !self@.data.baseline_relations.contains(id@)),
            { !self.relation_is_present(id) && !self.baseline_relation_is_known(id) };
        let ghost d = self@.data;
        let ghost p = |id: ObjectIdView| !present(d.relations, id) && !d.baseline_relations.contains(id);
        let r = c.dropped_relations.any(unknown, Ghost(p));
        proof {
            if r {
                let id = choose|id: ObjectIdView| #[trigger] c.dropped_relations@.contains(id) && p(id);
                assert(c@.relations.contains(id));
            }
        }
        r
    }

    fn has_dependents(&self, roots: &VecSet<ObjectId>) -> (r: bool)
        ensures
            r == has_dependents(self@.data, roots@),
    {
        let depends = |e: &DependencyEdge| -> (b: bool)
            ensures
                b == depends_on_dropped(self@.data, e@, roots@),
            {
                let blocks = match &e.kind {
                    DependencyKind::ViewDependency { .. } => self.dependency_edge_is_current(e),
                    DependencyKind::ForeignKey { .. } => self.dependency_edge_is_current(e),
                    DependencyKind::InheritanceOf => true,
                    DependencyKind::PartitionOf => true,
                    _ => false,
                };
                blocks && roots.contains(self.graph().resolve_rename(&e.referenced)) && !roots.contains(
                    self.graph().resolve_rename(&e.dependent),
                )
            };
        let ghost d = self@.data;
        self.graph().any_edge(depends, Ghost(|e: DependencyEdgeView| depends_on_dropped(d, e, roots@)))
    }

    fn owned_by_dropped(&self, c: &CascadeResult, id: &ObjectId) -> (r: bool)
        ensures
            r == owned_by_dropped(self@.data, c@, id@),
    {
        match self.present_sequence(id) {
            Some(sequence) => match &sequence.owned_by {
                Some((table, _)) => c.dropped_relations.contains(self.graph().resolve_rename(table)),
                None => false,
            },
            None => false,
        }
    }

    fn trigger_on_dropped(&self, c: &CascadeResult, id: &ObjectId) -> (r: bool)
        ensures
            r == trigger_on_dropped(self@.data, c@, id@),
    {
        match self.present_trigger(id) {
            Some(trigger) => {
                if c.dropped_relations.contains(self.graph().resolve_rename(&trigger.table_id)) {
                    return true;
                }
                let on = |e: &DependencyEdge| -> (b: bool)
                    ensures
                        b == is_trigger_on_dropped(self@.data, e@, c@, id@),
                    {
                        match &e.kind {
                            DependencyKind::TriggerOnTable { .. } => e.dependent.same(id) && c.dropped_relations.contains(
                                self.graph().resolve_rename(&e.referenced),
                            ),
                            _ => false,
                        }
                    };
                let ghost d = self@.data;
                self.graph().any_edge(on, Ghost(|e: DependencyEdgeView| is_trigger_on_dropped(d, e, c@, id@)))
            },
            None => false,
        }
    }

    fn edge_outlives(&self, e: &DependencyEdge, c: &CascadeResult) -> (r: bool)
        ensures
            r == edge_outlives(self@.data, e@, c@),
    {
        let dependent = self.graph().resolve_rename(&e.dependent);
        if c.dropped_relations.contains(dependent) || c.dropped_relations.contains(self.graph().resolve_rename(&e.referenced))
            || c.dropped_indexes.contains(dependent) {
            return false;
        }
        match &e.kind {
            DependencyKind::ForeignKey { constraint_name, .. } => match constraint_name {
                Some(name) => !c.dropped_constraints.contains(&(dependent.dup(), name.dup())),
                None => true,
            },
            _ => true,
        }
    }

    fn namespace_without_tables(&self, c: &CascadeResult) -> (r: NamespaceSnapshot)
        ensures
            r@ == namespace_without_tables(self@.data, namespace_of(self@.data), c@),
    {
        let ghost d = self@.data;
        let mut n = self.current_namespace();
        n.relations = tombstone(&n.relations, &c.dropped_relations);
        let sequence = |id: &ObjectId| -> (b: bool)
            ensures
                b == owned_by_dropped(self@.data, c@, id@),
            { self.owned_by_dropped(c, id) };
        n.sequences = drop_where(&n.sequences, sequence, Ghost(|id: ObjectIdView| owned_by_dropped(d, c@, id)));
        let trigger = |id: &ObjectId| -> (b: bool)
            ensures
                b == trigger_on_dropped(self@.data, c@, id@),
            { self.trigger_on_dropped(c, id) };
        n.triggers = drop_where(&n.triggers, trigger, Ghost(|id: ObjectIdView| trigger_on_dropped(d, c@, id)));
        let stays = |e: &DependencyEdge| -> (b: bool)
            ensures
                b == edge_outlives(self@.data, e@, c@),
            { self.edge_outlives(e, c) };
        n.graph = vec_filter(self.graph().edges(), stays, Ghost(|e: DependencyEdgeView| edge_outlives(d, e, c@)));
        proof {
            reveal(namespace_without_tables);
            assert(n@ =~= namespace_without_tables(d, namespace_of(d), c@));
        }
        n
    }

    fn is_still_published(&self, renames: &DependencyGraph, o: &PublicationObjectFact, dropped: &VecSet<ObjectId>) -> (r: bool)
        ensures
            r == is_still_published(self@.data, renames@, o@, dropped@),
    {
        match o {
            PublicationObjectFact::Table { name, .. } => {
                let id = self.resolve_relation_id(name);
                !dropped.contains(renames.resolve_rename(&id))
            },
            _ => true,
        }
    }

    fn publication_without(&self, renames: &DependencyGraph, o: &PublicationOverlay, dropped: &VecSet<ObjectId>) -> (r: PublicationOverlay)
        ensures
            r.deep_view() == publication_without(self@.data, renames@, o.deep_view(), dropped@),
    {
        match o {
            Overlay::Present(s) => match &s.scope {
                PublicationScope::Explicit(objects) => {
                    let stays = |x: &PublicationObjectFact| -> (b: bool)
                        ensures
                            b == is_still_published(self@.data, renames@, x@, dropped@),
                        { self.is_still_published(renames, x, dropped) };
                    let ghost d = self@.data;
                    let left = vec_filter(
                        objects,
                        stays,
                        Ghost(|x: PublicationObjectFactView| is_still_published(d, renames@, x, dropped@)),
                    );
                    Overlay::Present(PublicationState { name: s.name.dup(), scope: PublicationScope::Explicit(left), params: s.params.dup() })
                },
                _ => o.dup(),
            },
            Overlay::Dropped => Overlay::Dropped,
        }
    }

    fn drop_from_publications(&mut self, renames: &DependencyGraph, dropped: &VecSet<ObjectId>)
        ensures
            final(self)@.data == publications_without(old(self)@.data, renames@, dropped@),
            kept_as(old(self)@, final(self)@, EdgeUndo::PutBack),
    {
        let ghost d = self@.data;
        let mut n = self.current_namespace();
        let change = |name: &String, o: &PublicationOverlay| -> (x: PublicationOverlay)
            ensures
                x.deep_view() == publication_without(self@.data, renames@, o.deep_view(), dropped@),
            { self.publication_without(renames, o, dropped) };
        n.publications = n.publications.map_entries(
            change,
            Ghost(|name: Seq<char>, o: Overlay<PublicationStateView>| publication_without(d, renames@, o, dropped@)),
        );
        self.replace_namespace(n);
        proof {
            reveal(publications_without);
    reveal(undone);
            assert(self@.data.publications =~= publications_without(d, renames@, dropped@).publications);
        }
    }

    fn remove_tables(&mut self, c: &CascadeResult)
        ensures
            final(self)@.data == tables_removed(old(self)@.data, c@),
            kept_as(old(self)@, final(self)@, EdgeUndo::PutBack),
    {
        proof {
            reveal(tables_removed);
        }
        let renames = self.graph().dup();
        self.remove_dropped_constraints(c);
        let n = self.namespace_without_tables(c);
        self.replace_namespace(n);
        self.drop_from_publications(&renames, &c.dropped_relations);
    }

    fn drop_targets(&mut self, ids: &Vec<ObjectId>, targets: &Vec<ObjectId>, cascade: bool, precomputed: Option<&CascadeResult>) -> (r: MutationResult)
        requires
            targets.len() > 0,
        ensures
            (final(self)@.data, r@) == targets_dropped(
                old(self)@.data,
                ids.deep_view(),
                targets.deep_view(),
                cascade,
                match precomputed {
                    Some(c) => Some(c@),
                    None => None,
                },
            ),
            kept_as(old(self)@, final(self)@, if_applied(r@, EdgeUndo::PutBack)),
    {
        proof {
            reveal(targets_dropped);
        }
        let c = self.drop_closure(targets, cascade, precomputed);
        let roots = self.drop_roots(targets);
        if cascade {
            if self.closure_touches_baseline(&c, &roots) && !self.baseline_has_coverage(CatalogFamily::Dependencies) {
                self.taint(EvidenceCode::CatalogCoverageIncomplete, EvidenceScope::Chain);
                return MutationResult::Skipped;
            }
            let unknown = self.closure_has_unknown(&c);
            self.taint_if(unknown, EvidenceCode::UnknownObjectState, EvidenceScope::Chain);
            self.remove_tables(&c);
            return MutationResult::Applied;
        }
        if self.has_dependents(&roots) {
            let names = listed_names(ids);
            return if targets_are_same(targets) {
                conflict_with(join3("relation '", &names, "' still has dependent objects; use CASCADE"))
            } else {
                conflict_with(join3("relations '", &names, "' still have dependent objects; use CASCADE"))
            };
        }
        self.remove_tables(&c);
        MutationResult::Applied
    }

    pub(crate) fn apply_drop_table(&mut self, drop_table: &DropTable, precomputed_cascade: Option<&CascadeResult>) -> (r: MutationResult)
        ensures
            (final(self)@.data, r@) == tables_dropped(
                old(self)@.data,
                drop_table.ids.deep_view(),
                drop_table.if_exists,
                drop_table.cascade,
                match precomputed_cascade {
                    Some(c) => Some(c@),
                    None => None,
                },
            ),
            kept_as(old(self)@, final(self)@, if_applied(r@, EdgeUndo::PutBack)),
    {
        match self.check_table_names(&drop_table.ids, drop_table.if_exists) {
            Err(result) => result,
            Ok(targets) => {
                if self.drop_is_uncovered(&targets) {
                    self.taint(EvidenceCode::CatalogCoverageIncomplete, EvidenceScope::Chain);
                    return MutationResult::Skipped;
                }
                self.drop_targets(&drop_table.ids, &targets, drop_table.cascade, precomputed_cascade)
            },
        }
    }
}

} // verus!
