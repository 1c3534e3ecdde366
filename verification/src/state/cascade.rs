//! What falls with a dropped relation.
use crate::collections::{lemma_filtered, vec_map, Dup, Key, VecSet};
use crate::graph::{resolved, DependencyEdge, DependencyEdgeView, DependencyKind, DependencyKindView};
use crate::identifiers::{ObjectId, ObjectIdView};
use crate::model::constraint::{ConstraintState, ConstraintStateView};
use crate::model::Overlay;
use crate::reach::{lemma_reachable_from_one, lemma_reachable_further, lemma_roots_reachable, reach, reachable};
use crate::state::journal::{group_kept, kept};
use crate::state::lookup::state_of;
use crate::state::{data_of, AnalysisState, StateData};
use vstd::prelude::*;

verus! {

broadcast use group_kept;

/// What a drop takes along.
#[derive(Debug)]
pub struct CascadeResult {
    pub dropped_relations: VecSet<ObjectId>,
    pub dropped_indexes: VecSet<ObjectId>,
    pub dropped_constraints: VecSet<(ObjectId, String)>,
}

#[verifier::ext_equal]
pub struct CascadeView {
    pub relations: Set<ObjectIdView>,
    pub indexes: Set<ObjectIdView>,
    pub constraints: Set<(ObjectIdView, Seq<char>)>,
}

impl View for CascadeResult {
    type V = CascadeView;

    open spec fn view(&self) -> CascadeView {
        CascadeView {
            relations: self.dropped_relations@,
            indexes: self.dropped_indexes@,
            constraints: self.dropped_constraints@,
        }
    }
}

impl Dup for CascadeResult {
    fn dup(&self) -> (r: Self) {
        CascadeResult {
            dropped_relations: self.dropped_relations.dup(),
            dropped_indexes: self.dropped_indexes.dup(),
            dropped_constraints: self.dropped_constraints.dup(),
        }
    }
}

impl DeepView for CascadeResult {
    type V = CascadeView;

    open spec fn deep_view(&self) -> CascadeView {
        self@
    }
}

/// Whether an object of that generation still stands at an entry. An entry
/// that is missing proves nothing.
pub open spec fn relation_generation_holds(d: StateData, id: ObjectIdView, generation: u64) -> bool {
    d.relations.dom().contains(id) ==> (d.relations[id] is Present && state_of(d.relations, id).generation == generation)
}

pub open spec fn trigger_generation_holds(d: StateData, id: ObjectIdView, generation: u64) -> bool {
    d.triggers.dom().contains(id) ==> (d.triggers[id] is Present && state_of(d.triggers, id).generation == generation)
}

/// Whether an edge belongs to the object that stands now, and not to one that
/// was dropped and created again.
pub open spec fn edge_is_current(d: StateData, e: DependencyEdgeView) -> bool {
    match e.kind {
        DependencyKindView::ForeignKey { from_generation, .. } => relation_generation_holds(
            d,
            resolved(d.graph, e.dependent),
            from_generation,
        ),
        DependencyKindView::ViewDependency { view_generation, .. } => relation_generation_holds(
            d,
            resolved(d.graph, e.dependent),
            view_generation,
        ),
        DependencyKindView::TriggerOnTable { trigger_id, trigger_generation, .. } => trigger_generation_holds(
            d,
            resolved(d.graph, trigger_id),
            trigger_generation,
        ),
        _ => true,
    }
}

/// Whether a drop of `id` drops the dependent relation of an edge.
pub open spec fn drops_along(d: StateData, e: DependencyEdgeView, id: ObjectIdView) -> bool {
    edge_is_current(d, e) && (e.kind is ViewDependency || e.kind is InheritanceOf || e.kind is PartitionOf) && resolved(d.graph, e.referenced) == id
}

/// The relations that a drop of `id` drops directly.
pub open spec fn dropped_with(d: StateData, id: ObjectIdView) -> Seq<ObjectIdView> {
    d.graph.filter(|e: DependencyEdgeView| drops_along(d, e, id)).map_values(|e: DependencyEdgeView| resolved(d.graph, e.dependent))
}

/// Whether a drop of `root` drops a relation, directly or through others.
pub open spec fn falls_with(d: StateData, root: ObjectIdView, id: ObjectIdView) -> bool {
    reachable(|a: ObjectIdView| dropped_with(d, a), seq![resolved(d.graph, root)], id)
}

/// The relations that fall with `roots`.
pub open spec fn fallen_relations(d: StateData, roots: Set<ObjectIdView>) -> Set<ObjectIdView> {
    Set::new(|id: ObjectIdView| exists|root: ObjectIdView| #[trigger] roots.contains(root) && falls_with(d, root, id))
}

/// Whether an edge is the index of one of the relations.
pub open spec fn is_index_of(d: StateData, e: DependencyEdgeView, relations: Set<ObjectIdView>) -> bool {
    e.kind is IndexOnRelation && relations.contains(resolved(d.graph, e.referenced))
}

/// Whether an edge is a named foreign key into one of the relations.
pub open spec fn is_key_into(d: StateData, e: DependencyEdgeView, relations: Set<ObjectIdView>) -> bool {
    match e.kind {
        DependencyKindView::ForeignKey { constraint_name, .. } => constraint_name is Some && edge_is_current(d, e) && relations.contains(
            resolved(d.graph, e.referenced),
        ),
        _ => false,
    }
}

pub open spec fn key_name(e: DependencyEdgeView) -> Seq<char> {
    match e.kind {
        DependencyKindView::ForeignKey { constraint_name, .. } => constraint_name->0,
        _ => Seq::empty(),
    }
}

pub open spec fn fallen_indexes(d: StateData, relations: Set<ObjectIdView>) -> Set<ObjectIdView> {
    Set::new(
        |id: ObjectIdView|
            exists|i: int| 0 <= i < d.graph.len() && is_index_of(d, #[trigger] d.graph[i], relations) && resolved(d.graph, d.graph[i].dependent) == id,
    )
}

pub open spec fn fallen_keys(d: StateData, relations: Set<ObjectIdView>) -> Set<(ObjectIdView, Seq<char>)> {
    Set::new(
        |key: (ObjectIdView, Seq<char>)|
            exists|i: int|
                0 <= i < d.graph.len() && is_key_into(d, #[trigger] d.graph[i], relations) && key == (
                    resolved(d.graph, d.graph[i].dependent),
                    key_name(d.graph[i]),
                ),
    )
}

/// All that falls with `roots`.
#[verifier::opaque]
pub open spec fn cascade_for(d: StateData, roots: Set<ObjectIdView>) -> CascadeView {
    let relations = fallen_relations(d, roots);
    CascadeView { relations, indexes: fallen_indexes(d, relations), constraints: fallen_keys(d, relations) }
}

/// Whether a constraint key is one of a dropped relation, or is dropped itself.
pub open spec fn constraint_falls(d: StateData, c: CascadeView, key: (ObjectIdView, Seq<char>)) -> bool {
    c.relations.contains(resolved(d.graph, key.0)) || c.constraints.contains((resolved(d.graph, key.0), key.1))
}

/// The data without what was known of dropped constraints.
#[verifier::opaque]
pub open spec fn constraints_removed(d: StateData, c: CascadeView) -> StateData {
    StateData {
        constraints: Map::new(
            |key: (ObjectIdView, Seq<char>)| d.constraints.dom().contains(key) && !constraint_falls(d, c, key),
            |key: (ObjectIdView, Seq<char>)| d.constraints[key],
        ),
        pending_validation: d.pending_validation.filter(|key: (ObjectIdView, Seq<char>)| !constraint_falls(d, c, key)),
        baseline_foreign_keys: d.baseline_foreign_keys.filter(|key: (ObjectIdView, Seq<char>)| !constraint_falls(d, c, key)),
        ..d
    }
}

impl AnalysisState {
    pub(crate) fn dependency_edge_is_current(&self, edge: &DependencyEdge) -> (r: bool)
        ensures
            r == edge_is_current(self@.data, edge@),
    {
        proof {
            reveal(data_of);
        }
        let generation = match &edge.kind {
            DependencyKind::ForeignKey { from_generation, .. } => *from_generation,
            DependencyKind::ViewDependency { view_generation, .. } => *view_generation,
            DependencyKind::TriggerOnTable { trigger_id, trigger_generation, .. } => {
                let id = self.local.graph.resolve_rename(trigger_id);
                return match self.local.triggers.get(id) {
                    Some(Overlay::Present(trigger)) => trigger.generation == *trigger_generation,
                    Some(Overlay::Dropped) => false,
                    None => true,
                };
            },
            _ => {
                return true;
            },
        };
        let id = self.local.graph.resolve_rename(&edge.dependent);
        match self.local.relations.get(id) {
            Some(Overlay::Present(relation)) => relation.generation == generation,
            Some(Overlay::Dropped) => false,
            None => true,
        }
    }

    fn drops_along(&self, e: &DependencyEdge, id: &ObjectId) -> (r: bool)
        ensures
            r == drops_along(self@.data, e@, id@),
    {
        let carries = match &e.kind {
            DependencyKind::ViewDependency { .. } => true,
            DependencyKind::InheritanceOf => true,
            DependencyKind::PartitionOf => true,
            _ => false,
        };
        carries && self.dependency_edge_is_current(e) && self.graph().resolve_rename(&e.referenced).same(id)
    }

    fn dropped_with(&self, id: &ObjectId) -> (r: Vec<ObjectId>)
        ensures
            r.deep_view() == dropped_with(self@.data, id@),
    {
        let ghost d = self@.data;
        let hit = |e: &DependencyEdge| -> (b: bool)
            ensures
                b == drops_along(self@.data, e@, id@),
            { self.drops_along(e, id) };
        let list = self.graph().edges_where(hit, Ghost(|e: DependencyEdgeView| drops_along(d, e, id@)));
        let dependent = |e: &&DependencyEdge| -> (x: ObjectId)
            ensures
                x@ == resolved(self@.data.graph, e@.dependent),
            { self.graph().resolve_rename(&e.dependent).dup() };
        vec_map(&list, dependent, Ghost(|e: DependencyEdgeView| resolved(d.graph, e.dependent)))
    }

    fn fallen_relations(&self, roots: &Vec<ObjectId>) -> (r: VecSet<ObjectId>)
        ensures
            r@ == fallen_relations(self@.data, roots.deep_view().to_set()),
    {
        let ghost d = self@.data;
        let current = |id: &ObjectId| -> (x: ObjectId)
            ensures
                x@ == resolved(self@.data.graph, id@),
            { self.graph().resolve_rename(id).dup() };
        let starts = vec_map(roots, current, Ghost(|id: ObjectIdView| resolved(d.graph, id)));
        let ghost start_ids = starts.deep_view();
        let follow = |id: &ObjectId| -> (v: Vec<ObjectId>)
            ensures
                v.deep_view() == dropped_with(self@.data, id@),
            { self.dropped_with(id) };
        let ghost next = |id: ObjectIdView| dropped_with(d, id);
        let ghost keys = d.graph.map_values(|e: DependencyEdgeView| resolved(d.graph, e.referenced));
        proof {
            assert forall|id: ObjectIdView| #[trigger] next(id).len() > 0 implies keys.contains(id) by {
                let p = |e: DependencyEdgeView| drops_along(d, e, id);
                let list = d.graph.filter(p);
                assert(list.len() > 0);
                lemma_filtered(d.graph, p);
                assert(d.graph.contains(list[0]) && p(list[0]));
                let i = choose|i: int| 0 <= i < d.graph.len() && d.graph[i] == list[0];
                assert(keys[i] == id);
            }
        }
        let found = reach(starts, follow, Ghost(next), Ghost(keys));
        proof {
            let rs = roots.deep_view();
            assert forall|id: ObjectIdView| #[trigger] found@.contains(id) <==> fallen_relations(d, rs.to_set()).contains(id) by {
                if found@.contains(id) {
                    lemma_reachable_from_one(next, start_ids, id);
                    let i = choose|i: int| 0 <= i < start_ids.len() && reachable(next, seq![#[trigger] start_ids[i]], id);
                    assert(start_ids[i] == resolved(d.graph, rs[i]));
                    assert(rs.to_set().contains(rs[i]));
                    assert(falls_with(d, rs[i], id));
                }
                if fallen_relations(d, rs.to_set()).contains(id) {
                    let root = choose|root: ObjectIdView| #[trigger] rs.to_set().contains(root) && falls_with(d, root, id);
                    let i = choose|i: int| 0 <= i < rs.len() && rs[i] == root;
                    assert(start_ids[i] == resolved(d.graph, root));
                    lemma_reachable_from_one(next, start_ids, id);
                    assert(reachable(next, seq![start_ids[i]], id));
                }
            }
            assert(found@ =~= fallen_relations(d, rs.to_set()));
        }
        found
    }

    fn fallen_indexes(&self, relations: &VecSet<ObjectId>) -> (r: VecSet<ObjectId>)
        ensures
            r@ == fallen_indexes(self@.data, relations@),
    {
        let ghost d = self@.data;
        let edges = self.graph().edges();
        let mut out: VecSet<ObjectId> = VecSet::new();
        let mut i: usize = 0;
        while i < edges.len()
            invariant
                i <= edges.len(),
                d == self@.data,
                edges.deep_view() == d.graph,
                forall|id: ObjectIdView| #[trigger]
                    out@.contains(id) <==> exists|j: int|
                        0 <= j < i && is_index_of(d, #[trigger] d.graph[j], relations@) && resolved(d.graph, d.graph[j].dependent) == id,
            decreases edges.len() - i,
        {
            let e = &edges[i];
            let ghost before = out@;
            assert(d.graph[i as int] == e@);
            let is_index = match &e.kind {
                DependencyKind::IndexOnRelation { .. } => true,
                _ => false,
            };
            if is_index && relations.contains(self.graph().resolve_rename(&e.referenced)) {
                assert(is_index_of(d, d.graph[i as int], relations@));
                out.insert(self.graph().resolve_rename(&e.dependent).dup());
            }
            proof {
                assert forall|id: ObjectIdView| #[trigger] out@.contains(id) <==> exists|j: int|
                    0 <= j < i + 1 && is_index_of(d, #[trigger] d.graph[j], relations@) && resolved(d.graph, d.graph[j].dependent) == id by {
                    if before.contains(id) {
                        let j = choose|j: int|
                            0 <= j < i && is_index_of(d, #[trigger] d.graph[j], relations@) && resolved(d.graph, d.graph[j].dependent) == id;
                        assert(is_index_of(d, d.graph[j], relations@));
                    }
                }
            }
            i = i + 1;
        }
        assert(out@ =~= fallen_indexes(d, relations@));
        out
    }

    fn fallen_keys(&self, relations: &VecSet<ObjectId>) -> (r: VecSet<(ObjectId, String)>)
        ensures
            r@ == fallen_keys(self@.data, relations@),
    {
        let ghost d = self@.data;
        let edges = self.graph().edges();
        let mut out: VecSet<(ObjectId, String)> = VecSet::new();
        let mut i: usize = 0;
        while i < edges.len()
            invariant
                i <= edges.len(),
                d == self@.data,
                edges.deep_view() == d.graph,
                forall|key: (ObjectIdView, Seq<char>)| #[trigger]
                    out@.contains(key) <==> exists|j: int|
                        0 <= j < i && is_key_into(d, #[trigger] d.graph[j], relations@) && key == (
                            resolved(d.graph, d.graph[j].dependent),
                            key_name(d.graph[j]),
                        ),
            decreases edges.len() - i,
        {
            let e = &edges[i];
            let ghost before = out@;
            assert(d.graph[i as int] == e@);
            if let DependencyKind::ForeignKey { constraint_name: Some(name), .. } = &e.kind {
                if self.dependency_edge_is_current(e) && relations.contains(self.graph().resolve_rename(&e.referenced)) {
                    assert(is_key_into(d, d.graph[i as int], relations@));
                    out.insert((self.graph().resolve_rename(&e.dependent).dup(), name.clone()));
                }
            }
            proof {
                assert forall|key: (ObjectIdView, Seq<char>)| #[trigger] out@.contains(key) <==> exists|j: int|
                    0 <= j < i + 1 && is_key_into(d, #[trigger] d.graph[j], relations@) && key == (
                        resolved(d.graph, d.graph[j].dependent),
                        key_name(d.graph[j]),
                    ) by {
                    if before.contains(key) {
                        let j = choose|j: int|
                            0 <= j < i && is_key_into(d, #[trigger] d.graph[j], relations@) && key == (
                                resolved(d.graph, d.graph[j].dependent),
                                key_name(d.graph[j]),
                            );
                        assert(is_key_into(d, d.graph[j], relations@));
                    }
                }
            }
            i = i + 1;
        }
        assert(out@ =~= fallen_keys(d, relations@));
        out
    }

    /// All that falls with several relations.
    pub(crate) fn cascade_for_relations(&self, roots: &Vec<ObjectId>) -> (r: CascadeResult)
        ensures
            r@ == cascade_for(self@.data, roots.deep_view().to_set()),
    {
        proof {
            reveal(cascade_for);
        }
        let dropped_relations = self.fallen_relations(roots);
        let dropped_indexes = self.fallen_indexes(&dropped_relations);
        let dropped_constraints = self.fallen_keys(&dropped_relations);
        CascadeResult { dropped_relations, dropped_indexes, dropped_constraints }
    }

    /// All that falls with a relation.
    pub fn get_cascade_closure(&self, target_oid: &ObjectId) -> (r: CascadeResult)
        ensures
            r@ == cascade_for(self@.data, set![target_oid@]),
    {
        let mut roots: Vec<ObjectId> = Vec::new();
        roots.push(target_oid.dup());
        proof {
            assert(roots.deep_view() =~= seq![target_oid@]);
            assert forall|id: ObjectIdView| seq![target_oid@].to_set().contains(id) <==> set![target_oid@].contains(id) by {
                if id == target_oid@ {
                    assert(seq![target_oid@][0] == id);
                }
            }
            assert(seq![target_oid@].to_set() =~= set![target_oid@]);
        }
        self.cascade_for_relations(&roots)
    }

    fn constraint_falls(&self, c: &CascadeResult, key: &(ObjectId, String)) -> (r: bool)
        ensures
            r == constraint_falls(self@.data, c@, key.deep_view()),
    {
        let table = self.graph().resolve_rename(&key.0);
        c.dropped_relations.contains(table) || c.dropped_constraints.contains(&(table.dup(), key.1.dup()))
    }

    fn falling_constraints(&self, c: &CascadeResult) -> (r: Vec<(ObjectId, String)>)
        ensures
            forall|key: (ObjectIdView, Seq<char>)| #[trigger]
                r.deep_view().contains(key) <==> self@.data.constraints.dom().contains(key) && constraint_falls(self@.data, c@, key),
    {
        proof {
            reveal(data_of);
        }
        let hit = |key: &(ObjectId, String), state: &ConstraintState| -> (b: bool)
            ensures
                b == constraint_falls(self@.data, c@, key.deep_view()),
            { self.constraint_falls(c, key) };
        let ghost d = self@.data;
        self.local.constraints.keys_where(hit, Ghost(|key: (ObjectIdView, Seq<char>), s: ConstraintStateView| constraint_falls(d, c@, key)))
    }

    fn remaining_keys(&self, c: &CascadeResult, keys: &VecSet<(ObjectId, String)>) -> (r: VecSet<(ObjectId, String)>)
        ensures
            r@ == keys@.filter(|key: (ObjectIdView, Seq<char>)| !constraint_falls(self@.data, c@, key)),
    {
        let stays = |key: &(ObjectId, String)| -> (b: bool)
            ensures
                b == !constraint_falls(self@.data, c@, key.deep_view()),
            { !self.constraint_falls(c, key) };
        let mut out = keys.dup();
        let ghost d = self@.data;
        out.retain(stays, Ghost(|key: (ObjectIdView, Seq<char>)| !constraint_falls(d, c@, key)));
        out
    }

    pub(crate) fn pending_validation(&self) -> (r: &VecSet<(ObjectId, String)>)
        ensures
            r@ == self@.data.pending_validation,
    {
        proof {
            reveal(data_of);
        }
        &self.local.pending_validation
    }

    pub(crate) fn known_foreign_keys(&self) -> (r: &VecSet<(ObjectId, String)>)
        ensures
            r@ == self@.data.baseline_foreign_keys,
    {
        proof {
            reveal(data_of);
        }
        &self.baseline_foreign_keys
    }

    fn remove_constraints(&mut self, keys: &Vec<(ObjectId, String)>)
        ensures
            final(self)@.data == (StateData {
                constraints: Map::new(
                    |key: (ObjectIdView, Seq<char>)| old(self)@.data.constraints.dom().contains(key) && !keys.deep_view().contains(key),
                    |key: (ObjectIdView, Seq<char>)| old(self)@.data.constraints[key],
                ),
                ..old(self)@.data
            }),
            kept(old(self)@, final(self)@),
    {
        let ghost start = self@;
        let ghost ks = keys.deep_view();
        let ghost m = start.data.constraints;
        let mut i: usize = 0;
        proof {
            assert(ks.take(0) =~= Seq::<(ObjectIdView, Seq<char>)>::empty());
            assert(without_keys(m, ks.take(0)) =~= m);
        }
        while i < keys.len()
            invariant
                i <= keys.len(),
                ks == keys.deep_view(),
                m == start.data.constraints,
                self@.data == (StateData { constraints: without_keys(m, ks.take(i as int)), ..start.data }),
                kept(start, self@),
            decreases keys.len() - i,
        {
            proof {
                lemma_without_keys(m, ks, i as int);
                assert(ks[i as int] == keys@[i as int].deep_view());
            }
            self.remove_constraint(&keys[i].0, &keys[i].1);
            i = i + 1;
        }
        proof {
            assert(ks.take(ks.len() as int) =~= ks);
            assert(without_keys(m, ks) =~= Map::new(
                |key: (ObjectIdView, Seq<char>)| m.dom().contains(key) && !ks.contains(key),
                |key: (ObjectIdView, Seq<char>)| m[key],
            ));
        }
    }

    /// Forgets the constraints that a drop took along.
    pub(crate) fn remove_dropped_constraints(&mut self, c: &CascadeResult)
        ensures
            final(self)@.data == constraints_removed(old(self)@.data, c@),
            kept(old(self)@, final(self)@),
    {
        let ghost d = self@.data;
        let keys = self.falling_constraints(c);
        let pending = self.remaining_keys(c, self.pending_validation());
        let known = self.remaining_keys(c, self.known_foreign_keys());
        self.remove_constraints(&keys);
        self.set_pending_validation(pending);
        self.set_baseline_foreign_keys(known);
        proof {
            reveal(constraints_removed);
            assert(self@.data.constraints =~= constraints_removed(d, c@).constraints);
        }
    }
}

pub open spec fn without_keys<K, V>(m: Map<K, V>, keys: Seq<K>) -> Map<K, V> {
    Map::new(|k: K| m.dom().contains(k) && !keys.contains(k), |k: K| m[k])
}

proof fn lemma_without_keys<K, V>(m: Map<K, V>, keys: Seq<K>, i: int)
    requires
        0 <= i < keys.len(),
    ensures
        without_keys(m, keys.take(i + 1)) == without_keys(m, keys.take(i)).remove(keys[i]),
{
    let a = keys.take(i);
    let b = keys.take(i + 1);
    assert forall|k: K| b.contains(k) <==> (a.contains(k) || k == keys[i]) by {
        if b.contains(k) {
            let j = choose|j: int| 0 <= j < b.len() && b[j] == k;
            if j < i {
                assert(a[j] == k);
            }
        }
        if a.contains(k) {
            let j = choose|j: int| 0 <= j < a.len() && a[j] == k;
            assert(b[j] == k);
        }
        assert(b[i] == keys[i]);
    }
    assert(without_keys(m, b) =~= without_keys(m, a).remove(keys[i]));
}

/// What falls with relations holds the relations themselves, by their current
/// identities, and what falls with anything it holds.
pub proof fn law_cascade_is_closed(d: StateData, roots: Set<ObjectIdView>, root: ObjectIdView, e: DependencyEdgeView)
    requires
        roots.contains(root),
        d.graph.contains(e),
    ensures
        cascade_for(d, roots).relations.contains(resolved(d.graph, root)),
        drops_along(d, e, resolved(d.graph, e.referenced)) && cascade_for(d, roots).relations.contains(resolved(d.graph, e.referenced))
            ==> cascade_for(d, roots).relations.contains(resolved(d.graph, e.dependent)),
{
    reveal(cascade_for);
    let next = |a: ObjectIdView| dropped_with(d, a);
    lemma_roots_reachable(next, seq![resolved(d.graph, root)], 0);
    assert(seq![resolved(d.graph, root)][0] == resolved(d.graph, root));
    assert(falls_with(d, root, resolved(d.graph, root)));
    let id = resolved(d.graph, e.referenced);
    if drops_along(d, e, id) && fallen_relations(d, roots).contains(id) {
        let from = choose|r: ObjectIdView| #[trigger] roots.contains(r) && falls_with(d, r, id);
        let p = |x: DependencyEdgeView| drops_along(d, x, id);
        lemma_filtered(d.graph, p);
        let list = d.graph.filter(p);
        let j = choose|j: int| 0 <= j < list.len() && list[j] == e;
        assert(next(id)[j] == resolved(d.graph, e.dependent));
        lemma_reachable_further(next, seq![resolved(d.graph, from)], id, j);
        assert(falls_with(d, from, resolved(d.graph, e.dependent)));
    }
}

/// A drop never follows an edge of an object that was dropped since.
pub proof fn law_stale_edges_do_not_cascade(d: StateData, e: DependencyEdgeView, id: ObjectIdView)
    requires
        !edge_is_current(d, e),
    ensures
        !drops_along(d, e, id),
{
}

} // verus!
