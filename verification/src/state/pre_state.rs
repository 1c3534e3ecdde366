//! What a statement finds before it runs, and small questions about the state.
use crate::cache::CatalogFamily;
use crate::collections::{vec_any, vec_filter, Dup, Key, VecMap, VecSet};
use crate::evidence::EvidenceLocation;
use crate::graph::{DependencyEdge, DependencyEdgeView, DependencyKind, DependencyKindView};
use crate::identifiers::{ObjectId, ObjectIdView};
use crate::model::column_action::has_column;
use crate::model::function::{FunctionState, FunctionStateView};
use crate::model::relation::{RelationState, RelationStateView};
use crate::model::replication::{PublicationState, PublicationStateView, SubscriptionState, SubscriptionStateView};
use crate::model::role::{RoleState, RoleStateView};
use crate::model::sequence::{SequenceState, SequenceStateView};
use crate::model::types::{TypeKind, TypeState, TypeStateView};
use crate::model::Overlay;
use crate::state::lookup::{covers_family, dropped, present, state_of};
use crate::state::{data_of, AnalysisState, AnalysisStateView, ObjectLookup, StateData};
use crate::text::{chars_of, first_index, index_of, text_of};
use crate::transaction::{StateChange, StateChangeView, TransactionFrameView};
use vstd::prelude::*;

verus! {

/// The objects that are present before a statement runs.
#[derive(Debug)]
pub struct PreState {
    pub relations: VecMap<ObjectId, RelationState>,
    pub functions: VecMap<ObjectId, FunctionState>,
    pub roles: VecMap<ObjectId, RoleState>,
    pub publications: VecMap<String, PublicationState>,
    pub subscriptions: VecMap<String, SubscriptionState>,
    pub sequences: VecMap<ObjectId, SequenceState>,
    pub types: VecMap<ObjectId, TypeState>,
    pub indexes: Vec<DependencyEdge>,
    pub baseline_foreign_keys: VecSet<(ObjectId, String)>,
}

#[verifier::ext_equal]
pub struct PreStateView {
    pub relations: Map<ObjectIdView, RelationStateView>,
    pub functions: Map<ObjectIdView, FunctionStateView>,
    pub roles: Map<ObjectIdView, RoleStateView>,
    pub publications: Map<Seq<char>, PublicationStateView>,
    pub subscriptions: Map<Seq<char>, SubscriptionStateView>,
    pub sequences: Map<ObjectIdView, SequenceStateView>,
    pub types: Map<ObjectIdView, TypeStateView>,
    pub indexes: Seq<DependencyEdgeView>,
    pub baseline_foreign_keys: Set<(ObjectIdView, Seq<char>)>,
}

impl View for PreState {
    type V = PreStateView;

    open spec fn view(&self) -> PreStateView {
        PreStateView {
            relations: self.relations@,
            functions: self.functions@,
            roles: self.roles@,
            publications: self.publications@,
            subscriptions: self.subscriptions@,
            sequences: self.sequences@,
            types: self.types@,
            indexes: self.indexes.deep_view(),
            baseline_foreign_keys: self.baseline_foreign_keys@,
        }
    }
}

impl Default for PreState {
    fn default() -> (r: Self)
        ensures
            r@ == (PreStateView {
                relations: Map::empty(),
                functions: Map::empty(),
                roles: Map::empty(),
                publications: Map::empty(),
                subscriptions: Map::empty(),
                sequences: Map::empty(),
                types: Map::empty(),
                indexes: Seq::empty(),
                baseline_foreign_keys: Set::empty(),
            }),
    {
        let indexes: Vec<DependencyEdge> = Vec::new();
        assert(indexes.deep_view() =~= Seq::<DependencyEdgeView>::empty());
        PreState {
            relations: VecMap::new(),
            functions: VecMap::new(),
            roles: VecMap::new(),
            publications: VecMap::new(),
            subscriptions: VecMap::new(),
            sequences: VecMap::new(),
            types: VecMap::new(),
            indexes,
            baseline_foreign_keys: VecSet::new(),
        }
    }
}

/// The objects of a family that are present.
pub open spec fn present_of<K, V>(m: Map<K, Overlay<V>>) -> Map<K, V> {
    Map::new(|k: K| present(m, k), |k: K| state_of(m, k))
}

/// What a statement finds.
pub open spec fn pre_state_of(d: StateData) -> PreStateView {
    PreStateView {
        relations: present_of(d.relations),
        functions: present_of(d.functions),
        roles: present_of(d.roles),
        publications: present_of(d.publications),
        subscriptions: present_of(d.subscriptions),
        sequences: present_of(d.sequences),
        types: present_of(d.types),
        indexes: d.graph.filter(|e: DependencyEdgeView| e.kind is IndexOnRelation),
        baseline_foreign_keys: d.baseline_foreign_keys,
    }
}

/// Brings `target` to what is present in `source`.
fn sync_present_map<K: Key, V: Dup>(target: &mut VecMap<K, V>, source: &VecMap<K, Overlay<V>>)
    ensures
        final(target)@ == present_of(source@),
{
    let mut out: VecMap<K, V> = VecMap::new();
    let n = source.len();
    let ghost items = source.items();
    let mut i: usize = 0;
    while i < n
        invariant
            i <= n,
            n == source.items().len(),
            items == source.items(),
            crate::collections::distinct_keys(items),
            forall|k: K::V| #[trigger]
                out@.dom().contains(k) <==> exists|j: int| 0 <= j < i && (#[trigger] items[j]).0 == k && items[j].1 is Present,
            forall|j: int| 0 <= j < i && (#[trigger] items[j]).1 is Present ==> out@[items[j].0] == items[j].1->Present_0,
        decreases n - i,
    {
        let ghost before = out@;
        if let Overlay::Present(state) = source.value_at(i) {
            out.insert(source.key_at(i).dup(), state.dup());
        }
        proof {
            assert forall|k: K::V| #[trigger] out@.dom().contains(k) <==> exists|j: int|
                0 <= j < i + 1 && (#[trigger] items[j]).0 == k && items[j].1 is Present by {
                if before.dom().contains(k) {
                    let j = choose|j: int| 0 <= j < i && (#[trigger] items[j]).0 == k && items[j].1 is Present;
                    assert(items[j].0 == k);
                }
                if items[i as int].0 == k {
                    assert(items[i as int].0 == k);
                }
            }
            assert forall|j: int| 0 <= j < i + 1 && (#[trigger] items[j]).1 is Present implies out@[items[j].0] == items[j].1->Present_0 by {
                if j < i {
                    assert(items[j].0 != items[i as int].0);
                }
            }
        }
        i = i + 1;
    }
    proof {
        let goal = present_of(source@);
        assert forall|k: K::V| #[trigger] out@.dom().contains(k) <==> goal.dom().contains(k) by {
            if out@.dom().contains(k) {
                let j = choose|j: int| 0 <= j < n && (#[trigger] items[j]).0 == k && items[j].1 is Present;
                assert(source@.dom().contains(items[j].0) && source@[items[j].0] == items[j].1);
            }
            if present(source@, k) {
                let j = choose|j: int| 0 <= j < items.len() && items[j].0 == k;
                assert(source@[items[j].0] == items[j].1);
            }
        }
        assert forall|k: K::V| #[trigger] out@.dom().contains(k) implies out@[k] == goal[k] by {
            let j = choose|j: int| 0 <= j < n && (#[trigger] items[j]).0 == k && items[j].1 is Present;
            assert(source@[items[j].0] == items[j].1);
        }
        assert(out@ =~= goal);
    }
    *target = out;
}

/// What the first record of a relation in an undo log says it was before.
pub open spec fn first_relation_record(log: Seq<StateChangeView>, id: ObjectIdView, i: nat) -> Option<Option<Overlay<RelationStateView>>>
    decreases log.len() - i,
{
    if i >= log.len() {
        None
    } else {
        match log[i as int] {
            StateChangeView::RelationSnapshot { id: x, previous } => if x == id {
                Some(previous)
            } else {
                first_relation_record(log, id, i + 1)
            },
            _ => first_relation_record(log, id, i + 1),
        }
    }
}

/// What a relation was before the open transaction first changed it. Frames
/// are read from the oldest to the newest.
pub open spec fn relation_before(frames: Seq<TransactionFrameView>, id: ObjectIdView, i: nat) -> Option<Option<Overlay<RelationStateView>>>
    decreases frames.len() - i,
{
    if i >= frames.len() {
        None
    } else if first_relation_record(frames[i as int].undo_log, id, 0) is Some {
        first_relation_record(frames[i as int].undo_log, id, 0)
    } else {
        relation_before(frames, id, i + 1)
    }
}

/// Whether a column came with the open transaction: the transaction changed
/// the table, and the table lacked the column or did not exist before.
pub open spec fn column_is_new(frames: Seq<TransactionFrameView>, table: ObjectIdView, column: Seq<char>) -> bool {
    match relation_before(frames, table, 0) {
        Some(Some(Overlay::Present(relation))) => !has_column(relation.columns, column),
        Some(_) => true,
        None => false,
    }
}

/// The schema of a displayed name, where the baseline was not read for it.
pub open spec fn omitted_schema(d: StateData, shown: Seq<char>) -> Option<Seq<char>> {
    let i = first_index(shown, '.');
    if d.baseline_schemas is Some && i < shown.len() && !d.baseline_schemas->0.contains(shown.take(i)) {
        Some(shown.take(i))
    } else {
        None
    }
}

/// Whether an edge is a unique index that can identify the rows of a relation.
pub open spec fn is_usable_unique_index(e: DependencyEdgeView, relation: ObjectIdView) -> bool {
    match e.kind {
        DependencyKindView::IndexOnRelation { is_unique, has_expression_keys, has_predicate, is_valid, is_ready, is_live, eligibility_known, .. } => e.referenced
            == relation && eligibility_known && is_unique && !has_expression_keys && !has_predicate && is_valid && is_ready && is_live,
        _ => false,
    }
}

/// Which types a statement accepts.
#[derive(Clone, Copy, Debug, PartialEq, Eq, Structural)]
pub enum TypeFilter {
    Any,
    Enum,
    Domain,
    NotDomain,
}

pub open spec fn accepts_type(filter: TypeFilter, t: TypeStateView) -> bool {
    match filter {
        TypeFilter::Any => true,
        TypeFilter::Enum => t.kind is Enum,
        TypeFilter::Domain => t.kind is Domain,
        TypeFilter::NotDomain => !(t.kind is Domain),
    }
}

pub open spec fn type_lookup(d: StateData, id: ObjectIdView, filter: TypeFilter) -> ObjectLookup {
    if present(d.types, id) {
        if accepts_type(filter, state_of(d.types, id)) {
            ObjectLookup::Present
        } else {
            ObjectLookup::WrongKind
        }
    } else if dropped(d.types, id) {
        ObjectLookup::Tombstone
    } else if covers_family(d, id, CatalogFamily::Types) {
        ObjectLookup::AuthoritativelyAbsent
    } else {
        ObjectLookup::Unknown
    }
}

fn find_relation_record<'a>(log: &'a Vec<StateChange>, id: &ObjectId) -> (r: Option<&'a Option<Overlay<RelationState>>>)
    ensures
        match r {
            Some(previous) => first_relation_record(log.deep_view(), id@, 0) == Some(previous.deep_view()),
            None => first_relation_record(log.deep_view(), id@, 0) is None,
        },
{
    let mut i: usize = 0;
    while i < log.len()
        invariant
            i <= log.len(),
            first_relation_record(log.deep_view(), id@, 0) == first_relation_record(log.deep_view(), id@, i as nat),
        decreases log.len() - i,
    {
        assert(log.deep_view()[i as int] == log@[i as int]@);
        if let StateChange::RelationSnapshot { id: x, previous } = &log[i] {
            if x.same(id) {
                return Some(previous);
            }
        }
        i = i + 1;
    }
    None
}

impl AnalysisState {
    /// What a statement finds, in a new place.
    pub fn capture_pre_state(&self) -> (r: PreState)
        ensures
            r@ == pre_state_of(self@.data),
    {
        let mut pre_state = PreState::default();
        self.capture_pre_state_into(&mut pre_state);
        pre_state
    }

    /// What a statement finds, in place of what an earlier one found. Nothing
    /// of the earlier one stays.
    pub fn capture_pre_state_into(&self, pre_state: &mut PreState)
        ensures
            final(pre_state)@ == pre_state_of(self@.data),
    {
        proof {
            reveal(data_of);
        }
        sync_present_map(&mut pre_state.relations, &self.local.relations);
        sync_present_map(&mut pre_state.functions, &self.local.functions);
        sync_present_map(&mut pre_state.roles, &self.local.roles);
        sync_present_map(&mut pre_state.publications, &self.local.publications);
        sync_present_map(&mut pre_state.subscriptions, &self.local.subscriptions);
        sync_present_map(&mut pre_state.sequences, &self.local.sequences);
        sync_present_map(&mut pre_state.types, &self.local.types);
        let is = |e: &DependencyEdge| -> (b: bool)
            ensures
                b == (e@.kind is IndexOnRelation),
            {
                match &e.kind {
                    DependencyKind::IndexOnRelation { .. } => true,
                    _ => false,
                }
            };
        pre_state.indexes = vec_filter(self.local.graph.edges(), is, Ghost(|e: DependencyEdgeView| e.kind is IndexOnRelation));
        pre_state.baseline_foreign_keys = self.baseline_foreign_keys.dup();
    }

    /// Whether a column came with the open transaction.
    pub fn column_was_added_in_transaction(&self, table_id: &ObjectId, column: &str) -> (r: bool)
        ensures
            r == column_is_new(self@.frames, table_id@, column@),
    {
        let frames = &self.local.transactions;
        let mut i: usize = 0;
        while i < frames.len()
            invariant
                i <= frames.len(),
                frames.deep_view() == self@.frames,
                relation_before(self@.frames, table_id@, 0) == relation_before(self@.frames, table_id@, i as nat),
            decreases frames.len() - i,
        {
            assert(frames.deep_view()[i as int] == frames@[i as int]@);
            if let Some(previous) = find_relation_record(&frames[i].undo_log, table_id) {
                return match previous {
                    Some(Overlay::Present(relation)) => !relation.has_column(column),
                    Some(Overlay::Dropped) => true,
                    None => true,
                };
            }
            i = i + 1;
        }
        false
    }

    /// The schema of a displayed name, where the baseline was not read for it.
    pub fn baseline_scope_omits_displayed_object(&self, object_name: &str) -> (r: Option<String>)
        ensures
            r.deep_view() == omitted_schema(self@.data, object_name@),
    {
        proof {
            reveal(data_of);
        }
        match &self.baseline_schemas {
            Some(schemas) => {
                let v = chars_of(object_name);
                let i = index_of(&v, '.');
                if i >= v.len() {
                    return None;
                }
                let schema = text_of(&v, 0, i);
                assert(schema@ =~= object_name@.take(i as int));
                if schemas.contains(&schema) {
                    None
                } else {
                    Some(schema)
                }
            },
            None => None,
        }
    }

    /// Whether a relation has a unique index that can identify its rows.
    pub fn has_usable_unique_index(&self, relation_id: &ObjectId) -> (r: bool)
        ensures
            r == exists|i: int| 0 <= i < self@.data.graph.len() && is_usable_unique_index(#[trigger] self@.data.graph[i], relation_id@),
    {
        proof {
            reveal(data_of);
        }
        let is = |e: &DependencyEdge| -> (b: bool)
            ensures
                b == is_usable_unique_index(e@, relation_id@),
            {
                match &e.kind {
                    DependencyKind::IndexOnRelation {
                        is_unique,
                        has_expression_keys,
                        has_predicate,
                        is_valid,
                        is_ready,
                        is_live,
                        eligibility_known,
                        ..
                    } => e.referenced.same(relation_id) && *eligibility_known && *is_unique && !*has_expression_keys && !*has_predicate && *is_valid
                        && *is_ready && *is_live,
                    _ => false,
                }
            };
        let r = vec_any(self.local.graph.edges(), is, Ghost(|e: DependencyEdgeView| is_usable_unique_index(e, relation_id@)));
        proof {
            let s = self@.data.graph;
            if r {
                let i = choose|i: int| 0 <= i < s.len() && is_usable_unique_index(#[trigger] s[i], relation_id@);
                assert(is_usable_unique_index(s[i], relation_id@));
            }
        }
        r
    }

    /// Aborts the open transaction: statements are not executed until it ends.
    pub fn mark_transaction_aborted(&mut self)
        ensures
            final(self)@ == (AnalysisStateView { aborted: true, ..old(self)@ }),
    {
        self.local.transaction_aborted = true;
        proof {
            reveal(data_of);
        }
    }

    /// Places the evidence that is recorded from now on.
    pub fn set_evidence_location(&mut self, location: Option<EvidenceLocation>)
        ensures
            final(self)@ == (AnalysisStateView { data: StateData { current_evidence_location: location, ..old(self)@.data }, ..old(self)@ }),
    {
        self.local.current_evidence_location = location;
        proof {
            reveal(data_of);
        }
    }

    /// What is known of the type that a statement names.
    pub(crate) fn type_lookup(&self, id: &ObjectId, filter: TypeFilter) -> (r: ObjectLookup)
        ensures
            r == type_lookup(self@.data, id@, filter),
    {
        proof {
            reveal(data_of);
        }
        match self.local.types.get(id) {
            Some(Overlay::Present(state)) => {
                let accepted = match filter {
                    TypeFilter::Any => true,
                    TypeFilter::Enum => matches!(state.kind, TypeKind::Enum { .. }),
                    TypeFilter::Domain => matches!(state.kind, TypeKind::Domain { .. }),
                    TypeFilter::NotDomain => !matches!(state.kind, TypeKind::Domain { .. }),
                };
                if accepted {
                    ObjectLookup::Present
                } else {
                    ObjectLookup::WrongKind
                }
            },
            Some(Overlay::Dropped) => ObjectLookup::Tombstone,
            None => {
                if self.baseline_covers_family_object(id, CatalogFamily::Types) {
                    ObjectLookup::AuthoritativelyAbsent
                } else {
                    ObjectLookup::Unknown
                }
            },
        }
    }
}

} // verus!
