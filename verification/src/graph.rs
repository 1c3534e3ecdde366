//! The dependency graph between catalog objects.
use crate::collections::{vec_any, vec_filter, Dup, Key, VecMap};
use crate::identifiers::{ObjectId, ObjectIdView};
use vstd::prelude::*;

verus! {

/// Why one object depends on another.
#[derive(Clone, Debug, PartialEq)]
pub enum DependencyKind {
    ForeignKey {
        constraint_name: Option<String>,
        from_columns: Vec<String>,
        to_columns: Vec<String>,
        /// Equality operators that the catalog selected, where they are proved.
        operator_evidence: Option<ForeignKeyOperatorEvidence>,
        from_generation: u64,
    },
    ViewDependency {
        view_generation: u64,
        /// `Some` is a proved column dependency; `None` is relation-level evidence.
        referenced_column: Option<String>,
    },
    IndexOnRelation {
        using_method: Option<String>,
        key_columns: Vec<String>,
        included_columns: Vec<String>,
        dependency_columns: Vec<String>,
        dependency_columns_known: bool,
        has_expression_keys: bool,
        has_predicate: bool,
        is_concurrent: bool,
        is_unique: bool,
        is_valid: bool,
        is_ready: bool,
        is_live: bool,
        has_default_sort_order: bool,
        has_default_opclasses: bool,
        has_default_collations: bool,
        eligibility_known: bool,
    },
    /// A primary-key or unique constraint whose ordered key columns are known.
    ConstraintOnRelation {
        constraint_name: String,
        columns: Vec<String>,
        is_primary: bool,
    },
    /// A check or exclusion constraint's expression columns.
    ConstraintDependency {
        constraint_name: String,
        columns: Vec<String>,
    },
    RenameTo,
    /// Traditional table inheritance. It drops like a partition, but
    /// partition-only checks do not apply to it.
    InheritanceOf,
    PartitionOf,
    SequenceOwnedBy {
        column: String,
    },
    ColumnGeneratedFrom {
        column: String,
        depends_on_column: String,
    },
    ColumnDefaultOnSequence {
        column: String,
    },
    TriggerOnTable {
        trigger_id: ObjectId,
        function_id: ObjectId,
        trigger_generation: u64,
    },
    PublicationIncludes {
        publication_name: String,
    },
}

#[verifier::ext_equal]
pub enum DependencyKindView {
    ForeignKey {
        constraint_name: Option<Seq<char>>,
        from_columns: Seq<Seq<char>>,
        to_columns: Seq<Seq<char>>,
        operator_evidence: Option<ForeignKeyOperatorEvidenceView>,
        from_generation: u64,
    },
    ViewDependency {
        view_generation: u64,
        referenced_column: Option<Seq<char>>,
    },
    IndexOnRelation {
        using_method: Option<Seq<char>>,
        key_columns: Seq<Seq<char>>,
        included_columns: Seq<Seq<char>>,
        dependency_columns: Seq<Seq<char>>,
        dependency_columns_known: bool,
        has_expression_keys: bool,
        has_predicate: bool,
        is_concurrent: bool,
        is_unique: bool,
        is_valid: bool,
        is_ready: bool,
        is_live: bool,
        has_default_sort_order: bool,
        has_default_opclasses: bool,
        has_default_collations: bool,
        eligibility_known: bool,
    },
    ConstraintOnRelation {
        constraint_name: Seq<char>,
        columns: Seq<Seq<char>>,
        is_primary: bool,
    },
    ConstraintDependency {
        constraint_name: Seq<char>,
        columns: Seq<Seq<char>>,
    },
    RenameTo,
    InheritanceOf,
    PartitionOf,
    SequenceOwnedBy {
        column: Seq<char>,
    },
    ColumnGeneratedFrom {
        column: Seq<char>,
        depends_on_column: Seq<char>,
    },
    ColumnDefaultOnSequence {
        column: Seq<char>,
    },
    TriggerOnTable {
        trigger_id: ObjectIdView,
        function_id: ObjectIdView,
        trigger_generation: u64,
    },
    PublicationIncludes {
        publication_name: Seq<char>,
    },
}

impl View for DependencyKind {
    type V = DependencyKindView;

    open spec fn view(&self) -> DependencyKindView {
        match self {
            DependencyKind::ForeignKey { constraint_name, from_columns, to_columns, operator_evidence, from_generation } => DependencyKindView::ForeignKey {
                constraint_name: constraint_name.deep_view(),
                from_columns: from_columns.deep_view(),
                to_columns: to_columns.deep_view(),
                operator_evidence: operator_evidence.deep_view(),
                from_generation: from_generation.deep_view(),
            },
            DependencyKind::ViewDependency { view_generation, referenced_column } => DependencyKindView::ViewDependency {
                view_generation: view_generation.deep_view(),
                referenced_column: referenced_column.deep_view(),
            },
            DependencyKind::IndexOnRelation { using_method, key_columns, included_columns, dependency_columns, dependency_columns_known, has_expression_keys, has_predicate, is_concurrent, is_unique, is_valid, is_ready, is_live, has_default_sort_order, has_default_opclasses, has_default_collations, eligibility_known } => DependencyKindView::IndexOnRelation {
                using_method: using_method.deep_view(),
                key_columns: key_columns.deep_view(),
                included_columns: included_columns.deep_view(),
                dependency_columns: dependency_columns.deep_view(),
                dependency_columns_known: dependency_columns_known.deep_view(),
                has_expression_keys: has_expression_keys.deep_view(),
                has_predicate: has_predicate.deep_view(),
                is_concurrent: is_concurrent.deep_view(),
                is_unique: is_unique.deep_view(),
                is_valid: is_valid.deep_view(),
                is_ready: is_ready.deep_view(),
                is_live: is_live.deep_view(),
                has_default_sort_order: has_default_sort_order.deep_view(),
                has_default_opclasses: has_default_opclasses.deep_view(),
                has_default_collations: has_default_collations.deep_view(),
                eligibility_known: eligibility_known.deep_view(),
            },
            DependencyKind::ConstraintOnRelation { constraint_name, columns, is_primary } => DependencyKindView::ConstraintOnRelation {
                constraint_name: constraint_name.deep_view(),
                columns: columns.deep_view(),
                is_primary: is_primary.deep_view(),
            },
            DependencyKind::ConstraintDependency { constraint_name, columns } => DependencyKindView::ConstraintDependency {
                constraint_name: constraint_name.deep_view(),
                columns: columns.deep_view(),
            },
            DependencyKind::RenameTo => DependencyKindView::RenameTo,
            DependencyKind::InheritanceOf => DependencyKindView::InheritanceOf,
            DependencyKind::PartitionOf => DependencyKindView::PartitionOf,
            DependencyKind::SequenceOwnedBy { column } => DependencyKindView::SequenceOwnedBy {
                column: column.deep_view(),
            },
            DependencyKind::ColumnGeneratedFrom { column, depends_on_column } => DependencyKindView::ColumnGeneratedFrom {
                column: column.deep_view(),
                depends_on_column: depends_on_column.deep_view(),
            },
            DependencyKind::ColumnDefaultOnSequence { column } => DependencyKindView::ColumnDefaultOnSequence {
                column: column.deep_view(),
            },
            DependencyKind::TriggerOnTable { trigger_id, function_id, trigger_generation } => DependencyKindView::TriggerOnTable {
                trigger_id: trigger_id.deep_view(),
                function_id: function_id.deep_view(),
                trigger_generation: trigger_generation.deep_view(),
            },
            DependencyKind::PublicationIncludes { publication_name } => DependencyKindView::PublicationIncludes {
                publication_name: publication_name.deep_view(),
            },
        }
    }
}

impl DeepView for DependencyKind {
    type V = DependencyKindView;

    open spec fn deep_view(&self) -> DependencyKindView {
        self@
    }
}

impl Dup for DependencyKind {
    fn dup(&self) -> (r: Self) {
        match self {
            DependencyKind::ForeignKey { constraint_name, from_columns, to_columns, operator_evidence, from_generation } => DependencyKind::ForeignKey {
                constraint_name: constraint_name.dup(),
                from_columns: from_columns.dup(),
                to_columns: to_columns.dup(),
                operator_evidence: operator_evidence.dup(),
                from_generation: from_generation.dup(),
            },
            DependencyKind::ViewDependency { view_generation, referenced_column } => DependencyKind::ViewDependency {
                view_generation: view_generation.dup(),
                referenced_column: referenced_column.dup(),
            },
            DependencyKind::IndexOnRelation { using_method, key_columns, included_columns, dependency_columns, dependency_columns_known, has_expression_keys, has_predicate, is_concurrent, is_unique, is_valid, is_ready, is_live, has_default_sort_order, has_default_opclasses, has_default_collations, eligibility_known } => DependencyKind::IndexOnRelation {
                using_method: using_method.dup(),
                key_columns: key_columns.dup(),
                included_columns: included_columns.dup(),
                dependency_columns: dependency_columns.dup(),
                dependency_columns_known: dependency_columns_known.dup(),
                has_expression_keys: has_expression_keys.dup(),
                has_predicate: has_predicate.dup(),
                is_concurrent: is_concurrent.dup(),
                is_unique: is_unique.dup(),
                is_valid: is_valid.dup(),
                is_ready: is_ready.dup(),
                is_live: is_live.dup(),
                has_default_sort_order: has_default_sort_order.dup(),
                has_default_opclasses: has_default_opclasses.dup(),
                has_default_collations: has_default_collations.dup(),
                eligibility_known: eligibility_known.dup(),
            },
            DependencyKind::ConstraintOnRelation { constraint_name, columns, is_primary } => DependencyKind::ConstraintOnRelation {
                constraint_name: constraint_name.dup(),
                columns: columns.dup(),
                is_primary: is_primary.dup(),
            },
            DependencyKind::ConstraintDependency { constraint_name, columns } => DependencyKind::ConstraintDependency {
                constraint_name: constraint_name.dup(),
                columns: columns.dup(),
            },
            DependencyKind::RenameTo => DependencyKind::RenameTo,
            DependencyKind::InheritanceOf => DependencyKind::InheritanceOf,
            DependencyKind::PartitionOf => DependencyKind::PartitionOf,
            DependencyKind::SequenceOwnedBy { column } => DependencyKind::SequenceOwnedBy {
                column: column.dup(),
            },
            DependencyKind::ColumnGeneratedFrom { column, depends_on_column } => DependencyKind::ColumnGeneratedFrom {
                column: column.dup(),
                depends_on_column: depends_on_column.dup(),
            },
            DependencyKind::ColumnDefaultOnSequence { column } => DependencyKind::ColumnDefaultOnSequence {
                column: column.dup(),
            },
            DependencyKind::TriggerOnTable { trigger_id, function_id, trigger_generation } => DependencyKind::TriggerOnTable {
                trigger_id: trigger_id.dup(),
                function_id: function_id.dup(),
                trigger_generation: trigger_generation.dup(),
            },
            DependencyKind::PublicationIncludes { publication_name } => DependencyKind::PublicationIncludes {
                publication_name: publication_name.dup(),
            },
        }
    }
}

/// The equality operators of a foreign key.
#[derive(Clone, Debug, PartialEq)]
pub struct ForeignKeyOperatorEvidence {
    pub pk_fk: Vec<String>,
    pub pk_pk: Vec<String>,
    pub fk_fk: Vec<String>,
}

#[verifier::ext_equal]
pub struct ForeignKeyOperatorEvidenceView {
    pub pk_fk: Seq<Seq<char>>,
    pub pk_pk: Seq<Seq<char>>,
    pub fk_fk: Seq<Seq<char>>,
}

impl View for ForeignKeyOperatorEvidence {
    type V = ForeignKeyOperatorEvidenceView;

    open spec fn view(&self) -> ForeignKeyOperatorEvidenceView {
        ForeignKeyOperatorEvidenceView {
            pk_fk: self.pk_fk.deep_view(),
            pk_pk: self.pk_pk.deep_view(),
            fk_fk: self.fk_fk.deep_view(),
        }
    }
}

impl DeepView for ForeignKeyOperatorEvidence {
    type V = ForeignKeyOperatorEvidenceView;

    open spec fn deep_view(&self) -> ForeignKeyOperatorEvidenceView {
        self@
    }
}

impl Dup for ForeignKeyOperatorEvidence {
    fn dup(&self) -> (r: Self) {
        ForeignKeyOperatorEvidence {
            pk_fk: self.pk_fk.dup(),
            pk_pk: self.pk_pk.dup(),
            fk_fk: self.fk_fk.dup(),
        }
    }
}

/// One dependency between two objects.
#[derive(Clone, Debug, PartialEq)]
pub struct DependencyEdge {
    pub dependent: ObjectId,
    pub referenced: ObjectId,
    pub kind: DependencyKind,
}

#[verifier::ext_equal]
pub struct DependencyEdgeView {
    pub dependent: ObjectIdView,
    pub referenced: ObjectIdView,
    pub kind: DependencyKindView,
}

impl View for DependencyEdge {
    type V = DependencyEdgeView;

    open spec fn view(&self) -> DependencyEdgeView {
        DependencyEdgeView {
            dependent: self.dependent.deep_view(),
            referenced: self.referenced.deep_view(),
            kind: self.kind.deep_view(),
        }
    }
}

impl DeepView for DependencyEdge {
    type V = DependencyEdgeView;

    open spec fn deep_view(&self) -> DependencyEdgeView {
        self@
    }
}

impl Dup for DependencyEdge {
    fn dup(&self) -> (r: Self) {
        DependencyEdge {
            dependent: self.dependent.dup(),
            referenced: self.referenced.dup(),
            kind: self.kind.dup(),
        }
    }
}

impl DependencyEdge {
    pub fn new(dependent: ObjectId, referenced: ObjectId, kind: DependencyKind) -> (r: Self)
        ensures
            r@ == edge(dependent@, referenced@, kind@),
    {
        DependencyEdge { dependent, referenced, kind }
    }
}

pub open spec fn edge(dependent: ObjectIdView, referenced: ObjectIdView, kind: DependencyKindView) -> DependencyEdgeView {
    DependencyEdgeView { dependent, referenced, kind }
}

// ---------------------------------------------------------------------------
// Rename chains
// ---------------------------------------------------------------------------

pub open spec fn renames(e: DependencyEdgeView, id: ObjectIdView) -> bool {
    e.kind is RenameTo && e.dependent == id
}

/// The position of the first edge that renames `id`, or the number of edges.
pub open spec fn first_rename(edges: Seq<DependencyEdgeView>, id: ObjectIdView) -> int
    decreases edges.len(),
{
    if edges.len() == 0 || renames(edges[0], id) {
        0
    } else {
        1 + first_rename(edges.drop_first(), id)
    }
}

/// What the first rename of `id` leads to.
pub open spec fn renamed(edges: Seq<DependencyEdgeView>, id: ObjectIdView) -> Option<ObjectIdView> {
    let i = first_rename(edges, id);
    if i < edges.len() {
        Some(edges[i].referenced)
    } else {
        None
    }
}

/// Where `n` renames lead from `id`.
pub open spec fn rename_chain(edges: Seq<DependencyEdgeView>, id: ObjectIdView, n: nat) -> Option<ObjectIdView>
    decreases n,
{
    if n == 0 {
        Some(id)
    } else {
        match rename_chain(edges, id, (n - 1) as nat) {
            Some(x) => renamed(edges, x),
            None => None,
        }
    }
}

/// Whether the chain from `id` ends after exactly `n` renames.
pub open spec fn ends_after(edges: Seq<DependencyEdgeView>, id: ObjectIdView, n: nat) -> bool {
    rename_chain(edges, id, n) is Some && renamed(edges, rename_chain(edges, id, n)->0) is None
}

/// The current identity of `id`: the end of its rename chain, or `id` itself
/// where the chain is a cycle and has no end.
pub open spec fn resolved(edges: Seq<DependencyEdgeView>, id: ObjectIdView) -> ObjectIdView {
    if exists|n: nat| ends_after(edges, id, n) {
        rename_chain(edges, id, choose|n: nat| ends_after(edges, id, n))->0
    } else {
        id
    }
}

pub(crate) proof fn lemma_first_rename_at(edges: Seq<DependencyEdgeView>, id: ObjectIdView, i: int)
    requires
        0 <= i <= edges.len(),
        forall|j: int| 0 <= j < i ==> !renames(#[trigger] edges[j], id),
        i < edges.len() ==> renames(edges[i], id),
    ensures
        first_rename(edges, id) == i,
    decreases i,
{
    if i > 0 {
        let t = edges.drop_first();
        assert(!renames(edges[0], id));
        assert forall|j: int| 0 <= j < i - 1 implies !renames(#[trigger] t[j], id) by {
            assert(!renames(edges[j + 1], id));
        }
        lemma_first_rename_at(t, id, i - 1);
    }
}

proof fn lemma_first_rename(edges: Seq<DependencyEdgeView>, id: ObjectIdView)
    ensures
        0 <= first_rename(edges, id) <= edges.len(),
        first_rename(edges, id) < edges.len() ==> renames(edges[first_rename(edges, id)], id),
        forall|j: int| 0 <= j < first_rename(edges, id) ==> !renames(#[trigger] edges[j], id),
    decreases edges.len(),
{
    if edges.len() > 0 && !renames(edges[0], id) {
        let t = edges.drop_first();
        lemma_first_rename(t, id);
        assert forall|j: int| 0 <= j < first_rename(edges, id) implies !renames(#[trigger] edges[j], id) by {
            if j > 0 {
                assert(edges[j] == t[j - 1]);
            }
        }
    }
}

proof fn lemma_chain_none_stays(edges: Seq<DependencyEdgeView>, id: ObjectIdView, n: nat, m: nat)
    requires
        rename_chain(edges, id, n) is None,
        n <= m,
    ensures
        rename_chain(edges, id, m) is None,
    decreases m,
{
    if m > n {
        lemma_chain_none_stays(edges, id, n, (m - 1) as nat);
    }
}

proof fn lemma_end_is_unique(edges: Seq<DependencyEdgeView>, id: ObjectIdView, n: nat, m: nat)
    requires
        ends_after(edges, id, n),
        ends_after(edges, id, m),
    ensures
        n == m,
{
    if n < m {
        assert(rename_chain(edges, id, n + 1) is None);
        lemma_chain_none_stays(edges, id, n + 1, m);
    } else if m < n {
        assert(rename_chain(edges, id, m + 1) is None);
        lemma_chain_none_stays(edges, id, m + 1, n);
    }
}

/// Some value occurs twice in a list that is longer than its range.
proof fn lemma_pigeonhole(s: Seq<int>, n: nat)
    requires
        s.len() > n,
        forall|i: int| 0 <= i < s.len() ==> 0 <= #[trigger] s[i] < n,
    ensures
        exists|i: int, j: int| 0 <= i < j < s.len() && #[trigger] s[i] == #[trigger] s[j],
{
    if forall|i: int, j: int| 0 <= i < j < s.len() ==> #[trigger] s[i] != #[trigger] s[j] {
        assert(s.no_duplicates());
        s.unique_seq_to_set();
        let range = vstd::set_lib::set_int_range(0, n as int);
        vstd::set_lib::lemma_int_range(0, n as int);
        assert(s.to_set().subset_of(range));
        vstd::set_lib::lemma_len_subset(s.to_set(), range);
        assert(false);
    }
}

proof fn lemma_chain_shift(edges: Seq<DependencyEdgeView>, id: ObjectIdView, i: nat, j: nat, m: nat)
    requires
        rename_chain(edges, id, i) == rename_chain(edges, id, j),
    ensures
        rename_chain(edges, id, i + m) == rename_chain(edges, id, j + m),
    decreases m,
{
    if m > 0 {
        lemma_chain_shift(edges, id, i, j, (m - 1) as nat);
        assert((i + m - 1) as nat == i + (m - 1) as nat);
        assert((j + m - 1) as nat == j + (m - 1) as nat);
    }
}

proof fn lemma_chain_prefix_some(edges: Seq<DependencyEdgeView>, id: ObjectIdView, n: nat, k: nat)
    requires
        rename_chain(edges, id, n) is Some,
        k <= n,
    ensures
        rename_chain(edges, id, k) is Some,
    decreases n,
{
    if rename_chain(edges, id, k) is None {
        lemma_chain_none_stays(edges, id, k, n);
    }
}

/// A rename chain that is longer than the edge list never ends.
proof fn lemma_long_chain_is_cyclic(edges: Seq<DependencyEdgeView>, id: ObjectIdView)
    requires
        rename_chain(edges, id, edges.len() + 1) is Some,
    ensures
        !exists|n: nat| ends_after(edges, id, n),
{
    let len = edges.len();
    let s = Seq::new(len + 1, |k: int| first_rename(edges, rename_chain(edges, id, k as nat)->0));
    assert forall|k: int| 0 <= k < s.len() implies 0 <= #[trigger] s[k] < len by {
        lemma_chain_prefix_some(edges, id, (len + 1) as nat, k as nat);
        lemma_chain_prefix_some(edges, id, (len + 1) as nat, (k + 1) as nat);
        lemma_first_rename(edges, rename_chain(edges, id, k as nat)->0);
    }
    lemma_pigeonhole(s, len);
    let (i, j) = choose|i: int, j: int| 0 <= i < j < s.len() && #[trigger] s[i] == #[trigger] s[j];
    lemma_chain_prefix_some(edges, id, (len + 1) as nat, i as nat);
    lemma_chain_prefix_some(edges, id, (len + 1) as nat, j as nat);
    lemma_first_rename(edges, rename_chain(edges, id, i as nat)->0);
    lemma_first_rename(edges, rename_chain(edges, id, j as nat)->0);
    assert(0 <= s[i] < len);
    assert(rename_chain(edges, id, i as nat)->0 == edges[s[i]].dependent);
    assert(rename_chain(edges, id, j as nat)->0 == edges[s[j]].dependent);
    assert(rename_chain(edges, id, i as nat) == rename_chain(edges, id, j as nat));
    if exists|n: nat| ends_after(edges, id, n) {
        let n = choose|n: nat| ends_after(edges, id, n);
        assert(rename_chain(edges, id, n + 1) is None);
        if n < len + 1 {
            lemma_chain_none_stays(edges, id, n + 1, (len + 1) as nat);
        }
        let m = (n - j) as nat;
        lemma_chain_shift(edges, id, i as nat, j as nat, m);
        assert(ends_after(edges, id, (i + m) as nat));
        lemma_end_is_unique(edges, id, n, (i + m) as nat);
    }
}

pub(crate) proof fn lemma_resolved_at(edges: Seq<DependencyEdgeView>, id: ObjectIdView, n: nat)
    requires
        ends_after(edges, id, n),
    ensures
        resolved(edges, id) == rename_chain(edges, id, n)->0,
{
    let m = choose|m: nat| ends_after(edges, id, m);
    lemma_end_is_unique(edges, id, n, m);
}

/// An identity that resolves to another one resolves to an identity that
/// nothing renames any more.
pub proof fn law_resolved_has_no_rename(edges: Seq<DependencyEdgeView>, id: ObjectIdView)
    requires
        resolved(edges, id) != id,
    ensures
        renamed(edges, resolved(edges, id)) is None,
        resolved(edges, resolved(edges, id)) == resolved(edges, id),
{
    let n = choose|n: nat| ends_after(edges, id, n);
    let x = resolved(edges, id);
    assert(rename_chain(edges, x, 0) == Some(x));
    assert(ends_after(edges, x, 0));
    lemma_resolved_at(edges, x, 0);
}

/// Resolving twice is resolving once.
pub proof fn law_resolved_is_idempotent(edges: Seq<DependencyEdgeView>, id: ObjectIdView)
    ensures
        resolved(edges, resolved(edges, id)) == resolved(edges, id),
{
    if resolved(edges, id) != id {
        law_resolved_has_no_rename(edges, id);
    }
}

/// A rename back to an earlier name has no unique target: every identity on
/// such a cycle stays as it is.
pub proof fn law_cyclic_renames_resolve_to_themselves(edges: Seq<DependencyEdgeView>, id: ObjectIdView, n: nat)
    requires
        n > 0,
        rename_chain(edges, id, n) == Some(id),
    ensures
        resolved(edges, id) == id,
{
    if exists|m: nat| ends_after(edges, id, m) {
        let m = choose|m: nat| ends_after(edges, id, m);
        assert(rename_chain(edges, id, m + 1) is None);
        if m < n {
            lemma_chain_none_stays(edges, id, m + 1, n);
        }
        lemma_chain_shift(edges, id, 0, n, (m - n) as nat);
        assert(ends_after(edges, id, (m - n) as nat));
        lemma_end_is_unique(edges, id, m, (m - n) as nat);
    }
}

/// Where no edge renames anything, every identity is current.
pub proof fn law_without_renames_nothing_resolves(edges: Seq<DependencyEdgeView>, id: ObjectIdView)
    requires
        forall|i: int| 0 <= i < edges.len() ==> !(#[trigger] edges[i].kind is RenameTo),
    ensures
        resolved(edges, id) == id,
{
    lemma_first_rename_at(edges, id, edges.len() as int);
    assert(ends_after(edges, id, 0));
    lemma_resolved_at(edges, id, 0);
}

// ---------------------------------------------------------------------------
// The graph
// ---------------------------------------------------------------------------

#[derive(Clone, Debug)]
pub struct DependencyGraph {
    edges: Vec<DependencyEdge>,
}

/// Lookups derived from the edge list.
#[derive(Debug)]
struct GraphIndexes {
    rename_by_source: VecMap<ObjectId, usize>,
    by_resolved_referenced: VecMap<ObjectId, Vec<usize>>,
}

impl View for DependencyGraph {
    type V = Seq<DependencyEdgeView>;

    closed spec fn view(&self) -> Seq<DependencyEdgeView> {
        self.edges.deep_view()
    }
}

impl DeepView for DependencyGraph {
    type V = Seq<DependencyEdgeView>;

    open spec fn deep_view(&self) -> Seq<DependencyEdgeView> {
        self@
    }
}

impl Dup for DependencyGraph {
    fn dup(&self) -> (r: Self) {
        DependencyGraph { edges: self.edges.dup() }
    }
}

/// Whether an edge carries a drop from its referenced to its dependent object.
pub open spec fn is_cascade_kind(k: DependencyKindView) -> bool {
    k is ViewDependency || k is IndexOnRelation || k is ForeignKey || k is InheritanceOf || k is PartitionOf
}

pub open spec fn cascades_from(edges: Seq<DependencyEdgeView>, e: DependencyEdgeView, target: ObjectIdView) -> bool {
    is_cascade_kind(e.kind) && resolved(edges, e.referenced) == target
}

/// Whether an edge refers to `id`, by its current or by its recorded name.
pub open spec fn refers_to(edges: Seq<DependencyEdgeView>, e: DependencyEdgeView, id: ObjectIdView) -> bool {
    resolved(edges, e.referenced) == resolved(edges, id) || e.referenced == id
}

pub open spec fn view_references(edges: Seq<DependencyEdgeView>, id: ObjectIdView) -> Seq<DependencyEdgeView> {
    edges.filter(|e: DependencyEdgeView| e.kind is ViewDependency && refers_to(edges, e, id))
}

pub open spec fn fk_references(edges: Seq<DependencyEdgeView>, id: ObjectIdView) -> Seq<DependencyEdgeView> {
    edges.filter(|e: DependencyEdgeView| e.kind is ForeignKey && refers_to(edges, e, id))
}

pub open spec fn index_references(edges: Seq<DependencyEdgeView>, id: ObjectIdView) -> Seq<DependencyEdgeView> {
    edges.filter(|e: DependencyEdgeView| e.kind is IndexOnRelation && refers_to(edges, e, id))
}

pub open spec fn partition_references(edges: Seq<DependencyEdgeView>, id: ObjectIdView) -> Seq<DependencyEdgeView> {
    edges.filter(|e: DependencyEdgeView| e.kind is PartitionOf && refers_to(edges, e, id))
}

/// The current identities of the dependents of a list of edges.
pub open spec fn resolved_dependents(edges: Seq<DependencyEdgeView>, list: Seq<DependencyEdgeView>) -> Seq<ObjectIdView> {
    list.map_values(|e: DependencyEdgeView| resolved(edges, e.dependent))
}

/// The positions, among the first `n` edges, of those whose referenced object
/// is now `target`.
pub open spec fn reference_positions(edges: Seq<DependencyEdgeView>, target: ObjectIdView, n: nat) -> Seq<usize>
    decreases n,
{
    if n == 0 || n > edges.len() {
        Seq::empty()
    } else if resolved(edges, edges[n - 1].referenced) == target {
        reference_positions(edges, target, (n - 1) as nat).push((n - 1) as usize)
    } else {
        reference_positions(edges, target, (n - 1) as nat)
    }
}

impl GraphIndexes {
    /// Whether the rename lookup gives each identity its first rename.
    spec fn renames_match(&self, edges: Seq<DependencyEdgeView>) -> bool {
        forall|id: ObjectIdView| (#[trigger] self.rename_by_source@.dom().contains(id) <==> first_rename(edges, id) < edges.len())
            && (self.rename_by_source@.dom().contains(id) ==> self.rename_by_source@[id] == first_rename(edges, id))
    }

    /// Whether the reference lookup holds the references of the first `n` edges.
    spec fn references_match(&self, edges: Seq<DependencyEdgeView>, n: nat) -> bool {
        forall|id: ObjectIdView| #[trigger] self.positions(id) == reference_positions(edges, id, n)
    }

    spec fn positions(&self, id: ObjectIdView) -> Seq<usize> {
        if self.by_resolved_referenced@.dom().contains(id) {
            self.by_resolved_referenced@[id]
        } else {
            Seq::empty()
        }
    }
}

proof fn lemma_positions_are_bounded(edges: Seq<DependencyEdgeView>, target: ObjectIdView, n: nat)
    requires
        n <= edges.len() <= usize::MAX,
    ensures
        forall|i: int| 0 <= i < reference_positions(edges, target, n).len() ==> #[trigger] reference_positions(edges, target, n)[i] < n,
    decreases n,
{
    if n > 0 {
        let before = reference_positions(edges, target, (n - 1) as nat);
        lemma_positions_are_bounded(edges, target, (n - 1) as nat);
        assert forall|i: int| 0 <= i < reference_positions(edges, target, n).len() implies #[trigger] reference_positions(edges, target, n)[i] < n by {
            if i < before.len() {
                assert(before[i] < n - 1);
                assert(reference_positions(edges, target, n)[i] == before[i]);
            }
        }
    }
}

/// Reading the edges at the reference positions of `target` and keeping the
/// cascading ones is scanning the edge list for them.
proof fn lemma_positions_give_filter(edges: Seq<DependencyEdgeView>, target: ObjectIdView, n: nat)
    requires
        n <= edges.len() <= usize::MAX,
    ensures
        edges.take(n as int).filter(|e: DependencyEdgeView| cascades_from(edges, e, target)) == reference_positions(
            edges,
            target,
            n,
        ).map_values(|i: usize| edges[i as int]).filter(|e: DependencyEdgeView| is_cascade_kind(e.kind)),
    decreases n,
{
    reveal(Seq::filter);
    let p = |e: DependencyEdgeView| cascades_from(edges, e, target);
    let q = |e: DependencyEdgeView| is_cascade_kind(e.kind);
    let read = |i: usize| edges[i as int];
    let found = reference_positions(edges, target, n).map_values(read);
    if n == 0 {
        assert(edges.take(0) =~= Seq::<DependencyEdgeView>::empty());
        assert(found =~= Seq::<DependencyEdgeView>::empty());
    } else {
        let m = (n - 1) as nat;
        lemma_positions_give_filter(edges, target, m);
        let before = reference_positions(edges, target, m).map_values(read);
        assert(edges.take(n as int).drop_last() =~= edges.take(m as int));
        assert(edges.take(n as int).last() == edges[m as int]);
        if resolved(edges, edges[m as int].referenced) == target {
            assert(found =~= before.push(edges[m as int]));
            assert(found.drop_last() =~= before);
        } else {
            assert(found =~= before);
        }
    }
}

/// The edges that a drop of `id` cascades along, in edge order.
pub open spec fn cascade_of(edges: Seq<DependencyEdgeView>, id: ObjectIdView) -> Seq<DependencyEdgeView> {
    edges.filter(|e: DependencyEdgeView| cascades_from(edges, e, resolved(edges, id)))
}

/// The edges for which the answer is `true`, in order.
pub open spec fn selected(edges: Seq<DependencyEdgeView>, answers: Seq<bool>) -> Seq<DependencyEdgeView>
    decreases edges.len(),
{
    if edges.len() == 0 || answers.len() == 0 {
        Seq::empty()
    } else if answers.last() {
        selected(edges.drop_last(), answers.drop_last()).push(edges.last())
    } else {
        selected(edges.drop_last(), answers.drop_last())
    }
}

/// From how many edges on cascades are looked up in an index.
pub const CASCADE_INDEX_MIN_EDGES: usize = 1024;

impl DependencyGraph {
    pub fn new() -> (r: Self)
        ensures
            r@ == Seq::<DependencyEdgeView>::empty(),
    {
        let r = DependencyGraph { edges: Vec::new() };
        assert(r@ =~= Seq::<DependencyEdgeView>::empty());
        r
    }

    pub fn edges(&self) -> (r: &Vec<DependencyEdge>)
        ensures
            r.deep_view() == self@,
    {
        &self.edges
    }

    pub fn add_edge(&mut self, edge: DependencyEdge)
        ensures
            final(self)@ == old(self)@.push(edge@),
    {
        let ghost before = self@;
        let ghost added = edge@;
        self.edges.push(edge);
        assert(self@ =~= before.push(added));
    }

    /// Appends edges, in order.
    pub fn add_edges(&mut self, edges: Vec<DependencyEdge>)
        ensures
            final(self)@ == old(self)@ + edges.deep_view(),
    {
        let ghost before = self@;
        let ghost added = edges.deep_view();
        let mut edges = edges;
        self.edges.append(&mut edges);
        assert(self@ =~= before + added);
    }

    /// Keeps the edges that satisfy `p`.
    pub(crate) fn retain_matching<F: Fn(&DependencyEdge) -> bool>(&mut self, keep: F, Ghost(p): Ghost<spec_fn(DependencyEdgeView) -> bool>)
        requires
            forall|e: &DependencyEdge| keep.requires((e,)),
            forall|e: &DependencyEdge, b: bool| keep.ensures((e,), b) ==> b == p(e@),
        ensures
            final(self)@ == old(self)@.filter(p),
    {
        let kept = vec_filter(&self.edges, keep, Ghost(p));
        self.edges = kept;
    }

    /// The edges themselves, in order.
    pub closed spec fn list(&self) -> Seq<DependencyEdge> {
        self.edges@
    }

    /// Keeps the edges that `keep` answers `true` for.
    pub fn retain_edges<F: Fn(&DependencyEdge) -> bool>(&mut self, keep: F)
        requires
            forall|e: &DependencyEdge| keep.requires((e,)),
        ensures
            old(self).list().map_values(|e: DependencyEdge| e@) == old(self)@,
            exists|answers: Seq<bool>|
                answers.len() == old(self)@.len() && final(self)@ == #[trigger] selected(old(self)@, answers) && forall|i: int|
                    0 <= i < answers.len() ==> keep.ensures((&old(self).list()[i],), #[trigger] answers[i]),
    {
        let mut out: Vec<DependencyEdge> = Vec::new();
        let mut i: usize = 0;
        let ghost mut answers: Seq<bool> = Seq::empty();
        let ghost all = self@;
        assert(all.take(0) =~= Seq::<DependencyEdgeView>::empty());
        assert(out.deep_view() =~= selected(all.take(0), answers));
        while i < self.edges.len()
            invariant
                i <= self.edges.len(),
                all == self@,
                self@ == old(self)@,
                self.list() == old(self).list(),
                answers.len() == i,
                forall|e: &DependencyEdge| keep.requires((e,)),
                forall|j: int| 0 <= j < i ==> keep.ensures((&self.list()[j],), #[trigger] answers[j]),
                out.deep_view() == selected(all.take(i as int), answers),
            decreases self.edges.len() - i,
        {
            let ghost before = out.deep_view();
            let ghost earlier = answers;
            let answer = keep(&self.edges[i]);
            proof {
                answers = answers.push(answer);
                assert(all[i as int] == self.edges@[i as int]@);
                assert(all.take(i + 1).drop_last() =~= all.take(i as int));
                assert(all.take(i + 1).last() == all[i as int]);
                assert(answers.drop_last() =~= earlier);
            }
            if answer {
                out.push(self.edges[i].dup());
                assert(out.deep_view() =~= before.push(all[i as int]));
            }
            i = i + 1;
        }
        assert(all.take(all.len() as int) =~= all);
        assert(self@.len() == self.edges.len());
        self.edges = out;
    }

    /// Replaces every edge by what `change` makes of it.
    pub fn mutate_edges<F: Fn(&DependencyEdge) -> DependencyEdge>(&mut self, change: F)
        requires
            forall|e: &DependencyEdge| change.requires((e,)),
        ensures
            old(self).list().map_values(|e: DependencyEdge| e@) == old(self)@,
            final(self).list().map_values(|e: DependencyEdge| e@) == final(self)@,
            final(self)@.len() == old(self)@.len(),
            forall|i: int| 0 <= i < final(self)@.len() ==> change.ensures((&old(self).list()[i],), #[trigger] final(self).list()[i]),
    {
        let mut out: Vec<DependencyEdge> = Vec::new();
        let mut i: usize = 0;
        while i < self.edges.len()
            invariant
                i <= self.edges.len(),
                out.len() == i,
                self.list() == old(self).list(),
                forall|e: &DependencyEdge| change.requires((e,)),
                forall|j: int| 0 <= j < i ==> change.ensures((&self.list()[j],), #[trigger] out@[j]),
            decreases self.edges.len() - i,
        {
            out.push(change(&self.edges[i]));
            i = i + 1;
        }
        self.edges = out;
    }

    pub fn edge_count(&self) -> (r: usize)
        ensures
            r == self@.len(),
    {
        self.edges.len()
    }

    /// Drops every edge from position `len` on.
    pub fn truncate(&mut self, len: usize)
        ensures
            final(self)@ == cut(old(self)@, len as nat),
    {
        let ghost before = self@;
        self.edges.truncate(len);
        assert(self@ =~= cut(before, len as nat));
    }

    pub fn replace_edges(&mut self, edges: Vec<DependencyEdge>)
        ensures
            final(self)@ == edges.deep_view(),
    {
        self.edges = edges;
    }

    /// Replaces every edge by what `f` makes of it.
    pub(crate) fn map_edges<F: Fn(&DependencyEdge) -> DependencyEdge>(
        &mut self,
        f: F,
        Ghost(p): Ghost<spec_fn(DependencyEdgeView) -> DependencyEdgeView>,
    )
        requires
            forall|e: &DependencyEdge| f.requires((e,)),
            forall|e: &DependencyEdge, r: DependencyEdge| f.ensures((e,), r) ==> r@ == p(e@),
        ensures
            final(self)@ == old(self)@.map_values(p),
    {
        let mut out: Vec<DependencyEdge> = Vec::new();
        let mut i: usize = 0;
        while i < self.edges.len()
            invariant
                i <= self.edges.len(),
                out.len() == i,
                forall|e: &DependencyEdge| f.requires((e,)),
                forall|e: &DependencyEdge, r: DependencyEdge| f.ensures((e,), r) ==> r@ == p(e@),
                forall|j: int| 0 <= j < i ==> #[trigger] out@[j]@ == p(self@[j]),
            decreases self.edges.len() - i,
        {
            assert(self@[i as int] == self.edges@[i as int]@);
            out.push(f(&self.edges[i]));
            i = i + 1;
        }
        assert(out.deep_view() =~= self@.map_values(p));
        self.edges = out;
    }

    pub fn resolve_rename<'a>(&'a self, id: &'a ObjectId) -> (r: &'a ObjectId)
        ensures
            r@ == resolved(self@, id@),
    {
        let mut current: &'a ObjectId = id;
        let mut steps: usize = 0;
        loop
            invariant
                steps <= self.edges.len(),
                self@.len() == self.edges.len(),
                rename_chain(self@, id@, steps as nat) == Some(current@),
            decreases self.edges.len() - steps,
        {
            let at = self.first_rename_of(current);
            if at == self.edges.len() {
                proof {
                    assert(ends_after(self@, id@, steps as nat));
                    lemma_resolved_at(self@, id@, steps as nat);
                }
                return current;
            }
            assert(self@[at as int] == self.edges@[at as int]@);
            assert(rename_chain(self@, id@, (steps + 1) as nat) is Some);
            if steps == self.edges.len() {
                proof {
                    lemma_long_chain_is_cyclic(self@, id@);
                }
                return id;
            }
            current = &self.edges[at].referenced;
            steps = steps + 1;
        }
    }

    fn first_rename_of(&self, id: &ObjectId) -> (r: usize)
        ensures
            r == first_rename(self@, id@),
            r <= self@.len(),
    {
        let mut i: usize = 0;
        while i < self.edges.len()
            invariant
                i <= self.edges.len(),
                self@.len() == self.edges.len(),
                forall|j: int| 0 <= j < i ==> !renames(#[trigger] self@[j], id@),
            decreases self.edges.len() - i,
        {
            assert(self@[i as int] == self.edges@[i as int]@);
            let candidate = &self.edges[i];
            let is_rename = match candidate.kind {
                DependencyKind::RenameTo => true,
                _ => false,
            };
            if is_rename && candidate.dependent.same(id) {
                proof {
                    lemma_first_rename_at(self@, id@, i as int);
                }
                return i;
            }
            i = i + 1;
        }
        proof {
            lemma_first_rename_at(self@, id@, i as int);
        }
        i
    }

    fn build_indexes(&self) -> (r: GraphIndexes)
        ensures
            r.renames_match(self@),
            r.references_match(self@, self@.len()),
    {
        let mut indexes = GraphIndexes { rename_by_source: VecMap::new(), by_resolved_referenced: VecMap::new() };
        let n = self.edges.len();
        let ghost edges = self@;
        let mut i: usize = 0;
        proof {
            assert forall|id: ObjectIdView| first_rename(edges, id) >= 0 by {
                lemma_first_rename(edges, id);
            }
        }
        while i < n
            invariant
                i <= n,
                n == self.edges.len(),
                edges == self@,
                edges.len() == n,
                forall|id: ObjectIdView| (#[trigger] indexes.rename_by_source@.dom().contains(id) <==> first_rename(edges, id) < i)
                    && (indexes.rename_by_source@.dom().contains(id) ==> indexes.rename_by_source@[id] == first_rename(edges, id)),
                indexes.by_resolved_referenced@ == Map::<ObjectIdView, Seq<usize>>::empty(),
            decreases n - i,
        {
            assert(edges[i as int] == self.edges@[i as int]@);
            let candidate = &self.edges[i];
            let is_rename = match candidate.kind {
                DependencyKind::RenameTo => true,
                _ => false,
            };
            proof {
                assert forall|id: ObjectIdView| first_rename(edges, id) == i <==> (renames(edges[i as int], id) && first_rename(edges, id) >= i) by {
                    lemma_first_rename(edges, id);
                    if renames(edges[i as int], id) && first_rename(edges, id) > i {
                        assert(!renames(edges[i as int], id));
                    }
                }
            }
            if is_rename && !indexes.rename_by_source.contains_key(&candidate.dependent) {
                indexes.rename_by_source.insert(candidate.dependent.dup(), i);
            }
            i = i + 1;
        }
        let mut j: usize = 0;
        proof {
            assert forall|id: ObjectIdView| #[trigger] indexes.positions(id) == reference_positions(edges, id, 0) by {
                assert(indexes.positions(id) =~= Seq::<usize>::empty());
            }
            assert forall|id: ObjectIdView| first_rename(edges, id) <= edges.len() by {
                lemma_first_rename(edges, id);
            }
        }
        while j < n
            invariant
                j <= n,
                n == self.edges.len(),
                edges == self@,
                edges.len() == n,
                indexes.renames_match(edges),
                indexes.references_match(edges, j as nat),
            decreases n - j,
        {
            let ghost before = indexes;
            assert(edges[j as int] == self.edges@[j as int]@);
            let target = self.resolve_rename_with(&indexes, &self.edges[j].referenced).dup();
            let mut bucket: Vec<usize> = match indexes.by_resolved_referenced.get(&target) {
                Some(found) => found.dup(),
                None => Vec::new(),
            };
            assert(bucket.deep_view() =~= before.positions(target@));
            let ghost old_bucket = bucket.deep_view();
            bucket.push(j);
            assert(bucket.deep_view() =~= old_bucket.push(j));
            let ghost t = target@;
            indexes.by_resolved_referenced.insert(target, bucket);
            proof {
                assert forall|id: ObjectIdView| #[trigger] indexes.positions(id) == reference_positions(edges, id, (j + 1) as nat) by {
                    assert(before.positions(id) == reference_positions(edges, id, j as nat));
                    assert(((j + 1) - 1) as nat == j as nat);
                    if id != t {
                        assert(indexes.positions(id) == before.positions(id));
                    }
                }
                assert(indexes.renames_match(edges));
            }
            j = j + 1;
        }
        indexes
    }

    fn resolve_rename_with<'a>(&'a self, indexes: &GraphIndexes, id: &'a ObjectId) -> (r: &'a ObjectId)
        requires
            indexes.renames_match(self@),
        ensures
            r@ == resolved(self@, id@),
    {
        let mut current: &'a ObjectId = id;
        let mut steps: usize = 0;
        loop
            invariant
                steps <= self.edges.len(),
                self@.len() == self.edges.len(),
                indexes.renames_match(self@),
                rename_chain(self@, id@, steps as nat) == Some(current@),
            decreases self.edges.len() - steps,
        {
            match indexes.rename_by_source.get(current) {
                None => {
                    proof {
                        assert(!indexes.rename_by_source@.dom().contains(current@));
                        assert(ends_after(self@, id@, steps as nat));
                        lemma_resolved_at(self@, id@, steps as nat);
                    }
                    return current;
                },
                Some(found) => {
                    let at: usize = *found;
                    proof {
                        assert(indexes.rename_by_source@.dom().contains(current@));
                        lemma_first_rename(self@, current@);
                        assert(self@[at as int] == self.edges@[at as int]@);
                        assert(rename_chain(self@, id@, (steps + 1) as nat) is Some);
                    }
                    if steps == self.edges.len() {
                        proof {
                            lemma_long_chain_is_cyclic(self@, id@);
                        }
                        return id;
                    }
                    current = &self.edges[at].referenced;
                    steps = steps + 1;
                },
            }
        }
    }

    /// Confirms that every derived lookup points at the edge list it was
    /// built from.
    pub fn indexes_are_valid(&self) -> (r: bool)
        ensures
            r,
    {
        let indexes = self.build_indexes();
        let mut i: usize = 0;
        while i < self.edges.len()
            invariant
                i <= self.edges.len(),
                indexes.renames_match(self@),
                indexes.references_match(self@, self@.len()),
                self@.len() == self.edges.len(),
            decreases self.edges.len() - i,
        {
            let candidate = &self.edges[i];
            let first = self.first_rename_of(&candidate.dependent);
            let known = match indexes.rename_by_source.get(&candidate.dependent) {
                Some(at) => *at == first,
                None => first == self.edges.len(),
            };
            assert(indexes.rename_by_source@.dom().contains(candidate.dependent@) || !indexes.rename_by_source@.dom().contains(candidate.dependent@));
            if !known {
                return false;
            }
            i = i + 1;
        }
        true
    }

    fn is_cascading(kind: &DependencyKind) -> (r: bool)
        ensures
            r == is_cascade_kind(kind@),
    {
        match kind {
            DependencyKind::ViewDependency { .. } => true,
            DependencyKind::IndexOnRelation { .. } => true,
            DependencyKind::ForeignKey { .. } => true,
            DependencyKind::InheritanceOf => true,
            DependencyKind::PartitionOf => true,
            _ => false,
        }
    }

    pub fn cascade_edges(&self, id: &ObjectId) -> (r: Vec<&DependencyEdge>)
        ensures
            r.deep_view() == cascade_of(self@, id@),
    {
        let target = self.resolve_rename(id);
        if self.cascade_index_is_worthwhile() {
            self.indexed_cascade_edges(target)
        } else {
            let ghost p = |e: DependencyEdgeView| cascades_from(self@, e, target@);
            let keep = |e: &DependencyEdge| -> (b: bool)
                ensures
                    b == cascades_from(self@, e@, target@),
            { Self::is_cascading(&e.kind) && self.resolve_rename(&e.referenced).same(target) };
            self.edges_where(keep, Ghost(p))
        }
    }

    fn indexed_cascade_edges(&self, target: &ObjectId) -> (r: Vec<&DependencyEdge>)
        ensures
            r.deep_view() == self@.filter(|e: DependencyEdgeView| cascades_from(self@, e, target@)),
    {
        let indexes = self.build_indexes();
        let mut out: Vec<&DependencyEdge> = Vec::new();
        let ghost edges = self@;
        let ghost read = |i: usize| edges[i as int];
        let ghost q = |e: DependencyEdgeView| is_cascade_kind(e.kind);
        let ghost found = reference_positions(edges, target@, edges.len());
        let n: usize = self.edges.len();
        proof {
            assert(edges.len() == n);
            lemma_positions_give_filter(edges, target@, edges.len());
            lemma_positions_are_bounded(edges, target@, edges.len());
            assert(edges.take(edges.len() as int) =~= edges);
            assert(indexes.positions(target@) == found);
            assert(out.deep_view() =~= Seq::<DependencyEdgeView>::empty());
            reveal(Seq::filter);
        }
        match indexes.by_resolved_referenced.get(target) {
            None => {
                assert(found.map_values(read) =~= Seq::<DependencyEdgeView>::empty());
            },
            Some(bucket) => {
                let mut i: usize = 0;
                assert(found.map_values(read).take(0) =~= Seq::<DependencyEdgeView>::empty());
                while i < bucket.len()
                    invariant
                        i <= bucket.len(),
                        edges == self@,
                        edges.len() == self.edges.len(),
                        read == (|i: usize| edges[i as int]),
                        q == (|e: DependencyEdgeView| is_cascade_kind(e.kind)),
                        bucket.deep_view() == found,
                        found == reference_positions(edges, target@, edges.len()),
                        forall|k: int| 0 <= k < found.len() ==> #[trigger] found[k] < edges.len(),
                        out.deep_view() == found.map_values(read).take(i as int).filter(q),
                    decreases bucket.len() - i,
                {
                    let at: usize = bucket[i];
                    let ghost s = found.map_values(read);
                    let ghost before = out.deep_view();
                    proof {
                        assert(found[i as int] == at);
                        assert(s[i as int] == edges[at as int]);
                        assert(edges[at as int] == self.edges@[at as int]@);
                        assert(s.take(i + 1).drop_last() =~= s.take(i as int));
                        assert(s.take(i + 1).last() == s[i as int]);
                        reveal(Seq::filter);
                    }
                    if Self::is_cascading(&self.edges[at].kind) {
                        out.push(&self.edges[at]);
                        assert(out.deep_view() =~= before.push(edges[at as int]));
                    }
                    i = i + 1;
                }
                assert(found.map_values(read).take(bucket.len() as int) =~= found.map_values(read));
            },
        }
        out
    }

    pub(crate) fn cascade_index_is_worthwhile(&self) -> (r: bool)
        ensures
            r == (self@.len() >= CASCADE_INDEX_MIN_EDGES),
    {
        self.edges.len() >= CASCADE_INDEX_MIN_EDGES
    }

    /// Whether some edge satisfies `p`.
    pub(crate) fn any_edge<F: Fn(&DependencyEdge) -> bool>(&self, f: F, Ghost(p): Ghost<spec_fn(DependencyEdgeView) -> bool>) -> (r: bool)
        requires
            forall|e: &DependencyEdge| f.requires((e,)),
            forall|e: &DependencyEdge, b: bool| f.ensures((e,), b) ==> b == p(e@),
        ensures
            r == exists|i: int| 0 <= i < self@.len() && p(#[trigger] self@[i]),
    {
        let r = vec_any(&self.edges, f, Ghost(p));
        assert(self@ == self.edges.deep_view());
        r
    }

    /// The edges that satisfy `p`, in edge order.
    pub(crate) fn edges_where<F: Fn(&DependencyEdge) -> bool>(&self, f: F, Ghost(p): Ghost<spec_fn(DependencyEdgeView) -> bool>) -> (r: Vec<&DependencyEdge>)
        requires
            forall|e: &DependencyEdge| f.requires((e,)),
            forall|e: &DependencyEdge, b: bool| f.ensures((e,), b) ==> b == p(e@),
        ensures
            r.deep_view() == self@.filter(p),
    {
        let mut out: Vec<&DependencyEdge> = Vec::new();
        let mut i: usize = 0;
        proof {
            assert(self@.take(0) =~= Seq::<DependencyEdgeView>::empty());
            reveal(Seq::filter);
            assert(out.deep_view() =~= Seq::<DependencyEdgeView>::empty());
        }
        while i < self.edges.len()
            invariant
                i <= self.edges.len(),
                self@.len() == self.edges.len(),
                forall|e: &DependencyEdge| f.requires((e,)),
                forall|e: &DependencyEdge, b: bool| f.ensures((e,), b) ==> b == p(e@),
                out.deep_view() == self@.take(i as int).filter(p),
            decreases self.edges.len() - i,
        {
            let ghost before = out.deep_view();
            proof {
                assert(self@.take(i + 1).drop_last() =~= self@.take(i as int));
                assert(self@.take(i + 1).last() == self@[i as int]);
                reveal(Seq::filter);
                assert(self@[i as int] == self.edges@[i as int]@);
            }
            if f(&self.edges[i]) {
                out.push(&self.edges[i]);
                assert(out.deep_view() =~= before.push(self@[i as int]));
            }
            i = i + 1;
        }
        assert(self@.take(self@.len() as int) =~= self@);
        out
    }

    fn resolve_dependents<'a>(&'a self, list: &Vec<&'a DependencyEdge>) -> (r: Vec<&'a ObjectId>)
        ensures
            r.deep_view() == resolved_dependents(self@, list.deep_view()),
    {
        let mut out: Vec<&'a ObjectId> = Vec::new();
        let mut i: usize = 0;
        while i < list.len()
            invariant
                i <= list.len(),
                out.len() == i,
                forall|j: int| 0 <= j < i ==> #[trigger] out@[j]@ == resolved(self@, list@[j].dependent@),
            decreases list.len() - i,
        {
            let e: &'a DependencyEdge = list[i];
            out.push(self.resolve_rename(&e.dependent));
            i = i + 1;
        }
        assert(out.deep_view() =~= resolved_dependents(self@, list.deep_view()));
        out
    }

    /// Whether an edge refers to `id`, by its current or its recorded name.
    fn edge_refers_to(&self, e: &DependencyEdge, target: &ObjectId, id: &ObjectId) -> (r: bool)
        requires
            target@ == resolved(self@, id@),
        ensures
            r == refers_to(self@, e@, id@),
    {
        self.resolve_rename(&e.referenced).same(target) || e.referenced.same(id)
    }

    pub fn is_referenced_by_view(&self, id: &ObjectId) -> (r: Vec<&ObjectId>)
        ensures
            r.deep_view() == resolved_dependents(self@, view_references(self@, id@)),
    {
        let target = self.resolve_rename(id);
        let ghost edges = self@;
        let ghost p = |e: DependencyEdgeView| e.kind is ViewDependency && refers_to(edges, e, id@);
        let keep = |e: &DependencyEdge| -> (b: bool)
            ensures
                b == (e@.kind is ViewDependency && refers_to(self@, e@, id@)),
        { matches!(e.kind, DependencyKind::ViewDependency { .. }) && self.edge_refers_to(e, target, id) };
        let found = self.edges_where(keep, Ghost(p));
        self.resolve_dependents(&found)
    }

    pub fn is_referenced_by_fk(&self, id: &ObjectId) -> (r: Vec<(&ObjectId, u64)>)
        ensures
            r.len() == fk_references(self@, id@).len(),
            forall|i: int| 0 <= i < r.len() ==> (#[trigger] r@[i]).0@ == resolved(self@, fk_references(self@, id@)[i].dependent)
                && r@[i].1 == fk_references(self@, id@)[i].kind->from_generation,
    {
        let target = self.resolve_rename(id);
        let ghost edges = self@;
        let ghost p = |e: DependencyEdgeView| e.kind is ForeignKey && refers_to(edges, e, id@);
        let keep = |e: &DependencyEdge| -> (b: bool)
            ensures
                b == (e@.kind is ForeignKey && refers_to(self@, e@, id@)),
        { matches!(e.kind, DependencyKind::ForeignKey { .. }) && self.edge_refers_to(e, target, id) };
        let found = self.edges_where(keep, Ghost(p));
        let mut out: Vec<(&ObjectId, u64)> = Vec::new();
        let mut i: usize = 0;
        let ghost list = fk_references(self@, id@);
        proof {
            assert(found.deep_view() == list);
            assert forall|k: int| 0 <= k < list.len() implies (#[trigger] list[k]).kind is ForeignKey by {
                edges.lemma_filter_pred(p, k);
            }
        }
        while i < found.len()
            invariant
                i <= found.len(),
                out.len() == i,
                found.deep_view() == list,
                forall|k: int| 0 <= k < list.len() ==> (#[trigger] list[k]).kind is ForeignKey,
                forall|j: int| 0 <= j < i ==> (#[trigger] out@[j]).0@ == resolved(self@, list[j].dependent)
                    && out@[j].1 == list[j].kind->from_generation,
            decreases found.len() - i,
        {
            let e = found[i];
            assert(list[i as int] == e@);
            let generation: u64 = match &e.kind {
                DependencyKind::ForeignKey { from_generation, .. } => *from_generation,
                _ => 0,
            };
            out.push((self.resolve_rename(&e.dependent), generation));
            i = i + 1;
        }
        out
    }

    pub fn is_referenced_by_index(&self, id: &ObjectId) -> (r: Vec<&ObjectId>)
        ensures
            r.deep_view() == resolved_dependents(self@, index_references(self@, id@)),
    {
        let target = self.resolve_rename(id);
        let ghost edges = self@;
        let ghost p = |e: DependencyEdgeView| e.kind is IndexOnRelation && refers_to(edges, e, id@);
        let keep = |e: &DependencyEdge| -> (b: bool)
            ensures
                b == (e@.kind is IndexOnRelation && refers_to(self@, e@, id@)),
        { matches!(e.kind, DependencyKind::IndexOnRelation { .. }) && self.edge_refers_to(e, target, id) };
        let found = self.edges_where(keep, Ghost(p));
        self.resolve_dependents(&found)
    }

    pub fn partitions_of(&self, id: &ObjectId) -> (r: Vec<&ObjectId>)
        ensures
            r.deep_view() == resolved_dependents(self@, partition_references(self@, id@)),
    {
        let target = self.resolve_rename(id);
        let ghost edges = self@;
        let ghost p = |e: DependencyEdgeView| e.kind is PartitionOf && refers_to(edges, e, id@);
        let keep = |e: &DependencyEdge| -> (b: bool)
            ensures
                b == (e@.kind is PartitionOf && refers_to(self@, e@, id@)),
        { matches!(e.kind, DependencyKind::PartitionOf) && self.edge_refers_to(e, target, id) };
        let found = self.edges_where(keep, Ghost(p));
        self.resolve_dependents(&found)
    }

    pub fn triggers_on(&self, table_id: &ObjectId) -> (r: Vec<&DependencyEdge>)
        ensures
            r.deep_view() == self@.filter(|e: DependencyEdgeView| e.kind is TriggerOnTable && e.referenced == table_id@),
    {
        let ghost p = |e: DependencyEdgeView| e.kind is TriggerOnTable && e.referenced == table_id@;
        let keep = |e: &DependencyEdge| -> (b: bool)
            ensures
                b == (e@.kind is TriggerOnTable && e@.referenced == table_id@),
        { matches!(e.kind, DependencyKind::TriggerOnTable { .. }) && e.referenced.same(table_id) };
        self.edges_where(keep, Ghost(p))
    }

    pub fn triggers_for_function(&self, function_id: &ObjectId) -> (r: Vec<&DependencyEdge>)
        ensures
            r.deep_view() == self@.filter(|e: DependencyEdgeView| e.kind is TriggerOnTable && e.kind->function_id == function_id@),
    {
        let ghost p = |e: DependencyEdgeView| e.kind is TriggerOnTable && e.kind->function_id == function_id@;
        let keep = |e: &DependencyEdge| -> (b: bool)
            ensures
                b == (e@.kind is TriggerOnTable && e@.kind->function_id == function_id@),
        {
                    match &e.kind {
                        DependencyKind::TriggerOnTable { function_id: fid, .. } => fid.same(function_id),
                        _ => false,
                    }
                };
        self.edges_where(keep, Ghost(p))
    }
}

/// The first `n` edges, or all of them where there are fewer.
pub open spec fn cut(edges: Seq<DependencyEdgeView>, n: nat) -> Seq<DependencyEdgeView> {
    if n <= edges.len() {
        edges.take(n as int)
    } else {
        edges
    }
}

// ---------------------------------------------------------------------------
// Partition ancestry
// ---------------------------------------------------------------------------

pub open spec fn partitions(edges: Seq<DependencyEdgeView>, e: DependencyEdgeView, id: ObjectIdView) -> bool {
    e.kind is PartitionOf && resolved(edges, e.dependent) == id
}

/// The position, from `from` on, of the first edge that makes `id` a partition.
pub open spec fn first_partition(edges: Seq<DependencyEdgeView>, id: ObjectIdView, from: int) -> int
    decreases edges.len() - from,
{
    if from >= edges.len() || partitions(edges, edges[from], id) {
        from
    } else {
        first_partition(edges, id, from + 1)
    }
}

/// The relation that `id` is a partition of.
pub open spec fn partition_parent(edges: Seq<DependencyEdgeView>, id: ObjectIdView) -> Option<ObjectIdView> {
    let i = first_partition(edges, id, 0);
    if 0 <= i < edges.len() {
        Some(resolved(edges, edges[i].referenced))
    } else {
        None
    }
}

/// The ancestor of `id` that is `n` partition levels up.
pub open spec fn partition_ancestor(edges: Seq<DependencyEdgeView>, id: ObjectIdView, n: nat) -> Option<ObjectIdView>
    decreases n,
{
    if n == 0 {
        Some(id)
    } else {
        match partition_ancestor(edges, id, (n - 1) as nat) {
            Some(x) => partition_parent(edges, x),
            None => None,
        }
    }
}

/// Whether the ancestry of `id` comes to an end.
pub open spec fn ancestry_ends(edges: Seq<DependencyEdgeView>, id: ObjectIdView) -> bool {
    exists|n: nat| #[trigger] partition_ancestor(edges, id, n) is None
}

/// Whether making `child` a partition of `parent` would close a cycle: `child`
/// is `parent` or one of its ancestors, or the ancestry is cyclic already.
pub open spec fn would_close_cycle(edges: Seq<DependencyEdgeView>, parent: ObjectIdView, child: ObjectIdView) -> bool {
    let p = resolved(edges, parent);
    let c = resolved(edges, child);
    ||| !ancestry_ends(edges, p)
    ||| exists|n: nat| #[trigger] partition_ancestor(edges, p, n) == Some(c)
}

proof fn lemma_first_partition(edges: Seq<DependencyEdgeView>, id: ObjectIdView, from: int)
    requires
        0 <= from <= edges.len(),
    ensures
        from <= first_partition(edges, id, from) <= edges.len(),
        first_partition(edges, id, from) < edges.len() ==> partitions(edges, edges[first_partition(edges, id, from)], id),
        forall|j: int| from <= j < first_partition(edges, id, from) ==> !partitions(edges, #[trigger] edges[j], id),
    decreases edges.len() - from,
{
    if from < edges.len() && !partitions(edges, edges[from], id) {
        lemma_first_partition(edges, id, from + 1);
    }
}

proof fn lemma_ancestor_none_stays(edges: Seq<DependencyEdgeView>, id: ObjectIdView, n: nat, m: nat)
    requires
        partition_ancestor(edges, id, n) is None,
        n <= m,
    ensures
        partition_ancestor(edges, id, m) is None,
    decreases m,
{
    if m > n {
        lemma_ancestor_none_stays(edges, id, n, (m - 1) as nat);
    }
}

proof fn lemma_ancestor_shift(edges: Seq<DependencyEdgeView>, id: ObjectIdView, i: nat, j: nat, m: nat)
    requires
        partition_ancestor(edges, id, i) == partition_ancestor(edges, id, j),
    ensures
        partition_ancestor(edges, id, i + m) == partition_ancestor(edges, id, j + m),
    decreases m,
{
    if m > 0 {
        lemma_ancestor_shift(edges, id, i, j, (m - 1) as nat);
        assert((i + m - 1) as nat == i + (m - 1) as nat);
        assert((j + m - 1) as nat == j + (m - 1) as nat);
    }
}

/// An ancestry that is longer than the edge list never ends.
proof fn lemma_long_ancestry_is_cyclic(edges: Seq<DependencyEdgeView>, id: ObjectIdView)
    requires
        partition_ancestor(edges, id, edges.len() + 1) is Some,
    ensures
        !ancestry_ends(edges, id),
{
    let len = edges.len();
    let s = Seq::new(len + 1, |k: int| first_partition(edges, partition_ancestor(edges, id, k as nat)->0, 0));
    assert forall|k: int| 0 <= k <= len + 1 implies (#[trigger] partition_ancestor(edges, id, k as nat)) is Some by {
        if partition_ancestor(edges, id, k as nat) is None {
            lemma_ancestor_none_stays(edges, id, k as nat, (len + 1) as nat);
        }
    }
    assert forall|k: int| 0 <= k < s.len() implies 0 <= #[trigger] s[k] < len by {
        assert(partition_ancestor(edges, id, k as nat) is Some);
        assert(partition_ancestor(edges, id, (k + 1) as nat) is Some);
        lemma_first_partition(edges, partition_ancestor(edges, id, k as nat)->0, 0);
    }
    lemma_pigeonhole(s, len);
    let (i, j) = choose|i: int, j: int| 0 <= i < j < s.len() && #[trigger] s[i] == #[trigger] s[j];
    assert(partition_ancestor(edges, id, i as nat) is Some);
    assert(partition_ancestor(edges, id, j as nat) is Some);
    lemma_first_partition(edges, partition_ancestor(edges, id, i as nat)->0, 0);
    lemma_first_partition(edges, partition_ancestor(edges, id, j as nat)->0, 0);
    assert(0 <= s[i] < len);
    assert(partition_ancestor(edges, id, i as nat) == partition_ancestor(edges, id, j as nat));
    if ancestry_ends(edges, id) {
        let n = choose|n: nat| #[trigger] partition_ancestor(edges, id, n) is None;
        lemma_ancestry_period(edges, id, i as nat, j as nat, n);
    }
}

proof fn lemma_ancestry_period(edges: Seq<DependencyEdgeView>, id: ObjectIdView, i: nat, j: nat, n: nat)
    requires
        i < j,
        partition_ancestor(edges, id, i) == partition_ancestor(edges, id, j),
        partition_ancestor(edges, id, j) is Some,
    ensures
        partition_ancestor(edges, id, n) is Some,
    decreases n,
{
    if n <= j {
        if partition_ancestor(edges, id, n) is None {
            lemma_ancestor_none_stays(edges, id, n, j);
        }
    } else {
        let m = (n - j) as nat;
        lemma_ancestor_shift(edges, id, i, j, m);
        lemma_ancestry_period(edges, id, i, j, (i + m) as nat);
        assert(j + m == n);
    }
}

impl DependencyGraph {
    fn first_partition_of(&self, id: &ObjectId) -> (r: usize)
        ensures
            r == first_partition(self@, id@, 0),
            r <= self@.len(),
    {
        let mut i: usize = 0;
        while i < self.edges.len()
            invariant
                i <= self.edges.len(),
                self@.len() == self.edges.len(),
                first_partition(self@, id@, 0) == first_partition(self@, id@, i as int),
            decreases self.edges.len() - i,
        {
            assert(self@[i as int] == self.edges@[i as int]@);
            let candidate = &self.edges[i];
            let is_partition = match candidate.kind {
                DependencyKind::PartitionOf => true,
                _ => false,
            };
            if is_partition && self.resolve_rename(&candidate.dependent).same(id) {
                return i;
            }
            i = i + 1;
        }
        i
    }

    /// Partition ancestry must stay free of cycles. An ancestry that is
    /// cyclic already admits no further attachment.
    pub fn check_partition_cycle(&self, parent: &ObjectId, child: &ObjectId) -> (r: bool)
        ensures
            r == would_close_cycle(self@, parent@, child@),
    {
        let resolved_parent = self.resolve_rename(parent);
        let resolved_child = self.resolve_rename(child);
        let ghost edges = self@;
        let ghost p = resolved_parent@;
        let ghost c = resolved_child@;
        if resolved_parent.same(resolved_child) {
            assert(partition_ancestor(edges, p, 0) == Some(c));
            return true;
        }
        let mut current = resolved_parent;
        let mut steps: usize = 0;
        loop
            invariant
                edges == self@,
                edges.len() == self.edges.len(),
                p == resolved(edges, parent@),
                c == resolved(edges, child@),
                c == resolved_child@,
                steps <= self.edges.len(),
                partition_ancestor(edges, p, steps as nat) == Some(current@),
                forall|k: nat| k <= steps ==> #[trigger] partition_ancestor(edges, p, k) != Some(c),
            decreases self.edges.len() - steps,
        {
            let at = self.first_partition_of(current);
            if at == self.edges.len() {
                proof {
                    assert(partition_ancestor(edges, p, (steps + 1) as nat) is None);
                    assert forall|k: nat| #[trigger] partition_ancestor(edges, p, k) != Some(c) by {
                        if k > steps {
                            lemma_ancestor_none_stays(edges, p, (steps + 1) as nat, k);
                        }
                    }
                }
                return false;
            }
            assert(edges[at as int] == self.edges@[at as int]@);
            let next = self.resolve_rename(&self.edges[at].referenced);
            assert(partition_ancestor(edges, p, (steps + 1) as nat) == Some(next@));
            if next.same(resolved_child) {
                return true;
            }
            if steps == self.edges.len() {
                proof {
                    lemma_long_ancestry_is_cyclic(edges, p);
                }
                return true;
            }
            current = next;
            steps = steps + 1;
        }
    }
}

// ---------------------------------------------------------------------------
// Renames that edges follow
// ---------------------------------------------------------------------------

pub open spec fn swap_id(x: ObjectIdView, old_id: ObjectIdView, new_id: ObjectIdView) -> ObjectIdView {
    if x == old_id {
        new_id
    } else {
        x
    }
}

pub open spec fn swap_name(x: Seq<char>, from: Seq<char>, to: Seq<char>) -> Seq<char> {
    if x == from {
        to
    } else {
        x
    }
}

pub open spec fn swap_names(list: Seq<Seq<char>>, from: Seq<char>, to: Seq<char>) -> Seq<Seq<char>> {
    list.map_values(|x: Seq<char>| swap_name(x, from, to))
}

/// Whether an edge names a relation as its dependent object.
pub open spec fn dependent_is_relation(k: DependencyKindView) -> bool {
    k is ForeignKey || k is ViewDependency || k is InheritanceOf || k is PartitionOf || k is ConstraintDependency
        || k is ColumnGeneratedFrom || k is ColumnDefaultOnSequence || k is ConstraintOnRelation || k is PublicationIncludes
}

/// Whether an edge names a relation as its referenced object. A publication
/// edge refers to the publication, by an identity of its own.
pub open spec fn referenced_is_relation(k: DependencyKindView) -> bool {
    !(k is RenameTo) && !(k is PublicationIncludes)
}

/// An edge after a relation was renamed: only the endpoints at which its kind
/// names a relation follow.
pub open spec fn with_relation_renamed(e: DependencyEdgeView, old_id: ObjectIdView, new_id: ObjectIdView) -> DependencyEdgeView {
    DependencyEdgeView {
        dependent: if dependent_is_relation(e.kind) {
            swap_id(e.dependent, old_id, new_id)
        } else {
            e.dependent
        },
        referenced: if referenced_is_relation(e.kind) {
            swap_id(e.referenced, old_id, new_id)
        } else {
            e.referenced
        },
        kind: e.kind,
    }
}

pub open spec fn with_index_renamed(e: DependencyEdgeView, old_id: ObjectIdView, new_id: ObjectIdView) -> DependencyEdgeView {
    if e.kind is IndexOnRelation {
        DependencyEdgeView { dependent: swap_id(e.dependent, old_id, new_id), ..e }
    } else {
        e
    }
}

pub open spec fn with_sequence_renamed(e: DependencyEdgeView, old_id: ObjectIdView, new_id: ObjectIdView) -> DependencyEdgeView {
    if e.kind is SequenceOwnedBy {
        DependencyEdgeView { dependent: swap_id(e.dependent, old_id, new_id), ..e }
    } else {
        e
    }
}

pub open spec fn with_trigger_renamed(e: DependencyEdgeView, old_id: ObjectIdView, new_id: ObjectIdView) -> DependencyEdgeView {
    match e.kind {
        DependencyKindView::TriggerOnTable { trigger_id, function_id, trigger_generation } => if trigger_id == old_id {
            DependencyEdgeView {
                dependent: swap_id(e.dependent, old_id, new_id),
                referenced: e.referenced,
                kind: DependencyKindView::TriggerOnTable { trigger_id: new_id, function_id, trigger_generation },
            }
        } else {
            e
        },
        _ => e,
    }
}

pub open spec fn with_function_renamed(e: DependencyEdgeView, old_id: ObjectIdView, new_id: ObjectIdView) -> DependencyEdgeView {
    match e.kind {
        DependencyKindView::TriggerOnTable { trigger_id, function_id, trigger_generation } => DependencyEdgeView {
            kind: DependencyKindView::TriggerOnTable { trigger_id, function_id: swap_id(function_id, old_id, new_id), trigger_generation },
            ..e
        },
        _ => e,
    }
}

pub open spec fn swap_schema(x: ObjectIdView, old_name: Seq<char>, new_name: Seq<char>) -> ObjectIdView {
    ObjectIdView { schema: swap_name(x.schema, old_name, new_name), name: x.name }
}

/// An edge after a schema was renamed. The identity that stands for a
/// publication lives in no schema and stays.
pub open spec fn with_schema_renamed(e: DependencyEdgeView, old_name: Seq<char>, new_name: Seq<char>) -> DependencyEdgeView {
    DependencyEdgeView {
        dependent: swap_schema(e.dependent, old_name, new_name),
        referenced: if e.kind is PublicationIncludes {
            e.referenced
        } else {
            swap_schema(e.referenced, old_name, new_name)
        },
        kind: match e.kind {
            DependencyKindView::TriggerOnTable { trigger_id, function_id, trigger_generation } => DependencyKindView::TriggerOnTable {
                trigger_id: swap_schema(trigger_id, old_name, new_name),
                function_id: swap_schema(function_id, old_name, new_name),
                trigger_generation,
            },
            k => k,
        },
    }
}

/// An edge after a constraint of `table` was renamed.
pub open spec fn with_constraint_renamed(e: DependencyEdgeView, table: ObjectIdView, from: Seq<char>, to: Seq<char>) -> DependencyEdgeView {
    if e.dependent != table {
        e
    } else {
        match e.kind {
            DependencyKindView::ForeignKey { constraint_name, from_columns, to_columns, operator_evidence, from_generation } => DependencyEdgeView {
                kind: DependencyKindView::ForeignKey {
                    constraint_name: match constraint_name {
                        Some(name) => Some(swap_name(name, from, to)),
                        None => None,
                    },
                    from_columns,
                    to_columns,
                    operator_evidence,
                    from_generation,
                },
                ..e
            },
            DependencyKindView::ConstraintOnRelation { constraint_name, columns, is_primary } => DependencyEdgeView {
                kind: DependencyKindView::ConstraintOnRelation { constraint_name: swap_name(constraint_name, from, to), columns, is_primary },
                ..e
            },
            DependencyKindView::ConstraintDependency { constraint_name, columns } => DependencyEdgeView {
                kind: DependencyKindView::ConstraintDependency { constraint_name: swap_name(constraint_name, from, to), columns },
                ..e
            },
            _ => e,
        }
    }
}

/// An edge after a column of `table` was renamed.
pub open spec fn with_column_renamed(e: DependencyEdgeView, table: ObjectIdView, from: Seq<char>, to: Seq<char>) -> DependencyEdgeView {
    let here = e.dependent == table;
    let there = e.referenced == table;
    DependencyEdgeView {
        kind: match e.kind {
            DependencyKindView::ForeignKey { constraint_name, from_columns, to_columns, operator_evidence, from_generation } => DependencyKindView::ForeignKey {
                constraint_name,
                from_columns: if here { swap_names(from_columns, from, to) } else { from_columns },
                to_columns: if there { swap_names(to_columns, from, to) } else { to_columns },
                operator_evidence,
                from_generation,
            },
            DependencyKindView::ViewDependency { view_generation, referenced_column } => DependencyKindView::ViewDependency {
                view_generation,
                referenced_column: match referenced_column {
                    Some(name) => Some(if there { swap_name(name, from, to) } else { name }),
                    None => None,
                },
            },
            DependencyKindView::ConstraintOnRelation { constraint_name, columns, is_primary } => DependencyKindView::ConstraintOnRelation {
                constraint_name,
                columns: if here { swap_names(columns, from, to) } else { columns },
                is_primary,
            },
            DependencyKindView::ConstraintDependency { constraint_name, columns } => DependencyKindView::ConstraintDependency {
                constraint_name,
                columns: if here { swap_names(columns, from, to) } else { columns },
            },
            DependencyKindView::ColumnGeneratedFrom { column, depends_on_column } => DependencyKindView::ColumnGeneratedFrom {
                column: if here { swap_name(column, from, to) } else { column },
                depends_on_column: if there { swap_name(depends_on_column, from, to) } else { depends_on_column },
            },
            DependencyKindView::ColumnDefaultOnSequence { column } => DependencyKindView::ColumnDefaultOnSequence {
                column: if here { swap_name(column, from, to) } else { column },
            },
            k => k,
        },
        ..e
    }
}

/// An edge after a column that indexes of `table` use was renamed.
pub open spec fn with_index_column_renamed(e: DependencyEdgeView, table: ObjectIdView, from: Seq<char>, to: Seq<char>) -> DependencyEdgeView {
    if e.referenced != table {
        e
    } else {
        match e.kind {
            DependencyKindView::IndexOnRelation {
                using_method,
                key_columns,
                included_columns,
                dependency_columns,
                dependency_columns_known,
                has_expression_keys,
                has_predicate,
                is_concurrent,
                is_unique,
                is_valid,
                is_ready,
                is_live,
                has_default_sort_order,
                has_default_opclasses,
                has_default_collations,
                eligibility_known,
            } => DependencyEdgeView {
                kind: DependencyKindView::IndexOnRelation {
                    using_method,
                    key_columns: swap_names(key_columns, from, to),
                    included_columns: swap_names(included_columns, from, to),
                    dependency_columns: swap_names(dependency_columns, from, to),
                    dependency_columns_known,
                    has_expression_keys,
                    has_predicate,
                    is_concurrent,
                    is_unique,
                    is_valid,
                    is_ready,
                    is_live,
                    has_default_sort_order,
                    has_default_opclasses,
                    has_default_collations,
                    eligibility_known,
                },
                ..e
            },
            _ => e,
        }
    }
}

fn swapped_id(x: &ObjectId, old_id: &ObjectId, new_id: &ObjectId) -> (r: ObjectId)
    ensures
        r@ == swap_id(x@, old_id@, new_id@),
{
    if x.same(old_id) {
        new_id.dup()
    } else {
        x.dup()
    }
}

fn swapped_name(x: &String, from: &String, to: &String) -> (r: String)
    ensures
        r@ == swap_name(x@, from@, to@),
{
    if *x == *from {
        to.clone()
    } else {
        x.clone()
    }
}

pub(crate) fn swapped_names(list: &Vec<String>, from: &String, to: &String) -> (r: Vec<String>)
    ensures
        r.deep_view() == swap_names(list.deep_view(), from@, to@),
{
    let mut out: Vec<String> = Vec::new();
    let mut i: usize = 0;
    while i < list.len()
        invariant
            i <= list.len(),
            out.len() == i,
            forall|j: int| 0 <= j < i ==> #[trigger] out@[j]@ == swap_name(list@[j]@, from@, to@),
        decreases list.len() - i,
    {
        out.push(swapped_name(&list[i], from, to));
        i = i + 1;
    }
    assert(out.deep_view() =~= swap_names(list.deep_view(), from@, to@));
    out
}

pub(crate) fn swapped_schema(x: &ObjectId, old_name: &String, new_name: &String) -> (r: ObjectId)
    ensures
        r@ == swap_schema(x@, old_name@, new_name@),
{
    ObjectId { schema: swapped_name(&x.schema, old_name, new_name), name: x.name.clone(), inferred_schema: x.inferred_schema }
}

fn relation_renamed(e: &DependencyEdge, old_id: &ObjectId, new_id: &ObjectId) -> (r: DependencyEdge)
    ensures
        r@ == with_relation_renamed(e@, old_id@, new_id@),
{
    let (dependent_follows, referenced_follows): (bool, bool) = match &e.kind {
        DependencyKind::RenameTo => (false, false),
        DependencyKind::ForeignKey { .. }
        | DependencyKind::ViewDependency { .. }
        | DependencyKind::InheritanceOf
        | DependencyKind::PartitionOf
        | DependencyKind::ConstraintDependency { .. }
        | DependencyKind::ColumnGeneratedFrom { .. }
        | DependencyKind::ColumnDefaultOnSequence { .. }
        | DependencyKind::ConstraintOnRelation { .. } => (true, true),
        DependencyKind::IndexOnRelation { .. }
        | DependencyKind::SequenceOwnedBy { .. }
        | DependencyKind::TriggerOnTable { .. } => (false, true),
        DependencyKind::PublicationIncludes { .. } => (true, false),
    };
    let dependent = if dependent_follows {
        swapped_id(&e.dependent, old_id, new_id)
    } else {
        e.dependent.dup()
    };
    let referenced = if referenced_follows {
        swapped_id(&e.referenced, old_id, new_id)
    } else {
        e.referenced.dup()
    };
    DependencyEdge { dependent, referenced, kind: e.kind.dup() }
}

fn index_renamed(e: &DependencyEdge, old_id: &ObjectId, new_id: &ObjectId) -> (r: DependencyEdge)
    ensures
        r@ == with_index_renamed(e@, old_id@, new_id@),
{
    let dependent = match &e.kind {
        DependencyKind::IndexOnRelation { .. } => swapped_id(&e.dependent, old_id, new_id),
        _ => e.dependent.dup(),
    };
    DependencyEdge { dependent, referenced: e.referenced.dup(), kind: e.kind.dup() }
}

fn sequence_renamed(e: &DependencyEdge, old_id: &ObjectId, new_id: &ObjectId) -> (r: DependencyEdge)
    ensures
        r@ == with_sequence_renamed(e@, old_id@, new_id@),
{
    let dependent = match &e.kind {
        DependencyKind::SequenceOwnedBy { .. } => swapped_id(&e.dependent, old_id, new_id),
        _ => e.dependent.dup(),
    };
    DependencyEdge { dependent, referenced: e.referenced.dup(), kind: e.kind.dup() }
}

fn trigger_renamed(e: &DependencyEdge, old_id: &ObjectId, new_id: &ObjectId) -> (r: DependencyEdge)
    ensures
        r@ == with_trigger_renamed(e@, old_id@, new_id@),
{
    match &e.kind {
        DependencyKind::TriggerOnTable { trigger_id, function_id, trigger_generation } => {
            if trigger_id.same(old_id) {
                DependencyEdge {
                    dependent: swapped_id(&e.dependent, old_id, new_id),
                    referenced: e.referenced.dup(),
                    kind: DependencyKind::TriggerOnTable {
                        trigger_id: new_id.dup(),
                        function_id: function_id.dup(),
                        trigger_generation: *trigger_generation,
                    },
                }
            } else {
                e.dup()
            }
        },
        _ => e.dup(),
    }
}

fn function_renamed(e: &DependencyEdge, old_id: &ObjectId, new_id: &ObjectId) -> (r: DependencyEdge)
    ensures
        r@ == with_function_renamed(e@, old_id@, new_id@),
{
    match &e.kind {
        DependencyKind::TriggerOnTable { trigger_id, function_id, trigger_generation } => DependencyEdge {
            dependent: e.dependent.dup(),
            referenced: e.referenced.dup(),
            kind: DependencyKind::TriggerOnTable {
                trigger_id: trigger_id.dup(),
                function_id: swapped_id(function_id, old_id, new_id),
                trigger_generation: *trigger_generation,
            },
        },
        _ => e.dup(),
    }
}

fn schema_renamed(e: &DependencyEdge, old_name: &String, new_name: &String) -> (r: DependencyEdge)
    ensures
        r@ == with_schema_renamed(e@, old_name@, new_name@),
{
    let kind = match &e.kind {
        DependencyKind::TriggerOnTable { trigger_id, function_id, trigger_generation } => DependencyKind::TriggerOnTable {
            trigger_id: swapped_schema(trigger_id, old_name, new_name),
            function_id: swapped_schema(function_id, old_name, new_name),
            trigger_generation: *trigger_generation,
        },
        k => k.dup(),
    };
    let referenced = match &e.kind {
        DependencyKind::PublicationIncludes { .. } => e.referenced.dup(),
        _ => swapped_schema(&e.referenced, old_name, new_name),
    };
    DependencyEdge { dependent: swapped_schema(&e.dependent, old_name, new_name), referenced, kind }
}

fn constraint_renamed(e: &DependencyEdge, table: &ObjectId, from: &String, to: &String) -> (r: DependencyEdge)
    ensures
        r@ == with_constraint_renamed(e@, table@, from@, to@),
{
    if !e.dependent.same(table) {
        return e.dup();
    }
    let kind = match &e.kind {
        DependencyKind::ForeignKey { constraint_name, from_columns, to_columns, operator_evidence, from_generation } => DependencyKind::ForeignKey {
            constraint_name: match constraint_name {
                Some(name) => Some(swapped_name(name, from, to)),
                None => None,
            },
            from_columns: from_columns.dup(),
            to_columns: to_columns.dup(),
            operator_evidence: operator_evidence.dup(),
            from_generation: *from_generation,
        },
        DependencyKind::ConstraintOnRelation { constraint_name, columns, is_primary } => DependencyKind::ConstraintOnRelation {
            constraint_name: swapped_name(constraint_name, from, to),
            columns: columns.dup(),
            is_primary: *is_primary,
        },
        DependencyKind::ConstraintDependency { constraint_name, columns } => DependencyKind::ConstraintDependency {
            constraint_name: swapped_name(constraint_name, from, to),
            columns: columns.dup(),
        },
        k => k.dup(),
    };
    DependencyEdge { dependent: e.dependent.dup(), referenced: e.referenced.dup(), kind }
}

fn names_if(follow: bool, list: &Vec<String>, from: &String, to: &String) -> (r: Vec<String>)
    ensures
        r.deep_view() == (if follow { swap_names(list.deep_view(), from@, to@) } else { list.deep_view() }),
{
    if follow {
        swapped_names(list, from, to)
    } else {
        list.dup()
    }
}

fn name_if(follow: bool, name: &String, from: &String, to: &String) -> (r: String)
    ensures
        r@ == (if follow { swap_name(name@, from@, to@) } else { name@ }),
{
    if follow {
        swapped_name(name, from, to)
    } else {
        name.clone()
    }
}

pub(crate) fn column_renamed(e: &DependencyEdge, table: &ObjectId, from: &String, to: &String) -> (r: DependencyEdge)
    ensures
        r@ == with_column_renamed(e@, table@, from@, to@),
{
    let here = e.dependent.same(table);
    let there = e.referenced.same(table);
    let kind = match &e.kind {
        DependencyKind::ForeignKey { constraint_name, from_columns, to_columns, operator_evidence, from_generation } => DependencyKind::ForeignKey {
            constraint_name: constraint_name.dup(),
            from_columns: names_if(here, from_columns, from, to),
            to_columns: names_if(there, to_columns, from, to),
            operator_evidence: operator_evidence.dup(),
            from_generation: *from_generation,
        },
        DependencyKind::ViewDependency { view_generation, referenced_column } => DependencyKind::ViewDependency {
            view_generation: *view_generation,
            referenced_column: match referenced_column {
                Some(name) => Some(name_if(there, name, from, to)),
                None => None,
            },
        },
        DependencyKind::ConstraintOnRelation { constraint_name, columns, is_primary } => DependencyKind::ConstraintOnRelation {
            constraint_name: constraint_name.dup(),
            columns: names_if(here, columns, from, to),
            is_primary: *is_primary,
        },
        DependencyKind::ConstraintDependency { constraint_name, columns } => DependencyKind::ConstraintDependency {
            constraint_name: constraint_name.dup(),
            columns: names_if(here, columns, from, to),
        },
        DependencyKind::ColumnGeneratedFrom { column, depends_on_column } => DependencyKind::ColumnGeneratedFrom {
            column: name_if(here, column, from, to),
            depends_on_column: name_if(there, depends_on_column, from, to),
        },
        DependencyKind::ColumnDefaultOnSequence { column } => DependencyKind::ColumnDefaultOnSequence {
            column: name_if(here, column, from, to),
        },
        k => k.dup(),
    };
    DependencyEdge { dependent: e.dependent.dup(), referenced: e.referenced.dup(), kind }
}

pub(crate) fn index_column_renamed(e: &DependencyEdge, table: &ObjectId, from: &String, to: &String) -> (r: DependencyEdge)
    ensures
        r@ == with_index_column_renamed(e@, table@, from@, to@),
{
    if !e.referenced.same(table) {
        return e.dup();
    }
    let kind = match &e.kind {
        DependencyKind::IndexOnRelation {
            using_method,
            key_columns,
            included_columns,
            dependency_columns,
            dependency_columns_known,
            has_expression_keys,
            has_predicate,
            is_concurrent,
            is_unique,
            is_valid,
            is_ready,
            is_live,
            has_default_sort_order,
            has_default_opclasses,
            has_default_collations,
            eligibility_known,
        } => DependencyKind::IndexOnRelation {
            using_method: using_method.dup(),
            key_columns: swapped_names(key_columns, from, to),
            included_columns: swapped_names(included_columns, from, to),
            dependency_columns: swapped_names(dependency_columns, from, to),
            dependency_columns_known: *dependency_columns_known,
            has_expression_keys: *has_expression_keys,
            has_predicate: *has_predicate,
            is_concurrent: *is_concurrent,
            is_unique: *is_unique,
            is_valid: *is_valid,
            is_ready: *is_ready,
            is_live: *is_live,
            has_default_sort_order: *has_default_sort_order,
            has_default_opclasses: *has_default_opclasses,
            has_default_collations: *has_default_collations,
            eligibility_known: *eligibility_known,
        },
        k => k.dup(),
    };
    DependencyEdge { dependent: e.dependent.dup(), referenced: e.referenced.dup(), kind }
}

impl DependencyGraph {
    /// Propagates a relation rename through the endpoints that name relations.
    /// Endpoints are followed by edge kind, since an identity carries no kind
    /// and two namespaces may share a name.
    pub fn propagate_relation_rename(&mut self, old_id: &ObjectId, new_id: &ObjectId)
        ensures
            final(self)@ == old(self)@.map_values(|e: DependencyEdgeView| with_relation_renamed(e, old_id@, new_id@)),
    {
        let ghost p = |e: DependencyEdgeView| with_relation_renamed(e, old_id@, new_id@);
        let follow = |e: &DependencyEdge| -> (r: DependencyEdge)
            ensures
                r@ == with_relation_renamed(e@, old_id@, new_id@),
        { relation_renamed(e, old_id, new_id) };
        self.map_edges(follow, Ghost(p));
    }

    /// Propagates an index rename through the edges of that index.
    pub fn propagate_index_rename(&mut self, old_id: &ObjectId, new_id: &ObjectId)
        ensures
            final(self)@ == old(self)@.map_values(|e: DependencyEdgeView| with_index_renamed(e, old_id@, new_id@)),
    {
        let ghost p = |e: DependencyEdgeView| with_index_renamed(e, old_id@, new_id@);
        let follow = |e: &DependencyEdge| -> (r: DependencyEdge)
            ensures
                r@ == with_index_renamed(e@, old_id@, new_id@),
        { index_renamed(e, old_id, new_id) };
        self.map_edges(follow, Ghost(p));
    }

    /// Propagates a sequence rename through ownership edges.
    pub fn propagate_sequence_rename(&mut self, old_id: &ObjectId, new_id: &ObjectId)
        ensures
            final(self)@ == old(self)@.map_values(|e: DependencyEdgeView| with_sequence_renamed(e, old_id@, new_id@)),
    {
        let ghost p = |e: DependencyEdgeView| with_sequence_renamed(e, old_id@, new_id@);
        let follow = |e: &DependencyEdge| -> (r: DependencyEdge)
            ensures
                r@ == with_sequence_renamed(e@, old_id@, new_id@),
        { sequence_renamed(e, old_id, new_id) };
        self.map_edges(follow, Ghost(p));
    }

    /// Propagates a trigger rename through its edge and payload.
    pub fn propagate_trigger_rename(&mut self, old_id: &ObjectId, new_id: &ObjectId)
        ensures
            final(self)@ == old(self)@.map_values(|e: DependencyEdgeView| with_trigger_renamed(e, old_id@, new_id@)),
    {
        let ghost p = |e: DependencyEdgeView| with_trigger_renamed(e, old_id@, new_id@);
        let follow = |e: &DependencyEdge| -> (r: DependencyEdge)
            ensures
                r@ == with_trigger_renamed(e@, old_id@, new_id@),
        { trigger_renamed(e, old_id, new_id) };
        self.map_edges(follow, Ghost(p));
    }

    /// Propagates a function rename through trigger payloads.
    pub fn propagate_function_rename(&mut self, old_id: &ObjectId, new_id: &ObjectId)
        ensures
            final(self)@ == old(self)@.map_values(|e: DependencyEdgeView| with_function_renamed(e, old_id@, new_id@)),
    {
        let ghost p = |e: DependencyEdgeView| with_function_renamed(e, old_id@, new_id@);
        let follow = |e: &DependencyEdge| -> (r: DependencyEdge)
            ensures
                r@ == with_function_renamed(e@, old_id@, new_id@),
        { function_renamed(e, old_id, new_id) };
        self.map_edges(follow, Ghost(p));
    }

    /// Propagates a schema rename through every identity of that schema.
    pub fn remap_schema_namespace(&mut self, old_name: &String, new_name: &String)
        ensures
            final(self)@ == old(self)@.map_values(|e: DependencyEdgeView| with_schema_renamed(e, old_name@, new_name@)),
    {
        let ghost p = |e: DependencyEdgeView| with_schema_renamed(e, old_name@, new_name@);
        let follow = |e: &DependencyEdge| -> (r: DependencyEdge)
            ensures
                r@ == with_schema_renamed(e@, old_name@, new_name@),
        { schema_renamed(e, old_name, new_name) };
        self.map_edges(follow, Ghost(p));
    }

    /// Propagates a constraint rename through the edges that carry its name.
    pub fn rename_foreign_key_constraint(&mut self, table: &ObjectId, from: &String, to: &String)
        ensures
            final(self)@ == old(self)@.map_values(|e: DependencyEdgeView| with_constraint_renamed(e, table@, from@, to@)),
    {
        let ghost p = |e: DependencyEdgeView| with_constraint_renamed(e, table@, from@, to@);
        let follow = |e: &DependencyEdge| -> (r: DependencyEdge)
            ensures
                r@ == with_constraint_renamed(e@, table@, from@, to@),
        { constraint_renamed(e, table, from, to) };
        self.map_edges(follow, Ghost(p));
    }

    /// Propagates a rename of a relation.
    pub fn propagate_rename(&mut self, old_id: &ObjectId, new_id: &ObjectId)
        ensures
            final(self)@ == old(self)@.map_values(|e: DependencyEdgeView| with_relation_renamed(e, old_id@, new_id@)),
    {
        self.propagate_relation_rename(old_id, new_id);
    }
}

/// A rename of a relation touches no rename edge, leaves the kind of every
/// edge alone, and leaves no relation endpoint at the old identity.
pub proof fn law_relation_rename_is_typed(e: DependencyEdgeView, old_id: ObjectIdView, new_id: ObjectIdView)
    ensures
        with_relation_renamed(e, old_id, new_id).kind == e.kind,
        e.kind is RenameTo ==> with_relation_renamed(e, old_id, new_id) == e,
        e.kind is PublicationIncludes ==> with_relation_renamed(e, old_id, new_id).referenced == e.referenced,
        e.kind is IndexOnRelation || e.kind is SequenceOwnedBy || e.kind is TriggerOnTable ==> with_relation_renamed(
            e,
            old_id,
            new_id,
        ).dependent == e.dependent,
        old_id != new_id && dependent_is_relation(e.kind) ==> with_relation_renamed(e, old_id, new_id).dependent != old_id,
        old_id != new_id && referenced_is_relation(e.kind) ==> with_relation_renamed(e, old_id, new_id).referenced != old_id,
{
}

/// Typed renames other than that of a relation change only their own kind of
/// edge.
pub proof fn law_other_renames_are_typed(e: DependencyEdgeView, old_id: ObjectIdView, new_id: ObjectIdView)
    ensures
        !(e.kind is IndexOnRelation) ==> with_index_renamed(e, old_id, new_id) == e,
        !(e.kind is SequenceOwnedBy) ==> with_sequence_renamed(e, old_id, new_id) == e,
        !(e.kind is TriggerOnTable) ==> with_trigger_renamed(e, old_id, new_id) == e,
        !(e.kind is TriggerOnTable) ==> with_function_renamed(e, old_id, new_id) == e,
        with_function_renamed(e, old_id, new_id).dependent == e.dependent,
        with_function_renamed(e, old_id, new_id).referenced == e.referenced,
{
}

/// A partition that may be attached is not an ancestor of its parent: after
/// the attachment, walking up from the parent never meets the child.
pub proof fn law_accepted_partition_is_no_ancestor(edges: Seq<DependencyEdgeView>, parent: ObjectIdView, child: ObjectIdView, n: nat)
    requires
        !would_close_cycle(edges, parent, child),
    ensures
        resolved(edges, parent) != resolved(edges, child),
        partition_ancestor(edges, resolved(edges, parent), n) != Some(resolved(edges, child)),
        ancestry_ends(edges, resolved(edges, parent)),
{
    assert(partition_ancestor(edges, resolved(edges, parent), 0) == Some(resolved(edges, parent)));
}

} // verus!
