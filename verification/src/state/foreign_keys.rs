//! What a foreign key needs of its two tables.
use crate::collections::{vec_any, vec_contains, vec_map, Dup, Key};
use crate::graph::{resolved, DependencyEdge, DependencyEdgeView, DependencyKind, DependencyKindView};
use crate::identifiers::{ObjectId, ObjectIdView};
use crate::model::column::{Column, ColumnView};
use crate::model::constraint::{ConstraintKind, ConstraintState, ConstraintStateView};
use crate::state::lookup::{present, state_of, RelationFilter};
use crate::state::refusal::{relation_refusal, Refusal, RefusalView};
use crate::state::{data_of, AnalysisState, StateData};
use crate::text::{ascii_lowercase, decimal, eq_ignore_ascii_case, join2, join3, join5, to_decimal, trim, trimmed};
use vstd::prelude::*;

verus! {

/// What a key has to know of a column.
pub struct KeyColumn {
    pub name: String,
    pub type_id: Option<ObjectId>,
    pub data_type: Option<String>,
}

pub struct KeyColumnView {
    pub name: Seq<char>,
    pub type_id: Option<ObjectIdView>,
    pub data_type: Option<Seq<char>>,
}

impl View for KeyColumn {
    type V = KeyColumnView;

    open spec fn view(&self) -> KeyColumnView {
        KeyColumnView { name: self.name@, type_id: self.type_id.deep_view(), data_type: self.data_type.deep_view() }
    }
}

impl DeepView for KeyColumn {
    type V = KeyColumnView;

    open spec fn deep_view(&self) -> KeyColumnView {
        self@
    }
}

/// The columns of a key, and whether it is the primary key.
pub type KeyView = (Seq<Seq<char>>, bool);

/// The table that a foreign key refers to. Its keys are `None` where one
/// exists whose columns are not known.
pub struct KeyTarget {
    pub columns: Vec<KeyColumn>,
    pub columns_known: bool,
    pub keys: Option<Vec<(Vec<String>, bool)>>,
}

pub struct KeyTargetView {
    pub columns: Seq<KeyColumnView>,
    pub columns_known: bool,
    pub keys: Option<Seq<KeyView>>,
}

impl View for KeyTarget {
    type V = KeyTargetView;

    open spec fn view(&self) -> KeyTargetView {
        KeyTargetView { columns: self.columns.deep_view(), columns_known: self.columns_known, keys: self.keys.deep_view() }
    }
}

/// A foreign key as it is written.
pub struct KeyUse {
    pub table: ObjectId,
    pub to_table: ObjectId,
    pub from_columns: Vec<String>,
    pub to_columns: Vec<String>,
}

pub struct KeyUseView {
    pub table: ObjectIdView,
    pub to_table: ObjectIdView,
    pub from_columns: Seq<Seq<char>>,
    pub to_columns: Seq<Seq<char>>,
}

impl View for KeyUse {
    type V = KeyUseView;

    open spec fn view(&self) -> KeyUseView {
        KeyUseView {
            table: self.table@,
            to_table: self.to_table@,
            from_columns: self.from_columns.deep_view(),
            to_columns: self.to_columns.deep_view(),
        }
    }
}

/// What checking a foreign key leads to.
pub struct KeyCheck {
    /// Why it is not accepted.
    pub refusal: Option<Refusal>,
    /// The columns that it refers to.
    pub columns: Vec<String>,
    /// Whether something about it could not be checked.
    pub gap: bool,
}

pub struct KeyCheckView {
    pub refusal: Option<RefusalView>,
    pub columns: Seq<Seq<char>>,
    pub gap: bool,
}

impl View for KeyCheck {
    type V = KeyCheckView;

    open spec fn view(&self) -> KeyCheckView {
        KeyCheckView { refusal: self.refusal.deep_view(), columns: self.columns.deep_view(), gap: self.gap }
    }
}

/// The position of the first name that stands before too.
pub open spec fn first_repeated(names: Seq<Seq<char>>, i: nat) -> nat
    decreases names.len() - i,
{
    if i >= names.len() || names.take(i as int).contains(names[i as int]) {
        i
    } else {
        first_repeated(names, i + 1)
    }
}

pub open spec fn has_key_column(columns: Seq<KeyColumnView>, name: Seq<char>) -> bool {
    exists|i: int| 0 <= i < columns.len() && #[trigger] columns[i].name == name
}

/// The position of the first name that is no column.
pub open spec fn first_missing(names: Seq<Seq<char>>, columns: Seq<KeyColumnView>, i: nat) -> nat
    decreases names.len() - i,
{
    if i >= names.len() || !has_key_column(columns, names[i as int]) {
        i
    } else {
        first_missing(names, columns, i + 1)
    }
}

/// Why a foreign key is refused for the way it is written.
pub open spec fn shape_refusal(k: KeyUseView) -> Option<RefusalView> {
    let source = first_repeated(k.from_columns, 0);
    let target = first_repeated(k.to_columns, 0);
    if k.from_columns.len() == 0 {
        Some(RefusalView::Conflict("foreign key on relation '"@ + k.table.shown() + "' has no source columns"@))
    } else if k.to_columns.len() > 0 && k.from_columns.len() != k.to_columns.len() {
        Some(
            RefusalView::Conflict(
                "foreign key on '"@ + k.table.shown() + "' has "@ + decimal(k.from_columns.len()) + " source columns but "@ + (decimal(
                    k.to_columns.len(),
                ) + " referenced columns"@),
            ),
        )
    } else if source < k.from_columns.len() {
        Some(RefusalView::Conflict("foreign key on '"@ + k.table.shown() + "' repeats source column '"@ + k.from_columns[source as int] + "'"@))
    } else if target < k.to_columns.len() {
        Some(RefusalView::Conflict("foreign key on '"@ + k.table.shown() + "' repeats referenced column '"@ + k.to_columns[target as int] + "'"@))
    } else {
        None
    }
}

/// Why a foreign key is refused for its own columns.
pub open spec fn source_refusal(k: KeyUseView, sources: Seq<KeyColumnView>, sources_known: bool) -> Option<RefusalView> {
    let i = first_missing(k.from_columns, sources, 0);
    if sources_known && i < k.from_columns.len() {
        Some(
            RefusalView::Conflict(
                "foreign key column '"@ + k.from_columns[i as int] + "' does not exist on relation '"@ + k.table.shown() + "'"@,
            ),
        )
    } else {
        None
    }
}

/// Why a foreign key is refused for the columns that it refers to.
pub open spec fn target_refusal(k: KeyUseView, target: KeyTargetView) -> Option<RefusalView> {
    let i = first_missing(k.to_columns, target.columns, 0);
    if target.columns_known && i < k.to_columns.len() {
        Some(
            RefusalView::Conflict(
                "foreign key references column '"@ + k.to_table.shown() + "."@ + k.to_columns[i as int] + "' which does not exist"@,
            ),
        )
    } else {
        None
    }
}

pub open spec fn primary_keys(keys: Seq<KeyView>) -> Seq<KeyView> {
    keys.filter(|key: KeyView| key.1)
}

/// The columns that a foreign key refers to: without any, those of the primary
/// key.
pub open spec fn referenced_columns(k: KeyUseView, keys: Option<Seq<KeyView>>) -> Seq<Seq<char>> {
    if k.to_columns.len() > 0 {
        k.to_columns
    } else {
        match keys {
            Some(list) => if primary_keys(list).len() > 0 {
                primary_keys(list)[0].0
            } else {
                Seq::empty()
            },
            None => Seq::empty(),
        }
    }
}

pub open spec fn is_some_key(keys: Seq<KeyView>, columns: Seq<Seq<char>>) -> bool {
    exists|i: int| 0 <= i < keys.len() && #[trigger] keys[i].0 == columns
}

/// Why a foreign key is refused for want of a key that it refers to.
pub open spec fn key_refusal(k: KeyUseView, keys: Option<Seq<KeyView>>) -> Option<RefusalView> {
    match keys {
        Some(list) => if k.to_columns.len() == 0 && primary_keys(list).len() != 1 {
            Some(
                RefusalView::Conflict(
                    "foreign key on '"@ + k.table.shown() + "' omits referenced columns but target '"@ + k.to_table.shown()
                        + "' has no single primary key"@,
                ),
            )
        } else if !is_some_key(list, referenced_columns(k, keys)) {
            Some(
                RefusalView::Conflict(
                    "foreign key on '"@ + k.table.shown() + "' references columns on '"@ + k.to_table.shown()
                        + "' that are not backed by a primary key or unique key"@,
                ),
            )
        } else {
            None
        },
        None => None,
    }
}

/// The first column of that name.
pub open spec fn key_column(columns: Seq<KeyColumnView>, name: Seq<char>) -> Option<KeyColumnView>
    decreases columns.len(),
{
    if columns.len() == 0 {
        None
    } else if columns[0].name == name {
        Some(columns[0])
    } else {
        key_column(columns.drop_first(), name)
    }
}

/// How the types of two columns compare.
pub enum TypeMatch {
    Same,
    Different,
    Unknown,
}

pub open spec fn type_match(source: Option<KeyColumnView>, target: Option<KeyColumnView>) -> TypeMatch {
    if source is None || target is None {
        TypeMatch::Unknown
    } else if source->0.type_id is Some && target->0.type_id is Some {
        if source->0.type_id == target->0.type_id {
            TypeMatch::Same
        } else {
            TypeMatch::Different
        }
    } else if source->0.data_type is Some && target->0.data_type is Some {
        if ascii_lowercase(trimmed(source->0.data_type->0)) == ascii_lowercase(trimmed(target->0.data_type->0)) {
            TypeMatch::Same
        } else {
            TypeMatch::Different
        }
    } else {
        TypeMatch::Unknown
    }
}

/// How the types of the columns at a position of a foreign key compare.
pub open spec fn type_match_at(k: KeyUseView, columns: Seq<Seq<char>>, sources: Seq<KeyColumnView>, target: KeyTargetView, i: int) -> TypeMatch {
    type_match(key_column(sources, k.from_columns[i]), key_column(target.columns, columns[i]))
}

pub open spec fn some_type_is(
    k: KeyUseView,
    columns: Seq<Seq<char>>,
    sources: Seq<KeyColumnView>,
    target: KeyTargetView,
    m: TypeMatch,
    n: nat,
) -> bool {
    exists|i: int|
        0 <= i < n && 0 <= i < k.from_columns.len() && 0 <= i < columns.len() && #[trigger] type_match_at(k, columns, sources, target, i) == m
}

pub open spec fn key_refused(refusal: Option<RefusalView>) -> KeyCheckView {
    KeyCheckView { refusal, columns: Seq::empty(), gap: false }
}

/// What checking a foreign key against the table that it refers to leads to.
/// Types that differ may still be comparable, which no catalog row shows.
pub open spec fn checked_against(k: KeyUseView, sources: Seq<KeyColumnView>, target: KeyTargetView) -> KeyCheckView {
    let columns = referenced_columns(k, target.keys);
    if target_refusal(k, target) is Some {
        key_refused(target_refusal(k, target))
    } else if key_refusal(k, target.keys) is Some {
        key_refused(key_refusal(k, target.keys))
    } else if some_type_is(k, columns, sources, target, TypeMatch::Different, k.from_columns.len()) {
        key_refused(Some(RefusalView::Uncovered))
    } else {
        KeyCheckView {
            refusal: None,
            columns,
            gap: target.keys is None || some_type_is(k, columns, sources, target, TypeMatch::Unknown, k.from_columns.len()),
        }
    }
}

/// Why the table that a foreign key refers to cannot be used.
pub open spec fn table_refusal(d: StateData, to_table: ObjectIdView) -> Option<RefusalView> {
    relation_refusal(
        d,
        to_table,
        RelationFilter::Table,
        "foreign key references relation '"@ + to_table.shown() + "' which does not exist"@,
        "foreign key references '"@ + to_table.shown() + "' which is not a table"@,
    )
}

pub open spec fn key_columns_of(columns: Seq<ColumnView>) -> Seq<KeyColumnView> {
    columns.map_values(|c: ColumnView| KeyColumnView { name: c.name, type_id: c.type_id, data_type: c.data_type })
}

/// Whether an edge gives the columns of a key of a table.
pub open spec fn is_key_edge(e: DependencyEdgeView, table: ObjectIdView) -> bool {
    e.dependent == table && match e.kind {
        DependencyKindView::ConstraintOnRelation { columns, .. } => columns.len() > 0,
        _ => false,
    }
}

/// Whether an edge shows that a table has a key without giving its columns.
pub open spec fn is_open_key_edge(e: DependencyEdgeView, table: ObjectIdView) -> bool {
    e.dependent == table && match e.kind {
        DependencyKindView::ConstraintOnRelation { columns, .. } => columns.len() == 0,
        DependencyKindView::IndexOnRelation { is_unique, .. } => is_unique,
        _ => false,
    }
}

pub open spec fn key_of_edge(e: DependencyEdgeView) -> KeyView {
    match e.kind {
        DependencyKindView::ConstraintOnRelation { columns, is_primary, .. } => (columns, is_primary),
        _ => (Seq::empty(), false),
    }
}

pub open spec fn known_keys(graph: Seq<DependencyEdgeView>, table: ObjectIdView) -> Seq<KeyView> {
    graph.filter(|e: DependencyEdgeView| is_key_edge(e, table)).map_values(|e: DependencyEdgeView| key_of_edge(e))
}

pub open spec fn is_key_constraint(key: (ObjectIdView, Seq<char>), c: ConstraintStateView, table: ObjectIdView) -> bool {
    key.0 == table && (c.kind == ConstraintKind::PrimaryKey || c.kind == ConstraintKind::Unique)
}

pub open spec fn has_open_key(d: StateData, table: ObjectIdView) -> bool {
    ||| exists|i: int| 0 <= i < d.graph.len() && is_open_key_edge(#[trigger] d.graph[i], table)
    ||| exists|key: (ObjectIdView, Seq<char>)| #[trigger] d.constraints.dom().contains(key) && is_key_constraint(key, d.constraints[key], table)
}

/// The keys of a relation that can be proved; `None` where a key exists whose
/// columns are not known.
#[verifier::opaque]
pub open spec fn unique_keys(d: StateData, id: ObjectIdView) -> Option<Seq<KeyView>> {
    let table = resolved(d.graph, id);
    if d.baseline_relations.contains(table) && present(d.relations, table) && state_of(d.relations, table).columns.len() == 0 {
        None
    } else if known_keys(d.graph, table).len() > 0 {
        Some(known_keys(d.graph, table))
    } else if has_open_key(d, table) {
        None
    } else {
        Some(Seq::empty())
    }
}

/// A table that exists, as a foreign key sees it. A baseline may hold a
/// relation without its columns, which does not show that a column is absent.
pub open spec fn target_of(d: StateData, id: ObjectIdView) -> KeyTargetView {
    let columns = key_columns_of(state_of(d.relations, id).columns);
    KeyTargetView { columns, columns_known: !d.baseline_relations.contains(id) || columns.len() > 0, keys: unique_keys(d, id) }
}

/// What checking a foreign key of a table with these columns leads to.
#[verifier::opaque]
pub open spec fn key_checked(d: StateData, k: KeyUseView, sources: Seq<KeyColumnView>, sources_known: bool, own: Option<KeyTargetView>) -> KeyCheckView {
    if shape_refusal(k) is Some {
        key_refused(shape_refusal(k))
    } else if source_refusal(k, sources, sources_known) is Some {
        key_refused(source_refusal(k, sources, sources_known))
    } else {
        match own {
            Some(target) => checked_against(k, sources, target),
            None => if table_refusal(d, k.to_table) is Some {
                key_refused(table_refusal(d, k.to_table))
            } else {
                checked_against(k, sources, target_of(d, k.to_table))
            },
        }
    }
}

pub(crate) fn find_repeated(names: &Vec<String>) -> (r: usize)
    ensures
        r == first_repeated(names.deep_view(), 0),
        r <= names.len(),
{
    let ghost list = names.deep_view();
    let mut seen: Vec<String> = Vec::new();
    let mut i: usize = 0;
    assert(seen.deep_view() =~= list.take(0));
    while i < names.len()
        invariant
            i <= names.len(),
            list == names.deep_view(),
            seen.deep_view() == list.take(i as int),
            first_repeated(list, 0) == first_repeated(list, i as nat),
        decreases names.len() - i,
    {
        assert(list[i as int] == names@[i as int]@);
        if vec_contains(&seen, &names[i]) {
            return i;
        }
        let ghost before = seen.deep_view();
        seen.push(names[i].clone());
        assert(seen.deep_view() =~= before.push(list[i as int]));
        assert(list.take(i + 1) =~= list.take(i as int).push(list[i as int]));
        i = i + 1;
    }
    i
}

fn has_key_column_named(columns: &Vec<KeyColumn>, name: &String) -> (r: bool)
    ensures
        r == has_key_column(columns.deep_view(), name@),
{
    let is = |c: &KeyColumn| -> (b: bool)
        ensures
            b == (c@.name == name@),
        { c.name == *name };
    vec_any(columns, is, Ghost(|c: KeyColumnView| c.name == name@))
}

fn find_missing(names: &Vec<String>, columns: &Vec<KeyColumn>) -> (r: usize)
    ensures
        r == first_missing(names.deep_view(), columns.deep_view(), 0),
        r <= names.len(),
{
    let mut i: usize = 0;
    while i < names.len()
        invariant
            i <= names.len(),
            first_missing(names.deep_view(), columns.deep_view(), 0) == first_missing(names.deep_view(), columns.deep_view(), i as nat),
        decreases names.len() - i,
    {
        assert(names.deep_view()[i as int] == names@[i as int]@);
        if !has_key_column_named(columns, &names[i]) {
            return i;
        }
        i = i + 1;
    }
    i
}

fn shape_refusal_of(k: &KeyUse) -> (r: Option<Refusal>)
    ensures
        r.deep_view() == shape_refusal(k@),
{
    let shown = k.table.show();
    if k.from_columns.len() == 0 {
        return Some(Refusal::Conflict(join3("foreign key on relation '", &shown, "' has no source columns")));
    }
    if k.to_columns.len() > 0 && k.from_columns.len() != k.to_columns.len() {
        let tail = join2(&to_decimal(k.to_columns.len() as u128), " referenced columns");
        let head = join5("foreign key on '", &shown, "' has ", &to_decimal(k.from_columns.len() as u128), " source columns but ");
        return Some(Refusal::Conflict(join2(&head, &tail)));
    }
    let source = find_repeated(&k.from_columns);
    if source < k.from_columns.len() {
        assert(k.from_columns.deep_view()[source as int] == k.from_columns@[source as int]@);
        return Some(Refusal::Conflict(join5("foreign key on '", &shown, "' repeats source column '", &k.from_columns[source], "'")));
    }
    let target = find_repeated(&k.to_columns);
    if target < k.to_columns.len() {
        assert(k.to_columns.deep_view()[target as int] == k.to_columns@[target as int]@);
        return Some(Refusal::Conflict(join5("foreign key on '", &shown, "' repeats referenced column '", &k.to_columns[target], "'")));
    }
    None
}

fn source_refusal_of(k: &KeyUse, sources: &Vec<KeyColumn>, sources_known: bool) -> (r: Option<Refusal>)
    ensures
        r.deep_view() == source_refusal(k@, sources.deep_view(), sources_known),
{
    let i = find_missing(&k.from_columns, sources);
    if sources_known && i < k.from_columns.len() {
        assert(k.from_columns.deep_view()[i as int] == k.from_columns@[i as int]@);
        return Some(
            Refusal::Conflict(join5("foreign key column '", &k.from_columns[i], "' does not exist on relation '", &k.table.show(), "'")),
        );
    }
    None
}

fn target_refusal_of(k: &KeyUse, target: &KeyTarget) -> (r: Option<Refusal>)
    ensures
        r.deep_view() == target_refusal(k@, target@),
{
    let i = find_missing(&k.to_columns, &target.columns);
    if target.columns_known && i < k.to_columns.len() {
        assert(k.to_columns.deep_view()[i as int] == k.to_columns@[i as int]@);
        return Some(
            Refusal::Conflict(
                join5("foreign key references column '", &k.to_table.show(), ".", &k.to_columns[i], "' which does not exist"),
            ),
        );
    }
    None
}

fn primary_keys_of(keys: &Vec<(Vec<String>, bool)>) -> (r: Vec<(Vec<String>, bool)>)
    ensures
        r.deep_view() == primary_keys(keys.deep_view()),
{
    let is = |key: &(Vec<String>, bool)| -> (b: bool)
        ensures
            b == key.deep_view().1,
        { key.1 };
    crate::collections::vec_filter(keys, is, Ghost(|key: KeyView| key.1))
}

fn referenced_columns_of(k: &KeyUse, keys: &Option<Vec<(Vec<String>, bool)>>) -> (r: Vec<String>)
    ensures
        r.deep_view() == referenced_columns(k@, keys.deep_view()),
{
    if k.to_columns.len() > 0 {
        return k.to_columns.dup();
    }
    if let Some(list) = keys {
        let primary = primary_keys_of(list);
        if primary.len() > 0 {
            assert(primary.deep_view()[0] == primary@[0].deep_view());
            return primary[0].0.dup();
        }
    }
    let r: Vec<String> = Vec::new();
    assert(r.deep_view() =~= Seq::<Seq<char>>::empty());
    r
}

fn same_names(a: &Vec<String>, b: &Vec<String>) -> (r: bool)
    ensures
        r == (a.deep_view() == b.deep_view()),
{
    if a.len() != b.len() {
        assert(a.deep_view().len() != b.deep_view().len());
        return false;
    }
    let mut i: usize = 0;
    while i < a.len()
        invariant
            i <= a.len(),
            a.len() == b.len(),
            forall|j: int| 0 <= j < i ==> #[trigger] a.deep_view()[j] == b.deep_view()[j],
        decreases a.len() - i,
    {
        assert(a.deep_view()[i as int] == a@[i as int]@);
        assert(b.deep_view()[i as int] == b@[i as int]@);
        if !(a[i] == b[i]) {
            assert(a.deep_view()[i as int] != b.deep_view()[i as int]);
            return false;
        }
        i = i + 1;
    }
    assert(a.deep_view() =~= b.deep_view());
    true
}

fn key_refusal_of(k: &KeyUse, keys: &Option<Vec<(Vec<String>, bool)>>) -> (r: Option<Refusal>)
    ensures
        r.deep_view() == key_refusal(k@, keys.deep_view()),
{
    if let Some(list) = keys {
        if k.to_columns.len() == 0 && primary_keys_of(list).len() != 1 {
            return Some(
                Refusal::Conflict(
                    join5(
                        "foreign key on '",
                        &k.table.show(),
                        "' omits referenced columns but target '",
                        &k.to_table.show(),
                        "' has no single primary key",
                    ),
                ),
            );
        }
        let columns = referenced_columns_of(k, keys);
        let is = |key: &(Vec<String>, bool)| -> (b: bool)
            ensures
                b == (key.deep_view().0 == columns.deep_view()),
            { same_names(&key.0, &columns) };
        if !vec_any(list, is, Ghost(|key: KeyView| key.0 == columns.deep_view())) {
            return Some(
                Refusal::Conflict(
                    join5(
                        "foreign key on '",
                        &k.table.show(),
                        "' references columns on '",
                        &k.to_table.show(),
                        "' that are not backed by a primary key or unique key",
                    ),
                ),
            );
        }
    }
    None
}

fn find_key_column<'a>(columns: &'a Vec<KeyColumn>, name: &String) -> (r: Option<&'a KeyColumn>)
    ensures
        match r {
            Some(c) => key_column(columns.deep_view(), name@) == Some(c@),
            None => key_column(columns.deep_view(), name@) is None,
        },
{
    let ghost s = columns.deep_view();
    let mut i: usize = 0;
    assert(s.skip(0) =~= s);
    while i < columns.len()
        invariant
            i <= columns.len(),
            s == columns.deep_view(),
            key_column(s, name@) == key_column(s.skip(i as int), name@),
        decreases columns.len() - i,
    {
        proof {
            assert(s[i as int] == columns@[i as int]@);
            assert(s.skip(i as int)[0] == s[i as int]);
            assert(s.skip(i as int).drop_first() =~= s.skip(i + 1));
        }
        if columns[i].name == *name {
            return Some(&columns[i]);
        }
        i = i + 1;
    }
    None
}

fn match_types(source: Option<&KeyColumn>, target: Option<&KeyColumn>) -> (r: TypeMatch)
    ensures
        r == type_match(
            match source {
                Some(c) => Some(c@),
                None => None,
            },
            match target {
                Some(c) => Some(c@),
                None => None,
            },
        ),
{
    match (source, target) {
        (Some(a), Some(b)) => {
            if let (Some(x), Some(y)) = (&a.type_id, &b.type_id) {
                return if x.same(y) {
                    TypeMatch::Same
                } else {
                    TypeMatch::Different
                };
            }
            if let (Some(x), Some(y)) = (&a.data_type, &b.data_type) {
                return if eq_ignore_ascii_case(&trim(x), &trim(y)) {
                    TypeMatch::Same
                } else {
                    TypeMatch::Different
                };
            }
            TypeMatch::Unknown
        },
        _ => TypeMatch::Unknown,
    }
}

/// Whether some types differ, and whether some cannot be compared.
fn compare_types(k: &KeyUse, columns: &Vec<String>, sources: &Vec<KeyColumn>, target: &KeyTarget) -> (r: (bool, bool))
    ensures
        ({
            let n = k@.from_columns.len();
            &&& r.0 == some_type_is(k@, columns.deep_view(), sources.deep_view(), target@, TypeMatch::Different, n)
            &&& r.1 == some_type_is(k@, columns.deep_view(), sources.deep_view(), target@, TypeMatch::Unknown, n)
        }),
{
    let ghost v = k@;
    let ghost names = columns.deep_view();
    let ghost own = sources.deep_view();
    let ghost to = target@;
    let mut different = false;
    let mut unknown = false;
    let mut i: usize = 0;
    while i < k.from_columns.len() && i < columns.len()
        invariant
            i <= k.from_columns.len(),
            i <= columns.len(),
            v == k@,
            names == columns.deep_view(),
            own == sources.deep_view(),
            to == target@,
            different == some_type_is(v, names, own, to, TypeMatch::Different, i as nat),
            unknown == some_type_is(v, names, own, to, TypeMatch::Unknown, i as nat),
        decreases k.from_columns.len() - i,
    {
        let source = find_key_column(sources, &k.from_columns[i]);
        let referenced = find_key_column(&target.columns, &columns[i]);
        let m = match_types(source, referenced);
        proof {
            assert(v.from_columns[i as int] == k.from_columns@[i as int]@);
            assert(names[i as int] == columns@[i as int]@);
            assert(type_match_at(v, names, own, to, i as int) == m);
            lemma_some_type(v, names, own, to, TypeMatch::Different, i as nat);
            lemma_some_type(v, names, own, to, TypeMatch::Unknown, i as nat);
        }
        match m {
            TypeMatch::Different => {
                different = true;
            },
            TypeMatch::Unknown => {
                unknown = true;
            },
            TypeMatch::Same => {},
        }
        i = i + 1;
    }
    (different, unknown)
}

proof fn lemma_some_type(k: KeyUseView, columns: Seq<Seq<char>>, sources: Seq<KeyColumnView>, target: KeyTargetView, m: TypeMatch, n: nat)
    requires
        n < k.from_columns.len(),
        n < columns.len(),
    ensures
        some_type_is(k, columns, sources, target, m, n + 1) == (some_type_is(k, columns, sources, target, m, n) || type_match_at(
            k,
            columns,
            sources,
            target,
            n as int,
        ) == m),
{
    if some_type_is(k, columns, sources, target, m, n + 1) && type_match_at(k, columns, sources, target, n as int) != m {
        let i = choose|i: int|
            0 <= i < n + 1 && 0 <= i < k.from_columns.len() && 0 <= i < columns.len() && #[trigger] type_match_at(k, columns, sources, target, i) == m;
        assert(type_match_at(k, columns, sources, target, i) == m);
    }
}

fn refused_key(refusal: Option<Refusal>) -> (r: KeyCheck)
    ensures
        r@ == key_refused(refusal.deep_view()),
{
    let columns: Vec<String> = Vec::new();
    assert(columns.deep_view() =~= Seq::<Seq<char>>::empty());
    KeyCheck { refusal, columns, gap: false }
}

fn check_against(k: &KeyUse, sources: &Vec<KeyColumn>, target: &KeyTarget) -> (r: KeyCheck)
    ensures
        r@ == checked_against(k@, sources.deep_view(), target@),
{
    let refusal = target_refusal_of(k, target);
    if refusal.is_some() {
        return refused_key(refusal);
    }
    let refusal = key_refusal_of(k, &target.keys);
    if refusal.is_some() {
        return refused_key(refusal);
    }
    let columns = referenced_columns_of(k, &target.keys);
    let (different, unknown) = compare_types(k, &columns, sources, target);
    if different {
        return refused_key(Some(Refusal::Uncovered));
    }
    KeyCheck { refusal: None, columns, gap: target.keys.is_none() || unknown }
}

pub(crate) fn key_columns_from(columns: &Vec<Column>) -> (r: Vec<KeyColumn>)
    ensures
        r.deep_view() == key_columns_of(columns.deep_view()),
{
    let make = |c: &Column| -> (x: KeyColumn)
        ensures
            x@ == (KeyColumnView { name: c@.name, type_id: c@.type_id, data_type: c@.data_type }),
        { KeyColumn { name: c.name.clone(), type_id: c.type_id.dup(), data_type: c.data_type.dup() } };
    vec_map(columns, make, Ghost(|c: ColumnView| KeyColumnView { name: c.name, type_id: c.type_id, data_type: c.data_type }))
}

fn key_from_edge(e: &DependencyEdge) -> (r: (Vec<String>, bool))
    ensures
        r.deep_view() == key_of_edge(e@),
{
    match &e.kind {
        DependencyKind::ConstraintOnRelation { columns, is_primary, .. } => (columns.dup(), *is_primary),
        _ => {
            let none: Vec<String> = Vec::new();
            assert(none.deep_view() =~= Seq::<Seq<char>>::empty());
            (none, false)
        },
    }
}

impl AnalysisState {
    fn known_keys(&self, table: &ObjectId) -> (r: Vec<(Vec<String>, bool)>)
        ensures
            r.deep_view() == known_keys(self@.data.graph, table@),
    {
        let is = |e: &DependencyEdge| -> (b: bool)
            ensures
                b == is_key_edge(e@, table@),
            {
                e.dependent.same(table) && match &e.kind {
                    DependencyKind::ConstraintOnRelation { columns, .. } => columns.len() > 0,
                    _ => false,
                }
            };
        let edges = crate::collections::vec_filter(self.graph().edges(), is, Ghost(|e: DependencyEdgeView| is_key_edge(e, table@)));
        let make = |e: &DependencyEdge| -> (x: (Vec<String>, bool))
            ensures
                x.deep_view() == key_of_edge(e@),
            { key_from_edge(e) };
        vec_map(&edges, make, Ghost(|e: DependencyEdgeView| key_of_edge(e)))
    }

    fn has_open_key(&self, table: &ObjectId) -> (r: bool)
        ensures
            r == has_open_key(self@.data, table@),
    {
        proof {
            reveal(data_of);
        }
        let open = |e: &DependencyEdge| -> (b: bool)
            ensures
                b == is_open_key_edge(e@, table@),
            {
                e.dependent.same(table) && match &e.kind {
                    DependencyKind::ConstraintOnRelation { columns, .. } => columns.len() == 0,
                    DependencyKind::IndexOnRelation { is_unique, .. } => *is_unique,
                    _ => false,
                }
            };
        if self.graph().any_edge(open, Ghost(|e: DependencyEdgeView| is_open_key_edge(e, table@))) {
            return true;
        }
        let is = |key: &(ObjectId, String), c: &ConstraintState| -> (b: bool)
            ensures
                b == is_key_constraint(key.deep_view(), c.deep_view(), table@),
            {
                key.0.same(table) && match c.kind {
                    ConstraintKind::PrimaryKey => true,
                    ConstraintKind::Unique => true,
                    _ => false,
                }
            };
        let ghost p = |key: (ObjectIdView, Seq<char>), c: ConstraintStateView| is_key_constraint(key, c, table@);
        let r = self.local.constraints.any(is, Ghost(p));
        proof {
            let m = self@.data.constraints;
            if r {
                let key = choose|key: (ObjectIdView, Seq<char>)| #[trigger] self.local.constraints@.dom().contains(key) && p(key, self.local.constraints@[key]);
                assert(m.dom().contains(key) && is_key_constraint(key, m[key], table@));
            } else {
                assert forall|key: (ObjectIdView, Seq<char>)| #[trigger] m.dom().contains(key) implies !is_key_constraint(key, m[key], table@) by {
                    assert(!p(key, self.local.constraints@[key]));
                }
            }
        }
        r
    }

    pub(crate) fn unique_keys_for_relation(&self, id: &ObjectId) -> (r: Option<Vec<(Vec<String>, bool)>>)
        ensures
            r.deep_view() == unique_keys(self@.data, id@),
    {
        proof {
            reveal(unique_keys);
        }
        let table = self.graph().resolve_rename(id);
        let empty = match self.present_relation(table) {
            Some(relation) => relation.columns.len() == 0,
            None => false,
        };
        if self.baseline_relation_is_known(table) && empty {
            return None;
        }
        let keys = self.known_keys(table);
        if keys.len() > 0 {
            return Some(keys);
        }
        if self.has_open_key(table) {
            return None;
        }
        assert(keys.deep_view() =~= Seq::<KeyView>::empty());
        Some(keys)
    }

    fn key_target(&self, id: &ObjectId) -> (r: KeyTarget)
        requires
            present(self@.data.relations, id@),
        ensures
            r@ == target_of(self@.data, id@),
    {
        let columns = match self.present_relation(id) {
            Some(relation) => key_columns_from(&relation.columns),
            None => Vec::new(),
        };
        let columns_known = !self.baseline_relation_is_known(id) || columns.len() > 0;
        KeyTarget { columns, columns_known, keys: self.unique_keys_for_relation(id) }
    }

    /// Checks a foreign key. `own` describes the table itself where the key
    /// refers to the table that is being created.
    pub(crate) fn check_foreign_key(&self, k: &KeyUse, sources: &Vec<KeyColumn>, sources_known: bool, own: Option<&KeyTarget>) -> (r: KeyCheck)
        ensures
            r@ == key_checked(
                self@.data,
                k@,
                sources.deep_view(),
                sources_known,
                match own {
                    Some(target) => Some(target@),
                    None => None,
                },
            ),
    {
        proof {
            reveal(key_checked);
        }
        let refusal = shape_refusal_of(k);
        if refusal.is_some() {
            return refused_key(refusal);
        }
        let refusal = source_refusal_of(k, sources, sources_known);
        if refusal.is_some() {
            return refused_key(refusal);
        }
        match own {
            Some(target) => check_against(k, sources, target),
            None => {
                let shown = k.to_table.show();
                let refusal = self.relation_refusal(
                    &k.to_table,
                    RelationFilter::Table,
                    join3("foreign key references relation '", &shown, "' which does not exist"),
                    join3("foreign key references '", &shown, "' which is not a table"),
                );
                if refusal.is_some() {
                    return refused_key(refusal);
                }
                check_against(k, sources, &self.key_target(&k.to_table))
            },
        }
    }
}

} // verus!
