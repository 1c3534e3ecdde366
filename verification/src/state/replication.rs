//! Publications and subscriptions: their objects and their options.
use crate::cache::CatalogFamily;
use crate::collections::{vec_any, vec_filter, Dup, Key};
use crate::evidence::{EvidenceCode, EvidenceScope};
use crate::facts::{AttributeFact, AttributeFactView, PublicationObjectFact, PublicationObjectFactView, PublicationScope, PublicationScopeView};
use crate::graph::{edge, resolved, DependencyEdge, DependencyEdgeView, DependencyGraph, DependencyKind, DependencyKindView};
use crate::identifiers::{object, ObjectId, ObjectIdView};
use crate::model::column_action::has_column;
use crate::model::relation::{Persistence, RelationKind, RelationState, RelationStateView};
use crate::model::replication::{SubscriptionState, SubscriptionStateView};
use crate::model::Overlay;
use crate::state::journal::{group_kept, kept, kept_as, tainted, tainted_if, EdgeUndo};
use crate::state::lookup::{covers_family, dropped, first_schema, present, relation_id, schema_absence_is_authoritative, state_of};
use crate::state::{data_of, AnalysisState, StateData};
use crate::text::{ascii_lowercase, eq_ignore_ascii_case, join2, join3, join5, starts_with, text_eq, to_ascii_lowercase, trim, trimmed};
use vstd::prelude::*;

verus! {

broadcast use group_kept;

/// What two objects of one publication share where they are the same.
pub open spec fn object_key(d: StateData, o: PublicationObjectFactView) -> Seq<char> {
    match o {
        PublicationObjectFactView::Table { name, .. } => "table\0"@ + relation_id(d, name).shown(),
        PublicationObjectFactView::SchemaTables { schema, .. } => "schema\0"@ + schema,
        PublicationObjectFactView::CurrentSchemaShorthand => "schema\0"@ + first_schema(d),
        PublicationObjectFactView::Unknown => "unknown"@,
    }
}

pub open spec fn scope_objects(scope: PublicationScopeView) -> Seq<PublicationObjectFactView> {
    match scope {
        PublicationScopeView::Explicit(objects) => objects,
        _ => Seq::empty(),
    }
}

/// What is wrong with the column list of a published table.
pub open spec fn column_fault(columns: Seq<Seq<char>>, relation: RelationStateView, id: ObjectIdView, i: nat) -> Option<Seq<char>>
    decreases columns.len() - i,
{
    if i >= columns.len() {
        None
    } else if columns.take(i as int).contains(columns[i as int]) {
        Some("publication lists column '"@ + columns[i as int] + "' more than once for '"@ + id.shown() + "'"@)
    } else if !has_column(relation.columns, columns[i as int]) {
        Some("publication column '"@ + id.shown() + "."@ + columns[i as int] + "' does not exist"@)
    } else {
        column_fault(columns, relation, id, i + 1)
    }
}

pub open spec fn is_permanent_table(r: RelationStateView) -> bool {
    r.kind is Table && r.persistence is Permanent
}

/// What is wrong with a published object.
pub open spec fn object_fault(d: StateData, o: PublicationObjectFactView) -> Option<Seq<char>> {
    match o {
        PublicationObjectFactView::Table { name, columns, .. } => {
            let id = relation_id(d, name);
            if present(d.relations, id) {
                if is_permanent_table(state_of(d.relations, id)) {
                    match columns {
                        Some(columns) => column_fault(columns, state_of(d.relations, id), id, 0),
                        None => None,
                    }
                } else {
                    Some("publication target '"@ + id.shown() + "' is not a permanent table"@)
                }
            } else if dropped(d.relations, id) || covers_family(d, id, CatalogFamily::Relations) {
                Some("publication table '"@ + id.shown() + "' does not exist"@)
            } else {
                None
            }
        },
        PublicationObjectFactView::SchemaTables { schema, .. } => if !present(d.schemas, schema) && schema_absence_is_authoritative(d, schema) {
            Some("publication schema '"@ + schema + "' does not exist"@)
        } else {
            None
        },
        _ => None,
    }
}

/// The gap that a published object without fault leaves.
pub open spec fn object_gap(d: StateData, o: PublicationObjectFactView) -> Option<EvidenceCode> {
    match o {
        PublicationObjectFactView::Table { name, .. } => if present(d.relations, relation_id(d, name)) {
            None
        } else {
            Some(EvidenceCode::CatalogCoverageIncomplete)
        },
        PublicationObjectFactView::SchemaTables { schema, .. } => if present(d.schemas, schema) {
            None
        } else {
            Some(EvidenceCode::CatalogCoverageIncomplete)
        },
        PublicationObjectFactView::CurrentSchemaShorthand => Some(EvidenceCode::CatalogCoverageIncomplete),
        PublicationObjectFactView::Unknown => Some(EvidenceCode::UnsupportedSemantics),
    }
}

pub open spec fn repeats(d: StateData, objects: Seq<PublicationObjectFactView>, i: nat) -> bool {
    exists|j: int| 0 <= j < i && object_key(d, #[trigger] objects[j]) == object_key(d, objects[i as int])
}

pub open spec fn with_gap(d: StateData, gap: Option<EvidenceCode>) -> StateData {
    match gap {
        Some(code) => tainted(d, code, EvidenceScope::Chain),
        None => d,
    }
}

/// What checking the objects of a publication from the `i`-th on leads to: the
/// gaps that it leaves, and the first fault.
pub open spec fn objects_checked(d: StateData, objects: Seq<PublicationObjectFactView>, i: nat) -> (StateData, Option<Seq<char>>)
    decreases objects.len() - i,
{
    if i >= objects.len() {
        (d, None)
    } else if repeats(d, objects, i) {
        (d, Some("publication contains the same object more than once"@))
    } else if object_fault(d, objects[i as int]) is Some {
        (d, object_fault(d, objects[i as int]))
    } else {
        objects_checked(with_gap(d, object_gap(d, objects[i as int])), objects, i + 1)
    }
}

/// Whether what a published object stands for depends on inheritance.
pub open spec fn needs_inheritance(d: StateData, o: PublicationObjectFactView) -> bool {
    match o {
        PublicationObjectFactView::Table { name, only, include_partitions, .. } => {
            let id = relation_id(d, name);
            (!only || include_partitions) && (!(present(d.relations, id) && state_of(d.relations, id).generation > 0) || has_partitions(d, id))
        },
        PublicationObjectFactView::SchemaTables { .. } => true,
        PublicationObjectFactView::CurrentSchemaShorthand => true,
        PublicationObjectFactView::Unknown => false,
    }
}

pub open spec fn is_partition_of(g: Seq<DependencyEdgeView>, e: DependencyEdgeView, id: ObjectIdView) -> bool {
    e.kind is PartitionOf && resolved(g, e.referenced) == resolved(g, id)
}

pub open spec fn has_partitions(d: StateData, id: ObjectIdView) -> bool {
    exists|i: int| 0 <= i < d.graph.len() && is_partition_of(d.graph, #[trigger] d.graph[i], id)
}

pub open spec fn some_needs_inheritance(d: StateData, objects: Seq<PublicationObjectFactView>) -> bool {
    exists|i: int| 0 <= i < objects.len() && needs_inheritance(d, #[trigger] objects[i])
}

pub open spec fn scope_needs_inheritance(d: StateData, scope: PublicationScopeView) -> bool {
    match scope {
        PublicationScopeView::AllTables { .. } => true,
        PublicationScopeView::Explicit(objects) => some_needs_inheritance(d, objects),
    }
}

pub open spec fn is_edge_of(e: DependencyEdgeView, publication: Seq<char>) -> bool {
    match e.kind {
        DependencyKindView::PublicationIncludes { publication_name } => publication_name == publication,
        _ => false,
    }
}

/// The edges of the first `n` objects of a publication.
pub open spec fn publication_edges(d: StateData, publication: Seq<char>, objects: Seq<PublicationObjectFactView>, n: nat) -> Seq<DependencyEdgeView>
    decreases n,
{
    if n == 0 {
        Seq::empty()
    } else {
        let before = publication_edges(d, publication, objects, (n - 1) as nat);
        match objects[n - 1] {
            PublicationObjectFactView::Table { name, .. } => before.push(
                edge(relation_id(d, name), object("public"@, publication), DependencyKindView::PublicationIncludes { publication_name: publication }),
            ),
            _ => before,
        }
    }
}

/// The edges after a publication was given other objects.
pub open spec fn publication_edges_replaced(d: StateData, publication: Seq<char>, scope: PublicationScopeView) -> Seq<DependencyEdgeView> {
    let objects = scope_objects(scope);
    d.graph.filter(|e: DependencyEdgeView| !is_edge_of(e, publication)) + publication_edges(d, publication, objects, objects.len())
}

// ---------------------------------------------------------------------------
// Options
// ---------------------------------------------------------------------------

pub open spec fn given(params: Option<&Vec<AttributeFact>>) -> Option<Seq<AttributeFactView>> {
    match params {
        Some(list) => Some(list.deep_view()),
        None => None,
    }
}

pub open spec fn names_option(o: AttributeFactView, name: Seq<char>) -> bool {
    ascii_lowercase(o.name) == ascii_lowercase(name)
}

/// The last option with a name among the first `n`.
pub open spec fn last_option(params: Seq<AttributeFactView>, name: Seq<char>, n: nat) -> Option<Seq<char>>
    decreases n,
{
    if n == 0 {
        None
    } else if names_option(params[n - 1], name) {
        Some(params[n - 1].value)
    } else {
        last_option(params, name, (n - 1) as nat)
    }
}

pub open spec fn option_value(params: Option<Seq<AttributeFactView>>, name: Seq<char>) -> Option<Seq<char>> {
    match params {
        Some(params) => last_option(params, name, params.len()),
        None => None,
    }
}

/// How many of the spellings of a boolean start with a text.
pub open spec fn spellings(v: Seq<char>) -> int {
    (if v.is_prefix_of("true"@) { 1int } else { 0 }) + (if v.is_prefix_of("yes"@) { 1int } else { 0 }) + (if v.is_prefix_of("on"@) { 1int } else { 0 }) + (
    if v.is_prefix_of("false"@) { 1int } else { 0 }) + (if v.is_prefix_of("no"@) { 1int } else { 0 }) + (if v.is_prefix_of("off"@) { 1int } else { 0 })
}

/// The boolean that PostgreSQL reads in a text: `1`, `0`, or a prefix of
/// exactly one of `true`, `yes`, `on`, `false`, `no` and `off`.
pub open spec fn boolean_of(text: Seq<char>) -> Option<bool> {
    let v = ascii_lowercase(trimmed(text));
    if v == "1"@ {
        Some(true)
    } else if v == "0"@ {
        Some(false)
    } else if v == ""@ {
        None
    } else if spellings(v) == 1 {
        Some(v.is_prefix_of("true"@) || v.is_prefix_of("yes"@) || v.is_prefix_of("on"@))
    } else {
        None
    }
}

pub open spec fn is_one_of(o: AttributeFactView, names: Seq<Seq<char>>) -> bool {
    exists|i: int| 0 <= i < names.len() && names_option(o, #[trigger] names[i])
}

/// The first option that should be boolean and is not.
pub open spec fn option_fault(params: Seq<AttributeFactView>, names: Seq<Seq<char>>, i: nat) -> Option<Seq<char>>
    decreases params.len() - i,
{
    if i >= params.len() {
        None
    } else if is_one_of(params[i as int], names) && boolean_of(params[i as int].value) is None {
        Some("subscription option '"@ + params[i as int].name + "' requires a PostgreSQL boolean value"@)
    } else {
        option_fault(params, names, i + 1)
    }
}

/// The options after one was set: earlier ones with its name are gone.
pub open spec fn option_set(params: Option<Seq<AttributeFactView>>, o: AttributeFactView) -> Seq<AttributeFactView> {
    match params {
        Some(params) => params.filter(|x: AttributeFactView| !names_option(x, o.name)).push(o),
        None => seq![o],
    }
}

/// An option that was set is what is read back.
pub proof fn law_set_option_is_read_back(params: Option<Seq<AttributeFactView>>, o: AttributeFactView)
    ensures
        option_value(Some(option_set(params, o)), o.name) == Some(o.value),
{
    let after = option_set(params, o);
    assert(after[after.len() - 1] == o);
}

fn find_column_fault(columns: &Vec<String>, relation: &RelationState, id: &ObjectId) -> (r: Option<String>)
    ensures
        r.deep_view() == column_fault(columns.deep_view(), relation@, id@, 0),
{
    let ghost s = columns.deep_view();
    let mut i: usize = 0;
    while i < columns.len()
        invariant
            i <= columns.len(),
            s == columns.deep_view(),
            column_fault(s, relation@, id@, 0) == column_fault(s, relation@, id@, i as nat),
        decreases columns.len() - i,
    {
        assert(s[i as int] == columns@[i as int]@);
        if occurs_before(columns, i) {
            return Some(join5("publication lists column '", &columns[i], "' more than once for '", &id.show(), "'"));
        }
        if !relation.has_column(&columns[i]) {
            return Some(join5("publication column '", &id.show(), ".", &columns[i], "' does not exist"));
        }
        i = i + 1;
    }
    None
}

fn occurs_before(names: &Vec<String>, n: usize) -> (b: bool)
    requires
        n < names.len(),
    ensures
        b == names.deep_view().take(n as int).contains(names.deep_view()[n as int]),
{
    let ghost s = names.deep_view();
    assert(s[n as int] == names@[n as int]@);
    let mut j: usize = 0;
    while j < n
        invariant
            j <= n,
            n < names.len(),
            s == names.deep_view(),
            s[n as int] == names@[n as int]@,
            forall|k: int| 0 <= k < j ==> s[k] != s[n as int],
        decreases n - j,
    {
        assert(s[j as int] == names@[j as int]@);
        if names[j] == names[n] {
            assert(s.take(n as int)[j as int] == s[n as int]);
            return true;
        }
        j = j + 1;
    }
    false
}

impl AnalysisState {
    pub fn publication_object_key(&self, o: &PublicationObjectFact) -> (r: String)
        ensures
            r@ == object_key(self@.data, o@),
    {
        proof {
            reveal(data_of);
        }
        match o {
            PublicationObjectFact::Table { name, .. } => join2("table\0", &self.resolve_relation_id(name).show()),
            PublicationObjectFact::SchemaTables { schema, .. } => join2("schema\0", schema),
            PublicationObjectFact::CurrentSchemaShorthand => {
                join2("schema\0", &self.first_schema())
            },
            PublicationObjectFact::Unknown => "unknown".to_owned(),
        }
    }

    fn repeats_object(&self, objects: &Vec<PublicationObjectFact>, i: usize) -> (b: bool)
        requires
            i < objects.len(),
        ensures
            b == repeats(self@.data, objects.deep_view(), i as nat),
    {
        let ghost d = self@.data;
        let ghost s = objects.deep_view();
        assert(s[i as int] == objects@[i as int]@);
        let key = self.publication_object_key(&objects[i]);
        let mut j: usize = 0;
        while j < i
            invariant
                j <= i,
                i < objects.len(),
                d == self@.data,
                s == objects.deep_view(),
                key@ == object_key(d, s[i as int]),
                forall|k: int| 0 <= k < j ==> object_key(d, #[trigger] s[k]) != key@,
            decreases i - j,
        {
            assert(s[j as int] == objects@[j as int]@);
            let other = self.publication_object_key(&objects[j]);
            if other == key {
                return true;
            }
            j = j + 1;
        }
        false
    }

    fn find_object_fault(&self, o: &PublicationObjectFact) -> (r: Option<String>)
        ensures
            r.deep_view() == object_fault(self@.data, o@),
    {
        proof {
            reveal(data_of);
        }
        match o {
            PublicationObjectFact::Table { name, columns, .. } => {
                let id = self.resolve_relation_id(name);
                match self.local.relations.get(&id) {
                    Some(Overlay::Present(relation)) => {
                        let is_table = matches!(relation.kind, RelationKind::Table);
                        let is_permanent = matches!(relation.persistence, Persistence::Permanent);
                        if is_table && is_permanent {
                            match columns {
                                Some(columns) => find_column_fault(columns, relation, &id),
                                None => None,
                            }
                        } else {
                            Some(join3("publication target '", &id.show(), "' is not a permanent table"))
                        }
                    },
                    Some(Overlay::Dropped) => Some(join3("publication table '", &id.show(), "' does not exist")),
                    None => if self.baseline_covers_family_object(&id, CatalogFamily::Relations) {
                        Some(join3("publication table '", &id.show(), "' does not exist"))
                    } else {
                        None
                    },
                }
            },
            PublicationObjectFact::SchemaTables { schema, .. } => {
                if !self.schema_is_present(schema) && self.schema_absence_is_authoritative(schema) {
                    Some(join3("publication schema '", schema, "' does not exist"))
                } else {
                    None
                }
            },
            _ => None,
        }
    }

    fn find_object_gap(&self, o: &PublicationObjectFact) -> (r: Option<EvidenceCode>)
        ensures
            r == object_gap(self@.data, o@),
    {
        match o {
            PublicationObjectFact::Table { name, .. } => if self.relation_is_present(&self.resolve_relation_id(name)) {
                None
            } else {
                Some(EvidenceCode::CatalogCoverageIncomplete)
            },
            PublicationObjectFact::SchemaTables { schema, .. } => if self.schema_is_present(schema) {
                None
            } else {
                Some(EvidenceCode::CatalogCoverageIncomplete)
            },
            PublicationObjectFact::CurrentSchemaShorthand => Some(EvidenceCode::CatalogCoverageIncomplete),
            PublicationObjectFact::Unknown => Some(EvidenceCode::UnsupportedSemantics),
        }
    }

    /// Checks the objects of a publication, in order.
    pub fn validate_publication_scope(&mut self, scope: &PublicationScope) -> (r: Result<(), String>)
        ensures
            ({
                let (data, fault) = objects_checked(old(self)@.data, scope_objects(scope@), 0);
                &&& final(self)@.data == data
                &&& match r {
                    Ok(_) => fault is None,
                    Err(reason) => fault == Some(reason@),
                }
            }),
            kept(old(self)@, final(self)@),
    {
        if let PublicationScope::Explicit(objects) = scope {
            let ghost d = self@.data;
            let ghost s = objects.deep_view();
            let mut i: usize = 0;
            while i < objects.len()
                invariant
                    i <= objects.len(),
                    s == objects.deep_view(),
                    s == scope_objects(scope@),
                    d == old(self)@.data,
                    objects_checked(d, s, 0) == objects_checked(self@.data, s, i as nat),
                    kept(old(self)@, self@),
                decreases objects.len() - i,
            {
                assert(s[i as int] == objects@[i as int]@);
                if self.repeats_object(objects, i) {
                    return Err("publication contains the same object more than once".to_owned());
                }
                if let Some(reason) = self.find_object_fault(&objects[i]) {
                    return Err(reason);
                }
                if let Some(code) = self.find_object_gap(&objects[i]) {
                    self.taint(code, EvidenceScope::Chain);
                }
                i = i + 1;
            }
        }
        Ok(())
    }

    fn table_has_partitions(&self, id: &ObjectId) -> (b: bool)
        ensures
            b == has_partitions(self@.data, id@),
    {
        let graph = self.graph();
        let ghost g = self@.data.graph;
        let is = |e: &DependencyEdge| -> (b: bool)
            ensures
                b == is_partition_of(graph@, e@, id@),
            {
                match &e.kind {
                    DependencyKind::PartitionOf => graph.resolve_rename(&e.referenced).same(graph.resolve_rename(id)),
                    _ => false,
                }
            };
        let b = vec_any(graph.edges(), is, Ghost(|e: DependencyEdgeView| is_partition_of(g, e, id@)));
        proof {
            if b {
                let i = choose|i: int| 0 <= i < g.len() && is_partition_of(g, #[trigger] g[i], id@);
                assert(is_partition_of(g, g[i], id@));
            }
        }
        b
    }

    fn object_needs_inheritance(&self, o: &PublicationObjectFact) -> (b: bool)
        ensures
            b == needs_inheritance(self@.data, o@),
    {
        match o {
            PublicationObjectFact::Table { name, only, include_partitions, .. } => {
                if *only && !*include_partitions {
                    return false;
                }
                let id = self.resolve_relation_id(name);
                let is_new = match self.present_relation(&id) {
                    Some(relation) => relation.generation > 0,
                    None => false,
                };
                !is_new || self.table_has_partitions(&id)
            },
            PublicationObjectFact::SchemaTables { .. } => true,
            PublicationObjectFact::CurrentSchemaShorthand => true,
            PublicationObjectFact::Unknown => false,
        }
    }

    /// Whether what a publication holds depends on inheritance.
    pub fn publication_scope_needs_inheritance_knowledge(&self, scope: &PublicationScope) -> (b: bool)
        ensures
            b == scope_needs_inheritance(self@.data, scope@),
    {
        match scope {
            PublicationScope::AllTables { .. } => true,
            PublicationScope::Explicit(objects) => {
                let ghost d = self@.data;
                let needs = |o: &PublicationObjectFact| -> (b: bool)
                    ensures
                        b == needs_inheritance(self@.data, o@),
                    { self.object_needs_inheritance(o) };
                let ghost p = |o: PublicationObjectFactView| needs_inheritance(d, o);
                let b = vec_any(objects, needs, Ghost(p));
                proof {
                    let s = objects.deep_view();
                    assert(scope@ == PublicationScopeView::Explicit(s));
                    if exists|i: int| 0 <= i < s.len() && needs_inheritance(d, #[trigger] s[i]) {
                        let i = choose|i: int| 0 <= i < s.len() && needs_inheritance(d, #[trigger] s[i]);
                        assert(p(s[i]));
                    }
                    if b {
                        let i = choose|i: int| 0 <= i < s.len() && p(#[trigger] s[i]);
                        assert(needs_inheritance(d, s[i]));
                    }
                }
                b
            },
        }
    }

    pub fn taint_inheritance_sensitive_publication_scope(&mut self, scope: &PublicationScope)
        ensures
            final(self)@.data == tainted_if(
                old(self)@.data,
                scope_needs_inheritance(old(self)@.data, scope@),
                EvidenceCode::CatalogCoverageIncomplete,
                EvidenceScope::Chain,
            ),
            kept(old(self)@, final(self)@),
    {
        let gap = self.publication_scope_needs_inheritance_knowledge(scope);
        self.taint_if(gap, EvidenceCode::CatalogCoverageIncomplete, EvidenceScope::Chain);
    }

    fn add_publication_edges(&self, graph: &mut DependencyGraph, publication: &String, objects: &Vec<PublicationObjectFact>)
        ensures
            final(graph)@ == old(graph)@ + publication_edges(self@.data, publication@, objects.deep_view(), objects.deep_view().len()),
    {
        let ghost d = self@.data;
        let ghost before = graph@;
        let ghost s = objects.deep_view();
        let mut i: usize = 0;
        assert(graph@ =~= before + publication_edges(d, publication@, s, 0));
        while i < objects.len()
            invariant
                i <= objects.len(),
                d == self@.data,
                before == old(graph)@,
                s == objects.deep_view(),
                graph@ == before + publication_edges(d, publication@, s, i as nat),
            decreases objects.len() - i,
        {
            assert(s[i as int] == objects@[i as int]@);
            if let PublicationObjectFact::Table { name, .. } = &objects[i] {
                graph.add_edge(
                    DependencyEdge::new(
                        self.resolve_relation_id(name),
                        ObjectId::new("public", publication),
                        DependencyKind::PublicationIncludes { publication_name: publication.clone() },
                    ),
                );
            }
            assert(graph@ =~= before + publication_edges(d, publication@, s, (i + 1) as nat));
            i = i + 1;
        }
    }

    /// Gives a publication the edges of its objects in place of those it had.
    pub fn replace_publication_edges(&mut self, publication_name: &String, scope: &PublicationScope)
        ensures
            final(self)@.data == (StateData { graph: publication_edges_replaced(old(self)@.data, publication_name@, scope@), ..old(self)@.data }),
            kept_as(old(self)@, final(self)@, EdgeUndo::PutBack),
    {
        let ghost d = self@.data;
        let mut graph = self.graph().dup();
        let keep = |e: &DependencyEdge| -> (b: bool)
            ensures
                b == !is_edge_of(e@, publication_name@),
            {
                match &e.kind {
                    DependencyKind::PublicationIncludes { publication_name: name } => !(*name == *publication_name),
                    _ => true,
                }
            };
        graph.retain_matching(keep, Ghost(|e: DependencyEdgeView| !is_edge_of(e, publication_name@)));
        let ghost kept_edges = graph@;
        match scope {
            PublicationScope::Explicit(objects) => self.add_publication_edges(&mut graph, publication_name, objects),
            _ => {
                assert(kept_edges + Seq::<DependencyEdgeView>::empty() =~= kept_edges);
            },
        }
        assert(graph@ == publication_edges_replaced(d, publication_name@, scope@));
        self.set_graph(graph);
    }

    /// The value of an option: the last one given under its name.
    pub fn subscription_option<'a>(params: Option<&'a Vec<AttributeFact>>, name: &str) -> (r: Option<&'a String>)
        ensures
            match r {
                Some(value) => option_value(given(params), name@) == Some(value@),
                None => option_value(given(params), name@) is None,
            },
    {
        let list = match params {
            Some(list) => list,
            None => {
                return None;
            },
        };
        let ghost s = list.deep_view();
        let mut i: usize = list.len();
        while i > 0
            invariant
                i <= list.len(),
                s == list.deep_view(),
                given(params) == Some(s),
                last_option(s, name@, s.len()) == last_option(s, name@, i as nat),
            decreases i,
        {
            assert(s[i - 1] == list@[i - 1]@);
            if eq_ignore_ascii_case(&list[i - 1].name, name) {
                return Some(&list[i - 1].value);
            }
            i = i - 1;
        }
        None
    }

    /// The boolean that PostgreSQL reads in a text.
    pub fn postgres_boolean(value: &str) -> (r: Option<bool>)
        ensures
            r == boolean_of(value@),
    {
        let v = to_ascii_lowercase(&trim(value));
        if text_eq(&v, "1") {
            return Some(true);
        }
        if text_eq(&v, "0") {
            return Some(false);
        }
        if text_eq(&v, "") {
            return None;
        }
        let a = starts_with("true", &v);
        let b = starts_with("yes", &v);
        let c = starts_with("on", &v);
        let d = starts_with("false", &v);
        let e = starts_with("no", &v);
        let f = starts_with("off", &v);
        let n: u8 = one_if(a) + one_if(b) + one_if(c) + one_if(d) + one_if(e) + one_if(f);
        if n == 1 {
            Some(a || b || c)
        } else {
            None
        }
    }

    pub fn subscription_boolean_option(params: Option<&Vec<AttributeFact>>, name: &str) -> (r: Option<bool>)
        ensures
            r == (match option_value(given(params), name@) {
                Some(value) => boolean_of(value),
                None => None,
            }),
    {
        match AnalysisState::subscription_option(params, name) {
            Some(value) => AnalysisState::postgres_boolean(value),
            None => None,
        }
    }

    /// Checks that the options with the given names hold booleans.
    pub fn validate_subscription_boolean_options(params: Option<&Vec<AttributeFact>>, names: &Vec<String>) -> (r: Result<(), String>)
        ensures
            match (given(params), r) {
                (None, r) => r is Ok,
                (Some(params), Ok(_)) => option_fault(params, names.deep_view(), 0) is None,
                (Some(params), Err(reason)) => option_fault(params, names.deep_view(), 0) == Some(reason@),
            },
    {
        let list = match params {
            Some(list) => list,
            None => {
                return Ok(());
            },
        };
        let ghost s = list.deep_view();
        let ghost n = names.deep_view();
        let mut i: usize = 0;
        while i < list.len()
            invariant
                i <= list.len(),
                s == list.deep_view(),
                given(params) == Some(s),
                n == names.deep_view(),
                option_fault(s, n, 0) == option_fault(s, n, i as nat),
            decreases list.len() - i,
        {
            assert(s[i as int] == list@[i as int]@);
            let option = &list[i];
            if is_named(option, names) && AnalysisState::postgres_boolean(&option.value).is_none() {
                return Err(join3("subscription option '", &option.name, "' requires a PostgreSQL boolean value"));
            }
            i = i + 1;
        }
        Ok(())
    }

    /// Sets an option of a subscription.
    pub fn set_subscription_option(subscription: &mut SubscriptionState, option: &AttributeFact)
        ensures
            final(subscription)@ == (SubscriptionStateView {
                params: Some(option_set(old(subscription)@.params, option@)),
                ..old(subscription)@
            }),
    {
        let ghost before = subscription@;
        let mut list: Vec<AttributeFact> = match &subscription.params {
            Some(params) => {
                let keep = |x: &AttributeFact| -> (b: bool)
                    ensures
                        b == !names_option(x@, option@.name),
                    { !eq_ignore_ascii_case(&x.name, &option.name) };
                vec_filter(params, keep, Ghost(|x: AttributeFactView| !names_option(x, option@.name)))
            },
            None => Vec::new(),
        };
        let ghost kept_options = list.deep_view();
        list.push(option.dup());
        proof {
            assert(list.deep_view() =~= kept_options.push(option@));
            assert(list.deep_view() =~= option_set(before.params, option@));
        }
        subscription.params = Some(list);
    }
}

fn one_if(b: bool) -> (n: u8)
    ensures
        n == (if b {
            1u8
        } else {
            0u8
        }),
{
    if b {
        1
    } else {
        0
    }
}

fn is_named(option: &AttributeFact, names: &Vec<String>) -> (b: bool)
    ensures
        b == is_one_of(option@, names.deep_view()),
{
    let is = |name: &String| -> (b: bool)
        ensures
            b == names_option(option@, name@),
        { eq_ignore_ascii_case(&option.name, name) };
    let b = vec_any(names, is, Ghost(|name: Seq<char>| names_option(option@, name)));
    proof {
        let s = names.deep_view();
        if b {
            let i = choose|i: int| 0 <= i < s.len() && names_option(option@, #[trigger] s[i]);
            assert(names_option(option@, s[i]));
        }
    }
    b
}

} // verus!
