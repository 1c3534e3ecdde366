//! From statements as read to state transitions.
pub mod marks;
pub mod relation;
pub mod security;
pub mod statement;
pub mod types;

use crate::collections::vec_map;
use crate::facts::{ParamFact, ParamFactView};
use crate::identifiers::{object, Ident, ObjectId, ObjectIdView, QualifiedName, QualifiedNameView};
use crate::model::function::{FunctionOverlay, FunctionStateView};
use crate::model::Overlay;
use crate::resolver::marks::{bare_names, is_bare, marks_in};
use crate::state::lookup::{first_schema, present, relation_id};
use crate::state::{data_of, AnalysisState, StateData};
use crate::text::{
    chars_of, first_index, index_of, join2, join4, join_all, joined, lowercase_of, starts_with, text_eq, text_of, to_lowercase, trim, trimmed,
};
use vstd::prelude::*;

verus! {

/// Resolves the names of a statement against a state.
pub struct Resolver;

// ---------------------------------------------------------------------------
// Names
// ---------------------------------------------------------------------------

/// The object that a statement creates under a name.
pub open spec fn created_id(d: StateData, name: QualifiedNameView) -> ObjectIdView {
    object(
        match name.schema {
            Some(schema) => schema.resolved(),
            None => first_schema(d),
        },
        name.name.resolved(),
    )
}

/// Whether a routine is stored under a name, with or without parameter types.
pub open spec fn is_routine_named(id: ObjectIdView, schema: Seq<char>, name: Seq<char>) -> bool {
    id.schema == schema && (id.name == name || (name + "("@).is_prefix_of(id.name))
}

pub open spec fn has_routine_named(m: Map<ObjectIdView, Overlay<FunctionStateView>>, schema: Seq<char>, name: Seq<char>) -> bool {
    exists|id: ObjectIdView| #[trigger] m.dom().contains(id) && is_routine_named(id, schema, name)
}

/// Whether the state holds an entry for a relation, a type, a sequence or a
/// routine of this name, dropped ones among them.
pub open spec fn holds_name(d: StateData, schema: Seq<char>, name: Seq<char>) -> bool {
    d.relations.dom().contains(object(schema, name)) || d.types.dom().contains(object(schema, name)) || d.sequences.dom().contains(object(schema, name))
        || has_routine_named(d.functions, schema, name)
}

/// The first schema, from position `i` of the search path on, that holds the
/// name.
pub open spec fn schema_holding(d: StateData, name: Seq<char>, i: int) -> Seq<char>
    decreases d.search_path.len() - i,
{
    if i < 0 || i >= d.search_path.len() {
        first_schema(d)
    } else if holds_name(d, d.search_path[i], name) {
        d.search_path[i]
    } else {
        schema_holding(d, name, i + 1)
    }
}

/// The object that a name denotes.
pub open spec fn looked_up_id(d: StateData, name: QualifiedNameView) -> ObjectIdView {
    object(
        match name.schema {
            Some(schema) => schema.resolved(),
            None => schema_holding(d, name.name.resolved(), 0),
        },
        name.name.resolved(),
    )
}

/// The first schema, from position `i` of the search path on, that has the
/// type.
pub open spec fn schema_with_type(d: StateData, name: Seq<char>, i: int) -> Seq<char>
    decreases d.search_path.len() - i,
{
    if i < 0 || i >= d.search_path.len() {
        first_schema(d)
    } else if present(d.types, object(d.search_path[i], name)) {
        d.search_path[i]
    } else {
        schema_with_type(d, name, i + 1)
    }
}

/// The type that a name denotes.
pub open spec fn type_id(d: StateData, name: QualifiedNameView) -> ObjectIdView {
    object(
        match name.schema {
            Some(schema) => schema.resolved(),
            None => schema_with_type(d, name.name.resolved(), 0),
        },
        name.name.resolved(),
    )
}

/// An index that a constraint names lies in the schema of its table.
pub open spec fn constraint_index_id(name: QualifiedNameView, table: ObjectIdView) -> ObjectIdView {
    object(
        match name.schema {
            Some(schema) => schema.resolved(),
            None => table.schema,
        },
        name.name.resolved(),
    )
}

pub open spec fn relation_ids(d: StateData, names: Seq<QualifiedNameView>) -> Seq<ObjectIdView> {
    names.map_values(|n: QualifiedNameView| relation_id(d, n))
}

pub open spec fn looked_up_ids(d: StateData, names: Seq<QualifiedNameView>) -> Seq<ObjectIdView> {
    names.map_values(|n: QualifiedNameView| looked_up_id(d, n))
}

pub open spec fn type_ids(d: StateData, names: Seq<QualifiedNameView>) -> Seq<ObjectIdView> {
    names.map_values(|n: QualifiedNameView| type_id(d, n))
}

/// What a name is looked up among.
#[derive(Clone, Copy, Debug, PartialEq, Eq, Structural)]
pub enum Among {
    Relations,
    /// Relations, types, sequences and routines.
    AllNames,
}

pub open spec fn found_id(d: StateData, among: Among, name: QualifiedNameView) -> ObjectIdView {
    match among {
        Among::Relations => relation_id(d, name),
        Among::AllNames => looked_up_id(d, name),
    }
}

pub open spec fn found_ids(d: StateData, among: Among, names: Seq<QualifiedNameView>) -> Seq<ObjectIdView> {
    match among {
        Among::Relations => relation_ids(d, names),
        Among::AllNames => looked_up_ids(d, names),
    }
}

/// A name that is in scope resolves to the schema that is written.
pub proof fn law_written_schema_wins(d: StateData, name: QualifiedNameView)
    requires
        name.schema is Some,
    ensures
        created_id(d, name) == object(name.schema->0.resolved(), name.name.resolved()),
        looked_up_id(d, name) == created_id(d, name),
        relation_id(d, name) == created_id(d, name),
        type_id(d, name) == created_id(d, name),
{
}

// ---------------------------------------------------------------------------
// Routine signatures
// ---------------------------------------------------------------------------

/// The standard name of a parameter type without dimensions.
pub open spec fn standard_type(name: Seq<char>) -> Seq<char> {
    if name == "int"@ || name == "int4"@ {
        "integer"@
    } else if name == "int8"@ {
        "bigint"@
    } else if name == "int2"@ {
        "smallint"@
    } else if name == "float8"@ {
        "double precision"@
    } else if name == "float4"@ {
        "real"@
    } else if name == "bool"@ {
        "boolean"@
    } else if name == "varchar"@ {
        "character varying"@
    } else if name == "char"@ {
        "character"@
    } else if name == "time"@ {
        "time without time zone"@
    } else if name == "timestamp"@ {
        "timestamp without time zone"@
    } else if name == "timestamptz"@ {
        "timestamp with time zone"@
    } else if name == "decimal"@ {
        "numeric"@
    } else {
        name
    }
}

/// The standard name of a parameter type with at most `dimensions` of them.
pub open spec fn standard_type_within(raw: Seq<char>, dimensions: nat) -> Seq<char>
    decreases dimensions,
{
    let name = lowercase_of(trimmed(raw));
    if dimensions > 0 && "[]"@.is_suffix_of(name) {
        standard_type_within(name.take(name.len() - 2), (dimensions - 1) as nat) + "[]"@
    } else {
        standard_type(name)
    }
}

/// The standard name of a parameter type. A text has fewer dimensions than
/// characters.
pub open spec fn normalized_arg_type(raw: Seq<char>) -> Seq<char> {
    standard_type_within(raw, raw.len())
}

/// The parts of a text between its commas.
pub open spec fn comma_parts(s: Seq<char>) -> Seq<Seq<char>>
    decreases s.len(),
    via comma_parts_shrink
{
    let i = first_index(s, ',');
    if i >= s.len() {
        seq![s]
    } else {
        seq![s.take(i)] + comma_parts(s.skip(i + 1))
    }
}

#[via_fn]
proof fn comma_parts_shrink(s: Seq<char>) {
    lemma_first_index_bounds(s, ',');
}

proof fn lemma_first_index_bounds(s: Seq<char>, c: char)
    ensures
        0 <= first_index(s, c) <= s.len(),
    decreases s.len(),
{
    if s.len() > 0 && s[0] != c {
        lemma_first_index_bounds(s.drop_first(), c);
    }
}

pub open spec fn normalized_signature(sig: Seq<char>) -> Seq<char> {
    joined(comma_parts(sig).map_values(|p: Seq<char>| normalized_arg_type(p)), ","@)
}

/// The routine with this base name and these parameter types.
pub open spec fn routine_with(base: ObjectIdView, sig: Seq<char>) -> ObjectIdView {
    object(base.schema, base.name + "("@ + normalized_signature(sig) + ")"@)
}

pub open spec fn param_types(params: Seq<ParamFactView>) -> Seq<Seq<char>> {
    params.map_values(|p: ParamFactView| p.ty)
}

pub open spec fn created_routine(d: StateData, name: QualifiedNameView, params: Seq<ParamFactView>) -> ObjectIdView {
    routine_with(created_id(d, name), joined(param_types(params), ","@))
}

fn split_at_commas(sig: &str) -> (r: Vec<String>)
    ensures
        r.deep_view() == comma_parts(sig@),
{
    let mut out: Vec<String> = Vec::new();
    let mut rest = sig.to_owned();
    let ghost whole = comma_parts(sig@);
    assert(out.deep_view() + comma_parts(rest@) =~= whole);
    loop
        invariant
            whole == comma_parts(sig@),
            out.deep_view() + comma_parts(rest@) == whole,
        decreases rest@.len(),
    {
        let v = chars_of(&rest);
        let i = index_of(&v, ',');
        let ghost before = out.deep_view();
        if i >= v.len() {
            let ghost last = rest@;
            out.push(rest);
            assert(out.deep_view() =~= before.push(last));
            assert(before.push(last) =~= before + seq![last]);
            return out;
        }
        let part = text_of(&v, 0, i);
        let ghost s = rest@;
        assert(part@ =~= s.take(i as int));
        rest = text_of(&v, i + 1, v.len());
        assert(rest@ =~= s.skip(i + 1));
        let ghost p = part@;
        out.push(part);
        proof {
            assert(out.deep_view() =~= before.push(p));
            assert(before.push(p) + comma_parts(rest@) =~= before + (seq![p] + comma_parts(rest@)));
        }
    }
}

fn find_standard_type(name: String) -> (r: String)
    ensures
        r@ == standard_type(name@),
{
    if text_eq(&name, "int") || text_eq(&name, "int4") {
        "integer".to_owned()
    } else if text_eq(&name, "int8") {
        "bigint".to_owned()
    } else if text_eq(&name, "int2") {
        "smallint".to_owned()
    } else if text_eq(&name, "float8") {
        "double precision".to_owned()
    } else if text_eq(&name, "float4") {
        "real".to_owned()
    } else if text_eq(&name, "bool") {
        "boolean".to_owned()
    } else if text_eq(&name, "varchar") {
        "character varying".to_owned()
    } else if text_eq(&name, "char") {
        "character".to_owned()
    } else if text_eq(&name, "time") {
        "time without time zone".to_owned()
    } else if text_eq(&name, "timestamp") {
        "timestamp without time zone".to_owned()
    } else if text_eq(&name, "timestamptz") {
        "timestamp with time zone".to_owned()
    } else if text_eq(&name, "decimal") {
        "numeric".to_owned()
    } else {
        name
    }
}

/// The text before a final `[]`, where there is one.
fn without_dimension(name: &String) -> (r: Option<String>)
    ensures
        match r {
            Some(element) => "[]"@.is_suffix_of(name@) && element@ == name@.take(name@.len() - 2),
            None => !"[]"@.is_suffix_of(name@),
        },
{
    proof {
        reveal_strlit("[]");
    }
    let v = chars_of(name);
    let n = v.len();
    if n >= 2 && v[n - 2] == '[' && v[n - 1] == ']' {
        let element = text_of(&v, 0, n - 2);
        proof {
            assert(element@ =~= name@.take(name@.len() - 2));
            assert(name@.subrange(name@.len() - 2, name@.len() as int) =~= "[]"@);
        }
        Some(element)
    } else {
        proof {
            if "[]"@.is_suffix_of(name@) {
                let tail = name@.subrange(name@.len() - 2, name@.len() as int);
                assert(tail == "[]"@);
                assert(tail[0] == name@[name@.len() - 2]);
                assert(tail[1] == name@[name@.len() - 1]);
            }
        }
        None
    }
}

fn normalize_within(raw: &str, dimensions: usize) -> (r: String)
    ensures
        r@ == standard_type_within(raw@, dimensions as nat),
    decreases dimensions,
{
    let name = to_lowercase(&trim(raw));
    if dimensions > 0 {
        if let Some(element) = without_dimension(&name) {
            return join2(&normalize_within(&element, dimensions - 1), "[]");
        }
    }
    find_standard_type(name)
}

impl Resolver {
    /// The standard name of a parameter type.
    pub fn normalize_function_arg_type(raw: &str) -> (r: String)
        ensures
            r@ == normalized_arg_type(raw@),
    {
        let n = chars_of(raw).len();
        normalize_within(raw, n)
    }

    /// The object that a statement creates under a name.
    pub fn resolve_creation_name(name: &QualifiedName, state: &AnalysisState) -> (r: ObjectId)
        ensures
            r@ == created_id(state@.data, name@),
            !r.inferred_schema,
    {
        let schema = match &name.schema {
            Some(schema) => schema.resolve(),
            None => state.first_schema(),
        };
        ObjectId::new(&schema, &name.name.resolve())
    }

    /// The object that a name denotes.
    pub fn resolve_lookup_name(name: &QualifiedName, state: &AnalysisState) -> (r: ObjectId)
        ensures
            r@ == looked_up_id(state@.data, name@),
            r.inferred_schema == (name.schema is None),
    {
        if let Some(schema) = &name.schema {
            return ObjectId::new(&schema.resolve(), &name.name.resolve());
        }
        let resolved_name = name.name.resolve();
        let path = state.search_path();
        let ghost d = state@.data;
        let mut i: usize = 0;
        while i < path.len()
            invariant
                i <= path.len(),
                d == state@.data,
                path.deep_view() == d.search_path,
                name.schema is None,
                resolved_name@ == name@.name.resolved(),
                schema_holding(d, resolved_name@, 0) == schema_holding(d, resolved_name@, i as int),
            decreases path.len() - i,
        {
            assert(path.deep_view()[i as int] == path@[i as int]@);
            let mut candidate = ObjectId::new(&path[i], &resolved_name);
            if state.holds_name(&candidate) {
                candidate.inferred_schema = true;
                return candidate;
            }
            i = i + 1;
        }
        let mut id = ObjectId::new(&state.first_schema(), &resolved_name);
        id.inferred_schema = true;
        id
    }

    /// The relation that a name denotes.
    pub fn resolve_relation_lookup_name(name: &QualifiedName, state: &AnalysisState) -> (r: ObjectId)
        ensures
            r@ == relation_id(state@.data, name@),
            r.inferred_schema == (name.schema is None),
    {
        state.resolve_relation_id(name)
    }

    /// The type that a name denotes.
    pub fn resolve_type_lookup_name(name: &QualifiedName, state: &AnalysisState) -> (r: ObjectId)
        ensures
            r@ == type_id(state@.data, name@),
            r.inferred_schema == (name.schema is None),
    {
        if let Some(schema) = &name.schema {
            return ObjectId::new(&schema.resolve(), &name.name.resolve());
        }
        let resolved_name = name.name.resolve();
        let path = state.search_path();
        let ghost d = state@.data;
        let mut i: usize = 0;
        while i < path.len()
            invariant
                i <= path.len(),
                d == state@.data,
                path.deep_view() == d.search_path,
                name.schema is None,
                resolved_name@ == name@.name.resolved(),
                schema_with_type(d, resolved_name@, 0) == schema_with_type(d, resolved_name@, i as int),
            decreases path.len() - i,
        {
            assert(path.deep_view()[i as int] == path@[i as int]@);
            let mut candidate = ObjectId::new(&path[i], &resolved_name);
            if state.type_is_present(&candidate) {
                candidate.inferred_schema = true;
                return candidate;
            }
            i = i + 1;
        }
        let mut id = ObjectId::new(&state.first_schema(), &resolved_name);
        id.inferred_schema = true;
        id
    }

    /// The index that a constraint of a table names.
    pub fn resolve_constraint_index_name(name: &QualifiedName, table: &ObjectId) -> (r: ObjectId)
        ensures
            r@ == constraint_index_id(name@, table@),
            !r.inferred_schema,
    {
        let schema = match &name.schema {
            Some(schema) => schema.resolve(),
            None => table.schema.clone(),
        };
        ObjectId::new(&schema, &name.name.resolve())
    }

    /// The same object under another name.
    pub(crate) fn renamed(id: &ObjectId, new_name: &Ident) -> (r: ObjectId)
        ensures
            r@ == object(id@.schema, new_name@.resolved()),
            r.inferred_schema == id.inferred_schema,
    {
        let mut new_id = ObjectId::new(&id.schema, &new_name.resolve());
        new_id.inferred_schema = id.inferred_schema;
        new_id
    }

    pub(crate) fn lookup_names(names: &Vec<QualifiedName>, state: &AnalysisState) -> (r: Vec<ObjectId>)
        ensures
            r.deep_view() == looked_up_ids(state@.data, names.deep_view()),
            marks_in(r@) == bare_names(names.deep_view()),
    {
        let ghost d = state@.data;
        let f = |n: &QualifiedName| -> (x: ObjectId)
            ensures
                x@ == looked_up_id(state@.data, n@),
                x.inferred_schema == is_bare(n@),
            { Resolver::resolve_lookup_name(n, state) };
        let r = vec_map(names, f, Ghost(|n: QualifiedNameView| looked_up_id(d, n)));
        assert(marks_in(r@) =~= bare_names(names.deep_view()));
        r
    }

    pub(crate) fn relation_lookup_names(names: &Vec<QualifiedName>, state: &AnalysisState) -> (r: Vec<ObjectId>)
        ensures
            r.deep_view() == relation_ids(state@.data, names.deep_view()),
            marks_in(r@) == bare_names(names.deep_view()),
    {
        let ghost d = state@.data;
        let f = |n: &QualifiedName| -> (x: ObjectId)
            ensures
                x@ == relation_id(state@.data, n@),
                x.inferred_schema == is_bare(n@),
            { Resolver::resolve_relation_lookup_name(n, state) };
        let r = vec_map(names, f, Ghost(|n: QualifiedNameView| relation_id(d, n)));
        assert(marks_in(r@) =~= bare_names(names.deep_view()));
        r
    }

    pub(crate) fn find_name(name: &QualifiedName, among: Among, state: &AnalysisState) -> (r: ObjectId)
        ensures
            r@ == found_id(state@.data, among, name@),
            r.inferred_schema == is_bare(name@),
    {
        match among {
            Among::Relations => Resolver::resolve_relation_lookup_name(name, state),
            Among::AllNames => Resolver::resolve_lookup_name(name, state),
        }
    }

    pub(crate) fn find_names(names: &Vec<QualifiedName>, among: Among, state: &AnalysisState) -> (r: Vec<ObjectId>)
        ensures
            r.deep_view() == found_ids(state@.data, among, names.deep_view()),
            marks_in(r@) == bare_names(names.deep_view()),
    {
        match among {
            Among::Relations => Resolver::relation_lookup_names(names, state),
            Among::AllNames => Resolver::lookup_names(names, state),
        }
    }

    pub(crate) fn type_lookup_names(names: &Vec<QualifiedName>, state: &AnalysisState) -> (r: Vec<ObjectId>)
        ensures
            r.deep_view() == type_ids(state@.data, names.deep_view()),
            marks_in(r@) == bare_names(names.deep_view()),
    {
        let ghost d = state@.data;
        let f = |n: &QualifiedName| -> (x: ObjectId)
            ensures
                x@ == type_id(state@.data, n@),
                x.inferred_schema == is_bare(n@),
            { Resolver::resolve_type_lookup_name(n, state) };
        let r = vec_map(names, f, Ghost(|n: QualifiedNameView| type_id(d, n)));
        assert(marks_in(r@) =~= bare_names(names.deep_view()));
        r
    }

    /// The routine with this base name and these parameter types, each under
    /// its standard name.
    pub fn resolve_function_id_by_sig(base_id: &ObjectId, sig: &str) -> (r: ObjectId)
        ensures
            r@ == routine_with(base_id@, sig@),
            r.inferred_schema == base_id.inferred_schema,
    {
        let parts = split_at_commas(sig);
        let f = |p: &String| -> (x: String)
            ensures
                x@ == normalized_arg_type(p@),
            { Resolver::normalize_function_arg_type(p) };
        let types = vec_map(&parts, f, Ghost(|p: Seq<char>| normalized_arg_type(p)));
        let mut id = ObjectId::new(&base_id.schema, &join4(&base_id.name, "(", &join_all(&types, ","), ")"));
        id.inferred_schema = base_id.inferred_schema;
        id
    }

    /// The routine that a statement creates.
    pub fn resolve_function_id(name: &QualifiedName, params: &Vec<ParamFact>, state: &AnalysisState) -> (r: ObjectId)
        ensures
            r@ == created_routine(state@.data, name@, params.deep_view()),
            !r.inferred_schema,
    {
        let base_id = Resolver::resolve_creation_name(name, state);
        let f = |p: &ParamFact| -> (x: String)
            ensures
                x@ == p@.ty,
            { p.ty.clone() };
        let types = vec_map(params, f, Ghost(|p: ParamFactView| p.ty));
        Resolver::resolve_function_id_by_sig(&base_id, &join_all(&types, ","))
    }
}

impl AnalysisState {
    fn has_routine_named(&self, id: &ObjectId) -> (b: bool)
        ensures
            b == has_routine_named(self@.data.functions, id@.schema, id@.name),
    {
        proof {
            reveal(data_of);
        }
        let open_name = join2(&id.name, "(");
        let is = |k: &ObjectId, o: &FunctionOverlay| -> (b: bool)
            ensures
                b == is_routine_named(k@, id@.schema, id@.name),
            { k.schema == id.schema && (k.name == id.name || starts_with(&k.name, &open_name)) };
        let ghost p = |k: ObjectIdView, o: Overlay<FunctionStateView>| is_routine_named(k, id@.schema, id@.name);
        let b = self.local.functions.any(is, Ghost(p));
        proof {
            let m = self@.data.functions;
            if b {
                let k = choose|k: ObjectIdView| #[trigger] m.dom().contains(k) && p(k, m[k]);
                assert(m.dom().contains(k) && is_routine_named(k, id@.schema, id@.name));
            }
            if has_routine_named(m, id@.schema, id@.name) {
                let k = choose|k: ObjectIdView| #[trigger] m.dom().contains(k) && is_routine_named(k, id@.schema, id@.name);
                assert(m.dom().contains(k) && p(k, m[k]));
            }
        }
        b
    }

    pub(crate) fn holds_name(&self, id: &ObjectId) -> (b: bool)
        ensures
            b == holds_name(self@.data, id@.schema, id@.name),
    {
        proof {
            reveal(data_of);
            assert(object(id@.schema, id@.name) == id@);
        }
        self.local.relations.contains_key(id) || self.local.types.contains_key(id) || self.local.sequences.contains_key(id) || self.has_routine_named(id)
    }
}

} // verus!
