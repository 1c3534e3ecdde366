//! References to types in the text of a statement.
use crate::collections::VecMap;
use crate::identifiers::{object, ObjectId, ObjectIdView};
use crate::model::types::{TypeOverlay, TypeStateView};
use crate::model::Overlay;
use crate::state::lookup::present;
use crate::state::{data_of, AnalysisState, StateData};
use crate::text::{
    char_is_space, chars_of, first_index, index_of, is_space, join2, join3, lemma_space_bounds, lowercase_of, push_char, quote_identifier,
    quoted_identifier, text_of, to_lowercase, trim, trim_end_at, trimmed, trimmed_end,
};
use vstd::prelude::*;

verus! {

/// Whether a type name ends in an array suffix.
pub open spec fn has_array_suffix(s: Seq<char>) -> bool {
    s.len() >= 2 && s[s.len() - 2] == '[' && s[s.len() - 1] == ']'
}

/// A type name without its array suffixes.
pub open spec fn without_arrays(s: Seq<char>) -> Seq<char>
    decreases s.len(),
    via without_arrays_decreases
{
    if has_array_suffix(s) {
        without_arrays(trimmed_end(s.take(s.len() - 2)))
    } else {
        s
    }
}

#[via_fn]
proof fn without_arrays_decreases(s: Seq<char>) {
    if has_array_suffix(s) {
        lemma_space_bounds(s.take(s.len() - 2));
    }
}

/// What an identifier denotes: without quotes, case does not count.
pub open spec fn type_identifier(text: Seq<char>, quoted: bool) -> Option<Seq<char>> {
    if text.len() == 0 {
        None
    } else if quoted {
        Some(text)
    } else {
        Some(lowercase_of(text))
    }
}

/// The parts of a dotted name from position `i` on, where `text` of the
/// current part was read already.
pub open spec fn name_parts(s: Seq<char>, i: nat, parts: Seq<Seq<char>>, text: Seq<char>, open: bool, quoted: bool) -> Option<Seq<Seq<char>>>
    decreases s.len() - i,
{
    if i >= s.len() {
        match type_identifier(text, quoted) {
            Some(part) => if open {
                None
            } else {
                Some(parts.push(part))
            },
            None => None,
        }
    } else if s[i as int] == '"' && open && i + 1 < s.len() && s[i as int + 1] == '"' {
        name_parts(s, i + 2, parts, text.push('"'), open, quoted)
    } else if s[i as int] == '"' {
        name_parts(s, i + 1, parts, text, !open, true)
    } else if s[i as int] == '.' && !open {
        match type_identifier(text, quoted) {
            Some(part) => name_parts(s, i + 1, parts.push(part), Seq::empty(), open, false),
            None => None,
        }
    } else if !open && is_space(s[i as int]) {
        name_parts(s, i + 1, parts, text, open, quoted)
    } else {
        name_parts(s, i + 1, parts, text.push(s[i as int]), open, quoted)
    }
}

/// The schema, where one is written, and the name of a type.
#[verifier::opaque]
pub open spec fn parsed_type(raw: Seq<char>) -> Option<(Option<Seq<char>>, Seq<char>)> {
    match name_parts(without_arrays(trimmed(raw)), 0, Seq::empty(), Seq::empty(), false, false) {
        Some(parts) => if parts.len() == 1 {
            Some((None, parts[0]))
        } else if parts.len() == 2 {
            Some((Some(parts[0]), parts[1]))
        } else {
            None
        },
        None => None,
    }
}

/// The type of that name in the first schema, from position `i` of the path
/// on, that holds one.
pub open spec fn type_on_path(types: Map<ObjectIdView, Overlay<TypeStateView>>, path: Seq<Seq<char>>, name: Seq<char>, i: nat) -> Option<ObjectIdView>
    decreases path.len() - i,
{
    if i >= path.len() {
        None
    } else if present(types, object(path[i as int], name)) {
        Some(object(path[i as int], name))
    } else {
        type_on_path(types, path, name, i + 1)
    }
}

/// The modeled type that a type name denotes.
#[verifier::opaque]
pub open spec fn type_in_catalog(types: Map<ObjectIdView, Overlay<TypeStateView>>, path: Seq<Seq<char>>, raw: Seq<char>) -> Option<ObjectIdView> {
    match parsed_type(raw) {
        Some((Some(schema), name)) => if present(types, object(schema, name)) {
            Some(object(schema, name))
        } else {
            None
        },
        Some((None, name)) => type_on_path(types, path, name, 0),
        None => None,
    }
}

/// The modeled type that a type name denotes now.
pub open spec fn type_reference(d: StateData, raw: Seq<char>) -> Option<ObjectIdView> {
    type_in_catalog(d.types, d.search_path, raw)
}

/// The modeled type of a column, where its type is known.
pub open spec fn optional_type(d: StateData, raw: Option<Seq<char>>) -> Option<ObjectIdView> {
    match raw {
        Some(raw) => type_reference(d, raw),
        None => None,
    }
}

/// Whether a character can stand at a position of an identifier without
/// quotes.
pub open spec fn is_plain_at(c: char, i: int) -> bool {
    ||| 'a' <= c && c <= 'z'
    ||| c == '_'
    ||| i > 0 && (('0' <= c && c <= '9') || c == '$')
}

pub open spec fn is_plain(s: Seq<char>) -> bool {
    forall|i: int| 0 <= i < s.len() ==> is_plain_at(#[trigger] s[i], i)
}

/// An identifier as it is written.
pub open spec fn written_identifier(s: Seq<char>) -> Seq<char> {
    if is_plain(s) {
        s
    } else {
        quoted_identifier(s)
    }
}

/// A type as it is written.
pub open spec fn written_type(id: ObjectIdView, qualified: bool) -> Seq<char> {
    if qualified {
        written_identifier(id.schema) + "."@ + written_identifier(id.name)
    } else {
        written_identifier(id.name)
    }
}

/// A written type that now has another name: what stands from the first
/// bracket on is kept.
pub open spec fn rewritten_type(raw: Seq<char>, id: ObjectIdView, schema_changed: bool) -> Seq<char> {
    written_type(id, schema_changed) + raw.skip(first_index(raw, '['))
}

fn strip_arrays(v: &Vec<char>) -> (r: usize)
    ensures
        r <= v.len(),
        v@.take(r as int) == without_arrays(v@),
{
    let mut end = v.len();
    assert(v@.take(end as int) =~= v@);
    while end >= 2 && v[end - 2] == '[' && v[end - 1] == ']'
        invariant
            end <= v.len(),
            without_arrays(v@.take(end as int)) == without_arrays(v@),
        decreases end,
    {
        let next = trim_end_at(v, 0, end - 2);
        proof {
            let s = v@.take(end as int);
            assert(s.take(s.len() - 2) =~= v@.subrange(0, end - 2));
            assert(trimmed_end(s.take(s.len() - 2)) =~= v@.take(next as int));
            assert(s[s.len() - 2] == v@[end - 2]);
            assert(s[s.len() - 1] == v@[end - 1]);
        }
        end = next;
    }
    proof {
        let s = v@.take(end as int);
        if has_array_suffix(s) {
            assert(s[s.len() - 2] == v@[end - 2]);
            assert(s[s.len() - 1] == v@[end - 1]);
        }
    }
    end
}

fn resolve_type_identifier(identifier: &str, quoted: bool) -> (r: Option<String>)
    ensures
        r.deep_view() == type_identifier(identifier@, quoted),
{
    if chars_of(identifier).len() == 0 {
        return None;
    }
    if quoted {
        Some(identifier.to_owned())
    } else {
        Some(to_lowercase(identifier))
    }
}

fn parse_parts(v: &Vec<char>) -> (r: Option<Vec<String>>)
    ensures
        r.deep_view() == name_parts(v@, 0, Seq::empty(), Seq::empty(), false, false),
{
    let mut parts: Vec<String> = Vec::new();
    let mut current = String::new();
    let mut open = false;
    let mut quoted = false;
    let mut i: usize = 0;
    proof {
        assert(parts.deep_view() =~= Seq::<Seq<char>>::empty());
        assert(current@ =~= Seq::<char>::empty());
    }
    while i < v.len()
        invariant
            i <= v.len(),
            name_parts(v@, i as nat, parts.deep_view(), current@, open, quoted) == name_parts(v@, 0, Seq::empty(), Seq::empty(), false, false),
        decreases v.len() - i,
    {
        let c = v[i];
        if c == '"' && open && i + 1 < v.len() && v[i + 1] == '"' {
            push_char(&mut current, '"');
            i = i + 2;
        } else if c == '"' {
            open = !open;
            quoted = true;
            i = i + 1;
        } else if c == '.' && !open {
            let ghost before = parts.deep_view();
            match resolve_type_identifier(&current, quoted) {
                Some(part) => {
                    let ghost text = part@;
                    parts.push(part);
                    assert(parts.deep_view() =~= before.push(text));
                },
                None => {
                    return None;
                },
            }
            current = String::new();
            assert(current@ =~= Seq::<char>::empty());
            quoted = false;
            i = i + 1;
        } else if !open && char_is_space(c) {
            i = i + 1;
        } else {
            push_char(&mut current, c);
            i = i + 1;
        }
    }
    if open {
        return None;
    }
    let ghost before = parts.deep_view();
    match resolve_type_identifier(&current, quoted) {
        Some(part) => {
            let ghost text = part@;
            parts.push(part);
            assert(parts.deep_view() =~= before.push(text));
            Some(parts)
        },
        None => None,
    }
}

pub(crate) fn parse_type_reference(raw: &str) -> (r: Option<(Option<String>, String)>)
    ensures
        r.deep_view() == parsed_type(raw@),
{
    proof {
        reveal(parsed_type);
    }
    let token = trim(raw);
    let mut v = chars_of(&token);
    let end = strip_arrays(&v);
    let ghost before = v@;
    v.truncate(end);
    assert(v@ =~= before.take(end as int));
    match parse_parts(&v) {
        Some(parts) => {
            if parts.len() == 1 {
                assert(parts.deep_view()[0] == parts@[0]@);
                Some((None, parts[0].clone()))
            } else if parts.len() == 2 {
                assert(parts.deep_view()[0] == parts@[0]@);
                assert(parts.deep_view()[1] == parts@[1]@);
                Some((Some(parts[0].clone()), parts[1].clone()))
            } else {
                None
            }
        },
        None => None,
    }
}

fn find_type_on_path(types: &VecMap<ObjectId, TypeOverlay>, search_path: &Vec<String>, name: &String) -> (r: Option<ObjectId>)
    ensures
        r.deep_view() == type_on_path(types@, search_path.deep_view(), name@, 0),
{
    let mut i: usize = 0;
    while i < search_path.len()
        invariant
            i <= search_path.len(),
            type_on_path(types@, search_path.deep_view(), name@, 0) == type_on_path(types@, search_path.deep_view(), name@, i as nat),
        decreases search_path.len() - i,
    {
        assert(search_path.deep_view()[i as int] == search_path@[i as int]@);
        let id = ObjectId::new(&search_path[i], name);
        if let Some(Overlay::Present(_)) = types.get(&id) {
            return Some(id);
        }
        i = i + 1;
    }
    None
}

pub(crate) fn resolve_type_reference_from_catalog(raw: &str, types: &VecMap<ObjectId, TypeOverlay>, search_path: &Vec<String>) -> (r: Option<ObjectId>)
    ensures
        r.deep_view() == type_in_catalog(types@, search_path.deep_view(), raw@),
{
    proof {
        reveal(type_in_catalog);
    }
    match parse_type_reference(raw) {
        Some((Some(schema), name)) => {
            let id = ObjectId::new(&schema, &name);
            match types.get(&id) {
                Some(Overlay::Present(_)) => Some(id),
                _ => None,
            }
        },
        Some((None, name)) => find_type_on_path(types, search_path, &name),
        None => None,
    }
}

fn is_plain_text(v: &Vec<char>) -> (r: bool)
    ensures
        r == is_plain(v@),
{
    let mut i: usize = 0;
    while i < v.len()
        invariant
            i <= v.len(),
            forall|j: int| 0 <= j < i ==> is_plain_at(#[trigger] v@[j], j),
        decreases v.len() - i,
    {
        let c = v[i];
        let plain = (c >= 'a' && c <= 'z') || c == '_' || (i > 0 && ((c >= '0' && c <= '9') || c == '$'));
        if !plain {
            assert(!is_plain_at(v@[i as int], i as int));
            return false;
        }
        i = i + 1;
    }
    true
}

fn write_identifier(s: &str) -> (r: String)
    ensures
        r@ == written_identifier(s@),
{
    if is_plain_text(&chars_of(s)) {
        s.to_owned()
    } else {
        quote_identifier(s)
    }
}

pub fn type_reference_name(id: &ObjectId, qualified: bool) -> (r: String)
    ensures
        r@ == written_type(id@, qualified),
{
    if qualified {
        join3(&write_identifier(&id.schema), ".", &write_identifier(&id.name))
    } else {
        write_identifier(&id.name)
    }
}

pub fn remapped_type_display(raw: &str, new_id: &ObjectId, schema_changed: bool) -> (r: String)
    ensures
        r@ == rewritten_type(raw@, new_id@, schema_changed),
{
    let v = chars_of(raw);
    let at = index_of(&v, '[');
    let n = v.len();
    let suffix = text_of(&v, at, n);
    assert(v@.subrange(at as int, n as int) =~= raw@.skip(at as int));
    join2(&type_reference_name(new_id, schema_changed), &suffix)
}

impl AnalysisState {
    pub(crate) fn resolve_type_reference(&self, raw: &str) -> (r: Option<ObjectId>)
        ensures
            r.deep_view() == type_reference(self@.data, raw@),
    {
        proof {
            reveal(data_of);
        }
        resolve_type_reference_from_catalog(raw, &self.local.types, &self.local.search_path)
    }

    pub(crate) fn resolve_optional_type(&self, raw: &Option<String>) -> (r: Option<ObjectId>)
        ensures
            r.deep_view() == optional_type(self@.data, raw.deep_view()),
    {
        match raw {
            Some(raw) => self.resolve_type_reference(raw),
            None => None,
        }
    }
}

} // verus!
