//! SQL identifiers and the identities of catalog objects.
use crate::collections::{Dup, Key};
use crate::text::{ascii_lower, ascii_lowercase, is_ascii, is_ascii_text, join3, lowercase_of, to_lowercase};
use vstd::prelude::*;

verus! {

/// One SQL identifier as written.
#[derive(Clone, Debug, PartialEq)]
pub struct Ident {
    pub text: String,
    pub quoted: bool,
}

#[verifier::ext_equal]
pub struct IdentView {
    pub text: Seq<char>,
    pub quoted: bool,
}

impl View for Ident {
    type V = IdentView;

    open spec fn view(&self) -> IdentView {
        IdentView { text: self.text@, quoted: self.quoted }
    }
}

impl DeepView for Ident {
    type V = IdentView;

    open spec fn deep_view(&self) -> IdentView {
        self@
    }
}

impl Dup for Ident {
    fn dup(&self) -> (r: Self) {
        Ident { text: self.text.clone(), quoted: self.quoted }
    }
}

impl IdentView {
    /// The name that an identifier denotes: quoted identifiers keep their
    /// case, others fold to lowercase.
    pub open spec fn resolved(self) -> Seq<char> {
        if self.quoted {
            self.text
        } else {
            lowercase_of(self.text)
        }
    }
}

impl Ident {
    pub fn new(text: &str, quoted: bool) -> (r: Self)
        ensures
            r@ == (IdentView { text: text@, quoted }),
    {
        Ident { text: text.to_owned(), quoted }
    }

    pub fn resolve(&self) -> (r: String)
        ensures
            r@ == self@.resolved(),
    {
        if self.quoted {
            self.text.clone()
        } else {
            to_lowercase(&self.text)
        }
    }
}

/// Unquoted identifiers that differ in case alone denote the same name.
pub proof fn law_unquoted_case_does_not_matter(a: IdentView, b: IdentView)
    requires
        !a.quoted,
        !b.quoted,
        is_ascii_text(a.text),
        is_ascii_text(b.text),
        ascii_lowercase(a.text) == ascii_lowercase(b.text),
    ensures
        a.resolved() == b.resolved(),
{
}

/// The name that an identifier denotes may be written for it, without quotes
/// where it was unquoted.
pub proof fn law_resolved_name_denotes_itself(a: IdentView)
    requires
        is_ascii_text(a.text),
    ensures
        (IdentView { text: a.resolved(), quoted: a.quoted }).resolved() == a.resolved(),
{
    let low = ascii_lowercase(a.text);
    assert forall|i: int| 0 <= i < low.len() implies is_ascii(#[trigger] low[i]) && ascii_lower(low[i]) == low[i] by {
        assert(is_ascii(a.text[i]));
    }
    assert(ascii_lowercase(low) =~= low);
}

/// A possibly schema-qualified name as written.
#[derive(Clone, Debug, PartialEq)]
pub struct QualifiedName {
    pub schema: Option<Ident>,
    pub name: Ident,
}

#[verifier::ext_equal]
pub struct QualifiedNameView {
    pub schema: Option<IdentView>,
    pub name: IdentView,
}

impl View for QualifiedName {
    type V = QualifiedNameView;

    open spec fn view(&self) -> QualifiedNameView {
        QualifiedNameView {
            schema: match self.schema {
                Some(s) => Some(s@),
                None => None,
            },
            name: self.name@,
        }
    }
}

impl DeepView for QualifiedName {
    type V = QualifiedNameView;

    open spec fn deep_view(&self) -> QualifiedNameView {
        self@
    }
}

impl Dup for QualifiedName {
    fn dup(&self) -> (r: Self) {
        QualifiedName {
            schema: match &self.schema {
                Some(s) => Some(s.dup()),
                None => None,
            },
            name: self.name.dup(),
        }
    }
}

impl QualifiedName {
    pub fn new(schema: Option<Ident>, name: Ident) -> (r: Self)
        ensures
            r.schema == schema,
            r.name == name,
    {
        QualifiedName { schema, name }
    }
}

/// The identity of a catalog object. Two identities are the same when schema
/// and name are; whether the schema was inferred from the search path is not
/// part of the identity.
#[derive(Clone, Debug)]
pub struct ObjectId {
    pub schema: String,
    pub name: String,
    pub inferred_schema: bool,
}

#[verifier::ext_equal]
pub struct ObjectIdView {
    pub schema: Seq<char>,
    pub name: Seq<char>,
}

impl View for ObjectId {
    type V = ObjectIdView;

    open spec fn view(&self) -> ObjectIdView {
        ObjectIdView { schema: self.schema@, name: self.name@ }
    }
}

impl DeepView for ObjectId {
    type V = ObjectIdView;

    open spec fn deep_view(&self) -> ObjectIdView {
        self@
    }
}

impl PartialEq for ObjectId {
    fn eq(&self, other: &Self) -> (r: bool) {
        self.name == other.name && self.schema == other.schema
    }
}

impl vstd::std_specs::cmp::PartialEqSpecImpl for ObjectId {
    open spec fn obeys_eq_spec() -> bool {
        true
    }

    open spec fn eq_spec(&self, other: &Self) -> bool {
        self@ == other@
    }
}

impl Dup for ObjectId {
    fn dup(&self) -> (r: Self)
        ensures
            r.inferred_schema == self.inferred_schema,
    {
        ObjectId { schema: self.schema.clone(), name: self.name.clone(), inferred_schema: self.inferred_schema }
    }
}

impl Key for ObjectId {
    fn same(&self, other: &Self) -> (r: bool) {
        self.name == other.name && self.schema == other.schema
    }
}

impl ObjectIdView {
    /// The name under which messages show an object.
    pub open spec fn shown(self) -> Seq<char> {
        self.schema + "."@ + self.name
    }
}

pub open spec fn object(schema: Seq<char>, name: Seq<char>) -> ObjectIdView {
    ObjectIdView { schema, name }
}

/// The identity of a role: roles live outside of schemas.
pub open spec fn role_object(name: Seq<char>) -> ObjectIdView {
    ObjectIdView { schema: ""@, name }
}

impl ObjectId {
    pub fn new(schema: &str, name: &str) -> (r: Self)
        ensures
            r@ == object(schema@, name@),
            !r.inferred_schema,
    {
        ObjectId { schema: schema.to_owned(), name: name.to_owned(), inferred_schema: false }
    }

    pub fn show(&self) -> (r: String)
        ensures
            r@ == self@.shown(),
    {
        join3(&self.schema, ".", &self.name)
    }
}

} // verus!
