//! Column defaults that draw from a sequence.
use crate::collections::{Dup, Key};
use crate::expr_ir::{args_view, expr_view, lemma_args_view, ExprIr, ExprIrView};
use crate::identifiers::{ObjectId, ObjectIdView};
use crate::model::column::{Column, ColumnView};
use crate::model::relation::{RelationOverlay, RelationStateView};
use crate::model::sequence::{SequenceKind, SequenceState, SequenceStateView};
use crate::model::Overlay;
use crate::state::journal::{group_kept, kept};
use crate::state::lookup::{present, state_of};
use crate::state::{data_of, AnalysisState, StateData};
use crate::text::{
    ascii_lowercase, chars_of, contains, join3, join5, occurs_at, occurs_in, push_char, quote_identifier, quoted_identifier, text_of,
    to_ascii_lowercase, trim, trimmed, vec_occurs_at,
};
use vstd::prelude::*;

verus! {

broadcast use group_kept;

/// The text of a quoted literal after its opening quote: up to the closing
/// quote, with doubled quotes for one.
pub open spec fn unquoted(s: Seq<char>) -> Seq<char>
    decreases s.len(),
{
    if s.len() == 0 {
        Seq::empty()
    } else if s[0] != '\'' {
        seq![s[0]] + unquoted(s.skip(1))
    } else if s.len() > 1 && s[1] == '\'' {
        seq!['\''] + unquoted(s.skip(2))
    } else {
        Seq::empty()
    }
}

/// The position of the first `::` from `i` on, or the end.
pub open spec fn cast_position(s: Seq<char>, i: nat) -> nat
    decreases s.len() - i,
{
    if i >= s.len() || (i + 1 < s.len() && s[i as int] == ':' && s[(i + 1) as int] == ':') {
        i
    } else {
        cast_position(s, i + 1)
    }
}

pub open spec fn leading_quotes(s: Seq<char>, i: nat) -> nat
    decreases s.len() - i,
{
    if i < s.len() && s[i as int] == '"' {
        leading_quotes(s, i + 1)
    } else {
        i
    }
}

/// The end without quotes behind it, not before `from`.
pub open spec fn end_without_quotes(s: Seq<char>, from: nat, to: nat) -> nat
    decreases to,
{
    if to > from && s[to - 1] == '"' {
        end_without_quotes(s, from, (to - 1) as nat)
    } else {
        to
    }
}

pub open spec fn without_outer_quotes(s: Seq<char>) -> Seq<char> {
    let from = leading_quotes(s, 0);
    s.subrange(from as int, end_without_quotes(s, from, s.len()) as int)
}

/// The name that a literal argument of `nextval` holds.
pub open spec fn literal_name(raw: Seq<char>) -> Seq<char> {
    let t = trimmed(raw);
    if t.len() > 0 && t[0] == '\'' {
        unquoted(t.skip(1))
    } else {
        let end = cast_position(t, 0);
        without_outer_quotes(t.take(end as int))
    }
}

/// Whether a literal names a sequence, with or without its schema and quotes.
pub open spec fn literal_matches(raw: Seq<char>, id: ObjectIdView) -> bool {
    let v = literal_name(raw);
    let s = id.schema;
    let n = id.name;
    ||| v == s + "."@ + n
    ||| v == quoted_identifier(s) + "."@ + quoted_identifier(n)
    ||| v == s + "."@ + quoted_identifier(n)
    ||| v == quoted_identifier(s) + "."@ + n
    ||| v == n
    ||| v == quoted_identifier(n)
}

/// Whether an expression holds a literal that names a sequence.
pub open spec fn expression_references(e: ExprIrView, id: ObjectIdView) -> bool
    decreases e, 0nat,
{
    match e {
        ExprIrView::Literal(value) => literal_matches(value, id),
        ExprIrView::FunctionCall { name, args } => argument_references(args, args.len(), id),
        ExprIrView::BinaryOp { left, op, right } => expression_references(*left, id) || expression_references(*right, id),
        ExprIrView::Cast { expr, target_type } => expression_references(*expr, id),
        ExprIrView::ColumnRef(name) => false,
        ExprIrView::Omitted => false,
    }
}

/// Whether one of the first `n` arguments does.
pub open spec fn argument_references(args: Seq<ExprIrView>, n: nat, id: ObjectIdView) -> bool
    decreases args, n,
{
    if n == 0 || n > args.len() {
        false
    } else {
        argument_references(args, (n - 1) as nat, id) || expression_references(args[n - 1], id)
    }
}

pub open spec fn is_word_char(c: char) -> bool {
    ('a' <= c && c <= 'z') || ('A' <= c && c <= 'Z') || ('0' <= c && c <= '9') || c == '_'
}

/// Whether `w` stands in `s` at `i` as a word of its own.
pub open spec fn word_at(s: Seq<char>, w: Seq<char>, i: int) -> bool {
    &&& occurs_at(s, w, i)
    &&& i == 0 || !is_word_char(s[i - 1])
    &&& i + w.len() == s.len() || !is_word_char(s[i + w.len()])
}

pub open spec fn has_word(s: Seq<char>, w: Seq<char>) -> bool {
    exists|i: int| #[trigger] word_at(s, w, i)
}

pub open spec fn quoted_name(id: ObjectIdView) -> Seq<char> {
    "'"@ + (id.schema + "."@ + id.name) + "'"@
}

/// Whether the text of a default calls `nextval` and names a sequence.
pub open spec fn text_references(raw: Seq<char>, id: ObjectIdView) -> bool {
    &&& has_word(ascii_lowercase(raw), "nextval"@)
    &&& {
        ||| occurs_in(raw, quoted_name(id))
        ||| occurs_in(raw, "'"@ + id.name + "'"@)
        ||| occurs_in(raw, "'\""@ + id.schema + "\".\""@ + id.name + "\"'"@)
        ||| occurs_in(raw, "'\""@ + id.name + "\"'"@)
        ||| occurs_in(ascii_lowercase(raw), ascii_lowercase(quoted_name(id)))
    }
}

/// Whether the default of a column goes with a sequence: it was made for the
/// column, or the default names it.
pub open spec fn default_falls(c: ColumnView, relation: ObjectIdView, id: ObjectIdView, s: SequenceStateView) -> bool {
    ||| s.kind == SequenceKind::SerialLike && s.owned_by == Some((relation, c.name))
    ||| c.default is Some && expression_references(c.default->0, id)
    ||| c.default_expr_text is Some && text_references(c.default_expr_text->0, id)
}

pub open spec fn default_falls_with_any(
    c: ColumnView,
    relation: ObjectIdView,
    sequences: Map<ObjectIdView, Overlay<SequenceStateView>>,
    ids: Set<ObjectIdView>,
) -> bool {
    exists|id: ObjectIdView| #[trigger] ids.contains(id) && default_falls(c, relation, id, state_of(sequences, id))
}

/// Whether the column at `i` loses its default: it is the first of its name,
/// and the default of a column of that name goes.
pub open spec fn column_loses_default(
    columns: Seq<ColumnView>,
    i: int,
    relation: ObjectIdView,
    sequences: Map<ObjectIdView, Overlay<SequenceStateView>>,
    ids: Set<ObjectIdView>,
) -> bool {
    &&& forall|j: int| 0 <= j < i ==> #[trigger] columns[j].name != columns[i].name
    &&& exists|j: int| 0 <= j < columns.len() && #[trigger] columns[j].name == columns[i].name && default_falls_with_any(columns[j], relation, sequences, ids)
}

pub open spec fn defaults_cleared(
    columns: Seq<ColumnView>,
    relation: ObjectIdView,
    sequences: Map<ObjectIdView, Overlay<SequenceStateView>>,
    ids: Set<ObjectIdView>,
) -> Seq<ColumnView> {
    Seq::new(
        columns.len(),
        |i: int|
            if column_loses_default(columns, i, relation, sequences, ids) {
                ColumnView { default: None, default_expr_text: None, ..columns[i] }
            } else {
                columns[i]
            },
    )
}

/// The relations without the defaults that draw from sequences `ids`.
#[verifier::opaque]
pub open spec fn relations_without_defaults(
    relations: Map<ObjectIdView, Overlay<RelationStateView>>,
    sequences: Map<ObjectIdView, Overlay<SequenceStateView>>,
    ids: Set<ObjectIdView>,
) -> Map<ObjectIdView, Overlay<RelationStateView>> {
    Map::new(
        |id: ObjectIdView| relations.dom().contains(id),
        |id: ObjectIdView|
            match relations[id] {
                Overlay::Present(r) => Overlay::Present(RelationStateView { columns: defaults_cleared(r.columns, id, sequences, ids), ..r }),
                Overlay::Dropped => Overlay::Dropped,
            },
    )
}

fn unquote(v: &Vec<char>, from: usize) -> (r: String)
    requires
        from <= v.len(),
    ensures
        r@ == unquoted(v@.skip(from as int)),
{
    let mut out = String::new();
    let mut i: usize = from;
    let ghost whole = unquoted(v@.skip(from as int));
    assert(out@ + unquoted(v@.skip(i as int)) =~= whole);
    while i < v.len()
        invariant
            from <= i <= v.len(),
            whole == unquoted(v@.skip(from as int)),
            out@ + unquoted(v@.skip(i as int)) == whole,
        decreases v.len() - i,
    {
        let ghost rest = v@.skip(i as int);
        let ghost before = out@;
        assert(rest[0] == v@[i as int]);
        if v[i] != '\'' {
            push_char(&mut out, v[i]);
            proof {
                assert(rest.skip(1) =~= v@.skip(i + 1));
                assert(before.push(v@[i as int]) + unquoted(rest.skip(1)) =~= before + (seq![v@[i as int]] + unquoted(rest.skip(1))));
            }
            i = i + 1;
        } else if i + 1 < v.len() && v[i + 1] == '\'' {
            push_char(&mut out, '\'');
            proof {
                assert(rest[1] == v@[i + 1]);
                assert(rest.skip(2) =~= v@.skip(i + 2));
                assert(before.push('\'') + unquoted(rest.skip(2)) =~= before + (seq!['\''] + unquoted(rest.skip(2))));
            }
            i = i + 2;
        } else {
            proof {
                if i + 1 < v.len() {
                    assert(rest[1] == v@[i + 1]);
                }
                assert(out@ + Seq::<char>::empty() =~= out@);
            }
            return out;
        }
    }
    assert(v@.skip(i as int) =~= Seq::<char>::empty());
    assert(out@ + Seq::<char>::empty() =~= out@);
    out
}

fn find_cast(v: &Vec<char>) -> (r: usize)
    ensures
        r == cast_position(v@, 0),
        r <= v.len(),
{
    let mut i: usize = 0;
    while i < v.len()
        invariant
            i <= v.len(),
            cast_position(v@, 0) == cast_position(v@, i as nat),
        decreases v.len() - i,
    {
        if i + 1 < v.len() && v[i] == ':' && v[i + 1] == ':' {
            return i;
        }
        i = i + 1;
    }
    i
}

/// The text up to `end` without the quotes around it.
fn strip_quotes(v: &Vec<char>, end: usize) -> (r: String)
    requires
        end <= v.len(),
    ensures
        r@ == without_outer_quotes(v@.take(end as int)),
{
    let ghost s = v@.take(end as int);
    let mut from: usize = 0;
    while from < end && v[from] == '"'
        invariant
            from <= end <= v.len(),
            s == v@.take(end as int),
            leading_quotes(s, 0) == leading_quotes(s, from as nat),
        decreases end - from,
    {
        assert(s[from as int] == v@[from as int]);
        from = from + 1;
    }
    proof {
        if from < end {
            assert(s[from as int] == v@[from as int]);
        }
        assert(leading_quotes(s, 0) == from as nat);
    }
    let mut to: usize = end;
    while to > from && v[to - 1] == '"'
        invariant
            from <= to <= end <= v.len(),
            s == v@.take(end as int),
            end_without_quotes(s, from as nat, s.len()) == end_without_quotes(s, from as nat, to as nat),
        decreases to,
    {
        assert(s[to - 1] == v@[to - 1]);
        to = to - 1;
    }
    proof {
        if to > from {
            assert(s[to - 1] == v@[to - 1]);
        }
        assert(v@.subrange(from as int, to as int) =~= s.subrange(from as int, to as int));
    }
    text_of(v, from, to)
}

fn read_literal(raw: &str) -> (r: String)
    ensures
        r@ == literal_name(raw@),
{
    let t = trim(raw);
    let v = chars_of(&t);
    if v.len() > 0 && v[0] == '\'' {
        unquote(&v, 1)
    } else {
        let end = find_cast(&v);
        strip_quotes(&v, end)
    }
}

pub(crate) fn sequence_literal_matches(raw: &str, sequence: &ObjectId) -> (r: bool)
    ensures
        r == literal_matches(raw@, sequence@),
{
    let value = read_literal(raw);
    let quoted_schema = quote_identifier(&sequence.schema);
    let quoted_name = quote_identifier(&sequence.name);
    value == join3(&sequence.schema, ".", &sequence.name) || value == join3(&quoted_schema, ".", &quoted_name) || value == join3(
        &sequence.schema,
        ".",
        &quoted_name,
    ) || value == join3(&quoted_schema, ".", &sequence.name) || value == sequence.name || value == quoted_name
}

pub(crate) fn expression_references_sequence(expression: &ExprIr, sequence: &ObjectId) -> (r: bool)
    ensures
        r == expression_references(expression@, sequence@),
    decreases *expression,
{
    match expression {
        ExprIr::Literal(value) => sequence_literal_matches(value, sequence),
        ExprIr::FunctionCall { name, args } => {
            let ghost views = args_view(*args, args.len() as nat);
            let mut found = false;
            let mut i: usize = 0;
            proof {
                lemma_args_view(*args, args.len() as nat);
            }
            while i < args.len()
                invariant
                    i <= args.len(),
                    views == args_view(*args, args.len() as nat),
                    *expression == (ExprIr::FunctionCall { name: *name, args: *args }),
                    found == argument_references(views, i as nat, sequence@),
                decreases args.len() - i,
            {
                proof {
                    assert(decreases_to!(*expression => expression->args));
                    assert(decreases_to!(expression->args => expression->args@));
                    assert(decreases_to!(expression->args@ => expression->args@[i as int]));
                    lemma_args_view(*args, args.len() as nat);
                    assert(views[i as int] == expr_view(args@[i as int]));
                }
                let hit = expression_references_sequence(&args[i], sequence);
                found = found || hit;
                i = i + 1;
            }
            found
        },
        ExprIr::BinaryOp { left, op, right } => expression_references_sequence(left, sequence) || expression_references_sequence(right, sequence),
        ExprIr::Cast { expr, target_type } => expression_references_sequence(expr, sequence),
        ExprIr::ColumnRef(_) => false,
        ExprIr::Omitted => false,
    }
}

fn word_char(c: char) -> (r: bool)
    ensures
        r == is_word_char(c),
{
    ('a' <= c && c <= 'z') || ('A' <= c && c <= 'Z') || ('0' <= c && c <= '9') || c == '_'
}

fn contains_word(s: &str, w: &str) -> (r: bool)
    ensures
        r == has_word(s@, w@),
{
    let v = chars_of(s);
    let p = chars_of(w);
    if p.len() > v.len() {
        assert(!has_word(s@, w@));
        return false;
    }
    let last: usize = v.len() - p.len();
    let mut i: usize = 0;
    while i <= last
        invariant
            v@ == s@,
            p@ == w@,
            last == v.len() - p.len(),
            i <= last + 1,
            forall|j: int| 0 <= j < i ==> !#[trigger] word_at(v@, p@, j),
        decreases last + 1 - i,
    {
        if vec_occurs_at(&v, &p, i) && (i == 0 || !word_char(v[i - 1])) && (i == last || !word_char(v[i + p.len()])) {
            assert(word_at(s@, w@, i as int));
            return true;
        }
        if i == last {
            assert forall|j: int| !#[trigger] word_at(v@, p@, j) by {}
            return false;
        }
        i = i + 1;
    }
    false
}

pub(crate) fn raw_default_references_sequence(raw: &str, sequence: &ObjectId) -> (r: bool)
    ensures
        r == text_references(raw@, sequence@),
{
    let lower = to_ascii_lowercase(raw);
    if !contains_word(&lower, "nextval") {
        return false;
    }
    let name = join3(&sequence.schema, ".", &sequence.name);
    let qualified = join3("'", &name, "'");
    contains(raw, &qualified) || contains(raw, &join3("'", &sequence.name, "'")) || contains(
        raw,
        &join5("'\"", &sequence.schema, "\".\"", &sequence.name, "\"'"),
    ) || contains(raw, &join3("'\"", &sequence.name, "\"'")) || contains(&lower, &to_ascii_lowercase(&qualified))
}

fn loses_with(c: &Column, relation: &ObjectId, id: &ObjectId, s: &SequenceState) -> (r: bool)
    ensures
        r == default_falls(c@, relation@, id@, s@),
{
    let made_for_it = match &s.owned_by {
        Some((table, name)) => s.kind == SequenceKind::SerialLike && table.same(relation) && *name == c.name,
        None => false,
    };
    if made_for_it {
        return true;
    }
    let named = match &c.default {
        Some(e) => expression_references_sequence(e, id),
        None => false,
    };
    named || match &c.default_expr_text {
        Some(text) => raw_default_references_sequence(text, id),
        None => false,
    }
}

impl AnalysisState {
    fn loses_with_any(&self, c: &Column, relation: &ObjectId, ids: &Vec<ObjectId>) -> (r: bool)
        requires
            forall|k: int| 0 <= k < ids.deep_view().len() ==> present(self@.data.sequences, #[trigger] ids.deep_view()[k]),
        ensures
            r == default_falls_with_any(c@, relation@, self@.data.sequences, ids.deep_view().to_set()),
    {
        let mut i: usize = 0;
        while i < ids.len()
            invariant
                i <= ids.len(),
                forall|k: int| 0 <= k < ids.deep_view().len() ==> present(self@.data.sequences, #[trigger] ids.deep_view()[k]),
                forall|k: int|
                    0 <= k < i ==> !default_falls(c@, relation@, #[trigger] ids.deep_view()[k], state_of(self@.data.sequences, ids.deep_view()[k])),
            decreases ids.len() - i,
        {
            assert(ids.deep_view()[i as int] == ids@[i as int]@);
            if let Some(sequence) = self.present_sequence(&ids[i]) {
                if loses_with(c, relation, &ids[i], sequence) {
                    assert(ids.deep_view().to_set().contains(ids.deep_view()[i as int]));
                    return true;
                }
            }
            i = i + 1;
        }
        assert forall|id: ObjectIdView| #[trigger] ids.deep_view().to_set().contains(id) implies !default_falls(
            c@,
            relation@,
            id,
            state_of(self@.data.sequences, id),
        ) by {
            let k = choose|k: int| 0 <= k < ids.deep_view().len() && ids.deep_view()[k] == id;
            assert(!default_falls(c@, relation@, ids.deep_view()[k], state_of(self@.data.sequences, ids.deep_view()[k])));
        }
        false
    }

    fn loses_default(&self, columns: &Vec<Column>, i: usize, relation: &ObjectId, ids: &Vec<ObjectId>) -> (r: bool)
        requires
            i < columns.len(),
            forall|k: int| 0 <= k < ids.deep_view().len() ==> present(self@.data.sequences, #[trigger] ids.deep_view()[k]),
        ensures
            r == column_loses_default(columns.deep_view(), i as int, relation@, self@.data.sequences, ids.deep_view().to_set()),
    {
        let ghost cols = columns.deep_view();
        assert(cols[i as int] == columns@[i as int]@);
        let mut j: usize = 0;
        while j < i
            invariant
                j <= i < columns.len(),
                cols == columns.deep_view(),
                forall|k: int| 0 <= k < j ==> #[trigger] cols[k].name != cols[i as int].name,
            decreases i - j,
        {
            assert(cols[j as int] == columns@[j as int]@);
            assert(cols[i as int] == columns@[i as int]@);
            if columns[j].name == columns[i].name {
                assert(cols[j as int].name == cols[i as int].name);
                return false;
            }
            j = j + 1;
        }
        let mut j: usize = 0;
        while j < columns.len()
            invariant
                j <= columns.len(),
                i < columns.len(),
                cols == columns.deep_view(),
                forall|k: int| 0 <= k < ids.deep_view().len() ==> present(self@.data.sequences, #[trigger] ids.deep_view()[k]),
                forall|k: int| 0 <= k < i ==> #[trigger] cols[k].name != cols[i as int].name,
                forall|k: int|
                    0 <= k < j ==> !(#[trigger] cols[k].name == cols[i as int].name && default_falls_with_any(
                        cols[k],
                        relation@,
                        self@.data.sequences,
                        ids.deep_view().to_set(),
                    )),
            decreases columns.len() - j,
        {
            assert(cols[j as int] == columns@[j as int]@);
            assert(cols[i as int] == columns@[i as int]@);
            if columns[j].name == columns[i].name && self.loses_with_any(&columns[j], relation, ids) {
                assert(cols[j as int].name == cols[i as int].name && default_falls_with_any(
                    cols[j as int],
                    relation@,
                    self@.data.sequences,
                    ids.deep_view().to_set(),
                ));
                return true;
            }
            j = j + 1;
        }
        false
    }

    pub(crate) fn clear_defaults(&self, columns: &Vec<Column>, relation: &ObjectId, ids: &Vec<ObjectId>) -> (r: Vec<Column>)
        requires
            forall|k: int| 0 <= k < ids.deep_view().len() ==> present(self@.data.sequences, #[trigger] ids.deep_view()[k]),
        ensures
            r.deep_view() == defaults_cleared(columns.deep_view(), relation@, self@.data.sequences, ids.deep_view().to_set()),
    {
        let ghost cols = columns.deep_view();
        let ghost goal = defaults_cleared(cols, relation@, self@.data.sequences, ids.deep_view().to_set());
        let mut out: Vec<Column> = Vec::new();
        let mut i: usize = 0;
        while i < columns.len()
            invariant
                i <= columns.len(),
                out.len() == i,
                cols == columns.deep_view(),
                goal == defaults_cleared(cols, relation@, self@.data.sequences, ids.deep_view().to_set()),
                forall|k: int| 0 <= k < ids.deep_view().len() ==> present(self@.data.sequences, #[trigger] ids.deep_view()[k]),
                forall|k: int| 0 <= k < i ==> #[trigger] out@[k]@ == goal[k],
            decreases columns.len() - i,
        {
            assert(cols[i as int] == columns@[i as int]@);
            let mut c = columns[i].dup();
            if self.loses_default(columns, i, relation, ids) {
                c.default = None;
                c.default_expr_text = None;
            }
            out.push(c);
            i = i + 1;
        }
        assert(out.deep_view() =~= goal);
        out
    }

    fn present_relation_ids(&self) -> (r: Vec<ObjectId>)
        ensures
            forall|id: ObjectIdView| #[trigger] r.deep_view().contains(id) <==> present(self@.data.relations, id),
            r.deep_view().no_duplicates(),
    {
        proof {
            reveal(data_of);
        }
        let hit = |id: &ObjectId, overlay: &RelationOverlay| -> (b: bool)
            ensures
                b == overlay.deep_view() is Present,
            {
                match overlay {
                    Overlay::Present(_) => true,
                    Overlay::Dropped => false,
                }
            };
        self.local.relations.keys_where(hit, Ghost(|id: ObjectIdView, overlay: Overlay<RelationStateView>| overlay is Present))
    }

    /// Clears the column defaults that draw from sequences.
    pub(crate) fn clear_sequence_defaults_on_cascade(&mut self, ids: &Vec<ObjectId>)
        requires
            forall|k: int| 0 <= k < ids.deep_view().len() ==> present(old(self)@.data.sequences, #[trigger] ids.deep_view()[k]),
        ensures
            final(self)@.data == (StateData {
                relations: relations_without_defaults(old(self)@.data.relations, old(self)@.data.sequences, ids.deep_view().to_set()),
                ..old(self)@.data
            }),
            kept(old(self)@, final(self)@),
    {
        let ghost start = self@;
        let ghost d = start.data;
        let ghost list = ids.deep_view();
        let ghost set = list.to_set();
        let keys = self.present_relation_ids();
        let ghost ks = keys.deep_view();
        let mut i: usize = 0;
        proof {
            assert(partly_cleared(d.relations, d.sequences, set, ks.take(0)) =~= d.relations);
        }
        while i < keys.len()
            invariant
                i <= keys.len(),
                ks == keys.deep_view(),
                ks.no_duplicates(),
                forall|id: ObjectIdView| #[trigger] ks.contains(id) <==> present(d.relations, id),
                list == ids.deep_view(),
                set == list.to_set(),
                d == start.data,
                forall|k: int| 0 <= k < list.len() ==> present(d.sequences, #[trigger] list[k]),
                self@.data == (StateData { relations: partly_cleared(d.relations, d.sequences, set, ks.take(i as int)), ..d }),
                kept(start, self@),
            decreases keys.len() - i,
        {
            let id = &keys[i];
            proof {
                assert(ks[i as int] == id@);
                assert(ks.contains(id@));
                lemma_partly_cleared(d.relations, d.sequences, set, ks, i as int);
            }
            if let Some(relation) = self.present_relation(id) {
                let mut relation = relation.dup();
                relation.columns = self.clear_defaults(&relation.columns, id, ids);
                self.put_relation(id, Overlay::Present(relation));
            }
            i = i + 1;
        }
        proof {
            reveal(relations_without_defaults);
            assert(ks.take(ks.len() as int) =~= ks);
            assert(self@.data.relations =~= relations_without_defaults(d.relations, d.sequences, set));
        }
    }
}

spec fn partly_cleared(
    relations: Map<ObjectIdView, Overlay<RelationStateView>>,
    sequences: Map<ObjectIdView, Overlay<SequenceStateView>>,
    ids: Set<ObjectIdView>,
    done: Seq<ObjectIdView>,
) -> Map<ObjectIdView, Overlay<RelationStateView>> {
    Map::new(
        |id: ObjectIdView| relations.dom().contains(id),
        |id: ObjectIdView|
            if done.contains(id) && relations[id] is Present {
                let r = state_of(relations, id);
                Overlay::Present(RelationStateView { columns: defaults_cleared(r.columns, id, sequences, ids), ..r })
            } else {
                relations[id]
            },
    )
}

proof fn lemma_partly_cleared(
    relations: Map<ObjectIdView, Overlay<RelationStateView>>,
    sequences: Map<ObjectIdView, Overlay<SequenceStateView>>,
    ids: Set<ObjectIdView>,
    keys: Seq<ObjectIdView>,
    i: int,
)
    requires
        0 <= i < keys.len(),
        keys.no_duplicates(),
        present(relations, keys[i]),
    ensures
        ({
            let before = partly_cleared(relations, sequences, ids, keys.take(i));
            let r = state_of(before, keys[i]);
            &&& present(before, keys[i])
            &&& partly_cleared(relations, sequences, ids, keys.take(i + 1)) == before.insert(
                keys[i],
                Overlay::Present(RelationStateView { columns: defaults_cleared(r.columns, keys[i], sequences, ids), ..r }),
            )
        }),
{
    let a = keys.take(i);
    let b = keys.take(i + 1);
    assert(!a.contains(keys[i])) by {
        if a.contains(keys[i]) {
            let j = choose|j: int| 0 <= j < a.len() && a[j] == keys[i];
            assert(keys[j] == keys[i]);
        }
    }
    assert forall|k: ObjectIdView| b.contains(k) <==> (a.contains(k) || k == keys[i]) by {
        if b.contains(k) {
            let j = choose|j: int| 0 <= j < b.len() && b[j] == k;
            if j < i {
                assert(a[j] == k);
            }
        }
        if a.contains(k) {
            let j = choose|j: int| 0 <= j < a.len() && a[j] == k;
            assert(b[j] == k);
        }
        assert(b[i] == keys[i]);
    }
    let before = partly_cleared(relations, sequences, ids, a);
    let r = state_of(before, keys[i]);
    assert(partly_cleared(relations, sequences, ids, b) =~= before.insert(
        keys[i],
        Overlay::Present(RelationStateView { columns: defaults_cleared(r.columns, keys[i], sequences, ids), ..r }),
    ));
}

} // verus!
