//! Text operations, each described over the sequence of characters it works on.
use vstd::prelude::*;

verus! {

pub open spec fn is_ascii(c: char) -> bool {
    c <= '\u{7f}'
}

pub open spec fn is_ascii_text(s: Seq<char>) -> bool {
    forall|i: int| 0 <= i < s.len() ==> is_ascii(#[trigger] s[i])
}

pub open spec fn ascii_lower(c: char) -> char {
    if 'A' <= c && c <= 'Z' {
        ((c as u32 + 32) as u32) as char
    } else {
        c
    }
}

pub open spec fn ascii_lowercase(s: Seq<char>) -> Seq<char> {
    s.map_values(|c: char| ascii_lower(c))
}

pub open spec fn ascii_upper(c: char) -> char {
    if 'a' <= c && c <= 'z' {
        ((c as u32 - 32) as u32) as char
    } else {
        c
    }
}

pub open spec fn ascii_uppercase(s: Seq<char>) -> Seq<char> {
    s.map_values(|c: char| ascii_upper(c))
}

/// The characters with the Unicode `White_Space` property: from the tab to the
/// carriage return, the space, and those beyond ASCII.
pub open spec fn is_space(c: char) -> bool {
    ||| '\u{9}' <= c && c <= '\u{d}'
    ||| c == ' '
    ||| c == '\u{85}'
    ||| c == '\u{a0}'
    ||| c == '\u{1680}'
    ||| '\u{2000}' <= c && c <= '\u{200a}'
    ||| c == '\u{2028}'
    ||| c == '\u{2029}'
    ||| c == '\u{202f}'
    ||| c == '\u{205f}'
    ||| c == '\u{3000}'
}

/// The lowercase form that `str::to_lowercase` gives to a text that is not all
/// ASCII.
pub uninterp spec fn unicode_lowercase(s: Seq<char>) -> Seq<char>;

/// The uppercase form that `str::to_uppercase` gives to a text that is not all
/// ASCII.
pub uninterp spec fn unicode_uppercase(s: Seq<char>) -> Seq<char>;

pub open spec fn lowercase_of(s: Seq<char>) -> Seq<char> {
    if is_ascii_text(s) {
        ascii_lowercase(s)
    } else {
        unicode_lowercase(s)
    }
}

pub open spec fn uppercase_of(s: Seq<char>) -> Seq<char> {
    if is_ascii_text(s) {
        ascii_uppercase(s)
    } else {
        unicode_uppercase(s)
    }
}

/// `str::to_lowercase`: the Unicode lowercase mapping of a text. In ASCII it
/// takes `A` to `Z` to `a` to `z` and keeps the rest; what it is beyond ASCII is
/// left to the name.
#[verifier::external_body]
pub(crate) fn to_lowercase(s: &str) -> (r: String)
    ensures
        is_ascii_text(s@) ==> r@ == ascii_lowercase(s@),
        !is_ascii_text(s@) ==> r@ == unicode_lowercase(s@),
{
    s.to_lowercase()
}

/// `str::to_uppercase`: the Unicode uppercase mapping of a text. In ASCII it
/// takes `a` to `z` to `A` to `Z` and keeps the rest; what it is beyond ASCII is
/// left to the name.
#[verifier::external_body]
pub(crate) fn to_uppercase(s: &str) -> (r: String)
    ensures
        is_ascii_text(s@) ==> r@ == ascii_uppercase(s@),
        !is_ascii_text(s@) ==> r@ == unicode_uppercase(s@),
{
    s.to_uppercase()
}

/// `char::is_whitespace`: whether a character has the Unicode `White_Space`
/// property.
#[verifier::external_body]
pub(crate) fn char_is_space(c: char) -> (r: bool)
    ensures
        r == is_space(c),
{
    c.is_whitespace()
}

/// `String::push`: appends one character at the end.
#[verifier::external_body]
pub(crate) fn push_char(s: &mut String, c: char)
    ensures
        final(s)@ == old(s)@.push(c),
{
    s.push(c)
}

pub fn text_eq(a: &str, b: &str) -> (r: bool)
    ensures
        r == (a@ == b@),
{
    a.to_owned() == b.to_owned()
}

pub fn chars_of(s: &str) -> (r: Vec<char>)
    ensures
        r@ == s@,
{
    let mut out: Vec<char> = Vec::new();
    for c in it: s.chars()
        invariant
            out@ == it.seq().take(it.index()),
            it.seq() == s@,
    {
        proof {
            assert(it.seq().take(it.index() + 1) =~= it.seq().take(it.index()).push(c));
        }
        out.push(c);
    }
    assert(out@ =~= s@);
    out
}

/// The text made of the characters from `from` up to `to`.
pub fn text_of(v: &Vec<char>, from: usize, to: usize) -> (r: String)
    requires
        from <= to <= v.len(),
    ensures
        r@ == v@.subrange(from as int, to as int),
{
    let mut out = String::new();
    let mut i: usize = from;
    assert(out@ =~= v@.subrange(from as int, i as int));
    while i < to
        invariant
            from <= i <= to <= v.len(),
            out@ == v@.subrange(from as int, i as int),
        decreases to - i,
    {
        push_char(&mut out, v[i]);
        assert(v@.subrange(from as int, i + 1) =~= v@.subrange(from as int, i as int).push(v@[i as int]));
        i = i + 1;
    }
    out
}

pub fn join2(a: &str, b: &str) -> (r: String)
    ensures
        r@ == a@ + b@,
{
    let mut out = a.to_owned();
    out.append(b);
    out
}

pub fn join3(a: &str, b: &str, c: &str) -> (r: String)
    ensures
        r@ == a@ + b@ + c@,
{
    let mut out = a.to_owned();
    out.append(b);
    out.append(c);
    out
}

pub fn join4(a: &str, b: &str, c: &str, d: &str) -> (r: String)
    ensures
        r@ == a@ + b@ + c@ + d@,
{
    let mut out = a.to_owned();
    out.append(b);
    out.append(c);
    out.append(d);
    out
}

pub fn join5(a: &str, b: &str, c: &str, d: &str, e: &str) -> (r: String)
    ensures
        r@ == a@ + b@ + c@ + d@ + e@,
{
    let mut out = a.to_owned();
    out.append(b);
    out.append(c);
    out.append(d);
    out.append(e);
    out
}

pub fn char_ascii_lower(c: char) -> (r: char)
    ensures
        r == ascii_lower(c),
{
    if c >= 'A' && c <= 'Z' {
        ((c as u8) + 32u8) as char
    } else {
        c
    }
}

pub fn to_ascii_lowercase(s: &str) -> (r: String)
    ensures
        r@ == ascii_lowercase(s@),
{
    let v = chars_of(s);
    let mut out = String::new();
    let mut i: usize = 0;
    assert(out@ =~= ascii_lowercase(v@.take(0)));
    while i < v.len()
        invariant
            i <= v.len(),
            out@ == ascii_lowercase(v@.take(i as int)),
        decreases v.len() - i,
    {
        push_char(&mut out, char_ascii_lower(v[i]));
        assert(ascii_lowercase(v@.take(i + 1)) =~= ascii_lowercase(v@.take(i as int)).push(ascii_lower(v@[i as int])));
        i = i + 1;
    }
    assert(v@.take(v.len() as int) =~= v@);
    out
}

pub fn eq_ignore_ascii_case(a: &str, b: &str) -> (r: bool)
    ensures
        r == (ascii_lowercase(a@) == ascii_lowercase(b@)),
{
    to_ascii_lowercase(a) == to_ascii_lowercase(b)
}

/// The number of leading whitespace characters.
pub open spec fn leading_space(s: Seq<char>) -> int
    decreases s.len(),
{
    if s.len() > 0 && is_space(s[0]) {
        1 + leading_space(s.drop_first())
    } else {
        0
    }
}

/// The length of the text without its trailing whitespace.
pub open spec fn end_without_space(s: Seq<char>) -> int
    decreases s.len(),
{
    if s.len() > 0 && is_space(s.last()) {
        end_without_space(s.drop_last())
    } else {
        s.len() as int
    }
}

pub open spec fn trimmed_end(s: Seq<char>) -> Seq<char> {
    s.take(end_without_space(s))
}

pub open spec fn trimmed(s: Seq<char>) -> Seq<char> {
    trimmed_end(s.skip(leading_space(s)))
}

pub proof fn lemma_space_bounds(s: Seq<char>)
    ensures
        0 <= leading_space(s) <= s.len(),
        0 <= end_without_space(s) <= s.len(),
    decreases s.len(),
{
    if s.len() > 0 {
        lemma_space_bounds(s.drop_first());
        lemma_space_bounds(s.drop_last());
    }
}

proof fn lemma_leading_space_at(s: Seq<char>, i: int)
    requires
        0 <= i <= s.len(),
        forall|j: int| 0 <= j < i ==> is_space(#[trigger] s[j]),
        i < s.len() ==> !is_space(s[i]),
    ensures
        leading_space(s) == i,
    decreases i,
{
    if i > 0 {
        let t = s.drop_first();
        assert(is_space(s[0]));
        assert forall|j: int| 0 <= j < i - 1 implies is_space(#[trigger] t[j]) by {
            assert(is_space(s[j + 1]));
        }
        lemma_leading_space_at(t, i - 1);
    }
}

/// The slice of `v` between `from` and the end, trimmed at its end.
pub(crate) fn trim_end_at(v: &Vec<char>, from: usize, to: usize) -> (r: usize)
    requires
        from <= to <= v.len(),
    ensures
        from <= r <= to,
        r == from + end_without_space(v@.subrange(from as int, to as int)),
{
    let mut r: usize = to;
    while r > from && char_is_space(v[r - 1])
        invariant
            from <= r <= to <= v.len(),
            end_without_space(v@.subrange(from as int, r as int)) == end_without_space(
                v@.subrange(from as int, to as int),
            ),
        decreases r,
    {
        assert(v@.subrange(from as int, r as int).drop_last() =~= v@.subrange(from as int, r - 1));
        r = r - 1;
    }
    r
}

pub(crate) fn trim_start_at(v: &Vec<char>) -> (r: usize)
    ensures
        r == leading_space(v@),
        r <= v.len(),
{
    let mut r: usize = 0;
    while r < v.len() && char_is_space(v[r])
        invariant
            r <= v.len(),
            forall|j: int| 0 <= j < r ==> is_space(#[trigger] v@[j]),
        decreases v.len() - r,
    {
        r = r + 1;
    }
    proof {
        lemma_leading_space_at(v@, r as int);
    }
    r
}

pub fn trim(s: &str) -> (r: String)
    ensures
        r@ == trimmed(s@),
{
    let v = chars_of(s);
    let from = trim_start_at(&v);
    let to = trim_end_at(&v, from, v.len());
    proof {
        assert(v@.subrange(from as int, v.len() as int) =~= s@.skip(leading_space(s@)));
        assert(v@.subrange(from as int, to as int) =~= trimmed(s@));
    }
    text_of(&v, from, to)
}

/// Whether `pat` stands in `s` at position `i`.
pub open spec fn occurs_at(s: Seq<char>, pat: Seq<char>, i: int) -> bool {
    0 <= i && i + pat.len() <= s.len() && s.subrange(i, i + pat.len()) == pat
}

pub open spec fn occurs_in(s: Seq<char>, pat: Seq<char>) -> bool {
    exists|i: int| occurs_at(s, pat, i)
}

pub(crate) fn vec_occurs_at(v: &Vec<char>, pat: &Vec<char>, at: usize) -> (r: bool)
    ensures
        r == occurs_at(v@, pat@, at as int),
{
    if pat.len() > v.len() || at > v.len() - pat.len() {
        return false;
    }
    let mut i: usize = 0;
    while i < pat.len()
        invariant
            i <= pat.len(),
            at + pat.len() <= v.len(),
            forall|j: int| 0 <= j < i ==> v@[at + j] == #[trigger] pat@[j],
        decreases pat.len() - i,
    {
        if v[at + i] != pat[i] {
            assert(v@.subrange(at as int, at + pat.len())[i as int] != pat@[i as int]);
            return false;
        }
        i = i + 1;
    }
    assert(v@.subrange(at as int, at + pat.len()) =~= pat@);
    true
}

pub fn starts_with(s: &str, pat: &str) -> (r: bool)
    ensures
        r == pat@.is_prefix_of(s@),
{
    let v = chars_of(s);
    let p = chars_of(pat);
    let r = vec_occurs_at(&v, &p, 0);
    proof {
        if r {
            assert(pat@ =~= s@.subrange(0, pat@.len() as int));
        }
    }
    r
}

pub fn contains(s: &str, pat: &str) -> (r: bool)
    ensures
        r == occurs_in(s@, pat@),
{
    let v = chars_of(s);
    let p = chars_of(pat);
    if p.len() > v.len() {
        assert(!occurs_in(s@, pat@));
        return false;
    }
    let last: usize = v.len() - p.len();
    let mut i: usize = 0;
    while i < last
        invariant
            v@ == s@,
            p@ == pat@,
            last == v.len() - p.len(),
            i <= last,
            forall|j: int| 0 <= j < i ==> !#[trigger] occurs_at(v@, p@, j),
        decreases last - i,
    {
        if vec_occurs_at(&v, &p, i) {
            assert(occurs_at(s@, pat@, i as int));
            return true;
        }
        i = i + 1;
    }
    let r = vec_occurs_at(&v, &p, last);
    if r {
        assert(occurs_at(s@, pat@, last as int));
    }
    r
}

/// The position of the first `c`, or the length where there is none.
pub open spec fn first_index(s: Seq<char>, c: char) -> int
    decreases s.len(),
{
    if s.len() == 0 || s[0] == c {
        0
    } else {
        1 + first_index(s.drop_first(), c)
    }
}

proof fn lemma_first_index_at(s: Seq<char>, c: char, i: int)
    requires
        0 <= i <= s.len(),
        forall|j: int| 0 <= j < i ==> #[trigger] s[j] != c,
        i < s.len() ==> s[i] == c,
    ensures
        first_index(s, c) == i,
    decreases i,
{
    if i > 0 {
        let t = s.drop_first();
        assert(s[0] != c);
        assert forall|j: int| 0 <= j < i - 1 implies #[trigger] t[j] != c by {
            assert(s[j + 1] != c);
        }
        lemma_first_index_at(t, c, i - 1);
    }
}

pub(crate) fn index_of(v: &Vec<char>, c: char) -> (r: usize)
    ensures
        r == first_index(v@, c),
        r <= v.len(),
        r < v.len() ==> v@[r as int] == c,
{
    let mut i: usize = 0;
    while i < v.len()
        invariant
            i <= v.len(),
            forall|j: int| 0 <= j < i ==> #[trigger] v@[j] != c,
        decreases v.len() - i,
    {
        if v[i] == c {
            proof {
                lemma_first_index_at(v@, c, i as int);
            }
            return i;
        }
        i = i + 1;
    }
    proof {
        lemma_first_index_at(v@, c, i as int);
    }
    i
}

/// Every `"` of a text written twice.
pub open spec fn doubled_quotes(s: Seq<char>) -> Seq<char>
    decreases s.len(),
{
    if s.len() == 0 {
        Seq::empty()
    } else if s.last() == '"' {
        doubled_quotes(s.drop_last()).push('"').push('"')
    } else {
        doubled_quotes(s.drop_last()).push(s.last())
    }
}

/// An identifier between double quotes, with the quotes in it doubled.
pub open spec fn quoted_identifier(s: Seq<char>) -> Seq<char> {
    seq!['"'] + doubled_quotes(s) + seq!['"']
}

pub fn quote_identifier(s: &str) -> (r: String)
    ensures
        r@ == quoted_identifier(s@),
{
    let v = chars_of(s);
    let mut out = String::new();
    push_char(&mut out, '"');
    let mut i: usize = 0;
    assert(out@ =~= seq!['"'] + doubled_quotes(v@.take(0)));
    while i < v.len()
        invariant
            i <= v.len(),
            out@ == seq!['"'] + doubled_quotes(v@.take(i as int)),
        decreases v.len() - i,
    {
        let ghost before = out@;
        assert(v@.take(i + 1).drop_last() =~= v@.take(i as int));
        assert(v@.take(i + 1).last() == v@[i as int]);
        if v[i] == '"' {
            push_char(&mut out, '"');
        }
        push_char(&mut out, v[i]);
        assert(out@ =~= seq!['"'] + doubled_quotes(v@.take(i + 1)));
        i = i + 1;
    }
    assert(v@.take(v.len() as int) =~= v@);
    push_char(&mut out, '"');
    assert(out@ =~= quoted_identifier(s@));
    out
}

/// The decimal digits of a number.
pub open spec fn decimal(n: nat) -> Seq<char>
    decreases n,
{
    let digit = ((48 + n % 10) as u32) as char;
    if n < 10 {
        seq![digit]
    } else {
        decimal(n / 10).push(digit)
    }
}

pub fn to_decimal(n: u128) -> (r: String)
    ensures
        r@ == decimal(n as nat),
    decreases n,
{
    let digit: char = (48u8 + (n % 10) as u8) as char;
    let mut out = if n < 10 {
        String::new()
    } else {
        to_decimal(n / 10)
    };
    push_char(&mut out, digit);
    proof {
        if n < 10 {
            assert(out@ =~= seq![digit]);
        }
    }
    out
}

pub proof fn lemma_decimal(n: nat)
    ensures
        decimal(n).len() > 0,
        forall|i: int| 0 <= i < decimal(n).len() ==> '0' <= #[trigger] decimal(n)[i] && decimal(n)[i] <= '9',
    decreases n,
{
    if n >= 10 {
        lemma_decimal(n / 10);
    }
}

/// Different numbers have different digits.
pub proof fn lemma_decimal_injective(a: nat, b: nat)
    requires
        decimal(a) == decimal(b),
    ensures
        a == b,
    decreases a,
{
    lemma_decimal(a / 10);
    lemma_decimal(b / 10);
    let x = decimal(a);
    let y = decimal(b);
    let p = ((48 + a % 10) as u32) as char;
    let q = ((48 + b % 10) as u32) as char;
    assert(x.last() == p);
    assert(y.last() == q);
    assert(p as u32 == 48 + a % 10);
    assert(q as u32 == 48 + b % 10);
    assert(a % 10 == b % 10);
    if a >= 10 && b >= 10 {
        assert(x.drop_last() =~= decimal(a / 10));
        assert(y.drop_last() =~= decimal(b / 10));
        lemma_decimal_injective(a / 10, b / 10);
    } else if a >= 10 {
        assert(x.len() == decimal(a / 10).len() + 1);
        assert(y.len() == 1);
    } else if b >= 10 {
        assert(y.len() == decimal(b / 10).len() + 1);
        assert(x.len() == 1);
    }
}

/// The length of the first word of a text that does not start with whitespace.
pub open spec fn word_len(s: Seq<char>) -> int
    decreases s.len(),
{
    if s.len() == 0 || is_space(s[0]) {
        0
    } else {
        1 + word_len(s.drop_first())
    }
}

pub proof fn lemma_word_len(s: Seq<char>)
    ensures
        0 <= word_len(s) <= s.len(),
        s.len() > 0 && !is_space(s[0]) ==> word_len(s) > 0,
    decreases s.len(),
{
    if s.len() > 0 && !is_space(s[0]) {
        lemma_word_len(s.drop_first());
    }
}

/// The word at a position among the words of a text.
pub open spec fn nth_word(s: Seq<char>, n: nat) -> Option<Seq<char>>
    decreases n,
{
    let t = s.skip(leading_space(s));
    if t.len() == 0 {
        None
    } else if n == 0 {
        Some(t.take(word_len(t)))
    } else {
        nth_word(t.skip(word_len(t)), (n - 1) as nat)
    }
}

proof fn lemma_word_len_at(s: Seq<char>, i: int)
    requires
        0 <= i <= s.len(),
        forall|j: int| 0 <= j < i ==> !is_space(#[trigger] s[j]),
        i < s.len() ==> is_space(s[i]),
    ensures
        word_len(s) == i,
    decreases i,
{
    if i > 0 {
        let t = s.drop_first();
        assert(!is_space(s[0]));
        assert forall|j: int| 0 <= j < i - 1 implies !is_space(#[trigger] t[j]) by {
            assert(!is_space(s[j + 1]));
        }
        lemma_word_len_at(t, i - 1);
    }
}

/// The word at a position, by its characters.
pub(crate) fn find_word(text: &str, n: u8) -> (r: Option<Vec<char>>)
    ensures
        match r {
            Some(word) => nth_word(text@, n as nat) == Some(word@),
            None => nth_word(text@, n as nat) is None,
        },
{
    let v = chars_of(text);
    let mut at: usize = 0;
    let mut left: u8 = n;
    assert(v@.skip(0) =~= text@);
    loop
        invariant
            at <= v.len(),
            nth_word(v@.skip(at as int), left as nat) == nth_word(text@, n as nat),
        decreases left,
    {
        let ghost s = v@.skip(at as int);
        let mut from = at;
        while from < v.len() && char_is_space(v[from])
            invariant
                at <= from <= v.len(),
                forall|j: int| at <= j < from ==> is_space(#[trigger] v@[j]),
            decreases v.len() - from,
        {
            from = from + 1;
        }
        proof {
            assert forall|j: int| 0 <= j < from - at implies is_space(#[trigger] s[j]) by {
                assert(s[j] == v@[at + j]);
            }
            if from < v.len() {
                assert(s[from - at] == v@[from as int]);
            }
            lemma_leading_space_at(s, from - at);
            assert(s.skip(from - at) =~= v@.skip(from as int));
        }
        if from == v.len() {
            return None;
        }
        let mut to = from;
        while to < v.len() && !char_is_space(v[to])
            invariant
                from <= to <= v.len(),
                forall|j: int| from <= j < to ==> !is_space(#[trigger] v@[j]),
            decreases v.len() - to,
        {
            to = to + 1;
        }
        proof {
            let t = v@.skip(from as int);
            assert forall|j: int| 0 <= j < to - from implies !is_space(#[trigger] t[j]) by {
                assert(t[j] == v@[from + j]);
            }
            if to < v.len() {
                assert(t[to - from] == v@[to as int]);
            }
            lemma_word_len_at(t, to - from);
            assert(t.take(to - from) =~= v@.subrange(from as int, to as int));
            assert(t.skip(to - from) =~= v@.skip(to as int));
        }
        if left == 0 {
            let mut word: Vec<char> = Vec::new();
            let mut i = from;
            while i < to
                invariant
                    from <= i <= to <= v.len(),
                    word@ == v@.subrange(from as int, i as int),
                decreases to - i,
            {
                word.push(v[i]);
                assert(v@.subrange(from as int, i + 1) =~= v@.subrange(from as int, i as int).push(v@[i as int]));
                i = i + 1;
            }
            return Some(word);
        }
        at = to;
        left = left - 1;
    }
}

/// The texts of a list with a separator between them.
pub open spec fn joined(list: Seq<Seq<char>>, separator: Seq<char>) -> Seq<char>
    decreases list.len(),
{
    if list.len() == 0 {
        Seq::empty()
    } else if list.len() == 1 {
        list[0]
    } else {
        joined(list.drop_last(), separator) + separator + list.last()
    }
}

pub fn join_all(list: &Vec<String>, separator: &str) -> (r: String)
    ensures
        r@ == joined(list.deep_view(), separator@),
{
    let ghost s = list.deep_view();
    let mut out = String::new();
    assert(out@ =~= Seq::<char>::empty());
    let mut i: usize = 0;
    while i < list.len()
        invariant
            i <= list.len(),
            s == list.deep_view(),
            out@ == joined(s.take(i as int), separator@),
        decreases list.len() - i,
    {
        proof {
            assert(s[i as int] == list@[i as int]@);
            assert(s.take(i + 1).drop_last() =~= s.take(i as int));
            assert(s.take(i + 1).last() == s[i as int]);
        }
        if i == 0 {
            out = list[i].clone();
        } else {
            out = join3(&out, separator, &list[i]);
        }
        i = i + 1;
    }
    assert(s.take(s.len() as int) =~= s);
    out
}

/// What `std` shows of a list of texts with `{:?}`.
pub uninterp spec fn debug_list(list: Seq<Seq<char>>) -> Seq<char>;

/// `std`'s `Debug` of a `Vec<String>`: the text that it formats to depends on
/// the listed texts alone, and has the name `debug_list`.
#[verifier::external_body]
pub(crate) fn show_list(list: &Vec<String>) -> (r: String)
    ensures
        r@ == debug_list(list.deep_view()),
{
    format!("{:?}", list)
}

} // verus!
