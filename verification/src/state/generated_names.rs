//! Names for objects that a statement creates without naming them.
use crate::collections::VecSet;
use crate::identifiers::{object, ObjectId, ObjectIdView};
use crate::model::Overlay;
use crate::state::lookup::{is_index, namespace_taken, present};
use crate::state::{data_of, AnalysisState, StateData};
use crate::text::{chars_of, decimal, join2, join3, join5, lemma_decimal, lemma_decimal_injective, text_of, to_decimal};
use vstd::prelude::*;

verus! {

/// The longest identifier, in bytes.
pub const MAX_IDENTIFIER_BYTES: u128 = 63;

/// The bytes that a character takes in UTF-8.
pub open spec fn char_bytes(c: char) -> nat {
    if (c as u32) < 0x80 {
        1
    } else if (c as u32) < 0x800 {
        2
    } else if (c as u32) < 0x10000 {
        3
    } else {
        4
    }
}

pub open spec fn text_bytes(s: Seq<char>) -> nat
    decreases s.len(),
{
    if s.len() == 0 {
        0
    } else {
        text_bytes(s.drop_last()) + char_bytes(s.last())
    }
}

/// The longest start of a text that fits into `room` bytes.
pub open spec fn fitting(s: Seq<char>, room: nat) -> Seq<char>
    decreases s.len(),
{
    if text_bytes(s) <= room || s.len() == 0 {
        s
    } else {
        fitting(s.drop_last(), room)
    }
}

/// How two texts share the room: the longer one gives way, and at equal length
/// the second.
pub open spec fn shares(a: nat, b: nat, room: nat) -> (nat, nat)
    decreases a + b,
{
    if a + b <= room {
        (a, b)
    } else if a > b {
        shares((a - 1) as nat, b, room)
    } else {
        shares(a, (b - 1) as nat, room)
    }
}

/// The room that is left beside a label and the separators.
pub open spec fn room_beside(label: Seq<char>, separators: nat) -> nat {
    if text_bytes(label) + separators <= MAX_IDENTIFIER_BYTES {
        (MAX_IDENTIFIER_BYTES - text_bytes(label) - separators) as nat
    } else {
        0
    }
}

/// The name of an object that belongs to `name1`.
pub open spec fn object_name(name1: Seq<char>, name2: Option<Seq<char>>, label: Seq<char>) -> Seq<char> {
    match name2 {
        Some(second) => {
            let share = shares(text_bytes(name1), text_bytes(second), room_beside(label, 2));
            fitting(name1, share.0) + "_"@ + fitting(second, share.1) + "_"@ + label
        },
        None => fitting(name1, shares(text_bytes(name1), 0, room_beside(label, 1)).0) + "_"@ + label,
    }
}

/// The label of the `n`th attempt.
pub open spec fn numbered(label: Seq<char>, n: nat) -> Seq<char> {
    if n == 0 {
        label
    } else {
        label + decimal(n)
    }
}

pub open spec fn numbered_name(name1: Seq<char>, name2: Option<Seq<char>>, label: Seq<char>, n: nat) -> Seq<char> {
    object_name(name1, name2, numbered(label, n))
}

pub open spec fn constraint_name_taken(d: StateData, table: ObjectIdView, reserved: Set<Seq<char>>, name: Seq<char>) -> bool {
    reserved.contains(name) || d.constraints.dom().contains((table, name))
}

/// Whether the `n`th attempt is the first one whose name is free.
pub open spec fn is_first_constraint_name(
    d: StateData,
    table: ObjectIdView,
    name1: Seq<char>,
    name2: Option<Seq<char>>,
    label: Seq<char>,
    reserved: Set<Seq<char>>,
    n: nat,
) -> bool {
    &&& !constraint_name_taken(d, table, reserved, numbered_name(name1, name2, label, n))
    &&& forall|m: nat| m < n ==> constraint_name_taken(d, table, reserved, #[trigger] numbered_name(name1, name2, label, m))
}

/// The name of a constraint that the statement does not name.
#[verifier::opaque]
pub open spec fn constraint_name(
    d: StateData,
    table: ObjectIdView,
    name1: Seq<char>,
    name2: Option<Seq<char>>,
    label: Seq<char>,
    reserved: Set<Seq<char>>,
) -> Seq<char> {
    numbered_name(name1, name2, label, choose|n: nat| is_first_constraint_name(d, table, name1, name2, label, reserved, n))
}

pub open spec fn sequence_id_taken(d: StateData, reserved: Set<ObjectIdView>, id: ObjectIdView) -> bool {
    reserved.contains(id) || namespace_taken(d, id)
}

pub open spec fn numbered_sequence(table: ObjectIdView, column: Seq<char>, n: nat) -> ObjectIdView {
    object(table.schema, numbered_name(table.name, Some(column), "seq"@, n))
}

pub open spec fn is_first_sequence_id(d: StateData, table: ObjectIdView, column: Seq<char>, reserved: Set<ObjectIdView>, n: nat) -> bool {
    &&& !sequence_id_taken(d, reserved, numbered_sequence(table, column, n))
    &&& forall|m: nat| m < n ==> sequence_id_taken(d, reserved, #[trigger] numbered_sequence(table, column, m))
}

/// The sequence that a serial or identity column draws from.
#[verifier::opaque]
pub open spec fn implicit_sequence(d: StateData, table: ObjectIdView, column: Seq<char>, reserved: Set<ObjectIdView>) -> ObjectIdView {
    numbered_sequence(table, column, choose|n: nat| is_first_sequence_id(d, table, column, reserved, n))
}

proof fn lemma_fitting(s: Seq<char>, room: nat)
    ensures
        text_bytes(fitting(s, room)) <= room,
    decreases s.len(),
{
    if text_bytes(s) > room && s.len() > 0 {
        lemma_fitting(s.drop_last(), room);
    }
}

proof fn lemma_shares(a: nat, b: nat, room: nat)
    ensures
        shares(a, b, room).0 + shares(a, b, room).1 <= room,
        shares(a, b, room).0 <= a,
        shares(a, b, room).1 <= b,
    decreases a + b,
{
    if a + b > room {
        if a > b {
            lemma_shares((a - 1) as nat, b, room);
        } else {
            lemma_shares(a, (b - 1) as nat, room);
        }
    }
}

proof fn lemma_bytes_add(a: Seq<char>, b: Seq<char>)
    ensures
        text_bytes(a + b) == text_bytes(a) + text_bytes(b),
    decreases b.len(),
{
    if b.len() == 0 {
        assert(a + b =~= a);
    } else {
        lemma_bytes_add(a, b.drop_last());
        assert((a + b).drop_last() =~= a + b.drop_last());
        assert((a + b).last() == b.last());
    }
}

/// A generated name is a legal identifier, as long as its label leaves room.
pub proof fn law_generated_name_fits(name1: Seq<char>, name2: Option<Seq<char>>, label: Seq<char>)
    requires
        text_bytes(label) + 2 <= MAX_IDENTIFIER_BYTES,
    ensures
        text_bytes(object_name(name1, name2, label)) <= MAX_IDENTIFIER_BYTES,
{
    reveal_strlit("_");
    assert("_"@.drop_last() =~= Seq::<char>::empty());
    assert(text_bytes("_"@) == 1) by {
        reveal_with_fuel(text_bytes, 3);
    }
    match name2 {
        Some(second) => {
            let room = room_beside(label, 2);
            let share = shares(text_bytes(name1), text_bytes(second), room);
            lemma_shares(text_bytes(name1), text_bytes(second), room);
            lemma_fitting(name1, share.0);
            lemma_fitting(second, share.1);
            lemma_bytes_add(fitting(name1, share.0), "_"@);
            lemma_bytes_add(fitting(name1, share.0) + "_"@, fitting(second, share.1));
            lemma_bytes_add(fitting(name1, share.0) + "_"@ + fitting(second, share.1), "_"@);
            lemma_bytes_add(fitting(name1, share.0) + "_"@ + fitting(second, share.1) + "_"@, label);
        },
        None => {
            let room = room_beside(label, 1);
            let share = shares(text_bytes(name1), 0, room);
            lemma_shares(text_bytes(name1), 0, room);
            lemma_fitting(name1, share.0);
            lemma_bytes_add(fitting(name1, share.0), "_"@);
            lemma_bytes_add(fitting(name1, share.0) + "_"@, label);
        },
    }
}

/// What stands before the last underscore and the label.
spec fn name_stem(name1: Seq<char>, name2: Option<Seq<char>>, label: Seq<char>) -> Seq<char> {
    match name2 {
        Some(second) => {
            let share = shares(text_bytes(name1), text_bytes(second), room_beside(label, 2));
            fitting(name1, share.0) + "_"@ + fitting(second, share.1)
        },
        None => fitting(name1, shares(text_bytes(name1), 0, room_beside(label, 1)).0),
    }
}

spec fn has_underscore(s: Seq<char>) -> bool {
    exists|i: int| 0 <= i < s.len() && #[trigger] s[i] == '_'
}

proof fn lemma_labels_differ(p: Seq<char>, x: Seq<char>, q: Seq<char>, y: Seq<char>)
    requires
        p + "_"@ + x == q + "_"@ + y,
        !has_underscore(x),
        !has_underscore(y),
    ensures
        x == y,
{
    reveal_strlit("_");
    let s = p + "_"@ + x;
    let t = q + "_"@ + y;
    assert(s.len() == p.len() + 1 + x.len());
    assert(t.len() == q.len() + 1 + y.len());
    if x.len() < y.len() {
        let i = p.len() as int;
        assert(s[i] == '_');
        assert(t[i] == y[i - q.len() - 1]);
        assert(has_underscore(y));
    } else if y.len() < x.len() {
        let i = q.len() as int;
        assert(t[i] == '_');
        assert(s[i] == x[i - p.len() - 1]);
        assert(has_underscore(x));
    } else {
        assert forall|i: int| 0 <= i < x.len() implies x[i] == y[i] by {
            assert(s[p.len() + 1 + i] == x[i]);
            assert(t[q.len() + 1 + i] == y[i]);
        }
        assert(x =~= y);
    }
}

/// Different attempts have different names.
proof fn lemma_numbered_differ(name1: Seq<char>, name2: Option<Seq<char>>, label: Seq<char>, m: nat, n: nat)
    requires
        !has_underscore(label),
        numbered_name(name1, name2, label, m) == numbered_name(name1, name2, label, n),
    ensures
        m == n,
{
    let x = numbered(label, m);
    let y = numbered(label, n);
    lemma_decimal(m);
    lemma_decimal(n);
    assert(!has_underscore(x)) by {
        if has_underscore(x) {
            let i = choose|i: int| 0 <= i < x.len() && #[trigger] x[i] == '_';
            if i < label.len() {
                assert(label[i] == '_');
            } else {
                assert(decimal(m)[i - label.len()] == '_');
            }
        }
    }
    assert(!has_underscore(y)) by {
        if has_underscore(y) {
            let i = choose|i: int| 0 <= i < y.len() && #[trigger] y[i] == '_';
            if i < label.len() {
                assert(label[i] == '_');
            } else {
                assert(decimal(n)[i - label.len()] == '_');
            }
        }
    }
    lemma_labels_differ(name_stem(name1, name2, x), x, name_stem(name1, name2, y), y);
    assert(x == y);
    if m > 0 && n > 0 {
        assert(decimal(m) =~= x.skip(label.len() as int));
        assert(decimal(n) =~= y.skip(label.len() as int));
        lemma_decimal_injective(m, n);
    }
}

/// As many different places cannot be had among fewer.
proof fn lemma_places(place: spec_fn(nat) -> int, k: nat, limit: nat)
    requires
        forall|n: nat| n < k ==> 0 <= #[trigger] place(n) < limit,
        forall|m: nat, n: nat| #![trigger place(m), place(n)] m < n < k ==> place(m) != place(n),
    ensures
        k <= limit,
{
    let all = vstd::set_lib::set_int_range(0, limit as int);
    vstd::set_lib::lemma_int_range(0, limit as int);
    let used = Set::new(|x: int| exists|n: nat| n < k && #[trigger] place(n) == x);
    lemma_used(place, k);
    assert(used.subset_of(all));
    vstd::set_lib::lemma_len_subset(used, all);
}

proof fn lemma_used(place: spec_fn(nat) -> int, k: nat)
    requires
        forall|m: nat, n: nat| #![trigger place(m), place(n)] m < n < k ==> place(m) != place(n),
    ensures
        Set::new(|x: int| exists|n: nat| n < k && #[trigger] place(n) == x).finite(),
        Set::new(|x: int| exists|n: nat| n < k && #[trigger] place(n) == x).len() == k,
    decreases k,
{
    let used = Set::new(|x: int| exists|n: nat| n < k && #[trigger] place(n) == x);
    if k == 0 {
        assert(used =~= Set::<int>::empty());
    } else {
        let j = (k - 1) as nat;
        let before = Set::new(|x: int| exists|n: nat| n < j && #[trigger] place(n) == x);
        lemma_used(place, j);
        assert(!before.contains(place(j))) by {
            if before.contains(place(j)) {
                let n = choose|n: nat| n < j && #[trigger] place(n) == place(j);
                assert(place(n) != place(j));
            }
        }
        assert forall|x: int| used.contains(x) <==> before.insert(place(j)).contains(x) by {
            if used.contains(x) && x != place(j) {
                let n = choose|n: nat| n < k && #[trigger] place(n) == x;
                assert(n < j);
            }
            if before.contains(x) {
                let n = choose|n: nat| n < j && #[trigger] place(n) == x;
                assert(n < k);
            }
        }
        assert(used =~= before.insert(place(j)));
    }
}

/// The first attempt that is free. What is taken has its place among `limit`
/// places, and no two attempts share one.
fn first_free<F: Fn(u128) -> bool>(
    is_taken: F,
    Ghost(taken): Ghost<spec_fn(nat) -> bool>,
    Ghost(place): Ghost<spec_fn(nat) -> int>,
    Ghost(limit): Ghost<nat>,
) -> (r: u128)
    requires
        forall|n: u128| is_taken.requires((n,)),
        forall|n: u128, b: bool| is_taken.ensures((n,), b) ==> b == taken(n as nat),
        forall|n: nat| #[trigger] taken(n) ==> 0 <= place(n) < limit,
        forall|m: nat, n: nat| #![trigger place(m), place(n)] m < n && taken(m) && taken(n) ==> place(m) != place(n),
        limit < u128::MAX,
    ensures
        !taken(r as nat),
        forall|m: nat| m < r ==> #[trigger] taken(m),
{
    let mut n: u128 = 0;
    while is_taken(n)
        invariant
            n <= limit,
            limit < u128::MAX,
            forall|n: u128| is_taken.requires((n,)),
            forall|n: u128, b: bool| is_taken.ensures((n,), b) ==> b == taken(n as nat),
            forall|n: nat| #[trigger] taken(n) ==> 0 <= place(n) < limit,
            forall|m: nat, n: nat| #![trigger place(m), place(n)] m < n && taken(m) && taken(n) ==> place(m) != place(n),
            forall|m: nat| m < n ==> #[trigger] taken(m),
        decreases limit - n,
    {
        proof {
            let k = (n + 1) as nat;
            assert forall|m: nat| m < k implies 0 <= #[trigger] place(m) < limit by {
                assert(taken(m));
            }
            assert forall|a: nat, b: nat| #![trigger place(a), place(b)] a < b < k implies place(a) != place(b) by {
                assert(taken(a) && taken(b));
            }
            lemma_places(place, k, limit);
        }
        n = n + 1;
    }
    n
}

fn byte_count(v: &Vec<char>) -> (r: u128)
    ensures
        r == text_bytes(v@),
{
    let mut count: u128 = 0;
    let mut i: usize = 0;
    assert(v@.take(0) =~= Seq::<char>::empty());
    while i < v.len()
        invariant
            i <= v.len(),
            count == text_bytes(v@.take(i as int)),
            count <= 4 * i,
        decreases v.len() - i,
    {
        proof {
            assert(v@.take(i + 1).drop_last() =~= v@.take(i as int));
            assert(v@.take(i + 1).last() == v@[i as int]);
        }
        let code: u32 = v[i] as u32;
        let width: u128 = if code < 0x80 {
            1
        } else if code < 0x800 {
            2
        } else if code < 0x10000 {
            3
        } else {
            4
        };
        count = count + width;
        i = i + 1;
    }
    assert(v@.take(v.len() as int) =~= v@);
    count
}

/// The longest start that fits.
fn truncate(value: &str, room: u128) -> (r: String)
    ensures
        r@ == fitting(value@, room as nat),
{
    let mut v = chars_of(value);
    let mut count = byte_count(&v);
    while count > room && v.len() > 0
        invariant
            count == text_bytes(v@),
            fitting(v@, room as nat) == fitting(value@, room as nat),
        decreases v.len(),
    {
        let ghost before = v@;
        let last = v[v.len() - 1];
        v.pop();
        let code: u32 = last as u32;
        let width: u128 = if code < 0x80 {
            1
        } else if code < 0x800 {
            2
        } else if code < 0x10000 {
            3
        } else {
            4
        };
        assert(v@ =~= before.drop_last());
        count = count - width;
    }
    let n = v.len();
    let r = text_of(&v, 0, n);
    assert(v@.subrange(0, n as int) =~= v@);
    r
}

fn share_room(a: u128, b: u128, room: u128) -> (r: (u128, u128))
    ensures
        (r.0 as nat, r.1 as nat) == shares(a as nat, b as nat, room as nat),
{
    let mut x = a;
    let mut y = b;
    while x > room || y > room - x
        invariant
            shares(x as nat, y as nat, room as nat) == shares(a as nat, b as nat, room as nat),
        decreases x + y,
    {
        if x > y {
            x = x - 1;
        } else {
            y = y - 1;
        }
    }
    (x, y)
}

fn room_for(label: &str, separators: u128) -> (r: u128)
    requires
        separators <= 2,
    ensures
        r == room_beside(label@, separators as nat),
{
    let used = byte_count(&chars_of(label));
    if used <= MAX_IDENTIFIER_BYTES - separators {
        MAX_IDENTIFIER_BYTES - separators - used
    } else {
        0
    }
}

pub(crate) fn postgres_object_name(name1: &str, name2: Option<&str>, label: &str) -> (r: String)
    ensures
        r@ == object_name(
            name1@,
            match name2 {
                Some(second) => Some(second@),
                None => None,
            },
            label@,
        ),
{
    let a = byte_count(&chars_of(name1));
    match name2 {
        Some(second) => {
            let b = byte_count(&chars_of(second));
            let (x, y) = share_room(a, b, room_for(label, 2));
            join5(&truncate(name1, x), "_", &truncate(second, y), "_", label)
        },
        None => {
            let (x, _) = share_room(a, 0, room_for(label, 1));
            join3(&truncate(name1, x), "_", label)
        },
    }
}

fn numbered_object_name(name1: &str, name2: Option<&str>, label: &str, n: u128) -> (r: String)
    ensures
        r@ == numbered_name(
            name1@,
            match name2 {
                Some(second) => Some(second@),
                None => None,
            },
            label@,
            n as nat,
        ),
{
    if n == 0 {
        postgres_object_name(name1, name2, label)
    } else {
        postgres_object_name(name1, name2, &join2(label, &to_decimal(n)))
    }
}

pub open spec fn is_label(label: Seq<char>) -> bool {
    forall|i: int| 0 <= i < label.len() ==> #[trigger] label[i] != '_'
}

impl AnalysisState {
    /// A name for a constraint, apart from those that exist and those that the
    /// same statement already uses.
    pub(crate) fn next_generated_constraint_name_avoiding(
        &self,
        table: &ObjectId,
        name1: &str,
        name2: Option<&str>,
        label: &str,
        reserved: &VecSet<String>,
    ) -> (r: String)
        requires
            is_label(label@),
        ensures
            r@ == constraint_name(
                self@.data,
                table@,
                name1@,
                match name2 {
                    Some(second) => Some(second@),
                    None => None,
                },
                label@,
                reserved@,
            ),
            !constraint_name_taken(self@.data, table@, reserved@, r@),
    {
        proof {
            reveal(data_of);
        }
        let ghost d = self@.data;
        let ghost second = match name2 {
            Some(second) => Some(second@),
            None => None,
        };
        let ghost taken = |n: nat| constraint_name_taken(d, table@, reserved@, numbered_name(name1@, second, label@, n));
        let held = reserved.len();
        let known = self.local.constraints.len();
        let ghost a = reserved.items();
        let ghost b = self.local.constraints.items();
        let ghost keys = b.map_values(|e: ((ObjectIdView, Seq<char>), crate::model::constraint::ConstraintStateView)| e.0);
        let ghost place = |n: nat|
            {
                let name = numbered_name(name1@, second, label@, n);
                if reserved@.contains(name) {
                    a.index_of(name)
                } else {
                    a.len() + keys.index_of((table@, name))
                }
            };
        let ghost limit = a.len() + b.len();
        proof {
            assert forall|n: nat| #[trigger] taken(n) implies 0 <= place(n) < limit by {
                let name = numbered_name(name1@, second, label@, n);
                if reserved@.contains(name) {
                    assert(a.contains(name));
                } else {
                    let i = choose|i: int| 0 <= i < b.len() && b[i].0 == (table@, name);
                    assert(keys[i] == (table@, name));
                    assert(keys.contains((table@, name)));
                }
            }
            assert forall|m: nat, n: nat| #![trigger place(m), place(n)] m < n && taken(m) && taken(n) implies place(m) != place(n) by {
                let x = numbered_name(name1@, second, label@, m);
                let y = numbered_name(name1@, second, label@, n);
                if x == y {
                    lemma_numbered_differ(name1@, second, label@, m, n);
                }
                assert(taken(m) && taken(n));
                if reserved@.contains(x) {
                    assert(a.contains(x));
                } else {
                    let i = choose|i: int| 0 <= i < b.len() && b[i].0 == (table@, x);
                    assert(keys[i] == (table@, x));
                    assert(keys.contains((table@, x)));
                }
                if reserved@.contains(y) {
                    assert(a.contains(y));
                } else {
                    let i = choose|i: int| 0 <= i < b.len() && b[i].0 == (table@, y);
                    assert(keys[i] == (table@, y));
                    assert(keys.contains((table@, y)));
                }
            }
        }
        let is_taken = |n: u128| -> (r: bool)
            ensures
                r == constraint_name_taken(
                    self@.data,
                    table@,
                    reserved@,
                    numbered_name(
                        name1@,
                        match name2 {
                            Some(second) => Some(second@),
                            None => None,
                        },
                        label@,
                        n as nat,
                    ),
                ),
            {
                let name = numbered_object_name(name1, name2, label, n);
                reserved.contains(&name) || self.constraint(table, &name).is_some()
            };
        let n = first_free(is_taken, Ghost(taken), Ghost(place), Ghost(limit));
        proof {
            assert forall|m: nat| m < n implies constraint_name_taken(
                d,
                table@,
                reserved@,
                #[trigger] numbered_name(name1@, second, label@, m),
            ) by {
                assert(taken(m));
            }
            assert(is_first_constraint_name(d, table@, name1@, second, label@, reserved@, n as nat));
            let k = choose|k: nat| is_first_constraint_name(d, table@, name1@, second, label@, reserved@, k);
            if k < n {
                assert(constraint_name_taken(d, table@, reserved@, numbered_name(name1@, second, label@, k)));
            }
            if n < k {
                assert(constraint_name_taken(d, table@, reserved@, numbered_name(name1@, second, label@, n as nat)));
            }
            reveal(constraint_name);
        }
        numbered_object_name(name1, name2, label, n)
    }

    pub(crate) fn next_implicit_sequence_id(&self, table: &ObjectId, column: &str, reserved: &VecSet<ObjectId>) -> (r: ObjectId)
        ensures
            r@ == implicit_sequence(self@.data, table@, column@, reserved@),
            !sequence_id_taken(self@.data, reserved@, r@),
    {
        proof {
            reveal(data_of);
            reveal_strlit("seq");
        }
        let ghost d = self@.data;
        let ghost taken = |n: nat| sequence_id_taken(d, reserved@, numbered_sequence(table@, column@, n));
        let held = reserved.len();
        let relations = self.local.relations.len();
        let sequences = self.local.sequences.len();
        let types = self.local.types.len();
        let edges = self.local.graph.edge_count();
        let ghost a = reserved.items();
        let ghost b = self.local.relations.items().map_values(|e: (ObjectIdView, Overlay<crate::model::relation::RelationStateView>)| e.0);
        let ghost c = self.local.sequences.items().map_values(|e: (ObjectIdView, Overlay<crate::model::sequence::SequenceStateView>)| e.0);
        let ghost t = self.local.types.items().map_values(|e: (ObjectIdView, Overlay<crate::model::types::TypeStateView>)| e.0);
        let ghost g = d.graph.map_values(|e: crate::graph::DependencyEdgeView| e.dependent);
        let ghost place = |n: nat| place_of(numbered_sequence(table@, column@, n), a, b, c, t, g);
        let ghost limit = a.len() + b.len() + c.len() + t.len() + g.len();
        proof {
            assert forall|n: nat| #[trigger] taken(n) implies is_placed(numbered_sequence(table@, column@, n), a, b, c, t, g) by {
                let id = numbered_sequence(table@, column@, n);
                if reserved@.contains(id) {
                    assert(a.contains(id));
                } else if present(d.relations, id) {
                    let i = choose|i: int| 0 <= i < b.len() && self.local.relations.items()[i].0 == id;
                    assert(b[i] == id);
                } else if present(d.sequences, id) {
                    let i = choose|i: int| 0 <= i < c.len() && self.local.sequences.items()[i].0 == id;
                    assert(c[i] == id);
                } else if present(d.types, id) {
                    let i = choose|i: int| 0 <= i < t.len() && self.local.types.items()[i].0 == id;
                    assert(t[i] == id);
                } else {
                    let i = choose|i: int| 0 <= i < d.graph.len() && is_index(#[trigger] d.graph[i], id);
                    assert(g[i] == id);
                }
            }
            assert forall|n: nat| #[trigger] taken(n) implies 0 <= place(n) < limit by {
                lemma_place_of(numbered_sequence(table@, column@, n), a, b, c, t, g);
            }
            assert forall|m: nat, n: nat| #![trigger place(m), place(n)] m < n && taken(m) && taken(n) implies place(m) != place(n) by {
                let x = numbered_sequence(table@, column@, m);
                let y = numbered_sequence(table@, column@, n);
                if x == y {
                    lemma_numbered_differ(table@.name, Some(column@), "seq"@, m, n);
                }
                assert(taken(m) && taken(n));
                lemma_place_differs(x, y, a, b, c, t, g);
            }
        }
        let is_taken = |n: u128| -> (r: bool)
            ensures
                r == sequence_id_taken(self@.data, reserved@, numbered_sequence(table@, column@, n as nat)),
            {
                let id = ObjectId::new(&table.schema, &numbered_object_name(&table.name, Some(column), "seq", n));
                reserved.contains(&id) || self.relation_namespace_is_taken(&id)
            };
        let n = first_free(is_taken, Ghost(taken), Ghost(place), Ghost(limit));
        proof {
            assert forall|m: nat| m < n implies sequence_id_taken(d, reserved@, #[trigger] numbered_sequence(table@, column@, m)) by {
                assert(taken(m));
            }
            assert(is_first_sequence_id(d, table@, column@, reserved@, n as nat));
            let k = choose|k: nat| is_first_sequence_id(d, table@, column@, reserved@, k);
            if k < n {
                assert(sequence_id_taken(d, reserved@, numbered_sequence(table@, column@, k)));
            }
            if n < k {
                assert(sequence_id_taken(d, reserved@, numbered_sequence(table@, column@, n as nat)));
            }
            reveal(implicit_sequence);
        }
        ObjectId::new(&table.schema, &numbered_object_name(&table.name, Some(column), "seq", n))
    }
}

spec fn is_placed(
    id: ObjectIdView,
    a: Seq<ObjectIdView>,
    b: Seq<ObjectIdView>,
    c: Seq<ObjectIdView>,
    t: Seq<ObjectIdView>,
    g: Seq<ObjectIdView>,
) -> bool {
    a.contains(id) || b.contains(id) || c.contains(id) || t.contains(id) || g.contains(id)
}

spec fn place_of(
    id: ObjectIdView,
    a: Seq<ObjectIdView>,
    b: Seq<ObjectIdView>,
    c: Seq<ObjectIdView>,
    t: Seq<ObjectIdView>,
    g: Seq<ObjectIdView>,
) -> int {
    (a + b + c + t + g).index_of(id)
}

proof fn lemma_place_of(
    id: ObjectIdView,
    a: Seq<ObjectIdView>,
    b: Seq<ObjectIdView>,
    c: Seq<ObjectIdView>,
    t: Seq<ObjectIdView>,
    g: Seq<ObjectIdView>,
)
    requires
        is_placed(id, a, b, c, t, g),
    ensures
        0 <= place_of(id, a, b, c, t, g) < a.len() + b.len() + c.len() + t.len() + g.len(),
        (a + b + c + t + g)[place_of(id, a, b, c, t, g)] == id,
{
    let all = a + b + c + t + g;
    if a.contains(id) {
        let i = choose|i: int| 0 <= i < a.len() && a[i] == id;
        assert(all[i] == id);
    } else if b.contains(id) {
        let i = choose|i: int| 0 <= i < b.len() && b[i] == id;
        assert(all[a.len() + i] == id);
    } else if c.contains(id) {
        let i = choose|i: int| 0 <= i < c.len() && c[i] == id;
        assert(all[a.len() + b.len() + i] == id);
    } else if t.contains(id) {
        let i = choose|i: int| 0 <= i < t.len() && t[i] == id;
        assert(all[a.len() + b.len() + c.len() + i] == id);
    } else {
        let i = choose|i: int| 0 <= i < g.len() && g[i] == id;
        assert(all[a.len() + b.len() + c.len() + t.len() + i] == id);
    }
    assert(all.contains(id));
}

proof fn lemma_place_differs(
    x: ObjectIdView,
    y: ObjectIdView,
    a: Seq<ObjectIdView>,
    b: Seq<ObjectIdView>,
    c: Seq<ObjectIdView>,
    t: Seq<ObjectIdView>,
    g: Seq<ObjectIdView>,
)
    requires
        is_placed(x, a, b, c, t, g),
        is_placed(y, a, b, c, t, g),
        x != y,
    ensures
        place_of(x, a, b, c, t, g) != place_of(y, a, b, c, t, g),
{
    lemma_place_of(x, a, b, c, t, g);
    lemma_place_of(y, a, b, c, t, g);
}

} // verus!
