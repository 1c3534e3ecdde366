//! Insertion-ordered maps and sets whose contents are described by the
//! mathematical `Map` and `Set` of their elements' views.
use vstd::prelude::*;

verus! {

/// A value that can be copied without changing what it stands for.
pub trait Dup: DeepView + Sized {
    fn dup(&self) -> (r: Self)
        ensures
            r.deep_view() == self.deep_view(),
    ;
}

/// A value that can be compared by what it stands for.
pub trait Key: Dup {
    fn same(&self, other: &Self) -> (r: bool)
        ensures
            r == (self.deep_view() == other.deep_view()),
    ;
}

impl Dup for bool {
    fn dup(&self) -> (r: Self) {
        *self
    }
}

impl Dup for u64 {
    fn dup(&self) -> (r: Self) {
        *self
    }
}

impl Dup for usize {
    fn dup(&self) -> (r: Self) {
        *self
    }
}

impl Dup for u32 {
    fn dup(&self) -> (r: Self) {
        *self
    }
}

impl Dup for String {
    fn dup(&self) -> (r: Self) {
        self.clone()
    }
}

impl Key for String {
    fn same(&self, other: &Self) -> (r: bool) {
        *self == *other
    }
}

impl<A: Dup, B: Dup> Dup for (A, B) {
    fn dup(&self) -> (r: Self) {
        (self.0.dup(), self.1.dup())
    }
}

impl<A: Key, B: Key> Key for (A, B) {
    fn same(&self, other: &Self) -> (r: bool) {
        self.0.same(&other.0) && self.1.same(&other.1)
    }
}

impl<T: Dup> Dup for Option<T> {
    fn dup(&self) -> (r: Self) {
        match self {
            Some(v) => Some(v.dup()),
            None => None,
        }
    }
}

impl<T: Key> Key for Option<T> {
    fn same(&self, other: &Self) -> (r: bool) {
        match (self, other) {
            (Some(a), Some(b)) => a.same(b),
            (None, None) => true,
            _ => false,
        }
    }
}

impl<T: Dup> Dup for Box<T> {
    fn dup(&self) -> (r: Self) {
        Box::new((**self).dup())
    }
}

impl<T: Dup> Dup for Vec<T> {
    fn dup(&self) -> (r: Self) {
        let mut out: Vec<T> = Vec::new();
        let mut i: usize = 0;
        while i < self.len()
            invariant
                i <= self.len(),
                out.len() == i,
                forall|j: int| 0 <= j < i ==> #[trigger] out@[j].deep_view() == self@[j].deep_view(),
            decreases self.len() - i,
        {
            out.push(self[i].dup());
            i = i + 1;
        }
        assert(out.deep_view() =~= self.deep_view());
        out
    }
}

impl<T: Key> Key for Vec<T> {
    fn same(&self, other: &Self) -> (r: bool) {
        if self.len() != other.len() {
            assert(self.deep_view().len() != other.deep_view().len());
            return false;
        }
        let mut i: usize = 0;
        while i < self.len()
            invariant
                i <= self.len(),
                self.len() == other.len(),
                forall|j: int| 0 <= j < i ==> #[trigger] self@[j].deep_view() == other@[j].deep_view(),
            decreases self.len() - i,
        {
            if !self[i].same(&other[i]) {
                assert(self.deep_view()[i as int] != other.deep_view()[i as int]);
                return false;
            }
            i = i + 1;
        }
        assert(self.deep_view() =~= other.deep_view());
        true
    }
}

/// A finite map that remembers insertion order. No key occurs twice.
#[derive(Debug)]
pub struct VecMap<K: Key, V: Dup> {
    entries: Vec<(K, V)>,
}

pub open spec fn distinct_keys<A, B>(s: Seq<(A, B)>) -> bool {
    forall|i: int, j: int| #![trigger s[i], s[j]] 0 <= i < j < s.len() ==> s[i].0 != s[j].0
}

/// The map that a list of key and value pairs stands for.
pub open spec fn map_of<A, B>(s: Seq<(A, B)>) -> Map<A, B>
    decreases s.len(),
{
    if s.len() == 0 {
        Map::empty()
    } else {
        map_of(s.drop_last()).insert(s.last().0, s.last().1)
    }
}

pub proof fn lemma_map_of<A, B>(s: Seq<(A, B)>)
    requires
        distinct_keys(s),
    ensures
        forall|i: int| 0 <= i < s.len() ==> map_of(s).dom().contains(#[trigger] s[i].0)
            && map_of(s)[s[i].0] == s[i].1,
        forall|k: A| #[trigger] map_of(s).dom().contains(k) ==> exists|i: int|
            0 <= i < s.len() && s[i].0 == k,
    decreases s.len(),
{
    if s.len() > 0 {
        let t = s.drop_last();
        assert(distinct_keys(t)) by {
            assert forall|i: int, j: int| #![trigger t[i], t[j]] 0 <= i < j < t.len() implies t[i].0 != t[j].0 by {
                assert(s[i].0 != s[j].0);
            }
        }
        lemma_map_of(t);
        assert forall|i: int| 0 <= i < s.len() implies map_of(s).dom().contains(#[trigger] s[i].0)
            && map_of(s)[s[i].0] == s[i].1 by {
            if i < s.len() - 1 {
                assert(t[i] == s[i]);
                assert(s[i].0 != s[s.len() - 1].0);
            }
        }
        assert forall|k: A| #[trigger] map_of(s).dom().contains(k) implies exists|i: int|
            0 <= i < s.len() && s[i].0 == k by {
            if k == s.last().0 {
                assert(s[s.len() - 1].0 == k);
            } else {
                assert(map_of(t).dom().contains(k));
                let i = choose|i: int| 0 <= i < t.len() && t[i].0 == k;
                assert(s[i].0 == k);
            }
        }
    }
}

pub proof fn lemma_map_of_update<A, B>(s: Seq<(A, B)>, i: int, v: B)
    requires
        distinct_keys(s),
        0 <= i < s.len(),
    ensures
        distinct_keys(s.update(i, (s[i].0, v))),
        map_of(s.update(i, (s[i].0, v))) == map_of(s).insert(s[i].0, v),
{
    let t = s.update(i, (s[i].0, v));
    assert forall|a: int, b: int| #![trigger t[a], t[b]] 0 <= a < b < t.len() implies t[a].0 != t[b].0 by {
        assert(s[a].0 != s[b].0);
    }
    lemma_map_of(s);
    lemma_map_of(t);
    assert(t[i].0 == s[i].0);
    assert forall|k: A| map_of(t).dom().contains(k) == map_of(s).insert(s[i].0, v).dom().contains(k) by {
        if map_of(t).dom().contains(k) {
            let j = choose|j: int| 0 <= j < t.len() && t[j].0 == k;
            assert(s[j].0 == k);
        }
        if map_of(s).dom().contains(k) {
            let j = choose|j: int| 0 <= j < s.len() && s[j].0 == k;
            assert(t[j].0 == k);
        }
    }
    assert forall|k: A| map_of(t).dom().contains(k) implies map_of(t)[k] == map_of(s).insert(s[i].0, v)[k] by {
        let j = choose|j: int| 0 <= j < t.len() && t[j].0 == k;
        assert(t[j].0 == s[j].0);
        if j != i {
            assert(t[j] == s[j]);
            assert(s[j].0 != s[i].0) by {
                if j < i { assert(s[j].0 != s[i].0); } else { assert(s[i].0 != s[j].0); }
            }
        }
    }
    assert(map_of(t) =~= map_of(s).insert(s[i].0, v));
}

pub proof fn lemma_map_of_push<A, B>(s: Seq<(A, B)>, k: A, v: B)
    requires
        distinct_keys(s),
        !map_of(s).dom().contains(k),
    ensures
        distinct_keys(s.push((k, v))),
        map_of(s.push((k, v))) == map_of(s).insert(k, v),
{
    let t = s.push((k, v));
    lemma_map_of(s);
    assert(t.drop_last() =~= s);
    assert forall|a: int, b: int| #![trigger t[a], t[b]] 0 <= a < b < t.len() implies t[a].0 != t[b].0 by {
        if b < s.len() {
            assert(s[a].0 != s[b].0);
        } else {
            assert(map_of(s).dom().contains(s[a].0));
        }
    }
}

pub proof fn lemma_map_of_remove<A, B>(s: Seq<(A, B)>, i: int)
    requires
        distinct_keys(s),
        0 <= i < s.len(),
    ensures
        distinct_keys(s.remove(i)),
        map_of(s.remove(i)) == map_of(s).remove(s[i].0),
{
    let t = s.remove(i);
    assert forall|a: int, b: int| #![trigger t[a], t[b]] 0 <= a < b < t.len() implies t[a].0 != t[b].0 by {
        let a2 = if a < i { a } else { a + 1 };
        let b2 = if b < i { b } else { b + 1 };
        assert(s[a2].0 != s[b2].0);
    }
    lemma_map_of(s);
    lemma_map_of(t);
    assert forall|k: A| map_of(t).dom().contains(k) == map_of(s).remove(s[i].0).dom().contains(k) by {
        if map_of(t).dom().contains(k) {
            let j = choose|j: int| 0 <= j < t.len() && t[j].0 == k;
            let j2 = if j < i { j } else { j + 1 };
            assert(s[j2].0 == k);
            if j2 < i { assert(s[j2].0 != s[i].0); } else { assert(s[i].0 != s[j2].0); }
        }
        if map_of(s).dom().contains(k) && k != s[i].0 {
            let j = choose|j: int| 0 <= j < s.len() && s[j].0 == k;
            let j2 = if j < i { j } else { j - 1 };
            assert(t[j2].0 == k);
        }
    }
    assert forall|k: A| map_of(t).dom().contains(k) implies map_of(t)[k] == map_of(s).remove(s[i].0)[k] by {
        let j = choose|j: int| 0 <= j < t.len() && t[j].0 == k;
        let j2 = if j < i { j } else { j + 1 };
        assert(t[j] == s[j2]);
    }
    assert(map_of(t) =~= map_of(s).remove(s[i].0));
}

/// Whether one of the first `n` entries has key `k` and satisfies `p`.
spec fn hit<A, B>(s: Seq<(A, B)>, n: int, k: A, p: spec_fn(A, B) -> bool) -> bool {
    exists|j: int| 0 <= j < n && #[trigger] s[j].0 == k && p(s[j].0, s[j].1)
}

impl<K: Key, V: Dup> VecMap<K, V> {
    /// The entries in insertion order, by their views.
    pub closed spec fn items(&self) -> Seq<(K::V, V::V)> {
        self.entries.deep_view()
    }

    #[verifier::type_invariant]
    closed spec fn well_formed(self) -> bool {
        distinct_keys(self.items())
    }

    pub fn new() -> (r: Self)
        ensures
            r@ == Map::<K::V, V::V>::empty(),
            r.items() == Seq::<(K::V, V::V)>::empty(),
    {
        let r = VecMap { entries: Vec::new() };
        assert(r.items() =~= Seq::<(K::V, V::V)>::empty());
        r
    }

    /// Relates the entries to the map that they stand for.
    pub fn len(&self) -> (n: usize)
        ensures
            n == self.items().len(),
            distinct_keys(self.items()),
            forall|i: int| 0 <= i < self.items().len() ==> self@.dom().contains(
                #[trigger] self.items()[i].0,
            ) && self@[self.items()[i].0] == self.items()[i].1,
            forall|k: K::V| #[trigger] self@.dom().contains(k) ==> exists|i: int|
                0 <= i < self.items().len() && self.items()[i].0 == k,
    {
        proof {
            use_type_invariant(self);
            lemma_map_of(self.items());
        }
        self.entries.len()
    }

    pub fn is_empty(&self) -> (b: bool)
        ensures
            b == (self@ == Map::<K::V, V::V>::empty()),
            b == (self.items().len() == 0),
    {
        proof {
            use_type_invariant(self);
            lemma_map_of(self.items());
            if self.items().len() > 0 {
                assert(self@.dom().contains(self.items()[0].0));
            }
        }
        self.entries.len() == 0
    }

    pub fn key_at(&self, i: usize) -> (k: &K)
        requires
            i < self.items().len(),
        ensures
            k.deep_view() == self.items()[i as int].0,
    {
        &self.entries[i].0
    }

    pub fn value_at(&self, i: usize) -> (v: &V)
        requires
            i < self.items().len(),
        ensures
            v.deep_view() == self.items()[i as int].1,
    {
        &self.entries[i].1
    }

    fn position(&self, key: &K) -> (r: Option<usize>)
        ensures
            match r {
                Some(i) => i < self.items().len() && self.items()[i as int].0 == key.deep_view(),
                None => !self@.dom().contains(key.deep_view()),
            },
    {
        proof {
            use_type_invariant(self);
            lemma_map_of(self.items());
        }
        let mut i: usize = 0;
        while i < self.entries.len()
            invariant
                i <= self.entries.len(),
                self.items().len() == self.entries.len(),
                forall|j: int| 0 <= j < i ==> #[trigger] self.items()[j].0 != key.deep_view(),
            decreases self.entries.len() - i,
        {
            assert(self.items()[i as int].0 == self.entries@[i as int].0.deep_view());
            if self.entries[i].0.same(key) {
                return Some(i);
            }
            i = i + 1;
        }
        None
    }

    pub fn get(&self, key: &K) -> (r: Option<&V>)
        ensures
            match r {
                Some(v) => self@.dom().contains(key.deep_view()) && v.deep_view() == self@[key.deep_view()],
                None => !self@.dom().contains(key.deep_view()),
            },
    {
        match self.position(key) {
            Some(i) => {
                proof {
                    use_type_invariant(self);
                    lemma_map_of(self.items());
                }
                Some(&self.entries[i].1)
            },
            None => None,
        }
    }

    pub fn contains_key(&self, key: &K) -> (r: bool)
        ensures
            r == self@.dom().contains(key.deep_view()),
    {
        match self.position(key) {
            Some(_) => {
                proof {
                    use_type_invariant(self);
                    lemma_map_of(self.items());
                }
                true
            },
            None => false,
        }
    }

    pub fn insert(&mut self, key: K, value: V)
        ensures
            final(self)@ == old(self)@.insert(key.deep_view(), value.deep_view()),
    {
        let at = self.position(&key);
        proof {
            use_type_invariant(&*self);
        }
        let ghost before = self.items();
        let mut entries: Vec<(K, V)> = Vec::new();
        assert(entries.deep_view() =~= Seq::empty());
        std::mem::swap(&mut self.entries, &mut entries);
        match at {
            Some(i) => {
                proof {
                    lemma_map_of_update(before, i as int, value.deep_view());
                    assert(before[i as int].0 == key.deep_view());
                }
                let ghost v = value.deep_view();
                let ghost k = key.deep_view();
                entries.set(i, (key, value));
                assert(entries.deep_view() =~= before.update(i as int, (k, v)));
            },
            None => {
                proof {
                    lemma_map_of_push(before, key.deep_view(), value.deep_view());
                }
                let ghost v = value.deep_view();
                let ghost k = key.deep_view();
                entries.push((key, value));
                assert(entries.deep_view() =~= before.push((k, v)));
            },
        }
        self.entries = entries;
    }

    pub fn remove(&mut self, key: &K) -> (r: Option<V>)
        ensures
            final(self)@ == old(self)@.remove(key.deep_view()),
            match r {
                Some(v) => old(self)@.dom().contains(key.deep_view()) && v.deep_view() == old(self)@[key.deep_view()],
                None => !old(self)@.dom().contains(key.deep_view()),
            },
    {
        let at = self.position(key);
        proof {
            use_type_invariant(&*self);
            lemma_map_of(self.items());
        }
        let ghost before = self.items();
        match at {
            Some(i) => {
                let mut entries: Vec<(K, V)> = Vec::new();
                assert(entries.deep_view() =~= Seq::empty());
                std::mem::swap(&mut self.entries, &mut entries);
                proof {
                    lemma_map_of_remove(before, i as int);
                }
                let gone = entries.remove(i);
                assert(entries.deep_view() =~= before.remove(i as int));
                self.entries = entries;
                Some(gone.1)
            },
            None => {
                assert(self@ =~= old(self)@.remove(key.deep_view()));
                None
            },
        }
    }

    /// Whether some entry satisfies `p`.
    pub(crate) fn any<F: Fn(&K, &V) -> bool>(&self, f: F, Ghost(p): Ghost<spec_fn(K::V, V::V) -> bool>) -> (r: bool)
        requires
            forall|k: &K, v: &V| f.requires((k, v)),
            forall|k: &K, v: &V, b: bool| f.ensures((k, v), b) ==> b == p(k.deep_view(), v.deep_view()),
        ensures
            r == exists|k: K::V| #[trigger] self@.dom().contains(k) && p(k, self@[k]),
    {
        let n = self.len();
        let mut i: usize = 0;
        while i < n
            invariant
                i <= n,
                n == self.items().len(),
                forall|k: &K, v: &V| f.requires((k, v)),
                forall|k: &K, v: &V, b: bool| f.ensures((k, v), b) ==> b == p(k.deep_view(), v.deep_view()),
                forall|j: int| 0 <= j < i ==> !p(#[trigger] self.items()[j].0, self.items()[j].1),
                forall|i: int| 0 <= i < self.items().len() ==> self@.dom().contains(
                    #[trigger] self.items()[i].0,
                ) && self@[self.items()[i].0] == self.items()[i].1,
                forall|k: K::V| #[trigger] self@.dom().contains(k) ==> exists|i: int|
                    0 <= i < self.items().len() && self.items()[i].0 == k,
            decreases n - i,
        {
            if f(self.key_at(i), self.value_at(i)) {
                assert(self@.dom().contains(self.items()[i as int].0));
                return true;
            }
            i = i + 1;
        }
        false
    }

    /// The keys of the entries that satisfy `p`, each once.
    pub(crate) fn keys_where<F: Fn(&K, &V) -> bool>(&self, f: F, Ghost(p): Ghost<spec_fn(K::V, V::V) -> bool>) -> (r: Vec<K>)
        requires
            forall|k: &K, v: &V| f.requires((k, v)),
            forall|k: &K, v: &V, b: bool| f.ensures((k, v), b) ==> b == p(k.deep_view(), v.deep_view()),
        ensures
            forall|k: K::V| #[trigger] r.deep_view().contains(k) <==> self@.dom().contains(k) && p(k, self@[k]),
            r.deep_view().no_duplicates(),
    {
        let n = self.len();
        let mut out: Vec<K> = Vec::new();
        let mut i: usize = 0;
        assert(out.deep_view() =~= Seq::<K::V>::empty());
        while i < n
            invariant
                i <= n,
                n == self.items().len(),
                distinct_keys(self.items()),
                forall|k: &K, v: &V| f.requires((k, v)),
                forall|k: &K, v: &V, b: bool| f.ensures((k, v), b) ==> b == p(k.deep_view(), v.deep_view()),
                forall|i: int| 0 <= i < self.items().len() ==> self@.dom().contains(
                    #[trigger] self.items()[i].0,
                ) && self@[self.items()[i].0] == self.items()[i].1,
                forall|k: K::V| #[trigger] self@.dom().contains(k) ==> exists|i: int|
                    0 <= i < self.items().len() && self.items()[i].0 == k,
                out.deep_view().no_duplicates(),
                forall|j: int| 0 <= j < i && p(self.items()[j].0, self.items()[j].1) ==> out.deep_view().contains(
                    #[trigger] self.items()[j].0,
                ),
                forall|q: int| 0 <= q < out.deep_view().len() ==> hit(self.items(), i as int, #[trigger] out.deep_view()[q], p),
            decreases n - i,
        {
            let k = self.key_at(i);
            let v = self.value_at(i);
            let ghost before = out.deep_view();
            if f(k, v) {
                out.push(k.dup());
                proof {
                    let kv = self.items()[i as int].0;
                    assert(out.deep_view() =~= before.push(kv));
                    assert(!before.contains(kv)) by {
                        if before.contains(kv) {
                            let q = choose|q: int| 0 <= q < before.len() && before[q] == kv;
                            assert(hit(self.items(), i as int, before[q], p));
                            let j = choose|j: int| 0 <= j < i && self.items()[j].0 == before[q] && p(self.items()[j].0, self.items()[j].1);
                            assert(self.items()[j].0 != self.items()[i as int].0);
                        }
                    }
                    assert(out.deep_view()[before.len() as int] == kv);
                    assert forall|j: int| 0 <= j < i + 1 && p(self.items()[j].0, self.items()[j].1) implies out.deep_view().contains(
                        #[trigger] self.items()[j].0,
                    ) by {
                        if j < i {
                            let q = choose|q: int| 0 <= q < before.len() && before[q] == self.items()[j].0;
                            assert(out.deep_view()[q] == self.items()[j].0);
                        }
                    }
                    assert forall|q: int| 0 <= q < out.deep_view().len() implies hit(self.items(), i + 1, #[trigger] out.deep_view()[q], p) by {
                        if q < before.len() {
                            assert(hit(self.items(), i as int, before[q], p));
                        } else {
                            assert(self.items()[i as int].0 == out.deep_view()[q]);
                        }
                    }
                }
            }
            i = i + 1;
        }
        assert forall|k: K::V| #[trigger] out.deep_view().contains(k) implies self@.dom().contains(k) && p(k, self@[k]) by {
            let q = choose|q: int| 0 <= q < out.deep_view().len() && out.deep_view()[q] == k;
            assert(hit(self.items(), i as int, out.deep_view()[q], p));
            let j = choose|j: int| 0 <= j < i && self.items()[j].0 == out.deep_view()[q] && p(self.items()[j].0, self.items()[j].1);
            assert(self@.dom().contains(self.items()[j].0));
        }
        out
    }

    /// Every entry with what `f` makes of its value.
    pub(crate) fn map_entries<U: Dup, F: Fn(&K, &V) -> U>(&self, f: F, Ghost(p): Ghost<spec_fn(K::V, V::V) -> U::V>) -> (r: VecMap<K, U>)
        requires
            forall|k: &K, v: &V| f.requires((k, v)),
            forall|k: &K, v: &V, x: U| f.ensures((k, v), x) ==> x.deep_view() == p(k.deep_view(), v.deep_view()),
        ensures
            r@ == Map::new(|k: K::V| self@.dom().contains(k), |k: K::V| p(k, self@[k])),
    {
        let n = self.len();
        let mut out: Vec<(K, U)> = Vec::new();
        let mut i: usize = 0;
        while i < n
            invariant
                i <= n,
                n == self.items().len(),
                out.len() == i,
                forall|k: &K, v: &V| f.requires((k, v)),
                forall|k: &K, v: &V, x: U| f.ensures((k, v), x) ==> x.deep_view() == p(k.deep_view(), v.deep_view()),
                forall|j: int|
                    0 <= j < i ==> (#[trigger] out@[j]).deep_view() == (self.items()[j].0, p(self.items()[j].0, self.items()[j].1)),
            decreases n - i,
        {
            let k = self.key_at(i);
            let v = self.value_at(i);
            out.push((k.dup(), f(k, v)));
            i = i + 1;
        }
        proof {
            let items = out.deep_view();
            assert forall|a: int, b: int| 0 <= a < b < items.len() implies #[trigger] items[a].0 != #[trigger] items[b].0 by {
                assert(items[a] == out@[a].deep_view());
                assert(items[b] == out@[b].deep_view());
                assert(self.items()[a].0 != self.items()[b].0);
            }
            assert(distinct_keys(items));
            lemma_map_of(items);
            lemma_map_of(self.items());
            let goal = Map::new(|k: K::V| self@.dom().contains(k), |k: K::V| p(k, self@[k]));
            let m = map_of(items);
            assert forall|k: K::V| #[trigger] m.dom().contains(k) <==> goal.dom().contains(k) by {
                if m.dom().contains(k) {
                    let a = choose|a: int| 0 <= a < items.len() && items[a].0 == k;
                    assert(items[a] == out@[a].deep_view());
                    assert(self@.dom().contains(self.items()[a].0));
                }
                if self@.dom().contains(k) {
                    let a = choose|a: int| 0 <= a < self.items().len() && self.items()[a].0 == k;
                    assert(items[a] == out@[a].deep_view());
                    assert(m.dom().contains(items[a].0));
                }
            }
            assert forall|k: K::V| #[trigger] m.dom().contains(k) implies m[k] == goal[k] by {
                let a = choose|a: int| 0 <= a < items.len() && items[a].0 == k;
                assert(items[a] == out@[a].deep_view());
                assert(m[items[a].0] == items[a].1);
            }
            assert(m =~= goal);
        }
        VecMap { entries: out }
    }

    /// The entries under new keys with new values. Where two entries get the
    /// same key, one of them stays.
    pub(crate) fn remap<G: Fn(&K) -> K, F: Fn(&V) -> V>(
        &self,
        g: G,
        f: F,
        Ghost(q): Ghost<spec_fn(K::V) -> K::V>,
        Ghost(p): Ghost<spec_fn(V::V) -> V::V>,
    ) -> (r: VecMap<K, V>)
        requires
            forall|k: &K| g.requires((k,)),
            forall|k: &K, x: K| g.ensures((k,), x) ==> x.deep_view() == q(k.deep_view()),
            forall|v: &V| f.requires((v,)),
            forall|v: &V, x: V| f.ensures((v,), x) ==> x.deep_view() == p(v.deep_view()),
        ensures
            remapped(self@, r@, q, p),
    {
        let n = self.len();
        let mut out: VecMap<K, V> = VecMap::new();
        let mut i: usize = 0;
        while i < n
            invariant
                i <= n,
                n == self.items().len(),
                forall|k: &K| g.requires((k,)),
                forall|k: &K, x: K| g.ensures((k,), x) ==> x.deep_view() == q(k.deep_view()),
                forall|v: &V| f.requires((v,)),
                forall|v: &V, x: V| f.ensures((v,), x) ==> x.deep_view() == p(v.deep_view()),
                forall|a: int| 0 <= a < self.items().len() ==> self@.dom().contains(#[trigger] self.items()[a].0) && self@[self.items()[a].0]
                    == self.items()[a].1,
                forall|k: K::V| #[trigger] self@.dom().contains(k) ==> exists|a: int| 0 <= a < self.items().len() && self.items()[a].0 == k,
                forall|a: int| 0 <= a < i ==> out@.dom().contains(q(#[trigger] self.items()[a].0)),
                forall|k: K::V| #[trigger] out@.dom().contains(k) ==> comes_from(self@, out@, q, p, k),
            decreases n - i,
        {
            let k = self.key_at(i);
            let v = self.value_at(i);
            let ghost before = out@;
            let ghost kv = self.items()[i as int].0;
            out.insert(g(k), f(v));
            proof {
                assert(self@.dom().contains(kv));
                assert(out@ == before.insert(q(kv), p(self@[kv])));
                assert forall|x: K::V| #[trigger] out@.dom().contains(x) implies comes_from(self@, out@, q, p, x) by {
                    if x == q(kv) {
                        assert(self@.dom().contains(kv) && q(kv) == x && out@[x] == p(self@[kv]));
                    } else {
                        assert(before.dom().contains(x));
                        assert(comes_from(self@, before, q, p, x));
                        let s = choose|s: K::V| #[trigger] self@.dom().contains(s) && q(s) == x && before[x] == p(self@[s]);
                        assert(self@.dom().contains(s) && q(s) == x && out@[x] == p(self@[s]));
                    }
                }
            }
            i = i + 1;
        }
        assert forall|s: K::V| #[trigger] self@.dom().contains(s) implies out@.dom().contains(q(s)) by {
            let a = choose|a: int| 0 <= a < self.items().len() && self.items()[a].0 == s;
            assert(out@.dom().contains(q(self.items()[a].0)));
        }
        out
    }
}

/// Whether the entry at `k` of `after` is the image of an entry of `before`.
pub open spec fn comes_from<A, B>(before: Map<A, B>, after: Map<A, B>, q: spec_fn(A) -> A, p: spec_fn(B) -> B, k: A) -> bool {
    exists|s: A| #[trigger] before.dom().contains(s) && q(s) == k && after[k] == p(before[s])
}

/// Whether `after` holds the images of the entries of `before`: every key of
/// an image, and at every key an image. Where no two keys have the same
/// image, this leaves no choice.
pub open spec fn remapped<A, B>(before: Map<A, B>, after: Map<A, B>, q: spec_fn(A) -> A, p: spec_fn(B) -> B) -> bool {
    &&& forall|s: A| #[trigger] before.dom().contains(s) ==> after.dom().contains(q(s))
    &&& forall|k: A| #[trigger] after.dom().contains(k) ==> comes_from(before, after, q, p, k)
}

impl<K: Key, V: Dup> View for VecMap<K, V> {
    type V = Map<K::V, V::V>;

    closed spec fn view(&self) -> Map<K::V, V::V> {
        map_of(self.items())
    }
}

impl<K: Key, V: Dup> DeepView for VecMap<K, V> {
    type V = Map<K::V, V::V>;

    open spec fn deep_view(&self) -> Map<K::V, V::V> {
        self@
    }
}

impl<K: Key, V: Dup> Dup for VecMap<K, V> {
    fn dup(&self) -> (r: Self) {
        proof {
            use_type_invariant(self);
        }
        let entries = self.entries.dup();
        VecMap { entries }
    }
}

/// A finite set that remembers insertion order. No element occurs twice.
#[derive(Debug)]
pub struct VecSet<K: Key> {
    entries: Vec<K>,
}

impl<K: Key> VecSet<K> {
    /// The elements in insertion order, by their views.
    pub closed spec fn items(&self) -> Seq<K::V> {
        self.entries.deep_view()
    }

    #[verifier::type_invariant]
    closed spec fn well_formed(self) -> bool {
        self.items().no_duplicates()
    }

    pub fn new() -> (r: Self)
        ensures
            r@ == Set::<K::V>::empty(),
    {
        let r = VecSet { entries: Vec::new() };
        assert(r.items() =~= Seq::<K::V>::empty());
        assert(r@ =~= Set::<K::V>::empty());
        r
    }

    pub fn len(&self) -> (n: usize)
        ensures
            n == self.items().len(),
            self.items().no_duplicates(),
            forall|k: K::V| #[trigger] self@.contains(k) <==> self.items().contains(k),
            forall|i: int| 0 <= i < self.items().len() ==> self@.contains(#[trigger] self.items()[i]),
    {
        proof {
            use_type_invariant(self);
        }
        self.entries.len()
    }

    pub fn is_empty(&self) -> (b: bool)
        ensures
            b == (self@ == Set::<K::V>::empty()),
    {
        proof {
            if self.items().len() > 0 {
                assert(self@.contains(self.items()[0]));
            } else {
                assert(self@ =~= Set::<K::V>::empty());
            }
        }
        self.entries.len() == 0
    }

    pub fn at(&self, i: usize) -> (k: &K)
        requires
            i < self.items().len(),
        ensures
            k.deep_view() == self.items()[i as int],
    {
        &self.entries[i]
    }

    pub fn contains(&self, key: &K) -> (r: bool)
        ensures
            r == self@.contains(key.deep_view()),
    {
        vec_contains(&self.entries, key)
    }

    /// Adds an element; tells whether it was new.
    pub fn insert(&mut self, key: K) -> (r: bool)
        ensures
            final(self)@ == old(self)@.insert(key.deep_view()),
            r == !old(self)@.contains(key.deep_view()),
    {
        let present = self.contains(&key);
        proof {
            use_type_invariant(&*self);
        }
        let ghost before = self.items();
        if present {
            assert(self@ =~= old(self)@.insert(key.deep_view()));
            return false;
        }
        let ghost k = key.deep_view();
        let mut entries: Vec<K> = Vec::new();
        assert(entries.deep_view() =~= Seq::empty());
        std::mem::swap(&mut self.entries, &mut entries);
        entries.push(key);
        assert(entries.deep_view() =~= before.push(k));
        self.entries = entries;
        proof {
            assert(!before.contains(k));
            assert forall|x: K::V| self@.contains(x) == old(self)@.insert(k).contains(x) by {
                lemma_push_contains(before, k, x);
            }
            assert(self@ =~= old(self)@.insert(k));
        }
        true
    }

    /// Removes an element; tells whether it was there.
    pub fn remove(&mut self, key: &K) -> (r: bool)
        ensures
            final(self)@ == old(self)@.remove(key.deep_view()),
            r == old(self)@.contains(key.deep_view()),
    {
        let found = vec_position(&self.entries, key);
        proof {
            use_type_invariant(&*self);
        }
        let ghost before = self.items();
        match found {
            None => {
                assert(self@ =~= old(self)@.remove(key.deep_view()));
                false
            },
            Some(i) => {
                let mut entries: Vec<K> = Vec::new();
                assert(entries.deep_view() =~= Seq::empty());
                std::mem::swap(&mut self.entries, &mut entries);
                entries.remove(i);
                assert(entries.deep_view() =~= before.remove(i as int));
                proof {
                    lemma_remove_contains(before, i as int);
                }
                self.entries = entries;
                assert(before[i as int] == key.deep_view());
                assert(old(self)@.contains(key.deep_view()));
                assert(self@ =~= old(self)@.remove(key.deep_view()));
                true
            },
        }
    }

    /// Whether some element satisfies `p`.
    pub(crate) fn any<F: Fn(&K) -> bool>(&self, f: F, Ghost(p): Ghost<spec_fn(K::V) -> bool>) -> (r: bool)
        requires
            forall|k: &K| f.requires((k,)),
            forall|k: &K, b: bool| f.ensures((k,), b) ==> b == p(k.deep_view()),
        ensures
            r == exists|k: K::V| #[trigger] self@.contains(k) && p(k),
    {
        let mut i: usize = 0;
        while i < self.entries.len()
            invariant
                i <= self.entries.len(),
                forall|k: &K| f.requires((k,)),
                forall|k: &K, b: bool| f.ensures((k,), b) ==> b == p(k.deep_view()),
                forall|j: int| 0 <= j < i ==> !p(#[trigger] self.items()[j]),
            decreases self.entries.len() - i,
        {
            assert(self.items()[i as int] == self.entries@[i as int].deep_view());
            if f(&self.entries[i]) {
                assert(self@.contains(self.items()[i as int]));
                return true;
            }
            i = i + 1;
        }
        false
    }

    /// Keeps the elements that satisfy `p`.
    pub(crate) fn retain<F: Fn(&K) -> bool>(&mut self, f: F, Ghost(p): Ghost<spec_fn(K::V) -> bool>)
        requires
            forall|k: &K| f.requires((k,)),
            forall|k: &K, b: bool| f.ensures((k,), b) ==> b == p(k.deep_view()),
        ensures
            final(self)@ == old(self)@.filter(p),
    {
        let mut out = VecSet::<K>::new();
        let n = self.entries.len();
        let mut i: usize = 0;
        while i < n
            invariant
                i <= n,
                n == self.items().len(),
                *self == *old(self),
                n == self.entries.len(),
                forall|k: &K| f.requires((k,)),
                forall|k: &K, b: bool| f.ensures((k,), b) ==> b == p(k.deep_view()),
                forall|k: K::V| #[trigger] out@.contains(k) <==> p(k) && self.items().take(i as int).contains(k),
            decreases n - i,
        {
            let ghost before = out@;
            let k = &self.entries[i];
            if f(k) {
                out.insert(k.dup());
            }
            assert(self.items().take(i + 1) =~= self.items().take(i as int).push(self.items()[i as int]));
            assert forall|x: K::V| #[trigger] out@.contains(x) <==> p(x) && self.items().take(i + 1).contains(x) by {
                lemma_push_contains(self.items().take(i as int), self.items()[i as int], x);
                assert(before.contains(x) <==> p(x) && self.items().take(i as int).contains(x));
            }
            i = i + 1;
        }
        assert(self.items().take(n as int) =~= self.items());
        assert(out@ =~= old(self)@.filter(p));
        *self = out;
    }

    /// The set of what `f` makes of the elements.
    pub(crate) fn map_elements<F: Fn(&K) -> K>(&self, f: F, Ghost(p): Ghost<spec_fn(K::V) -> K::V>) -> (r: VecSet<K>)
        requires
            forall|k: &K| f.requires((k,)),
            forall|k: &K, x: K| f.ensures((k,), x) ==> x.deep_view() == p(k.deep_view()),
        ensures
            r@ == image(self@, p),
    {
        let n = self.len();
        let mut out: VecSet<K> = VecSet::new();
        let mut i: usize = 0;
        while i < n
            invariant
                i <= n,
                n == self.items().len(),
                forall|k: &K| f.requires((k,)),
                forall|k: &K, x: K| f.ensures((k,), x) ==> x.deep_view() == p(k.deep_view()),
                forall|k: K::V| #[trigger] self@.contains(k) <==> self.items().contains(k),
                forall|x: K::V| #[trigger] out@.contains(x) <==> exists|a: int| 0 <= a < i && p(#[trigger] self.items()[a]) == x,
            decreases n - i,
        {
            let ghost before = out@;
            out.insert(f(self.at(i)));
            assert forall|x: K::V| #[trigger] out@.contains(x) <==> exists|a: int| 0 <= a < i + 1 && p(#[trigger] self.items()[a]) == x by {
                if before.contains(x) {
                    let a = choose|a: int| 0 <= a < i && p(#[trigger] self.items()[a]) == x;
                    assert(p(self.items()[a]) == x);
                }
                assert(p(self.items()[i as int]) == p(self.items()[i as int]));
            }
            i = i + 1;
        }
        proof {
            assert forall|x: K::V| #[trigger] out@.contains(x) <==> image(self@, p).contains(x) by {
                if out@.contains(x) {
                    let a = choose|a: int| 0 <= a < n && p(#[trigger] self.items()[a]) == x;
                    assert(self.items().contains(self.items()[a]));
                    assert(self@.contains(self.items()[a]));
                }
                if image(self@, p).contains(x) {
                    let k = choose|k: K::V| #[trigger] self@.contains(k) && p(k) == x;
                    let a = choose|a: int| 0 <= a < self.items().len() && self.items()[a] == k;
                    assert(p(self.items()[a]) == x);
                }
            }
            assert(out@ =~= image(self@, p));
        }
        out
    }
}

/// The set of what `p` makes of the elements.
pub open spec fn image<A>(s: Set<A>, p: spec_fn(A) -> A) -> Set<A> {
    Set::new(|x: A| exists|k: A| #[trigger] s.contains(k) && p(k) == x)
}

impl<K: Key> View for VecSet<K> {
    type V = Set<K::V>;

    closed spec fn view(&self) -> Set<K::V> {
        self.items().to_set()
    }
}

impl<K: Key> DeepView for VecSet<K> {
    type V = Set<K::V>;

    open spec fn deep_view(&self) -> Set<K::V> {
        self@
    }
}

impl<K: Key> Dup for VecSet<K> {
    fn dup(&self) -> (r: Self) {
        proof {
            use_type_invariant(self);
        }
        let entries = self.entries.dup();
        VecSet { entries }
    }
}

pub proof fn lemma_push_contains<A>(s: Seq<A>, a: A, x: A)
    ensures
        s.push(a).contains(x) <==> s.contains(x) || x == a,
{
    if s.contains(x) {
        let i = choose|i: int| 0 <= i < s.len() && s[i] == x;
        assert(s.push(a)[i] == x);
    }
    if x == a {
        assert(s.push(a)[s.len() as int] == x);
    }
}

pub proof fn lemma_remove_contains<A>(s: Seq<A>, i: int)
    requires
        s.no_duplicates(),
        0 <= i < s.len(),
    ensures
        s.remove(i).no_duplicates(),
        forall|x: A| #[trigger] s.remove(i).contains(x) <==> s.contains(x) && x != s[i],
{
    let t = s.remove(i);
    assert forall|x: A| #[trigger] t.contains(x) <==> s.contains(x) && x != s[i] by {
        if t.contains(x) {
            let j = choose|j: int| 0 <= j < t.len() && t[j] == x;
            if j < i {
                assert(s[j] == x);
            } else {
                assert(s[j + 1] == x);
            }
        }
        if s.contains(x) && x != s[i] {
            let j = choose|j: int| 0 <= j < s.len() && s[j] == x;
            if j < i {
                assert(t[j] == x);
            } else {
                assert(t[j - 1] == x);
            }
        }
    }
}

pub fn vec_position<K: Key>(v: &Vec<K>, key: &K) -> (r: Option<usize>)
    ensures
        match r {
            Some(i) => i < v.len() && v.deep_view()[i as int] == key.deep_view(),
            None => !v.deep_view().contains(key.deep_view()),
        },
{
    let mut i: usize = 0;
    while i < v.len()
        invariant
            i <= v.len(),
            forall|j: int| 0 <= j < i ==> #[trigger] v.deep_view()[j] != key.deep_view(),
        decreases v.len() - i,
    {
        assert(v.deep_view()[i as int] == v@[i as int].deep_view());
        if v[i].same(key) {
            return Some(i);
        }
        i = i + 1;
    }
    None
}

pub fn vec_contains<K: Key>(v: &Vec<K>, key: &K) -> (r: bool)
    ensures
        r == v.deep_view().contains(key.deep_view()),
{
    match vec_position(v, key) {
        Some(i) => {
            assert(v.deep_view()[i as int] == key.deep_view());
            true
        },
        None => false,
    }
}

/// Whether some element of the list satisfies `p`.
pub(crate) fn vec_any<T: DeepView, F: Fn(&T) -> bool>(v: &Vec<T>, f: F, Ghost(p): Ghost<spec_fn(T::V) -> bool>) -> (r: bool)
    requires
        forall|x: &T| f.requires((x,)),
        forall|x: &T, b: bool| f.ensures((x,), b) ==> b == p(x.deep_view()),
    ensures
        r == exists|i: int| 0 <= i < v.deep_view().len() && p(#[trigger] v.deep_view()[i]),
{
    let mut i: usize = 0;
    while i < v.len()
        invariant
            i <= v.len(),
            forall|x: &T| f.requires((x,)),
            forall|x: &T, b: bool| f.ensures((x,), b) ==> b == p(x.deep_view()),
            forall|j: int| 0 <= j < i ==> !p(#[trigger] v.deep_view()[j]),
        decreases v.len() - i,
    {
        assert(v.deep_view()[i as int] == v@[i as int].deep_view());
        if f(&v[i]) {
            return true;
        }
        i = i + 1;
    }
    false
}

/// The elements of the list that satisfy `p`, in order.
pub(crate) fn vec_filter<T: Dup, F: Fn(&T) -> bool>(v: &Vec<T>, f: F, Ghost(p): Ghost<spec_fn(T::V) -> bool>) -> (r: Vec<T>)
    requires
        forall|x: &T| f.requires((x,)),
        forall|x: &T, b: bool| f.ensures((x,), b) ==> b == p(x.deep_view()),
    ensures
        r.deep_view() == v.deep_view().filter(p),
{
    let mut out: Vec<T> = Vec::new();
    let mut i: usize = 0;
    proof {
        assert(v.deep_view().take(0) =~= Seq::<T::V>::empty());
        reveal(Seq::filter);
        assert(out.deep_view() =~= Seq::<T::V>::empty());
    }
    while i < v.len()
        invariant
            i <= v.len(),
            forall|x: &T| f.requires((x,)),
            forall|x: &T, b: bool| f.ensures((x,), b) ==> b == p(x.deep_view()),
            out.deep_view() == v.deep_view().take(i as int).filter(p),
        decreases v.len() - i,
    {
        let ghost s = v.deep_view();
        let ghost before = out.deep_view();
        proof {
            assert(s.take(i + 1).drop_last() =~= s.take(i as int));
            assert(s.take(i + 1).last() == s[i as int]);
            reveal(Seq::filter);
            assert(s[i as int] == v@[i as int].deep_view());
        }
        if f(&v[i]) {
            out.push(v[i].dup());
            assert(out.deep_view() =~= before.push(s[i as int]));
        }
        i = i + 1;
    }
    assert(v.deep_view().take(v.len() as int) =~= v.deep_view());
    out
}

/// What `make` makes of the elements that satisfy `p`, in order.
pub(crate) fn pick<T, U: DeepView, F: Fn(&T) -> bool, G: Fn(&T) -> U>(
    v: &Vec<T>,
    keep: F,
    make: G,
    Ghost(p): Ghost<spec_fn(T) -> bool>,
    Ghost(q): Ghost<spec_fn(T) -> U::V>,
) -> (r: Vec<U>)
    requires
        forall|x: &T| keep.requires((x,)),
        forall|x: &T, b: bool| keep.ensures((x,), b) ==> b == p(*x),
        forall|x: &T| make.requires((x,)),
        forall|x: &T, y: U| make.ensures((x,), y) ==> y.deep_view() == q(*x),
    ensures
        r.deep_view() == v@.filter(p).map_values(q),
{
    let mut out: Vec<U> = Vec::new();
    let mut i: usize = 0;
    proof {
        assert(v@.take(0) =~= Seq::<T>::empty());
        reveal(Seq::filter);
        assert(out.deep_view() =~= Seq::<T>::empty().map_values(q));
    }
    while i < v.len()
        invariant
            i <= v.len(),
            forall|x: &T| keep.requires((x,)),
            forall|x: &T, b: bool| keep.ensures((x,), b) ==> b == p(*x),
            forall|x: &T| make.requires((x,)),
            forall|x: &T, y: U| make.ensures((x,), y) ==> y.deep_view() == q(*x),
            out.deep_view() == v@.take(i as int).filter(p).map_values(q),
        decreases v.len() - i,
    {
        let ghost before = out.deep_view();
        let ghost picked = v@.take(i as int).filter(p);
        proof {
            assert(v@.take(i + 1).drop_last() =~= v@.take(i as int));
            assert(v@.take(i + 1).last() == v@[i as int]);
            reveal(Seq::filter);
        }
        if keep(&v[i]) {
            out.push(make(&v[i]));
            assert(out.deep_view() =~= before.push(q(v@[i as int])));
            assert(picked.push(v@[i as int]).map_values(q) =~= before.push(q(v@[i as int])));
        }
        i = i + 1;
    }
    assert(v@.take(v.len() as int) =~= v@);
    out
}

/// What `make` makes of every element, in order.
pub(crate) fn each<T, U: DeepView, G: Fn(&T) -> U>(v: &Vec<T>, make: G, Ghost(q): Ghost<spec_fn(T) -> U::V>) -> (r: Vec<U>)
    requires
        forall|x: &T| make.requires((x,)),
        forall|x: &T, y: U| make.ensures((x,), y) ==> y.deep_view() == q(*x),
    ensures
        r.deep_view() == v@.map_values(q),
        r.len() == v.len(),
        forall|i: int| 0 <= i < v.len() ==> make.ensures((&v@[i],), #[trigger] r@[i]),
{
    let mut out: Vec<U> = Vec::new();
    let mut i: usize = 0;
    while i < v.len()
        invariant
            i <= v.len(),
            out.len() == i,
            forall|x: &T| make.requires((x,)),
            forall|x: &T, y: U| make.ensures((x,), y) ==> y.deep_view() == q(*x),
            forall|j: int| 0 <= j < i ==> #[trigger] out@[j].deep_view() == q(v@[j]),
            forall|j: int| 0 <= j < i ==> make.ensures((&v@[j],), #[trigger] out@[j]),
        decreases v.len() - i,
    {
        out.push(make(&v[i]));
        i = i + 1;
    }
    assert(out.deep_view() =~= v@.map_values(q));
    out
}

/// Appends a list to another.
pub(crate) fn concat<T: DeepView>(a: Vec<T>, b: Vec<T>) -> (r: Vec<T>)
    ensures
        r.deep_view() == a.deep_view() + b.deep_view(),
        r@ == a@ + b@,
{
    let mut a = a;
    let mut b = b;
    let ghost x = a.deep_view();
    let ghost y = b.deep_view();
    a.append(&mut b);
    assert(a.deep_view() =~= x + y);
    a
}

/// The elements of the list.
pub fn set_of<K: Key>(v: &Vec<K>) -> (r: VecSet<K>)
    ensures
        r@ == v.deep_view().to_set(),
{
    let mut r: VecSet<K> = VecSet::new();
    let mut i: usize = 0;
    let ghost s = v.deep_view();
    assert(s.take(0).to_set() =~= Set::<K::V>::empty());
    while i < v.len()
        invariant
            i <= v.len(),
            s == v.deep_view(),
            r@ == s.take(i as int).to_set(),
        decreases v.len() - i,
    {
        proof {
            assert(s[i as int] == v@[i as int].deep_view());
            assert(s.take(i + 1) =~= s.take(i as int).push(s[i as int]));
            assert forall|k: K::V| s.take(i + 1).to_set().contains(k) <==> s.take(i as int).to_set().insert(s[i as int]).contains(k) by {
                if k == s[i as int] {
                    assert(s.take(i + 1)[i as int] == k);
                }
                if s.take(i as int).contains(k) {
                    let j = choose|j: int| 0 <= j < i && s.take(i as int)[j] == k;
                    assert(s.take(i + 1)[j] == k);
                }
            }
            assert(s.take(i + 1).to_set() =~= s.take(i as int).to_set().insert(s[i as int]));
        }
        r.insert(v[i].dup());
        i = i + 1;
    }
    assert(s.take(s.len() as int) =~= s);
    r
}

/// What `f` makes of every element of the list, in order.
pub(crate) fn vec_map<T: DeepView, U: DeepView, F: Fn(&T) -> U>(v: &Vec<T>, f: F, Ghost(p): Ghost<spec_fn(T::V) -> U::V>) -> (r: Vec<U>)
    requires
        forall|x: &T| f.requires((x,)),
        forall|x: &T, y: U| f.ensures((x,), y) ==> y.deep_view() == p(x.deep_view()),
    ensures
        r.deep_view() == v.deep_view().map_values(p),
        r.len() == v.len(),
        forall|i: int| 0 <= i < v.len() ==> f.ensures((&v@[i],), #[trigger] r@[i]),
{
    let mut out: Vec<U> = Vec::new();
    let mut i: usize = 0;
    while i < v.len()
        invariant
            i <= v.len(),
            out.len() == i,
            forall|x: &T| f.requires((x,)),
            forall|x: &T, y: U| f.ensures((x,), y) ==> y.deep_view() == p(x.deep_view()),
            forall|j: int| 0 <= j < i ==> #[trigger] out@[j].deep_view() == p(v.deep_view()[j]),
            forall|j: int| 0 <= j < i ==> f.ensures((&v@[j],), #[trigger] out@[j]),
        decreases v.len() - i,
    {
        assert(v.deep_view()[i as int] == v@[i as int].deep_view());
        out.push(f(&v[i]));
        i = i + 1;
    }
    assert(out.deep_view() =~= v.deep_view().map_values(p));
    out
}

/// Whether every element of the list satisfies `p`.
pub(crate) fn vec_all<T: DeepView, F: Fn(&T) -> bool>(v: &Vec<T>, f: F, Ghost(p): Ghost<spec_fn(T::V) -> bool>) -> (r: bool)
    requires
        forall|x: &T| f.requires((x,)),
        forall|x: &T, b: bool| f.ensures((x,), b) ==> b == p(x.deep_view()),
    ensures
        r == forall|i: int| 0 <= i < v.deep_view().len() ==> p(#[trigger] v.deep_view()[i]),
{
    let mut i: usize = 0;
    while i < v.len()
        invariant
            i <= v.len(),
            forall|x: &T| f.requires((x,)),
            forall|x: &T, b: bool| f.ensures((x,), b) ==> b == p(x.deep_view()),
            forall|j: int| 0 <= j < i ==> p(#[trigger] v.deep_view()[j]),
        decreases v.len() - i,
    {
        assert(v.deep_view()[i as int] == v@[i as int].deep_view());
        if !f(&v[i]) {
            return false;
        }
        i = i + 1;
    }
    true
}

/// What passes a filter comes from the list and satisfies `p`.
pub proof fn lemma_filtered<A>(s: Seq<A>, p: spec_fn(A) -> bool)
    ensures
        forall|i: int| 0 <= i < s.filter(p).len() ==> s.contains(#[trigger] s.filter(p)[i]) && p(s.filter(p)[i]),
        forall|x: A| s.contains(x) && p(x) ==> s.filter(p).contains(x),
    decreases s.len(),
{
    reveal(Seq::filter);
    if s.len() > 0 {
        lemma_filtered(s.drop_last(), p);
        let rest = s.drop_last().filter(p);
        let all = s.filter(p);
        assert forall|i: int| 0 <= i < all.len() implies s.contains(#[trigger] all[i]) && p(all[i]) by {
            if i < rest.len() {
                assert(all[i] == rest[i]);
                let j = choose|j: int| 0 <= j < s.drop_last().len() && s.drop_last()[j] == rest[i];
                assert(s[j] == rest[i]);
            } else {
                assert(s[s.len() - 1] == all[i]);
            }
        }
        assert forall|x: A| s.contains(x) && p(x) implies all.contains(x) by {
            let j = choose|j: int| 0 <= j < s.len() && s[j] == x;
            if j < s.len() - 1 {
                assert(s.drop_last()[j] == x);
                assert(rest.contains(x));
                let k = choose|k: int| 0 <= k < rest.len() && rest[k] == x;
                assert(all[k] == x);
            } else {
                assert(all[all.len() - 1] == x);
            }
        }
    }
}

/// A filter that everything passes changes nothing.
pub proof fn lemma_filter_all<A>(s: Seq<A>, p: spec_fn(A) -> bool)
    requires
        forall|i: int| 0 <= i < s.len() ==> p(#[trigger] s[i]),
    ensures
        s.filter(p) == s,
    decreases s.len(),
{
    reveal(Seq::filter);
    if s.len() > 0 {
        assert forall|i: int| 0 <= i < s.drop_last().len() implies p(#[trigger] s.drop_last()[i]) by {
            assert(s.drop_last()[i] == s[i]);
        }
        lemma_filter_all(s.drop_last(), p);
        assert(p(s[s.len() - 1]));
        assert(s.drop_last().push(s.last()) =~= s);
    } else {
        assert(s.filter(p) =~= s);
    }
}

/// Two filters in turn are one filter by both conditions.
pub proof fn lemma_filter_twice<A>(s: Seq<A>, p: spec_fn(A) -> bool, q: spec_fn(A) -> bool, both: spec_fn(A) -> bool)
    requires
        forall|x: A| #[trigger] both(x) == (p(x) && q(x)),
    ensures
        s.filter(p).filter(q) == s.filter(both),
    decreases s.len(),
{
    reveal(Seq::filter);
    if s.len() > 0 {
        lemma_filter_twice(s.drop_last(), p, q, both);
        let rest = s.drop_last().filter(p);
        assert(both(s.last()) == (p(s.last()) && q(s.last())));
        if p(s.last()) {
            assert(s.filter(p).drop_last() =~= rest);
            assert(s.filter(p).last() == s.last());
        }
    } else {
        assert(s.filter(p) =~= Seq::<A>::empty());
    }
}

/// Filters by conditions that agree give the same.
pub proof fn lemma_filter_same<A>(s: Seq<A>, p: spec_fn(A) -> bool, q: spec_fn(A) -> bool)
    requires
        forall|i: int| 0 <= i < s.len() ==> p(#[trigger] s[i]) == q(s[i]),
    ensures
        s.filter(p) == s.filter(q),
    decreases s.len(),
{
    reveal(Seq::filter);
    if s.len() > 0 {
        assert forall|i: int| 0 <= i < s.drop_last().len() implies p(#[trigger] s.drop_last()[i]) == q(s.drop_last()[i]) by {
            assert(s.drop_last()[i] == s[i]);
        }
        lemma_filter_same(s.drop_last(), p, q);
        assert(p(s[s.len() - 1]) == q(s[s.len() - 1]));
    }
}

/// The map with `v` at every one of `keys`.
pub open spec fn with_each<K, V>(m: Map<K, V>, keys: Seq<K>, v: V) -> Map<K, V> {
    Map::new(
        |k: K| m.dom().contains(k) || keys.contains(k),
        |k: K|
            if keys.contains(k) {
                v
            } else {
                m[k]
            },
    )
}

pub proof fn lemma_with_each<K, V>(m: Map<K, V>, keys: Seq<K>, v: V, i: int)
    requires
        0 <= i < keys.len(),
    ensures
        with_each(m, keys.take(0), v) == m,
        with_each(m, keys.take(i + 1), v) == with_each(m, keys.take(i), v).insert(keys[i], v),
        keys.take(keys.len() as int) == keys,
{
    assert(keys.take(0) =~= Seq::<K>::empty());
    assert(with_each(m, keys.take(0), v) =~= m);
    let a = keys.take(i);
    let b = keys.take(i + 1);
    assert forall|k: K| b.contains(k) <==> (a.contains(k) || k == keys[i]) by {
        if b.contains(k) {
            let j = choose|j: int| 0 <= j < b.len() && b[j] == k;
            if j < i {
                assert(a[j] == k);
            }
        }
        if a.contains(k) {
            let j = choose|j: int| 0 <= j < a.len() && a[j] == k;
            assert(b[j] == k);
        }
        assert(b[i] == keys[i]);
    }
    assert(with_each(m, b, v) =~= with_each(m, a, v).insert(keys[i], v));
    assert(keys.take(keys.len() as int) =~= keys);
}

} // verus!
