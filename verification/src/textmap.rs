//! A map from texts, held in ascending order of its keys.
use vstd::prelude::*;

use crate::text::chars;

verus! {

/// Whether `a` comes before `b` when texts are ordered by their characters.
pub open spec fn text_lt(a: Seq<char>, b: Seq<char>) -> bool
    decreases a.len(),
{
    if b.len() == 0 {
        false
    } else if a.len() == 0 {
        true
    } else if a[0] != b[0] {
        a[0] < b[0]
    } else {
        text_lt(a.drop_first(), b.drop_first())
    }
}

pub proof fn lemma_lt_irreflexive(a: Seq<char>)
    ensures
        !text_lt(a, a),
    decreases a.len(),
{
    if a.len() > 0 {
        lemma_lt_irreflexive(a.drop_first());
    }
}

pub proof fn lemma_lt_transitive(a: Seq<char>, b: Seq<char>, c: Seq<char>)
    requires
        text_lt(a, b),
        text_lt(b, c),
    ensures
        text_lt(a, c),
    decreases a.len(),
{
    if a.len() > 0 && a[0] == b[0] && b[0] == c[0] {
        lemma_lt_transitive(a.drop_first(), b.drop_first(), c.drop_first());
    }
}

pub proof fn lemma_lt_total(a: Seq<char>, b: Seq<char>)
    ensures
        a == b || text_lt(a, b) || text_lt(b, a),
    decreases a.len(),
{
    if a.len() == 0 && b.len() == 0 {
        assert(a =~= b);
    } else if a.len() > 0 && b.len() > 0 && a[0] == b[0] {
        lemma_lt_total(a.drop_first(), b.drop_first());
        if a.drop_first() == b.drop_first() {
            assert(a =~= seq![a[0]] + a.drop_first());
            assert(b =~= seq![b[0]] + b.drop_first());
        }
    }
}

/// Whether `a` comes before `b`.
pub fn text_before(a: &str, b: &str) -> (r: bool)
    ensures
        r == text_lt(a@, b@),
{
    let x = chars(a);
    let y = chars(b);
    let mut i: usize = 0;
    proof {
        assert(a@.skip(0) =~= a@);
        assert(b@.skip(0) =~= b@);
    }
    loop
        invariant
            i <= x.len(),
            i <= y.len(),
            x@ == a@,
            y@ == b@,
            text_lt(a@, b@) == text_lt(a@.skip(i as int), b@.skip(i as int)),
        decreases x.len() - i,
    {
        if i == y.len() {
            return false;
        }
        if i == x.len() {
            return true;
        }
        if x[i] != y[i] {
            return x[i] < y[i];
        }
        proof {
            assert(a@.skip(i as int).drop_first() =~= a@.skip(i as int + 1));
            assert(b@.skip(i as int).drop_first() =~= b@.skip(i as int + 1));
        }
        i += 1;
    }
}

/// Whether the texts stand in strictly ascending order.
pub open spec fn ascending(keys: Seq<Seq<char>>) -> bool {
    forall|i: int, j: int| 0 <= i < j < keys.len() ==> text_lt(#[trigger] keys[i], #[trigger] keys[j])
}

/// Where `k` stands among `keys`.
pub open spec fn position(keys: Seq<Seq<char>>, k: Seq<char>) -> Option<int> {
    if keys.contains(k) {
        Some(choose|i: int| 0 <= i < keys.len() && keys[i] == k)
    } else {
        None
    }
}

/// In an ascending row a text stands once.
pub proof fn lemma_position(keys: Seq<Seq<char>>, k: Seq<char>, i: int)
    requires
        ascending(keys),
        0 <= i < keys.len(),
        keys[i] == k,
    ensures
        position(keys, k) == Some(i),
{
    assert(keys.contains(k));
    let j = choose|j: int| 0 <= j < keys.len() && keys[j] == k;
    assert(0 <= j < keys.len() && keys[j] == k);
    lemma_lt_irreflexive(k);
    if i < j {
        assert(text_lt(keys[i], keys[j]));
    } else if j < i {
        assert(text_lt(keys[j], keys[i]));
    }
}

/// A map from texts to values, in ascending order of the keys.
pub struct TextMap<V> {
    names: Vec<String>,
    values: Vec<V>,
}

impl<V> TextMap<V> {
    /// The keys, in ascending order.
    pub closed spec fn keys(self) -> Seq<Seq<char>> {
        crate::text::texts(self.names@)
    }

    /// The values, each at the place of its key.
    pub closed spec fn vals(self) -> Seq<V> {
        self.values@
    }

    /// One value per key, and the keys strictly ascending.
    #[verifier::type_invariant]
    pub open spec fn wf(self) -> bool {
        &&& self.keys().len() == self.vals().len()
        &&& ascending(self.keys())
    }

    /// The value of `k`, where there is one.
    pub open spec fn lookup(self, k: Seq<char>) -> Option<V> {
        match position(self.keys(), k) {
            Some(i) => Some(self.vals()[i]),
            None => None,
        }
    }

    /// A map without entries.
    pub fn new() -> (r: Self)
        ensures
            r.wf(),
            r.keys() == Seq::<Seq<char>>::empty(),
            r.vals() == Seq::<V>::empty(),
    {
        let r = TextMap { names: Vec::new(), values: Vec::new() };
        assert(r.keys() =~= Seq::<Seq<char>>::empty());
        r
    }

    /// The number of entries.
    pub fn len(&self) -> (n: usize)
        ensures
            n == self.keys().len(),
            n == self.vals().len(),
            self.wf(),
    {
        proof {
            use_type_invariant(self);
        }
        self.names.len()
    }

    /// The key at place `i`.
    pub fn key_at(&self, i: usize) -> (k: &String)
        requires
            i < self.keys().len(),
        ensures
            k@ == self.keys()[i as int],
    {
        &self.names[i]
    }

    /// The value at place `i`.
    pub fn value_at(&self, i: usize) -> (v: &V)
        requires
            i < self.vals().len(),
        ensures
            *v == self.vals()[i as int],
    {
        &self.values[i]
    }

    /// Where `k` stands among the keys.
    pub fn find(&self, k: &str) -> (r: Option<usize>)
        ensures
            match r {
                Some(i) => i < self.keys().len() && self.keys()[i as int] == k@ && position(self.keys(), k@) == Some(
                    i as int,
                ),
                None => position(self.keys(), k@) is None,
            },
            self.wf(),
    {
        proof {
            use_type_invariant(self);
        }
        let mut i: usize = 0;
        while i < self.names.len()
            invariant
                i <= self.names.len(),
                self.wf(),
                forall|j: int| 0 <= j < i ==> self.keys()[j] != k@,
            decreases self.names.len() - i,
        {
            if crate::text::text_eq(self.names[i].as_str(), k) {
                proof {
                    lemma_position(self.keys(), k@, i as int);
                }
                return Some(i);
            }
            i += 1;
        }
        None
    }

    /// The value of `k`, where there is one.
    pub fn get(&self, k: &str) -> (r: Option<&V>)
        ensures
            match r {
                Some(v) => self.lookup(k@) == Some(*v),
                None => self.lookup(k@) is None,
            },
    {
        match self.find(k) {
            Some(i) => Some(&self.values[i]),
            None => None,
        }
    }

    /// The map with `v` as the value of `k`, in place of any value that `k` had.
    pub fn insert(self, k: String, v: V) -> (r: Self)
        ensures
            r.wf(),
            r.lookup(k@) == Some(v),
            forall|other: Seq<char>| other != k@ ==> #[trigger] r.lookup(other) == self.lookup(other),
            forall|other: Seq<char>| #[trigger] r.keys().contains(other) <==> (other == k@ || self.keys().contains(other)),
    {
        proof {
            use_type_invariant(&self);
        }
        let ghost old_keys = self.keys();
        let ghost old_vals = self.vals();
        let n: usize = self.names.len();
        let mut i: usize = 0;
        while i < n && text_before(self.names[i].as_str(), k.as_str())
            invariant
                i <= n,
                n == self.names.len(),
                self.wf(),
                forall|j: int| 0 <= j < i ==> text_lt(self.keys()[j], k@),
            decreases n - i,
        {
            i += 1;
        }
        let TextMap { names, values } = self;
        let mut names = names;
        let mut values = values;
        let found: bool = i < n && crate::text::text_eq(names[i].as_str(), k.as_str());
        let ghost key = k@;
        if found {
            values.set(i, v);
            let r = TextMap { names, values };
            proof {
                assert(r.keys() =~= old_keys);
                lemma_position(r.keys(), key, i as int);
                assert(r.lookup(key) == Some(v));
                assert forall|other: Seq<char>| other != key implies #[trigger] r.lookup(other) == (match position(
                    old_keys,
                    other,
                ) {
                    Some(p) => Some(old_vals[p]),
                    None => None,
                }) by {
                    if old_keys.contains(other) {
                        let p = position(old_keys, other).unwrap();
                        assert(old_keys[p] == other);
                        assert(p != i);
                    }
                }
            }
            r
        } else {
            names.insert(i, k);
            values.insert(i, v);
            proof {
                let keys = crate::text::texts(names@);
                assert(keys =~= old_keys.insert(i as int, key));
                assert forall|a: int, b: int| 0 <= a < b < keys.len() implies text_lt(
                    #[trigger] keys[a],
                    #[trigger] keys[b],
                ) by {
                    lemma_insert_ascending(old_keys, key, i as int, a, b);
                }
            }
            let r = TextMap { names, values };
            proof {
                assert(r.keys() =~= old_keys.insert(i as int, key));
                assert(r.vals() =~= old_vals.insert(i as int, v));
                assert(r.keys()[i as int] == key);
                lemma_position(r.keys(), key, i as int);
                assert forall|other: Seq<char>| #[trigger] r.keys().contains(other) <==> (other == key
                    || old_keys.contains(other)) by {
                    if r.keys().contains(other) {
                        let p = choose|p: int| 0 <= p < r.keys().len() && r.keys()[p] == other;
                        if p < i {
                            assert(old_keys[p] == other);
                        } else if p > i {
                            assert(old_keys[p - 1] == other);
                        }
                    }
                    if old_keys.contains(other) {
                        let p = choose|p: int| 0 <= p < old_keys.len() && old_keys[p] == other;
                        if p < i {
                            assert(r.keys()[p] == other);
                        } else {
                            assert(r.keys()[p + 1] == other);
                        }
                    }
                }
                assert forall|other: Seq<char>| other != key implies #[trigger] r.lookup(other) == (match position(
                    old_keys,
                    other,
                ) {
                    Some(p) => Some(old_vals[p]),
                    None => None,
                }) by {
                    assert(r.keys().contains(other) <==> old_keys.contains(other));
                    if old_keys.contains(other) {
                        let p = position(old_keys, other).unwrap();
                        assert(old_keys[p] == other);
                        if p < i {
                            assert(r.keys()[p] == other);
                            lemma_position(r.keys(), other, p);
                        } else {
                            assert(r.keys()[p + 1] == other);
                            lemma_position(r.keys(), other, p + 1);
                        }
                    }
                }
            }
            r
        }
    }
}

/// Placing `key` after the smaller keys and before the larger keeps the order.
proof fn lemma_insert_ascending(keys: Seq<Seq<char>>, key: Seq<char>, i: int, a: int, b: int)
    requires
        ascending(keys),
        0 <= i <= keys.len(),
        forall|j: int| 0 <= j < i ==> text_lt(keys[j], key),
        i < keys.len() ==> !text_lt(keys[i], key) && keys[i] != key,
        0 <= a < b <= keys.len(),
    ensures
        text_lt(keys.insert(i, key)[a], keys.insert(i, key)[b]),
{
    let r = keys.insert(i, key);
    if i < keys.len() {
        lemma_lt_total(keys[i], key);
        assert(text_lt(key, keys[i]));
    }
    if a < i && b < i {
        assert(r[a] == keys[a] && r[b] == keys[b]);
    } else if a < i && b == i {
        assert(r[a] == keys[a]);
    } else if a < i {
        assert(r[a] == keys[a] && r[b] == keys[b - 1]);
    } else if a == i {
        assert(r[b] == keys[b - 1]);
        if b - 1 > i {
            assert(text_lt(keys[i], keys[b - 1]));
            lemma_lt_transitive(key, keys[i], keys[b - 1]);
        }
    } else {
        assert(r[a] == keys[a - 1] && r[b] == keys[b - 1]);
    }
}

/// Which of two texts comes first is decided where they first differ; of a text and what
/// it begins with, the shorter comes first.
pub proof fn law_first_difference_decides(a: &str, b: &str, r: bool, i: int)
    requires
        call_ensures(text_before, (a, b), r),
        0 <= i <= a@.len(),
        i <= b@.len(),
        a@.subrange(0, i) == b@.subrange(0, i),
    ensures
        i < a@.len() && i < b@.len() && a@[i] != b@[i] ==> r == (a@[i] < b@[i]),
        i == a@.len() && i < b@.len() ==> r,
        i == b@.len() ==> !r,
{
    lemma_lt_behind(a@, b@, i);
}

/// What two texts begin with alike does not decide which comes first.
proof fn lemma_lt_behind(a: Seq<char>, b: Seq<char>, i: int)
    requires
        0 <= i <= a.len(),
        i <= b.len(),
        a.subrange(0, i) == b.subrange(0, i),
    ensures
        text_lt(a, b) == text_lt(a.skip(i), b.skip(i)),
    decreases i,
{
    if i == 0 {
        assert(a.skip(0) =~= a);
        assert(b.skip(0) =~= b);
    } else {
        assert(a[0] == a.subrange(0, i)[0]);
        assert(b[0] == b.subrange(0, i)[0]);
        assert(a.drop_first().subrange(0, i - 1) =~= a.subrange(0, i).subrange(1, i));
        assert(b.drop_first().subrange(0, i - 1) =~= b.subrange(0, i).subrange(1, i));
        lemma_lt_behind(a.drop_first(), b.drop_first(), i - 1);
        assert(a.drop_first().skip(i - 1) =~= a.skip(i));
        assert(b.drop_first().skip(i - 1) =~= b.skip(i));
    }
}

/// A value is found under the key it stands at, and one that was put in is found again;
/// what stands under the other keys is as before.
pub proof fn law_found_under_its_key<V>(
    m: TextMap<V>,
    key: String,
    k: &str,
    v: V,
    r: TextMap<V>,
    found: Option<&V>,
    other: &str,
    before: Option<&V>,
    after: Option<&V>,
    empty: TextMap<V>,
    nothing: Option<&V>,
)
    requires
        call_ensures(TextMap::<V>::insert, (m, key, v), r),
        k@ == key@,
        call_ensures(TextMap::<V>::get, (&r, k), found),
        call_ensures(TextMap::<V>::get, (&m, other), before),
        call_ensures(TextMap::<V>::get, (&r, other), after),
        call_ensures(TextMap::<V>::new, (), empty),
        call_ensures(TextMap::<V>::get, (&empty, other), nothing),
    ensures
        found == Some(&v),
        other@ != key@ ==> after == before,
        nothing is None,
{
    assert(r.lookup(other@) == r.lookup(other@));
}

/// The entry at a place is the one that is found under its key, the keys are in ascending
/// order, and as many as there are places.
pub proof fn law_entries_by_place<V>(
    m: TextMap<V>,
    n: usize,
    i: usize,
    j: usize,
    a: &String,
    b: &String,
    v: &V,
    k: &str,
    found: Option<&V>,
    at: Option<usize>,
    first: &str,
    second: &str,
    ordered: bool,
)
    requires
        call_ensures(TextMap::<V>::len, (&m,), n),
        i < n && j < n,
        call_ensures(TextMap::<V>::key_at, (&m, i), a),
        call_ensures(TextMap::<V>::key_at, (&m, j), b),
        call_ensures(TextMap::<V>::value_at, (&m, i), v),
        k@ == a@,
        call_ensures(TextMap::<V>::get, (&m, k), found),
        call_ensures(TextMap::<V>::find, (&m, k), at),
        first@ == a@ && second@ == b@,
        call_ensures(text_before, (first, second), ordered),
    ensures
        found == Some(v),
        at == Some(i),
        ordered == (i < j),
{
    lemma_position(m.keys(), k@, i as int);
    lemma_lt_irreflexive(a@);
    if j < i && ordered {
        lemma_lt_transitive(a@, b@, a@);
    }
}

}
