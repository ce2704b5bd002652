use vstd::prelude::*;

verus! {

/// Lexicographic order on texts, by code point.
pub open spec fn key_lt(a: Seq<char>, b: Seq<char>) -> bool
    decreases a.len(),
{
    if a.len() == 0 {
        b.len() > 0
    } else if b.len() == 0 {
        false
    } else if a[0] != b[0] {
        (a[0] as u32) < (b[0] as u32)
    } else {
        key_lt(a.drop_first(), b.drop_first())
    }
}

pub proof fn lemma_key_lt_transitive(a: Seq<char>, b: Seq<char>, c: Seq<char>)
    requires
        key_lt(a, b),
        key_lt(b, c),
    ensures
        key_lt(a, c),
    decreases a.len(),
{
    if a.len() > 0 && b.len() > 0 && c.len() > 0 && a[0] == b[0] && b[0] == c[0] {
        lemma_key_lt_transitive(a.drop_first(), b.drop_first(), c.drop_first());
    }
}

/// Whether `a` orders strictly before `b`.
pub fn key_less(a: &str, b: &str) -> (r: bool)
    ensures
        r == key_lt(a@, b@),
{
    let la = a.unicode_len();
    let lb = b.unicode_len();
    let mut i: usize = 0;
    assert(a@.skip(0) =~= a@);
    assert(b@.skip(0) =~= b@);
    while i < la && i < lb
        invariant
            la == a@.len(),
            lb == b@.len(),
            i <= la,
            i <= lb,
            key_lt(a@, b@) == key_lt(a@.skip(i as int), b@.skip(i as int)),
        decreases la - i,
    {
        let ca = a.get_char(i);
        let cb = b.get_char(i);
        if ca != cb {
            return (ca as u32) < (cb as u32);
        }
        proof {
            assert(a@.skip(i as int).drop_first() =~= a@.skip(i + 1));
            assert(b@.skip(i as int).drop_first() =~= b@.skip(i + 1));
        }
        i = i + 1;
    }
    i == la && i < lb
}

pub proof fn lemma_key_lt_irreflexive(a: Seq<char>)
    ensures
        !key_lt(a, a),
    decreases a.len(),
{
    if a.len() > 0 {
        lemma_key_lt_irreflexive(a.drop_first());
    }
}

/// `x` placed into `s` before the first element whose key it orders
/// strictly before.
pub open spec fn insert_by_key<A>(s: Seq<A>, x: A, key: spec_fn(A) -> Seq<char>) -> Seq<A>
    decreases s.len(),
{
    if s.len() == 0 {
        seq![x]
    } else if key_lt(key(x), key(s[0])) {
        seq![x] + s
    } else {
        seq![s[0]] + insert_by_key(s.drop_first(), x, key)
    }
}

/// `s` sorted by key, stably: entries with equal keys keep their order.
pub open spec fn sort_by_key<A>(s: Seq<A>, key: spec_fn(A) -> Seq<char>) -> Seq<A>
    decreases s.len(),
{
    if s.len() == 0 {
        seq![]
    } else {
        insert_by_key(sort_by_key(s.drop_last(), key), s.last(), key)
    }
}

/// The key of an entry.
pub open spec fn entry_key<V>() -> spec_fn((String, V)) -> Seq<char> {
    |e: (String, V)| e.0@
}

pub proof fn lemma_insert_at<A>(s: Seq<A>, x: A, key: spec_fn(A) -> Seq<char>, pos: int)
    requires
        0 <= pos <= s.len(),
        forall|q: int| 0 <= q < pos ==> !key_lt(key(x), key(#[trigger] s[q])),
        pos < s.len() ==> key_lt(key(x), key(s[pos])),
    ensures
        insert_by_key(s, x, key) == s.insert(pos, x),
    decreases pos,
{
    if s.len() == 0 {
        assert(s.insert(pos, x) =~= seq![x]);
    } else if pos == 0 {
        assert(s.insert(pos, x) =~= seq![x] + s);
    } else {
        let t = s.drop_first();
        assert forall|q: int| 0 <= q < pos - 1 implies !key_lt(key(x), key(#[trigger] t[q])) by {
            assert(t[q] == s[q + 1]);
        }
        lemma_insert_at(t, x, key, pos - 1);
        assert(s.insert(pos, x) =~= seq![s[0]] + t.insert(pos - 1, x));
    }
}

pub proof fn lemma_insert_map<A, B>(
    s: Seq<A>,
    x: A,
    f: spec_fn(A) -> B,
    k1: spec_fn(A) -> Seq<char>,
    k2: spec_fn(B) -> Seq<char>,
)
    requires
        forall|a: A| #[trigger] k2(f(a)) == k1(a),
    ensures
        insert_by_key(s.map_values(f), f(x), k2) == insert_by_key(s, x, k1).map_values(f),
    decreases s.len(),
{
    assert(k2(f(x)) == k1(x));
    if s.len() > 0 {
        assert(k2(f(s[0])) == k1(s[0]));
        assert(s.map_values(f)[0] == f(s[0]));
        assert(s.map_values(f).drop_first() =~= s.drop_first().map_values(f));
        lemma_insert_map(s.drop_first(), x, f, k1, k2);
        if !key_lt(k1(x), k1(s[0])) {
            assert((seq![s[0]] + insert_by_key(s.drop_first(), x, k1)).map_values(f)
                =~= seq![f(s[0])] + insert_by_key(s.drop_first(), x, k1).map_values(f));
        } else {
            assert((seq![x] + s).map_values(f) =~= seq![f(x)] + s.map_values(f));
        }
    } else {
        assert(seq![x].map_values(f) =~= seq![f(x)]);
    }
}

/// Sorting commutes with a map that keeps keys.
pub proof fn lemma_sort_map<A, B>(
    s: Seq<A>,
    f: spec_fn(A) -> B,
    k1: spec_fn(A) -> Seq<char>,
    k2: spec_fn(B) -> Seq<char>,
)
    requires
        forall|a: A| #[trigger] k2(f(a)) == k1(a),
    ensures
        sort_by_key(s.map_values(f), k2) == sort_by_key(s, k1).map_values(f),
    decreases s.len(),
{
    if s.len() > 0 {
        assert(s.map_values(f).drop_last() =~= s.drop_last().map_values(f));
        lemma_sort_map(s.drop_last(), f, k1, k2);
        lemma_insert_map(sort_by_key(s.drop_last(), k1), s.last(), f, k1, k2);
    } else {
        assert(s.map_values(f) =~= seq![]);
    }
}

/// Whether `s` is ordered by key.
pub open spec fn sorted_by<A>(s: Seq<A>, key: spec_fn(A) -> Seq<char>) -> bool {
    forall|p: int, q: int| 0 <= p < q < s.len() ==> !key_lt(key(#[trigger] s[q]), key(#[trigger] s[p]))
}

pub proof fn lemma_insert_sorted<A>(s: Seq<A>, x: A, key: spec_fn(A) -> Seq<char>)
    requires
        sorted_by(s, key),
    ensures
        sorted_by(insert_by_key(s, x, key), key),
        forall|i: int| 0 <= i < insert_by_key(s, x, key).len() ==> #[trigger] insert_by_key(s, x, key)[i] == x
            || exists|j: int| 0 <= j < s.len() && insert_by_key(s, x, key)[i] == s[j],
    decreases s.len(),
{
    lemma_insert_len(s, x, key);
    let r = insert_by_key(s, x, key);
    if s.len() == 0 {
    } else if key_lt(key(x), key(s[0])) {
        assert(r =~= seq![x] + s);
        assert forall|p: int, q: int| 0 <= p < q < r.len() implies !key_lt(key(#[trigger] r[q]), key(#[trigger] r[p])) by {
            if p == 0 {
                if key_lt(key(r[q]), key(x)) {
                    lemma_key_lt_transitive(key(s[q - 1]), key(x), key(s[0]));
                    if q - 1 == 0 {
                        lemma_key_lt_irreflexive(key(s[0]));
                    } else {
                        assert(!key_lt(key(s[q - 1]), key(s[0])));
                    }
                }
            } else {
                assert(r[p] == s[p - 1] && r[q] == s[q - 1]);
            }
        }
        assert forall|i: int| 0 <= i < r.len() implies #[trigger] r[i] == x
            || exists|j: int| 0 <= j < s.len() && r[i] == s[j] by {
            if i > 0 {
                assert(r[i] == s[i - 1]);
            }
        }
    } else {
        let rest = s.drop_first();
        assert(sorted_by(rest, key)) by {
            assert forall|p: int, q: int| 0 <= p < q < rest.len() implies !key_lt(key(#[trigger] rest[q]), key(#[trigger] rest[p])) by {
                assert(rest[p] == s[p + 1] && rest[q] == s[q + 1]);
            }
        }
        lemma_insert_sorted(rest, x, key);
        let t = insert_by_key(rest, x, key);
        assert(r =~= seq![s[0]] + t);
        assert forall|i: int| 0 <= i < r.len() implies #[trigger] r[i] == x
            || exists|j: int| 0 <= j < s.len() && r[i] == s[j] by {
            if i == 0 {
                assert(r[0] == s[0]);
            } else {
                assert(r[i] == t[i - 1]);
                if t[i - 1] != x {
                    let j = choose|j: int| 0 <= j < rest.len() && t[i - 1] == rest[j];
                    assert(r[i] == s[j + 1]);
                }
            }
        }
        assert forall|p: int, q: int| 0 <= p < q < r.len() implies !key_lt(key(#[trigger] r[q]), key(#[trigger] r[p])) by {
            if p == 0 {
                assert(r[q] == t[q - 1]);
                if t[q - 1] != x {
                    let j = choose|j: int| 0 <= j < rest.len() && t[q - 1] == rest[j];
                    assert(rest[j] == s[j + 1]);
                }
            } else {
                assert(r[p] == t[p - 1] && r[q] == t[q - 1]);
            }
        }
    }
}

/// Sorting by key orders by key.
pub proof fn lemma_sort_sorted<A>(s: Seq<A>, key: spec_fn(A) -> Seq<char>)
    ensures
        sorted_by(sort_by_key(s, key), key),
    decreases s.len(),
{
    if s.len() > 0 {
        lemma_sort_sorted(s.drop_last(), key);
        lemma_insert_sorted(sort_by_key(s.drop_last(), key), s.last(), key);
    }
}

pub proof fn lemma_sort_len<A>(s: Seq<A>, key: spec_fn(A) -> Seq<char>)
    ensures
        sort_by_key(s, key).len() == s.len(),
    decreases s.len(),
{
    if s.len() > 0 {
        lemma_sort_len(s.drop_last(), key);
        lemma_insert_len(sort_by_key(s.drop_last(), key), s.last(), key);
    }
}

pub proof fn lemma_insert_len<A>(s: Seq<A>, x: A, key: spec_fn(A) -> Seq<char>)
    ensures
        insert_by_key(s, x, key).len() == s.len() + 1,
    decreases s.len(),
{
    if s.len() > 0 {
        lemma_insert_len(s.drop_first(), x, key);
    }
}

/// Whether `j` occurs in `idx`.
pub open spec fn holds_index(idx: Seq<int>, j: int) -> bool {
    exists|p: int| 0 <= p < idx.len() && idx[p] == j
}

/// The entry at `j` of `m`, as references.
pub open spec fn entry<'a, V>(m: &'a Vec<(String, V)>, j: int) -> (&'a String, &'a V) {
    (&m@[j].0, &m@[j].1)
}

/// Whether `x` is one of the entries of `m`.
pub open spec fn is_entry_of<'a, V>(m: &'a Vec<(String, V)>, x: (&'a String, &'a V)) -> bool {
    exists|j: int| 0 <= j < m@.len() && x == entry(m, j)
}

/// Whether `x` occurs in `r`.
pub open spec fn occurs_in<'a, V>(r: Seq<(&'a String, &'a V)>, x: (&'a String, &'a V)) -> bool {
    exists|p: int| 0 <= p < r.len() && r[p] == x
}

/// The entries of `m` ordered by key.
pub fn sorted_map<'a, V>(m: &'a Vec<(String, V)>) -> (r: Vec<(&'a String, &'a V)>)
    ensures
        r@.len() == m@.len(),
        forall|p: int, q: int| 0 <= p < q < r@.len() ==> !key_lt(r@[q].0@, r@[p].0@),
        forall|p: int| 0 <= p < r@.len() ==> #[trigger] is_entry_of(m, r@[p]),
        forall|j: int| 0 <= j < m@.len() ==> #[trigger] occurs_in(r@, entry(m, j)),
        sort_by_key(m@, entry_key()).len() == m@.len(),
        forall|p: int| 0 <= p < r@.len() ==> *(#[trigger] r@[p]).0 == sort_by_key(m@, entry_key())[p].0
            && *r@[p].1 == sort_by_key(m@, entry_key())[p].1,
{
    let n = m.len();
    let mut r: Vec<(&'a String, &'a V)> = Vec::new();
    let ghost mut idx: Seq<int> = seq![];
    let mut k: usize = 0;
    assert(m@.take(0) =~= seq![]);
    while k < n
        invariant
            k <= n,
            n == m@.len(),
            r@.len() == k,
            idx.len() == k,
            forall|p: int| 0 <= p < k ==> 0 <= #[trigger] idx[p] < k,
            forall|p: int| 0 <= p < k ==> r@[p] == entry(m, #[trigger] idx[p]),
            forall|j: int| 0 <= j < k ==> #[trigger] holds_index(idx, j),
            forall|p: int, q: int| 0 <= p < q < k ==> !key_lt(r@[q].0@, r@[p].0@),
            sort_by_key(m@.take(k as int), entry_key()).len() == k,
            forall|p: int| 0 <= p < k ==> *(#[trigger] r@[p]).0 == sort_by_key(m@.take(k as int), entry_key())[p].0
                && *r@[p].1 == sort_by_key(m@.take(k as int), entry_key())[p].1,
        decreases n - k,
    {
        let key = m[k].0.as_str();
        let mut pos: usize = 0;
        while pos < k && !key_less(key, r[pos].0.as_str())
            invariant
                pos <= k,
                r@.len() == k,
                k < n,
                n == m@.len(),
                key@ == m@[k as int].0@,
                forall|p: int| 0 <= p < pos ==> !key_lt(key@, r@[p].0@),
            decreases k - pos,
        {
            pos = pos + 1;
        }
        let ghost old_r = r@;
        let ghost old_idx = idx;
        let ghost ss = sort_by_key(m@.take(k as int), entry_key());
        proof {
            let kf = entry_key::<V>();
            let x = m@[k as int];
            assert forall|q: int| 0 <= q < pos implies !key_lt(kf(x), kf(#[trigger] ss[q])) by {
                assert(ss[q].0 == *old_r[q].0);
            }
            if pos < k {
                assert(ss[pos as int].0 == *old_r[pos as int].0);
            }
            lemma_insert_at(ss, x, kf, pos as int);
            assert(m@.take(k + 1).drop_last() =~= m@.take(k as int));
            assert(m@.take(k + 1).last() == x);
        }
        r.insert(pos, (&m[k].0, &m[k].1));
        proof {
            idx = idx.insert(pos as int, k as int);
            assert forall|p: int| 0 <= p < k + 1 implies r@[p] == entry(m, #[trigger] idx[p]) by {
                if p < pos {
                    assert(r@[p] == old_r[p]);
                } else if p > pos {
                    assert(r@[p] == old_r[p - 1]);
                    assert(idx[p] == old_idx[p - 1]);
                }
            }
            assert forall|j: int| 0 <= j < k + 1 implies #[trigger] holds_index(idx, j) by {
                if j == k {
                    assert(idx[pos as int] == j);
                } else {
                    assert(holds_index(old_idx, j));
                    let p0 = choose|p: int| 0 <= p < old_idx.len() && #[trigger] old_idx[p] == j;
                    if p0 < pos {
                        assert(idx[p0] == j);
                    } else {
                        assert(idx[p0 + 1] == j);
                    }
                }
            }
            assert forall|p: int, q: int| 0 <= p < q < k + 1 implies !key_lt(r@[q].0@, r@[p].0@) by {
                let x = key@;
                if q == pos {
                    assert(r@[p] == old_r[p]);
                } else if p == pos {
                    assert(r@[q] == old_r[q - 1]);
                    if key_lt(old_r[q - 1].0@, x) {
                        if q - 1 == pos {
                            lemma_key_lt_transitive(x, old_r[q - 1].0@, x);
                            lemma_key_lt_irreflexive(x);
                        } else {
                            lemma_key_lt_transitive(old_r[q - 1].0@, x, old_r[pos as int].0@);
                        }
                    }
                } else if q < pos {
                    assert(r@[p] == old_r[p] && r@[q] == old_r[q]);
                } else if p > pos {
                    assert(r@[p] == old_r[p - 1] && r@[q] == old_r[q - 1]);
                } else {
                    assert(r@[p] == old_r[p] && r@[q] == old_r[q - 1]);
                }
            }
        }
        proof {
            let ns = sort_by_key(m@.take(k + 1), entry_key());
            assert(ns == ss.insert(pos as int, m@[k as int]));
            assert forall|p: int| 0 <= p < k + 1 implies *(#[trigger] r@[p]).0 == ns[p].0 && *r@[p].1 == ns[p].1 by {
                if p < pos {
                    assert(r@[p] == old_r[p]);
                } else if p > pos {
                    assert(r@[p] == old_r[p - 1]);
                }
            }
        }
        k = k + 1;
    }
    assert(m@.take(n as int) =~= m@);
    assert forall|p: int| 0 <= p < r@.len() implies #[trigger] is_entry_of(m, r@[p]) by {
        assert(r@[p] == entry(m, idx[p]));
    }
    assert forall|j: int| 0 <= j < m@.len() implies #[trigger] occurs_in(r@, entry(m, j)) by {
        assert(holds_index(idx, j));
        let p0 = choose|p: int| 0 <= p < idx.len() && #[trigger] idx[p] == j;
        assert(r@[p0] == entry(m, idx[p0]));
    }
    r
}

} // verus!
