use vstd::prelude::*;

verus! {

/// Lexicographic order on names, character by character by code point (the
/// order of `str`'s `<`).
pub open spec fn name_lt(a: Seq<char>, b: Seq<char>) -> bool
    decreases a.len(),
{
    if b.len() == 0 {
        false
    } else if a.len() == 0 {
        true
    } else if a[0] < b[0] {
        true
    } else if a[0] == b[0] {
        name_lt(a.drop_first(), b.drop_first())
    } else {
        false
    }
}

/// Whether `a` comes strictly before `b`.
pub fn less_than(a: &Vec<char>, b: &Vec<char>) -> (r: bool)
    ensures
        r == name_lt(a@, b@),
{
    let mut k: usize = 0;
    assert(a@.subrange(0, a.len() as int) =~= a@);
    assert(b@.subrange(0, b.len() as int) =~= b@);
    while k < a.len() && k < b.len() && a[k] == b[k]
        invariant
            k <= a.len(),
            k <= b.len(),
            name_lt(a@, b@) == name_lt(
                a@.subrange(k as int, a.len() as int),
                b@.subrange(k as int, b.len() as int),
            ),
        decreases a.len() - k,
    {
        assert(a@.subrange(k as int, a.len() as int).drop_first() =~= a@.subrange(
            k + 1,
            a.len() as int,
        ));
        assert(b@.subrange(k as int, b.len() as int).drop_first() =~= b@.subrange(
            k + 1,
            b.len() as int,
        ));
        k = k + 1;
    }
    assert(k < a.len() ==> a@.subrange(k as int, a.len() as int)[0] == a@[k as int]);
    assert(k < b.len() ==> b@.subrange(k as int, b.len() as int)[0] == b@[k as int]);
    if k == b.len() {
        false
    } else if k == a.len() {
        true
    } else {
        a[k] < b[k]
    }
}

/// `x` put into `s` before the first key that it precedes.
pub open spec fn insert_key(keys: Seq<Seq<char>>, x: int, s: Seq<int>) -> Seq<int>
    decreases s.len(),
{
    if s.len() == 0 {
        seq![x]
    } else if name_lt(keys[x], keys[s[0]]) {
        seq![x] + s
    } else {
        seq![s[0]] + insert_key(keys, x, s.drop_first())
    }
}

/// The positions `0..k` of `keys`, in order of their keys; equal keys keep
/// their relative order.
pub open spec fn order_upto(keys: Seq<Seq<char>>, k: nat) -> Seq<int>
    decreases k,
{
    if k == 0 {
        Seq::empty()
    } else {
        insert_key(keys, k - 1, order_upto(keys, (k - 1) as nat))
    }
}

pub open spec fn sorted_order(keys: Seq<Seq<char>>) -> Seq<int> {
    order_upto(keys, keys.len())
}

pub open spec fn ints(v: Seq<usize>) -> Seq<int> {
    Seq::new(v.len(), |i: int| v[i] as int)
}

proof fn lemma_insert_at(keys: Seq<Seq<char>>, x: int, s: Seq<int>, i: int)
    requires
        0 <= i <= s.len(),
        forall|j: int| 0 <= j < i ==> !name_lt(keys[x], #[trigger] keys[s[j]]),
        i == s.len() || name_lt(keys[x], keys[s[i]]),
    ensures
        insert_key(keys, x, s) == s.subrange(0, i) + seq![x] + s.subrange(i, s.len() as int),
    decreases s.len(),
{
    if s.len() == 0 {
        assert(s.subrange(0, i) + seq![x] + s.subrange(i, s.len() as int) =~= seq![x]);
    } else if i == 0 {
        assert(s.subrange(0, i) + seq![x] + s.subrange(i, s.len() as int) =~= seq![x] + s);
    } else {
        let t = s.drop_first();
        assert forall|j: int| 0 <= j < i - 1 implies !name_lt(keys[x], #[trigger] keys[t[j]]) by {
            assert(t[j] == s[j + 1]);
        }
        lemma_insert_at(keys, x, t, i - 1);
        assert(seq![s[0]] + (t.subrange(0, i - 1) + seq![x] + t.subrange(i - 1, t.len() as int))
            =~= s.subrange(0, i) + seq![x] + s.subrange(i, s.len() as int));
    }
}

/// The positions of `keys` in order of their keys.
pub fn sort_order(keys: &Vec<Vec<char>>) -> (r: Vec<usize>)
    ensures
        ints(r@) == sorted_order(crate::text::char_seqs(keys@)),
        forall|i: int| 0 <= i < r.len() ==> r@[i] < keys.len(),
{
    let ghost ks = crate::text::char_seqs(keys@);
    let mut r: Vec<usize> = Vec::new();
    let mut k: usize = 0;
    assert(ints(r@) =~= order_upto(ks, 0));
    while k < keys.len()
        invariant
            k <= keys.len(),
            ks == crate::text::char_seqs(keys@),
            ints(r@) == order_upto(ks, k as nat),
            forall|i: int| 0 <= i < r.len() ==> r@[i] < k,
        decreases keys.len() - k,
    {
        let mut i: usize = 0;
        while i < r.len() && !less_than(&keys[k], &keys[r[i]])
            invariant
                i <= r.len(),
                ks == crate::text::char_seqs(keys@),
                forall|m: int| 0 <= m < r.len() ==> r@[m] < k,
                k < keys.len(),
                forall|j: int| 0 <= j < i ==> !name_lt(ks[k as int], #[trigger] ks[ints(r@)[j]]),
            decreases r.len() - i,
        {
            assert(ks[ints(r@)[i as int]] == keys@[r@[i as int] as int]@);
            i = i + 1;
        }
        proof {
            if i < r.len() {
                assert(ks[ints(r@)[i as int]] == keys@[r@[i as int] as int]@);
            }
            lemma_insert_at(ks, k as int, ints(r@), i as int);
        }
        let ghost before = ints(r@);
        r.insert(i, k);
        assert(ints(r@) =~= before.subrange(0, i as int) + seq![k as int] + before.subrange(
            i as int,
            before.len() as int,
        ));
        k = k + 1;
    }
    r
}

proof fn lemma_lt_transitive(a: Seq<char>, b: Seq<char>, c: Seq<char>)
    requires
        name_lt(a, b),
        name_lt(b, c),
    ensures
        name_lt(a, c),
    decreases a.len(),
{
    if a.len() > 0 && b.len() > 0 && c.len() > 0 && a[0] == b[0] && b[0] == c[0] {
        lemma_lt_transitive(a.drop_first(), b.drop_first(), c.drop_first());
    }
}

proof fn lemma_lt_irreflexive(a: Seq<char>)
    ensures
        !name_lt(a, a),
    decreases a.len(),
{
    if a.len() > 0 {
        lemma_lt_irreflexive(a.drop_first());
    }
}

/// No position of `s` has a key that comes before the key of an earlier one.
pub open spec fn keys_sorted(keys: Seq<Seq<char>>, s: Seq<int>) -> bool {
    forall|i: int, j: int|
        0 <= i < j < s.len() ==> !name_lt(#[trigger] keys[s[j]], #[trigger] keys[s[i]])
}

proof fn lemma_insert_members(keys: Seq<Seq<char>>, x: int, s: Seq<int>)
    ensures
        insert_key(keys, x, s).len() == s.len() + 1,
        forall|m: int|
            0 <= m < insert_key(keys, x, s).len() ==> #[trigger] insert_key(keys, x, s)[m] == x
                || s.contains(insert_key(keys, x, s)[m]),
    decreases s.len(),
{
    if s.len() > 0 && !name_lt(keys[x], keys[s[0]]) {
        let t = s.drop_first();
        lemma_insert_members(keys, x, t);
        let r = insert_key(keys, x, s);
        assert forall|m: int| 0 <= m < r.len() implies #[trigger] r[m] == x || s.contains(r[m]) by {
            if m == 0 {
                assert(s.contains(s[0]));
            } else {
                let y = insert_key(keys, x, t)[m - 1];
                assert(r[m] == y);
                if y != x {
                    let q = choose|q: int| 0 <= q < t.len() && t[q] == y;
                    assert(s[q + 1] == y);
                }
            }
        }
    } else if s.len() > 0 {
        let r = insert_key(keys, x, s);
        assert forall|m: int| 0 <= m < r.len() implies #[trigger] r[m] == x || s.contains(r[m]) by {
            if m > 0 {
                assert(r[m] == s[m - 1]);
            }
        }
    }
}

proof fn lemma_insert_sorted(keys: Seq<Seq<char>>, x: int, s: Seq<int>)
    requires
        keys_sorted(keys, s),
    ensures
        keys_sorted(keys, insert_key(keys, x, s)),
    decreases s.len(),
{
    lemma_insert_members(keys, x, s);
    let r = insert_key(keys, x, s);
    if s.len() == 0 {
    } else if name_lt(keys[x], keys[s[0]]) {
        assert forall|i: int, j: int| 0 <= i < j < r.len() implies !name_lt(
            #[trigger] keys[r[j]],
            #[trigger] keys[r[i]],
        ) by {
            if i == 0 {
                assert(r[j] == s[j - 1]);
                if j - 1 > 0 {
                    assert(!name_lt(keys[s[j - 1]], keys[s[0]]));
                }
                if name_lt(keys[s[j - 1]], keys[x]) {
                    lemma_lt_transitive(keys[s[j - 1]], keys[x], keys[s[0]]);
                    lemma_lt_irreflexive(keys[s[0]]);
                }
            } else {
                assert(r[i] == s[i - 1] && r[j] == s[j - 1]);
            }
        }
    } else {
        let t = s.drop_first();
        assert(keys_sorted(keys, t)) by {
            assert forall|i: int, j: int| 0 <= i < j < t.len() implies !name_lt(
                #[trigger] keys[t[j]],
                #[trigger] keys[t[i]],
            ) by {
                assert(t[i] == s[i + 1] && t[j] == s[j + 1]);
            }
        }
        lemma_insert_sorted(keys, x, t);
        lemma_insert_members(keys, x, t);
        let u = insert_key(keys, x, t);
        assert forall|i: int, j: int| 0 <= i < j < r.len() implies !name_lt(
            #[trigger] keys[r[j]],
            #[trigger] keys[r[i]],
        ) by {
            assert(r[j] == u[j - 1]);
            if i == 0 {
                assert(r[i] == s[0]);
                if u[j - 1] != x {
                    assert(t.contains(u[j - 1]));
                    let q = choose|q: int| 0 <= q < t.len() && t[q] == u[j - 1];
                    assert(s[q + 1] == u[j - 1]);
                }
            } else {
                assert(r[i] == u[i - 1]);
            }
        }
    }
}

/// Entries come in order of their names: no entry's name comes before the
/// name of an entry walked earlier.
pub proof fn lemma_order_sorted(keys: Seq<Seq<char>>, k: nat)
    ensures
        keys_sorted(keys, order_upto(keys, k)),
    decreases k,
{
    if k > 0 {
        lemma_order_sorted(keys, (k - 1) as nat);
        lemma_insert_sorted(keys, k - 1, order_upto(keys, (k - 1) as nat));
    }
}

proof fn lemma_insert_keeps(keys: Seq<Seq<char>>, x: int, s: Seq<int>)
    ensures
        insert_key(keys, x, s).contains(x),
        forall|y: int| s.contains(y) ==> #[trigger] insert_key(keys, x, s).contains(y),
    decreases s.len(),
{
    let r = insert_key(keys, x, s);
    if s.len() == 0 {
        assert(r[0] == x);
    } else if name_lt(keys[x], keys[s[0]]) {
        assert(r[0] == x);
        assert forall|y: int| s.contains(y) implies #[trigger] r.contains(y) by {
            let q = choose|q: int| 0 <= q < s.len() && s[q] == y;
            assert(r[q + 1] == y);
        }
    } else {
        let t = s.drop_first();
        lemma_insert_keeps(keys, x, t);
        let u = insert_key(keys, x, t);
        let p = choose|p: int| 0 <= p < u.len() && u[p] == x;
        assert(r[p + 1] == x);
        assert forall|y: int| s.contains(y) implies #[trigger] r.contains(y) by {
            let q = choose|q: int| 0 <= q < s.len() && s[q] == y;
            if q == 0 {
                assert(r[0] == y);
            } else {
                assert(t[q - 1] == y);
                assert(u.contains(y));
                let m = choose|m: int| 0 <= m < u.len() && u[m] == y;
                assert(r[m + 1] == y);
            }
        }
    }
}

/// The order of the first `k` positions has `k` entries, each in `0..k`, and
/// holds every position in `0..k`.
pub proof fn lemma_order_complete(keys: Seq<Seq<char>>, k: nat)
    ensures
        order_upto(keys, k).len() == k,
        forall|i: int| 0 <= i < k ==> #[trigger] order_upto(keys, k).contains(i),
        forall|m: int| 0 <= m < k ==> 0 <= #[trigger] order_upto(keys, k)[m] < k,
    decreases k,
{
    if k > 0 {
        let prev = order_upto(keys, (k - 1) as nat);
        lemma_order_complete(keys, (k - 1) as nat);
        lemma_insert_members(keys, k - 1, prev);
        lemma_insert_keeps(keys, k - 1, prev);
        let r = order_upto(keys, k);
        assert forall|i: int| 0 <= i < k implies #[trigger] r.contains(i) by {
            if i < k - 1 {
                assert(prev.contains(i));
            }
        }
        assert forall|m: int| 0 <= m < k implies 0 <= #[trigger] r[m] < k by {
            if r[m] != k - 1 {
                let q = choose|q: int| 0 <= q < prev.len() && prev[q] == r[m];
                assert(0 <= prev[q] < k - 1);
            }
        }
    }
}

} // verus!
