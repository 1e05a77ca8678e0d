//! Byte and text helpers: string equality, big-endian encodings,
//! lexicographic order on byte strings, and a stable sort of keyed byte
//! records with the facts that make its result independent of input order.

use vstd::prelude::*;
use vstd::string::*;
use vstd::utf8::encode_utf8;

verus! {

/// The UTF-8 bytes of a string.
pub open spec fn str_bytes(s: Seq<char>) -> Seq<u8> {
    encode_utf8(s)
}

/// Big-endian bytes of a `u16`.
pub open spec fn be_u16(n: u16) -> Seq<u8> {
    seq![(n >> 8u16) as u8, n as u8]
}

/// Big-endian bytes of a `u32`.
pub open spec fn be_u32(n: u32) -> Seq<u8> {
    seq![(n >> 24u32) as u8, (n >> 16u32) as u8, (n >> 8u32) as u8, n as u8]
}

/// Big-endian bytes of a `u64`.
pub open spec fn be_u64(n: u64) -> Seq<u8> {
    seq![
        (n >> 56u64) as u8,
        (n >> 48u64) as u8,
        (n >> 40u64) as u8,
        (n >> 32u64) as u8,
        (n >> 24u64) as u8,
        (n >> 16u64) as u8,
        (n >> 8u64) as u8,
        n as u8,
    ]
}

/// Concatenation of a sequence of byte strings, in order.
pub open spec fn join_bytes(parts: Seq<Seq<u8>>) -> Seq<u8>
    decreases parts.len(),
{
    if parts.len() == 0 {
        Seq::empty()
    } else {
        join_bytes(parts.drop_last()) + parts.last()
    }
}

/// Whether two strings are equal.
pub fn str_eq(a: &str, b: &str) -> (r: bool)
    ensures
        r == (a@ == b@),
{
    let n = a.unicode_len();
    if n != b.unicode_len() {
        return false;
    }
    let mut i: usize = 0;
    while i < n
        invariant
            n == a@.len(),
            n == b@.len(),
            i <= n,
            forall|j: int| 0 <= j < i ==> a@[j] == b@[j],
        decreases n - i,
    {
        if a.get_char(i) != b.get_char(i) {
            return false;
        }
        i = i + 1;
    }
    assert(a@ =~= b@);
    true
}

/// Appends the UTF-8 bytes of `s` to `out`.
pub fn push_str_bytes(out: &mut Vec<u8>, s: &str)
    ensures
        final(out)@ == old(out)@ + str_bytes(s@),
{
    let b = s.as_bytes();
    let ghost start = out@;
    let mut i: usize = 0;
    while i < b.len()
        invariant
            b@ == str_bytes(s@),
            i <= b@.len(),
            out@ == start + b@.subrange(0, i as int),
        decreases b@.len() - i,
    {
        out.push(b[i]);
        i = i + 1;
        assert(out@ =~= start + b@.subrange(0, i as int));
    }
    assert(b@.subrange(0, b@.len() as int) =~= b@);
}

/// Appends the big-endian bytes of `n` to `out`.
pub fn push_be_u16(out: &mut Vec<u8>, n: u16)
    ensures
        final(out)@ == old(out)@ + be_u16(n),
{
    out.push((n >> 8u16) as u8);
    out.push(n as u8);
    assert(out@ =~= old(out)@ + be_u16(n));
}

/// Appends the big-endian bytes of `n` to `out`.
pub fn push_be_u32(out: &mut Vec<u8>, n: u32)
    ensures
        final(out)@ == old(out)@ + be_u32(n),
{
    out.push((n >> 24u32) as u8);
    out.push((n >> 16u32) as u8);
    out.push((n >> 8u32) as u8);
    out.push(n as u8);
    assert(out@ =~= old(out)@ + be_u32(n));
}

/// Appends the big-endian bytes of `n` to `out`.
pub fn push_be_u64(out: &mut Vec<u8>, n: u64)
    ensures
        final(out)@ == old(out)@ + be_u64(n),
{
    out.push((n >> 56u64) as u8);
    out.push((n >> 48u64) as u8);
    out.push((n >> 40u64) as u8);
    out.push((n >> 32u64) as u8);
    out.push((n >> 24u64) as u8);
    out.push((n >> 16u64) as u8);
    out.push((n >> 8u64) as u8);
    out.push(n as u8);
    assert(out@ =~= old(out)@ + be_u64(n));
}

/// Appends the bytes of `b` to `out`.
pub fn push_bytes(out: &mut Vec<u8>, b: &Vec<u8>)
    ensures
        final(out)@ == old(out)@ + b@,
{
    let ghost start = out@;
    let mut i: usize = 0;
    while i < b.len()
        invariant
            i <= b@.len(),
            out@ == start + b@.subrange(0, i as int),
        decreases b@.len() - i,
    {
        out.push(b[i]);
        i = i + 1;
        assert(out@ =~= start + b@.subrange(0, i as int));
    }
    assert(b@.subrange(0, b@.len() as int) =~= b@);
}

/// Strict lexicographic order on byte strings: the order of `Ord` on
/// `[u8]`, and so of `Ord` on `String`.
pub open spec fn lex_lt(a: Seq<u8>, b: Seq<u8>) -> bool
    decreases a.len(),
{
    if a.len() == 0 {
        b.len() > 0
    } else if b.len() == 0 {
        false
    } else if a[0] != b[0] {
        a[0] < b[0]
    } else {
        lex_lt(a.drop_first(), b.drop_first())
    }
}

/// Decides `lex_lt(a@, b@)`.
pub fn bytes_lt(a: &Vec<u8>, b: &Vec<u8>) -> (r: bool)
    ensures
        r == lex_lt(a@, b@),
{
    let mut i: usize = 0;
    assert(a@.subrange(0, a@.len() as int) =~= a@);
    assert(b@.subrange(0, b@.len() as int) =~= b@);
    while i < a.len() && i < b.len() && a[i] == b[i]
        invariant
            i <= a@.len(),
            i <= b@.len(),
            lex_lt(a@, b@) == lex_lt(a@.subrange(i as int, a@.len() as int), b@.subrange(i as int, b@.len() as int)),
        decreases a@.len() - i,
    {
        let ghost sa = a@.subrange(i as int, a@.len() as int);
        let ghost sb = b@.subrange(i as int, b@.len() as int);
        assert(sa.drop_first() =~= a@.subrange(i + 1, a@.len() as int));
        assert(sb.drop_first() =~= b@.subrange(i + 1, b@.len() as int));
        i = i + 1;
    }
    let ghost sa = a@.subrange(i as int, a@.len() as int);
    let ghost sb = b@.subrange(i as int, b@.len() as int);
    if i == a.len() {
        i < b.len()
    } else if i == b.len() {
        false
    } else {
        assert(sa[0] == a@[i as int] && sb[0] == b@[i as int]);
        a[i] < b[i]
    }
}

/// A record to be sorted: a sort key and the bytes it stands for.
pub type Keyed = (Seq<u8>, Seq<u8>);

/// Inserts `x` after every record whose key is not greater than its own:
/// one step of a stable insertion sort.
pub open spec fn insert_keyed(s: Seq<Keyed>, x: Keyed) -> Seq<Keyed>
    decreases s.len(),
{
    if s.len() == 0 {
        seq![x]
    } else if lex_lt(x.0, s.last().0) {
        insert_keyed(s.drop_last(), x).push(s.last())
    } else {
        s.push(x)
    }
}

/// Stable sort of records by key (the order of `slice::sort_by` on the key).
pub open spec fn sort_keyed(s: Seq<Keyed>) -> Seq<Keyed>
    decreases s.len(),
{
    if s.len() == 0 {
        s
    } else {
        insert_keyed(sort_keyed(s.drop_last()), s.last())
    }
}

/// The record bytes, in order, without the keys.
pub open spec fn keyed_payload(s: Seq<Keyed>) -> Seq<u8>
    decreases s.len(),
{
    if s.len() == 0 {
        Seq::empty()
    } else {
        keyed_payload(s.drop_last()) + s.last().1
    }
}

/// View of executable records.
pub open spec fn keyed_view(v: Seq<(Vec<u8>, Vec<u8>)>) -> Seq<Keyed> {
    v.map_values(|e: (Vec<u8>, Vec<u8>)| (e.0@, e.1@))
}

proof fn lemma_insert_keyed_at(s: Seq<Keyed>, x: Keyed, p: int)
    requires
        0 <= p <= s.len(),
        forall|j: int| p <= j < s.len() ==> lex_lt(x.0, #[trigger] s[j].0),
        p == 0 || !lex_lt(x.0, s[p - 1].0),
    ensures
        insert_keyed(s, x) == s.insert(p, x),
    decreases s.len(),
{
    if s.len() == 0 {
        assert(s.insert(p, x) =~= seq![x]);
    } else if p == s.len() {
        assert(s.insert(p, x) =~= s.push(x));
    } else {
        assert(lex_lt(x.0, s[s.len() - 1].0));
        let t = s.drop_last();
        assert forall|j: int| p <= j < t.len() implies lex_lt(x.0, #[trigger] t[j].0) by {
            assert(t[j] == s[j]);
        }
        lemma_insert_keyed_at(t, x, p);
        assert(t.insert(p, x).push(s.last()) =~= s.insert(p, x));
    }
}

/// Sorts records by key, stably.
pub fn sort_by_key(v: Vec<(Vec<u8>, Vec<u8>)>) -> (r: Vec<(Vec<u8>, Vec<u8>)>)
    ensures
        keyed_view(r@) == sort_keyed(keyed_view(v@)),
{
    let ghost orig = keyed_view(v@);
    let mut input = v;
    let mut out: Vec<(Vec<u8>, Vec<u8>)> = Vec::new();
    let ghost k: int = 0;
    proof {
        assert(orig.take(0) =~= Seq::<Keyed>::empty());
        assert(keyed_view(input@) =~= orig.skip(0));
    }
    while input.len() > 0
        invariant
            0 <= k <= orig.len(),
            keyed_view(input@) == orig.skip(k),
            keyed_view(out@) == sort_keyed(orig.take(k)),
        decreases input@.len(),
    {
        let ghost prev = input@;
        let x = input.remove(0);
        let ghost xv: Keyed = (x.0@, x.1@);
        proof {
            assert(keyed_view(input@) =~= keyed_view(prev).drop_first());
            assert(keyed_view(prev)[0] == xv);
        }
        let mut p: usize = out.len();
        while p > 0 && bytes_lt(&x.0, &out[p - 1].0)
            invariant
                p <= out@.len(),
                forall|j: int| p <= j < out@.len() ==> lex_lt(xv.0, #[trigger] keyed_view(out@)[j].0),
                xv == (x.0@, x.1@),
            decreases p,
        {
            p = p - 1;
        }
        let ghost before = keyed_view(out@);
        proof {
            lemma_insert_keyed_at(before, xv, p as int);
        }
        out.insert(p, x);
        proof {
            assert(keyed_view(out@) =~= before.insert(p as int, xv));
            assert(orig.skip(k)[0] == xv);
            assert(orig.take(k + 1).drop_last() =~= orig.take(k));
            assert(orig.take(k + 1).last() == orig[k]);
            assert(orig.skip(k + 1) =~= orig.skip(k).drop_first());
            k = k + 1;
        }
    }
    proof {
        assert(orig.take(k) =~= orig);
    }
    out
}

/// Concatenates the record bytes, in order.
pub fn join_payload(v: &Vec<(Vec<u8>, Vec<u8>)>, out: &mut Vec<u8>)
    ensures
        final(out)@ == old(out)@ + keyed_payload(keyed_view(v@)),
{
    let ghost start = out@;
    let mut i: usize = 0;
    while i < v.len()
        invariant
            i <= v@.len(),
            out@ == start + keyed_payload(keyed_view(v@).take(i as int)),
        decreases v@.len() - i,
    {
        proof {
            let t = keyed_view(v@).take(i as int + 1);
            assert(t.drop_last() =~= keyed_view(v@).take(i as int));
        }
        push_bytes(out, &v[i].1);
        i = i + 1;
        proof {
            assert(out@ =~= start + keyed_payload(keyed_view(v@).take(i as int)));
        }
    }
    assert(keyed_view(v@).take(v@.len() as int) =~= keyed_view(v@));
}

/// Whether `a` is not after `b` in the order of `lex_lt`.
pub open spec fn lex_le(a: Seq<u8>, b: Seq<u8>) -> bool {
    !lex_lt(b, a)
}

/// Whether records come in key order.
pub open spec fn keyed_sorted(s: Seq<Keyed>) -> bool {
    forall|i: int, j: int| 0 <= i < j < s.len() ==> lex_le(#[trigger] s[i].0, #[trigger] s[j].0)
}

/// Whether, among the records, the key determines the record.
pub open spec fn key_determines(s: Seq<Keyed>) -> bool {
    forall|e: Keyed, f: Keyed| #[trigger] s.contains(e) && #[trigger] s.contains(f) && e.0 == f.0 ==> e == f
}

proof fn lemma_lex_irreflexive(a: Seq<u8>)
    ensures
        !lex_lt(a, a),
    decreases a.len(),
{
    if a.len() > 0 {
        lemma_lex_irreflexive(a.drop_first());
    }
}

proof fn lemma_lex_total(a: Seq<u8>, b: Seq<u8>)
    ensures
        a == b || lex_lt(a, b) || lex_lt(b, a),
    decreases a.len(),
{
    if a.len() == 0 || b.len() == 0 {
        if a.len() == 0 && b.len() == 0 {
            assert(a =~= b);
        }
    } else if a[0] == b[0] {
        lemma_lex_total(a.drop_first(), b.drop_first());
        if a.drop_first() == b.drop_first() {
            assert(a.drop_first().len() == b.drop_first().len());
            assert(a.len() == b.len());
            assert forall|i: int| 0 <= i < a.len() implies a[i] == b[i] by {
                if i > 0 {
                    assert(a[i] == a.drop_first()[i - 1]);
                    assert(b[i] == b.drop_first()[i - 1]);
                }
            }
            assert(a =~= b);
        }
    }
}

proof fn lemma_lex_transitive(a: Seq<u8>, b: Seq<u8>, c: Seq<u8>)
    requires
        lex_lt(a, b),
        lex_lt(b, c),
    ensures
        lex_lt(a, c),
    decreases a.len(),
{
    if a.len() > 0 && b.len() > 0 && c.len() > 0 {
        if a[0] == b[0] && b[0] == c[0] {
            lemma_lex_transitive(a.drop_first(), b.drop_first(), c.drop_first());
        }
    }
}

proof fn lemma_le_transitive(a: Seq<u8>, b: Seq<u8>, c: Seq<u8>)
    requires
        lex_le(a, b),
        lex_le(b, c),
    ensures
        lex_le(a, c),
{
    if lex_lt(c, a) {
        lemma_lex_total(b, c);
        if b == c {
        } else if lex_lt(b, c) {
            lemma_lex_transitive(b, c, a);
        }
    }
}

proof fn lemma_insert_keyed_sorted(s: Seq<Keyed>, x: Keyed)
    requires
        keyed_sorted(s),
    ensures
        keyed_sorted(insert_keyed(s, x)),
        insert_keyed(s, x).to_multiset() == s.to_multiset().insert(x),
    decreases s.len(),
{
    broadcast use vstd::seq_lib::group_to_multiset_ensures;
    if s.len() == 0 {
        assert(seq![x] =~= Seq::<Keyed>::empty().push(x));
    } else {
        let t = s.drop_last();
        let l = s.last();
        assert(s =~= t.push(l));
        assert forall|i: int, j: int| 0 <= i < j < t.len() implies lex_le(#[trigger] t[i].0, #[trigger] t[j].0) by {
            assert(t[i] == s[i] && t[j] == s[j]);
        }
        if lex_lt(x.0, l.0) {
            lemma_insert_keyed_sorted(t, x);
            let r = insert_keyed(t, x);
            assert forall|k: int| 0 <= k < r.len() implies lex_le(#[trigger] r[k].0, l.0) by {
                assert(r.contains(r[k]));
                assert(r.to_multiset().count(r[k]) > 0);
                if r[k] != x {
                    assert(t.to_multiset().count(r[k]) > 0);
                    assert(t.contains(r[k]));
                    let w = choose|w: int| 0 <= w < t.len() && t[w] == r[k];
                    assert(s[w] == r[k]);
                    assert(s[s.len() - 1] == l);
                } else {
                    lemma_lex_total(x.0, l.0);
                    if lex_lt(l.0, x.0) {
                        lemma_lex_transitive(l.0, x.0, l.0);
                        lemma_lex_irreflexive(l.0);
                    }
                }
            }
            let q = r.push(l);
            assert forall|i: int, j: int| 0 <= i < j < q.len() implies lex_le(#[trigger] q[i].0, #[trigger] q[j].0) by {
                if j == q.len() - 1 {
                    assert(q[i] == r[i]);
                } else {
                    assert(q[i] == r[i] && q[j] == r[j]);
                }
            }
            assert(q.to_multiset() =~= s.to_multiset().insert(x));
        } else {
            let q = s.push(x);
            assert forall|i: int, j: int| 0 <= i < j < q.len() implies lex_le(#[trigger] q[i].0, #[trigger] q[j].0) by {
                if j == q.len() - 1 {
                    if i < s.len() - 1 {
                        assert(q[i] == s[i]);
                        assert(s[s.len() - 1] == l);
                        lemma_le_transitive(s[i].0, l.0, x.0);
                    }
                } else {
                    assert(q[i] == s[i] && q[j] == s[j]);
                }
            }
        }
    }
}

/// Sorting orders the records by key and keeps them all.
pub proof fn lemma_sort_keyed(s: Seq<Keyed>)
    ensures
        keyed_sorted(sort_keyed(s)),
        sort_keyed(s).to_multiset() == s.to_multiset(),
    decreases s.len(),
{
    broadcast use vstd::seq_lib::group_to_multiset_ensures;
    if s.len() > 0 {
        lemma_sort_keyed(s.drop_last());
        lemma_insert_keyed_sorted(sort_keyed(s.drop_last()), s.last());
        assert(s =~= s.drop_last().push(s.last()));
    } else {
        assert(s.to_multiset() =~= Seq::<Keyed>::empty().to_multiset());
    }
}

/// Two key-ordered arrangements of the same records, whose keys determine
/// them, are the same.
pub proof fn lemma_sorted_unique(s1: Seq<Keyed>, s2: Seq<Keyed>)
    requires
        keyed_sorted(s1),
        keyed_sorted(s2),
        s1.to_multiset() == s2.to_multiset(),
        key_determines(s1),
    ensures
        s1 == s2,
    decreases s1.len(),
{
    broadcast use vstd::seq_lib::group_to_multiset_ensures;
    if s1.len() == 0 {
        assert(s1.to_multiset().len() == 0);
        assert(s2.to_multiset().len() == 0);
        assert(s2.len() == 0);
        assert(s1 =~= s2);
    } else {
        assert(s1.len() == s1.to_multiset().len());
        assert(s2.len() == s2.to_multiset().len());
        assert(s2.len() == s1.len());
        let x = s1[0];
        let y = s2[0];
        assert(s1.contains(x));
        assert(s2.to_multiset().count(x) > 0);
        assert(s2.contains(x));
        assert(s2.contains(y));
        assert(s1.to_multiset().count(y) > 0);
        assert(s1.contains(y));
        let j = choose|j: int| 0 <= j < s2.len() && s2[j] == x;
        let i = choose|i: int| 0 <= i < s1.len() && s1[i] == y;
        if j > 0 {
            assert(lex_le(s2[0].0, s2[j].0));
        }
        if i > 0 {
            assert(lex_le(s1[0].0, s1[i].0));
        }
        lemma_lex_total(x.0, y.0);
        assert(x.0 == y.0);
        assert(x == y);
        let t1 = s1.drop_first();
        let t2 = s2.drop_first();
        assert(t1 =~= s1.remove(0));
        assert(t2 =~= s2.remove(0));
        assert(t1.to_multiset() == t2.to_multiset());
        assert forall|a: int, b: int| 0 <= a < b < t1.len() implies lex_le(#[trigger] t1[a].0, #[trigger] t1[b].0) by {
            assert(t1[a] == s1[a + 1] && t1[b] == s1[b + 1]);
        }
        assert forall|a: int, b: int| 0 <= a < b < t2.len() implies lex_le(#[trigger] t2[a].0, #[trigger] t2[b].0) by {
            assert(t2[a] == s2[a + 1] && t2[b] == s2[b + 1]);
        }
        assert forall|e: Keyed, f: Keyed| #[trigger] t1.contains(e) && #[trigger] t1.contains(f) && e.0 == f.0 implies e == f by {
            let we = choose|w: int| 0 <= w < t1.len() && t1[w] == e;
            let wf = choose|w: int| 0 <= w < t1.len() && t1[w] == f;
            assert(s1[we + 1] == e && s1[wf + 1] == f);
            assert(s1.contains(e) && s1.contains(f));
        }
        lemma_sorted_unique(t1, t2);
        assert forall|k: int| 0 <= k < s1.len() implies s1[k] == s2[k] by {
            if k > 0 {
                assert(s1[k] == t1[k - 1] && s2[k] == t2[k - 1]);
            }
        }
        assert(s1 =~= s2);
    }
}

/// Records that are the same up to order, and whose keys determine them,
/// sort to the same sequence.
pub proof fn lemma_sort_order_free(s1: Seq<Keyed>, s2: Seq<Keyed>)
    requires
        s1.to_multiset() == s2.to_multiset(),
        key_determines(s1),
    ensures
        sort_keyed(s1) == sort_keyed(s2),
{
    broadcast use vstd::seq_lib::group_to_multiset_ensures;
    lemma_sort_keyed(s1);
    lemma_sort_keyed(s2);
    let a = sort_keyed(s1);
    assert forall|e: Keyed, f: Keyed| #[trigger] a.contains(e) && #[trigger] a.contains(f) && e.0 == f.0 implies e == f by {
        assert(a.to_multiset().count(e) > 0 && a.to_multiset().count(f) > 0);
        assert(s1.contains(e) && s1.contains(f));
    }
    lemma_sorted_unique(a, sort_keyed(s2));
}

} // verus!
