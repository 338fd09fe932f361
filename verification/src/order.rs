//! Lexicographic order of strings (by code point, which is also the byte
//! order of their UTF-8 encodings) and sorted, duplicate-free string lists.
use vstd::prelude::*;
use crate::text::{chars_of, strings_view, str_eq};

verus! {

/// `a` sorts strictly before `b`.
pub open spec fn seq_lt(a: Seq<char>, b: Seq<char>) -> bool
    decreases a.len(),
{
    if a.len() == 0 {
        b.len() > 0
    } else if b.len() == 0 {
        false
    } else if a[0] != b[0] {
        (a[0] as u32) < (b[0] as u32)
    } else {
        seq_lt(a.drop_first(), b.drop_first())
    }
}

pub proof fn lemma_lt_irreflexive(a: Seq<char>)
    ensures
        !seq_lt(a, a),
    decreases a.len(),
{
    if a.len() > 0 {
        lemma_lt_irreflexive(a.drop_first());
    }
}

pub proof fn lemma_lt_transitive(a: Seq<char>, b: Seq<char>, c: Seq<char>)
    requires
        seq_lt(a, b),
        seq_lt(b, c),
    ensures
        seq_lt(a, c),
    decreases a.len(),
{
    if a.len() > 0 && b.len() > 0 && c.len() > 0 && a[0] == b[0] && b[0] == c[0] {
        lemma_lt_transitive(a.drop_first(), b.drop_first(), c.drop_first());
    }
}

pub proof fn lemma_lt_total(a: Seq<char>, b: Seq<char>)
    requires
        a != b,
    ensures
        seq_lt(a, b) || seq_lt(b, a),
    decreases a.len(),
{
    if a.len() == 0 {
        if b.len() == 0 {
            assert(a =~= b);
        }
    } else if b.len() == 0 {
    } else if a[0] != b[0] {
        vstd::utf8::char_u32_cast(a[0], a[0] as u32);
        vstd::utf8::char_u32_cast(b[0], b[0] as u32);
        assert((a[0] as u32) != (b[0] as u32));
    } else {
        if a.drop_first() == b.drop_first() {
            assert(a =~= seq![a[0]] + a.drop_first());
            assert(b =~= seq![b[0]] + b.drop_first());
        }
        lemma_lt_total(a.drop_first(), b.drop_first());
    }
}

pub proof fn lemma_lt_asymmetric(a: Seq<char>, b: Seq<char>)
    requires
        seq_lt(a, b),
    ensures
        !seq_lt(b, a),
{
    if seq_lt(b, a) {
        lemma_lt_transitive(a, b, a);
        lemma_lt_irreflexive(a);
    }
}

/// Whether `a` sorts strictly before `b`.
pub fn str_lt(a: &str, b: &str) -> (r: bool)
    ensures
        r == seq_lt(a@, b@),
{
    let va = chars_of(a);
    let vb = chars_of(b);
    let mut k: usize = 0;
    assert(va@.skip(0) =~= va@);
    assert(vb@.skip(0) =~= vb@);
    while k < va.len() && k < vb.len() && va[k] == vb[k]
        invariant
            k <= va.len(),
            k <= vb.len(),
            va@ == a@,
            vb@ == b@,
            seq_lt(a@, b@) == seq_lt(va@.skip(k as int), vb@.skip(k as int)),
        decreases va.len() - k,
    {
        assert(va@.skip(k as int).drop_first() =~= va@.skip(k + 1));
        assert(vb@.skip(k as int).drop_first() =~= vb@.skip(k + 1));
        k = k + 1;
    }
    if k == va.len() {
        k < vb.len()
    } else if k == vb.len() {
        false
    } else {
        (va[k] as u32) < (vb[k] as u32)
    }
}

/// Strictly increasing, so also free of duplicates.
pub open spec fn strictly_sorted(s: Seq<Seq<char>>) -> bool {
    forall|i: int, j: int| 0 <= i < j < s.len() ==> seq_lt(#[trigger] s[i], #[trigger] s[j])
}

/// Inserts `key` at its place in the sorted list unless it is there already.
pub fn insert_sorted(v: &mut Vec<String>, key: String)
    requires
        strictly_sorted(strings_view(old(v)@)),
    ensures
        strictly_sorted(strings_view(final(v)@)),
        forall|t: Seq<char>| #[trigger] strings_view(final(v)@).contains(t) <==> (strings_view(old(v)@).contains(t) || t == key@),
{
    let ghost s = strings_view(v@);
    let mut p: usize = 0;
    while p < v.len() && str_lt(v[p].as_str(), key.as_str())
        invariant
            p <= v.len(),
            s == strings_view(v@),
            forall|j: int| 0 <= j < p ==> seq_lt(#[trigger] s[j], key@),
        decreases v.len() - p,
    {
        p = p + 1;
    }
    // everything from p on sorts at or after key
    assert forall|j: int| p <= j < s.len() implies !seq_lt(#[trigger] s[j], key@) by {
        if seq_lt(s[j], key@) {
            if j > p {
                assert(seq_lt(s[p as int], s[j]));
                lemma_lt_transitive(s[p as int], s[j], key@);
            }
        }
    }
    if p < v.len() && str_eq(v[p].as_str(), key.as_str()) {
        assert(s[p as int] == key@);
        assert forall|t: Seq<char>| #[trigger] s.contains(t) <==> (s.contains(t) || t == key@) by {
            if t == key@ {
                assert(s[p as int] == t);
            }
        }
        return;
    }
    let ghost kv = key@;
    v.insert(p, key);
    proof {
        assert(!s.contains(kv)) by {
            if s.contains(kv) {
                let j = choose|j: int| 0 <= j < s.len() && s[j] == kv;
                if j < p {
                    lemma_lt_irreflexive(kv);
                } else if j > p {
                    assert(seq_lt(s[p as int], s[j]));
                }
            }
        }
        lemma_sorted_insert(s, p as int, kv);
    }
    assert(strings_view(v@) =~= s.insert(p as int, kv));
}

/// Inserting `k` where the smaller elements end keeps a sorted list sorted,
/// and adds exactly `k`.
pub proof fn lemma_sorted_insert(s: Seq<Seq<char>>, p: int, k: Seq<char>)
    requires
        strictly_sorted(s),
        0 <= p <= s.len(),
        forall|j: int| 0 <= j < p ==> seq_lt(#[trigger] s[j], k),
        forall|j: int| p <= j < s.len() ==> !seq_lt(#[trigger] s[j], k),
        !s.contains(k),
    ensures
        strictly_sorted(s.insert(p, k)),
        forall|t: Seq<char>| #[trigger] s.insert(p, k).contains(t) <==> (s.contains(t) || t == k),
{
    let s2 = s.insert(p, k);
    if p < s.len() {
        assert(s[p] != k);
        lemma_lt_total(s[p], k);
    }
    assert forall|i: int, j: int| 0 <= i < j < s2.len() implies seq_lt(#[trigger] s2[i], #[trigger] s2[j]) by {
        if j < p {
            assert(s2[i] == s[i] && s2[j] == s[j]);
        } else if j == p {
            assert(s2[i] == s[i]);
        } else if i == p {
            assert(s2[j] == s[j - 1]);
            if j - 1 > p {
                assert(seq_lt(s[p], s[j - 1]));
                lemma_lt_transitive(k, s[p], s[j - 1]);
            }
        } else if i < p {
            assert(s2[i] == s[i] && s2[j] == s[j - 1]);
        } else {
            assert(s2[i] == s[i - 1] && s2[j] == s[j - 1]);
        }
    }
    assert forall|t: Seq<char>| #[trigger] s2.contains(t) <==> (s.contains(t) || t == k) by {
        if s2.contains(t) {
            let i = choose|i: int| 0 <= i < s2.len() && s2[i] == t;
            if i < p {
                assert(s[i] == t);
            } else if i > p {
                assert(s[i - 1] == t);
            }
        }
        if s.contains(t) {
            let i = choose|i: int| 0 <= i < s.len() && s[i] == t;
            if i < p {
                assert(s2[i] == t);
            } else {
                assert(s2[i + 1] == t);
            }
        }
        if t == k {
            assert(s2[p] == t);
        }
    }
}

/// Two strictly sorted lists with the same elements are the same list.
pub proof fn lemma_sorted_unique(a: Seq<Seq<char>>, b: Seq<Seq<char>>)
    requires
        strictly_sorted(a),
        strictly_sorted(b),
        forall|t: Seq<char>| a.contains(t) <==> b.contains(t),
    ensures
        a == b,
    decreases a.len(),
{
    if a.len() == 0 {
        if b.len() > 0 {
            assert(b.contains(b[0]));
        }
        assert(a =~= b);
    } else {
        assert(a.contains(a[0]));
        assert(b.len() > 0);
        assert(b.contains(b[0]));
        let i = choose|i: int| 0 <= i < b.len() && b[i] == a[0];
        let j = choose|j: int| 0 <= j < a.len() && a[j] == b[0];
        if a[0] != b[0] {
            assert(i > 0 && j > 0);
            assert(seq_lt(a[0], a[j]));
            assert(seq_lt(b[0], b[i]));
            lemma_lt_asymmetric(a[0], b[0]);
        }
        let a1 = a.drop_first();
        let b1 = b.drop_first();
        assert forall|t: Seq<char>| a1.contains(t) <==> b1.contains(t) by {
            if a1.contains(t) {
                let k = choose|k: int| 0 <= k < a1.len() && a1[k] == t;
                assert(a[k + 1] == t);
                assert(seq_lt(a[0], a[k + 1]));
                assert(a.contains(t));
                let m = choose|m: int| 0 <= m < b.len() && b[m] == t;
                if m == 0 {
                    lemma_lt_irreflexive(t);
                }
                assert(b1[m - 1] == t);
            }
            if b1.contains(t) {
                let k = choose|k: int| 0 <= k < b1.len() && b1[k] == t;
                assert(b[k + 1] == t);
                assert(seq_lt(b[0], b[k + 1]));
                assert(b.contains(t));
                let m = choose|m: int| 0 <= m < a.len() && a[m] == t;
                if m == 0 {
                    lemma_lt_irreflexive(t);
                }
                assert(a1[m - 1] == t);
            }
        }
        lemma_sorted_unique(a1, b1);
        assert(a =~= seq![a[0]] + a1);
        assert(b =~= seq![b[0]] + b1);
    }
}

} // verus!
