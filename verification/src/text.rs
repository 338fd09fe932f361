//! Character-level text model: whitespace, trimming, UTF-8 byte lengths,
//! substring search and string building, all over `Seq<char>`.
use vstd::prelude::*;
use vstd::utf8::*;

verus! {

broadcast use vstd::slice::group_slice_axioms;

/// Unicode `White_Space`, the class that `char::is_whitespace` (and so `str::trim`) uses.
pub open spec fn is_space(c: char) -> bool {
    ||| ('\t' <= c && c <= '\r')
    ||| c == ' '
    ||| c == '\u{85}'
    ||| c == '\u{a0}'
    ||| c == '\u{1680}'
    ||| ('\u{2000}' <= c && c <= '\u{200a}')
    ||| c == '\u{2028}'
    ||| c == '\u{2029}'
    ||| c == '\u{202f}'
    ||| c == '\u{205f}'
    ||| c == '\u{3000}'
}

/// ASCII whitespace as `u8::is_ascii_whitespace` defines it (no vertical tab).
pub open spec fn is_ascii_space(c: char) -> bool {
    c == ' ' || c == '\t' || c == '\n' || c == '\x0C' || c == '\r'
}

pub open spec fn trim_start(s: Seq<char>) -> Seq<char>
    decreases s.len(),
{
    if s.len() > 0 && is_space(s[0]) {
        trim_start(s.drop_first())
    } else {
        s
    }
}

pub open spec fn trim_end(s: Seq<char>) -> Seq<char>
    decreases s.len(),
{
    if s.len() > 0 && is_space(s.last()) {
        trim_end(s.drop_last())
    } else {
        s
    }
}

pub open spec fn trim(s: Seq<char>) -> Seq<char> {
    trim_end(trim_start(s))
}

pub open spec fn starts_with_char(s: Seq<char>, c: char) -> bool {
    s.len() > 0 && s[0] == c
}

pub open spec fn ends_with_char(s: Seq<char>, c: char) -> bool {
    s.len() > 0 && s.last() == c
}

pub open spec fn is_prefix(p: Seq<char>, s: Seq<char>) -> bool {
    p.len() <= s.len() && s.subrange(0, p.len() as int) == p
}

pub open spec fn is_suffix(p: Seq<char>, s: Seq<char>) -> bool {
    p.len() <= s.len() && s.subrange(s.len() - p.len(), s.len() as int) == p
}

/// Number of bytes in the UTF-8 encoding of `c`.
pub open spec fn char_byte_len(c: char) -> nat {
    encode_scalar(c as u32).len()
}

/// Number of bytes in the UTF-8 encoding of `s` (what `str::len` returns).
pub open spec fn byte_len(s: Seq<char>) -> nat {
    encode_utf8(s).len()
}

pub proof fn lemma_byte_len_concat(a: Seq<char>, b: Seq<char>)
    ensures
        byte_len(a + b) == byte_len(a) + byte_len(b),
    decreases a.len(),
{
    if a.len() == 0 {
        assert(a + b =~= b);
    } else {
        assert((a + b).drop_first() =~= a.drop_first() + b);
        assert((a + b)[0] == a[0]);
        lemma_byte_len_concat(a.drop_first(), b);
    }
}

pub proof fn lemma_byte_len_push(s: Seq<char>, c: char)
    ensures
        byte_len(s.push(c)) == byte_len(s) + char_byte_len(c),
{
    lemma_byte_len_concat(s, seq![c]);
    assert(s + seq![c] =~= s.push(c));
    assert(seq![c].drop_first() =~= Seq::<char>::empty());
    assert(encode_utf8(Seq::<char>::empty()) =~= Seq::<u8>::empty());
}

pub proof fn lemma_byte_len_take(s: Seq<char>, i: int, j: int)
    requires
        0 <= i <= j <= s.len(),
    ensures
        byte_len(s.take(i)) <= byte_len(s.take(j)) <= byte_len(s),
{
    lemma_byte_len_concat(s.take(i), s.subrange(i, j));
    assert(s.take(i) + s.subrange(i, j) =~= s.take(j));
    lemma_byte_len_concat(s.take(j), s.skip(j));
    assert(s.take(j) + s.skip(j) =~= s);
}

/// The byte length of a string slice always fits in `usize`.
pub fn str_byte_len(s: &str) -> (n: usize)
    ensures
        n == byte_len(s@),
{
    let b = s.as_bytes();
    b.len()
}

pub fn char_width(c: char) -> (w: usize)
    ensures
        w == char_byte_len(c),
        1 <= w <= 4,
{
    proof {
        char_is_scalar(c);
    }
    let u = c as u32;
    if u < 0x80 {
        1
    } else if u < 0x800 {
        2
    } else if u < 0x10000 {
        3
    } else {
        4
    }
}

/// Byte offset of the `i`-th character of `v`.
pub fn byte_offset(v: &Vec<char>, i: usize, total: usize) -> (r: usize)
    requires
        i <= v.len(),
        total == byte_len(v@),
    ensures
        r == byte_len(v@.take(i as int)),
{
    let mut acc: usize = 0;
    let mut k: usize = 0;
    while k < i
        invariant
            k <= i <= v.len(),
            total == byte_len(v@),
            acc == byte_len(v@.take(k as int)),
        decreases i - k,
    {
        proof {
            lemma_byte_len_push(v@.take(k as int), v@[k as int]);
            assert(v@.take(k as int).push(v@[k as int]) =~= v@.take(k + 1));
            lemma_byte_len_take(v@, k + 1, v@.len() as int);
            assert(v@.take(v@.len() as int) =~= v@);
        }
        let w = char_width(v[k]);
        acc = acc + w;
        k = k + 1;
    }
    acc
}

pub fn is_space_char(c: char) -> (r: bool)
    ensures
        r == is_space(c),
{
    ('\t' <= c && c <= '\r') || c == ' ' || c == '\u{85}' || c == '\u{a0}' || c == '\u{1680}' || (
    '\u{2000}' <= c && c <= '\u{200a}') || c == '\u{2028}' || c == '\u{2029}' || c == '\u{202f}'
        || c == '\u{205f}' || c == '\u{3000}'
}

pub fn is_ascii_space_char(c: char) -> (r: bool)
    ensures
        r == is_ascii_space(c),
{
    c == ' ' || c == '\t' || c == '\n' || c == '\x0C' || c == '\r'
}

/// The characters of `s`.
pub fn chars_of(s: &str) -> (v: Vec<char>)
    ensures
        v@ == s@,
{
    let mut v: Vec<char> = Vec::new();
    for c in it: s.chars()
        invariant
            v@ == it.seq().take(it.index() as int),
            it.seq() == s@,
    {
        v.push(c);
    }
    v
}

/// `String::push`: appends one character, which is what its documentation says.
#[verifier::external_body]
fn string_push(s: &mut String, c: char)
    ensures
        final(s)@ == old(s)@.push(c),
{
    s.push(c);
}

/// A `String` holding `v[lo..hi]`.
pub fn string_from_range(v: &Vec<char>, lo: usize, hi: usize) -> (r: String)
    requires
        lo <= hi <= v.len(),
    ensures
        r@ == v@.subrange(lo as int, hi as int),
{
    let mut r = String::new();
    let mut k = lo;
    while k < hi
        invariant
            lo <= k <= hi <= v.len(),
            r@ == v@.subrange(lo as int, k as int),
        decreases hi - k,
    {
        string_push(&mut r, v[k]);
        assert(v@.subrange(lo as int, k + 1) =~= v@.subrange(lo as int, k as int).push(v@[k as int]));
        k = k + 1;
    }
    r
}

pub fn string_from_chars(v: &Vec<char>) -> (r: String)
    ensures
        r@ == v@,
{
    let r = string_from_range(v, 0, v.len());
    assert(v@.subrange(0, v@.len() as int) =~= v@);
    r
}

/// An owned copy of `s`.
pub fn string_of(s: &str) -> (r: String)
    ensures
        r@ == s@,
{
    let v = chars_of(s);
    string_from_chars(&v)
}

/// `a` followed by `b`.
pub fn concat(a: &str, b: &str) -> (r: String)
    ensures
        r@ == a@ + b@,
{
    let mut r = string_of(a);
    let v = chars_of(b);
    let mut k: usize = 0;
    while k < v.len()
        invariant
            k <= v.len(),
            v@ == b@,
            r@ == a@ + b@.take(k as int),
        decreases v.len() - k,
    {
        string_push(&mut r, v[k]);
        assert(b@.take(k + 1) =~= b@.take(k as int).push(b@[k as int]));
        assert(a@ + b@.take(k + 1) =~= (a@ + b@.take(k as int)).push(b@[k as int]));
        k = k + 1;
    }
    assert(b@.take(b@.len() as int) =~= b@);
    r
}

/// `a`, `b` and `c` in a row.
pub fn concat3(a: &str, b: &str, c: &str) -> (r: String)
    ensures
        r@ == a@ + b@ + c@,
{
    let ab = concat(a, b);
    concat(ab.as_str(), c)
}

pub fn str_eq(a: &str, b: &str) -> (r: bool)
    ensures
        r == (a@ == b@),
{
    let va = chars_of(a);
    let vb = chars_of(b);
    if va.len() != vb.len() {
        return false;
    }
    let mut k: usize = 0;
    while k < va.len()
        invariant
            k <= va.len(),
            va.len() == vb.len(),
            va@ == a@,
            vb@ == b@,
            forall|j: int| 0 <= j < k ==> va@[j] == vb@[j],
        decreases va.len() - k,
    {
        if va[k] != vb[k] {
            return false;
        }
        k = k + 1;
    }
    assert(a@ =~= b@);
    true
}

/// Index of the first character at or after `lo` that is not whitespace (or `hi`).
pub fn skip_spaces(v: &Vec<char>, lo: usize, hi: usize) -> (k: usize)
    requires
        lo <= hi <= v.len(),
    ensures
        lo <= k <= hi,
        trim_start(v@.subrange(lo as int, hi as int)) == v@.subrange(k as int, hi as int),
{
    let mut k = lo;
    while k < hi && is_space_char(v[k])
        invariant
            lo <= k <= hi <= v.len(),
            trim_start(v@.subrange(lo as int, hi as int)) == trim_start(
                v@.subrange(k as int, hi as int),
            ),
        decreases hi - k,
    {
        assert(v@.subrange(k as int, hi as int).drop_first() =~= v@.subrange(k + 1, hi as int));
        k = k + 1;
    }
    k
}

/// End of `v[lo..hi]` once trailing whitespace is dropped.
pub fn skip_spaces_back(v: &Vec<char>, lo: usize, hi: usize) -> (k: usize)
    requires
        lo <= hi <= v.len(),
    ensures
        lo <= k <= hi,
        trim_end(v@.subrange(lo as int, hi as int)) == v@.subrange(lo as int, k as int),
{
    let mut k = hi;
    while k > lo && is_space_char(v[k - 1])
        invariant
            lo <= k <= hi <= v.len(),
            trim_end(v@.subrange(lo as int, hi as int)) == trim_end(
                v@.subrange(lo as int, k as int),
            ),
        decreases k - lo,
    {
        assert(v@.subrange(lo as int, k as int).drop_last() =~= v@.subrange(lo as int, k - 1));
        k = k - 1;
    }
    k
}

/// Bounds of `trim(v[lo..hi])` inside `v`.
pub fn trim_bounds(v: &Vec<char>, lo: usize, hi: usize) -> (r: (usize, usize))
    requires
        lo <= hi <= v.len(),
    ensures
        lo <= r.0 <= r.1 <= hi,
        trim(v@.subrange(lo as int, hi as int)) == v@.subrange(r.0 as int, r.1 as int),
{
    let a = skip_spaces(v, lo, hi);
    let b = skip_spaces_back(v, a, hi);
    (a, b)
}

/// `str::trim`.
pub fn trim_str(s: &str) -> (r: &str)
    ensures
        r@ == trim(s@),
{
    let v = chars_of(s);
    let (a, b) = trim_bounds(&v, 0, v.len());
    assert(v@.subrange(0, v@.len() as int) =~= v@);
    s.substring_char(a, b)
}

pub fn starts_with_ch(s: &str, c: char) -> (r: bool)
    ensures
        r == starts_with_char(s@, c),
{
    let v = chars_of(s);
    v.len() > 0 && v[0] == c
}

/// Whether `c` occurs in `s`.
pub fn contains_char(s: &str, c: char) -> (r: bool)
    ensures
        r == s@.contains(c),
{
    let v = chars_of(s);
    let mut k: usize = 0;
    while k < v.len()
        invariant
            k <= v.len(),
            v@ == s@,
            forall|j: int| 0 <= j < k ==> v@[j] != c,
        decreases v.len() - k,
    {
        if v[k] == c {
            assert(s@[k as int] == c);
            return true;
        }
        k = k + 1;
    }
    false
}

/// `p` occurs in `h` at index `i`.
pub open spec fn occurs_at(h: Seq<char>, p: Seq<char>, i: int) -> bool {
    0 <= i && i + p.len() <= h.len() && h.subrange(i, i + p.len()) == p
}

/// First index at or after `i` where `p` occurs in `h`.
pub open spec fn find_from(h: Seq<char>, p: Seq<char>, i: int) -> Option<int>
    decreases h.len() + 1 - i,
{
    if i < 0 || i + p.len() > h.len() {
        None
    } else if occurs_at(h, p, i) {
        Some(i)
    } else {
        find_from(h, p, i + 1)
    }
}

/// `str::find` with a string pattern, as a character index.
pub open spec fn find_first(h: Seq<char>, p: Seq<char>) -> Option<int> {
    find_from(h, p, 0)
}

pub proof fn lemma_find_from_some(h: Seq<char>, p: Seq<char>, i: int)
    ensures
        find_from(h, p, i) matches Some(k) ==> occurs_at(h, p, k) && i <= k,
    decreases h.len() + 1 - i,
{
    if !(i < 0 || i + p.len() > h.len()) && !occurs_at(h, p, i) {
        lemma_find_from_some(h, p, i + 1);
    }
}

/// First (character) index where `p` occurs in `h`.
pub fn find_sub(h: &Vec<char>, p: &Vec<char>) -> (r: Option<usize>)
    ensures
        r matches Some(i) ==> find_first(h@, p@) == Some(i as int),
        r is None ==> find_first(h@, p@) is None,
{
    if p.len() > h.len() {
        return None;
    }
    let last = h.len() - p.len();
    let mut i: usize = 0;
    loop
        invariant
            last == h.len() - p.len(),
            p.len() <= h.len(),
            i <= last,
            find_first(h@, p@) == find_from(h@, p@, i as int),
        decreases last - i,
    {
        let mut j: usize = 0;
        let mut same = true;
        while j < p.len()
            invariant
                i <= last,
                last == h.len() - p.len(),
                j <= p.len(),
                same ==> forall|k: int| 0 <= k < j ==> h@[i + k] == p@[k],
                !same ==> !occurs_at(h@, p@, i as int),
            decreases p.len() - j,
        {
            if h[i + j] != p[j] {
                same = false;
                assert(h@.subrange(i as int, i + p@.len())[j as int] != p@[j as int]);
            }
            j = j + 1;
        }
        if same {
            assert(h@.subrange(i as int, i + p@.len()) =~= p@);
            return Some(i);
        }
        if i == last {
            assert(find_from(h@, p@, i + 1) is None);
            return None;
        }
        i = i + 1;
    }
}

/// Joins `parts` with `sep` between them.
pub open spec fn join_seq(parts: Seq<Seq<char>>, sep: Seq<char>) -> Seq<char>
    decreases parts.len(),
{
    if parts.len() == 0 {
        Seq::empty()
    } else if parts.len() == 1 {
        parts[0]
    } else {
        join_seq(parts.drop_last(), sep) + sep + parts.last()
    }
}

pub open spec fn strings_view(v: Seq<String>) -> Seq<Seq<char>> {
    v.map_values(|s: String| s@)
}

/// `[String]::join`.
pub fn join(parts: &Vec<String>, sep: &str) -> (r: String)
    ensures
        r@ == join_seq(strings_view(parts@), sep@),
{
    let mut r = String::new();
    let mut k: usize = 0;
    while k < parts.len()
        invariant
            k <= parts.len(),
            r@ == join_seq(strings_view(parts@).take(k as int), sep@),
        decreases parts.len() - k,
    {
        let ghost before = strings_view(parts@).take(k as int);
        assert(strings_view(parts@).take(k + 1).drop_last() =~= before);
        if k == 0 {
            r = string_of(parts[k].as_str());
            assert(strings_view(parts@).take(1)[0] == parts@[0]@);
        } else {
            let t = concat3(r.as_str(), sep, parts[k].as_str());
            r = t;
        }
        k = k + 1;
    }
    assert(strings_view(parts@).take(parts@.len() as int) =~= strings_view(parts@));
    r
}

pub open spec fn is_digit(c: char) -> bool {
    '0' <= c && c <= '9'
}

pub open spec fn all_digits(s: Seq<char>) -> bool {
    forall|i: int| 0 <= i < s.len() ==> is_digit(#[trigger] s[i])
}

/// Decimal value of a digit string.
pub open spec fn digits_value(s: Seq<char>) -> nat
    decreases s.len(),
{
    if s.len() == 0 {
        0
    } else {
        digits_value(s.drop_last()) * 10 + ((s.last() as u32) - ('0' as u32)) as nat
    }
}

/// `str::parse::<usize>`: an optional `+`, then one or more ASCII digits whose value fits.
pub open spec fn parse_usize_spec(s: Seq<char>) -> Option<usize> {
    let d = if starts_with_char(s, '+') {
        s.drop_first()
    } else {
        s
    };
    if d.len() > 0 && all_digits(d) && digits_value(d) <= usize::MAX {
        Some(digits_value(d) as usize)
    } else {
        None
    }
}

pub proof fn lemma_digits_value_mono(s: Seq<char>, k: int)
    requires
        0 <= k <= s.len(),
        all_digits(s),
    ensures
        digits_value(s.take(k)) <= digits_value(s),
    decreases s.len() - k,
{
    if k < s.len() {
        lemma_digits_value_mono(s, k + 1);
        assert(s.take(k + 1).drop_last() =~= s.take(k));
        assert(is_digit(s[k]));
    } else {
        assert(s.take(k) =~= s);
    }
}

/// `str::parse::<usize>`.
pub fn parse_usize(s: &str) -> (r: Option<usize>)
    ensures
        r == parse_usize_spec(s@),
{
    let v = chars_of(s);
    let start: usize = if v.len() > 0 && v[0] == '+' {
        1
    } else {
        0
    };
    let ghost d = if starts_with_char(s@, '+') {
        s@.drop_first()
    } else {
        s@
    };
    assert(d =~= v@.subrange(start as int, v@.len() as int));
    if start >= v.len() {
        return None;
    }
    let mut k = start;
    let mut acc: usize = 0;
    while k < v.len()
        invariant
            start <= k <= v.len(),
            v@ == s@,
            d == v@.subrange(start as int, v@.len() as int),
            d == (if starts_with_char(s@, '+') { s@.drop_first() } else { s@ }),
            d.len() > 0,
            all_digits(d.take(k - start)),
            acc == digits_value(d.take(k - start)),
        decreases v.len() - k,
    {
        let c = v[k];
        assert(d.take(k + 1 - start).drop_last() =~= d.take(k - start));
        assert(d.take(k + 1 - start).last() == c);
        if !('0' <= c && c <= '9') {
            assert(d[k - start] == c);
            assert(!is_digit(d[k - start]));
            return None;
        }
        let dv = (c as u32 - '0' as u32) as usize;
        if acc > (usize::MAX - dv) / 10 {
            proof {
                assert(acc * 10 + dv > usize::MAX) by (nonlinear_arith)
                    requires
                        acc > (usize::MAX - dv) / 10,
                        dv <= 9,
                ;
                assert(all_digits(d.take(k + 1 - start)));
                assert(digits_value(d.take(k + 1 - start)) == acc * 10 + dv);
                if all_digits(d) {
                    lemma_digits_value_mono(d, k + 1 - start);
                }
            }
            return None;
        }
        proof {
            assert(acc * 10 + dv <= usize::MAX) by (nonlinear_arith)
                requires
                    acc <= (usize::MAX - dv) / 10,
                    dv <= 9,
            ;
        }
        acc = acc * 10 + dv;
        k = k + 1;
    }
    assert(d.take(v.len() - start) =~= d);
    Some(acc)
}

} // verus!

verus! {

/// No string occurs twice.
pub open spec fn no_dups(s: Seq<Seq<char>>) -> bool {
    forall|i: int, j: int| 0 <= i < j < s.len() ==> s[i] != s[j]
}

/// Whether `v` holds a string equal to `s`.
pub fn contains_str(v: &Vec<String>, s: &str) -> (r: bool)
    ensures
        r == strings_view(v@).contains(s@),
{
    let mut k: usize = 0;
    while k < v.len()
        invariant
            k <= v.len(),
            forall|j: int| 0 <= j < k ==> strings_view(v@)[j] != s@,
        decreases v.len() - k,
    {
        if str_eq(v[k].as_str(), s) {
            assert(strings_view(v@)[k as int] == s@);
            return true;
        }
        k = k + 1;
    }
    false
}

/// Adds `s` unless it is already there.
pub fn insert_str(v: &mut Vec<String>, s: String)
    requires
        no_dups(strings_view(old(v)@)),
    ensures
        no_dups(strings_view(final(v)@)),
        forall|t: Seq<char>| #[trigger] strings_view(final(v)@).contains(t) <==> (strings_view(old(v)@).contains(t) || t == s@),
{
    if !contains_str(v, s.as_str()) {
        let ghost before = strings_view(v@);
        let ghost sv = s@;
        v.push(s);
        assert(strings_view(v@) =~= before.push(sv));
        assert forall|t: Seq<char>| #[trigger] strings_view(v@).contains(t) <==> (before.contains(t) || t == sv) by {
            if t == sv {
                assert(strings_view(v@)[before.len() as int] == sv);
            }
            if strings_view(v@).contains(t) && t != sv {
                let i = choose|i: int| 0 <= i < strings_view(v@).len() && strings_view(v@)[i] == t;
                assert(before[i] == t);
            }
            if before.contains(t) {
                let i = choose|i: int| 0 <= i < before.len() && before[i] == t;
                assert(strings_view(v@)[i] == t);
            }
        }
    }
}

} // verus!

verus! {

/// `str::starts_with` with a string pattern.
pub fn starts_with_str(s: &str, p: &str) -> (r: bool)
    ensures
        r == is_prefix(p@, s@),
{
    let v = chars_of(s);
    let w = chars_of(p);
    if w.len() > v.len() {
        return false;
    }
    let mut k: usize = 0;
    while k < w.len()
        invariant
            k <= w.len() <= v.len(),
            v@ == s@,
            w@ == p@,
            forall|j: int| 0 <= j < k ==> v@[j] == w@[j],
        decreases w.len() - k,
    {
        if v[k] != w[k] {
            assert(s@.subrange(0, p@.len() as int)[k as int] != p@[k as int]);
            return false;
        }
        k = k + 1;
    }
    assert(s@.subrange(0, p@.len() as int) =~= p@);
    true
}

/// `str::ends_with` with a string pattern.
pub fn ends_with_str(s: &str, p: &str) -> (r: bool)
    ensures
        r == is_suffix(p@, s@),
{
    let v = chars_of(s);
    let w = chars_of(p);
    if w.len() > v.len() {
        return false;
    }
    let off = v.len() - w.len();
    let mut k: usize = 0;
    while k < w.len()
        invariant
            k <= w.len() <= v.len(),
            off == v.len() - w.len(),
            v@ == s@,
            w@ == p@,
            forall|j: int| 0 <= j < k ==> v@[off + j] == w@[j],
        decreases w.len() - k,
    {
        if v[off + k] != w[k] {
            assert(s@.subrange(s@.len() - p@.len(), s@.len() as int)[k as int] != p@[k as int]);
            return false;
        }
        k = k + 1;
    }
    assert(s@.subrange(s@.len() - p@.len(), s@.len() as int) =~= p@);
    true
}

pub proof fn lemma_trim_end_prefix(s: Seq<char>)
    ensures
        trim_end(s).len() <= s.len(),
        trim_end(s) == s.take(trim_end(s).len() as int),
    decreases s.len(),
{
    if s.len() > 0 && is_space(s.last()) {
        lemma_trim_end_prefix(s.drop_last());
        assert(s.drop_last().take(trim_end(s).len() as int) =~= s.take(trim_end(s).len() as int));
    } else {
        assert(s.take(s.len() as int) =~= s);
    }
}

} // verus!

verus! {

pub proof fn lemma_trim_start_suffix(s: Seq<char>)
    ensures
        trim_start(s).len() <= s.len(),
        trim_start(s) == s.skip(s.len() - trim_start(s).len()),
    decreases s.len(),
{
    if s.len() > 0 && is_space(s[0]) {
        lemma_trim_start_suffix(s.drop_first());
        assert(s.drop_first().skip(s.drop_first().len() - trim_start(s).len()) =~= s.skip(s.len() - trim_start(s).len()));
    } else {
        assert(s.skip(0) =~= s);
    }
}

pub proof fn lemma_byte_len_subrange(s: Seq<char>, i: int, j: int)
    requires
        0 <= i <= j <= s.len(),
    ensures
        byte_len(s.subrange(i, j)) <= byte_len(s),
{
    lemma_byte_len_concat(s.take(i), s.subrange(i, j));
    assert(s.take(i) + s.subrange(i, j) =~= s.take(j));
    lemma_byte_len_take(s, j, s.len() as int);
    assert(s.take(s.len() as int) =~= s);
}

pub proof fn lemma_byte_len_take_strict(s: Seq<char>, i: int, j: int)
    requires
        0 <= i < j <= s.len(),
    ensures
        byte_len(s.take(i)) < byte_len(s.take(j)),
{
    lemma_byte_len_push(s.take(i), s[i]);
    assert(s.take(i).push(s[i]) =~= s.take(i + 1));
    lemma_byte_len_take(s, i + 1, j);
    assert(s.take(j).take(i + 1) =~= s.take(i + 1));
    lemma_byte_len_take(s.take(j), i + 1, j);
    assert(s.take(j).take(j) =~= s.take(j));
    let c = s[i];
    vstd::utf8::char_is_scalar(c);
    assert(encode_scalar(c as u32).len() >= 1);
}

/// `b` is the byte offset of a character boundary of `s`.
pub open spec fn is_boundary(s: Seq<char>, b: int) -> bool {
    exists|i: int| 0 <= i <= s.len() && byte_len(s.take(i)) == b
}

/// The characters before byte offset `b`.
pub open spec fn prefix_before_byte(s: Seq<char>, b: int) -> Seq<char> {
    s.take(choose|i: int| 0 <= i <= s.len() && byte_len(s.take(i)) == b)
}

/// The character index at byte offset `b`, when `b` is a boundary.
pub fn char_index_at_byte(v: &Vec<char>, b: usize, total: usize) -> (r: Option<usize>)
    requires
        total == byte_len(v@),
    ensures
        r is Some <==> is_boundary(v@, b as int),
        r matches Some(i) ==> i <= v.len() && byte_len(v@.take(i as int)) == b && prefix_before_byte(v@, b as int) == v@.take(i as int),
{
    let mut i: usize = 0;
    let mut acc: usize = 0;
    assert(v@.take(0) =~= Seq::<char>::empty());
    while i < v.len() && acc < b
        invariant
            i <= v.len(),
            total == byte_len(v@),
            acc == byte_len(v@.take(i as int)),
            forall|j: int| 0 <= j < i ==> byte_len(v@.take(j)) < b,
        decreases v.len() - i,
    {
        proof {
            lemma_byte_len_push(v@.take(i as int), v@[i as int]);
            assert(v@.take(i as int).push(v@[i as int]) =~= v@.take(i + 1));
            lemma_byte_len_take(v@, i + 1, v@.len() as int);
            assert(v@.take(v@.len() as int) =~= v@);
        }
        acc = acc + char_width(v[i]);
        i = i + 1;
    }
    if acc == b {
        proof {
            let k = choose|k: int| 0 <= k <= v@.len() && byte_len(v@.take(k)) == b;
            if k < i {
                lemma_byte_len_take_strict(v@, k, i as int);
            } else if k > i {
                lemma_byte_len_take_strict(v@, i as int, k);
            }
        }
        Some(i)
    } else {
        proof {
            if is_boundary(v@, b as int) {
                let k = choose|k: int| 0 <= k <= v@.len() && byte_len(v@.take(k)) == b;
                if k > i {
                    lemma_byte_len_take_strict(v@, i as int, k);
                }
            }
        }
        None
    }
}

} // verus!
