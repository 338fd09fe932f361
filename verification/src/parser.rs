//! The env-spec line model: documents as lines, decorator comments, the
//! header block, comment blocks and `@type` arguments.
use vstd::prelude::*;
use crate::regex::{match_start, match_end, pattern_found, is_found, all_matches, first_match, group_text, groups_view, matches_view, GroupView, all, first, group_text_of, well_placed};
use crate::catalog::{DecoratorInfo, DataTypeInfo, DataTypeSpec, data_type_named, data_type_by_name};
use crate::scan::{first_where, lemma_first_where, down_while, lemma_down_while};
use crate::text::{
    trim,
    trim_start,
    trim_end,
    starts_with_char,
    ends_with_char,
    is_ascii_space,
    strings_view,
    chars_of,
    string_from_range,
    skip_spaces,
    skip_spaces_back,
    trim_bounds,
    trim_str,
    is_ascii_space_char,
    no_dups,
    insert_str,
    contains_str,
    string_of,
    byte_len,
};

verus! {

/// A config item line: `KEY=...`, optionally after `export`.
pub const CONFIG_ITEM_PATTERN: &'static str = r"^\s*(?:export\s+)?[A-Za-z_][A-Za-z0-9_.\-]*\s*=";

/// A divider comment such as `# ---` or `# ===`.
pub const DIVIDER_PATTERN: &'static str = r"^\s*#\s*(?:---+|===+)(?:\s|$)";

/// A decorator name after `@`.
pub const DECORATOR_PATTERN: &'static str = r"@([A-Za-z][\w\-]*)";

// ---------------------------------------------------------------------------
// Lines
// ---------------------------------------------------------------------------

/// Drops one trailing `\r`.
pub open spec fn strip_cr(s: Seq<char>) -> Seq<char> {
    if ends_with_char(s, '\r') {
        s.drop_last()
    } else {
        s
    }
}

/// Index of the first `\n` in `s`, or its length.
pub open spec fn line_end(s: Seq<char>) -> nat
    decreases s.len(),
{
    if s.len() == 0 {
        0
    } else if s[0] == '\n' {
        0
    } else {
        1 + line_end(s.drop_first())
    }
}

/// `str::lines`: split at `\n`, drop a `\r` right before each `\n`, and no
/// final empty line after a trailing line ending.
pub open spec fn split_lines(s: Seq<char>) -> Seq<Seq<char>>
    decreases s.len(),
{
    if s.len() == 0 {
        Seq::empty()
    } else {
        let k = line_end(s);
        if k >= s.len() {
            seq![s]
        } else {
            seq![strip_cr(s.take(k as int))] + split_lines(s.skip(k as int + 1))
        }
    }
}

proof fn lemma_line_end(s: Seq<char>, m: int)
    requires
        0 <= m <= s.len(),
        forall|j: int| 0 <= j < m ==> s[j] != '\n',
        m < s.len() ==> s[m] == '\n',
    ensures
        line_end(s) == m,
    decreases m,
{
    if m > 0 {
        lemma_line_end(s.drop_first(), m - 1);
    }
}

/// A document held as its lines.
pub struct LineDocument {
    lines: Vec<String>,
}

impl View for LineDocument {
    type V = Seq<Seq<char>>;

    closed spec fn view(&self) -> Seq<Seq<char>> {
        strings_view(self.lines@)
    }
}

/// Line `n` of `lines`, empty past the end.
pub open spec fn line_of(lines: Seq<Seq<char>>, n: int) -> Seq<char> {
    if 0 <= n < lines.len() {
        lines[n]
    } else {
        Seq::empty()
    }
}

impl LineDocument {
    pub fn new(text: &str) -> (doc: Self)
        ensures
            doc@ == split_lines(text@),
    {
        let v = chars_of(text);
        let mut lines: Vec<String> = Vec::new();
        let mut seg: usize = 0;
        let mut i: usize = 0;
        assert(v@.skip(0) =~= v@);
        assert(strings_view(lines@) =~= Seq::<Seq<char>>::empty());
        assert(Seq::<Seq<char>>::empty() + split_lines(v@) =~= split_lines(v@));
        while i < v.len()
            invariant
                seg <= i <= v.len(),
                v@ == text@,
                forall|j: int| seg <= j < i ==> v@[j] != '\n',
                split_lines(v@) == strings_view(lines@) + split_lines(v@.skip(seg as int)),
            decreases v.len() - i,
        {
            if v[i] == '\n' {
                let mut e = i;
                if e > seg && v[e - 1] == '\r' {
                    e = e - 1;
                }
                let line = string_from_range(&v, seg, e);
                proof {
                    let u = v@.skip(seg as int);
                    lemma_line_end(u, i - seg);
                    assert(u.take(i - seg) =~= v@.subrange(seg as int, i as int));
                    assert(u.skip(i - seg + 1) =~= v@.skip(i + 1));
                    assert(strip_cr(v@.subrange(seg as int, i as int)) =~= v@.subrange(
                        seg as int,
                        e as int,
                    ));
                    assert(strings_view(lines@.push(line)) =~= strings_view(lines@).push(line@));
                }
                lines.push(line);
                seg = i + 1;
            }
            i = i + 1;
        }
        if seg < v.len() {
            let line = string_from_range(&v, seg, v.len());
            proof {
                let u = v@.skip(seg as int);
                lemma_line_end(u, u.len() as int);
                assert(u =~= v@.subrange(seg as int, v@.len() as int));
                assert(strings_view(lines@.push(line)) =~= strings_view(lines@).push(line@));
            }
            lines.push(line);
        } else {
            assert(v@.skip(seg as int) =~= Seq::<char>::empty());
        }
        LineDocument { lines }
    }

    pub fn line_count(&self) -> (n: usize)
        ensures
            n == self@.len(),
    {
        self.lines.len()
    }

    pub fn line_at(&self, line: usize) -> (r: &str)
        ensures
            r@ == line_of(self@, line as int),
    {
        if line < self.lines.len() {
            self.lines[line].as_str()
        } else {
            proof {
                reveal_strlit("");
            }
            ""
        }
    }
}

// ---------------------------------------------------------------------------
// Inline comments and decorator comments
// ---------------------------------------------------------------------------

/// The quote that is open just before index `i` (only the quote that opened
/// it closes it).
pub open spec fn quote_before(s: Seq<char>, i: int) -> Option<char>
    decreases i,
{
    if i <= 0 {
        None
    } else {
        let c = s[i - 1];
        match quote_before(s, i - 1) {
            Some(q) => if c == q {
                None
            } else {
                Some(q)
            },
            None => if c == '"' || c == '\'' {
                Some(c)
            } else {
                None
            },
        }
    }
}

/// An inline comment starts at `i`: a `#` outside quotes, first on the text
/// or right after ASCII whitespace.
pub open spec fn comment_starts_at(s: Seq<char>, i: int) -> bool {
    &&& 0 <= i < s.len()
    &&& quote_before(s, i) is None
    &&& s[i] == '#'
    &&& (i == 0 || is_ascii_space(s[i - 1]))
}

pub open spec fn comment_start_pred(s: Seq<char>) -> spec_fn(int) -> bool {
    |i: int| comment_starts_at(s, i)
}

/// Where the inline comment of `s` begins (its length when there is none).
pub open spec fn comment_cut(s: Seq<char>) -> int {
    first_where(comment_start_pred(s), 0, s.len() as int)
}

/// `s` without its inline comment and trailing whitespace.
pub open spec fn strip_inline_comment_spec(s: Seq<char>) -> Seq<char> {
    trim_end(s.take(comment_cut(s)))
}

/// The cut of `v[lo..hi]` as an index into `v`.
fn inline_comment_cut(v: &Vec<char>, lo: usize, hi: usize) -> (r: usize)
    requires
        lo <= hi <= v.len(),
    ensures
        lo <= r <= hi,
        r - lo == comment_cut(v@.subrange(lo as int, hi as int)),
{
    let ghost s = v@.subrange(lo as int, hi as int);
    let mut quote: Option<char> = None;
    let mut i = lo;
    proof {
        lemma_first_where(comment_start_pred(s), 0, s.len() as int);
    }
    while i < hi
        invariant
            lo <= i <= hi <= v.len(),
            s == v@.subrange(lo as int, hi as int),
            quote == quote_before(s, i - lo),
            comment_cut(s) == first_where(comment_start_pred(s), i - lo, s.len() as int),
        decreases hi - i,
    {
        let ch = v[i];
        assert(s[i - lo] == ch);
        match quote {
            Some(q) => {
                assert(!comment_start_pred(s)(i - lo));
                if ch == q {
                    quote = None;
                }
            },
            None => {
                if ch == '"' || ch == '\'' {
                    assert(!comment_start_pred(s)(i - lo));
                    quote = Some(ch);
                } else if ch == '#' && (i == lo || is_ascii_space_char(v[i - 1])) {
                    assert(i == lo || s[i - lo - 1] == v@[i - 1]);
                    assert(comment_start_pred(s)(i - lo));
                    return i;
                } else {
                    assert(i == lo || s[i - lo - 1] == v@[i - 1]);
                    assert(!comment_start_pred(s)(i - lo));
                }
            },
        }
        i = i + 1;
    }
    i
}

/// Index in `v` where `strip_inline_comment(v[lo..hi])` ends.
fn strip_inline_comment_end(v: &Vec<char>, lo: usize, hi: usize) -> (r: usize)
    requires
        lo <= hi <= v.len(),
    ensures
        lo <= r <= hi,
        strip_inline_comment_spec(v@.subrange(lo as int, hi as int)) == v@.subrange(
            lo as int,
            r as int,
        ),
{
    let cut = inline_comment_cut(v, lo, hi);
    let r = skip_spaces_back(v, lo, cut);
    assert(v@.subrange(lo as int, hi as int).take(cut - lo) =~= v@.subrange(lo as int, cut as int));
    r
}

/// Removes a trailing `# comment` (outside quotes, at the start or after
/// whitespace) and the whitespace before it.
pub fn strip_inline_comment(value: &str) -> (r: &str)
    ensures
        r@ == strip_inline_comment_spec(value@),
{
    let v = chars_of(value);
    let e = strip_inline_comment_end(&v, 0, v.len());
    assert(v@.subrange(0, v@.len() as int) =~= v@);
    value.substring_char(0, e)
}

/// The decorator part of a comment line: after `#` and whitespace, starting
/// at `@`, without its inline comment.
pub open spec fn decorator_comment_prefix(s: Seq<char>) -> Option<Seq<char>> {
    let t = trim_start(s);
    if !starts_with_char(t, '#') {
        None
    } else {
        let a = trim_start(t.drop_first());
        if !starts_with_char(a, '@') {
            None
        } else {
            Some(strip_inline_comment_spec(a))
        }
    }
}

/// Bounds of the decorator prefix inside `v`.
fn decorator_prefix_bounds(v: &Vec<char>) -> (r: Option<(usize, usize)>)
    ensures
        r is None <==> decorator_comment_prefix(v@) is None,
        r matches Some(b) ==> b.0 <= b.1 <= v.len() && decorator_comment_prefix(v@) == Some(
            v@.subrange(b.0 as int, b.1 as int),
        ),
{
    let n = v.len();
    let a0 = skip_spaces(v, 0, n);
    assert(v@.subrange(0, n as int) =~= v@);
    if a0 >= n || v[a0] != '#' {
        return None;
    }
    let a1 = skip_spaces(v, a0 + 1, n);
    assert(v@.subrange(a0 as int, n as int).drop_first() =~= v@.subrange(a0 + 1, n as int));
    if a1 >= n || v[a1] != '@' {
        return None;
    }
    let e = strip_inline_comment_end(v, a1, n);
    Some((a1, e))
}

/// `Some(prefix)` when `line_text` is a decorator comment.
pub fn get_decorator_comment_prefix(line_text: &str) -> (r: Option<&str>)
    ensures
        r is None <==> decorator_comment_prefix(line_text@) is None,
        r matches Some(p) ==> decorator_comment_prefix(line_text@) == Some(p@),
{
    let v = chars_of(line_text);
    match decorator_prefix_bounds(&v) {
        Some((a, b)) => Some(line_text.substring_char(a, b)),
        None => None,
    }
}

// ---------------------------------------------------------------------------
// Header block
// ---------------------------------------------------------------------------

pub open spec fn is_config_item_spec(t: Seq<char>) -> bool {
    pattern_found(CONFIG_ITEM_PATTERN@, t)
}

pub open spec fn is_divider_spec(t: Seq<char>) -> bool {
    pattern_found(DIVIDER_PATTERN@, t)
}

fn is_config_item(text: &str) -> (r: bool)
    ensures
        r == is_config_item_spec(text@),
{
    is_found(CONFIG_ITEM_PATTERN, text)
}

fn is_divider(text: &str) -> (r: bool)
    ensures
        r == is_divider_spec(text@),
{
    is_found(DIVIDER_PATTERN, text)
}

/// Going down from line `from`, the comment block runs into a config item
/// before a blank line, a divider or a line that is not a comment.
pub open spec fn block_reaches_item(lines: Seq<Seq<char>>, from: int) -> bool
    decreases lines.len() - from,
{
    if from < 0 || from >= lines.len() {
        false
    } else {
        let t = trim(lines[from]);
        if t.len() == 0 || is_divider_spec(t) {
            false
        } else if is_config_item_spec(t) {
            true
        } else if !starts_with_char(t, '#') {
            false
        } else {
            block_reaches_item(lines, from + 1)
        }
    }
}

/// Line `n` is a comment of the file header: no config item comes before it,
/// and its comment block does not lead into a config item.
pub open spec fn is_in_header_spec(lines: Seq<Seq<char>>, n: int) -> bool {
    &&& starts_with_char(trim(line_of(lines, n)), '#')
    &&& !block_reaches_item(lines, n + 1)
    &&& forall|l: int| 0 <= l < n ==> !is_config_item_spec(#[trigger] line_of(lines, l))
}

pub fn is_in_header(doc: &LineDocument, line_number: usize) -> (r: bool)
    ensures
        r == is_in_header_spec(doc@, line_number as int),
{
    let line_text = doc.line_at(line_number);
    let trimmed = trim_str(line_text);
    if !crate::text::starts_with_ch(trimmed, '#') {
        return false;
    }
    let count = doc.line_count();
    assert(line_number < count);
    let mut line = line_number + 1;
    while line < count
        invariant
            line_number < line <= count,
            count == doc@.len(),
            starts_with_char(trim(line_of(doc@, line_number as int)), '#'),
            block_reaches_item(doc@, line_number + 1) == block_reaches_item(doc@, line as int),
        decreases count - line,
    {
        let text = trim_str(doc.line_at(line));
        if text.unicode_len() == 0 {
            return is_in_header_prev(doc, line_number);
        }
        if is_divider(text) {
            return is_in_header_prev(doc, line_number);
        }
        if is_config_item(text) {
            return false;
        }
        if !crate::text::starts_with_ch(text, '#') {
            return is_in_header_prev(doc, line_number);
        }
        line = line + 1;
    }
    is_in_header_prev(doc, line_number)
}

/// No line before `line_number` is a config item.
fn is_in_header_prev(doc: &LineDocument, line_number: usize) -> (r: bool)
    ensures
        r == forall|l: int| 0 <= l < line_number ==> !is_config_item_spec(#[trigger] line_of(doc@, l)),
{
    let mut line: usize = 0;
    while line < line_number
        invariant
            line <= line_number,
            forall|l: int| 0 <= l < line ==> !is_config_item_spec(#[trigger] line_of(doc@, l)),
        decreases line_number - line,
    {
        if is_config_item(doc.line_at(line)) {
            return false;
        }
        line = line + 1;
    }
    true
}

// ---------------------------------------------------------------------------
// Comment blocks
// ---------------------------------------------------------------------------

pub open spec fn is_comment_line_pred(lines: Seq<Seq<char>>) -> spec_fn(int) -> bool {
    |l: int| starts_with_char(trim(line_of(lines, l)), '#')
}

/// First line of the comment block that ends right above line `n`.
pub open spec fn comment_block_start(lines: Seq<Seq<char>>, n: int) -> int {
    down_while(is_comment_line_pred(lines), n)
}

/// The trimmed comment lines right above line `n`, top to bottom.
pub open spec fn preceding_comment_block(lines: Seq<Seq<char>>, n: int) -> Seq<Seq<char>> {
    let k = comment_block_start(lines, n);
    Seq::new((n - k) as nat, |i: int| trim(line_of(lines, k + i)))
}

fn comment_block_start_exec(doc: &LineDocument, line_number: usize) -> (k: usize)
    ensures
        k <= line_number,
        k == comment_block_start(doc@, line_number as int),
{
    proof {
        lemma_down_while(is_comment_line_pred(doc@), line_number as int);
    }
    let mut k = line_number;
    while k > 0
        invariant
            k <= line_number,
            comment_block_start(doc@, line_number as int) == down_while(
                is_comment_line_pred(doc@),
                k as int,
            ),
        decreases k,
    {
        let text = trim_str(doc.line_at(k - 1));
        if !crate::text::starts_with_ch(text, '#') {
            return k;
        }
        k = k - 1;
    }
    k
}

pub fn get_preceding_comment_block(doc: &LineDocument, line_number: usize) -> (r: Vec<String>)
    ensures
        strings_view(r@) == preceding_comment_block(doc@, line_number as int),
{
    let k = comment_block_start_exec(doc, line_number);
    let mut lines: Vec<String> = Vec::new();
    let mut l = k;
    while l < line_number
        invariant
            k <= l <= line_number,
            k == comment_block_start(doc@, line_number as int),
            strings_view(lines@) == preceding_comment_block(doc@, line_number as int).take(
                l - k,
            ),
        decreases line_number - l,
    {
        let text = crate::text::string_of(trim_str(doc.line_at(l)));
        assert(strings_view(lines@.push(text)) =~= strings_view(lines@).push(text@));
        assert(preceding_comment_block(doc@, line_number as int).take(l + 1 - k) =~= preceding_comment_block(doc@, line_number as int).take(l - k).push(text@));
        lines.push(text);
        l = l + 1;
    }
    assert(preceding_comment_block(doc@, line_number as int).take(line_number - k) =~= preceding_comment_block(doc@, line_number as int));
    lines
}

// ---------------------------------------------------------------------------
// Quotes
// ---------------------------------------------------------------------------

/// Removes one pair of matching surrounding `"` or `'`.
pub open spec fn unquote_spec(s: Seq<char>) -> Seq<char> {
    if s.len() >= 2 && s[0] == '"' && s.last() == '"' {
        s.subrange(1, s.len() - 1)
    } else if s.len() >= 2 && s[0] == '\'' && s.last() == '\'' {
        s.subrange(1, s.len() - 1)
    } else {
        s
    }
}

fn unquote_bounds(v: &Vec<char>, lo: usize, hi: usize) -> (r: (usize, usize))
    requires
        lo <= hi <= v.len(),
    ensures
        lo <= r.0 <= r.1 <= hi,
        unquote_spec(v@.subrange(lo as int, hi as int)) == v@.subrange(r.0 as int, r.1 as int),
{
    let ghost s = v@.subrange(lo as int, hi as int);
    if hi - lo >= 2 && ((v[lo] == '"' && v[hi - 1] == '"') || (v[lo] == '\'' && v[hi - 1]
        == '\'')) {
        assert(s.subrange(1, s.len() - 1) =~= v@.subrange(lo + 1, hi - 1));
        (lo + 1, hi - 1)
    } else {
        (lo, hi)
    }
}

pub fn unquote(value: &str) -> (r: &str)
    ensures
        r@ == unquote_spec(value@),
{
    let v = chars_of(value);
    let (a, b) = unquote_bounds(&v, 0, v.len());
    assert(v@.subrange(0, v@.len() as int) =~= v@);
    value.substring_char(a, b)
}

// ---------------------------------------------------------------------------
// Comma-separated arguments
// ---------------------------------------------------------------------------

/// Scanner state just before index `i`: the open quote and the parenthesis depth.
pub open spec fn split_state(s: Seq<char>, i: int) -> (Option<char>, nat)
    decreases i,
{
    if i <= 0 {
        (None, 0)
    } else {
        let c = s[i - 1];
        let prev = split_state(s, i - 1);
        match prev.0 {
            Some(q) => if c == q {
                (None, prev.1)
            } else {
                (Some(q), prev.1)
            },
            None => if c == '"' || c == '\'' {
                (Some(c), prev.1)
            } else if c == '(' {
                (None, prev.1 + 1)
            } else if c == ')' {
                (None, if prev.1 > 0 { (prev.1 - 1) as nat } else { 0 })
            } else {
                (None, prev.1)
            },
        }
    }
}

/// A top-level separator: a comma outside quotes and parentheses.
pub open spec fn is_split_at(s: Seq<char>, i: int) -> bool {
    0 <= i < s.len() && s[i] == ',' && split_state(s, i).0 is None && split_state(s, i).1 == 0
}

/// The trimmed piece, or nothing when it is blank.
pub open spec fn nonempty_trim(x: Seq<char>) -> Seq<Seq<char>> {
    if trim(x).len() > 0 {
        seq![trim(x)]
    } else {
        Seq::empty()
    }
}

/// Start of the piece that is open at index `n`.
pub open spec fn piece_start(s: Seq<char>, n: int) -> int
    decreases n,
{
    if n <= 0 {
        0
    } else if is_split_at(s, n - 1) {
        n
    } else {
        piece_start(s, n - 1)
    }
}

/// The non-blank trimmed pieces closed by separators before index `n`.
pub open spec fn pieces_before(s: Seq<char>, n: int) -> Seq<Seq<char>>
    decreases n,
{
    if n <= 0 {
        Seq::empty()
    } else if is_split_at(s, n - 1) {
        pieces_before(s, n - 1) + nonempty_trim(s.subrange(piece_start(s, n - 1), n - 1))
    } else {
        pieces_before(s, n - 1)
    }
}

/// The arguments of a comma list: pieces between top-level commas, trimmed,
/// blank ones dropped.
pub open spec fn comma_args(s: Seq<char>) -> Seq<Seq<char>> {
    pieces_before(s, s.len() as int) + nonempty_trim(
        s.subrange(piece_start(s, s.len() as int), s.len() as int),
    )
}

proof fn lemma_piece_start_bound(s: Seq<char>, n: int)
    requires
        0 <= n,
    ensures
        0 <= piece_start(s, n) <= n,
    decreases n,
{
    if n > 0 && !is_split_at(s, n - 1) {
        lemma_piece_start_bound(s, n - 1);
    }
}

/// Appends the trimmed `v[lo..hi]` when it is not blank.
fn push_nonempty_trim(parts: &mut Vec<String>, v: &Vec<char>, lo: usize, hi: usize)
    requires
        lo <= hi <= v.len(),
    ensures
        strings_view(final(parts)@) == strings_view(old(parts)@) + nonempty_trim(
            v@.subrange(lo as int, hi as int),
        ),
{
    let (a, b) = trim_bounds(v, lo, hi);
    if a < b {
        let piece = string_from_range(v, a, b);
        assert(strings_view(parts@.push(piece)) =~= strings_view(parts@).push(piece@));
        parts.push(piece);
        assert(strings_view(parts@) =~= strings_view(old(parts)@) + nonempty_trim(
            v@.subrange(lo as int, hi as int),
        ));
    } else {
        assert(strings_view(parts@) =~= strings_view(old(parts)@) + nonempty_trim(
            v@.subrange(lo as int, hi as int),
        ));
    }
}

/// Splits at commas outside quotes and parentheses; pieces are trimmed and
/// blank pieces dropped.
pub fn split_comma_args(input: &str) -> (r: Vec<String>)
    ensures
        strings_view(r@) == comma_args(input@),
{
    let v = chars_of(input);
    let mut parts: Vec<String> = Vec::new();
    let mut quote: Option<char> = None;
    let mut depth: usize = 0;
    let mut seg: usize = 0;
    let mut i: usize = 0;
    assert(strings_view(parts@) =~= Seq::<Seq<char>>::empty());
    while i < v.len()
        invariant
            i <= v.len(),
            v@ == input@,
            seg <= i,
            depth <= i,
            quote == split_state(v@, i as int).0,
            depth == split_state(v@, i as int).1,
            seg == piece_start(v@, i as int),
            strings_view(parts@) == pieces_before(v@, i as int),
        decreases v.len() - i,
    {
        let ch = v[i];
        match quote {
            Some(q) => {
                if ch == q {
                    quote = None;
                }
            },
            None => {
                if ch == '"' || ch == '\'' {
                    quote = Some(ch);
                } else if ch == '(' {
                    depth = depth + 1;
                } else if ch == ')' {
                    depth = if depth > 0 {
                        depth - 1
                    } else {
                        0
                    };
                } else if ch == ',' && depth == 0 {
                    push_nonempty_trim(&mut parts, &v, seg, i);
                    seg = i + 1;
                }
            },
        }
        i = i + 1;
    }
    push_nonempty_trim(&mut parts, &v, seg, v.len());
    parts
}

pub open spec fn is_quote_char(c: char) -> bool {
    c == '\'' || c == '"'
}

pub open spec fn trim_start_quotes(s: Seq<char>) -> Seq<char>
    decreases s.len(),
{
    if s.len() > 0 && is_quote_char(s[0]) {
        trim_start_quotes(s.drop_first())
    } else {
        s
    }
}

pub open spec fn trim_end_quotes(s: Seq<char>) -> Seq<char>
    decreases s.len(),
{
    if s.len() > 0 && is_quote_char(s.last()) {
        trim_end_quotes(s.drop_last())
    } else {
        s
    }
}

/// An enum value: quote characters stripped from both ends, then trimmed.
pub open spec fn enum_arg(part: Seq<char>) -> Seq<char> {
    trim(trim_end_quotes(trim_start_quotes(part)))
}

/// The non-empty enum values of the given pieces, in order.
pub open spec fn enum_args_of(parts: Seq<Seq<char>>) -> Seq<Seq<char>>
    decreases parts.len(),
{
    if parts.len() == 0 {
        Seq::empty()
    } else {
        enum_args_of(parts.drop_last()) + (if enum_arg(parts.last()).len() > 0 {
            seq![enum_arg(parts.last())]
        } else {
            Seq::empty()
        })
    }
}

pub open spec fn enum_args(s: Seq<char>) -> Seq<Seq<char>> {
    enum_args_of(comma_args(s))
}

fn enum_arg_bounds(v: &Vec<char>) -> (r: (usize, usize))
    ensures
        r.0 <= r.1 <= v.len(),
        enum_arg(v@) == v@.subrange(r.0 as int, r.1 as int),
{
    let n = v.len();
    let mut a: usize = 0;
    assert(v@.subrange(0, n as int) =~= v@);
    while a < n && (v[a] == '\'' || v[a] == '"')
        invariant
            a <= n == v.len(),
            trim_start_quotes(v@) == trim_start_quotes(v@.subrange(a as int, n as int)),
        decreases n - a,
    {
        assert(v@.subrange(a as int, n as int).drop_first() =~= v@.subrange(a + 1, n as int));
        a = a + 1;
    }
    let mut b: usize = n;
    while b > a && (v[b - 1] == '\'' || v[b - 1] == '"')
        invariant
            a <= b <= n == v.len(),
            trim_end_quotes(v@.subrange(a as int, n as int)) == trim_end_quotes(
                v@.subrange(a as int, b as int),
            ),
        decreases b - a,
    {
        assert(v@.subrange(a as int, b as int).drop_last() =~= v@.subrange(a as int, b - 1));
        b = b - 1;
    }
    trim_bounds(v, a, b)
}

/// The values of an `enum(...)` argument list, unquoted and non-empty.
pub fn split_enum_args(input: &str) -> (r: Vec<String>)
    ensures
        strings_view(r@) == enum_args(input@),
{
    let parts = split_comma_args(input);
    let mut out: Vec<String> = Vec::new();
    let mut k: usize = 0;
    assert(strings_view(out@) =~= Seq::<Seq<char>>::empty());
    while k < parts.len()
        invariant
            k <= parts.len(),
            strings_view(parts@) == comma_args(input@),
            strings_view(out@) == enum_args_of(strings_view(parts@).take(k as int)),
        decreases parts.len() - k,
    {
        let v = chars_of(parts[k].as_str());
        let (a, b) = enum_arg_bounds(&v);
        assert(strings_view(parts@).take(k + 1).drop_last() =~= strings_view(parts@).take(
            k as int,
        ));
        assert(strings_view(parts@).take(k + 1).last() == parts@[k as int]@);
        if a < b {
            let value = string_from_range(&v, a, b);
            assert(strings_view(out@.push(value)) =~= strings_view(out@).push(value@));
            out.push(value);
        }
        k = k + 1;
    }
    assert(strings_view(parts@).take(parts@.len() as int) =~= strings_view(parts@));
    out
}

// ---------------------------------------------------------------------------
// `@type` options
// ---------------------------------------------------------------------------

/// One `key=value` option of a type.
#[derive(Debug, Clone)]
pub struct TypeOption {
    pub key: String,
    pub value: String,
}

pub open spec fn option_view(o: TypeOption) -> (Seq<char>, Seq<char>) {
    (o.key@, o.value@)
}

pub open spec fn options_view(v: Seq<TypeOption>) -> Seq<(Seq<char>, Seq<char>)> {
    v.map_values(|o: TypeOption| option_view(o))
}

/// The map that inserting the entries in order builds (a later key replaces
/// an earlier one).
pub open spec fn options_map(s: Seq<(Seq<char>, Seq<char>)>) -> Map<Seq<char>, Seq<char>>
    decreases s.len(),
{
    if s.len() == 0 {
        Map::empty()
    } else {
        options_map(s.drop_last()).insert(s.last().0, s.last().1)
    }
}

/// Looking `key` up in the map of `s`.
pub open spec fn option_lookup(s: Seq<(Seq<char>, Seq<char>)>, key: Seq<char>) -> Option<
    Seq<char>,
> {
    if options_map(s).dom().contains(key) {
        Some(options_map(s)[key])
    } else {
        None
    }
}

proof fn lemma_options_map_absent(s: Seq<(Seq<char>, Seq<char>)>, key: Seq<char>)
    requires
        forall|j: int| 0 <= j < s.len() ==> (#[trigger] s[j]).0 != key,
    ensures
        !options_map(s).dom().contains(key),
    decreases s.len(),
{
    if s.len() > 0 {
        assert(s.last() == s[s.len() - 1]);
        lemma_options_map_absent(s.drop_last(), key);
    }
}

proof fn lemma_options_map_last(s: Seq<(Seq<char>, Seq<char>)>, key: Seq<char>, k: int)
    requires
        0 <= k < s.len(),
        s[k].0 == key,
        forall|j: int| k < j < s.len() ==> (#[trigger] s[j]).0 != key,
    ensures
        options_map(s).dom().contains(key),
        options_map(s)[key] == s[k].1,
    decreases s.len(),
{
    if k < s.len() - 1 {
        assert(s.last() == s[s.len() - 1]);
        assert forall|j: int| k < j < s.drop_last().len() implies (#[trigger] s.drop_last()[j]).0
            != key by {
            assert(s.drop_last()[j] == s[j]);
        }
        lemma_options_map_last(s.drop_last(), key, k);
    }
}

/// The value of `key` in `opts`, the last entry for it winning.
pub fn option_get<'a>(opts: &'a Vec<TypeOption>, key: &str) -> (r: Option<&'a String>)
    ensures
        r is None <==> option_lookup(options_view(opts@), key@) is None,
        r matches Some(v) ==> option_lookup(options_view(opts@), key@) == Some(v@),
{
    let ghost s = options_view(opts@);
    let mut k = opts.len();
    while k > 0
        invariant
            k <= opts.len(),
            s == options_view(opts@),
            forall|j: int| k <= j < s.len() ==> (#[trigger] s[j]).0 != key@,
        decreases k,
    {
        let hit = crate::text::str_eq(opts[k - 1].key.as_str(), key);
        if hit {
            proof {
                lemma_options_map_last(s, key@, k - 1);
            }
            return Some(&opts[k - 1].value);
        }
        assert(s[k - 1].0 == opts@[k - 1].key@);
        k = k - 1;
    }
    proof {
        lemma_options_map_absent(s, key@);
    }
    None
}

pub open spec fn eq_sign_pred(s: Seq<char>) -> spec_fn(int) -> bool {
    |i: int| s[i] == '='
}

/// The option that one piece of a `@type` argument list defines: the text
/// before the first `=` (trimmed, non-empty) and the unquoted trimmed rest.
pub open spec fn option_entry(part: Seq<char>) -> Option<(Seq<char>, Seq<char>)> {
    let sep = first_where(eq_sign_pred(part), 0, part.len() as int);
    if sep >= part.len() {
        None
    } else {
        let key = trim(part.take(sep));
        let raw = trim(part.skip(sep + 1));
        if key.len() == 0 {
            None
        } else {
            Some((key, unquote_spec(raw)))
        }
    }
}

/// The options of the given pieces, in order.
pub open spec fn option_entries(parts: Seq<Seq<char>>) -> Seq<(Seq<char>, Seq<char>)>
    decreases parts.len(),
{
    if parts.len() == 0 {
        Seq::empty()
    } else {
        option_entries(parts.drop_last()) + match option_entry(parts.last()) {
            Some(e) => seq![e],
            None => Seq::empty(),
        }
    }
}

/// The options that `parse_type_options` collects, in insertion order.
pub open spec fn type_options(s: Seq<char>) -> Seq<(Seq<char>, Seq<char>)> {
    option_entries(comma_args(s))
}

fn option_entry_exec(part: &str) -> (r: Option<TypeOption>)
    ensures
        r is None <==> option_entry(part@) is None,
        r matches Some(o) ==> option_entry(part@) == Some(option_view(o)),
{
    let v = chars_of(part);
    let n = v.len();
    let mut sep: usize = 0;
    proof {
        lemma_first_where(eq_sign_pred(v@), 0, n as int);
    }
    while sep < n && v[sep] != '='
        invariant
            sep <= n == v.len(),
            first_where(eq_sign_pred(v@), 0, n as int) == first_where(
                eq_sign_pred(v@),
                sep as int,
                n as int,
            ),
        decreases n - sep,
    {
        sep = sep + 1;
    }
    if sep >= n {
        return None;
    }
    let (ka, kb) = trim_bounds(&v, 0, sep);
    assert(v@.subrange(0, sep as int) =~= v@.take(sep as int));
    if ka >= kb {
        return None;
    }
    let (ra, rb) = trim_bounds(&v, sep + 1, n);
    assert(v@.subrange(sep + 1, n as int) =~= v@.skip(sep + 1));
    let (ua, ub) = unquote_bounds(&v, ra, rb);
    let key = string_from_range(&v, ka, kb);
    let value = string_from_range(&v, ua, ub);
    Some(TypeOption { key, value })
}

/// Parses `key=value` options separated by commas.
pub fn parse_type_options(input: &str) -> (r: Vec<TypeOption>)
    ensures
        options_view(r@) == type_options(input@),
{
    let parts = split_comma_args(input);
    let mut out: Vec<TypeOption> = Vec::new();
    let mut k: usize = 0;
    assert(options_view(out@) =~= Seq::<(Seq<char>, Seq<char>)>::empty());
    while k < parts.len()
        invariant
            k <= parts.len(),
            strings_view(parts@) == comma_args(input@),
            options_view(out@) == option_entries(strings_view(parts@).take(k as int)),
        decreases parts.len() - k,
    {
        assert(strings_view(parts@).take(k + 1).drop_last() =~= strings_view(parts@).take(
            k as int,
        ));
        assert(strings_view(parts@).take(k + 1).last() == parts@[k as int]@);
        match option_entry_exec(parts[k].as_str()) {
            Some(o) => {
                assert(options_view(out@.push(o)) =~= options_view(out@).push(option_view(o)));
                out.push(o);
            },
            None => {
                assert(options_view(out@) =~= options_view(out@) + Seq::<
                    (Seq<char>, Seq<char>),
                >::empty());
            },
        }
        k = k + 1;
    }
    assert(strings_view(parts@).take(parts@.len() as int) =~= strings_view(parts@));
    out
}

// ---------------------------------------------------------------------------
// Decorator names already in use
// ---------------------------------------------------------------------------

/// `nm` is the name of a decorator written in `prefix`.
pub open spec fn captured_name(prefix: Seq<char>, nm: Seq<char>) -> bool {
    exists|k: int|
        0 <= k < all_matches(DECORATOR_PATTERN@, prefix).len() && #[trigger] group_text(
            all_matches(DECORATOR_PATTERN@, prefix)[k],
            1,
        ) == nm
}

/// `line` is a decorator comment that names `nm`.
pub open spec fn line_has_name(line: Seq<char>, nm: Seq<char>) -> bool {
    match decorator_comment_prefix(line) {
        Some(p) => captured_name(p, nm),
        None => false,
    }
}

pub open spec fn trimmed_config_item_pred(lines: Seq<Seq<char>>) -> spec_fn(int) -> bool {
    |l: int| is_config_item_spec(trim(line_of(lines, l)))
}

/// The lines whose decorators count for line `n`: in the header, every line
/// above it up to the first config item; elsewhere, its comment block.
pub open spec fn name_lines(lines: Seq<Seq<char>>, n: int) -> (int, int) {
    if is_in_header_spec(lines, n) {
        (0, first_where(trimmed_config_item_pred(lines), 0, n))
    } else {
        (comment_block_start(lines, n), n)
    }
}

/// `nm` is already used around line `n` (or in the text being typed).
pub open spec fn existing_name(lines: Seq<Seq<char>>, n: int, prefix: Seq<char>, nm: Seq<char>) -> bool {
    ||| exists|l: int|
        name_lines(lines, n).0 <= l < name_lines(lines, n).1 && #[trigger] line_has_name(
            line_of(lines, l),
            nm,
        )
    ||| captured_name(prefix, nm)
}

/// Adds the decorator names written in `prefix`.
fn add_names(names: &mut Vec<String>, prefix: &str)
    requires
        no_dups(strings_view(old(names)@)),
    ensures
        no_dups(strings_view(final(names)@)),
        forall|t: Seq<char>| #[trigger] strings_view(final(names)@).contains(t) <==> (strings_view(old(names)@).contains(t) || captured_name(prefix@, t)),
{
    let m = all(DECORATOR_PATTERN, prefix);
    let ghost mv = matches_view(m@);
    let mut k: usize = 0;
    while k < m.len()
        invariant
            k <= m.len(),
            mv == matches_view(m@),
            mv == all_matches(DECORATOR_PATTERN@, prefix@),
            no_dups(strings_view(names@)),
            forall|t: Seq<char>| #[trigger] strings_view(names@).contains(t) <==> (strings_view(old(names)@).contains(t) || exists|j: int| 0 <= j < k && #[trigger] group_text(mv[j], 1) == t),
        decreases m.len() - k,
    {
        let t = group_text_of(&m[k], 1);
        assert(mv[k as int] == groups_view(m@[k as int]@));
        insert_str(names, t);
        assert forall|u: Seq<char>| #[trigger] strings_view(names@).contains(u) <==> (strings_view(old(names)@).contains(u) || exists|j: int| 0 <= j < k + 1 && #[trigger] group_text(mv[j], 1) == u) by {
            if exists|j: int| 0 <= j < k + 1 && #[trigger] group_text(mv[j], 1) == u {
                let j = choose|j: int| 0 <= j < k + 1 && #[trigger] group_text(mv[j], 1) == u;
                if j < k {
                    assert(exists|j: int| 0 <= j < k && #[trigger] group_text(mv[j], 1) == u);
                }
            }
        }
        k = k + 1;
    }
}

/// The names of the decorators already used where `comment_prefix` is being
/// typed on line `line_number` (each name once).
pub fn get_existing_decorator_names(doc: &LineDocument, line_number: usize, comment_prefix: &str) -> (r: Vec<String>)
    ensures
        no_dups(strings_view(r@)),
        forall|t: Seq<char>| #[trigger] strings_view(r@).contains(t) <==> existing_name(doc@, line_number as int, comment_prefix@, t),
{
    let mut names: Vec<String> = Vec::new();
    let (lo, hi) = if is_in_header(doc, line_number) {
        let mut stop: usize = 0;
        proof {
            lemma_first_where(trimmed_config_item_pred(doc@), 0, line_number as int);
        }
        while stop < line_number && !is_config_item(trim_str(doc.line_at(stop)))
            invariant
                stop <= line_number,
                first_where(trimmed_config_item_pred(doc@), 0, line_number as int) == first_where(
                    trimmed_config_item_pred(doc@),
                    stop as int,
                    line_number as int,
                ),
            decreases line_number - stop,
        {
            stop = stop + 1;
        }
        (0, stop)
    } else {
        (comment_block_start_exec(doc, line_number), line_number)
    };
    assert(lo == name_lines(doc@, line_number as int).0 && hi == name_lines(doc@, line_number as int).1);
    let mut l = lo;
    while l < hi
        invariant
            lo <= l <= hi,
            lo == name_lines(doc@, line_number as int).0,
            hi == name_lines(doc@, line_number as int).1,
            no_dups(strings_view(names@)),
            forall|t: Seq<char>| #[trigger] strings_view(names@).contains(t) <==> exists|j: int| lo <= j < l && #[trigger] line_has_name(line_of(doc@, j), t),
        decreases hi - l,
    {
        let line_text = doc.line_at(l);
        let ghost before = names@;
        match get_decorator_comment_prefix(line_text) {
            Some(prefix) => {
                add_names(&mut names, prefix);
                assert(forall|t: Seq<char>| #[trigger] line_has_name(line_of(doc@, l as int), t) == captured_name(prefix@, t));
            },
            None => {
                assert(forall|t: Seq<char>| !#[trigger] line_has_name(line_of(doc@, l as int), t));
            },
        }
        assert(forall|t: Seq<char>| #[trigger] strings_view(names@).contains(t) <==> (strings_view(before).contains(t) || line_has_name(line_of(doc@, l as int), t)));
        assert forall|t: Seq<char>| #[trigger] strings_view(names@).contains(t) <==> exists|j: int| lo <= j < l + 1 && #[trigger] line_has_name(line_of(doc@, j), t) by {
            if exists|j: int| lo <= j < l + 1 && #[trigger] line_has_name(line_of(doc@, j), t) {
                let j = choose|j: int| lo <= j < l + 1 && #[trigger] line_has_name(line_of(doc@, j), t);
                if j < l {
                    assert(exists|j: int| lo <= j < l && #[trigger] line_has_name(line_of(doc@, j), t));
                }
            }
            if strings_view(before).contains(t) {
                let j = choose|j: int| lo <= j < l && #[trigger] line_has_name(line_of(doc@, j), t);
                assert(lo <= j < l + 1);
            }
        }
        l = l + 1;
    }
    add_names(&mut names, comment_prefix);
    names
}

/// The decorators that may still be offered: a non-function decorator that is
/// already used is left out, and so is one whose counterpart is used
/// (`required`/`optional`, `sensitive`/`public`).
pub open spec fn incompatible_with(name: Seq<char>) -> Seq<Seq<char>> {
    if name == "required"@ {
        seq!["optional"@]
    } else if name == "optional"@ {
        seq!["required"@]
    } else if name == "sensitive"@ {
        seq!["public"@]
    } else if name == "public"@ {
        seq!["sensitive"@]
    } else {
        Seq::empty()
    }
}

pub open spec fn decorator_available(d: DecoratorInfo, existing: Set<Seq<char>>) -> bool {
    &&& (d.is_function || !existing.contains(d.name@))
    &&& forall|k: int| 0 <= k < incompatible_with(d.name@).len() ==> !existing.contains(#[trigger] incompatible_with(d.name@)[k])
}

pub open spec fn available_decorators(ds: Seq<DecoratorInfo>, existing: Set<Seq<char>>) -> Seq<DecoratorInfo>
    decreases ds.len(),
{
    if ds.len() == 0 {
        Seq::empty()
    } else {
        available_decorators(ds.drop_last(), existing) + if decorator_available(ds.last(), existing) {
            seq![ds.last()]
        } else {
            Seq::empty()
        }
    }
}

fn incompatible_names(name: &str) -> (r: Vec<&'static str>)
    ensures
        r@.map_values(|s: &'static str| s@) == incompatible_with(name@),
{
    let r: Vec<&'static str> = if crate::text::str_eq(name, "required") {
        vec!["optional"]
    } else if crate::text::str_eq(name, "optional") {
        vec!["required"]
    } else if crate::text::str_eq(name, "sensitive") {
        vec!["public"]
    } else if crate::text::str_eq(name, "public") {
        vec!["sensitive"]
    } else {
        Vec::new()
    };
    assert(r@.map_values(|s: &'static str| s@) =~= incompatible_with(name@));
    r
}

fn is_available(d: &DecoratorInfo, existing_names: &Vec<String>) -> (r: bool)
    ensures
        r == decorator_available(*d, strings_view(existing_names@).to_set()),
{
    if !d.is_function && contains_str(existing_names, d.name) {
        return false;
    }
    let inc = incompatible_names(d.name);
    let ghost iv = inc@.map_values(|s: &'static str| s@);
    let mut k: usize = 0;
    while k < inc.len()
        invariant
            k <= inc.len(),
            iv == inc@.map_values(|s: &'static str| s@),
            iv == incompatible_with(d.name@),
            forall|j: int| 0 <= j < k ==> !strings_view(existing_names@).to_set().contains(#[trigger] iv[j]),
        decreases inc.len() - k,
    {
        assert(iv[k as int] == inc@[k as int]@);
        if contains_str(existing_names, inc[k]) {
            return false;
        }
        k = k + 1;
    }
    true
}

/// The decorators of `decorators` that can still be added.
pub fn filter_available_decorators(decorators: &Vec<DecoratorInfo>, existing_names: &Vec<String>) -> (r: Vec<DecoratorInfo>)
    ensures
        r@ == available_decorators(decorators@, strings_view(existing_names@).to_set()),
{
    let mut out: Vec<DecoratorInfo> = Vec::new();
    let mut k: usize = 0;
    while k < decorators.len()
        invariant
            k <= decorators.len(),
            out@ == available_decorators(decorators@.take(k as int), strings_view(existing_names@).to_set()),
        decreases decorators.len() - k,
    {
        assert(decorators@.take(k + 1).drop_last() =~= decorators@.take(k as int));
        assert(decorators@.take(k + 1).last() == decorators@[k as int]);
        if is_available(&decorators[k], existing_names) {
            out.push(decorators[k]);
        } else {
            assert(out@ =~= out@ + Seq::<DecoratorInfo>::empty());
        }
        k = k + 1;
    }
    assert(decorators@.take(decorators@.len() as int) =~= decorators@);
    out
}

// ---------------------------------------------------------------------------
// `@type` declarations in comment blocks
// ---------------------------------------------------------------------------

/// `@type=enum(...)`, capturing the argument list up to the first `)`.
pub const ENUM_TYPE_PATTERN: &'static str = r"@type=enum\(([^)]*)\)";

/// An unfinished `@type=name(...` at the end of a decorator comment, capturing the type name.
pub const TYPE_OPTION_PATTERN: &'static str = r"(^|\s)@type=([A-Za-z][\w\-]*)\([^#)]*$";

/// `@type=name` with an optional `(...)` argument list (up to the last `)`,
/// so that an option such as a `matches` pattern may hold parentheses).
pub const TYPE_INFO_PATTERN: &'static str = r"@type=([A-Za-z][\w\-]*)(?:\((.*)\))?";

/// A reference to another item such as `$KEY`.
pub const DYNAMIC_REFERENCE_PATTERN: &'static str = r"\$[A-Za-z_]";

/// A resolver call such as `exec(`.
pub const DYNAMIC_CALL_PATTERN: &'static str = r"^[A-Za-z][\w\-]*\(";

/// A decorator with its `(...)` arguments or `=value`.
pub const OCCURRENCE_PATTERN: &'static str = r"@([A-Za-z][\w\-]*)(?:\([^)]*\)|=[^\s#]+)?";

/// Scanning up from line `l - 1` through the comment block: the values of the
/// first `@type=enum(...)` decorator found.
pub open spec fn enum_values_scan(lines: Seq<Seq<char>>, l: int) -> Option<Seq<Seq<char>>>
    decreases l,
{
    if l <= 0 {
        None
    } else {
        let line = line_of(lines, l - 1);
        if !starts_with_char(trim(line), '#') {
            None
        } else {
            match decorator_comment_prefix(line) {
                Some(p) => match first_match(ENUM_TYPE_PATTERN@, p) {
                    Some(c) => Some(enum_args(group_text(c, 1))),
                    None => enum_values_scan(lines, l - 1),
                },
                None => enum_values_scan(lines, l - 1),
            }
        }
    }
}

/// The values of the nearest `@type=enum(...)` in the comment block above line `line_number`.
pub fn get_enum_values_from_preceding_comments(doc: &LineDocument, line_number: usize) -> (r: Option<Vec<String>>)
    ensures
        r is None <==> enum_values_scan(doc@, line_number as int) is None,
        r matches Some(v) ==> enum_values_scan(doc@, line_number as int) == Some(strings_view(v@)),
{
    let mut l = line_number;
    while l > 0
        invariant
            l <= line_number,
            enum_values_scan(doc@, line_number as int) == enum_values_scan(doc@, l as int),
        decreases l,
    {
        let line_text = doc.line_at(l - 1);
        if !crate::text::starts_with_ch(trim_str(line_text), '#') {
            return None;
        }
        match get_decorator_comment_prefix(line_text) {
            Some(prefix) => {
                match first(ENUM_TYPE_PATTERN, prefix) {
                    Some(c) => {
                        let args = group_text_of(&c, 1);
                        return Some(split_enum_args(args.as_str()));
                    },
                    None => {},
                }
            },
            None => {},
        }
        l = l - 1;
    }
    None
}

/// The data type whose options are being typed at the end of `comment_prefix`.
pub open spec fn type_option_data_type(comment_prefix: Seq<char>) -> Option<DataTypeSpec> {
    match first_match(TYPE_OPTION_PATTERN@, comment_prefix) {
        Some(c) => if 2 < c.len() && c[2] is Some {
            data_type_named(group_text(c, 2))
        } else {
            None
        },
        None => None,
    }
}

pub fn get_type_option_data_type(comment_prefix: &str) -> (r: Option<DataTypeInfo>)
    ensures
        r is None <==> type_option_data_type(comment_prefix@) is None,
        r matches Some(d) ==> type_option_data_type(comment_prefix@) == Some(d@),
{
    match first(TYPE_OPTION_PATTERN, comment_prefix) {
        Some(c) => {
            if 2 < c.len() && c[2].is_some() {
                assert(groups_view(c@)[2] is Some);
                let name = group_text_of(&c, 2);
                data_type_by_name(name.as_str())
            } else {
                assert(!(groups_view(c@)[2] is Some) || 2 >= c@.len());
                None
            }
        },
        None => None,
    }
}

/// A declared type: its name, enum values or options.
#[derive(Debug, Clone)]
pub struct TypeInfo {
    pub name: String,
    pub args: Vec<String>,
    pub options: Vec<TypeOption>,
}

/// A declared type as plain values.
pub struct TypeInfoSpec {
    pub name: Seq<char>,
    pub args: Seq<Seq<char>>,
    pub options: Seq<(Seq<char>, Seq<char>)>,
}

impl View for TypeInfo {
    type V = TypeInfoSpec;

    open spec fn view(&self) -> TypeInfoSpec {
        TypeInfoSpec {
            name: self.name@,
            args: strings_view(self.args@),
            options: options_view(self.options@),
        }
    }
}

/// The type that one comment line declares: `enum` takes its values, any
/// other type its `key=value` options.
pub open spec fn type_info_of_comment(text: Seq<char>) -> Option<TypeInfoSpec> {
    match decorator_comment_prefix(text) {
        Some(p) => match first_match(TYPE_INFO_PATTERN@, p) {
            Some(c) => Some(type_info_of_captures(c)),
            None => None,
        },
        None => None,
    }
}

pub open spec fn close_paren_pred(s: Seq<char>) -> spec_fn(int) -> bool {
    |i: int| s[i] == ')'
}

/// The text before the first `)` (all of it when there is none).
pub open spec fn before_close_paren(s: Seq<char>) -> Seq<char> {
    s.take(first_where(close_paren_pred(s), 0, s.len() as int))
}

/// `s` up to its first `)`.
pub fn text_before_close_paren(s: &str) -> (r: &str)
    ensures
        r@ == before_close_paren(s@),
{
    let v = chars_of(s);
    let mut k: usize = 0;
    proof {
        lemma_first_where(close_paren_pred(s@), 0, s@.len() as int);
    }
    while k < v.len() && v[k] != ')'
        invariant
            k <= v.len(),
            v@ == s@,
            first_where(close_paren_pred(s@), 0, s@.len() as int) == first_where(close_paren_pred(s@), k as int, s@.len() as int),
        decreases v.len() - k,
    {
        k = k + 1;
    }
    s.substring_char(0, k)
}

/// The type that a `@type=name(args)` match declares (group 1 is the name,
/// group 2 the argument list): the values of `enum` stop at the first `)`,
/// the options of any other type run to the last.
pub open spec fn type_info_of_captures(c: Seq<Option<GroupView>>) -> TypeInfoSpec {
    let name = group_text(c, 1);
    let arg = group_text(c, 2);
    if name == "enum"@ {
        TypeInfoSpec { name, args: enum_args(before_close_paren(arg)), options: Seq::empty() }
    } else {
        TypeInfoSpec { name, args: Seq::empty(), options: type_options(arg) }
    }
}

/// Going up the block from its `m`-th line: the first line that declares a
/// type (with `@type=` in its decorator comment) decides; other lines are skipped.
pub open spec fn type_info_scan(block: Seq<Seq<char>>, m: int) -> Option<TypeInfoSpec>
    decreases m,
{
    if m <= 0 || m > block.len() {
        None
    } else {
        match type_info_of_comment(trim(block[m - 1])) {
            Some(ti) => Some(ti),
            None => type_info_scan(block, m - 1),
        }
    }
}

/// The type declared for the item on line `n`: the `@type` nearest above it
/// in its comment block.
pub open spec fn type_info_spec(lines: Seq<Seq<char>>, n: int) -> Option<TypeInfoSpec> {
    let block = preceding_comment_block(lines, n);
    type_info_scan(block, block.len() as int)
}

fn type_info_of_comment_exec(text: &str) -> (r: Option<TypeInfo>)
    ensures
        r is None <==> type_info_of_comment(text@) is None,
        r matches Some(t) ==> type_info_of_comment(text@) == Some(t@),
{
    let prefix = match get_decorator_comment_prefix(text) {
        Some(p) => p,
        None => return None,
    };
    match first(TYPE_INFO_PATTERN, prefix) {
        Some(c) => Some(type_info_from_captures(&c)),
        None => None,
    }
}

/// The type that a `@type=name(args)` match declares: enum values for `enum`,
/// `key=value` options for any other type.
pub fn type_info_from_captures(c: &Vec<Option<crate::regex::Group>>) -> (r: TypeInfo)
    ensures
        r@ == type_info_of_captures(groups_view(c@)),
{
    let name = group_text_of(c, 1);
    let arg = group_text_of(c, 2);
    if crate::text::str_eq(name.as_str(), "enum") {
        let args = split_enum_args(text_before_close_paren(arg.as_str()));
        let options: Vec<TypeOption> = Vec::new();
        assert(options_view(options@) =~= Seq::<(Seq<char>, Seq<char>)>::empty());
        TypeInfo { name, args, options }
    } else {
        let options = parse_type_options(arg.as_str());
        let args: Vec<String> = Vec::new();
        assert(strings_view(args@) =~= Seq::<Seq<char>>::empty());
        TypeInfo { name, args, options }
    }
}

pub fn get_type_info_from_preceding_comments(doc: &LineDocument, line_number: usize) -> (r: Option<TypeInfo>)
    ensures
        r is None <==> type_info_spec(doc@, line_number as int) is None,
        r matches Some(t) ==> type_info_spec(doc@, line_number as int) == Some(t@),
{
    let block = get_preceding_comment_block(doc, line_number);
    let ghost bv = strings_view(block@);
    let mut m = block.len();
    while m > 0
        invariant
            m <= block.len(),
            bv == strings_view(block@),
            bv == preceding_comment_block(doc@, line_number as int),
            type_info_spec(doc@, line_number as int) == type_info_scan(bv, m as int),
        decreases m,
    {
        let t = trim_str(block[m - 1].as_str());
        assert(bv[m - 1] == block@[m - 1]@);
        if let Some(ti) = type_info_of_comment_exec(t) {
            return Some(ti);
        }
        m = m - 1;
    }
    None
}

/// The value is computed: it refers to another item (`$KEY`) or calls a resolver.
pub open spec fn is_dynamic_value_spec(value: Seq<char>) -> bool {
    pattern_found(DYNAMIC_REFERENCE_PATTERN@, value) || pattern_found(DYNAMIC_CALL_PATTERN@, value)
}

pub fn is_dynamic_value(value: &str) -> (r: bool)
    ensures
        r == is_dynamic_value_spec(value@),
{
    is_found(DYNAMIC_REFERENCE_PATTERN, value) || is_found(DYNAMIC_CALL_PATTERN, value)
}

// ---------------------------------------------------------------------------
// Decorator occurrences
// ---------------------------------------------------------------------------

/// A decorator written on a line, with its byte range.
#[derive(Debug, Clone)]
pub struct DecoratorOccurrence {
    pub name: String,
    pub line: usize,
    pub start: usize,
    pub end: usize,
    pub is_function_call: bool,
}

/// An occurrence as plain values.
pub struct OccurrenceSpec {
    pub name: Seq<char>,
    pub line: int,
    pub start: int,
    pub end: int,
    pub is_function_call: bool,
}

impl View for DecoratorOccurrence {
    type V = OccurrenceSpec;

    open spec fn view(&self) -> OccurrenceSpec {
        OccurrenceSpec {
            name: self.name@,
            line: self.line as int,
            start: self.start as int,
            end: self.end as int,
            is_function_call: self.is_function_call,
        }
    }
}

pub open spec fn occurrences_view(v: Seq<DecoratorOccurrence>) -> Seq<OccurrenceSpec> {
    v.map_values(|o: DecoratorOccurrence| o@)
}

/// The occurrence that one match describes, the prefix starting at byte
/// `offset` of line `line`: the name, the match's range shifted by `offset`,
/// and whether `(` follows the name.
pub open spec fn occurrence_of(c: Seq<Option<GroupView>>, offset: int, line: int) -> OccurrenceSpec {
    let full = group_text(c, 0);
    let name = group_text(c, 1);
    OccurrenceSpec {
        name,
        line,
        start: offset + match_start(c),
        end: offset + match_end(c),
        is_function_call: name.len() + 1 < full.len() && full[name.len() as int + 1] == '(',
    }
}

/// Byte offset where `p` first occurs in `s` (0 when it does not).
pub open spec fn found_offset(s: Seq<char>, p: Seq<char>) -> int {
    match crate::text::find_first(s, p) {
        Some(i) => byte_len(s.take(i)) as int,
        None => 0,
    }
}

/// The decorators written on a decorator comment line, in order.
pub open spec fn occurrences_spec(line_text: Seq<char>, line: int) -> Seq<OccurrenceSpec> {
    match decorator_comment_prefix(line_text) {
        Some(p) => {
            let m = all_matches(OCCURRENCE_PATTERN@, p);
            Seq::new(m.len(), |k: int| occurrence_of(m[k], found_offset(line_text, p), line))
        },
        None => Seq::empty(),
    }
}

pub proof fn lemma_found_offset_bound(s: Seq<char>, p: Seq<char>)
    ensures
        0 <= found_offset(s, p),
        found_offset(s, p) + byte_len(p) <= byte_len(s) || found_offset(s, p) == 0,
{
    match crate::text::find_first(s, p) {
        Some(i) => {
            crate::text::lemma_find_from_some(s, p, 0);
            crate::text::lemma_byte_len_concat(s.take(i), p);
            assert(s.take(i) + p =~= s.take(i + p.len()));
            crate::text::lemma_byte_len_take(s, i + p.len(), s.len() as int);
            assert(s.take(s.len() as int) =~= s);
        },
        None => {},
    }
}

/// The decorators written on `line_text` (line `line_number`), in order.
pub fn get_decorator_occurrences(line_text: &str, line_number: usize) -> (r: Vec<DecoratorOccurrence>)
    ensures
        occurrences_view(r@) == occurrences_spec(line_text@, line_number as int),
{
    let prefix = match get_decorator_comment_prefix(line_text) {
        Some(p) => p,
        None => {
            let r: Vec<DecoratorOccurrence> = Vec::new();
            assert(occurrences_view(r@) =~= Seq::<OccurrenceSpec>::empty());
            return r;
        },
    };
    let v = chars_of(line_text);
    let pv = chars_of(prefix);
    let total = crate::text::str_byte_len(line_text);
    let offset = match crate::text::find_sub(&v, &pv) {
        Some(i) => {
            proof {
                crate::text::lemma_find_from_some(v@, pv@, 0);
            }
            crate::text::byte_offset(&v, i, total)
        },
        None => 0,
    };
    proof {
        lemma_found_offset_bound(line_text@, prefix@);
    }
    assert(offset == found_offset(line_text@, prefix@));
    let m = all(OCCURRENCE_PATTERN, prefix);
    assert forall|k: int| 0 <= k < m@.len() implies (#[trigger] groups_view(m@[k]@)).len() >= 1 && groups_view(m@[k]@)[0] is Some
            && offset + match_end(groups_view(m@[k]@)) <= usize::MAX
            && 0 <= match_start(groups_view(m@[k]@)) <= match_end(groups_view(m@[k]@)) by {
        assert(well_placed(groups_view(m@[k]@), prefix@));
        let g = groups_view(m@[k]@)[0];
        assert(match g { Some(g) => 0 <= g.0 <= g.1 <= byte_len(prefix@), None => true });
    }
    let r = occurrences_from_matches(&m, offset, line_number);
    assert(occurrences_view(r@) =~= occurrences_spec(line_text@, line_number as int));
    r
}

/// The occurrences that the matches `m` of a prefix at byte `offset` describe.
pub fn occurrences_from_matches(m: &Vec<Vec<Option<crate::regex::Group>>>, offset: usize, line_number: usize) -> (r: Vec<DecoratorOccurrence>)
    requires
        forall|k: int| 0 <= k < m@.len() ==> (#[trigger] groups_view(m@[k]@)).len() >= 1 && groups_view(m@[k]@)[0] is Some
            && offset + match_end(groups_view(m@[k]@)) <= usize::MAX
            && 0 <= match_start(groups_view(m@[k]@)) <= match_end(groups_view(m@[k]@)),
    ensures
        occurrences_view(r@) == Seq::new(m@.len(), |k: int| occurrence_of(matches_view(m@)[k], offset as int, line_number as int)),
{
    let mut out: Vec<DecoratorOccurrence> = Vec::new();
    let mut k: usize = 0;
    while k < m.len()
        invariant
            k <= m.len(),
            forall|k: int| 0 <= k < m@.len() ==> (#[trigger] groups_view(m@[k]@)).len() >= 1 && groups_view(m@[k]@)[0] is Some
                && offset + match_end(groups_view(m@[k]@)) <= usize::MAX
                && 0 <= match_start(groups_view(m@[k]@)) <= match_end(groups_view(m@[k]@)),
            occurrences_view(out@) == Seq::new(k as nat, |j: int| occurrence_of(matches_view(m@)[j], offset as int, line_number as int)),
        decreases m.len() - k,
    {
        let c = &m[k];
        let ghost cv = groups_view(c@);
        assert(matches_view(m@)[k as int] == cv);
        assert(cv.len() >= 1 && cv[0] is Some);
        let full = group_text_of(c, 0);
        let name = group_text_of(c, 1);
        let (gs, ge) = match &c[0] {
            Some(g) => (g.start, g.end),
            None => (0, 0),
        };
        let fv = chars_of(full.as_str());
        let nv = chars_of(name.as_str());
        let is_call = nv.len() < fv.len() && nv.len() + 1 < fv.len() && fv[nv.len() + 1] == '(';
        let occ = DecoratorOccurrence {
            name,
            line: line_number,
            start: offset + gs,
            end: offset + ge,
            is_function_call: is_call,
        };
        assert(occ@ == occurrence_of(matches_view(m@)[k as int], offset as int, line_number as int));
        let ghost before = out@;
        out.push(occ);
        assert(occurrences_view(out@) =~= occurrences_view(before).push(occ@));
        assert(occurrences_view(out@) =~= Seq::new((k + 1) as nat, |j: int| occurrence_of(matches_view(m@)[j], offset as int, line_number as int)));
        k = k + 1;
    }
    out
}

/// The decorator prefix is a piece of its line, so it is no longer in bytes.
pub proof fn lemma_prefix_within(s: Seq<char>)
    ensures
        decorator_comment_prefix(s) matches Some(p) ==> byte_len(p) <= byte_len(s),
{
    if let Some(p) = decorator_comment_prefix(s) {
        let t = trim_start(s);
        crate::text::lemma_trim_start_suffix(s);
        let k1 = s.len() - t.len();
        assert(t.drop_first() =~= s.skip(k1 + 1));
        let a = trim_start(t.drop_first());
        crate::text::lemma_trim_start_suffix(t.drop_first());
        let k = k1 + 1 + (t.drop_first().len() - a.len());
        assert(a =~= s.skip(k));
        let cut = comment_cut(a);
        lemma_first_where(comment_start_pred(a), 0, a.len() as int);
        crate::text::lemma_trim_end_prefix(a.take(cut));
        let m = trim_end(a.take(cut)).len();
        assert(p =~= s.subrange(k, k + m));
        crate::text::lemma_byte_len_subrange(s, k, k + m);
    }
}

} // verus!
