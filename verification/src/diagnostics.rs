//! Diagnostics: decorators used twice or in conflicting pairs, and static
//! values that do not fit their declared `@type`.
use vstd::prelude::*;
use crate::catalog::{decorator_by_name, decorator_named};
use crate::parser::{DecoratorOccurrence, OccurrenceSpec, occurrences_view, LineDocument, line_of, is_in_header_spec, is_in_header, occurrences_spec, get_decorator_occurrences, strip_inline_comment_spec, strip_inline_comment, is_dynamic_value_spec, is_dynamic_value, type_info_spec, get_type_info_from_preceding_comments, unquote_spec, unquote, found_offset};
use crate::protocol::{Range, Diagnostic, DiagnosticSpec, line_range, make_line_range};
use crate::regex::{first_match, group_text, first, group_text_of};
use crate::text::{trim, trim_str, starts_with_char, starts_with_ch, chars_of, find_sub, byte_offset};
use crate::text::{concat, concat3, str_eq, string_of, str_byte_len, byte_len, parse_usize, parse_usize_spec, starts_with_str, ends_with_str, is_prefix, is_suffix, join, join_seq, strings_view};
use crate::parser::{TypeOption, TypeInfo, TypeInfoSpec, option_get, option_lookup, options_view, split_enum_args, enum_args};
use crate::regex::{captures_first, is_found, pattern_found, regex_compiles, regex_first_captures};
use crate::hosts::{url_host, lowercase, parse_url_host, to_lowercase};

verus! {

/// A diagnostic on one line, before it becomes a protocol range.
#[derive(Debug, Clone)]
pub struct CoreDiagnostic {
    pub line: usize,
    pub start: usize,
    pub end: usize,
    pub message: String,
}

pub struct CoreDiagnosticSpec {
    pub line: int,
    pub start: int,
    pub end: int,
    pub message: Seq<char>,
}

impl View for CoreDiagnostic {
    type V = CoreDiagnosticSpec;

    open spec fn view(&self) -> CoreDiagnosticSpec {
        CoreDiagnosticSpec {
            line: self.line as int,
            start: self.start as int,
            end: self.end as int,
            message: self.message@,
        }
    }
}

pub open spec fn core_view(v: Seq<CoreDiagnostic>) -> Seq<CoreDiagnosticSpec> {
    v.map_values(|d: CoreDiagnostic| d@)
}

/// A decorator that may be written more than once in a block: a function
/// decorator of the catalog, or, for an unknown name, one written as a call.
pub open spec fn repeatable(o: OccurrenceSpec) -> bool {
    match decorator_named(o.name) {
        Some(d) => d.is_function,
        None => o.is_function_call,
    }
}

/// Occurrence `k` repeats a non-repeatable decorator written earlier in the block.
pub open spec fn repeated_at(occs: Seq<OccurrenceSpec>, k: int) -> bool {
    !repeatable(occs[k]) && exists|j: int| 0 <= j < k && #[trigger] occs[j].name == occs[k].name
}

pub open spec fn once_message(name: Seq<char>) -> Seq<char> {
    "@"@ + name + " can only be used once in the same decorator block."@
}

pub open spec fn conflict_message(left: Seq<char>, right: Seq<char>) -> Seq<char> {
    "@"@ + left + " and @"@ + right + " cannot be used together."@
}

pub open spec fn diag_at(o: OccurrenceSpec, message: Seq<char>) -> CoreDiagnosticSpec {
    CoreDiagnosticSpec { line: o.line, start: o.start, end: o.end, message }
}

/// One diagnostic per repeated occurrence among the first `n`, in order.
pub open spec fn repeat_diags(occs: Seq<OccurrenceSpec>, n: int) -> Seq<CoreDiagnosticSpec>
    decreases n,
{
    if n <= 0 {
        Seq::empty()
    } else {
        repeat_diags(occs, n - 1) + if repeated_at(occs, n - 1) {
            seq![diag_at(occs[n - 1], once_message(occs[n - 1].name))]
        } else {
            Seq::empty()
        }
    }
}

pub open spec fn has_name(occs: Seq<OccurrenceSpec>, name: Seq<char>) -> bool {
    exists|j: int| 0 <= j < occs.len() && #[trigger] occs[j].name == name
}

/// Among the first `n` occurrences, those of either decorator of the pair,
/// each with the pair's message.
pub open spec fn pair_hits(occs: Seq<OccurrenceSpec>, left: Seq<char>, right: Seq<char>, n: int) -> Seq<CoreDiagnosticSpec>
    decreases n,
{
    if n <= 0 {
        Seq::empty()
    } else {
        pair_hits(occs, left, right, n - 1) + if occs[n - 1].name == left || occs[n - 1].name == right {
            seq![diag_at(occs[n - 1], conflict_message(left, right))]
        } else {
            Seq::empty()
        }
    }
}

/// When both decorators of the pair are present: every occurrence of either.
pub open spec fn pair_candidates(occs: Seq<OccurrenceSpec>, left: Seq<char>, right: Seq<char>) -> Seq<CoreDiagnosticSpec> {
    if has_name(occs, left) && has_name(occs, right) {
        pair_hits(occs, left, right, occs.len() as int)
    } else {
        Seq::empty()
    }
}

pub open spec fn same_range(a: CoreDiagnosticSpec, b: CoreDiagnosticSpec) -> bool {
    a.line == b.line && a.start == b.start && a.end == b.end
}

/// The candidates, keeping only the first one for each range.
pub open spec fn first_per_range(c: Seq<CoreDiagnosticSpec>) -> Seq<CoreDiagnosticSpec>
    decreases c.len(),
{
    if c.len() == 0 {
        Seq::empty()
    } else {
        first_per_range(c.drop_last()) + if exists|j: int| 0 <= j < c.len() - 1 && same_range(#[trigger] c[j], c.last()) {
            Seq::empty()
        } else {
            seq![c.last()]
        }
    }
}

pub open spec fn conflict_candidates(occs: Seq<OccurrenceSpec>) -> Seq<CoreDiagnosticSpec> {
    pair_candidates(occs, "required"@, "optional"@) + pair_candidates(occs, "sensitive"@, "public"@)
}

/// The diagnostics of one decorator block: repeated decorators first, then
/// each occurrence of a conflicting pair (once per range).
pub open spec fn block_diagnostics(occs: Seq<OccurrenceSpec>) -> Seq<CoreDiagnosticSpec> {
    repeat_diags(occs, occs.len() as int) + first_per_range(conflict_candidates(occs))
}

fn is_repeatable(o: &DecoratorOccurrence) -> (r: bool)
    ensures
        r == repeatable(o@),
{
    match decorator_by_name(o.name.as_str()) {
        Some(d) => d.is_function,
        None => o.is_function_call,
    }
}

fn seen_before(occurrences: &Vec<DecoratorOccurrence>, k: usize) -> (r: bool)
    requires
        k < occurrences.len(),
    ensures
        r == exists|j: int| 0 <= j < k && #[trigger] occurrences_view(occurrences@)[j].name == occurrences_view(occurrences@)[k as int].name,
{
    let ghost ov = occurrences_view(occurrences@);
    let mut j: usize = 0;
    while j < k
        invariant
            j <= k < occurrences.len(),
            ov == occurrences_view(occurrences@),
            forall|i: int| 0 <= i < j ==> #[trigger] ov[i].name != ov[k as int].name,
        decreases k - j,
    {
        if str_eq(occurrences[j].name.as_str(), occurrences[k].name.as_str()) {
            assert(ov[j as int].name == ov[k as int].name);
            return true;
        }
        j = j + 1;
    }
    false
}

fn has_name_exec(occurrences: &Vec<DecoratorOccurrence>, name: &str) -> (r: bool)
    ensures
        r == has_name(occurrences_view(occurrences@), name@),
{
    let ghost ov = occurrences_view(occurrences@);
    let mut j: usize = 0;
    while j < occurrences.len()
        invariant
            j <= occurrences.len(),
            ov == occurrences_view(occurrences@),
            forall|i: int| 0 <= i < j ==> #[trigger] ov[i].name != name@,
        decreases occurrences.len() - j,
    {
        if str_eq(occurrences[j].name.as_str(), name) {
            assert(ov[j as int].name == name@);
            return true;
        }
        j = j + 1;
    }
    false
}

fn make_diag(o: &DecoratorOccurrence, message: String) -> (r: CoreDiagnostic)
    ensures
        r@ == diag_at(o@, message@),
{
    CoreDiagnostic { line: o.line, start: o.start, end: o.end, message }
}

pub open spec fn range_key(d: CoreDiagnosticSpec) -> (int, int, int) {
    (d.line, d.start, d.end)
}

/// `reported` holds exactly the ranges of the candidates `c`.
pub open spec fn keys_of(reported: Seq<(usize, usize, usize)>, c: Seq<CoreDiagnosticSpec>) -> bool {
    forall|t: (usize, usize, usize)| #[trigger] reported.contains(t) <==> exists|j: int| 0 <= j < c.len() && range_key(#[trigger] c[j]) == (t.0 as int, t.1 as int, t.2 as int)
}

fn contains_key(reported: &Vec<(usize, usize, usize)>, key: (usize, usize, usize)) -> (r: bool)
    ensures
        r == reported@.contains(key),
{
    let mut j: usize = 0;
    while j < reported.len()
        invariant
            j <= reported.len(),
            forall|i: int| 0 <= i < j ==> reported@[i] != key,
        decreases reported.len() - j,
    {
        let t = reported[j];
        if t.0 == key.0 && t.1 == key.1 && t.2 == key.2 {
            assert(reported@[j as int] == key);
            return true;
        }
        j = j + 1;
    }
    false
}

/// Appends the diagnostics of one conflicting pair, skipping ranges already reported.
fn push_pair(
    occurrences: &Vec<DecoratorOccurrence>,
    left: &str,
    right: &str,
    out: &mut Vec<CoreDiagnostic>,
    reported: &mut Vec<(usize, usize, usize)>,
    Ghost(base): Ghost<Seq<CoreDiagnosticSpec>>,
    Ghost(prev): Ghost<Seq<CoreDiagnosticSpec>>,
)
    requires
        core_view(old(out)@) == base + first_per_range(prev),
        keys_of(old(reported)@, prev),
    ensures
        core_view(final(out)@) == base + first_per_range(prev + pair_candidates(occurrences_view(occurrences@), left@, right@)),
        keys_of(final(reported)@, prev + pair_candidates(occurrences_view(occurrences@), left@, right@)),
{
    let ghost ov = occurrences_view(occurrences@);
    if !(has_name_exec(occurrences, left) && has_name_exec(occurrences, right)) {
        assert(prev + pair_candidates(ov, left@, right@) =~= prev);
        return;
    }
    let msg = concat3("@", left, " and @");
    let message = concat3(msg.as_str(), right, " cannot be used together.");
    assert(message@ == conflict_message(left@, right@));
    let mut k: usize = 0;
    assert(prev + pair_hits(ov, left@, right@, 0) =~= prev);
    while k < occurrences.len()
        invariant
            k <= occurrences.len(),
            ov == occurrences_view(occurrences@),
            message@ == conflict_message(left@, right@),
            core_view(out@) == base + first_per_range(prev + pair_hits(ov, left@, right@, k as int)),
            keys_of(reported@, prev + pair_hits(ov, left@, right@, k as int)),
        decreases occurrences.len() - k,
    {
        let ghost c = prev + pair_hits(ov, left@, right@, k as int);
        let o = &occurrences[k];
        assert(ov[k as int] == o@);
        if str_eq(o.name.as_str(), left) || str_eq(o.name.as_str(), right) {
            let d = make_diag(o, crate::text::string_of(message.as_str()));
            let key = (o.line, o.start, o.end);
            let ghost c2 = c.push(d@);
            assert(prev + pair_hits(ov, left@, right@, k + 1) =~= c2);
            assert(c2.drop_last() =~= c);
            let seen = contains_key(reported, key);
            assert(seen == exists|j: int| 0 <= j < c2.len() - 1 && same_range(#[trigger] c2[j], c2.last())) by {
                if seen {
                    let j = choose|j: int| 0 <= j < c.len() && range_key(#[trigger] c[j]) == (key.0 as int, key.1 as int, key.2 as int);
                    assert(c2[j] == c[j]);
                    assert(same_range(c2[j], c2.last()));
                }
                if exists|j: int| 0 <= j < c2.len() - 1 && same_range(#[trigger] c2[j], c2.last()) {
                    let j = choose|j: int| 0 <= j < c2.len() - 1 && same_range(#[trigger] c2[j], c2.last());
                    assert(c2[j] == c[j]);
                    assert(range_key(c[j]) == (key.0 as int, key.1 as int, key.2 as int));
                }
            }
            if !seen {
                let ghost before_out = out@;
                let ghost before_rep = reported@;
                out.push(d);
                reported.push(key);
                assert(core_view(out@) =~= core_view(before_out).push(d@));
                assert(core_view(out@) =~= base + first_per_range(c2));
                assert forall|t: (usize, usize, usize)| #[trigger] reported@.contains(t) <==> exists|j: int| 0 <= j < c2.len() && range_key(#[trigger] c2[j]) == (t.0 as int, t.1 as int, t.2 as int) by {
                    if reported@.contains(t) {
                        let i = choose|i: int| 0 <= i < reported@.len() && reported@[i] == t;
                        if i < before_rep.len() {
                            assert(before_rep[i] == t);
                            assert(before_rep.contains(t));
                            let j = choose|j: int| 0 <= j < c.len() && range_key(#[trigger] c[j]) == (t.0 as int, t.1 as int, t.2 as int);
                            assert(c2[j] == c[j]);
                        } else {
                            assert(range_key(c2[c2.len() - 1]) == (t.0 as int, t.1 as int, t.2 as int));
                        }
                    }
                    if exists|j: int| 0 <= j < c2.len() && range_key(#[trigger] c2[j]) == (t.0 as int, t.1 as int, t.2 as int) {
                        let j = choose|j: int| 0 <= j < c2.len() && range_key(#[trigger] c2[j]) == (t.0 as int, t.1 as int, t.2 as int);
                        if j < c.len() {
                            assert(c2[j] == c[j]);
                            assert(before_rep.contains(t));
                            let i = choose|i: int| 0 <= i < before_rep.len() && before_rep[i] == t;
                            assert(reported@[i] == t);
                        } else {
                            assert(t == key);
                            assert(reported@[reported@.len() - 1] == t);
                        }
                    }
                }
            } else {
                assert(core_view(out@) =~= base + first_per_range(c2));
                assert forall|t: (usize, usize, usize)| #[trigger] reported@.contains(t) <==> exists|j: int| 0 <= j < c2.len() && range_key(#[trigger] c2[j]) == (t.0 as int, t.1 as int, t.2 as int) by {
                    if exists|j: int| 0 <= j < c2.len() && range_key(#[trigger] c2[j]) == (t.0 as int, t.1 as int, t.2 as int) {
                        let j = choose|j: int| 0 <= j < c2.len() && range_key(#[trigger] c2[j]) == (t.0 as int, t.1 as int, t.2 as int);
                        if j < c.len() {
                            assert(c2[j] == c[j]);
                        } else {
                            assert(t == key);
                        }
                    }
                    if reported@.contains(t) {
                        let j = choose|j: int| 0 <= j < c.len() && range_key(#[trigger] c[j]) == (t.0 as int, t.1 as int, t.2 as int);
                        assert(c2[j] == c[j]);
                    }
                }
            }
        } else {
            assert(prev + pair_hits(ov, left@, right@, k + 1) =~= c);
        }
        k = k + 1;
    }
}

/// The diagnostics of one decorator block.
pub fn create_decorator_diagnostics(occurrences: &Vec<DecoratorOccurrence>) -> (r: Vec<CoreDiagnostic>)
    ensures
        core_view(r@) == block_diagnostics(occurrences_view(occurrences@)),
{
    let ghost ov = occurrences_view(occurrences@);
    let mut out: Vec<CoreDiagnostic> = Vec::new();
    let mut k: usize = 0;
    assert(core_view(out@) =~= Seq::<CoreDiagnosticSpec>::empty());
    while k < occurrences.len()
        invariant
            k <= occurrences.len(),
            ov == occurrences_view(occurrences@),
            core_view(out@) == repeat_diags(ov, k as int),
        decreases occurrences.len() - k,
    {
        let o = &occurrences[k];
        assert(ov[k as int] == o@);
        if !is_repeatable(o) && seen_before(occurrences, k) {
            let message = concat3("@", o.name.as_str(), " can only be used once in the same decorator block.");
            let d = make_diag(o, message);
            let ghost before = out@;
            out.push(d);
            assert(core_view(out@) =~= core_view(before).push(d@));
        } else {
            assert(core_view(out@) =~= core_view(out@) + Seq::<CoreDiagnosticSpec>::empty());
        }
        k = k + 1;
    }
    let ghost base = core_view(out@);
    let mut reported: Vec<(usize, usize, usize)> = Vec::new();
    assert(core_view(out@) =~= base + first_per_range(Seq::<CoreDiagnosticSpec>::empty()));
    push_pair(occurrences, "required", "optional", &mut out, &mut reported, Ghost(base), Ghost(Seq::empty()));
    let ghost c1 = Seq::<CoreDiagnosticSpec>::empty() + pair_candidates(ov, "required"@, "optional"@);
    push_pair(occurrences, "sensitive", "public", &mut out, &mut reported, Ghost(base), Ghost(c1));
    assert(c1 + pair_candidates(ov, "sensitive"@, "public"@) =~= conflict_candidates(ov));
    out
}

// ---------------------------------------------------------------------------
// Static values
// ---------------------------------------------------------------------------

/// `value.parse::<usize>().unwrap_or(default)`.
pub open spec fn usize_or(s: Seq<char>, default: int) -> int {
    match parse_usize_spec(s) {
        Some(n) => n as int,
        None => default,
    }
}

pub open spec fn first_some(a: Option<Seq<char>>, b: Option<Seq<char>>) -> Option<Seq<char>> {
    if a is Some {
        a
    } else {
        b
    }
}

pub open spec fn option_is(opts: Seq<(Seq<char>, Seq<char>)>, key: Seq<char>, value: Seq<char>) -> bool {
    option_lookup(opts, key) == Some(value)
}

pub open spec fn empty_problem(value: Seq<char>, opts: Seq<(Seq<char>, Seq<char>)>) -> Option<Seq<char>> {
    if !option_is(opts, "allowEmpty"@, "true"@) && value.len() == 0 {
        Some("Value cannot be empty."@)
    } else {
        None
    }
}

pub open spec fn min_length_problem(value: Seq<char>, opts: Seq<(Seq<char>, Seq<char>)>) -> Option<Seq<char>> {
    match option_lookup(opts, "minLength"@) {
        Some(m) => if byte_len(value) < usize_or(m, 0) {
            Some("Value must be at least "@ + m + " characters long."@)
        } else {
            None
        },
        None => None,
    }
}

pub open spec fn max_length_problem(value: Seq<char>, opts: Seq<(Seq<char>, Seq<char>)>) -> Option<Seq<char>> {
    match option_lookup(opts, "maxLength"@) {
        Some(m) => if byte_len(value) > usize_or(m, usize::MAX as int) {
            Some("Value must be at most "@ + m + " characters long."@)
        } else {
            None
        },
        None => None,
    }
}

pub open spec fn is_length_problem(value: Seq<char>, opts: Seq<(Seq<char>, Seq<char>)>) -> Option<Seq<char>> {
    match option_lookup(opts, "isLength"@) {
        Some(m) => if byte_len(value) != usize_or(m, 0) {
            Some("Value must be exactly "@ + m + " characters long."@)
        } else {
            None
        },
        None => None,
    }
}

pub open spec fn starts_with_problem(value: Seq<char>, opts: Seq<(Seq<char>, Seq<char>)>) -> Option<Seq<char>> {
    match option_lookup(opts, "startsWith"@) {
        Some(p) => if !is_prefix(p, value) {
            Some("Value must start with `"@ + p + "`."@)
        } else {
            None
        },
        None => None,
    }
}

pub open spec fn ends_with_problem(value: Seq<char>, opts: Seq<(Seq<char>, Seq<char>)>) -> Option<Seq<char>> {
    match option_lookup(opts, "endsWith"@) {
        Some(p) => if !is_suffix(p, value) {
            Some("Value must end with `"@ + p + "`."@)
        } else {
            None
        },
        None => None,
    }
}

/// A `matches` pattern longer than 200 bytes, or one that does not compile,
/// is not checked.
pub open spec fn matches_problem(value: Seq<char>, opts: Seq<(Seq<char>, Seq<char>)>) -> Option<Seq<char>> {
    match option_lookup(opts, "matches"@) {
        Some(p) => if byte_len(p) <= 200 && regex_compiles(p) && regex_first_captures(p, value) is None {
            Some("Value must match `"@ + p + "`."@)
        } else {
            None
        },
        None => None,
    }
}

/// The first rule of a `string` type that `value` breaks.
pub open spec fn string_value_problem(value: Seq<char>, opts: Seq<(Seq<char>, Seq<char>)>) -> Option<Seq<char>> {
    first_some(empty_problem(value, opts),
    first_some(min_length_problem(value, opts),
    first_some(max_length_problem(value, opts),
    first_some(is_length_problem(value, opts),
    first_some(starts_with_problem(value, opts),
    first_some(ends_with_problem(value, opts),
    matches_problem(value, opts)))))))
}

fn option_is_exec(options: &Vec<TypeOption>, key: &str, value: &str) -> (r: bool)
    ensures
        r == option_is(options_view(options@), key@, value@),
{
    match option_get(options, key) {
        Some(v) => str_eq(v.as_str(), value),
        None => false,
    }
}

pub fn validate_string_value(value: &str, options: &Vec<TypeOption>) -> (r: Option<String>)
    ensures
        opt_string_view(r) == string_value_problem(value@, options_view(options@)),
{
    let ghost opts = options_view(options@);
    let vlen = str_byte_len(value);
    let allow_empty = option_is_exec(options, "allowEmpty", "true");
    if !allow_empty && value.unicode_len() == 0 {
        return Some(string_of("Value cannot be empty."));
    }
    match option_get(options, "minLength") {
        Some(m) => {
            let n = match parse_usize(m.as_str()) { Some(n) => n, None => 0 };
            if vlen < n {
                return Some(concat3("Value must be at least ", m.as_str(), " characters long."));
            }
        },
        None => {},
    }
    match option_get(options, "maxLength") {
        Some(m) => {
            let n = match parse_usize(m.as_str()) { Some(n) => n, None => usize::MAX };
            if vlen > n {
                return Some(concat3("Value must be at most ", m.as_str(), " characters long."));
            }
        },
        None => {},
    }
    match option_get(options, "isLength") {
        Some(m) => {
            let n = match parse_usize(m.as_str()) { Some(n) => n, None => 0 };
            if vlen != n {
                return Some(concat3("Value must be exactly ", m.as_str(), " characters long."));
            }
        },
        None => {},
    }
    match option_get(options, "startsWith") {
        Some(p) => {
            if !starts_with_str(value, p.as_str()) {
                return Some(concat3("Value must start with `", p.as_str(), "`."));
            }
        },
        None => {},
    }
    match option_get(options, "endsWith") {
        Some(p) => {
            if !ends_with_str(value, p.as_str()) {
                return Some(concat3("Value must end with `", p.as_str(), "`."));
            }
        },
        None => {},
    }
    match option_get(options, "matches") {
        Some(p) => {
            if str_byte_len(p.as_str()) > 200 {
                return None;
            }
            match captures_first(p.as_str(), value) {
                Some(found) => {
                    if found.is_none() {
                        return Some(concat3("Value must match `", p.as_str(), "`."));
                    }
                },
                None => {},
            }
        },
        None => {},
    }
    None
}

pub open spec fn opt_string_view(r: Option<String>) -> Option<Seq<char>> {
    match r {
        Some(s) => Some(s@),
        None => None,
    }
}

/// Some allowed domain equals the host, both lower-cased.
pub open spec fn host_allowed(allowed: Seq<Seq<char>>, host: Seq<char>) -> bool {
    exists|i: int| 0 <= i < allowed.len() && lowercase(#[trigger] allowed[i]) == lowercase(host)
}

/// The first rule of a `url` type that `value` breaks; `None` as well when
/// the URL does not parse.
pub open spec fn url_value_problem(value: Seq<char>, opts: Seq<(Seq<char>, Seq<char>)>) -> Option<Seq<char>> {
    let prepend = option_is(opts, "prependHttps"@, "true"@);
    let has_protocol = is_prefix("http://"@, value) || is_prefix("https://"@, value);
    if prepend && has_protocol {
        Some("URL should omit the protocol when prependHttps=true."@)
    } else if !prepend && !has_protocol {
        Some("URL must include a protocol unless prependHttps=true."@)
    } else {
        let url = if prepend { "https://"@ + value } else { value };
        match url_host(url) {
            None => None,
            Some(host) => match option_lookup(opts, "allowedDomains"@) {
                None => None,
                Some(ds) => {
                    let allowed = enum_args(ds);
                    let h = match host {
                        Some(h) => h,
                        None => Seq::empty(),
                    };
                    if allowed.len() > 0 && !host_allowed(allowed, h) {
                        Some("URL host must be one of: "@ + join_seq(allowed, ", "@) + "."@)
                    } else {
                        None
                    }
                },
            },
        }
    }
}

pub fn validate_url_value(value: &str, options: &Vec<TypeOption>) -> (r: Option<String>)
    ensures
        opt_string_view(r) == url_value_problem(value@, options_view(options@)),
{
    let prepend = option_is_exec(options, "prependHttps", "true");
    let has_protocol = starts_with_str(value, "http://") || starts_with_str(value, "https://");
    if prepend && has_protocol {
        return Some(string_of("URL should omit the protocol when prependHttps=true."));
    }
    if !prepend && !has_protocol {
        return Some(string_of("URL must include a protocol unless prependHttps=true."));
    }
    let url = if prepend {
        concat("https://", value)
    } else {
        string_of(value)
    };
    let host = match parse_url_host(url.as_str()) {
        Some(h) => h,
        None => return None,
    };
    let domains = match option_get(options, "allowedDomains") {
        Some(d) => d,
        None => return None,
    };
    let allowed = split_enum_args(domains.as_str());
    if allowed.len() == 0 {
        return None;
    }
    let host_text = match &host {
        Some(h) => string_of(h.as_str()),
        None => String::new(),
    };
    let host_lower = to_lowercase(host_text.as_str());
    let ghost av = strings_view(allowed@);
    let mut k: usize = 0;
    while k < allowed.len()
        invariant
            k <= allowed.len(),
            av == strings_view(allowed@),
            host_lower@ == lowercase(host_text@),
            forall|j: int| 0 <= j < k ==> lowercase(#[trigger] av[j]) != lowercase(host_text@),
            url_value_problem(value@, options_view(options@)) == (if host_allowed(av, host_text@) {
                None
            } else {
                Some("URL host must be one of: "@ + join_seq(av, ", "@) + "."@)
            }),
        decreases allowed.len() - k,
    {
        let d = to_lowercase(allowed[k].as_str());
        assert(av[k as int] == allowed@[k as int]@);
        if str_eq(d.as_str(), host_lower.as_str()) {
            assert(lowercase(av[k as int]) == lowercase(host_text@));
            assert(host_allowed(av, host_text@));
            return None;
        }
        k = k + 1;
    }
    let list = join(&allowed, ", ");
    Some(concat3("URL host must be one of: ", list.as_str(), "."))
}

pub const BOOLEAN_PATTERN: &'static str = r"(?i)^(true|false|1|0|yes|no|on|off)$";
pub const EMAIL_PATTERN: &'static str = r"^[^\s@]+@[^\s@]+\.[^\s@]+$";
pub const SEMVER_PATTERN: &'static str = r"^\d+\.\d+\.\d+(?:-[0-9A-Za-z.\-]+)?(?:\+[0-9A-Za-z.\-]+)?$";
pub const ISO_DATE_PATTERN: &'static str = r"^\d{4}-\d{2}-\d{2}(?:[T ][0-9:.+\-Z]*)?$";
pub const UUID_PATTERN: &'static str = r"(?i)^[0-9a-f]{8}-[0-9a-f]{4}-[1-8][0-9a-f]{3}-[89ab][0-9a-f]{3}-[0-9a-f]{12}$";
pub const MD5_PATTERN: &'static str = r"(?i)^[0-9a-f]{32}$";

/// How a static value fares against its type. Numbers, ports and IP
/// addresses are finished by the caller (they need floating-point parsing
/// and the standard network address parsers).
#[derive(Debug, Clone)]
pub enum ValueCheck {
    Valid,
    Invalid(String),
    NeedsNumber,
    NeedsPort,
    NeedsIp,
}

pub enum ValueCheckSpec {
    Valid,
    Invalid(Seq<char>),
    NeedsNumber,
    NeedsPort,
    NeedsIp,
}

impl View for ValueCheck {
    type V = ValueCheckSpec;

    open spec fn view(&self) -> ValueCheckSpec {
        match self {
            ValueCheck::Valid => ValueCheckSpec::Valid,
            ValueCheck::Invalid(m) => ValueCheckSpec::Invalid(m@),
            ValueCheck::NeedsNumber => ValueCheckSpec::NeedsNumber,
            ValueCheck::NeedsPort => ValueCheckSpec::NeedsPort,
            ValueCheck::NeedsIp => ValueCheckSpec::NeedsIp,
        }
    }
}

pub open spec fn from_problem(p: Option<Seq<char>>) -> ValueCheckSpec {
    match p {
        Some(m) => ValueCheckSpec::Invalid(m),
        None => ValueCheckSpec::Valid,
    }
}

pub open spec fn pattern_check(pattern: Seq<char>, value: Seq<char>, message: Seq<char>) -> ValueCheckSpec {
    if pattern_found(pattern, value) {
        ValueCheckSpec::Valid
    } else {
        ValueCheckSpec::Invalid(message)
    }
}

/// What the declared type says of a static value.
pub open spec fn static_check(ti: TypeInfoSpec, value: Seq<char>) -> ValueCheckSpec {
    let n = ti.name;
    if n == "string"@ {
        from_problem(string_value_problem(value, ti.options))
    } else if n == "number"@ {
        ValueCheckSpec::NeedsNumber
    } else if n == "boolean"@ {
        pattern_check(BOOLEAN_PATTERN@, value, "Value must be a boolean."@)
    } else if n == "email"@ {
        pattern_check(EMAIL_PATTERN@, value, "Value must be a valid email address."@)
    } else if n == "url"@ {
        from_problem(url_value_problem(value, ti.options))
    } else if n == "ip"@ {
        ValueCheckSpec::NeedsIp
    } else if n == "port"@ {
        ValueCheckSpec::NeedsPort
    } else if n == "semver"@ {
        pattern_check(SEMVER_PATTERN@, value, "Value must be a valid semantic version."@)
    } else if n == "isoDate"@ {
        pattern_check(ISO_DATE_PATTERN@, value, "Value must be a valid ISO date."@)
    } else if n == "uuid"@ {
        pattern_check(UUID_PATTERN@, value, "Value must be a valid UUID."@)
    } else if n == "md5"@ {
        pattern_check(MD5_PATTERN@, value, "Value must be a valid MD5 hash."@)
    } else if n == "enum"@ {
        if ti.args.contains(value) {
            ValueCheckSpec::Valid
        } else {
            ValueCheckSpec::Invalid("Value must be one of: "@ + join_seq(ti.args, ", "@) + "."@)
        }
    } else {
        ValueCheckSpec::Valid
    }
}

fn check_problem(p: Option<String>) -> (r: ValueCheck)
    ensures
        r@ == from_problem(opt_string_view(p)),
{
    match p {
        Some(m) => ValueCheck::Invalid(m),
        None => ValueCheck::Valid,
    }
}

fn check_pattern(pattern: &str, value: &str, message: &str) -> (r: ValueCheck)
    ensures
        r@ == pattern_check(pattern@, value@, message@),
{
    if is_found(pattern, value) {
        ValueCheck::Valid
    } else {
        ValueCheck::Invalid(string_of(message))
    }
}

pub fn validate_static_value(type_info: &TypeInfo, value: &str) -> (r: ValueCheck)
    ensures
        r@ == static_check(type_info@, value@),
{
    let n = type_info.name.as_str();
    if str_eq(n, "string") {
        check_problem(validate_string_value(value, &type_info.options))
    } else if str_eq(n, "number") {
        ValueCheck::NeedsNumber
    } else if str_eq(n, "boolean") {
        check_pattern(BOOLEAN_PATTERN, value, "Value must be a boolean.")
    } else if str_eq(n, "email") {
        check_pattern(EMAIL_PATTERN, value, "Value must be a valid email address.")
    } else if str_eq(n, "url") {
        check_problem(validate_url_value(value, &type_info.options))
    } else if str_eq(n, "ip") {
        ValueCheck::NeedsIp
    } else if str_eq(n, "port") {
        ValueCheck::NeedsPort
    } else if str_eq(n, "semver") {
        check_pattern(SEMVER_PATTERN, value, "Value must be a valid semantic version.")
    } else if str_eq(n, "isoDate") {
        check_pattern(ISO_DATE_PATTERN, value, "Value must be a valid ISO date.")
    } else if str_eq(n, "uuid") {
        check_pattern(UUID_PATTERN, value, "Value must be a valid UUID.")
    } else if str_eq(n, "md5") {
        check_pattern(MD5_PATTERN, value, "Value must be a valid MD5 hash.")
    } else if str_eq(n, "enum") {
        if crate::text::contains_str(&type_info.args, value) {
            ValueCheck::Valid
        } else {
            let list = join(&type_info.args, ", ");
            ValueCheck::Invalid(concat3("Value must be one of: ", list.as_str(), "."))
        }
    } else {
        ValueCheck::Valid
    }
}

/// The verdict on an IP address whose detected version is `detected`
/// (4, 6, or 0 when it is neither): a `version` option of 4 or 6 must match.
pub open spec fn ip_problem(opts: Seq<(Seq<char>, Seq<char>)>, detected: int) -> Option<Seq<char>> {
    if detected == 0 {
        Some("Value must be a valid IPv4 or IPv6 address."@)
    } else {
        match option_lookup(opts, "version"@) {
            Some(v) => if parse_usize_spec(v) == Some(4usize) && detected != 4 {
                Some("Value must be a valid IPv4 address."@)
            } else if parse_usize_spec(v) == Some(6usize) && detected != 6 {
                Some("Value must be a valid IPv6 address."@)
            } else {
                None
            },
            None => None,
        }
    }
}

/// Finishes the check of an `ip` value once its version is known.
pub fn validate_ip_version(options: &Vec<TypeOption>, detected: u8) -> (r: Option<String>)
    ensures
        opt_string_view(r) == ip_problem(options_view(options@), detected as int),
{
    if detected == 0 {
        return Some(string_of("Value must be a valid IPv4 or IPv6 address."));
    }
    match option_get(options, "version") {
        Some(v) => {
            let parsed = parse_usize(v.as_str());
            if parsed == Some(4usize) && detected != 4 {
                Some(string_of("Value must be a valid IPv4 address."))
            } else if parsed == Some(6usize) && detected != 6 {
                Some(string_of("Value must be a valid IPv6 address."))
            } else {
                None
            }
        },
        None => None,
    }
}

// ---------------------------------------------------------------------------
// Whole documents
// ---------------------------------------------------------------------------

/// An assignment `KEY = value`, capturing the value without surrounding whitespace.
pub const ENV_ASSIGNMENT_PATTERN: &'static str = r"^\s*([A-Za-z_][A-Za-z0-9_]*)\s*=\s*(.*?)\s*$";

/// Which check of a value is left to the caller.
#[derive(Clone, Copy, Debug, PartialEq, Eq, Structural)]
pub enum PendingKind {
    Number,
    Port,
    Ip,
}

/// A value whose check needs number parsing or an address parser.
#[derive(Debug, Clone)]
pub struct PendingCheck {
    pub range: Range,
    pub value: String,
    pub kind: PendingKind,
    pub options: Vec<TypeOption>,
}

/// A diagnostic of a document, or a check still to be finished.
#[derive(Debug, Clone)]
pub enum DocumentDiagnostic {
    Ready(Diagnostic),
    Pending(PendingCheck),
}

pub enum DocumentDiagnosticSpec {
    Ready(DiagnosticSpec),
    Pending { range: Range, value: Seq<char>, kind: PendingKind, options: Seq<(Seq<char>, Seq<char>)> },
}

impl View for DocumentDiagnostic {
    type V = DocumentDiagnosticSpec;

    open spec fn view(&self) -> DocumentDiagnosticSpec {
        match self {
            DocumentDiagnostic::Ready(d) => DocumentDiagnosticSpec::Ready(d@),
            DocumentDiagnostic::Pending(p) => DocumentDiagnosticSpec::Pending {
                range: p.range,
                value: p.value@,
                kind: p.kind,
                options: options_view(p.options@),
            },
        }
    }
}

pub open spec fn doc_diags_view(v: Seq<DocumentDiagnostic>) -> Seq<DocumentDiagnosticSpec> {
    v.map_values(|d: DocumentDiagnostic| d@)
}

/// A block diagnostic as a protocol diagnostic.
pub open spec fn ready_of(d: CoreDiagnosticSpec) -> DocumentDiagnosticSpec {
    DocumentDiagnosticSpec::Ready(DiagnosticSpec { range: line_range(d.line, d.start, d.end), message: d.message })
}

/// The diagnostics that closing a decorator block reports.
pub open spec fn flush_spec(block: Seq<OccurrenceSpec>) -> Seq<DocumentDiagnosticSpec> {
    block_diagnostics(block).map_values(|d: CoreDiagnosticSpec| ready_of(d))
}

/// The scanner's state between lines.
pub struct DocState {
    pub header: Seq<OccurrenceSpec>,
    pub items: Seq<OccurrenceSpec>,
    pub seen_item: bool,
    pub out: Seq<DocumentDiagnosticSpec>,
}

/// The value diagnostic for line `n`, whose assignment matched with captures `c`.
pub open spec fn value_entry(lines: Seq<Seq<char>>, n: int, c: Seq<Option<crate::regex::GroupView>>) -> Option<DocumentDiagnosticSpec> {
    let text = line_of(lines, n);
    let raw = strip_inline_comment_spec(group_text(c, 2));
    if raw.len() == 0 || is_dynamic_value_spec(raw) {
        None
    } else {
        match type_info_spec(lines, n) {
            None => None,
            Some(ti) => {
                let v = unquote_spec(raw);
                let start = found_offset(text, raw);
                let range = line_range(n, start, start + byte_len(raw));
                match static_check(ti, v) {
                    ValueCheckSpec::Valid => None,
                    ValueCheckSpec::Invalid(m) => Some(DocumentDiagnosticSpec::Ready(DiagnosticSpec { range, message: m })),
                    ValueCheckSpec::NeedsNumber => Some(DocumentDiagnosticSpec::Pending { range, value: v, kind: PendingKind::Number, options: ti.options }),
                    ValueCheckSpec::NeedsPort => Some(DocumentDiagnosticSpec::Pending { range, value: v, kind: PendingKind::Port, options: ti.options }),
                    ValueCheckSpec::NeedsIp => Some(DocumentDiagnosticSpec::Pending { range, value: v, kind: PendingKind::Ip, options: ti.options }),
                }
            },
        }
    }
}

/// Line `n` as a comment (its decorators join the header or the item block),
/// a leading blank line (skipped entirely), or anything else (both blocks close).
/// The flag says whether the rest of the line is skipped.
pub open spec fn comment_step(lines: Seq<Seq<char>>, s: DocState, n: int) -> (DocState, bool) {
    let text = line_of(lines, n);
    let t = trim(text);
    if starts_with_char(t, '#') {
        let occs = occurrences_spec(text, n);
        if !s.seen_item && is_in_header_spec(lines, n) {
            (DocState { header: s.header + occs, ..s }, false)
        } else {
            (DocState { items: s.items + occs, ..s }, false)
        }
    } else if t.len() == 0 && !s.seen_item {
        (s, true)
    } else {
        (DocState { header: Seq::empty(), items: Seq::empty(), out: s.out + flush_spec(s.header) + flush_spec(s.items), ..s }, false)
    }
}

/// One line of the scan: the comment step, then, for an assignment, its value check.
pub open spec fn doc_step(lines: Seq<Seq<char>>, s: DocState, n: int) -> DocState {
    let (s1, skip) = comment_step(lines, s, n);
    if skip {
        s1
    } else {
        match first_match(ENV_ASSIGNMENT_PATTERN@, line_of(lines, n)) {
            None => s1,
            Some(c) => match value_entry(lines, n, c) {
                Some(e) => DocState { seen_item: true, out: s1.out.push(e), ..s1 },
                None => DocState { seen_item: true, ..s1 },
            },
        }
    }
}

/// The state after the first `n` lines.
pub open spec fn doc_state(lines: Seq<Seq<char>>, n: int) -> DocState
    decreases n,
{
    if n <= 0 {
        DocState { header: Seq::empty(), items: Seq::empty(), seen_item: false, out: Seq::empty() }
    } else {
        doc_step(lines, doc_state(lines, n - 1), n - 1)
    }
}

/// Every diagnostic of the document, in the order they arise; blocks still
/// open at the end close last.
pub open spec fn document_diagnostics(lines: Seq<Seq<char>>) -> Seq<DocumentDiagnosticSpec> {
    let s = doc_state(lines, lines.len() as int);
    s.out + flush_spec(s.header) + flush_spec(s.items)
}

pub fn to_range(diag: &CoreDiagnostic) -> (r: Range)
    ensures
        r == line_range(diag.line as int, diag.start as int, diag.end as int),
{
    make_line_range(diag.line, diag.start, diag.end)
}

fn flush_decorator_block(block: &mut Vec<DecoratorOccurrence>, diagnostics: &mut Vec<DocumentDiagnostic>)
    ensures
        final(block)@.len() == 0,
        doc_diags_view(final(diagnostics)@) == doc_diags_view(old(diagnostics)@) + flush_spec(occurrences_view(old(block)@)),
{
    if block.len() == 0 {
        assert(occurrences_view(block@) =~= Seq::<OccurrenceSpec>::empty());
        assert(repeat_diags(Seq::<OccurrenceSpec>::empty(), 0) =~= Seq::<CoreDiagnosticSpec>::empty());
        assert(conflict_candidates(Seq::<OccurrenceSpec>::empty()) =~= Seq::<CoreDiagnosticSpec>::empty());
        assert(flush_spec(occurrences_view(block@)) =~= Seq::<DocumentDiagnosticSpec>::empty());
        assert(doc_diags_view(diagnostics@) =~= doc_diags_view(diagnostics@) + Seq::<DocumentDiagnosticSpec>::empty());
        return;
    }
    let core = create_decorator_diagnostics(block);
    let ghost cv = core_view(core@);
    let ghost start = doc_diags_view(diagnostics@);
    let mut k: usize = 0;
    while k < core.len()
        invariant
            k <= core.len(),
            cv == core_view(core@),
            doc_diags_view(diagnostics@) == start + cv.take(k as int).map_values(|d: CoreDiagnosticSpec| ready_of(d)),
        decreases core.len() - k,
    {
        let cd = &core[k];
        let d = DocumentDiagnostic::Ready(Diagnostic { range: to_range(cd), message: string_of(cd.message.as_str()) });
        assert(cv[k as int] == cd@);
        let ghost before = diagnostics@;
        diagnostics.push(d);
        assert(doc_diags_view(diagnostics@) =~= doc_diags_view(before).push(d@));
        assert(cv.take(k + 1).map_values(|d: CoreDiagnosticSpec| ready_of(d)) =~= cv.take(k as int).map_values(|d: CoreDiagnosticSpec| ready_of(d)).push(ready_of(cv[k as int])));
        k = k + 1;
    }
    assert(cv.take(core@.len() as int) =~= cv);
    block.clear();
}

/// The value check of assignment line `n`, whose match has the captures `c`
/// (group 2 is the value): `None` when there is nothing to report.
pub fn value_diagnostic(doc: &LineDocument, n: usize, c: &Vec<Option<crate::regex::Group>>) -> (r: Option<DocumentDiagnostic>)
    ensures
        r is None <==> value_entry(doc@, n as int, crate::regex::groups_view(c@)) is None,
        r matches Some(e) ==> value_entry(doc@, n as int, crate::regex::groups_view(c@)) == Some(e@),
{
    let line_text = doc.line_at(n);
    let g = group_text_of(c, 2);
    let raw = strip_inline_comment(g.as_str());
    if raw.unicode_len() == 0 || is_dynamic_value(raw) {
        return None;
    }
    let ti = match get_type_info_from_preceding_comments(doc, n) {
        Some(t) => t,
        None => return None,
    };
    let unq = unquote(raw);
    let check = validate_static_value(&ti, unq);
    let v = chars_of(line_text);
    let rv = chars_of(raw);
    let total = str_byte_len(line_text);
    let raw_len = str_byte_len(raw);
    let start = match find_sub(&v, &rv) {
        Some(i) => {
            proof {
                crate::text::lemma_find_from_some(v@, rv@, 0);
                crate::text::lemma_byte_len_take(v@, i as int, v@.len() as int);
                assert(v@.take(v@.len() as int) =~= v@);
            }
            byte_offset(&v, i, total)
        },
        None => 0,
    };
    proof {
        crate::parser::lemma_found_offset_bound(line_text@, raw@);
    }
    assert(start == found_offset(line_text@, raw@));
    let end = start + raw_len;
    let range = make_line_range(n, start, end);
    let entry = match check {
        ValueCheck::Valid => None,
        ValueCheck::Invalid(m) => Some(DocumentDiagnostic::Ready(Diagnostic { range, message: m })),
        ValueCheck::NeedsNumber => Some(DocumentDiagnostic::Pending(PendingCheck { range, value: string_of(unq), kind: PendingKind::Number, options: ti.options })),
        ValueCheck::NeedsPort => Some(DocumentDiagnostic::Pending(PendingCheck { range, value: string_of(unq), kind: PendingKind::Port, options: ti.options })),
        ValueCheck::NeedsIp => Some(DocumentDiagnostic::Pending(PendingCheck { range, value: string_of(unq), kind: PendingKind::Ip, options: ti.options })),
    };
    entry
}

/// Checks decorator blocks and static values of a whole document.
pub fn validate_document(doc: &LineDocument) -> (r: Vec<DocumentDiagnostic>)
    ensures
        doc_diags_view(r@) == document_diagnostics(doc@),
{
    let mut diagnostics: Vec<DocumentDiagnostic> = Vec::new();
    let mut header_block: Vec<DecoratorOccurrence> = Vec::new();
    let mut decorator_block: Vec<DecoratorOccurrence> = Vec::new();
    let mut seen = false;
    let count = doc.line_count();
    let mut n: usize = 0;
    assert(doc_diags_view(diagnostics@) =~= Seq::<DocumentDiagnosticSpec>::empty());
    assert(occurrences_view(header_block@) =~= Seq::<OccurrenceSpec>::empty());
    assert(occurrences_view(decorator_block@) =~= Seq::<OccurrenceSpec>::empty());
    while n < count
        invariant
            n <= count,
            count == doc@.len(),
            doc_state(doc@, n as int) == (DocState {
                header: occurrences_view(header_block@),
                items: occurrences_view(decorator_block@),
                seen_item: seen,
                out: doc_diags_view(diagnostics@),
            }),
        decreases count - n,
    {
        let ghost s0 = doc_state(doc@, n as int);
        let line_text = doc.line_at(n);
        let trimmed = trim_str(line_text);
        let mut skip = false;
        if starts_with_ch(trimmed, '#') {
            let in_header = !seen && is_in_header(doc, n);
            let mut occs = get_decorator_occurrences(line_text, n);
            if in_header {
                let ghost before = header_block@;
                header_block.append(&mut occs);
                assert(occurrences_view(header_block@) =~= occurrences_view(before) + occurrences_spec(line_text@, n as int));
            } else {
                let ghost before = decorator_block@;
                decorator_block.append(&mut occs);
                assert(occurrences_view(decorator_block@) =~= occurrences_view(before) + occurrences_spec(line_text@, n as int));
            }
        } else if trimmed.unicode_len() == 0 && !seen {
            skip = true;
        } else {
            flush_decorator_block(&mut header_block, &mut diagnostics);
            flush_decorator_block(&mut decorator_block, &mut diagnostics);
            assert(occurrences_view(header_block@) =~= Seq::<OccurrenceSpec>::empty());
            assert(occurrences_view(decorator_block@) =~= Seq::<OccurrenceSpec>::empty());
        }
        let ghost s1 = DocState {
            header: occurrences_view(header_block@),
            items: occurrences_view(decorator_block@),
            seen_item: seen,
            out: doc_diags_view(diagnostics@),
        };
        assert(comment_step(doc@, s0, n as int) == (s1, skip));
        if !skip {
            match first(ENV_ASSIGNMENT_PATTERN, line_text) {
                Some(c) => {
                    seen = true;
                    if let Some(e) = value_diagnostic(doc, n, &c) {
                        let ghost before = doc_diags_view(diagnostics@);
                        diagnostics.push(e);
                        assert(doc_diags_view(diagnostics@) =~= before.push(e@));
                    }
                    assert(doc_step(doc@, s0, n as int) == (DocState {
                        header: occurrences_view(header_block@),
                        items: occurrences_view(decorator_block@),
                        seen_item: seen,
                        out: doc_diags_view(diagnostics@),
                    }));
                },
                None => {
                    assert(doc_step(doc@, s0, n as int) == s1);
                },
            }
        } else {
            assert(doc_step(doc@, s0, n as int) == s1);
        }
        assert(doc_state(doc@, n + 1) == doc_step(doc@, s0, n as int));
        n = n + 1;
    }
    flush_decorator_block(&mut header_block, &mut diagnostics);
    flush_decorator_block(&mut decorator_block, &mut diagnostics);
    diagnostics
}

} // verus!
