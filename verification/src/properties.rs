//! Properties of the library as a whole: what its operations keep, and how
//! they relate to one another.
use vstd::prelude::*;
use crate::text::{trim, trim_start, trim_end, is_space, is_prefix, starts_with_char, byte_len, lemma_trim_end_prefix};
use crate::scan::{first_where, lemma_first_where, lemma_down_while};
use crate::protocol::{Position, Range, CompletionItemSpec};
use crate::regex::{GroupView, match_start, match_end, well_placed, group_text};
use crate::order::{seq_lt, strictly_sorted, lemma_sorted_insert, lemma_lt_transitive};
use crate::catalog::{DecoratorInfo, ResolverInfo, spec_all_decorators, last_named, decorator_named, spec_resolvers};
use crate::parser::{
    line_end, split_lines, strip_cr, quote_before, comment_start_pred, comment_cut,
    strip_inline_comment_spec, decorator_comment_prefix, nonempty_trim, pieces_before, piece_start,
    comma_args, is_split_at, enum_arg, enum_args_of, enum_args, decorator_available,
    available_decorators, option_lookup, OccurrenceSpec, unquote_spec, line_of, comment_block_start,
    preceding_comment_block, is_comment_line_pred, type_info_spec, split_state, occurrences_spec,
    is_in_header_spec, is_config_item_spec, existing_name, line_has_name, name_lines,
    trimmed_config_item_pred,
};
use crate::diagnostics::{
    CoreDiagnosticSpec, repeatable, repeated_at, once_message, conflict_message, diag_at, repeat_diags,
    has_name, pair_hits, pair_candidates, same_range, first_per_range, conflict_candidates,
    block_diagnostics, doc_state, flush_spec, document_diagnostics, DocumentDiagnosticSpec, doc_step,
    comment_step, value_entry, ready_of, string_value_problem, starts_with_problem,
};
use crate::completion::{
    completions_spec, cursor_range, group_range, decorator_value_items, keyword_items, resolver_items,
    decorator_value_context, line_key, is_reference_key, reference_keys, select_resolvers,
    keyword_item, resolver_item,
};
use crate::hover::{hovered_match, word_hover, hover_text};

verus! {

// ---------------------------------------------------------------------------
// Lines
// ---------------------------------------------------------------------------

proof fn lemma_line_end_facts(s: Seq<char>)
    ensures
        line_end(s) <= s.len(),
        forall|j: int| 0 <= j < line_end(s) ==> s[j] != '\n',
        line_end(s) < s.len() ==> s[line_end(s) as int] == '\n',
    decreases s.len(),
{
    if s.len() > 0 && s[0] != '\n' {
        lemma_line_end_facts(s.drop_first());
        assert forall|j: int| 0 <= j < line_end(s) implies s[j] != '\n' by {
            if j > 0 {
                assert(s[j] == s.drop_first()[j - 1]);
            }
        }
    }
}

/// No line of a document holds a line break: `LineDocument::new` splits the
/// text at every `\n`.
pub proof fn lines_hold_no_line_break(text: Seq<char>)
    ensures
        forall|i: int| 0 <= i < split_lines(text).len() ==> !(#[trigger] split_lines(text)[i]).contains('\n'),
    decreases text.len(),
{
    if text.len() > 0 {
        let k = line_end(text);
        lemma_line_end_facts(text);
        if k >= text.len() {
            assert forall|i: int| 0 <= i < split_lines(text).len() implies !(#[trigger] split_lines(text)[i]).contains('\n') by {
                assert(split_lines(text)[i] == text);
            }
        } else {
            let rest = text.skip(k as int + 1);
            lines_hold_no_line_break(rest);
            let first = strip_cr(text.take(k as int));
            assert(split_lines(text) == seq![first] + split_lines(rest));
            assert(!first.contains('\n')) by {
                if first.contains('\n') {
                    let j = choose|j: int| 0 <= j < first.len() && first[j] == '\n';
                    assert(first[j] == text[j]);
                }
            }
            assert forall|i: int| 0 <= i < split_lines(text).len() implies !(#[trigger] split_lines(text)[i]).contains('\n') by {
                if i > 0 {
                    assert(split_lines(text)[i] == split_lines(rest)[i - 1]);
                }
            }
        }
    }
}

/// The lines, each followed by a line break.
pub open spec fn with_line_breaks(lines: Seq<Seq<char>>) -> Seq<char>
    decreases lines.len(),
{
    if lines.len() == 0 {
        Seq::empty()
    } else {
        lines[0] + seq!['\n'] + with_line_breaks(lines.drop_first())
    }
}

/// For a text without `\r`, the lines followed by line breaks give back the
/// text (with a final line break added when it has none): the text is split
/// at every `\n`, and a final `\n` opens no extra empty line.
pub proof fn lines_rejoin_to_the_text(text: Seq<char>)
    requires
        !text.contains('\r'),
    ensures
        with_line_breaks(split_lines(text)) == if text.len() == 0 || text.last() == '\n' {
            text
        } else {
            text.push('\n')
        },
    decreases text.len(),
{
    if text.len() > 0 {
        let k = line_end(text);
        lemma_line_end_facts(text);
        if k >= text.len() {
            assert(split_lines(text) == seq![text]);
            assert(seq![text].drop_first() =~= Seq::<Seq<char>>::empty());
            assert(with_line_breaks(seq![text]) == text + seq!['\n'] + with_line_breaks(Seq::<Seq<char>>::empty()));
            assert(text[text.len() - 1] != '\n');
            assert(text + seq!['\n'] + Seq::<char>::empty() =~= text.push('\n'));
        } else {
            let rest = text.skip(k as int + 1);
            let first = text.take(k as int);
            if k > 0 {
                assert(first.last() == text[k - 1]);
                assert(text[k - 1] != '\r');
            }
            assert(strip_cr(first) == first);
            assert(split_lines(text) == seq![first] + split_lines(rest));
            assert((seq![first] + split_lines(rest))[0] == first);
            assert((seq![first] + split_lines(rest)).drop_first() =~= split_lines(rest));
            assert(!rest.contains('\r')) by {
                if rest.contains('\r') {
                    let j = choose|j: int| 0 <= j < rest.len() && rest[j] == '\r';
                    assert(text[k + 1 + j] == '\r');
                }
            }
            lines_hold_no_line_break(rest);
            lines_rejoin_to_the_text(rest);
            assert(first + seq!['\n'] + rest =~= text);
            let l = seq![first] + split_lines(rest);
            assert(with_line_breaks(l) == l[0] + seq!['\n'] + with_line_breaks(l.drop_first()));
            assert(with_line_breaks(split_lines(text)) == first + seq!['\n'] + with_line_breaks(split_lines(rest)));
            if rest.len() == 0 {
                assert(split_lines(rest) =~= Seq::<Seq<char>>::empty());
                assert(with_line_breaks(split_lines(rest)) == Seq::<char>::empty());
                assert(first + seq!['\n'] + Seq::<char>::empty() =~= text);
                assert(k == text.len() - 1);
                assert(text.last() == text[k as int]);
            } else {
                assert(rest.last() == text.last());
                assert(first + seq!['\n'] + rest.push('\n') =~= text.push('\n'));
            }
        }
    }
}

// ---------------------------------------------------------------------------
// Inline comments
// ---------------------------------------------------------------------------

proof fn lemma_quote_before_prefix(p: Seq<char>, s: Seq<char>, i: int)
    requires
        is_prefix(p, s),
        i <= p.len(),
    ensures
        quote_before(p, i) == quote_before(s, i),
    decreases i,
{
    if i > 0 {
        lemma_quote_before_prefix(p, s, i - 1);
        assert(p[i - 1] == s.subrange(0, p.len() as int)[i - 1]);
    }
}

proof fn lemma_trim_end_idempotent(s: Seq<char>)
    ensures
        trim_end(trim_end(s)) == trim_end(s),
        trim_end(s).len() == 0 || !is_space(trim_end(s).last()),
    decreases s.len(),
{
    if s.len() > 0 && is_space(s.last()) {
        lemma_trim_end_idempotent(s.drop_last());
    }
}

proof fn lemma_strip_prefix(s: Seq<char>)
    ensures
        0 <= comment_cut(s) <= s.len(),
        is_prefix(strip_inline_comment_spec(s), s),
        strip_inline_comment_spec(s).len() <= comment_cut(s),
{
    lemma_first_where(comment_start_pred(s), 0, s.len() as int);
    let c = comment_cut(s);
    lemma_trim_end_prefix(s.take(c));
    let r = strip_inline_comment_spec(s);
    assert(s.subrange(0, r.len() as int) =~= s.take(c).take(r.len() as int));
}

/// Stripping an inline comment keeps a prefix of the text with no trailing
/// whitespace, and stripping again changes nothing.
pub proof fn strip_inline_comment_is_idempotent(s: Seq<char>)
    ensures
        is_prefix(strip_inline_comment_spec(s), s),
        strip_inline_comment_spec(s).len() == 0 || !is_space(strip_inline_comment_spec(s).last()),
        strip_inline_comment_spec(strip_inline_comment_spec(s)) == strip_inline_comment_spec(s),
{
    lemma_strip_prefix(s);
    let c = comment_cut(s);
    let r = strip_inline_comment_spec(s);
    lemma_trim_end_idempotent(s.take(c));
    lemma_first_where(comment_start_pred(s), 0, s.len() as int);
    lemma_first_where(comment_start_pred(r), 0, r.len() as int);
    assert forall|i: int| 0 <= i < r.len() implies !#[trigger] comment_start_pred(r)(i) by {
        lemma_quote_before_prefix(r, s, i);
        assert(r[i] == s.subrange(0, r.len() as int)[i]);
        if i > 0 {
            assert(r[i - 1] == s.subrange(0, r.len() as int)[i - 1]);
        }
        assert(!comment_start_pred(s)(i));
    }
    if comment_cut(r) < r.len() {
        assert(comment_start_pred(r)(comment_cut(r)));
    }
    assert(r.take(comment_cut(r)) =~= r);
}

/// A decorator comment's prefix is never empty and starts with `@`.
pub proof fn decorator_prefix_starts_with_at(s: Seq<char>)
    ensures
        decorator_comment_prefix(s) matches Some(p) ==> starts_with_char(p, '@'),
{
    if let Some(p) = decorator_comment_prefix(s) {
        let a = trim_start(trim_start(s).drop_first());
        assert(starts_with_char(a, '@'));
        lemma_first_where(comment_start_pred(a), 0, a.len() as int);
        assert(!comment_start_pred(a)(0));
        let c = comment_cut(a);
        assert(c >= 1);
        lemma_trim_end_keeps(a.take(c), 0);
        lemma_trim_end_prefix(a.take(c));
        assert(p[0] == a.take(c)[0]);
    }
}

proof fn lemma_trim_end_keeps(s: Seq<char>, j: int)
    requires
        0 <= j < s.len(),
        !is_space(s[j]),
    ensures
        trim_end(s).len() > j,
    decreases s.len(),
{
    if is_space(s.last()) {
        lemma_trim_end_keeps(s.drop_last(), j);
    }
}

// ---------------------------------------------------------------------------
// Argument lists
// ---------------------------------------------------------------------------

proof fn lemma_trim_start_first(s: Seq<char>)
    ensures
        trim_start(s).len() == 0 || !is_space(trim_start(s)[0]),
    decreases s.len(),
{
    if s.len() > 0 && is_space(s[0]) {
        lemma_trim_start_first(s.drop_first());
    }
}

proof fn lemma_trim_start_noop(s: Seq<char>)
    requires
        s.len() == 0 || !is_space(s[0]),
    ensures
        trim_start(s) == s,
{
}

/// Trimming twice is trimming once.
pub proof fn trim_is_idempotent(s: Seq<char>)
    ensures
        trim(trim(s)) == trim(s),
{
    let y = trim_start(s);
    lemma_trim_start_first(s);
    lemma_trim_end_prefix(y);
    lemma_trim_end_idempotent(y);
    if trim_end(y).len() > 0 {
        lemma_trim_end_keeps(y, 0);
        assert(trim_end(y)[0] == y[0]);
    }
    lemma_trim_start_noop(trim_end(y));
}

/// Every piece is non-empty and carries no surrounding whitespace.
pub open spec fn trimmed_pieces(v: Seq<Seq<char>>) -> bool {
    forall|i: int| 0 <= i < v.len() ==> (#[trigger] v[i]).len() > 0 && trim(v[i]) == v[i]
}

proof fn lemma_trimmed_concat(a: Seq<Seq<char>>, b: Seq<Seq<char>>)
    requires
        trimmed_pieces(a),
        trimmed_pieces(b),
    ensures
        trimmed_pieces(a + b),
{
    assert forall|i: int| 0 <= i < (a + b).len() implies (#[trigger] (a + b)[i]).len() > 0 && trim((a + b)[i]) == (a + b)[i] by {
        if i >= a.len() {
            assert((a + b)[i] == b[i - a.len()]);
        } else {
            assert((a + b)[i] == a[i]);
        }
    }
}

proof fn lemma_nonempty_trim(x: Seq<char>)
    ensures
        trimmed_pieces(nonempty_trim(x)),
{
    trim_is_idempotent(x);
}

proof fn lemma_pieces_before(s: Seq<char>, n: int)
    ensures
        trimmed_pieces(pieces_before(s, n)),
    decreases n,
{
    if n > 0 {
        lemma_pieces_before(s, n - 1);
        if is_split_at(s, n - 1) {
            let a = pieces_before(s, n - 1);
            let x = s.subrange(piece_start(s, n - 1), n - 1);
            lemma_nonempty_trim(x);
            lemma_trimmed_concat(a, nonempty_trim(x));
            assert(pieces_before(s, n) == a + nonempty_trim(x));
        } else {
            assert(pieces_before(s, n) == pieces_before(s, n - 1));
        }
    }
}

/// Every argument that `split_comma_args` returns is non-empty and carries
/// no surrounding whitespace.
pub proof fn comma_args_are_trimmed_and_nonempty(s: Seq<char>)
    ensures
        trimmed_pieces(comma_args(s)),
{
    let x = s.subrange(piece_start(s, s.len() as int), s.len() as int);
    lemma_pieces_before(s, s.len() as int);
    lemma_nonempty_trim(x);
    lemma_trimmed_concat(pieces_before(s, s.len() as int), nonempty_trim(x));
}

proof fn lemma_enum_args_of(parts: Seq<Seq<char>>)
    ensures
        trimmed_pieces(enum_args_of(parts)),
    decreases parts.len(),
{
    if parts.len() > 0 {
        lemma_enum_args_of(parts.drop_last());
        let e = enum_arg(parts.last());
        let b = if e.len() > 0 { seq![e] } else { Seq::<Seq<char>>::empty() };
        trim_is_idempotent(crate::parser::trim_end_quotes(crate::parser::trim_start_quotes(parts.last())));
        lemma_trimmed_concat(enum_args_of(parts.drop_last()), b);
        assert(enum_args_of(parts) == enum_args_of(parts.drop_last()) + b);
    }
}

proof fn lemma_plain_split_state(s: Seq<char>, i: int)
    requires
        0 <= i <= s.len(),
        forall|j: int| 0 <= j < s.len() ==> s[j] != '"' && s[j] != '\'' && s[j] != '(' && s[j] != ')',
    ensures
        split_state(s, i) == (None::<char>, 0nat),
    decreases i,
{
    if i > 0 {
        lemma_plain_split_state(s, i - 1);
    }
}

/// Without quotes or parentheses, `split_comma_args` splits at every comma.
pub proof fn plain_text_splits_at_every_comma(s: Seq<char>)
    requires
        forall|j: int| 0 <= j < s.len() ==> s[j] != '"' && s[j] != '\'' && s[j] != '(' && s[j] != ')',
    ensures
        forall|i: int| #[trigger] is_split_at(s, i) <==> (0 <= i < s.len() && s[i] == ','),
{
    assert forall|i: int| #[trigger] is_split_at(s, i) <==> (0 <= i < s.len() && s[i] == ',') by {
        if 0 <= i < s.len() {
            lemma_plain_split_state(s, i);
        }
    }
}

/// Every value that `split_enum_args` returns is non-empty and carries no
/// surrounding whitespace.
pub proof fn enum_args_are_trimmed_and_nonempty(s: Seq<char>)
    ensures
        trimmed_pieces(enum_args(s)),
{
    lemma_enum_args_of(comma_args(s));
}

// ---------------------------------------------------------------------------
// Type options
// ---------------------------------------------------------------------------

/// Among the options of a type, the last entry for a key wins, and an entry
/// leaves the other keys as they were.
pub proof fn later_option_wins(s: Seq<(Seq<char>, Seq<char>)>, key: Seq<char>, value: Seq<char>, other: Seq<char>)
    requires
        other != key,
    ensures
        option_lookup(s.push((key, value)), key) == Some(value),
        option_lookup(s.push((key, value)), other) == option_lookup(s, other),
{
    assert(s.push((key, value)).drop_last() =~= s);
}

// ---------------------------------------------------------------------------
// Decorator catalog and availability
// ---------------------------------------------------------------------------

proof fn lemma_last_named(s: Seq<DecoratorInfo>, name: Seq<char>)
    ensures
        last_named(s, name) matches Some(d) ==> d.name@ == name && s.contains(d),
        last_named(s, name) is None <==> forall|i: int| 0 <= i < s.len() ==> (#[trigger] s[i]).name@ != name,
    decreases s.len(),
{
    if s.len() > 0 {
        lemma_last_named(s.drop_last(), name);
        if s.last().name@ != name {
            assert forall|i: int| 0 <= i < s.len() && (#[trigger] s[i]).name@ == name implies i < s.len() - 1 by {}
            if let Some(d) = last_named(s, name) {
                let j = choose|j: int| 0 <= j < s.drop_last().len() && s.drop_last()[j] == d;
                assert(s[j] == d);
            }
            assert forall|i: int| 0 <= i < s.drop_last().len() implies s.drop_last()[i] == s[i] by {}
        } else {
            assert(s[s.len() - 1] == s.last());
        }
    }
}

/// Looking a decorator up by name finds a built-in decorator of that name,
/// and finds one for every built-in name.
pub proof fn decorator_lookup_finds_its_name(name: Seq<char>)
    ensures
        decorator_named(name) matches Some(d) ==> d.name@ == name && spec_all_decorators().contains(d),
        decorator_named(name) is Some <==> exists|i: int| 0 <= i < spec_all_decorators().len() && (#[trigger] spec_all_decorators()[i]).name@ == name,
{
    lemma_last_named(spec_all_decorators(), name);
}

proof fn lemma_available(ds: Seq<DecoratorInfo>, used: Set<Seq<char>>)
    ensures
        forall|d: DecoratorInfo| #[trigger] available_decorators(ds, used).contains(d) <==> (ds.contains(d) && decorator_available(d, used)),
    decreases ds.len(),
{
    if ds.len() > 0 {
        lemma_available(ds.drop_last(), used);
        let a = available_decorators(ds.drop_last(), used);
        let b = if decorator_available(ds.last(), used) { seq![ds.last()] } else { Seq::<DecoratorInfo>::empty() };
        assert forall|d: DecoratorInfo| #[trigger] available_decorators(ds, used).contains(d) <==> (ds.contains(d) && decorator_available(d, used)) by {
            assert(available_decorators(ds, used) == a + b);
            if (a + b).contains(d) {
                let i = choose|i: int| 0 <= i < (a + b).len() && (a + b)[i] == d;
                if i < a.len() {
                    assert(a[i] == d);
                    assert(a.contains(d));
                    assert(ds.drop_last().contains(d));
                    let j = choose|j: int| 0 <= j < ds.drop_last().len() && ds.drop_last()[j] == d;
                    assert(ds[j] == d);
                } else {
                    assert(b[i - a.len()] == d);
                    assert(ds[ds.len() - 1] == d);
                }
            }
            if ds.contains(d) && decorator_available(d, used) {
                let j = choose|j: int| 0 <= j < ds.len() && ds[j] == d;
                if j < ds.len() - 1 {
                    assert(ds.drop_last()[j] == d);
                    assert(ds.drop_last().contains(d));
                    assert(a.contains(d));
                    let i = choose|i: int| 0 <= i < a.len() && a[i] == d;
                    assert((a + b)[i] == d);
                } else {
                    assert(ds.last() == d);
                    assert((a + b)[a.len() as int] == d);
                }
            }
        }
    }
}

/// Completion offers exactly the listed decorators that are still available:
/// never a non-function decorator already used, never one whose counterpart
/// (`required`/`optional`, `sensitive`/`public`) is used, and every other one.
pub proof fn offered_decorators_are_exactly_the_available(ds: Seq<DecoratorInfo>, used: Set<Seq<char>>)
    ensures
        forall|d: DecoratorInfo| #[trigger] available_decorators(ds, used).contains(d) <==> (ds.contains(d) && decorator_available(d, used)),
        forall|d: DecoratorInfo| #[trigger] available_decorators(ds, used).contains(d) ==> (d.is_function || !used.contains(d.name@)),
        used.contains("optional"@) ==> forall|d: DecoratorInfo| #[trigger] available_decorators(ds, used).contains(d) ==> d.name@ != "required"@,
        used.contains("required"@) ==> forall|d: DecoratorInfo| #[trigger] available_decorators(ds, used).contains(d) ==> d.name@ != "optional"@,
        used.contains("public"@) ==> forall|d: DecoratorInfo| #[trigger] available_decorators(ds, used).contains(d) ==> d.name@ != "sensitive"@,
        used.contains("sensitive"@) ==> forall|d: DecoratorInfo| #[trigger] available_decorators(ds, used).contains(d) ==> d.name@ != "public"@,
{
    lemma_available(ds, used);
    assert forall|d: DecoratorInfo| #[trigger] available_decorators(ds, used).contains(d) && used.contains("optional"@) implies d.name@ != "required"@ by {
        if d.name@ == "required"@ {
            assert(crate::parser::incompatible_with(d.name@)[0] == "optional"@);
        }
    }
    assert forall|d: DecoratorInfo| #[trigger] available_decorators(ds, used).contains(d) && used.contains("required"@) implies d.name@ != "optional"@ by {
        if d.name@ == "optional"@ {
            assert(d.name@ != "required"@) by { reveal_strlit("optional"); reveal_strlit("required"); }
            assert(crate::parser::incompatible_with(d.name@)[0] == "required"@);
        }
    }
    assert forall|d: DecoratorInfo| #[trigger] available_decorators(ds, used).contains(d) && used.contains("public"@) implies d.name@ != "sensitive"@ by {
        if d.name@ == "sensitive"@ {
            assert(d.name@ != "required"@ && d.name@ != "optional"@) by {
                reveal_strlit("sensitive");
                reveal_strlit("required");
                reveal_strlit("optional");
                assert("sensitive"@.len() != "required"@.len());
                assert("sensitive"@.len() != "optional"@.len());
            }
            assert(crate::parser::incompatible_with(d.name@)[0] == "public"@);
        }
    }
    assert forall|d: DecoratorInfo| #[trigger] available_decorators(ds, used).contains(d) && used.contains("sensitive"@) implies d.name@ != "public"@ by {
        if d.name@ == "public"@ {
            assert(d.name@ != "required"@ && d.name@ != "optional"@ && d.name@ != "sensitive"@) by {
                reveal_strlit("public");
                reveal_strlit("required");
                reveal_strlit("optional");
                reveal_strlit("sensitive");
                assert("public"@.len() != "required"@.len());
                assert("public"@.len() != "optional"@.len());
                assert("public"@.len() != "sensitive"@.len());
            }
            assert(crate::parser::incompatible_with(d.name@)[0] == "sensitive"@);
        }
    }
}

// ---------------------------------------------------------------------------
// Decorator block diagnostics
// ---------------------------------------------------------------------------

proof fn lemma_repeat_diags_none(occs: Seq<OccurrenceSpec>, n: int)
    requires
        n <= occs.len(),
        forall|i: int, j: int| 0 <= i < j < occs.len() ==> (#[trigger] occs[i]).name != (#[trigger] occs[j]).name,
    ensures
        repeat_diags(occs, n).len() == 0,
    decreases n,
{
    if n > 0 {
        lemma_repeat_diags_none(occs, n - 1);
        if repeated_at(occs, n - 1) {
            let j = choose|j: int| 0 <= j < n - 1 && #[trigger] occs[j].name == occs[n - 1].name;
            assert(occs[j].name != occs[n - 1].name);
        }
    }
}

/// A block whose decorators are all different and hold no conflicting pair
/// gets no diagnostic.
pub proof fn distinct_compatible_block_is_clean(occs: Seq<OccurrenceSpec>)
    requires
        forall|i: int, j: int| 0 <= i < j < occs.len() ==> (#[trigger] occs[i]).name != (#[trigger] occs[j]).name,
        !(has_name(occs, "required"@) && has_name(occs, "optional"@)),
        !(has_name(occs, "sensitive"@) && has_name(occs, "public"@)),
    ensures
        block_diagnostics(occs).len() == 0,
{
    lemma_repeat_diags_none(occs, occs.len() as int);
    assert(conflict_candidates(occs) =~= Seq::<CoreDiagnosticSpec>::empty());
}

proof fn lemma_repeat_diags_has(occs: Seq<OccurrenceSpec>, n: int, k: int)
    requires
        0 <= k < n <= occs.len(),
        repeated_at(occs, k),
    ensures
        repeat_diags(occs, n).contains(diag_at(occs[k], once_message(occs[k].name))),
    decreases n,
{
    let d = diag_at(occs[k], once_message(occs[k].name));
    if k < n - 1 {
        lemma_repeat_diags_has(occs, n - 1, k);
        let a = repeat_diags(occs, n - 1);
        let i = choose|i: int| 0 <= i < a.len() && a[i] == d;
        let b = if repeated_at(occs, n - 1) { seq![diag_at(occs[n - 1], once_message(occs[n - 1].name))] } else { Seq::empty() };
        assert((a + b)[i] == d);
    } else {
        let a = repeat_diags(occs, n - 1);
        assert((a + seq![d])[a.len() as int] == d);
    }
}

/// A decorator that may appear only once gets a diagnostic at each later
/// occurrence in its block.
pub proof fn repeated_decorator_is_reported(occs: Seq<OccurrenceSpec>, k: int)
    requires
        0 <= k < occs.len(),
        !repeatable(occs[k]),
        exists|j: int| 0 <= j < k && #[trigger] occs[j].name == occs[k].name,
    ensures
        block_diagnostics(occs).contains(diag_at(occs[k], once_message(occs[k].name))),
{
    lemma_repeat_diags_has(occs, occs.len() as int, k);
    let a = repeat_diags(occs, occs.len() as int);
    let b = first_per_range(conflict_candidates(occs));
    let d = diag_at(occs[k], once_message(occs[k].name));
    let i = choose|i: int| 0 <= i < a.len() && a[i] == d;
    assert((a + b)[i] == d);
}

proof fn lemma_pair_hits_has(occs: Seq<OccurrenceSpec>, left: Seq<char>, right: Seq<char>, n: int, k: int)
    requires
        0 <= k < n <= occs.len(),
        occs[k].name == left || occs[k].name == right,
    ensures
        pair_hits(occs, left, right, n).contains(diag_at(occs[k], conflict_message(left, right))),
    decreases n,
{
    let d = diag_at(occs[k], conflict_message(left, right));
    let a = pair_hits(occs, left, right, n - 1);
    if k < n - 1 {
        lemma_pair_hits_has(occs, left, right, n - 1, k);
        let i = choose|i: int| 0 <= i < a.len() && a[i] == d;
        let b = if occs[n - 1].name == left || occs[n - 1].name == right { seq![diag_at(occs[n - 1], conflict_message(left, right))] } else { Seq::empty() };
        assert((a + b)[i] == d);
    } else {
        assert((a + seq![d])[a.len() as int] == d);
    }
}

proof fn lemma_first_per_range_unfold(c: Seq<CoreDiagnosticSpec>)
    requires
        c.len() > 0,
    ensures
        (exists|j: int| 0 <= j < c.len() - 1 && same_range(#[trigger] c[j], c.last())) ==> first_per_range(c) == first_per_range(c.drop_last()),
        !(exists|j: int| 0 <= j < c.len() - 1 && same_range(#[trigger] c[j], c.last())) ==> first_per_range(c) == first_per_range(c.drop_last()).push(c.last()),
{
    let a = first_per_range(c.drop_last());
    assert(a + Seq::<CoreDiagnosticSpec>::empty() =~= a);
    assert(a + seq![c.last()] =~= a.push(c.last()));
}

proof fn lemma_first_per_range_subset(c: Seq<CoreDiagnosticSpec>)
    ensures
        forall|i: int| 0 <= i < first_per_range(c).len() ==> c.contains(#[trigger] first_per_range(c)[i]),
    decreases c.len(),
{
    if c.len() > 0 {
        let p = c.drop_last();
        lemma_first_per_range_subset(p);
        lemma_first_per_range_unfold(c);
        let a = first_per_range(p);
        let f = first_per_range(c);
        assert forall|i: int| 0 <= i < f.len() implies c.contains(#[trigger] f[i]) by {
            if i < a.len() {
                assert(f[i] == a[i]);
                assert(p.contains(a[i]));
                let j = choose|j: int| 0 <= j < p.len() && p[j] == a[i];
                assert(c[j] == p[j]);
            } else {
                assert(f[i] == c.last());
                assert(c[c.len() - 1] == c.last());
            }
        }
    }
}

proof fn lemma_first_per_range_covers(c: Seq<CoreDiagnosticSpec>)
    ensures
        forall|j: int| #![trigger c[j]] 0 <= j < c.len() ==> exists|i: int| 0 <= i < first_per_range(c).len() && same_range(#[trigger] first_per_range(c)[i], c[j]),
    decreases c.len(),
{
    if c.len() > 0 {
        let p = c.drop_last();
        lemma_first_per_range_covers(p);
        lemma_first_per_range_unfold(c);
        let a = first_per_range(p);
        let f = first_per_range(c);
        assert forall|j: int| #![trigger c[j]] 0 <= j < c.len() implies exists|i: int| 0 <= i < f.len() && same_range(#[trigger] f[i], c[j]) by {
            if j < c.len() - 1 {
                assert(c[j] == p[j]);
                let i = choose|i: int| 0 <= i < a.len() && same_range(#[trigger] a[i], p[j]);
                assert(f[i] == a[i]);
            } else if exists|j2: int| 0 <= j2 < c.len() - 1 && same_range(#[trigger] c[j2], c.last()) {
                let j2 = choose|j2: int| 0 <= j2 < c.len() - 1 && same_range(#[trigger] c[j2], c.last());
                assert(c[j2] == p[j2]);
                let i = choose|i: int| 0 <= i < a.len() && same_range(#[trigger] a[i], p[j2]);
                assert(f[i] == a[i]);
                assert(c[j] == c.last());
            } else {
                assert(f[a.len() as int] == c.last());
                assert(c[j] == c.last());
            }
        }
    }
}

proof fn lemma_first_per_range_distinct(c: Seq<CoreDiagnosticSpec>)
    ensures
        forall|i: int, i2: int| 0 <= i < i2 < first_per_range(c).len() ==> !same_range(#[trigger] first_per_range(c)[i], #[trigger] first_per_range(c)[i2]),
    decreases c.len(),
{
    if c.len() > 0 {
        let p = c.drop_last();
        lemma_first_per_range_distinct(p);
        lemma_first_per_range_subset(p);
        lemma_first_per_range_unfold(c);
        let a = first_per_range(p);
        let f = first_per_range(c);
        assert forall|i: int, i2: int| 0 <= i < i2 < f.len() implies !same_range(#[trigger] f[i], #[trigger] f[i2]) by {
            assert(f[i] == a[i]);
            if i2 < a.len() {
                assert(f[i2] == a[i2]);
            } else {
                assert(f[i2] == c.last());
                assert(p.contains(a[i]));
                let j = choose|j: int| 0 <= j < p.len() && p[j] == a[i];
                assert(c[j] == p[j]);
                if same_range(f[i], f[i2]) {
                    assert(same_range(c[j], c.last()));
                }
            }
        }
    }
}

/// When a block holds both decorators of a conflicting pair, each occurrence
/// of either of them gets a diagnostic on its range, and no range gets two
/// conflict diagnostics.
pub proof fn conflicting_pair_is_reported(occs: Seq<OccurrenceSpec>, k: int)
    requires
        0 <= k < occs.len(),
        (has_name(occs, "required"@) && has_name(occs, "optional"@) && (occs[k].name == "required"@ || occs[k].name == "optional"@))
            || (has_name(occs, "sensitive"@) && has_name(occs, "public"@) && (occs[k].name == "sensitive"@ || occs[k].name == "public"@)),
    ensures
        exists|i: int| 0 <= i < block_diagnostics(occs).len() && same_range(#[trigger] block_diagnostics(occs)[i], diag_at(occs[k], Seq::empty())),
        forall|i: int, i2: int| 0 <= i < i2 < first_per_range(conflict_candidates(occs)).len() ==> !same_range(#[trigger] first_per_range(conflict_candidates(occs))[i], #[trigger] first_per_range(conflict_candidates(occs))[i2]),
{
    let n = occs.len() as int;
    let ca = pair_candidates(occs, "required"@, "optional"@);
    let cb = pair_candidates(occs, "sensitive"@, "public"@);
    let c = ca + cb;
    let target = if has_name(occs, "required"@) && has_name(occs, "optional"@) && (occs[k].name == "required"@ || occs[k].name == "optional"@) {
        lemma_pair_hits_has(occs, "required"@, "optional"@, n, k);
        let d = diag_at(occs[k], conflict_message("required"@, "optional"@));
        let j = choose|j: int| 0 <= j < ca.len() && ca[j] == d;
        assert(c[j] == d);
        j
    } else {
        lemma_pair_hits_has(occs, "sensitive"@, "public"@, n, k);
        let d = diag_at(occs[k], conflict_message("sensitive"@, "public"@));
        let j = choose|j: int| 0 <= j < cb.len() && cb[j] == d;
        assert(c[ca.len() + j] == d);
        ca.len() + j
    };
    assert(same_range(c[target], diag_at(occs[k], Seq::empty())));
    lemma_first_per_range_covers(c);
    lemma_first_per_range_distinct(c);
    let f = first_per_range(c);
    let i = choose|i: int| 0 <= i < f.len() && same_range(#[trigger] f[i], c[target]);
    let a = repeat_diags(occs, n);
    assert(block_diagnostics(occs) == a + f);
    assert((a + f)[a.len() + i] == f[i]);
}

// ---------------------------------------------------------------------------
// Completion ranges
// ---------------------------------------------------------------------------

/// Every item replaces a range that ends at `pos`, on its line.
pub open spec fn all_end_at(items: Seq<CompletionItemSpec>, pos: Position) -> bool {
    forall|i: int| 0 <= i < items.len() ==> (#[trigger] items[i]).edit_range.end == pos && items[i].edit_range.start.line == pos.line
}

pub open spec fn ends_at(r: Range, pos: Position) -> bool {
    r.end == pos && r.start.line == pos.line
}

proof fn lemma_cursor_range_ends(pattern: Seq<char>, hay: Seq<char>, g: int, pos: Position)
    ensures
        cursor_range(pattern, hay, g, pos) matches Some(r) ==> ends_at(r, pos),
{
}

proof fn lemma_concat_end_at(a: Seq<CompletionItemSpec>, b: Seq<CompletionItemSpec>, pos: Position)
    requires
        all_end_at(a, pos),
        all_end_at(b, pos),
    ensures
        all_end_at(a + b, pos),
{
    assert forall|i: int| 0 <= i < (a + b).len() implies (#[trigger] (a + b)[i]).edit_range.end == pos && (a + b)[i].edit_range.start.line == pos.line by {
        if i < a.len() {
            assert((a + b)[i] == a[i]);
        } else {
            assert((a + b)[i] == b[i - a.len()]);
        }
    }
}

proof fn lemma_value_items_end(lines: Seq<Seq<char>>, d: DecoratorInfo, r: Range, pos: Position)
    requires
        ends_at(r, pos),
    ensures
        decorator_value_items(lines, d, r) matches Some(items) ==> all_end_at(items, pos),
{
    let n = d.name@;
    if n == "currentEnv"@ {
    } else if n == "defaultRequired"@ {
    } else if n == "defaultSensitive"@ {
        lemma_concat_end_at(keyword_items(seq!["true"@, "false"@], r), resolver_items(crate::completion::select_resolvers(crate::catalog::spec_resolvers(), seq!["inferFromPrefix"@]), r), pos);
    } else if crate::completion::boolean_decorator(n) {
        lemma_concat_end_at(keyword_items(seq!["true"@, "false"@], r), resolver_items(crate::completion::select_resolvers(crate::catalog::spec_resolvers(), seq!["forEnv"@, "eq"@, "if"@, "not"@, "isEmpty"@]), r), pos);
    }
}

/// The range that a completion replaces is the text of the matched group
/// right before the cursor: it ends at the cursor and starts as many bytes
/// earlier as the group is long.
pub proof fn replaced_range_is_the_typed_text(c: Seq<Option<GroupView>>, hay: Seq<char>, g: int, pos: Position)
    requires
        well_placed(c, hay),
        byte_len(hay) <= pos.character,
    ensures
        group_range(c, g, pos) matches Some(r) ==> r.end == pos && r.start.line == pos.line
            && r.start.character + byte_len(group_text(c, g)) == pos.character,
{
    if 0 <= g < c.len() && c[g] is Some {
        assert(match c[g] {
            Some(x) => 0 <= x.0 <= x.1 <= byte_len(hay) && byte_len(x.2) == x.1 - x.0,
            None => true,
        });
    }
}

/// Every completion replaces text that ends at the cursor, on the cursor's line.
pub proof fn completions_end_at_cursor(lines: Seq<Seq<char>>, pos: Position)
    ensures
        completions_spec(lines, pos) matches Some(items) ==> all_end_at(items, pos),
{
    let line = crate::parser::line_of(lines, pos.line as int);
    let lp = crate::text::prefix_before_byte(line, pos.character as int);
    let cp = if lp.contains('#') { decorator_comment_prefix(lp) } else { None };
    lemma_cursor_range_ends(crate::completion::REFERENCE_CURSOR@, lp, 1, pos);
    lemma_cursor_range_ends(crate::completion::ITEM_VALUE_CURSOR@, lp, 1, pos);
    lemma_cursor_range_ends(crate::completion::RESOLVER_CURSOR@, lp, 1, pos);
    if let Some(c) = cp {
        lemma_cursor_range_ends(crate::completion::TYPE_OPTION_CURSOR@, c, 3, pos);
        lemma_cursor_range_ends(crate::completion::TYPE_VALUE_CURSOR@, c, 2, pos);
        lemma_cursor_range_ends(crate::completion::DECORATOR_NAME_CURSOR@, c, 2, pos);
        if let Some((d, r)) = decorator_value_context(c, pos) {
            lemma_value_items_end(lines, d, r, pos);
        }
    }
}

// ---------------------------------------------------------------------------
// Item references
// ---------------------------------------------------------------------------

proof fn lemma_sorted_with(s: Seq<Seq<char>>, k: Seq<char>) -> (r: Seq<Seq<char>>)
    requires
        strictly_sorted(s),
    ensures
        strictly_sorted(r),
        forall|t: Seq<char>| #[trigger] r.contains(t) <==> (s.contains(t) || t == k),
{
    if s.contains(k) {
        s
    } else {
        let before = |j: int| !seq_lt(s[j], k);
        let p = first_where(before, 0, s.len() as int);
        lemma_first_where(before, 0, s.len() as int);
        assert forall|j: int| p <= j < s.len() implies !seq_lt(#[trigger] s[j], k) by {
            if j > p && seq_lt(s[j], k) {
                assert(seq_lt(s[p], s[j]));
                lemma_lt_transitive(s[p], s[j], k);
            }
        }
        assert forall|j: int| 0 <= j < p implies seq_lt(#[trigger] s[j], k) by {
            assert(!before(j));
        }
        lemma_sorted_insert(s, p, k);
        s.insert(p, k)
    }
}

proof fn lemma_keys_upto(lines: Seq<Seq<char>>, n: int) -> (ks: Seq<Seq<char>>)
    requires
        0 <= n <= lines.len(),
    ensures
        strictly_sorted(ks),
        forall|t: Seq<char>| #[trigger] ks.contains(t) <==> (t == "VARLOCK_ENV"@ || exists|l: int| 0 <= l < n && #[trigger] line_key(lines[l]) == Some(t)),
    decreases n,
{
    if n == 0 {
        let ks = seq!["VARLOCK_ENV"@];
        assert forall|t: Seq<char>| #[trigger] ks.contains(t) <==> t == "VARLOCK_ENV"@ by {
            if t == "VARLOCK_ENV"@ {
                assert(ks[0] == t);
            }
        }
        ks
    } else {
        let prev = lemma_keys_upto(lines, n - 1);
        let ks = match line_key(lines[n - 1]) {
            Some(k) => lemma_sorted_with(prev, k),
            None => prev,
        };
        assert forall|t: Seq<char>| #[trigger] ks.contains(t) <==> (t == "VARLOCK_ENV"@ || exists|l: int| 0 <= l < n && #[trigger] line_key(lines[l]) == Some(t)) by {
            if exists|l: int| 0 <= l < n && #[trigger] line_key(lines[l]) == Some(t) {
                let l = choose|l: int| 0 <= l < n && #[trigger] line_key(lines[l]) == Some(t);
                if l < n - 1 {
                    assert(prev.contains(t));
                }
            }
            if prev.contains(t) && t != "VARLOCK_ENV"@ {
                let l = choose|l: int| 0 <= l < n - 1 && #[trigger] line_key(lines[l]) == Some(t);
                assert(0 <= l < n);
            }
        }
        ks
    }
}

/// The keys proposed after `$` are sorted, each once, and are exactly
/// `VARLOCK_ENV` and the keys assigned in the document.
pub proof fn reference_keys_are_sorted_and_complete(lines: Seq<Seq<char>>)
    ensures
        strictly_sorted(reference_keys(lines)),
        reference_keys(lines).contains("VARLOCK_ENV"@),
        forall|l: int| 0 <= l < lines.len() && #[trigger] line_key(lines[l]) is Some ==> reference_keys(lines).contains(line_key(lines[l])->0),
        forall|t: Seq<char>| #[trigger] reference_keys(lines).contains(t) ==> is_reference_key(lines, t),
{
    let ks = lemma_keys_upto(lines, lines.len() as int);
    assert(strictly_sorted(ks) && forall|k: Seq<char>| #[trigger] ks.contains(k) <==> is_reference_key(lines, k));
    let r = reference_keys(lines);
    assert forall|l: int| 0 <= l < lines.len() && #[trigger] line_key(lines[l]) is Some implies r.contains(line_key(lines[l])->0) by {
        assert(is_reference_key(lines, line_key(lines[l])->0));
    }
}

// ---------------------------------------------------------------------------
// Quotes and comment blocks
// ---------------------------------------------------------------------------

/// Unquoting removes exactly one pair of matching surrounding quotes, and
/// leaves any other text as it is.
pub proof fn unquote_removes_one_pair(x: Seq<char>, q: char)
    requires
        q == '"' || q == '\'',
    ensures
        unquote_spec(seq![q] + x + seq![q]) == x,
        unquote_spec(x) == x || (x.len() >= 2 && x[0] == x.last() && (x[0] == '"' || x[0] == '\'') && unquote_spec(x) == x.subrange(1, x.len() - 1)),
{
    let y = seq![q] + x + seq![q];
    assert(y[0] == q);
    assert(y.last() == q);
    assert(y.subrange(1, y.len() - 1) =~= x);
}

/// The comment block above a line holds only comment lines (trimmed), ends
/// right above that line, and cannot be extended upwards.
pub proof fn comment_block_is_maximal(lines: Seq<Seq<char>>, n: int)
    requires
        0 <= n,
    ensures
        0 <= comment_block_start(lines, n) <= n,
        preceding_comment_block(lines, n).len() == n - comment_block_start(lines, n),
        forall|i: int| 0 <= i < preceding_comment_block(lines, n).len() ==> starts_with_char(#[trigger] preceding_comment_block(lines, n)[i], '#'),
        comment_block_start(lines, n) > 0 ==> !starts_with_char(trim(line_of(lines, comment_block_start(lines, n) - 1)), '#'),
{
    lemma_down_while(is_comment_line_pred(lines), n);
    let k = comment_block_start(lines, n);
    assert forall|i: int| 0 <= i < preceding_comment_block(lines, n).len() implies starts_with_char(#[trigger] preceding_comment_block(lines, n)[i], '#') by {
        assert(is_comment_line_pred(lines)(k + i));
    }
    if k > 0 {
        assert(!is_comment_line_pred(lines)(k - 1));
    }
}

// ---------------------------------------------------------------------------
// Document diagnostics
// ---------------------------------------------------------------------------

proof fn lemma_flush_empty()
    ensures
        flush_spec(Seq::empty()) == Seq::<DocumentDiagnosticSpec>::empty(),
{
    assert(crate::diagnostics::repeat_diags(Seq::<OccurrenceSpec>::empty(), 0) =~= Seq::<CoreDiagnosticSpec>::empty());
    assert(conflict_candidates(Seq::<OccurrenceSpec>::empty()) =~= Seq::<CoreDiagnosticSpec>::empty());
    assert(block_diagnostics(Seq::<OccurrenceSpec>::empty()) =~= Seq::<CoreDiagnosticSpec>::empty());
    assert(flush_spec(Seq::empty()) =~= Seq::<DocumentDiagnosticSpec>::empty());
}

proof fn lemma_clean_state(lines: Seq<Seq<char>>, n: int)
    requires
        0 <= n <= lines.len(),
        forall|l: int| 0 <= l < lines.len() ==> !starts_with_char(trim(#[trigger] lines[l]), '#'),
    ensures
        doc_state(lines, n).header.len() == 0,
        doc_state(lines, n).items.len() == 0,
        doc_state(lines, n).out.len() == 0,
    decreases n,
{
    if n > 0 {
        lemma_clean_state(lines, n - 1);
        lemma_flush_empty();
        let s = doc_state(lines, n - 1);
        assert(s.header =~= Seq::<OccurrenceSpec>::empty());
        assert(s.items =~= Seq::<OccurrenceSpec>::empty());
        assert(s.out + flush_spec(s.header) + flush_spec(s.items) =~= Seq::<DocumentDiagnosticSpec>::empty());
        lemma_down_while(is_comment_line_pred(lines), n - 1);
        if n - 1 > 0 {
            assert(!is_comment_line_pred(lines)(n - 2));
        }
        assert(preceding_comment_block(lines, n - 1).len() == 0);
        assert(type_info_spec(lines, n - 1) is None);
        assert(!starts_with_char(trim(line_of(lines, n - 1)), '#'));
    }
}

/// Only decorator comments and typed items produce diagnostics: a document
/// without comment lines gets none.
pub proof fn document_without_comments_is_clean(lines: Seq<Seq<char>>)
    requires
        forall|l: int| 0 <= l < lines.len() ==> !starts_with_char(trim(#[trigger] lines[l]), '#'),
    ensures
        document_diagnostics(lines).len() == 0,
{
    lemma_clean_state(lines, lines.len() as int);
    lemma_flush_empty();
    let s = doc_state(lines, lines.len() as int);
    assert(s.header =~= Seq::<OccurrenceSpec>::empty());
    assert(s.items =~= Seq::<OccurrenceSpec>::empty());
}

// ---------------------------------------------------------------------------
// Hover ranges
// ---------------------------------------------------------------------------

proof fn lemma_hovered_match(words: Seq<Seq<Option<GroupView>>>, b: int)
    ensures
        hovered_match(words, b) matches Some(c) ==> words.contains(c) && match_start(c) <= b <= match_end(c),
    decreases words.len(),
{
    if words.len() > 0 {
        lemma_hovered_match(words.drop_last(), b);
        if let Some(c) = hovered_match(words, b) {
            if match_start(words.last()) <= b <= match_end(words.last()) {
                assert(words[words.len() - 1] == words.last());
            } else {
                let j = choose|j: int| 0 <= j < words.drop_last().len() && words.drop_last()[j] == c;
                assert(words[j] == c);
            }
        }
    }
}

/// A hover covers the word under the cursor: its range lies on the cursor's
/// line and starts at or before the cursor and ends at or after it (for words
/// whose offsets fit the protocol's `u32`).
pub proof fn hover_covers_the_cursor(pos: Position, words: Seq<Seq<Option<GroupView>>>)
    requires
        forall|k: int| 0 <= k < words.len() ==> 0 <= match_start(#[trigger] words[k]) && match_end(words[k]) <= u32::MAX,
    ensures
        word_hover(pos, words) matches Some(h) ==> h.range.start.line == pos.line && h.range.end.line == pos.line
            && h.range.start.character <= pos.character <= h.range.end.character,
{
    lemma_hovered_match(words, pos.character as int);
    if let Some(c) = hovered_match(words, pos.character as int) {
        let k = choose|k: int| 0 <= k < words.len() && words[k] == c;
        assert(0 <= match_start(words[k]));
    }
}


/// Every built-in decorator has hover documentation: over its `@name` word,
/// the hover shows the summary and documentation of the built-in decorator of
/// that name.
pub proof fn every_builtin_decorator_has_hover(pos: Position, d: DecoratorInfo, start: int, end: int)
    requires
        spec_all_decorators().contains(d),
        start <= pos.character <= end,
    ensures
        word_hover(pos, seq![seq![Some((start, end, "@"@ + d.name@))]]) matches Some(h)
            && exists|e: DecoratorInfo| #[trigger] spec_all_decorators().contains(e) && e.name@ == d.name@ && h.contents == hover_text(e),
{
    let c = seq![Some((start, end, "@"@ + d.name@))];
    let words = seq![c];
    assert(words.drop_last() =~= Seq::<Seq<Option<GroupView>>>::empty());
    assert(hovered_match(words, pos.character as int) == Some(c));
    let t = crate::regex::group_text(c, 0);
    assert(t == "@"@ + d.name@);
    reveal_strlit("@");
    assert(t.drop_first() =~= d.name@);
    let i = choose|i: int| 0 <= i < spec_all_decorators().len() && spec_all_decorators()[i] == d;
    decorator_lookup_finds_its_name(d.name@);
    assert(spec_all_decorators()[i].name@ == d.name@);
    let e = decorator_named(d.name@)->0;
    assert(e.name@ == d.name@);
}


// ---------------------------------------------------------------------------
// Decorator occurrences
// ---------------------------------------------------------------------------

/// The occurrences of a line are on that line, and a line that is not a
/// decorator comment has none.
pub proof fn occurrences_are_on_their_line(line_text: Seq<char>, n: int)
    ensures
        forall|k: int| 0 <= k < occurrences_spec(line_text, n).len() ==> (#[trigger] occurrences_spec(line_text, n)[k]).line == n,
        decorator_comment_prefix(line_text) is None ==> occurrences_spec(line_text, n).len() == 0,
{
}


// ---------------------------------------------------------------------------
// Where document diagnostics lie
// ---------------------------------------------------------------------------

/// The range of a document diagnostic (finished or pending).
pub open spec fn diag_range(d: DocumentDiagnosticSpec) -> Range {
    match d {
        DocumentDiagnosticSpec::Ready(x) => x.range,
        DocumentDiagnosticSpec::Pending { range, .. } => range,
    }
}

/// `d` lies on one line, which is one of the first `count` lines (when line
/// numbers fit the protocol's `u32`).
pub open spec fn on_a_line(d: DocumentDiagnosticSpec, count: int) -> bool {
    &&& diag_range(d).start.line == diag_range(d).end.line
    &&& count <= u32::MAX + 1 ==> diag_range(d).start.line < count
}

pub open spec fn occs_below(occs: Seq<OccurrenceSpec>, count: int) -> bool {
    forall|j: int| 0 <= j < occs.len() ==> 0 <= (#[trigger] occs[j]).line < count
}

pub open spec fn core_below(c: Seq<CoreDiagnosticSpec>, count: int) -> bool {
    forall|j: int| 0 <= j < c.len() ==> 0 <= (#[trigger] c[j]).line < count
}

proof fn lemma_core_concat(a: Seq<CoreDiagnosticSpec>, b: Seq<CoreDiagnosticSpec>, count: int)
    requires
        core_below(a, count),
        core_below(b, count),
    ensures
        core_below(a + b, count),
{
    assert forall|j: int| 0 <= j < (a + b).len() implies 0 <= (#[trigger] (a + b)[j]).line < count by {
        if j < a.len() {
            assert((a + b)[j] == a[j]);
        } else {
            assert((a + b)[j] == b[j - a.len()]);
        }
    }
}

proof fn lemma_repeat_below(occs: Seq<OccurrenceSpec>, n: int, count: int)
    requires
        n <= occs.len(),
        occs_below(occs, count),
    ensures
        core_below(repeat_diags(occs, n), count),
    decreases n,
{
    if n > 0 {
        lemma_repeat_below(occs, n - 1, count);
        let b = if repeated_at(occs, n - 1) { seq![diag_at(occs[n - 1], once_message(occs[n - 1].name))] } else { Seq::empty() };
        assert(core_below(b, count)) by {
            if repeated_at(occs, n - 1) {
                assert(b[0].line == occs[n - 1].line);
            }
        }
        lemma_core_concat(repeat_diags(occs, n - 1), b, count);
    }
}

proof fn lemma_pair_hits_below(occs: Seq<OccurrenceSpec>, left: Seq<char>, right: Seq<char>, n: int, count: int)
    requires
        n <= occs.len(),
        occs_below(occs, count),
    ensures
        core_below(pair_hits(occs, left, right, n), count),
    decreases n,
{
    if n > 0 {
        lemma_pair_hits_below(occs, left, right, n - 1, count);
        let b = if occs[n - 1].name == left || occs[n - 1].name == right { seq![diag_at(occs[n - 1], conflict_message(left, right))] } else { Seq::empty() };
        assert(core_below(b, count)) by {
            if b.len() > 0 {
                assert(b[0].line == occs[n - 1].line);
            }
        }
        lemma_core_concat(pair_hits(occs, left, right, n - 1), b, count);
    }
}

proof fn lemma_flush_on_lines(block: Seq<OccurrenceSpec>, count: int)
    requires
        occs_below(block, count),
    ensures
        forall|i: int| 0 <= i < flush_spec(block).len() ==> on_a_line(#[trigger] flush_spec(block)[i], count),
{
    let n = block.len() as int;
    lemma_repeat_below(block, n, count);
    lemma_pair_hits_below(block, "required"@, "optional"@, n, count);
    lemma_pair_hits_below(block, "sensitive"@, "public"@, n, count);
    let ca = pair_candidates(block, "required"@, "optional"@);
    let cb = pair_candidates(block, "sensitive"@, "public"@);
    assert(core_below(ca, count));
    assert(core_below(cb, count));
    lemma_core_concat(ca, cb, count);
    let c = conflict_candidates(block);
    lemma_first_per_range_subset(c);
    let f = first_per_range(c);
    assert(core_below(f, count)) by {
        assert forall|j: int| 0 <= j < f.len() implies 0 <= (#[trigger] f[j]).line < count by {
            assert(c.contains(f[j]));
            let k = choose|k: int| 0 <= k < c.len() && c[k] == f[j];
        }
    }
    lemma_core_concat(repeat_diags(block, n), f, count);
    let bd = block_diagnostics(block);
    assert forall|i: int| 0 <= i < flush_spec(block).len() implies on_a_line(#[trigger] flush_spec(block)[i], count) by {
        let d = bd[i];
        assert(flush_spec(block)[i] == ready_of(d));
        assert(0 <= d.line < count);
        assert(diag_range(ready_of(d)).end.line == d.line as u32);
    }
}

proof fn lemma_out_concat(a: Seq<DocumentDiagnosticSpec>, b: Seq<DocumentDiagnosticSpec>, count: int)
    requires
        forall|i: int| 0 <= i < a.len() ==> on_a_line(#[trigger] a[i], count),
        forall|i: int| 0 <= i < b.len() ==> on_a_line(#[trigger] b[i], count),
    ensures
        forall|i: int| 0 <= i < (a + b).len() ==> on_a_line(#[trigger] (a + b)[i], count),
{
    assert forall|i: int| 0 <= i < (a + b).len() implies on_a_line(#[trigger] (a + b)[i], count) by {
        if i < a.len() {
            assert((a + b)[i] == a[i]);
        } else {
            assert((a + b)[i] == b[i - a.len()]);
        }
    }
}

proof fn lemma_occs_concat(a: Seq<OccurrenceSpec>, b: Seq<OccurrenceSpec>, count: int)
    requires
        occs_below(a, count),
        occs_below(b, count),
    ensures
        occs_below(a + b, count),
{
    assert forall|j: int| 0 <= j < (a + b).len() implies 0 <= (#[trigger] (a + b)[j]).line < count by {
        if j < a.len() {
            assert((a + b)[j] == a[j]);
        } else {
            assert((a + b)[j] == b[j - a.len()]);
        }
    }
}

proof fn lemma_state_on_lines(lines: Seq<Seq<char>>, n: int)
    requires
        0 <= n <= lines.len(),
    ensures
        occs_below(doc_state(lines, n).header, n),
        occs_below(doc_state(lines, n).items, n),
        forall|i: int| 0 <= i < doc_state(lines, n).out.len() ==> on_a_line(#[trigger] doc_state(lines, n).out[i], lines.len() as int),
    decreases n,
{
    if n > 0 {
        let count = lines.len() as int;
        lemma_state_on_lines(lines, n - 1);
        let s = doc_state(lines, n - 1);
        let m = n - 1;
        let occs = occurrences_spec(line_of(lines, m), m);
        occurrences_are_on_their_line(line_of(lines, m), m);
        assert(occs_below(occs, n));
        assert(occs_below(s.header, n));
        assert(occs_below(s.items, n));
        lemma_occs_concat(s.header, occs, n);
        lemma_occs_concat(s.items, occs, n);
        assert(occs_below(s.header, count));
        assert(occs_below(s.items, count));
        lemma_flush_on_lines(s.header, count);
        lemma_flush_on_lines(s.items, count);
        lemma_out_concat(s.out, flush_spec(s.header), count);
        lemma_out_concat(s.out + flush_spec(s.header), flush_spec(s.items), count);
        let s1 = comment_step(lines, s, m).0;
        assert(occs_below(s1.header, n));
        assert(occs_below(s1.items, n));
        assert(forall|i: int| 0 <= i < s1.out.len() ==> on_a_line(#[trigger] s1.out[i], count));
        if let Some(c) = crate::regex::first_match(crate::diagnostics::ENV_ASSIGNMENT_PATTERN@, line_of(lines, m)) {
            if let Some(e) = value_entry(lines, m, c) {
                assert(diag_range(e).end.line == m as u32);
                assert(on_a_line(e, count));
                assert forall|i: int| 0 <= i < s1.out.push(e).len() implies on_a_line(#[trigger] s1.out.push(e)[i], count) by {
                    if i < s1.out.len() {
                        assert(s1.out.push(e)[i] == s1.out[i]);
                    }
                }
            }
        }
    }
}

/// Every diagnostic of a document lies on a single line of the document.
pub proof fn document_diagnostics_lie_on_lines(lines: Seq<Seq<char>>)
    ensures
        forall|i: int| 0 <= i < document_diagnostics(lines).len() ==> on_a_line(#[trigger] document_diagnostics(lines)[i], lines.len() as int),
{
    let count = lines.len() as int;
    lemma_state_on_lines(lines, count);
    let s = doc_state(lines, count);
    lemma_flush_on_lines(s.header, count);
    lemma_flush_on_lines(s.items, count);
    lemma_out_concat(s.out, flush_spec(s.header), count);
    lemma_out_concat(s.out + flush_spec(s.header), flush_spec(s.items), count);
}


// ---------------------------------------------------------------------------
// String rules
// ---------------------------------------------------------------------------

/// No string rule but `startsWith` is set.
pub open spec fn only_starts_with(opts: Seq<(Seq<char>, Seq<char>)>) -> bool {
    &&& option_lookup(opts, "minLength"@) is None
    &&& option_lookup(opts, "maxLength"@) is None
    &&& option_lookup(opts, "isLength"@) is None
    &&& option_lookup(opts, "endsWith"@) is None
    &&& option_lookup(opts, "matches"@) is None
}

/// The `startsWith` rule reports a value exactly when the value does not begin
/// with the prefix: a value `p + rest` is never reported, and a report names
/// a prefix that the value lacks.
pub proof fn starts_with_rule_checks_the_prefix(v: Seq<char>, opts: Seq<(Seq<char>, Seq<char>)>, p: Seq<char>, rest: Seq<char>)
    requires
        option_lookup(opts, "startsWith"@) == Some(p),
    ensures
        starts_with_problem(p + rest, opts) is None,
        starts_with_problem(v, opts) is Some ==> !exists|r: Seq<char>| v == p + r,
        (!exists|r: Seq<char>| v == p + r) ==> starts_with_problem(v, opts) == Some("Value must start with `"@ + p + "`."@),
{
    assert((p + rest).subrange(0, p.len() as int) =~= p);
    if exists|r: Seq<char>| v == p + r {
        let r = choose|r: Seq<char>| v == p + r;
        assert(v.subrange(0, p.len() as int) =~= p);
    }
    if crate::text::is_prefix(p, v) {
        assert(v =~= p + v.skip(p.len() as int));
    }
}

/// With `startsWith=p` as the only length or text rule, a non-empty string
/// value passes exactly when it begins with `p`, and otherwise is reported
/// with the `startsWith` message.
pub proof fn string_value_passes_exactly_with_its_prefix(v: Seq<char>, opts: Seq<(Seq<char>, Seq<char>)>, p: Seq<char>)
    requires
        option_lookup(opts, "startsWith"@) == Some(p),
        only_starts_with(opts),
        v.len() > 0,
    ensures
        (exists|r: Seq<char>| v == p + r) ==> string_value_problem(v, opts) is None,
        (!exists|r: Seq<char>| v == p + r) ==> string_value_problem(v, opts) == Some("Value must start with `"@ + p + "`."@),
{
    starts_with_rule_checks_the_prefix(v, opts, p, Seq::empty());
    if exists|r: Seq<char>| v == p + r {
        let r = choose|r: Seq<char>| v == p + r;
        starts_with_rule_checks_the_prefix(v, opts, p, r);
    }
}

// ---------------------------------------------------------------------------
// Header
// ---------------------------------------------------------------------------

/// The header is the leading block before the first config item: a line with
/// a config item anywhere above it is never in the header, and a header line
/// is a comment.
pub proof fn header_ends_at_the_first_item(lines: Seq<Seq<char>>, n: int, l: int)
    requires
        0 <= l < n,
        is_config_item_spec(line_of(lines, l)),
    ensures
        !is_in_header_spec(lines, n),
        is_in_header_spec(lines, l) ==> starts_with_char(trim(line_of(lines, l)), '#'),
{
}

/// Every decorator named on a header comment line above a header line `n`
/// (before the first config item; blank lines in between do not matter) counts
/// as already used at `n`.
pub proof fn header_names_count_across_the_header(lines: Seq<Seq<char>>, n: int, l: int, prefix: Seq<char>, d: Seq<char>)
    requires
        is_in_header_spec(lines, n),
        0 <= l < n,
        forall|j: int| 0 <= j <= l ==> !is_config_item_spec(trim(#[trigger] line_of(lines, j))),
        line_has_name(line_of(lines, l), d),
    ensures
        existing_name(lines, n, prefix, d),
{
    let pred = trimmed_config_item_pred(lines);
    lemma_first_where(pred, 0, n);
    let fw = first_where(pred, 0, n);
    if fw <= l {
        assert(pred(fw));
        assert(!is_config_item_spec(trim(line_of(lines, fw))));
    }
    assert(name_lines(lines, n).0 <= l < name_lines(lines, n).1);
}

// ---------------------------------------------------------------------------
// Quotes in inline comments
// ---------------------------------------------------------------------------

proof fn lemma_first_where_at(p: spec_fn(int) -> bool, lo: int, hi: int, k: int)
    requires
        lo <= k < hi,
        p(k),
        forall|j: int| lo <= j < k ==> !#[trigger] p(j),
    ensures
        first_where(p, lo, hi) == k,
    decreases k - lo,
{
    if lo < k {
        lemma_first_where_at(p, lo + 1, hi, k);
    }
}

proof fn lemma_quoted_run(q: char, x: Seq<char>, c: Seq<char>, i: int)
    requires
        q == '"' || q == '\'',
        !x.contains(q),
        1 <= i <= x.len() + 1,
    ensures
        quote_before(seq![q] + x + seq![q] + seq![' ', '#'] + c, i) == Some(q),
    decreases i,
{
    let s = seq![q] + x + seq![q] + seq![' ', '#'] + c;
    if i > 1 {
        lemma_quoted_run(q, x, c, i - 1);
        assert(s[i - 1] == x[i - 2]);
        assert(x[i - 2] != q) by {
            if x[i - 2] == q {
                assert(x.contains(q));
            }
        }
        assert(quote_before(s, i - 1) == Some(q));
        assert(quote_before(s, i) == Some(q));
    } else {
        assert(s[0] == q);
        assert(quote_before(s, 0) is None);
        assert(quote_before(s, 1) == Some(q));
    }
}

/// Inside a quoted run only the quote that opened it closes it (the other
/// quote character does not), so a comment after the closing quote is cut and
/// the quoted text is kept whole.
pub proof fn only_the_opening_quote_closes(q: char, x: Seq<char>, c: Seq<char>)
    requires
        q == '"' || q == '\'',
        !x.contains(q),
    ensures
        strip_inline_comment_spec(seq![q] + x + seq![q] + seq![' ', '#'] + c) == seq![q] + x + seq![q],
{
    let s = seq![q] + x + seq![q] + seq![' ', '#'] + c;
    let n = x.len() as int;
    assert(s[n + 1] == q);
    assert(s[n + 2] == ' ');
    assert(s[n + 3] == '#');
    lemma_quoted_run(q, x, c, n + 1);
    assert(quote_before(s, n + 2) is None);
    assert(quote_before(s, n + 3) is None);
    let pred = comment_start_pred(s);
    assert forall|j: int| 0 <= j < n + 3 implies !#[trigger] pred(j) by {
        if j == 0 {
            assert(s[0] == q);
        } else if j <= n + 1 {
            lemma_quoted_run(q, x, c, j);
        }
    }
    assert(pred(n + 3));
    lemma_first_where_at(pred, 0, s.len() as int, n + 3);
    assert(comment_cut(s) == n + 3);
    let t = s.take(n + 3);
    assert(t.last() == ' ');
    assert(is_space(' '));
    assert(trim_end(t) == trim_end(t.drop_last()));
    let u = t.drop_last();
    assert(u =~= seq![q] + x + seq![q]);
    assert(u.last() == q);
    assert(!is_space(q));
    assert(trim_end(u) == u);
}


// ---------------------------------------------------------------------------
// Values of the boolean decorators
// ---------------------------------------------------------------------------

pub open spec fn clamp_boolean_end(k: int) -> int {
    if k < 6 {
        6
    } else if k <= 11 {
        k
    } else {
        11
    }
}

proof fn lemma_select_prefix(rs: Seq<ResolverInfo>, names: Seq<Seq<char>>, k: int)
    requires
        rs.len() == 12,
        0 <= k <= 12,
        forall|j: int| 0 <= j < 12 ==> (names.contains((#[trigger] rs[j]).name@) <==> 6 <= j <= 10),
    ensures
        select_resolvers(rs.take(k), names) == rs.subrange(6, clamp_boolean_end(k)),
    decreases k,
{
    if k == 0 {
        assert(rs.take(0) =~= Seq::<ResolverInfo>::empty());
        assert(rs.subrange(6, 6) =~= Seq::<ResolverInfo>::empty());
    } else {
        lemma_select_prefix(rs, names, k - 1);
        assert(rs.take(k).drop_last() =~= rs.take(k - 1));
        assert(rs.take(k).last() == rs[k - 1]);
        if 6 <= k - 1 <= 10 {
            assert(names.contains(rs[k - 1].name@));
            assert(rs.subrange(6, k - 1) + seq![rs[k - 1]] =~= rs.subrange(6, k));
        } else {
            assert(!names.contains(rs[k - 1].name@));
            assert(rs.subrange(6, clamp_boolean_end(k - 1)) + Seq::<ResolverInfo>::empty() =~= rs.subrange(6, clamp_boolean_end(k)));
        }
    }
}

/// The resolvers that a boolean decorator's value may call: `forEnv`, `eq`,
/// `if`, `not` and `isEmpty`, as the catalog lists them.
proof fn lemma_boolean_resolvers()
    ensures
        select_resolvers(spec_resolvers(), seq!["forEnv"@, "eq"@, "if"@, "not"@, "isEmpty"@]) == spec_resolvers().subrange(6, 11),
        spec_resolvers()[6].name@ == "forEnv"@,
        spec_resolvers()[7].name@ == "eq"@,
        spec_resolvers()[8].name@ == "if"@,
        spec_resolvers()[9].name@ == "not"@,
        spec_resolvers()[10].name@ == "isEmpty"@,
{
    reveal_strlit("concat");
    reveal_strlit("fallback");
    reveal_strlit("exec");
    reveal_strlit("ref");
    reveal_strlit("regex");
    reveal_strlit("remap");
    reveal_strlit("forEnv");
    reveal_strlit("eq");
    reveal_strlit("if");
    reveal_strlit("not");
    reveal_strlit("isEmpty");
    reveal_strlit("inferFromPrefix");
    let rs = spec_resolvers();
    let names = seq!["forEnv"@, "eq"@, "if"@, "not"@, "isEmpty"@];
    assert(!names.contains("concat"@)) by {
        assert("concat"@[0] == 'c');
        if names.contains("concat"@) {
            let j = choose|j: int| 0 <= j < names.len() && names[j] == "concat"@;
            assert(names[j][0] == 'c');
        }
    }
    assert(!names.contains("fallback"@)) by {
        if names.contains("fallback"@) {
            let j = choose|j: int| 0 <= j < names.len() && names[j] == "fallback"@;
            assert(names[j][0] == 'f');
            assert(names[j].len() == 8);
        }
    }
    assert(!names.contains("exec"@)) by {
        if names.contains("exec"@) {
            let j = choose|j: int| 0 <= j < names.len() && names[j] == "exec"@;
            assert(names[j][0] == 'e');
            assert(names[j].len() == 4);
        }
    }
    assert(!names.contains("ref"@)) by {
        if names.contains("ref"@) {
            let j = choose|j: int| 0 <= j < names.len() && names[j] == "ref"@;
            assert(names[j][0] == 'r');
        }
    }
    assert(!names.contains("regex"@)) by {
        if names.contains("regex"@) {
            let j = choose|j: int| 0 <= j < names.len() && names[j] == "regex"@;
            assert(names[j][0] == 'r');
        }
    }
    assert(!names.contains("remap"@)) by {
        if names.contains("remap"@) {
            let j = choose|j: int| 0 <= j < names.len() && names[j] == "remap"@;
            assert(names[j][0] == 'r');
        }
    }
    assert(!names.contains("inferFromPrefix"@)) by {
        if names.contains("inferFromPrefix"@) {
            let j = choose|j: int| 0 <= j < names.len() && names[j] == "inferFromPrefix"@;
            assert(names[j][0] == 'i');
            assert(names[j].len() == 15);
        }
    }
    assert(names[0] == "forEnv"@);
    assert(names[1] == "eq"@);
    assert(names[2] == "if"@);
    assert(names[3] == "not"@);
    assert(names[4] == "isEmpty"@);
    assert forall|j: int| 0 <= j < 12 implies (names.contains((#[trigger] rs[j]).name@) <==> 6 <= j <= 10) by {
        if 6 <= j <= 10 {
            assert(names[j - 6] == rs[j].name@);
        }
    }
    lemma_select_prefix(rs, names, 12);
    assert(rs.take(12) =~= rs);
}


/// Completing the value of `required`, `optional`, `sensitive`, `public` or
/// `disable` proposes the keywords `true` and `false`, then the resolvers
/// `forEnv()`, `eq()`, `if()`, `not()` and `isEmpty()`, each replacing `r`.
pub proof fn boolean_decorator_values_are_proposed(lines: Seq<Seq<char>>, d: DecoratorInfo, r: Range)
    requires
        d.name@ == "required"@ || d.name@ == "optional"@ || d.name@ == "sensitive"@ || d.name@ == "public"@ || d.name@ == "disable"@,
    ensures
        decorator_value_items(lines, d, r) is Some,
        decorator_value_items(lines, d, r)->0.map_values(|i: CompletionItemSpec| i.label) == seq!["true"@, "false"@, "forEnv()"@, "eq()"@, "if()"@, "not()"@, "isEmpty()"@],
        forall|k: int| 0 <= k < decorator_value_items(lines, d, r)->0.len() ==> (#[trigger] decorator_value_items(lines, d, r)->0[k]).edit_range == r,
{
    reveal_strlit("required");
    reveal_strlit("optional");
    reveal_strlit("sensitive");
    reveal_strlit("public");
    reveal_strlit("disable");
    reveal_strlit("currentEnv");
    reveal_strlit("defaultRequired");
    reveal_strlit("defaultSensitive");
    let n = d.name@;
    assert(n != "currentEnv"@ && n != "defaultRequired"@ && n != "defaultSensitive"@) by {
        assert(n[0] != 'c' && n[0] != 'd' || n.len() == 7);
    }
    assert(crate::completion::boolean_decorator(n));
    lemma_boolean_resolvers();
    let rs = spec_resolvers();
    let a = keyword_items(seq!["true"@, "false"@], r);
    let b = resolver_items(rs.subrange(6, 11), r);
    let items = a + b;
    assert(decorator_value_items(lines, d, r) == Some(items));
    reveal_strlit("true");
    reveal_strlit("false");
    reveal_strlit("forEnv");
    reveal_strlit("eq");
    reveal_strlit("if");
    reveal_strlit("not");
    reveal_strlit("isEmpty");
    reveal_strlit("()");
    reveal_strlit("forEnv()");
    reveal_strlit("eq()");
    reveal_strlit("if()");
    reveal_strlit("not()");
    reveal_strlit("isEmpty()");
    assert(items.len() == 7);
    assert(items[0] == keyword_item("true"@, r));
    assert(items[1] == keyword_item("false"@, r));
    assert(items[2] == resolver_item(rs[6], r));
    assert(items[3] == resolver_item(rs[7], r));
    assert(items[4] == resolver_item(rs[8], r));
    assert(items[5] == resolver_item(rs[9], r));
    assert(items[6] == resolver_item(rs[10], r));
    assert("forEnv"@ + "()"@ =~= "forEnv()"@);
    assert("eq"@ + "()"@ =~= "eq()"@);
    assert("if"@ + "()"@ =~= "if()"@);
    assert("not"@ + "()"@ =~= "not()"@);
    assert("isEmpty"@ + "()"@ =~= "isEmpty()"@);
    assert(items.map_values(|i: CompletionItemSpec| i.label) =~= seq!["true"@, "false"@, "forEnv()"@, "eq()"@, "if()"@, "not()"@, "isEmpty()"@]);
    assert forall|k: int| 0 <= k < items.len() implies (#[trigger] items[k]).edit_range == r by {
        if k < 2 {
            assert(items[k] == a[k]);
        } else {
            assert(items[k] == b[k - 2]);
        }
    }
}

} // verus!
