//! Hover: the documentation of the decorator under the cursor.
use vstd::prelude::*;
use crate::catalog::{DecoratorInfo, decorator_named, decorator_by_name};
use crate::parser::{LineDocument, line_of};
use crate::protocol::{Hover, HoverSpec, Position, Range};
use crate::regex::{all, all_matches, group_text, groups_view, matches_view, match_start, match_end, Group, GroupView};
use crate::text::{byte_len, str_byte_len, trim, trim_str, starts_with_char, starts_with_ch, concat3};

verus! {

/// A word, optionally preceded by `@`.
pub const WORD_PATTERN: &'static str = r"@?[a-zA-Z0-9]+";

/// Of the matches `ms`, the last one whose span touches byte `b`.
pub open spec fn hovered_match(ms: Seq<Seq<Option<GroupView>>>, b: int) -> Option<Seq<Option<GroupView>>>
    decreases ms.len(),
{
    if ms.len() == 0 {
        None
    } else if match_start(ms.last()) <= b <= match_end(ms.last()) {
        Some(ms.last())
    } else {
        hovered_match(ms.drop_last(), b)
    }
}

/// The hover text of a decorator: summary, documentation, and the
/// deprecation note where there is one.
pub open spec fn hover_text(d: DecoratorInfo) -> Seq<char> {
    d.summary@ + "\n\n"@ + d.documentation@ + match d.deprecated {
        Some(note) => "\n\n**Deprecated:** "@ + note@,
        None => Seq::empty(),
    }
}

/// The hover that the word matches `words` give at `pos`: the last match
/// that touches the cursor, when it is `@` and the name of a decorator.
pub open spec fn word_hover(pos: Position, words: Seq<Seq<Option<GroupView>>>) -> Option<HoverSpec> {
    match hovered_match(words, pos.character as int) {
        Some(c) => {
            let t = group_text(c, 0);
            if !starts_with_char(t, '@') {
                None
            } else {
                match decorator_named(t.drop_first()) {
                    Some(d) => Some(HoverSpec {
                        contents: hover_text(d),
                        range: Range {
                            start: Position { line: pos.line, character: match_start(c) as u32 },
                            end: Position { line: pos.line, character: match_end(c) as u32 },
                        },
                    }),
                    None => None,
                }
            }
        },
        None => None,
    }
}

/// The hover for `pos`: only on comment lines, only within the line, and only
/// over a known `@decorator` word.
pub open spec fn hover_spec(lines: Seq<Seq<char>>, pos: Position) -> Option<HoverSpec> {
    let line = line_of(lines, pos.line as int);
    if !starts_with_char(trim(line), '#') {
        None
    } else if pos.character > byte_len(line) {
        None
    } else {
        word_hover(pos, all_matches(WORD_PATTERN@, line))
    }
}

fn decorator_hover_text(d: &DecoratorInfo) -> (r: String)
    ensures
        r@ == hover_text(*d),
{
    let head = concat3(d.summary, "\n\n", d.documentation);
    match d.deprecated {
        Some(note) => {
            let tail = concat3(head.as_str(), "\n\n**Deprecated:** ", note);
            tail
        },
        None => {
            assert(head@ + Seq::<char>::empty() =~= head@);
            head
        },
    }
}

/// The hover at `position` among the word matches `words` of its line.
pub fn hover_among(position: Position, words: &Vec<Vec<Option<Group>>>) -> (r: Option<Hover>)
    ensures
        r is None <==> word_hover(position, matches_view(words@)) is None,
        r matches Some(h) ==> word_hover(position, matches_view(words@)) == Some(h@),
{
    let ghost mv = matches_view(words@);
    let char_pos = position.character as usize;
    let mut best: Option<usize> = None;
    let mut k: usize = 0;
    while k < words.len()
        invariant
            k <= words.len(),
            mv == matches_view(words@),
            char_pos == position.character,
            match best {
                Some(b) => b < k && hovered_match(mv.take(k as int), char_pos as int) == Some(mv[b as int]),
                None => hovered_match(mv.take(k as int), char_pos as int) is None,
            },
        decreases words.len() - k,
    {
        assert(mv.take(k + 1).drop_last() =~= mv.take(k as int));
        assert(mv.take(k + 1).last() == mv[k as int]);
        assert(mv[k as int] == groups_view(words@[k as int]@));
        let (start, end) = if words[k].len() > 0 {
            match &words[k][0] {
                Some(g) => {
                    assert(groups_view(words@[k as int]@)[0] == Some(crate::regex::group_view(*g)));
                    (g.start, g.end)
                },
                None => (0, 0),
            }
        } else {
            (0, 0)
        };
        assert(start == match_start(mv[k as int]) && end == match_end(mv[k as int]));
        if start <= char_pos && end >= char_pos {
            best = Some(k);
        }
        k = k + 1;
    }
    assert(mv.take(mv.len() as int) =~= mv);
    let b = match best {
        Some(b) => b,
        None => return None,
    };
    let c = &words[b];
    assert(mv[b as int] == groups_view(c@));
    let (start, end, text) = if c.len() > 0 {
        match &c[0] {
            Some(g) => {
                assert(groups_view(c@)[0] == Some(crate::regex::group_view(*g)));
                (g.start, g.end, g.text.as_str())
            },
            None => return None,
        }
    } else {
        return None;
    };
    if !starts_with_ch(text, '@') {
        return None;
    }
    let name = text.substring_char(1, text.unicode_len());
    assert(name@ =~= text@.drop_first());
    let dec = match decorator_by_name(name) {
        Some(d) => d,
        None => return None,
    };
    let contents = decorator_hover_text(&dec);
    Some(Hover {
        contents,
        range: Range {
            start: Position { line: position.line, character: start as u32 },
            end: Position { line: position.line, character: end as u32 },
        },
    })
}

/// The hover for `position` in `doc`, or `None` where there is nothing to show.
pub fn get_hover(doc: &LineDocument, position: Position) -> (r: Option<Hover>)
    ensures
        r is None <==> hover_spec(doc@, position) is None,
        r matches Some(h) ==> hover_spec(doc@, position) == Some(h@),
{
    let line_text = doc.line_at(position.line as usize);
    if !starts_with_ch(trim_str(line_text), '#') {
        return None;
    }
    if position.character as usize > str_byte_len(line_text) {
        return None;
    }
    let words = all(WORD_PATTERN, line_text);
    hover_among(position, &words)
}

} // verus!
