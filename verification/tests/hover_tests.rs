use varlock_lsp::catalog::{decorator_by_name, item_decorators, root_decorators};
use varlock_lsp::hover::{get_hover, hover_among};
use varlock_lsp::regex::Group;
use varlock_lsp::parser::LineDocument;
use varlock_lsp::protocol::{Position, Range};

fn hover(text: &str, line: u32, character: u32) -> Option<varlock_lsp::protocol::Hover> {
    get_hover(&LineDocument::new(text), Position::new(line, character))
}

#[test]
fn hover_on_a_decorator() {
    let h = hover("# @required @type=string", 0, 5).unwrap();
    let d = decorator_by_name("required").unwrap();
    assert_eq!(h.contents, format!("{}\n\n{}", d.summary, d.documentation));
    assert_eq!(h.range, Range::new(Position::new(0, 2), Position::new(0, 11)));
}

#[test]
fn hover_shows_the_deprecation_note() {
    let h = hover("# @envFlag=APP_ENV", 0, 4).unwrap();
    let d = decorator_by_name("envFlag").unwrap();
    assert_eq!(
        h.contents,
        format!("{}\n\n{}\n\n**Deprecated:** Use @currentEnv instead.", d.summary, d.documentation)
    );
    assert_eq!(h.range, Range::new(Position::new(0, 2), Position::new(0, 10)));
}

#[test]
fn hover_at_the_edges_of_a_word() {
    assert_eq!(hover("# @required", 0, 2).unwrap().range.start, Position::new(0, 2));
    assert_eq!(hover("# @required", 0, 11).unwrap().range.end, Position::new(0, 11));
}

#[test]
fn hover_prefers_the_later_of_two_touching_words() {
    let h = hover("# @required@sensitive", 0, 11).unwrap();
    assert_eq!(h.range, Range::new(Position::new(0, 11), Position::new(0, 21)));
    let d = decorator_by_name("sensitive").unwrap();
    assert!(h.contents.starts_with(d.summary));
}

#[test]
fn hover_on_a_later_line() {
    let h = hover("KEY=1\n  # @public", 1, 6).unwrap();
    assert_eq!(h.range, Range::new(Position::new(1, 4), Position::new(1, 11)));
}

#[test]
fn no_hover_outside_decorators() {
    assert!(hover("KEY=@required", 0, 6).is_none());
    assert!(hover("# @required", 0, 100).is_none());
    assert!(hover("# hello", 0, 3).is_none());
    assert!(hover("# @nothing", 0, 4).is_none());
    assert!(hover("# @required", 3, 0).is_none());
    assert!(hover("#   @required", 0, 1).is_none());
}

#[test]
fn every_builtin_decorator_has_hover() {
    for d in root_decorators().iter().chain(item_decorators().iter()) {
        let line = format!("# @{}", d.name);
        let h = hover(&line, 0, 3).unwrap();
        assert!(h.contents.starts_with(d.summary));
        assert!(h.contents.contains(d.documentation));
        assert_eq!(h.range.start, Position::new(0, 2));
        assert_eq!(h.range.end.character as usize, line.len());
    }
}

#[test]
fn hover_covers_the_cursor() {
    let text = "# @required @type=string @docs(https://a) @sensitive";
    for c in 0..=(text.len() as u32) {
        if let Some(h) = hover(text, 0, c) {
            assert!(h.range.start.character <= c && c <= h.range.end.character);
            assert_eq!(h.range.start.line, 0);
        }
    }
}

#[test]
fn hover_among_given_word_matches() {
    let word = |start: usize, end: usize, text: &str| {
        vec![Some(Group { start, end, text: text.to_string() })]
    };
    let words = vec![word(0, 9, "@required"), word(9, 16, "@public"), word(20, 25, "hello")];
    let h = hover_among(Position::new(4, 9), &words).unwrap();
    assert_eq!(h.range, Range::new(Position::new(4, 9), Position::new(4, 16)));
    assert!(h.contents.starts_with(decorator_by_name("public").unwrap().summary));
    assert_eq!(hover_among(Position::new(4, 3), &words).unwrap().range.end, Position::new(4, 9));
    assert!(hover_among(Position::new(4, 22), &words).is_none());
    assert!(hover_among(Position::new(4, 18), &words).is_none());
    assert!(hover_among(Position::new(0, 0), &Vec::new()).is_none());
    assert!(hover_among(Position::new(0, 0), &vec![vec![None]]).is_none());
}
