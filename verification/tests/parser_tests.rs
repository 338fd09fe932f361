use varlock_lsp::catalog::{data_type_by_name, decorator_by_name, item_decorators, root_decorators};
use varlock_lsp::parser::{
    filter_available_decorators, get_decorator_comment_prefix, get_decorator_occurrences,
    get_enum_values_from_preceding_comments, get_existing_decorator_names,
    get_preceding_comment_block, get_type_info_from_preceding_comments,
    get_type_option_data_type, is_dynamic_value, is_in_header, option_get, parse_type_options,
    split_comma_args, split_enum_args, strip_inline_comment, type_info_from_captures, unquote,
    LineDocument,
};
use varlock_lsp::regex::Group;

fn names_of(v: &[varlock_lsp::catalog::DecoratorInfo]) -> Vec<&'static str> {
    v.iter().map(|d| d.name).collect()
}

#[test]
fn line_document_splits_on_line_breaks() {
    let doc = LineDocument::new("A=1\r\nB=2\n\nC=3\n");
    assert_eq!(doc.line_count(), 4);
    assert_eq!(doc.line_at(0), "A=1");
    assert_eq!(doc.line_at(1), "B=2");
    assert_eq!(doc.line_at(2), "");
    assert_eq!(doc.line_at(3), "C=3");
    assert_eq!(doc.line_at(4), "");
    assert_eq!(doc.line_at(100), "");
}

#[test]
fn line_document_of_empty_and_single_line_text() {
    assert_eq!(LineDocument::new("").line_count(), 0);
    let doc = LineDocument::new("only");
    assert_eq!(doc.line_count(), 1);
    assert_eq!(doc.line_at(0), "only");
}

#[test]
fn lines_hold_no_line_break() {
    let doc = LineDocument::new("a\nb\r\n\r\nc\n\n");
    assert_eq!(doc.line_count(), 5);
    for i in 0..doc.line_count() {
        assert!(!doc.line_at(i).contains('\n'));
    }
    assert_eq!(doc.line_at(2), "");
    assert_eq!(doc.line_at(3), "c");
}

#[test]
fn strip_inline_comment_cases() {
    assert_eq!(strip_inline_comment("value # comment"), "value");
    assert_eq!(strip_inline_comment("a#b"), "a#b");
    assert_eq!(strip_inline_comment("'x # y' # z"), "'x # y'");
    assert_eq!(strip_inline_comment("# all"), "");
    assert_eq!(strip_inline_comment("  spaced   "), "  spaced");
    assert_eq!(strip_inline_comment("\"open # still quoted"), "\"open # still quoted");
    assert_eq!(strip_inline_comment("tab\t# c"), "tab");
}

#[test]
fn strip_inline_comment_is_idempotent() {
    for s in ["value # comment", "'x # y' # z", "a  ", "\"a\" #b #c", ""] {
        let once = strip_inline_comment(s);
        assert_eq!(strip_inline_comment(once), once);
        assert!(s.starts_with(once));
        assert!(!once.ends_with(char::is_whitespace));
    }
}

#[test]
fn decorator_comment_prefix_cases() {
    assert_eq!(
        get_decorator_comment_prefix("  # @required @type=string # note"),
        Some("@required @type=string")
    );
    assert_eq!(get_decorator_comment_prefix("#@x"), Some("@x"));
    assert_eq!(get_decorator_comment_prefix("# plain comment"), None);
    assert_eq!(get_decorator_comment_prefix("KEY=1"), None);
    assert_eq!(get_decorator_comment_prefix(""), None);
}

#[test]
fn decorator_prefix_starts_with_at() {
    for line in ["# @a", "   #   @b=c # d", "#@e(f)"] {
        let p = get_decorator_comment_prefix(line).unwrap();
        assert!(p.starts_with('@'));
    }
}

#[test]
fn header_lines_and_item_lines() {
    let doc = LineDocument::new("# @currentEnv=$APP_ENV\n\n# @required\nKEY=1\n# @sensitive\nOTHER=2");
    assert!(is_in_header(&doc, 0));
    assert!(!is_in_header(&doc, 1));
    assert!(!is_in_header(&doc, 2));
    assert!(!is_in_header(&doc, 4));
    assert!(!is_in_header(&doc, 10));
}

#[test]
fn divider_ends_the_header_block() {
    let doc = LineDocument::new("# @defaultRequired=infer\n# ---\n# @required\nKEY=1");
    assert!(is_in_header(&doc, 0));
    assert!(!is_in_header(&doc, 2));
}

#[test]
fn comment_block_above_a_line() {
    let doc = LineDocument::new("A=1\n# one\n  # two  \nB=2");
    assert_eq!(get_preceding_comment_block(&doc, 3), vec!["# one".to_string(), "# two".to_string()]);
    assert!(get_preceding_comment_block(&doc, 1).is_empty());
    assert!(get_preceding_comment_block(&doc, 0).is_empty());
}

#[test]
fn unquote_cases() {
    assert_eq!(unquote("\"abc\""), "abc");
    assert_eq!(unquote("'a'"), "a");
    assert_eq!(unquote("\"a'"), "\"a'");
    assert_eq!(unquote("\""), "\"");
    assert_eq!(unquote("''"), "");
    assert_eq!(unquote("plain"), "plain");
    assert_eq!(unquote("\"'inner'\""), "'inner'");
}

#[test]
fn comma_args_respect_quotes_and_parentheses() {
    assert_eq!(
        split_comma_args("a, 'b,c', fn(x, y) ,, d"),
        vec!["a".to_string(), "'b,c'".to_string(), "fn(x, y)".to_string(), "d".to_string()]
    );
    assert!(split_comma_args("").is_empty());
    assert!(split_comma_args(" , ,").is_empty());
    assert_eq!(split_comma_args("x)),y"), vec!["x))".to_string(), "y".to_string()]);
}

#[test]
fn comma_args_are_trimmed_and_nonempty() {
    for part in split_comma_args("  one ,two,  (a, b)  , \"q, r\" ,") {
        assert!(!part.is_empty());
        assert_eq!(part.trim(), part);
    }
}

#[test]
fn enum_args_strip_quotes() {
    assert_eq!(
        split_enum_args("dev, 'staging', \"prod\" ,"),
        vec!["dev".to_string(), "staging".to_string(), "prod".to_string()]
    );
    assert_eq!(split_enum_args("\"' a'\""), vec!["a".to_string()]);
    assert!(split_enum_args("'', \"\"").is_empty());
}

#[test]
fn type_options_keep_the_last_entry() {
    let opts = parse_type_options("minLength=8, startsWith='sk_', matches=\"a,b\", bare, =x, minLength=9");
    assert_eq!(option_get(&opts, "minLength").map(|s| s.as_str()), Some("9"));
    assert_eq!(option_get(&opts, "startsWith").map(|s| s.as_str()), Some("sk_"));
    assert_eq!(option_get(&opts, "matches").map(|s| s.as_str()), Some("a,b"));
    assert_eq!(option_get(&opts, "bare"), None);
    assert_eq!(option_get(&opts, ""), None);
}

#[test]
fn existing_names_in_the_comment_block() {
    let doc = LineDocument::new("# @required\n# @type=string\nKEY=1");
    let names = get_existing_decorator_names(&doc, 2, "@sensitive");
    assert_eq!(names.len(), 3);
    for n in ["required", "type", "sensitive"] {
        assert!(names.iter().any(|x| x == n));
    }
}

#[test]
fn existing_names_in_the_header() {
    let doc = LineDocument::new("# @currentEnv=$ENV\n# @defaultRequired=infer\n# @");
    let names = get_existing_decorator_names(&doc, 2, "@");
    assert_eq!(names.len(), 2);
    assert!(names.iter().any(|x| x == "currentEnv"));
    assert!(names.iter().any(|x| x == "defaultRequired"));
}

#[test]
fn used_and_conflicting_decorators_are_not_offered() {
    let existing = vec!["required".to_string(), "type".to_string()];
    let available = filter_available_decorators(&item_decorators(), &existing);
    assert_eq!(names_of(&available), vec!["sensitive", "public", "example", "docsUrl", "docs", "icon"]);
}

#[test]
fn function_decorators_stay_available() {
    let existing = vec!["import".to_string(), "disable".to_string()];
    let available = filter_available_decorators(&root_decorators(), &existing);
    let names = names_of(&available);
    assert!(names.contains(&"import"));
    assert!(!names.contains(&"disable"));
    assert_eq!(names.len(), root_decorators().len() - 1);
}

#[test]
fn enum_values_from_the_comment_block() {
    let doc = LineDocument::new("# @type=enum(a, 'b', c)\n# @required\nK=a\nL=1");
    assert_eq!(
        get_enum_values_from_preceding_comments(&doc, 2),
        Some(vec!["a".to_string(), "b".to_string(), "c".to_string()])
    );
    assert_eq!(get_enum_values_from_preceding_comments(&doc, 3), None);
    assert_eq!(get_enum_values_from_preceding_comments(&doc, 0), None);
}

#[test]
fn data_type_whose_options_are_being_typed() {
    assert_eq!(get_type_option_data_type("@type=string(min").map(|d| d.name), Some("string"));
    assert_eq!(get_type_option_data_type("@required @type=number(min=1, ").map(|d| d.name), Some("number"));
    assert!(get_type_option_data_type("@type=foo(").is_none());
    assert!(get_type_option_data_type("@type=string(a) x").is_none());
    assert!(get_type_option_data_type("@type=string").is_none());
}

#[test]
fn type_info_from_the_comment_block() {
    let doc = LineDocument::new("# @type=number(min=1, max=10)\nPORT=5\n# @type=enum(x, y)\nE=x\n# @type=string\n# @required\nS=1");
    let t = get_type_info_from_preceding_comments(&doc, 1).unwrap();
    assert_eq!(t.name, "number");
    assert!(t.args.is_empty());
    assert_eq!(option_get(&t.options, "min").map(|s| s.as_str()), Some("1"));
    assert_eq!(option_get(&t.options, "max").map(|s| s.as_str()), Some("10"));
    let e = get_type_info_from_preceding_comments(&doc, 3).unwrap();
    assert_eq!(e.name, "enum");
    assert_eq!(e.args, vec!["x".to_string(), "y".to_string()]);
    assert!(e.options.is_empty());
    assert_eq!(get_type_info_from_preceding_comments(&doc, 6).unwrap().name, "string");
    assert!(get_type_info_from_preceding_comments(&doc, 0).is_none());
    let plain = LineDocument::new("# @required
# a note
S=1");
    assert!(get_type_info_from_preceding_comments(&plain, 2).is_none());
}

#[test]
fn type_declared_above_other_decorators() {
    let doc = LineDocument::new("# @type=enum(development, staging, production)\n# @required\nNODE_ENV=development");
    let t = get_type_info_from_preceding_comments(&doc, 2).unwrap();
    assert_eq!(t.name, "enum");
    assert_eq!(t.args, vec!["development".to_string(), "staging".to_string(), "production".to_string()]);
    assert!(t.options.is_empty());
}

#[test]
fn nearest_type_declaration_wins() {
    let doc = LineDocument::new("# @type=number\n# note\n# @type=port(max=9) @required\nP=1");
    let t = get_type_info_from_preceding_comments(&doc, 3).unwrap();
    assert_eq!(t.name, "port");
    assert_eq!(option_get(&t.options, "max").map(|s| s.as_str()), Some("9"));
}

#[test]
fn enum_values_stop_at_the_closing_parenthesis() {
    let doc = LineDocument::new("# @type=enum(a, b) @docs(https://x.io)\nX=a");
    assert_eq!(get_enum_values_from_preceding_comments(&doc, 1), Some(vec!["a".to_string(), "b".to_string()]));
    let t = get_type_info_from_preceding_comments(&doc, 1).unwrap();
    assert_eq!(t.args, vec!["a".to_string(), "b".to_string()]);
    let o = get_type_info_from_preceding_comments(&LineDocument::new("# @type=string(minLength=2) @docs(x)\nS=ab"), 1).unwrap();
    assert_eq!(o.options.len(), 1);
    assert_eq!(option_get(&o.options, "minLength").map(|s| s.as_str()), Some("2) @docs(x"));
}

#[test]
fn type_options_may_hold_parentheses() {
    let doc = LineDocument::new("# @type=string(matches=\"^(a|b)$\", minLength=1)\nS=c");
    let t = get_type_info_from_preceding_comments(&doc, 1).unwrap();
    assert_eq!(option_get(&t.options, "matches").map(|s| s.as_str()), Some("^(a|b)$"));
    assert_eq!(option_get(&t.options, "minLength").map(|s| s.as_str()), Some("1"));
}

#[test]
fn dynamic_values() {
    assert!(is_dynamic_value("$OTHER"));
    assert!(is_dynamic_value("prefix-$_X"));
    assert!(!is_dynamic_value("prefix-${X}"));
    assert!(is_dynamic_value("exec(ls)"));
    assert!(!is_dynamic_value("plain"));
    assert!(!is_dynamic_value("a$1"));
    assert!(!is_dynamic_value("(x)"));
}

#[test]
fn decorator_occurrences_with_offsets() {
    let occs = get_decorator_occurrences("# @required @type=enum(a, b) @docs(https://x)", 3);
    assert_eq!(occs.len(), 3);
    assert_eq!(occs[0].name, "required");
    assert_eq!((occs[0].line, occs[0].start, occs[0].end, occs[0].is_function_call), (3, 2, 11, false));
    assert_eq!(occs[1].name, "type");
    assert_eq!((occs[1].start, occs[1].end, occs[1].is_function_call), (12, 25, false));
    assert_eq!(occs[2].name, "docs");
    assert_eq!((occs[2].start, occs[2].end, occs[2].is_function_call), (29, 45, true));
    assert!(get_decorator_occurrences("KEY=1", 0).is_empty());
}

#[test]
fn catalog_lookups_find_their_names() {
    for d in root_decorators().iter().chain(item_decorators().iter()) {
        assert_eq!(decorator_by_name(d.name).unwrap().name, d.name);
    }
    assert!(decorator_by_name("nope").is_none());
    assert_eq!(data_type_by_name("port").unwrap().name, "port");
    assert!(data_type_by_name("Port").is_none());
}

#[test]
fn type_info_from_given_captures() {
    let group = |start: usize, end: usize, text: &str| Some(Group { start, end, text: text.to_string() });
    let e = type_info_from_captures(&vec![group(0, 18, "@type=enum(a, 'b')"), group(6, 10, "enum"), group(11, 17, "a, 'b'")]);
    assert_eq!(e.name, "enum");
    assert_eq!(e.args, vec!["a".to_string(), "b".to_string()]);
    assert!(e.options.is_empty());
    let n = type_info_from_captures(&vec![group(0, 17, "@type=port(max=9)"), group(6, 10, "port"), group(11, 16, "max=9")]);
    assert_eq!(n.name, "port");
    assert!(n.args.is_empty());
    assert_eq!(option_get(&n.options, "max").map(|s| s.as_str()), Some("9"));
    let bare = type_info_from_captures(&vec![group(0, 10, "@type=uuid"), group(6, 10, "uuid"), None]);
    assert_eq!(bare.name, "uuid");
    assert!(bare.options.is_empty());
}

#[test]
fn lines_rejoin_to_the_text() {
    for text in ["", "a", "a\n", "a\nb", "a\n\nb\n", "\n\n"] {
        let doc = LineDocument::new(text);
        let mut joined = String::new();
        for i in 0..doc.line_count() {
            joined.push_str(doc.line_at(i));
            joined.push('\n');
        }
        if text.is_empty() || text.ends_with('\n') {
            assert_eq!(joined, text);
        } else {
            assert_eq!(joined, format!("{}\n", text));
        }
    }
}

#[test]
fn plain_text_splits_at_every_comma() {
    let s = " a, b ,,c, d e ";
    let expected: Vec<String> = s.split(',').map(|p| p.trim()).filter(|p| !p.is_empty()).map(String::from).collect();
    assert_eq!(split_comma_args(s), expected);
}

#[test]
fn occurrences_are_on_their_line() {
    for o in get_decorator_occurrences("  # @a @b(x) @c=d", 7) {
        assert_eq!(o.line, 7);
    }
    assert!(get_decorator_occurrences("# note @a", 1).is_empty());
}
