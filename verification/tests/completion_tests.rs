use varlock_lsp::catalog::{data_types, decorator_by_name, resolvers, root_decorators};
use varlock_lsp::completion::{build_markdown, get_completions, is_valid_position, reference_key_list};
use varlock_lsp::parser::LineDocument;
use varlock_lsp::protocol::{CompletionItem, CompletionItemKind, Position, Range};

fn at(line: u32, character: u32) -> Position {
    Position::new(line, character)
}

fn complete(text: &str, line: u32, character: u32) -> Option<Vec<CompletionItem>> {
    let doc = LineDocument::new(text);
    let pos = at(line, character);
    assert!(is_valid_position(&doc, pos));
    get_completions(&doc, pos)
}

fn labels(items: &[CompletionItem]) -> Vec<String> {
    items.iter().map(|i| i.label.clone()).collect()
}

fn assert_all_end_at(items: &[CompletionItem], pos: Position) {
    for item in items {
        assert_eq!(item.edit_range.end, pos);
        assert_eq!(item.edit_range.start.line, pos.line);
        assert!(item.edit_range.start.character <= pos.character);
    }
}

#[test]
fn markdown_with_and_without_extra_line() {
    assert_eq!(build_markdown("S", "D", None), "S\n\nD");
    assert_eq!(build_markdown("S", "D", Some("E")), "S\n\nD\n\nE");
}

#[test]
fn reference_keys_are_sorted_and_unique() {
    let doc = LineDocument::new("B_KEY=1\nA_KEY=2\n  B_KEY = 3\n# C=4\nREF=$");
    assert_eq!(
        reference_key_list(&doc),
        vec!["A_KEY".to_string(), "B_KEY".to_string(), "REF".to_string(), "VARLOCK_ENV".to_string()]
    );
    assert_eq!(reference_key_list(&LineDocument::new("")), vec!["VARLOCK_ENV".to_string()]);
}

#[test]
fn references_after_dollar() {
    let items = complete("B_KEY=1\nA_KEY=2\nREF=$", 2, 5).unwrap();
    assert_eq!(labels(&items), vec!["A_KEY", "B_KEY", "REF", "VARLOCK_ENV"]);
    let first = &items[0];
    assert_eq!(first.kind, CompletionItemKind::Variable);
    assert_eq!(first.new_text, "A_KEY");
    assert_eq!(first.edit_range, Range::new(at(2, 5), at(2, 5)));
    assert_eq!(first.detail.as_deref(), Some("Config item reference"));
    assert_eq!(first.documentation.as_deref(), Some("Reference `A_KEY` with `$A_KEY`."));
    assert!(!first.snippet);
}

#[test]
fn partial_reference_is_replaced() {
    let items = complete("A_KEY=2\nREF=$A_", 1, 7).unwrap();
    assert_eq!(items[0].edit_range, Range::new(at(1, 5), at(1, 7)));
    assert_all_end_at(&items, at(1, 7));
}

#[test]
fn root_decorator_names_in_the_header() {
    let items = complete("# @re", 0, 5).unwrap();
    assert_eq!(items.len(), root_decorators().len());
    let first = &items[0];
    assert_eq!(first.label, "@envFlag");
    assert_eq!(first.kind, CompletionItemKind::Property);
    assert_eq!(first.edit_range, Range::new(at(0, 2), at(0, 5)));
    assert_eq!(first.detail.as_deref(), Some("Root decorator"));
    assert_eq!(first.deprecated, Some(true));
    assert_eq!(first.sort_text.as_deref(), Some("z-envFlag"));
    assert!(first.snippet);
    let env = decorator_by_name("envFlag").unwrap();
    assert_eq!(first.new_text, env.insert_text);
    assert_eq!(
        first.documentation.as_deref(),
        Some(build_markdown(env.summary, env.documentation, env.deprecated).as_str())
    );
    let second = &items[1];
    assert_eq!(second.label, "@currentEnv");
    assert_eq!(second.deprecated, None);
    assert_eq!(second.sort_text, None);
}

#[test]
fn item_decorator_names_leave_out_used_and_conflicting() {
    let items = complete("# @required @\nKEY=1", 0, 13).unwrap();
    assert_eq!(
        labels(&items),
        vec!["@sensitive", "@public", "@type", "@example", "@docsUrl", "@docs", "@icon"]
    );
    assert_eq!(items[0].detail.as_deref(), Some("Item decorator"));
    assert_all_end_at(&items, at(0, 13));
    assert_eq!(items[0].edit_range.start, at(0, 12));
}

#[test]
fn data_types_after_type_equals() {
    let items = complete("# @type=st\nK=1", 0, 10).unwrap();
    assert_eq!(items.len(), data_types().len());
    assert_eq!(items[0].label, "string");
    assert_eq!(items[0].kind, CompletionItemKind::Class);
    assert_eq!(items[0].detail.as_deref(), Some("@type data type"));
    assert_eq!(items[0].edit_range, Range::new(at(0, 8), at(0, 10)));
}

#[test]
fn type_options_inside_parentheses() {
    let items = complete("# @type=string(min\nK=1", 0, 18).unwrap();
    let string = data_types().into_iter().find(|d| d.name == "string").unwrap();
    assert_eq!(items.len(), string.option_snippets.unwrap().len());
    assert_eq!(items[0].label, "minLength");
    assert_eq!(items[0].kind, CompletionItemKind::Field);
    assert_eq!(items[0].detail.as_deref(), Some("@type option"));
    assert_eq!(items[0].edit_range, Range::new(at(0, 15), at(0, 18)));
}

#[test]
fn boolean_decorator_values() {
    let items = complete("# @required=t\nK=1", 0, 13).unwrap();
    assert_eq!(labels(&items), vec!["true", "false", "forEnv()", "eq()", "if()", "not()", "isEmpty()"]);
    assert_eq!(items[0].kind, CompletionItemKind::Value);
    assert_eq!(items[0].detail, None);
    assert_eq!(items[2].kind, CompletionItemKind::Function);
    assert_eq!(items[2].detail.as_deref(), Some("Resolver function"));
    assert_all_end_at(&items, at(0, 13));
    assert_eq!(items[0].edit_range.start, at(0, 12));
}

#[test]
fn default_required_and_default_sensitive_values() {
    let items = complete("# @defaultRequired=i", 0, 20).unwrap();
    assert_eq!(labels(&items), vec!["infer", "true", "false"]);
    let items = complete("# @defaultSensitive=i", 0, 21).unwrap();
    assert_eq!(labels(&items), vec!["true", "false", "inferFromPrefix()"]);
}

#[test]
fn current_env_value_proposes_references() {
    let items = complete("# @currentEnv=A\nAPP_ENV=dev", 0, 15).unwrap();
    assert_eq!(labels(&items), vec!["APP_ENV", "VARLOCK_ENV"]);
    assert_eq!(items[0].edit_range, Range::new(at(0, 14), at(0, 15)));
}

#[test]
fn other_decorator_values_propose_nothing() {
    assert!(complete("# @example=v\nK=1", 0, 12).is_none());
}

#[test]
fn enum_values_for_an_item() {
    let items = complete("# @type=enum(dev, prod)\nMODE=d", 1, 6).unwrap();
    assert_eq!(labels(&items), vec!["dev", "prod"]);
    assert_eq!(items[0].kind, CompletionItemKind::EnumMember);
    assert_eq!(items[0].detail.as_deref(), Some("@type=enum value"));
    assert_eq!(items[0].documentation.as_deref(), Some("Allowed enum value `dev`."));
    assert_eq!(items[0].edit_range, Range::new(at(1, 5), at(1, 6)));
}

#[test]
fn resolvers_after_equals() {
    let items = complete("KEY=fo", 0, 6).unwrap();
    assert_eq!(items.len(), resolvers().len());
    assert_eq!(items[0].label, "concat()");
    assert_eq!(items[0].edit_range, Range::new(at(0, 4), at(0, 6)));
    let items = complete("KEY=concat(a, fa", 0, 16).unwrap();
    assert_eq!(items[0].edit_range, Range::new(at(0, 14), at(0, 16)));
}

#[test]
fn nothing_to_propose() {
    assert!(complete("KEY=", 0, 4).is_none());
    assert!(complete("", 0, 0).is_none());
    assert!(complete("# just a note", 0, 13).is_none());
}

#[test]
fn positions_must_fall_on_character_boundaries() {
    let doc = LineDocument::new("é=1");
    assert!(is_valid_position(&doc, at(0, 0)));
    assert!(!is_valid_position(&doc, at(0, 1)));
    assert!(is_valid_position(&doc, at(0, 2)));
    assert!(is_valid_position(&doc, at(0, 4)));
    assert!(!is_valid_position(&doc, at(0, 5)));
    assert!(is_valid_position(&doc, at(7, 0)));
}

#[test]
fn completions_end_at_the_cursor() {
    let text = "# @currentEnv=$A\n# @type=string(min\nKEY=concat(x, y";
    let doc = LineDocument::new(text);
    for (line, character) in [(0u32, 16u32), (1, 18), (2, 15)] {
        let pos = at(line, character);
        let items = get_completions(&doc, pos).unwrap();
        assert!(!items.is_empty());
        assert_all_end_at(&items, pos);
    }
}
