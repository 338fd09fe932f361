use varlock_lsp::diagnostics::{
    create_decorator_diagnostics, to_range, validate_document, validate_ip_version,
    validate_static_value, validate_string_value, validate_url_value, value_diagnostic, CoreDiagnostic,
    DocumentDiagnostic, PendingKind, ValueCheck,
};
use varlock_lsp::parser::{parse_type_options, DecoratorOccurrence, LineDocument, TypeInfo};
use varlock_lsp::protocol::{Position, Range};
use varlock_lsp::regex::Group;

fn occ(name: &str, line: usize, start: usize, end: usize, call: bool) -> DecoratorOccurrence {
    DecoratorOccurrence { name: name.to_string(), line, start, end, is_function_call: call }
}

fn typed(name: &str, args: &[&str], options: &str) -> TypeInfo {
    TypeInfo {
        name: name.to_string(),
        args: args.iter().map(|a| a.to_string()).collect(),
        options: parse_type_options(options),
    }
}

fn invalid(c: ValueCheck) -> Option<String> {
    match c {
        ValueCheck::Invalid(m) => Some(m),
        _ => None,
    }
}

fn is_valid(c: &ValueCheck) -> bool {
    matches!(c, ValueCheck::Valid)
}

fn range(line: u32, start: u32, end: u32) -> Range {
    Range::new(Position::new(line, start), Position::new(line, end))
}

fn ready(d: &DocumentDiagnostic) -> (Range, String) {
    match d {
        DocumentDiagnostic::Ready(x) => (x.range, x.message.clone()),
        DocumentDiagnostic::Pending(_) => panic!("expected a finished diagnostic"),
    }
}

#[test]
fn repeated_and_conflicting_decorators() {
    let occs = vec![
        occ("required", 0, 2, 11, false),
        occ("optional", 0, 12, 21, false),
        occ("required", 1, 2, 11, false),
    ];
    let d = create_decorator_diagnostics(&occs);
    let got: Vec<(usize, usize, usize, String)> = d.iter().map(|x| (x.line, x.start, x.end, x.message.clone())).collect();
    assert_eq!(
        got,
        vec![
            (1, 2, 11, "@required can only be used once in the same decorator block.".to_string()),
            (0, 2, 11, "@required and @optional cannot be used together.".to_string()),
            (0, 12, 21, "@required and @optional cannot be used together.".to_string()),
            (1, 2, 11, "@required and @optional cannot be used together.".to_string()),
        ]
    );
}

#[test]
fn function_decorators_may_repeat() {
    let occs = vec![occ("docs", 0, 2, 10, true), occ("docs", 0, 11, 19, true)];
    assert!(create_decorator_diagnostics(&occs).is_empty());
    let unknown_calls = vec![occ("custom", 0, 2, 10, true), occ("custom", 0, 11, 19, true)];
    assert!(create_decorator_diagnostics(&unknown_calls).is_empty());
    let unknown_plain = vec![occ("custom", 0, 2, 9, false), occ("custom", 0, 10, 17, false)];
    assert_eq!(create_decorator_diagnostics(&unknown_plain).len(), 1);
}

#[test]
fn distinct_compatible_block_is_clean() {
    let occs = vec![occ("required", 0, 2, 11, false), occ("sensitive", 0, 12, 22, false), occ("type", 1, 2, 13, false)];
    assert!(create_decorator_diagnostics(&occs).is_empty());
    assert!(create_decorator_diagnostics(&Vec::new()).is_empty());
}

#[test]
fn a_range_gets_one_conflict_diagnostic() {
    let occs = vec![
        occ("sensitive", 0, 2, 12, false),
        occ("public", 0, 2, 12, false),
    ];
    let d = create_decorator_diagnostics(&occs);
    assert_eq!(d.len(), 1);
    assert_eq!(d[0].message, "@sensitive and @public cannot be used together.");
}

#[test]
fn core_diagnostic_range() {
    let d = CoreDiagnostic { line: 3, start: 4, end: 9, message: String::new() };
    assert_eq!(to_range(&d), range(3, 4, 9));
}

#[test]
fn string_values() {
    let none = parse_type_options("");
    assert_eq!(validate_string_value("", &none).as_deref(), Some("Value cannot be empty."));
    assert_eq!(validate_string_value("", &parse_type_options("allowEmpty=true")), None);
    assert_eq!(
        validate_string_value("ab", &parse_type_options("minLength=3")).as_deref(),
        Some("Value must be at least 3 characters long.")
    );
    assert_eq!(validate_string_value("abc", &parse_type_options("minLength=3")), None);
    assert_eq!(validate_string_value("ab", &parse_type_options("minLength=x")), None);
    assert_eq!(
        validate_string_value("abcd", &parse_type_options("maxLength=3")).as_deref(),
        Some("Value must be at most 3 characters long.")
    );
    assert_eq!(
        validate_string_value("ab", &parse_type_options("isLength=3")).as_deref(),
        Some("Value must be exactly 3 characters long.")
    );
    assert_eq!(validate_string_value("é", &parse_type_options("isLength=2")), None);
    assert_eq!(
        validate_string_value("pk_1", &parse_type_options("startsWith=sk_")).as_deref(),
        Some("Value must start with `sk_`.")
    );
    assert_eq!(
        validate_string_value("a.txt", &parse_type_options("endsWith=.md")).as_deref(),
        Some("Value must end with `.md`.")
    );
    assert_eq!(
        validate_string_value("abc", &parse_type_options("matches=^[0-9]+$")).as_deref(),
        Some("Value must match `^[0-9]+$`.")
    );
    assert_eq!(validate_string_value("123", &parse_type_options("matches=^[0-9]+$")), None);
    assert_eq!(validate_string_value("abc", &parse_type_options("matches=(")), None);
    let long = format!("matches={}", "a".repeat(201));
    assert_eq!(validate_string_value("b", &parse_type_options(&long)), None);
    assert_eq!(
        validate_string_value("ab", &parse_type_options("minLength=3, startsWith=z")).as_deref(),
        Some("Value must be at least 3 characters long.")
    );
}

#[test]
fn url_values() {
    let none = parse_type_options("");
    assert_eq!(
        validate_url_value("example.com", &none).as_deref(),
        Some("URL must include a protocol unless prependHttps=true.")
    );
    let prepend = parse_type_options("prependHttps=true");
    assert_eq!(
        validate_url_value("https://example.com", &prepend).as_deref(),
        Some("URL should omit the protocol when prependHttps=true.")
    );
    assert_eq!(validate_url_value("example.com", &prepend), None);
    assert_eq!(validate_url_value("https://example.com", &none), None);
    assert_eq!(validate_url_value("http://", &none), None);
    let allowed = parse_type_options("allowedDomains=\"Example.COM, api.example.com\"");
    assert_eq!(validate_url_value("https://example.com/x", &allowed), None);
    assert_eq!(validate_url_value("https://API.example.com", &allowed), None);
    assert_eq!(
        validate_url_value("https://other.org", &allowed).as_deref(),
        Some("URL host must be one of: Example.COM, api.example.com.")
    );
}

#[test]
fn static_values_by_type() {
    assert!(is_valid(&validate_static_value(&typed("boolean", &[], ""), "YES")));
    assert_eq!(invalid(validate_static_value(&typed("boolean", &[], ""), "maybe")).as_deref(), Some("Value must be a boolean."));
    assert!(is_valid(&validate_static_value(&typed("email", &[], ""), "a@b.co")));
    assert_eq!(
        invalid(validate_static_value(&typed("email", &[], ""), "a@b")).as_deref(),
        Some("Value must be a valid email address.")
    );
    assert!(is_valid(&validate_static_value(&typed("semver", &[], ""), "1.2.3-beta+1")));
    assert_eq!(
        invalid(validate_static_value(&typed("semver", &[], ""), "1.2")).as_deref(),
        Some("Value must be a valid semantic version.")
    );
    assert!(is_valid(&validate_static_value(&typed("isoDate", &[], ""), "2024-01-31")));
    assert!(is_valid(&validate_static_value(&typed("isoDate", &[], ""), "2024-01-31T10:00:00Z")));
    assert_eq!(
        invalid(validate_static_value(&typed("isoDate", &[], ""), "2024-1-31")).as_deref(),
        Some("Value must be a valid ISO date.")
    );
    assert!(is_valid(&validate_static_value(&typed("uuid", &[], ""), "123e4567-e89b-12d3-a456-426614174000")));
    assert_eq!(
        invalid(validate_static_value(&typed("uuid", &[], ""), "123e4567-e89b-02d3-a456-426614174000")).as_deref(),
        Some("Value must be a valid UUID.")
    );
    assert!(is_valid(&validate_static_value(&typed("md5", &[], ""), "D41D8CD98F00B204E9800998ECF8427E")));
    assert_eq!(
        invalid(validate_static_value(&typed("md5", &[], ""), "xyz")).as_deref(),
        Some("Value must be a valid MD5 hash.")
    );
    assert!(is_valid(&validate_static_value(&typed("enum", &["a", "b"], ""), "b")));
    assert_eq!(
        invalid(validate_static_value(&typed("enum", &["a", "b"], ""), "c")).as_deref(),
        Some("Value must be one of: a, b.")
    );
    assert_eq!(
        invalid(validate_static_value(&typed("string", &[], "minLength=2"), "a")).as_deref(),
        Some("Value must be at least 2 characters long.")
    );
    assert_eq!(
        invalid(validate_static_value(&typed("url", &[], ""), "nope")).as_deref(),
        Some("URL must include a protocol unless prependHttps=true.")
    );
    assert!(matches!(validate_static_value(&typed("number", &[], ""), "1"), ValueCheck::NeedsNumber));
    assert!(matches!(validate_static_value(&typed("port", &[], ""), "1"), ValueCheck::NeedsPort));
    assert!(matches!(validate_static_value(&typed("ip", &[], ""), "1"), ValueCheck::NeedsIp));
    assert!(is_valid(&validate_static_value(&typed("simple-object", &[], ""), "{")));
}

#[test]
fn ip_versions() {
    let v4 = parse_type_options("version=4");
    let v6 = parse_type_options("version=6");
    assert_eq!(validate_ip_version(&v4, 0).as_deref(), Some("Value must be a valid IPv4 or IPv6 address."));
    assert_eq!(validate_ip_version(&v4, 6).as_deref(), Some("Value must be a valid IPv4 address."));
    assert_eq!(validate_ip_version(&v6, 4).as_deref(), Some("Value must be a valid IPv6 address."));
    assert_eq!(validate_ip_version(&v4, 4), None);
    assert_eq!(validate_ip_version(&parse_type_options("version=5"), 4), None);
    assert_eq!(validate_ip_version(&parse_type_options(""), 6), None);
}

#[test]
fn document_with_a_repeated_decorator() {
    let d = validate_document(&LineDocument::new("# @required @required\nKEY=1"));
    assert_eq!(d.len(), 1);
    assert_eq!(
        ready(&d[0]),
        (range(0, 12, 21), "@required can only be used once in the same decorator block.".to_string())
    );
}

#[test]
fn document_with_a_value_outside_its_enum() {
    let d = validate_document(&LineDocument::new("# @type=enum(a, b)\nMODE=c # note"));
    assert_eq!(d.len(), 1);
    assert_eq!(ready(&d[0]), (range(1, 5, 6), "Value must be one of: a, b.".to_string()));
    assert!(validate_document(&LineDocument::new("# @type=enum(a, b)\nMODE=b")).is_empty());
}

#[test]
fn document_values_that_are_skipped() {
    assert!(validate_document(&LineDocument::new("# @type=email\nE=$OTHER")).is_empty());
    assert!(validate_document(&LineDocument::new("# @type=email\nE=")).is_empty());
    assert!(validate_document(&LineDocument::new("# @type=email\nE= # nothing")).is_empty());
    assert!(validate_document(&LineDocument::new("E=not-an-email")).is_empty());
}

#[test]
fn document_values_are_unquoted() {
    let d = validate_document(&LineDocument::new("# @type=email\nE=\"bad\""));
    assert_eq!(ready(&d[0]), (range(1, 2, 7), "Value must be a valid email address.".to_string()));
}

#[test]
fn document_numbers_are_left_pending() {
    let d = validate_document(&LineDocument::new("# @type=number(min=1)\nN=5"));
    assert_eq!(d.len(), 1);
    match &d[0] {
        DocumentDiagnostic::Pending(p) => {
            assert_eq!(p.range, range(1, 2, 3));
            assert_eq!(p.value, "5");
            assert_eq!(p.kind, PendingKind::Number);
            assert_eq!(p.options.len(), 1);
            assert_eq!(p.options[0].key, "min");
            assert_eq!(p.options[0].value, "1");
        }
        DocumentDiagnostic::Ready(_) => panic!("expected a pending check"),
    }
}

#[test]
fn header_and_item_blocks_are_checked_apart() {
    let text = "# @defaultRequired=infer\n\n# @required\nA=1\n# @required\nB=2";
    assert!(validate_document(&LineDocument::new(text)).is_empty());
    let text = "# @disable\n# @disable\n\n# @required\nA=1";
    let d = validate_document(&LineDocument::new(text));
    assert_eq!(d.len(), 1);
    assert_eq!(ready(&d[0]).0, range(1, 2, 10));
}

#[test]
fn open_blocks_close_at_the_end() {
    let d = validate_document(&LineDocument::new("A=1\n# @public @sensitive"));
    assert_eq!(d.len(), 2);
    assert_eq!(ready(&d[0]), (range(1, 2, 9), "@sensitive and @public cannot be used together.".to_string()));
    assert_eq!(ready(&d[1]).0, range(1, 10, 20));
}

#[test]
fn document_without_comments_is_clean() {
    assert!(validate_document(&LineDocument::new("A=1\nB=\nC=$A\n\nnot an assignment")).is_empty());
    assert!(validate_document(&LineDocument::new("")).is_empty());
}

#[test]
fn value_diagnostic_from_given_captures() {
    let doc = LineDocument::new("# @type=enum(a, b)\nMODE=c # note");
    let group = |start: usize, end: usize, text: &str| Some(Group { start, end, text: text.to_string() });
    let caps = vec![group(0, 13, "MODE=c # note"), group(0, 4, "MODE"), group(5, 13, "c # note")];
    match value_diagnostic(&doc, 1, &caps) {
        Some(DocumentDiagnostic::Ready(d)) => {
            assert_eq!(d.range, range(1, 5, 6));
            assert_eq!(d.message, "Value must be one of: a, b.");
        }
        _ => panic!("expected a diagnostic"),
    }
    let ok = vec![group(0, 6, "MODE=a"), group(0, 4, "MODE"), group(5, 6, "a")];
    assert!(value_diagnostic(&doc, 1, &ok).is_none());
    let no_value = vec![group(0, 5, "MODE="), group(0, 4, "MODE"), None];
    assert!(value_diagnostic(&doc, 1, &no_value).is_none());
    assert!(value_diagnostic(&doc, 0, &caps).is_none());
}

#[test]
fn type_declared_above_required_is_checked() {
    let d = validate_document(&LineDocument::new("# @type=enum(development, staging, production)\n# @required\nNODE_ENV=prod"));
    assert_eq!(d.len(), 1);
    assert_eq!(
        ready(&d[0]),
        (range(2, 9, 13), "Value must be one of: development, staging, production.".to_string())
    );
    assert!(validate_document(&LineDocument::new("# @type=enum(development, staging, production)\n# @required\nNODE_ENV=staging")).is_empty());
}

#[test]
fn readme_example_is_clean() {
    let text = "# @currentEnv=$APP_ENV\n# @defaultRequired=infer\n\n# @type=string(minLength=8)\n# @required\nDATABASE_URL=postgres://localhost:5432/mydb\n\n# @type=enum(development, staging, production)\n# @required\nNODE_ENV=development\n\n# @type=number(min=1024, max=65535)\nPORT=3000";
    let d = validate_document(&LineDocument::new(text));
    assert_eq!(d.len(), 1);
    match &d[0] {
        DocumentDiagnostic::Pending(p) => {
            assert_eq!(p.kind, PendingKind::Number);
            assert_eq!(p.value, "3000");
            assert_eq!(p.range, range(12, 5, 9));
        }
        DocumentDiagnostic::Ready(_) => panic!("expected the number check to be left pending"),
    }
}

#[test]
fn document_diagnostics_lie_on_lines() {
    let text = "# @required @required\nA=1\n# @type=email\nE=bad\n# @type=port\nP=1\n# @public @sensitive";
    let doc = LineDocument::new(text);
    let d = validate_document(&doc);
    assert_eq!(d.len(), 5);
    for x in &d {
        let r = match x {
            DocumentDiagnostic::Ready(y) => y.range,
            DocumentDiagnostic::Pending(p) => p.range,
        };
        assert_eq!(r.start.line, r.end.line);
        assert!((r.start.line as usize) < doc.line_count());
    }
}

#[test]
fn matches_pattern_with_parentheses_is_checked() {
    let d = validate_document(&LineDocument::new("# @type=string(matches=\"^(a|b)$\")\nS=c"));
    assert_eq!(d.len(), 1);
    assert_eq!(ready(&d[0]), (range(1, 2, 3), "Value must match `^(a|b)$`.".to_string()));
    assert!(validate_document(&LineDocument::new("# @type=string(matches=\"^(a|b)$\")\nS=b")).is_empty());
}
