//! Completion: what to propose at the cursor, from decorators and data
//! types to resolver calls, item references and enum values.
use vstd::prelude::*;
use crate::catalog::{
    DecoratorInfo, DataTypeOption, DataTypeInfo, DataTypeSpec, ResolverInfo, spec_root_decorators,
    spec_item_decorators, spec_data_types, spec_resolvers, root_decorators, item_decorators,
    data_types, resolvers, data_types_view, decorator_named, decorator_by_name,
};
use crate::order::{strictly_sorted, insert_sorted, lemma_sorted_unique};
use crate::protocol::{
    Position, Range, CompletionItem, CompletionItemSpec, CompletionItemKind, items_view,
};
use crate::regex::{first_match, group_text, groups_view, first, group_text_of, Group, GroupView};
use crate::text::{contains_char, concat, concat3, string_of, str_eq, strings_view, byte_len, str_byte_len, chars_of, is_boundary, prefix_before_byte, char_index_at_byte};
use crate::parser::{LineDocument, line_of, get_decorator_comment_prefix, decorator_comment_prefix, lemma_prefix_within, get_existing_decorator_names, existing_name, is_in_header, is_in_header_spec, filter_available_decorators, available_decorators, enum_values_scan, get_enum_values_from_preceding_comments, type_option_data_type, get_type_option_data_type};

verus! {

/// The range that a completion replaces.
pub struct MatchContext {
    pub replace_range: Range,
}

pub open spec fn str_opt(o: Option<&'static str>) -> Option<Seq<char>> {
    match o {
        Some(s) => Some(s@),
        None => None,
    }
}

/// Summary, blank line, documentation, and the extra line after another blank line.
pub open spec fn markdown(summary: Seq<char>, documentation: Seq<char>, extra: Option<Seq<char>>) -> Seq<char> {
    let md = summary + "\n\n"@ + documentation;
    match extra {
        Some(e) => md + "\n\n"@ + e,
        None => md,
    }
}

pub fn build_markdown(summary: &str, documentation: &str, extra_line: Option<&str>) -> (r: String)
    ensures
        r@ == markdown(summary@, documentation@, match extra_line { Some(e) => Some(e@), None => None }),
{
    let md = concat3(summary, "\n\n", documentation);
    match extra_line {
        Some(extra) => concat3(md.as_str(), "\n\n", extra),
        None => md,
    }
}

pub open spec fn decorator_item(info: DecoratorInfo, r: Range) -> CompletionItemSpec {
    CompletionItemSpec {
        label: "@"@ + info.name@,
        kind: CompletionItemKind::Property,
        edit_range: r,
        new_text: info.insert_text@,
        snippet: true,
        detail: Some(if info.scope@ == "root"@ { "Root decorator"@ } else { "Item decorator"@ }),
        documentation: Some(markdown(info.summary@, info.documentation@, str_opt(info.deprecated))),
        deprecated: if info.deprecated is Some { Some(true) } else { None },
        sort_text: if info.deprecated is Some { Some("z-"@ + info.name@) } else { None },
    }
}

pub open spec fn data_type_item(info: DataTypeSpec, r: Range) -> CompletionItemSpec {
    CompletionItemSpec {
        label: info.name@,
        kind: CompletionItemKind::Class,
        edit_range: r,
        new_text: match info.insert_text {
            Some(t) => t@,
            None => info.name@,
        },
        snippet: true,
        detail: Some("@type data type"@),
        documentation: Some(markdown(info.summary@, info.documentation@, None)),
        deprecated: None,
        sort_text: None,
    }
}

pub open spec fn option_item(option: DataTypeOption, r: Range) -> CompletionItemSpec {
    CompletionItemSpec {
        label: option.name@,
        kind: CompletionItemKind::Field,
        edit_range: r,
        new_text: option.insert_text@,
        snippet: true,
        detail: Some("@type option"@),
        documentation: Some(option.documentation@),
        deprecated: None,
        sort_text: None,
    }
}

pub open spec fn resolver_item(info: ResolverInfo, r: Range) -> CompletionItemSpec {
    CompletionItemSpec {
        label: info.name@ + "()"@,
        kind: CompletionItemKind::Function,
        edit_range: r,
        new_text: info.insert_text@,
        snippet: true,
        detail: Some("Resolver function"@),
        documentation: Some(markdown(info.summary@, info.documentation@, None)),
        deprecated: None,
        sort_text: None,
    }
}

pub open spec fn reference_item(key: Seq<char>, r: Range) -> CompletionItemSpec {
    CompletionItemSpec {
        label: key,
        kind: CompletionItemKind::Variable,
        edit_range: r,
        new_text: key,
        snippet: false,
        detail: Some("Config item reference"@),
        documentation: Some("Reference `"@ + key + "` with `$"@ + key + "`."@),
        deprecated: None,
        sort_text: None,
    }
}

pub open spec fn keyword_item(value: Seq<char>, r: Range) -> CompletionItemSpec {
    CompletionItemSpec {
        label: value,
        kind: CompletionItemKind::Value,
        edit_range: r,
        new_text: value,
        snippet: false,
        detail: None,
        documentation: None,
        deprecated: None,
        sort_text: None,
    }
}

pub open spec fn enum_item(value: Seq<char>, r: Range) -> CompletionItemSpec {
    CompletionItemSpec {
        label: value,
        kind: CompletionItemKind::EnumMember,
        edit_range: r,
        new_text: value,
        snippet: false,
        detail: Some("@type=enum value"@),
        documentation: Some("Allowed enum value `"@ + value + "`."@),
        deprecated: None,
        sort_text: None,
    }
}

fn create_decorator_item(info: &DecoratorInfo, ctx: &MatchContext) -> (r: CompletionItem)
    ensures
        r@ == decorator_item(*info, ctx.replace_range),
{
    let detail = if str_eq(info.scope, "root") {
        string_of("Root decorator")
    } else {
        string_of("Item decorator")
    };
    let deprecated = match info.deprecated {
        Some(_) => Some(true),
        None => None,
    };
    let sort_text = match info.deprecated {
        Some(_) => Some(concat("z-", info.name)),
        None => None,
    };
    CompletionItem {
        label: concat("@", info.name),
        kind: CompletionItemKind::Property,
        edit_range: ctx.replace_range,
        new_text: string_of(info.insert_text),
        snippet: true,
        detail: Some(detail),
        documentation: Some(build_markdown(info.summary, info.documentation, info.deprecated)),
        deprecated,
        sort_text,
    }
}

fn create_data_type_item(info: &DataTypeInfo, ctx: &MatchContext) -> (r: CompletionItem)
    ensures
        r@ == data_type_item(info@, ctx.replace_range),
{
    let new_text = match info.insert_text {
        Some(t) => string_of(t),
        None => string_of(info.name),
    };
    CompletionItem {
        label: string_of(info.name),
        kind: CompletionItemKind::Class,
        edit_range: ctx.replace_range,
        new_text,
        snippet: true,
        detail: Some(string_of("@type data type")),
        documentation: Some(build_markdown(info.summary, info.documentation, None)),
        deprecated: None,
        sort_text: None,
    }
}

fn create_data_type_option_item(option: &DataTypeOption, ctx: &MatchContext) -> (r: CompletionItem)
    ensures
        r@ == option_item(*option, ctx.replace_range),
{
    CompletionItem {
        label: string_of(option.name),
        kind: CompletionItemKind::Field,
        edit_range: ctx.replace_range,
        new_text: string_of(option.insert_text),
        snippet: true,
        detail: Some(string_of("@type option")),
        documentation: Some(string_of(option.documentation)),
        deprecated: None,
        sort_text: None,
    }
}

fn create_resolver_item(info: &ResolverInfo, ctx: &MatchContext) -> (r: CompletionItem)
    ensures
        r@ == resolver_item(*info, ctx.replace_range),
{
    CompletionItem {
        label: concat(info.name, "()"),
        kind: CompletionItemKind::Function,
        edit_range: ctx.replace_range,
        new_text: string_of(info.insert_text),
        snippet: true,
        detail: Some(string_of("Resolver function")),
        documentation: Some(build_markdown(info.summary, info.documentation, None)),
        deprecated: None,
        sort_text: None,
    }
}

fn create_reference_item(key: &str, ctx: &MatchContext) -> (r: CompletionItem)
    ensures
        r@ == reference_item(key@, ctx.replace_range),
{
    let a = concat3("Reference `", key, "` with `$");
    CompletionItem {
        label: string_of(key),
        kind: CompletionItemKind::Variable,
        edit_range: ctx.replace_range,
        new_text: string_of(key),
        snippet: false,
        detail: Some(string_of("Config item reference")),
        documentation: Some(concat3(a.as_str(), key, "`.")),
        deprecated: None,
        sort_text: None,
    }
}

fn create_keyword_item(value: &str, ctx: &MatchContext) -> (r: CompletionItem)
    ensures
        r@ == keyword_item(value@, ctx.replace_range),
{
    CompletionItem {
        label: string_of(value),
        kind: CompletionItemKind::Value,
        edit_range: ctx.replace_range,
        new_text: string_of(value),
        snippet: false,
        detail: None,
        documentation: None,
        deprecated: None,
        sort_text: None,
    }
}

fn create_enum_value_item(value: &str, ctx: &MatchContext) -> (r: CompletionItem)
    ensures
        r@ == enum_item(value@, ctx.replace_range),
{
    CompletionItem {
        label: string_of(value),
        kind: CompletionItemKind::EnumMember,
        edit_range: ctx.replace_range,
        new_text: string_of(value),
        snippet: false,
        detail: Some(string_of("@type=enum value")),
        documentation: Some(concat3("Allowed enum value `", value, "`.")),
        deprecated: None,
        sort_text: None,
    }
}

pub fn create_decorator_items(list: &Vec<DecoratorInfo>, ctx: &MatchContext) -> (r: Vec<CompletionItem>)
    ensures
        items_view(r@) == list@.map_values(|d: DecoratorInfo| decorator_item(d, ctx.replace_range)),
{
    let mut out: Vec<CompletionItem> = Vec::new();
    let mut k: usize = 0;
    while k < list.len()
        invariant
            k <= list.len(),
            items_view(out@) == list@.take(k as int).map_values(|d: DecoratorInfo| decorator_item(d, ctx.replace_range)),
        decreases list.len() - k,
    {
        let item = create_decorator_item(&list[k], ctx);
        let ghost before = out@;
        out.push(item);
        assert(items_view(out@) =~= items_view(before).push(item@));
        assert(list@.take(k + 1).map_values(|d: DecoratorInfo| decorator_item(d, ctx.replace_range)) =~= list@.take(k as int).map_values(|d: DecoratorInfo| decorator_item(d, ctx.replace_range)).push(decorator_item(list@[k as int], ctx.replace_range)));
        k = k + 1;
    }
    assert(list@.take(list@.len() as int) =~= list@);
    out
}

pub fn create_data_type_items(list: &Vec<DataTypeInfo>, ctx: &MatchContext) -> (r: Vec<CompletionItem>)
    ensures
        items_view(r@) == data_types_view(list@).map_values(|d: DataTypeSpec| data_type_item(d, ctx.replace_range)),
{
    let ghost lv = data_types_view(list@);
    let mut out: Vec<CompletionItem> = Vec::new();
    let mut k: usize = 0;
    while k < list.len()
        invariant
            k <= list.len(),
            lv == data_types_view(list@),
            items_view(out@) == lv.take(k as int).map_values(|d: DataTypeSpec| data_type_item(d, ctx.replace_range)),
        decreases list.len() - k,
    {
        let item = create_data_type_item(&list[k], ctx);
        let ghost before = out@;
        out.push(item);
        assert(items_view(out@) =~= items_view(before).push(item@));
        assert(lv[k as int] == list@[k as int]@);
        assert(lv.take(k + 1).map_values(|d: DataTypeSpec| data_type_item(d, ctx.replace_range)) =~= lv.take(k as int).map_values(|d: DataTypeSpec| data_type_item(d, ctx.replace_range)).push(data_type_item(lv[k as int], ctx.replace_range)));
        k = k + 1;
    }
    assert(lv.take(lv.len() as int) =~= lv);
    out
}

pub fn create_option_items(list: &Vec<DataTypeOption>, ctx: &MatchContext) -> (r: Vec<CompletionItem>)
    ensures
        items_view(r@) == list@.map_values(|d: DataTypeOption| option_item(d, ctx.replace_range)),
{
    let mut out: Vec<CompletionItem> = Vec::new();
    let mut k: usize = 0;
    while k < list.len()
        invariant
            k <= list.len(),
            items_view(out@) == list@.take(k as int).map_values(|d: DataTypeOption| option_item(d, ctx.replace_range)),
        decreases list.len() - k,
    {
        let item = create_data_type_option_item(&list[k], ctx);
        let ghost before = out@;
        out.push(item);
        assert(items_view(out@) =~= items_view(before).push(item@));
        assert(list@.take(k + 1).map_values(|d: DataTypeOption| option_item(d, ctx.replace_range)) =~= list@.take(k as int).map_values(|d: DataTypeOption| option_item(d, ctx.replace_range)).push(option_item(list@[k as int], ctx.replace_range)));
        k = k + 1;
    }
    assert(list@.take(list@.len() as int) =~= list@);
    out
}

pub fn create_resolver_items(list: &Vec<ResolverInfo>, ctx: &MatchContext) -> (r: Vec<CompletionItem>)
    ensures
        items_view(r@) == list@.map_values(|d: ResolverInfo| resolver_item(d, ctx.replace_range)),
{
    let mut out: Vec<CompletionItem> = Vec::new();
    let mut k: usize = 0;
    while k < list.len()
        invariant
            k <= list.len(),
            items_view(out@) == list@.take(k as int).map_values(|d: ResolverInfo| resolver_item(d, ctx.replace_range)),
        decreases list.len() - k,
    {
        let item = create_resolver_item(&list[k], ctx);
        let ghost before = out@;
        out.push(item);
        assert(items_view(out@) =~= items_view(before).push(item@));
        assert(list@.take(k + 1).map_values(|d: ResolverInfo| resolver_item(d, ctx.replace_range)) =~= list@.take(k as int).map_values(|d: ResolverInfo| resolver_item(d, ctx.replace_range)).push(resolver_item(list@[k as int], ctx.replace_range)));
        k = k + 1;
    }
    assert(list@.take(list@.len() as int) =~= list@);
    out
}

pub fn create_keyword_items(values: &Vec<&'static str>, ctx: &MatchContext) -> (r: Vec<CompletionItem>)
    ensures
        items_view(r@) == values@.map_values(|v: &'static str| keyword_item(v@, ctx.replace_range)),
{
    let mut out: Vec<CompletionItem> = Vec::new();
    let mut k: usize = 0;
    while k < values.len()
        invariant
            k <= values.len(),
            items_view(out@) == values@.take(k as int).map_values(|v: &'static str| keyword_item(v@, ctx.replace_range)),
        decreases values.len() - k,
    {
        let item = create_keyword_item(values[k], ctx);
        let ghost before = out@;
        out.push(item);
        assert(items_view(out@) =~= items_view(before).push(item@));
        assert(values@.take(k + 1).map_values(|v: &'static str| keyword_item(v@, ctx.replace_range)) =~= values@.take(k as int).map_values(|v: &'static str| keyword_item(v@, ctx.replace_range)).push(keyword_item(values@[k as int]@, ctx.replace_range)));
        k = k + 1;
    }
    assert(values@.take(values@.len() as int) =~= values@);
    out
}

pub fn create_enum_value_items(enum_values: &Vec<String>, ctx: &MatchContext) -> (r: Vec<CompletionItem>)
    ensures
        items_view(r@) == strings_view(enum_values@).map_values(|v: Seq<char>| enum_item(v, ctx.replace_range)),
{
    let ghost vv = strings_view(enum_values@);
    let mut out: Vec<CompletionItem> = Vec::new();
    let mut k: usize = 0;
    while k < enum_values.len()
        invariant
            k <= enum_values.len(),
            vv == strings_view(enum_values@),
            items_view(out@) == vv.take(k as int).map_values(|v: Seq<char>| enum_item(v, ctx.replace_range)),
        decreases enum_values.len() - k,
    {
        let item = create_enum_value_item(enum_values[k].as_str(), ctx);
        let ghost before = out@;
        out.push(item);
        assert(items_view(out@) =~= items_view(before).push(item@));
        assert(vv[k as int] == enum_values@[k as int]@);
        assert(vv.take(k + 1).map_values(|v: Seq<char>| enum_item(v, ctx.replace_range)) =~= vv.take(k as int).map_values(|v: Seq<char>| enum_item(v, ctx.replace_range)).push(enum_item(vv[k as int], ctx.replace_range)));
        k = k + 1;
    }
    assert(vv.take(vv.len() as int) =~= vv);
    out
}

// ---------------------------------------------------------------------------
// References to other items
// ---------------------------------------------------------------------------

/// The key of an assignment line.
pub const ENV_KEY_PATTERN: &'static str = r"^\s*([A-Za-z_][A-Za-z0-9_]*)\s*=";

/// The key assigned on `line`, if any.
pub open spec fn line_key(line: Seq<char>) -> Option<Seq<char>> {
    match first_match(ENV_KEY_PATTERN@, line) {
        Some(c) => Some(group_text(c, 1)),
        None => None,
    }
}

/// `VARLOCK_ENV`, or a key assigned somewhere in the document.
pub open spec fn is_reference_key(lines: Seq<Seq<char>>, k: Seq<char>) -> bool {
    k == "VARLOCK_ENV"@ || exists|l: int| 0 <= l < lines.len() && #[trigger] line_key(lines[l]) == Some(k)
}

/// The referenceable keys, sorted, each once.
pub open spec fn reference_keys(lines: Seq<Seq<char>>) -> Seq<Seq<char>> {
    choose|ks: Seq<Seq<char>>| strictly_sorted(ks) && forall|k: Seq<char>| #[trigger] ks.contains(k) <==> is_reference_key(lines, k)
}

pub open spec fn reference_items(lines: Seq<Seq<char>>, r: Range) -> Seq<CompletionItemSpec> {
    reference_keys(lines).map_values(|k: Seq<char>| reference_item(k, r))
}

/// The keys a reference may name.
pub fn reference_key_list(doc: &LineDocument) -> (r: Vec<String>)
    ensures
        strings_view(r@) == reference_keys(doc@),
{
    let mut keys: Vec<String> = Vec::new();
    insert_sorted(&mut keys, string_of("VARLOCK_ENV"));
    let count = doc.line_count();
    let mut i: usize = 0;
    while i < count
        invariant
            i <= count,
            count == doc@.len(),
            strictly_sorted(strings_view(keys@)),
            forall|k: Seq<char>| #[trigger] strings_view(keys@).contains(k) <==> (k == "VARLOCK_ENV"@ || exists|l: int| 0 <= l < i && #[trigger] line_key(doc@[l]) == Some(k)),
        decreases count - i,
    {
        let line_text = doc.line_at(i);
        assert(line_text@ == doc@[i as int]);
        let ghost before = strings_view(keys@);
        match first(ENV_KEY_PATTERN, line_text) {
            Some(c) => {
                let key = group_text_of(&c, 1);
                insert_sorted(&mut keys, key);
            },
            None => {},
        }
        assert(forall|k: Seq<char>| #[trigger] strings_view(keys@).contains(k) <==> (before.contains(k) || line_key(doc@[i as int]) == Some(k)));
        assert forall|k: Seq<char>| #[trigger] strings_view(keys@).contains(k) <==> (k == "VARLOCK_ENV"@ || exists|l: int| 0 <= l < i + 1 && #[trigger] line_key(doc@[l]) == Some(k)) by {
            if exists|l: int| 0 <= l < i + 1 && #[trigger] line_key(doc@[l]) == Some(k) {
                let l = choose|l: int| 0 <= l < i + 1 && #[trigger] line_key(doc@[l]) == Some(k);
                if l < i {
                    assert(exists|l: int| 0 <= l < i && #[trigger] line_key(doc@[l]) == Some(k));
                    assert(before.contains(k));
                }
            }
            if before.contains(k) && k != "VARLOCK_ENV"@ {
                let l = choose|l: int| 0 <= l < i && #[trigger] line_key(doc@[l]) == Some(k);
                assert(0 <= l < i + 1);
            }
            if line_key(doc@[i as int]) == Some(k) {
                assert(0 <= i < i + 1);
            }
        }
        i = i + 1;
    }
    proof {
        let ks = strings_view(keys@);
        assert(strictly_sorted(ks) && forall|k: Seq<char>| #[trigger] ks.contains(k) <==> is_reference_key(doc@, k));
        let other = reference_keys(doc@);
        lemma_sorted_unique(ks, other);
    }
    keys
}

fn create_reference_items(doc: &LineDocument, ctx: &MatchContext) -> (r: Vec<CompletionItem>)
    ensures
        items_view(r@) == reference_items(doc@, ctx.replace_range),
{
    let keys = reference_key_list(doc);
    let ghost kv = strings_view(keys@);
    let mut out: Vec<CompletionItem> = Vec::new();
    let mut k: usize = 0;
    while k < keys.len()
        invariant
            k <= keys.len(),
            kv == strings_view(keys@),
            items_view(out@) == kv.take(k as int).map_values(|v: Seq<char>| reference_item(v, ctx.replace_range)),
        decreases keys.len() - k,
    {
        let item = create_reference_item(keys[k].as_str(), ctx);
        let ghost before = out@;
        out.push(item);
        assert(items_view(out@) =~= items_view(before).push(item@));
        assert(kv[k as int] == keys@[k as int]@);
        assert(kv.take(k + 1).map_values(|v: Seq<char>| reference_item(v, ctx.replace_range)) =~= kv.take(k as int).map_values(|v: Seq<char>| reference_item(v, ctx.replace_range)).push(reference_item(kv[k as int], ctx.replace_range)));
        k = k + 1;
    }
    assert(kv.take(kv.len() as int) =~= kv);
    out
}

// ---------------------------------------------------------------------------
// What the cursor is in
// ---------------------------------------------------------------------------

/// A decorator name being typed: `@na`.
pub const DECORATOR_NAME_CURSOR: &'static str = r"(^|\s)(@[\w\-]*)$";
/// A data type being typed: `@type=str`.
pub const TYPE_VALUE_CURSOR: &'static str = r"(^|\s)@type=([\w\-]*)$";
/// An option of a type being typed: `@type=string(min`.
pub const TYPE_OPTION_CURSOR: &'static str = r"(^|\s)@type=([A-Za-z][\w\-]*)\((?:[^#)]*?,\s*)?([\w\-]*)$";
/// A reference being typed: `$KE`.
pub const REFERENCE_CURSOR: &'static str = r"\$([A-Za-z0-9_]*)$";
/// A resolver name being typed after `=`, `(` or `,`.
pub const RESOLVER_CURSOR: &'static str = r"(?:=\s*|[(,]\s*)([A-Za-z][\w\-]*)$";
/// A decorator value being typed: `@required=tr`.
pub const DECORATOR_VALUE_CURSOR: &'static str = r"(^|\s)@([\w\-]+)=([A-Za-z][\w\-]*)$";
/// An item value being typed: `KEY=val`.
pub const ITEM_VALUE_CURSOR: &'static str = r"^\s*[A-Za-z_][A-Za-z0-9_]*\s*=\s*([A-Za-z0-9._\-]*)$";

/// The range from `n` bytes before the cursor up to the cursor.
pub open spec fn back_range(pos: Position, n: int) -> Range {
    Range { start: Position { line: pos.line, character: (pos.character - n) as u32 }, end: pos }
}

/// The range that group `g` of the captures `c` covers before the cursor.
pub open spec fn group_range(c: Seq<Option<GroupView>>, g: int, pos: Position) -> Option<Range> {
    if 0 <= g < c.len() && c[g] is Some {
        Some(back_range(pos, byte_len(group_text(c, g)) as int))
    } else {
        None
    }
}

/// Where `pattern` matches `hay` (text just before the cursor), the range of group `g`.
pub open spec fn cursor_range(pattern: Seq<char>, hay: Seq<char>, g: int, pos: Position) -> Option<Range> {
    match first_match(pattern, hay) {
        Some(c) => group_range(c, g, pos),
        None => None,
    }
}

/// `r` ends at the cursor and starts on its line, at or before it.
pub open spec fn before_cursor(r: Range, pos: Position) -> bool {
    r.end == pos && r.start.line == pos.line && r.start.character <= pos.character
}

/// Every item replaces a range that ends at the cursor and starts on its
/// line, at or before it.
pub open spec fn ranges_before_cursor(items: Seq<CompletionItemSpec>, pos: Position) -> bool {
    forall|i: int| 0 <= i < items.len() ==> before_cursor(#[trigger] items[i].edit_range, pos)
}

fn context_of_group(c: &Vec<Option<Group>>, g: usize, pos: Position, Ghost(hay): Ghost<Seq<char>>) -> (r: Option<MatchContext>)
    requires
        crate::regex::well_placed(groups_view(c@), hay),
        byte_len(hay) <= pos.character,
    ensures
        r is None <==> group_range(groups_view(c@), g as int, pos) is None,
        r matches Some(m) ==> group_range(groups_view(c@), g as int, pos) == Some(m.replace_range),
        r matches Some(m) ==> before_cursor(m.replace_range, pos),
{
    if g < c.len() {
        match &c[g] {
            Some(grp) => {
                assert(groups_view(c@)[g as int] is Some);
                let n = str_byte_len(grp.text.as_str());
                assert(match groups_view(c@)[g as int] { Some(x) => 0 <= x.0 <= x.1 <= byte_len(hay) && byte_len(x.2) == x.1 - x.0, None => true });
                let start = Position { line: pos.line, character: pos.character - n as u32 };
                Some(MatchContext { replace_range: Range { start, end: pos } })
            },
            None => {
                assert(!(groups_view(c@)[g as int] is Some));
                None
            },
        }
    } else {
        None
    }
}

fn match_cursor(pattern: &str, hay: &str, g: usize, pos: Position) -> (r: Option<MatchContext>)
    requires
        byte_len(hay@) <= pos.character,
    ensures
        r is None <==> cursor_range(pattern@, hay@, g as int, pos) is None,
        r matches Some(m) ==> cursor_range(pattern@, hay@, g as int, pos) == Some(m.replace_range),
        r matches Some(m) ==> before_cursor(m.replace_range, pos),
{
    match first(pattern, hay) {
        Some(c) => context_of_group(&c, g, pos, Ghost(hay@)),
        None => None,
    }
}

/// The data type whose options are completed, with the range to replace.
pub open spec fn type_option_context(cp: Seq<char>, pos: Position) -> Option<(DataTypeSpec, Range)> {
    match type_option_data_type(cp) {
        Some(dt) => if dt.option_snippets is None {
            None
        } else {
            match cursor_range(TYPE_OPTION_CURSOR@, cp, 3, pos) {
                Some(r) => Some((dt, r)),
                None => None,
            }
        },
        None => None,
    }
}

fn match_type_option(comment_prefix: &str, position: Position) -> (r: Option<(DataTypeInfo, MatchContext)>)
    requires
        byte_len(comment_prefix@) <= position.character,
    ensures
        r is None <==> type_option_context(comment_prefix@, position) is None,
        r matches Some(x) ==> type_option_context(comment_prefix@, position) == Some((x.0@, x.1.replace_range)),
        r matches Some(x) ==> before_cursor(x.1.replace_range, position),
{
    let data_type = match get_type_option_data_type(comment_prefix) {
        Some(d) => d,
        None => return None,
    };
    if data_type.option_snippets.is_none() {
        return None;
    }
    match match_cursor(TYPE_OPTION_CURSOR, comment_prefix, 3, position) {
        Some(ctx) => Some((data_type, ctx)),
        None => None,
    }
}

/// The decorator whose value is completed, with the range to replace.
pub open spec fn decorator_value_context(cp: Seq<char>, pos: Position) -> Option<(DecoratorInfo, Range)> {
    match first_match(DECORATOR_VALUE_CURSOR@, cp) {
        Some(c) => match decorator_named(group_text(c, 2)) {
            Some(d) => match group_range(c, 3, pos) {
                Some(r) => Some((d, r)),
                None => None,
            },
            None => None,
        },
        None => None,
    }
}

fn match_decorator_value(comment_prefix: &str, position: Position) -> (r: Option<(DecoratorInfo, MatchContext)>)
    requires
        byte_len(comment_prefix@) <= position.character,
    ensures
        r is None <==> decorator_value_context(comment_prefix@, position) is None,
        r matches Some(x) ==> decorator_value_context(comment_prefix@, position) == Some((x.0, x.1.replace_range)),
        r matches Some(x) ==> before_cursor(x.1.replace_range, position),
{
    let c = match first(DECORATOR_VALUE_CURSOR, comment_prefix) {
        Some(c) => c,
        None => return None,
    };
    let name = group_text_of(&c, 2);
    let decorator = match decorator_by_name(name.as_str()) {
        Some(d) => d,
        None => return None,
    };
    match context_of_group(&c, 3, position, Ghost(comment_prefix@)) {
        Some(ctx) => Some((decorator, ctx)),
        None => None,
    }
}

// ---------------------------------------------------------------------------
// Decorator values
// ---------------------------------------------------------------------------

/// The resolvers of `rs` whose names are in `names`, in catalog order.
pub open spec fn select_resolvers(rs: Seq<ResolverInfo>, names: Seq<Seq<char>>) -> Seq<ResolverInfo>
    decreases rs.len(),
{
    if rs.len() == 0 {
        Seq::empty()
    } else {
        select_resolvers(rs.drop_last(), names) + if names.contains(rs.last().name@) {
            seq![rs.last()]
        } else {
            Seq::empty()
        }
    }
}

pub open spec fn keyword_items(values: Seq<Seq<char>>, r: Range) -> Seq<CompletionItemSpec> {
    values.map_values(|v: Seq<char>| keyword_item(v, r))
}

pub open spec fn resolver_items(rs: Seq<ResolverInfo>, r: Range) -> Seq<CompletionItemSpec> {
    rs.map_values(|d: ResolverInfo| resolver_item(d, r))
}

/// The decorators whose value may be a boolean resolver.
pub open spec fn boolean_decorator(name: Seq<char>) -> bool {
    name == "required"@ || name == "optional"@ || name == "sensitive"@ || name == "public"@ || name == "disable"@
}

/// Proposals for the value of `decorator`: item references for `currentEnv`,
/// keywords (and fitting resolvers) for the boolean-like ones, nothing for others.
pub open spec fn decorator_value_items(lines: Seq<Seq<char>>, d: DecoratorInfo, r: Range) -> Option<Seq<CompletionItemSpec>> {
    let n = d.name@;
    if n == "currentEnv"@ {
        Some(reference_items(lines, r))
    } else if n == "defaultRequired"@ {
        Some(keyword_items(seq!["infer"@, "true"@, "false"@], r))
    } else if n == "defaultSensitive"@ {
        Some(keyword_items(seq!["true"@, "false"@], r) + resolver_items(select_resolvers(spec_resolvers(), seq!["inferFromPrefix"@]), r))
    } else if boolean_decorator(n) {
        Some(keyword_items(seq!["true"@, "false"@], r) + resolver_items(select_resolvers(spec_resolvers(), seq!["forEnv"@, "eq"@, "if"@, "not"@, "isEmpty"@]), r))
    } else {
        None
    }
}

fn str_in(names: &Vec<&'static str>, s: &str) -> (r: bool)
    ensures
        r == names@.map_values(|n: &'static str| n@).contains(s@),
{
    let ghost nv = names@.map_values(|n: &'static str| n@);
    let mut k: usize = 0;
    while k < names.len()
        invariant
            k <= names.len(),
            nv == names@.map_values(|n: &'static str| n@),
            forall|j: int| 0 <= j < k ==> nv[j] != s@,
        decreases names.len() - k,
    {
        assert(nv[k as int] == names@[k as int]@);
        if str_eq(names[k], s) {
            return true;
        }
        k = k + 1;
    }
    false
}

fn selected_resolver_items(names: &Vec<&'static str>, ctx: &MatchContext) -> (r: Vec<CompletionItem>)
    ensures
        items_view(r@) == resolver_items(select_resolvers(spec_resolvers(), names@.map_values(|n: &'static str| n@)), ctx.replace_range),
{
    let all = resolvers();
    let ghost nv = names@.map_values(|n: &'static str| n@);
    let mut chosen: Vec<ResolverInfo> = Vec::new();
    let mut k: usize = 0;
    while k < all.len()
        invariant
            k <= all.len(),
            all@ == spec_resolvers(),
            nv == names@.map_values(|n: &'static str| n@),
            chosen@ == select_resolvers(all@.take(k as int), nv),
        decreases all.len() - k,
    {
        assert(all@.take(k + 1).drop_last() =~= all@.take(k as int));
        assert(all@.take(k + 1).last() == all@[k as int]);
        if str_in(names, all[k].name) {
            chosen.push(all[k]);
        } else {
            assert(chosen@ =~= chosen@ + Seq::<ResolverInfo>::empty());
        }
        k = k + 1;
    }
    assert(all@.take(all@.len() as int) =~= all@);
    create_resolver_items(&chosen, ctx)
}

fn keywords(values: Vec<&'static str>, ctx: &MatchContext) -> (r: Vec<CompletionItem>)
    ensures
        items_view(r@) == keyword_items(values@.map_values(|v: &'static str| v@), ctx.replace_range),
{
    let r = create_keyword_items(&values, ctx);
    assert(values@.map_values(|v: &'static str| keyword_item(v@, ctx.replace_range)) =~= keyword_items(values@.map_values(|v: &'static str| v@), ctx.replace_range));
    r
}

fn create_decorator_value_items(doc: &LineDocument, decorator: &DecoratorInfo, ctx: &MatchContext) -> (r: Option<Vec<CompletionItem>>)
    ensures
        r is None <==> decorator_value_items(doc@, *decorator, ctx.replace_range) is None,
        r matches Some(v) ==> decorator_value_items(doc@, *decorator, ctx.replace_range) == Some(items_view(v@)),
{
    let n = decorator.name;
    if str_eq(n, "currentEnv") {
        Some(create_reference_items(doc, ctx))
    } else if str_eq(n, "defaultRequired") {
        let v = vec!["infer", "true", "false"];
        assert(v@.map_values(|v: &'static str| v@) =~= seq!["infer"@, "true"@, "false"@]);
        Some(keywords(v, ctx))
    } else if str_eq(n, "defaultSensitive") {
        let v = vec!["true", "false"];
        assert(v@.map_values(|v: &'static str| v@) =~= seq!["true"@, "false"@]);
        let mut items = keywords(v, ctx);
        let names = vec!["inferFromPrefix"];
        assert(names@.map_values(|v: &'static str| v@) =~= seq!["inferFromPrefix"@]);
        let mut more = selected_resolver_items(&names, ctx);
        let ghost a = items_view(items@);
        let ghost b = items_view(more@);
        items.append(&mut more);
        assert(items_view(items@) =~= a + b);
        Some(items)
    } else if str_eq(n, "required") || str_eq(n, "optional") || str_eq(n, "sensitive") || str_eq(n, "public") || str_eq(n, "disable") {
        let v = vec!["true", "false"];
        assert(v@.map_values(|v: &'static str| v@) =~= seq!["true"@, "false"@]);
        let mut items = keywords(v, ctx);
        let names = vec!["forEnv", "eq", "if", "not", "isEmpty"];
        assert(names@.map_values(|v: &'static str| v@) =~= seq!["forEnv"@, "eq"@, "if"@, "not"@, "isEmpty"@]);
        let mut more = selected_resolver_items(&names, ctx);
        let ghost a = items_view(items@);
        let ghost b = items_view(more@);
        items.append(&mut more);
        assert(items_view(items@) =~= a + b);
        Some(items)
    } else {
        None
    }
}

// ---------------------------------------------------------------------------
// Completions
// ---------------------------------------------------------------------------

/// The enum values proposed for an item value, with the range to replace.
pub open spec fn enum_value_context(lines: Seq<Seq<char>>, pos: Position, lp: Seq<char>) -> Option<(Seq<Seq<char>>, Range)> {
    match cursor_range(ITEM_VALUE_CURSOR@, lp, 1, pos) {
        Some(r) => match enum_values_scan(lines, pos.line as int) {
            Some(v) => Some((v, r)),
            None => None,
        },
        None => None,
    }
}

fn get_enum_value_context(doc: &LineDocument, position: Position, line_prefix: &str) -> (r: Option<(Vec<String>, MatchContext)>)
    requires
        byte_len(line_prefix@) <= position.character,
    ensures
        r is None <==> enum_value_context(doc@, position, line_prefix@) is None,
        r matches Some(x) ==> enum_value_context(doc@, position, line_prefix@) == Some((strings_view(x.0@), x.1.replace_range)),
        r matches Some(x) ==> before_cursor(x.1.replace_range, position),
{
    let item_ctx = match match_cursor(ITEM_VALUE_CURSOR, line_prefix, 1, position) {
        Some(c) => c,
        None => return None,
    };
    match get_enum_values_from_preceding_comments(doc, position.line as usize) {
        Some(v) => Some((v, item_ctx)),
        None => None,
    }
}

/// Completions inside a decorator comment: `Some(answer)` when one of its
/// cases applies (the answer itself may be `None`), `None` to go on.
pub open spec fn comment_completions(lines: Seq<Seq<char>>, pos: Position, cp: Seq<char>) -> Option<Option<Seq<CompletionItemSpec>>> {
    match type_option_context(cp, pos) {
        Some((dt, r)) => Some(Some(dt.option_snippets->0.map_values(|o: DataTypeOption| option_item(o, r)))),
        None => match cursor_range(TYPE_VALUE_CURSOR@, cp, 2, pos) {
            Some(r) => Some(Some(spec_data_types().map_values(|d: DataTypeSpec| data_type_item(d, r)))),
            None => match decorator_value_context(cp, pos) {
                Some((d, r)) => Some(decorator_value_items(lines, d, r)),
                None => match cursor_range(DECORATOR_NAME_CURSOR@, cp, 2, pos) {
                    Some(r) => {
                        let ds = if is_in_header_spec(lines, pos.line as int) { spec_root_decorators() } else { spec_item_decorators() };
                        let existing = Set::new(|t: Seq<char>| existing_name(lines, pos.line as int, cp, t));
                        Some(Some(available_decorators(ds, existing).map_values(|d: DecoratorInfo| decorator_item(d, r))))
                    },
                    None => None,
                },
            },
        },
    }
}

/// What to propose at `pos`, in order of precedence: item references after
/// `$`, enum values, type options, data types, decorator values, decorator
/// names, then resolvers.
pub open spec fn completions_spec(lines: Seq<Seq<char>>, pos: Position) -> Option<Seq<CompletionItemSpec>> {
    let line = line_of(lines, pos.line as int);
    let lp = prefix_before_byte(line, pos.character as int);
    let cp = if lp.contains('#') { decorator_comment_prefix(lp) } else { None };
    match cursor_range(REFERENCE_CURSOR@, lp, 1, pos) {
        Some(r) => Some(reference_items(lines, r)),
        None => match enum_value_context(lines, pos, lp) {
            Some((vals, r)) => Some(vals.map_values(|v: Seq<char>| enum_item(v, r))),
            None => {
                let from_comment = match cp {
                    Some(c) => comment_completions(lines, pos, c),
                    None => None,
                };
                match from_comment {
                    Some(answer) => answer,
                    None => match cursor_range(RESOLVER_CURSOR@, lp, 1, pos) {
                        Some(r) => Some(resolver_items(spec_resolvers(), r)),
                        None => None,
                    },
                }
            },
        },
    }
}

/// The cursor sits on a character boundary of its line.
pub open spec fn valid_position(lines: Seq<Seq<char>>, pos: Position) -> bool {
    is_boundary(line_of(lines, pos.line as int), pos.character as int)
}

/// Whether `position` is a character boundary of its line (slicing the line
/// there would otherwise fail).
pub fn is_valid_position(doc: &LineDocument, position: Position) -> (r: bool)
    ensures
        r == valid_position(doc@, position),
{
    let line_text = doc.line_at(position.line as usize);
    let v = chars_of(line_text);
    let total = str_byte_len(line_text);
    char_index_at_byte(&v, position.character as usize, total).is_some()
}


/// Completions inside a decorator comment (see `comment_completions`).
fn comment_completion_items(doc: &LineDocument, position: Position, comment_prefix: &str) -> (r: Option<Option<Vec<CompletionItem>>>)
    requires
        byte_len(comment_prefix@) <= position.character,
    ensures
        r is None <==> comment_completions(doc@, position, comment_prefix@) is None,
        r matches Some(a) ==> (a is None <==> comment_completions(doc@, position, comment_prefix@)->0 is None),
        r matches Some(Some(v)) ==> comment_completions(doc@, position, comment_prefix@) == Some(Some(items_view(v@))),
        r matches Some(Some(v)) ==> ranges_before_cursor(items_view(v@), position),
{
    let existing_names = get_existing_decorator_names(doc, position.line as usize, comment_prefix);
    if let Some((data_type, ctx)) = match_type_option(comment_prefix, position) {
        if let Some(snippets) = &data_type.option_snippets {
            return Some(Some(create_option_items(snippets, &ctx)));
        }
    }
    if let Some(ctx) = match_cursor(TYPE_VALUE_CURSOR, comment_prefix, 2, position) {
        let all = data_types();
        return Some(Some(create_data_type_items(&all, &ctx)));
    }
    if let Some((decorator, ctx)) = match_decorator_value(comment_prefix, position) {
        return Some(create_decorator_value_items(doc, &decorator, &ctx));
    }
    if let Some(ctx) = match_cursor(DECORATOR_NAME_CURSOR, comment_prefix, 2, position) {
        let decorators = if is_in_header(doc, position.line as usize) {
            root_decorators()
        } else {
            item_decorators()
        };
        let available = filter_available_decorators(&decorators, &existing_names);
        proof {
            let used = Set::new(|t: Seq<char>| existing_name(doc@, position.line as int, comment_prefix@, t));
            assert(strings_view(existing_names@).to_set() =~= used);
        }
        return Some(Some(create_decorator_items(&available, &ctx)));
    }
    None
}

/// The completion items for `position` in `doc`, or `None` where nothing applies.
pub fn get_completions(doc: &LineDocument, position: Position) -> (r: Option<Vec<CompletionItem>>)
    requires
        valid_position(doc@, position),
    ensures
        r is None <==> completions_spec(doc@, position) is None,
        r matches Some(v) ==> completions_spec(doc@, position) == Some(items_view(v@)),
        r matches Some(v) ==> ranges_before_cursor(items_view(v@), position),
{
    let line_text = doc.line_at(position.line as usize);
    let v = chars_of(line_text);
    let total = str_byte_len(line_text);
    let ci = char_index_at_byte(&v, position.character as usize, total).unwrap();
    let line_prefix = line_text.substring_char(0, ci);
    assert(line_prefix@ =~= v@.take(ci as int));
    let comment_prefix = if contains_char(line_prefix, '#') {
        get_decorator_comment_prefix(line_prefix)
    } else {
        None
    };
    proof {
        lemma_prefix_within(line_prefix@);
    }

    if let Some(ctx) = match_cursor(REFERENCE_CURSOR, line_prefix, 1, position) {
        return Some(create_reference_items(doc, &ctx));
    }
    if let Some((enum_values, ctx)) = get_enum_value_context(doc, position, line_prefix) {
        return Some(create_enum_value_items(&enum_values, &ctx));
    }
    if let Some(cp) = comment_prefix {
        if let Some(answer) = comment_completion_items(doc, position, cp) {
            return answer;
        }
    }
    if let Some(ctx) = match_cursor(RESOLVER_CURSOR, line_prefix, 1, position) {
        let all = resolvers();
        return Some(create_resolver_items(&all, &ctx));
    }
    None
}

} // verus!
