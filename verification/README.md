# varlock-lsp

A language server for Varlock env-spec files (`.env`, `.env.schema`,
`.env.*`): completion of decorators, data types, type options, resolvers,
item references and enum values; diagnostics for repeated or conflicting
decorators and for static values that do not fit their declared `@type`;
hover documentation for the built-in decorators.

The logic is a library verified with Verus:

- `src/text.rs`, `src/scan.rs`, `src/order.rs`: characters, trimming, UTF-8
  byte offsets, searches and sorted string lists.
- `src/regex.rs`, `src/hosts.rs`: the calls into `regex_lite`, `url` and
  `str::to_lowercase`, with what the library relies on from them.
- `src/parser.rs`: the document as lines, decorator comments, header and
  comment blocks, argument lists and `@type` declarations.
- `src/catalog.rs`: the built-in decorators, data types and resolvers.
- `src/completion.rs`, `src/diagnostics.rs`, `src/hover.rs`: the three
  features, each with a specification of its whole answer.
- `src/properties.rs`: properties that relate the parts.

`app/` holds the server itself (tokio and tower-lsp), the conversion to
`lsp_types`, and the number, port and IP checks that need floating point or
the standard address parsers.
