//! Language-server logic for Varlock env-spec files (`.env`, `.env.schema`):
//! line model, decorator parsing, diagnostics, completion and hover.
pub mod text;
pub mod scan;
pub mod regex;
pub mod parser;
pub mod catalog;
pub mod protocol;
pub mod diagnostics;
pub mod hosts;
pub mod order;
pub mod completion;
pub mod hover;
pub mod properties;
