//! Migration-safety linting for SQL: rules over a syntax tree, the type history
//! of columns across a migration set, and the report and exit code of a run.

pub mod config;
pub mod diagnostic;
pub mod fresh;
pub mod history;
pub mod laws;
pub mod lint_cmd;
pub mod migration;
pub mod names;
pub mod pack;
pub mod rule;
pub mod summary;
pub mod syntax;
pub mod text;
pub mod transaction;
pub mod types;
