//! What holds of the library as a whole.

pub mod breaking;
pub mod codes;
pub mod column_types;
pub mod columns;
pub mod constraints;
pub mod destructive;
pub mod events;
pub mod fixes;
pub mod gate;
pub mod history;
pub mod indexes;
pub mod names;
pub mod new_tables;
pub mod outputs;
pub mod progress;
pub mod report;
pub mod rules;
pub mod settings;
pub mod statements;
pub mod texts;
pub mod transactions;
pub mod trees;
pub mod types;
