//! The rules of the migration pack.

pub mod column;
pub mod column_types;
pub mod constraint;
pub mod destructive;
pub mod index;
pub mod statement;
pub mod transactions;
