//! The query execution pipeline: types, errors, data sources, expressions,
//! planning, and the pull-based operator runtime.

pub mod batch;
pub mod context;
pub mod datasource;
pub mod error;
pub mod expr;
pub mod numeral;
pub mod operators;
pub mod plan;
pub mod schema;
pub mod sqlast;
pub mod types;
