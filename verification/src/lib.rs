//! An embeddable SQL query engine core operating over columnar, batch-oriented
//! in-memory data: data sources supply column batches lazily, a planner turns a
//! parsed SQL statement into a schema-checked plan, and a pull-based operator
//! runtime evaluates projection and selection batch by batch.

pub mod execution;
