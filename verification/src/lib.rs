//! A SQL plan optimizer core: SQL values with three-valued logic, the plan
//! language, column-set and aggregate analyses over plan nodes, the
//! optimizer's rewrite-rule tables, aggregate extraction for SELECT
//! statements, and the plan statistics of the TPC-H evaluation.
pub mod value;
pub mod text;
pub mod column_set;
pub mod language;
pub mod plan;
pub mod analysis;
pub mod bench;
pub mod rule_counts;
pub mod cli;
pub mod query_spec;

pub use value::Value;
pub use language::{Column, Expr, Id};
pub mod agg;
pub mod agg_extractor;
pub use analysis::{Data, ExprAnalysis};
