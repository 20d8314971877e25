//! Schema inference and SQL synthesis for loading delimited text into a
//! relational table.

pub mod batch;
pub mod ident;
pub mod infer;
pub mod ingest;
pub mod insert;
pub mod numeric;
pub mod run;
pub mod schema;
pub mod sql_type;
pub mod text;
