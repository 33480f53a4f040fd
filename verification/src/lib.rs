//! Filter compilation, pagination and aggregation planning for a schemaless
//! record collection.

pub mod decode;
pub mod document;
pub mod encode;
pub mod filter;
pub mod grouping;
pub mod paging;
pub mod pattern;
pub mod predicate;
pub mod records;
pub mod retrieval;
pub mod rows;
pub mod tags;
pub mod text;
