//! Loading of line-oriented data files that open with a block of `"# "`
//! header comments, and filtering of one loaded dataset against another.
pub mod config;
pub mod dataset;
pub mod filter;
pub mod line;
