//! A small rule-driven field-extraction engine.
//!
//! A document (a body of text plus a file name) is searched with an ordered
//! list of extraction rules. Each rule is a regular expression with named
//! capture groups; a rule either pulls single values out of the first match
//! (scalar mode) or pulls a column of values out of every row of a located
//! table region (table mode). The engine returns three collections: scalar
//! results, table results and diagnostics. It never fails as a whole: a rule
//! that cannot be evaluated only contributes a diagnostic.

pub mod laws;
pub mod matcher;
pub mod model;
pub mod numfmt;
pub mod parse;
