//! Papers from arXiv: the answer of the search service as a list of papers.

pub mod model;
pub mod parser;
pub mod util;
pub mod xml;
