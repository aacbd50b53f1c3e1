//! The hotel assistant: what it asks of the travel service and how it words
//! the answer.

pub mod dates;
pub mod model;
pub mod search;
