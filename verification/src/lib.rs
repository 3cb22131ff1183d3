//! A memory aid for short named things: a store of `name -> description`
//! entries that is kept as a JSON object and searched by fuzzy-matching a
//! query against the descriptions.

pub mod cli;
pub mod error;
pub mod json;
pub mod laws;
pub mod matcher;
pub mod model;
pub mod store;
pub mod util;
