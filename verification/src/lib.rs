//! A pool of public proxies: entries read from source scripts are parsed, checked for the
//! protocol they speak and the anonymity they give, and the working ones are kept in a
//! cache that hands them out.
use vstd::prelude::*;

pub mod cache;
pub mod loader;
pub mod logger;
pub mod pipeline;
pub mod proxies;
pub mod text;
pub mod utils;
pub mod webserver;

verus! {
} // verus!
