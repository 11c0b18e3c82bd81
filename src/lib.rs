//! A client for the DNSimple HTTP API: it builds authenticated requests and reads the
//! status, headers, rate-limit counters and body of the responses.
use vstd::prelude::*;

pub mod client;
pub mod decimal;
pub mod response;

pub use client::{Client, Method, Request};
pub use response::{Error, Response};

verus! {

/// Address of the API that requests are sent to, unless a client is given another.
pub const BASE_URL: &'static str = "https://api.dnsimple.com/v2";

} // verus!
