//! What an HTTP exchange returns.

use vstd::prelude::*;
use std::collections::HashMap;

verus! {

/// The status, headers and body of an HTTP response.
#[derive(Debug)]
pub struct HttpResponse {
    pub status: u16,
    pub headers: HashMap<String, String>,
    pub body: String,
    pub content_type: Option<String>,
}

} // verus!
