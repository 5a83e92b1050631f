//! The WebSocket address that an RSocket URI is reached at.

use vstd::prelude::*;
use crate::text::{chars_of, contains, contains_text, has_prefix, starts_with, string_of, trim, trimmed};
use vstd::string::StringExecFns;

verus! {

/// Why an RSocket URI has no WebSocket address.
#[derive(Debug, Clone, PartialEq, Eq)]
pub enum TransportAddrError {
    /// The URI names a scheme other than `ws`, `wss`, `rs` or `tcp`.
    UnsupportedScheme,
}

impl TransportAddrError {
    /// A description of the error.
    pub fn message(&self) -> String {
        String::from_str("RSocket expects ws://, wss://, rs://, or tcp:// scheme")
    }
}

/// The WebSocket address for an RSocket URI: `ws://` and `wss://` URIs as they
/// are, `rs://` and `tcp://` ones with the scheme replaced by `ws://`, and a URI
/// without a scheme prefixed with `ws://`; `None` for any other scheme.
pub open spec fn transport_addr(uri: Seq<char>) -> Option<Seq<char>> {
    let s = trim(uri);
    if has_prefix(s, "ws://"@) || has_prefix(s, "wss://"@) {
        Some(s)
    } else if has_prefix(s, "rs://"@) {
        Some("ws://"@ + s.subrange(5, s.len() as int))
    } else if has_prefix(s, "tcp://"@) {
        Some("ws://"@ + s.subrange(6, s.len() as int))
    } else if contains(s, "://"@) {
        None
    } else {
        Some("ws://"@ + s)
    }
}

/// Normalises an RSocket URI to the WebSocket address it is reached at.
pub fn uri_to_transport_addr(uri: &str) -> (r: Result<String, TransportAddrError>)
    ensures
        match r {
            Ok(a) => transport_addr(uri@) == Some(a@),
            Err(_) => transport_addr(uri@) is None,
        },
{
    let cs = chars_of(uri);
    let s = trimmed(&cs);
    proof {
        reveal_strlit("rs://");
        reveal_strlit("tcp://");
    }
    let mut out = String::from_str("ws://");
    if starts_with(&s, "ws://") || starts_with(&s, "wss://") {
        let a = string_of(&s, 0, s.len());
        assert(s@.subrange(0, s@.len() as int) =~= s@);
        Ok(a)
    } else if starts_with(&s, "rs://") {
        let rest = string_of(&s, 5, s.len());
        out.append(rest.as_str());
        Ok(out)
    } else if starts_with(&s, "tcp://") {
        let rest = string_of(&s, 6, s.len());
        out.append(rest.as_str());
        Ok(out)
    } else if contains_text(&s, "://") {
        Err(TransportAddrError::UnsupportedScheme)
    } else {
        let rest = string_of(&s, 0, s.len());
        assert(s@.subrange(0, s@.len() as int) =~= s@);
        out.append(rest.as_str());
        Ok(out)
    }
}

} // verus!
