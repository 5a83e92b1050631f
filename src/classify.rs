//! Predicates that classify a trimmed line of a request file.

use vstd::prelude::*;
use crate::text::{
    chars_of, contains, contains_text, has_prefix, same_text, split_ws, starts_with, tokens,
};

verus! {

/// What `str::to_uppercase` returns for a text.
pub uninterp spec fn upper_of(s: Seq<char>) -> Seq<char>;

/// Relies on `str::to_uppercase`: the result depends on the characters alone.
#[verifier::external_body]
pub(crate) fn to_upper(s: &str) -> (r: String)
    ensures
        r@ == upper_of(s@),
{
    s.to_uppercase()
}

/// Whether `u` is an HTTP method or a protocol keyword, in upper case.
pub open spec fn is_method_name(u: Seq<char>) -> bool {
    u == "GET"@ || u == "POST"@ || u == "PUT"@ || u == "DELETE"@ || u == "PATCH"@ || u
        == "HEAD"@ || u == "OPTIONS"@ || u == "WEBSOCKET"@ || u == "GRAPHQL"@ || u == "RSOCKET"@
}

/// Whether `tok`, uppercased, is an HTTP method or a protocol keyword.
pub open spec fn is_method_word(tok: Seq<char>) -> bool {
    is_method_name(upper_of(tok))
}

/// A `###` line: the start of an HTTP-style block.
pub open spec fn is_separator(t: Seq<char>) -> bool {
    has_prefix(t, "###"@)
}

/// A line that opens a WebSocket, RSocket or GraphQL block.
pub open spec fn is_protocol_header(t: Seq<char>) -> bool {
    has_prefix(t, "WEBSOCKET"@) || has_prefix(t, "RSOCKET"@) || has_prefix(t, "GRAPHQL"@)
}

/// A line at which a block body ends: a separator or a protocol keyword.
pub open spec fn is_block_start(t: Seq<char>) -> bool {
    is_separator(t) || is_protocol_header(t)
}

/// A `//` or `#` line.
pub open spec fn is_comment(t: Seq<char>) -> bool {
    has_prefix(t, "//"@) || has_prefix(t, "#"@)
}

/// A `# @name` annotation.
pub open spec fn is_name_annotation(t: Seq<char>) -> bool {
    has_prefix(t, "# @name"@)
}

/// A `# @` annotation, kept out of the comment list.
pub open spec fn is_annotation(t: Seq<char>) -> bool {
    has_prefix(t, "# @"@)
}

/// A request line that is a bare `http://` or `https://` URL.
pub open spec fn is_url_shorthand(t: Seq<char>) -> bool {
    has_prefix(t, "http://"@) || has_prefix(t, "https://"@)
}

/// A line that looks like a URL.
pub open spec fn looks_like_url(t: Seq<char>) -> bool {
    is_url_shorthand(t) || contains(t, "://"@)
}

/// The first whitespace-separated token of `t`, or nothing.
pub open spec fn first_word(t: Seq<char>) -> Seq<char> {
    if tokens(t).len() > 0 {
        tokens(t)[0]
    } else {
        seq![]
    }
}

/// A line right after a separator that names the request: not empty, not a
/// URL, comment, header or request line.
pub open spec fn is_name_line(t: Seq<char>) -> bool {
    t.len() > 0 && !has_prefix(t, "http"@) && !is_comment(t) && !is_method_word(first_word(t))
        && !contains(t, ":"@) && !contains(t, "://"@)
}

/// A plain message boundary.
pub open spec fn is_boundary(t: Seq<char>) -> bool {
    t == "==="@
}

/// A message boundary that waits for the server.
pub open spec fn is_wait_marker(t: Seq<char>) -> bool {
    has_prefix(t, "=== wait-for-server"@)
}

pub fn method_word(tok: &str) -> (r: bool)
    ensures
        r == is_method_word(tok@),
{
    let u = to_upper(tok);
    method_name(u.as_str())
}

pub fn method_name(u: &str) -> (r: bool)
    ensures
        r == is_method_name(u@),
{
    let c = chars_of(u);
    same_text(&c, "GET") || same_text(&c, "POST") || same_text(&c, "PUT") || same_text(
        &c,
        "DELETE",
    ) || same_text(&c, "PATCH") || same_text(&c, "HEAD") || same_text(&c, "OPTIONS")
        || same_text(&c, "WEBSOCKET") || same_text(&c, "GRAPHQL") || same_text(&c, "RSOCKET")
}

pub fn separator(t: &Vec<char>) -> (r: bool)
    ensures
        r == is_separator(t@),
{
    starts_with(t, "###")
}

pub fn protocol_header(t: &Vec<char>) -> (r: bool)
    ensures
        r == is_protocol_header(t@),
{
    starts_with(t, "WEBSOCKET") || starts_with(t, "RSOCKET") || starts_with(t, "GRAPHQL")
}

pub fn block_start(t: &Vec<char>) -> (r: bool)
    ensures
        r == is_block_start(t@),
{
    separator(t) || protocol_header(t)
}

pub fn comment(t: &Vec<char>) -> (r: bool)
    ensures
        r == is_comment(t@),
{
    starts_with(t, "//") || starts_with(t, "#")
}

pub fn url_shorthand(t: &Vec<char>) -> (r: bool)
    ensures
        r == is_url_shorthand(t@),
{
    starts_with(t, "http://") || starts_with(t, "https://")
}

pub fn url_like(t: &Vec<char>) -> (r: bool)
    ensures
        r == looks_like_url(t@),
{
    url_shorthand(t) || contains_text(t, "://")
}

pub fn name_line(t: &Vec<char>) -> (r: bool)
    ensures
        r == is_name_line(t@),
{
    if t.len() == 0 || starts_with(t, "http") || comment(t) {
        return false;
    }
    let words = split_ws(t);
    let first = if words.len() > 0 {
        words[0].clone()
    } else {
        String::new()
    };
    !method_word(first.as_str()) && !contains_text(t, ":") && !contains_text(t, "://")
}

pub fn boundary(t: &Vec<char>) -> (r: bool)
    ensures
        r == is_boundary(t@),
{
    same_text(t, "===")
}

pub fn wait_marker(t: &Vec<char>) -> (r: bool)
    ensures
        r == is_wait_marker(t@),
{
    starts_with(t, "=== wait-for-server")
}

} // verus!
