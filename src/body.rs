//! How an HTTP request body is sent: chosen from its Content-Type, and the
//! fields of a form body.

use vstd::prelude::*;
use crate::headers::{lookup_ignoring_case, Headers};
use crate::text::{chars_of, index_of, same_text, string_of};

verus! {

broadcast use vstd::string::group_string_axioms;

/// What `str::to_lowercase` returns for a text.
pub uninterp spec fn lower_of(s: Seq<char>) -> Seq<char>;

/// Relies on `str::to_lowercase`: the result depends on the characters alone.
#[verifier::external_body]
fn to_lower(s: &str) -> (r: String)
    ensures
        r@ == lower_of(s@),
{
    s.to_lowercase()
}

/// How a body is sent.
#[derive(Debug, Clone, Copy, PartialEq, Eq)]
pub enum BodyEncoding {
    /// Parsed as JSON and sent as a JSON value.
    Json,
    /// Split into form fields and sent URL-encoded.
    Form,
    /// Sent as it is.
    Raw,
}

/// The Content-Type of a request: the first header named `content-type` in
/// any ASCII case.
pub open spec fn content_type(h: Seq<(Seq<char>, Seq<char>)>) -> Option<Seq<char>> {
    lookup_ignoring_case(h, "content-type"@)
}

/// The encoding for a Content-Type already in lower case.
pub open spec fn encoding_for_lower(v: Seq<char>) -> BodyEncoding {
    if v == "application/json"@ {
        BodyEncoding::Json
    } else if v == "application/x-www-form-urlencoded"@ {
        BodyEncoding::Form
    } else {
        BodyEncoding::Raw
    }
}

/// The encoding for a Content-Type, compared in lower case.
pub open spec fn encoding_for(ct: Option<Seq<char>>) -> BodyEncoding {
    match ct {
        Some(v) => encoding_for_lower(lower_of(v)),
        None => BodyEncoding::Raw,
    }
}

/// The encoding for a Content-Type already in lower case.
pub fn encoding_for_lowered(lower: &str) -> (r: BodyEncoding)
    ensures
        r == encoding_for_lower(lower@),
{
    let l = chars_of(lower);
    if same_text(&l, "application/json") {
        BodyEncoding::Json
    } else if same_text(&l, "application/x-www-form-urlencoded") {
        BodyEncoding::Form
    } else {
        BodyEncoding::Raw
    }
}

/// How the body of a request with these headers is sent.
pub fn body_encoding(headers: &Headers) -> (r: BodyEncoding)
    ensures
        r == encoding_for(content_type(headers@)),
{
    match headers.get_ignoring_case("content-type") {
        Some(v) => {
            let lower = to_lower(v.as_str());
            encoding_for_lowered(lower.as_str())
        },
        None => BodyEncoding::Raw,
    }
}

/// Whether a request with these headers needs a JSON Content-Type added:
/// whether it names none itself.
pub fn needs_json_content_type(headers: &Headers) -> (r: bool)
    ensures
        r == (content_type(headers@) is None),
{
    headers.get_ignoring_case("content-type").is_none()
}

/// The pieces of `s[i..]` between `&` characters, after `acc`; the piece
/// being read starts at `start`. Empty pieces count, as in `str::split`.
pub open spec fn pieces_from(s: Seq<char>, i: int, start: int, acc: Seq<Seq<char>>) -> Seq<
    Seq<char>,
>
    decreases s.len() - i,
{
    if 0 <= i < s.len() {
        if s[i] == '&' {
            pieces_from(s, i + 1, i + 1, acc.push(s.subrange(start, i)))
        } else {
            pieces_from(s, i + 1, start, acc)
        }
    } else {
        acc.push(s.subrange(start, s.len() as int))
    }
}

/// A form field: the text before the first `=`, and the text after it (empty
/// where there is no `=`).
pub open spec fn form_field(p: Seq<char>) -> (Seq<char>, Seq<char>) {
    let k = index_of(p, '=', 0);
    if k < p.len() {
        (p.subrange(0, k), p.subrange(k + 1, p.len() as int))
    } else {
        (p, seq![])
    }
}

/// The fields of a URL-encoded form body, in order.
pub open spec fn form_fields(body: Seq<char>) -> Seq<(Seq<char>, Seq<char>)> {
    pieces_from(body, 0, 0, seq![]).map_values(|p: Seq<char>| form_field(p))
}

/// The views of field pairs.
pub open spec fn field_views(v: Seq<(String, String)>) -> Seq<(Seq<char>, Seq<char>)> {
    v.map_values(|e: (String, String)| (e.0@, e.1@))
}

/// The field of one piece `cs[from..to]`.
fn field_of(cs: &Vec<char>, from: usize, to: usize) -> (r: (String, String))
    requires
        from <= to <= cs@.len(),
    ensures
        (r.0@, r.1@) == form_field(cs@.subrange(from as int, to as int)),
{
    let ghost p = cs@.subrange(from as int, to as int);
    proof {
        crate::text::lemma_index_of_bounds(p, '=', 0);
    }
    let mut k: usize = from;
    while k < to && cs[k] != '='
        invariant
            from <= k <= to <= cs@.len(),
            p == cs@.subrange(from as int, to as int),
            index_of(p, '=', k - from) == index_of(p, '=', 0),
        decreases to - k,
    {
        k = k + 1;
    }
    if k < to {
        let key = string_of(cs, from, k);
        let value = string_of(cs, k + 1, to);
        assert(p.subrange(0, k - from) =~= cs@.subrange(from as int, k as int));
        assert(p.subrange(k - from + 1, p.len() as int) =~= cs@.subrange(k + 1, to as int));
        (key, value)
    } else {
        (string_of(cs, from, to), String::new())
    }
}

/// The fields of a URL-encoded form body: split at `&`, each piece split at
/// its first `=`.
pub fn parse_form_data(body: &str) -> (r: Vec<(String, String)>)
    ensures
        field_views(r@) == form_fields(body@),
{
    let cs = chars_of(body);
    let n = cs.len();
    let mut acc: Vec<(String, String)> = Vec::new();
    let ghost pieces: Seq<Seq<char>> = seq![];
    let mut i: usize = 0;
    let mut start: usize = 0;
    assert(field_views(acc@) =~= pieces.map_values(|p: Seq<char>| form_field(p)));
    while i < n
        invariant
            n == cs@.len(),
            cs@ == body@,
            start <= i <= n,
            pieces_from(cs@, i as int, start as int, pieces) == pieces_from(cs@, 0, 0, seq![]),
            field_views(acc@) == pieces.map_values(|p: Seq<char>| form_field(p)),
        decreases n - i,
    {
        if cs[i] == '&' {
            let f = field_of(&cs, start, i);
            let ghost before = acc@;
            acc.push(f);
            proof {
                let old_pieces = pieces;
                pieces = pieces.push(cs@.subrange(start as int, i as int));
                assert(field_views(acc@) =~= field_views(before).push((f.0@, f.1@)));
                assert(pieces.map_values(|p: Seq<char>| form_field(p)) =~= old_pieces.map_values(
                    |p: Seq<char>| form_field(p),
                ).push(form_field(cs@.subrange(start as int, i as int))));
            }
            i = i + 1;
            start = i;
        } else {
            i = i + 1;
        }
    }
    let f = field_of(&cs, start, n);
    let ghost before = acc@;
    acc.push(f);
    proof {
        let old_pieces = pieces;
        pieces = pieces.push(cs@.subrange(start as int, n as int));
        assert(field_views(acc@) =~= field_views(before).push((f.0@, f.1@)));
        assert(pieces.map_values(|p: Seq<char>| form_field(p)) =~= old_pieces.map_values(
            |p: Seq<char>| form_field(p),
        ).push(form_field(cs@.subrange(start as int, n as int))));
    }
    acc
}

} // verus!
