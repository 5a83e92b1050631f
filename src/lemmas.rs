//! What holds of the parser over all inputs.

use vstd::prelude::*;
use crate::classify::{
    is_block_start, is_boundary, is_comment, is_name_annotation, is_name_line, is_protocol_header,
    is_separator, is_url_shorthand, is_wait_marker,
};
use crate::json::parsed_json;
use crate::model::{MessageModel, RequestModel};
use crate::parser::{
    annotation_phase, apply_vars, body_phase, flush, graphql_phase, header_phase, http_block,
    graphql_block, message_phase, name_phase, next_pos, stream_block, parse_lines, parse_text, push_some, request_line, scan,
    separator_name, tline,
};
use crate::text::{ends_with_char, has_prefix, join, lines_from, split_lines, strip_cr, tokens};

verus! {

/// A prefix decides the first character.
proof fn lemma_prefix_first(t: Seq<char>, p: Seq<char>)
    requires
        has_prefix(t, p),
        p.len() > 0,
    ensures
        t.len() > 0,
        t[0] == p[0],
{
    assert(t.subrange(0, p.len() as int)[0] == t[0]);
}

/// A line that begins with `c` where `c` begins no block keyword, separator
/// or comment.
proof fn lemma_plain_first(t: Seq<char>, c: char)
    requires
        t.len() > 0,
        t[0] == c,
        c != '#' && c != 'W' && c != 'R' && c != 'G' && c != '/',
    ensures
        !is_block_start(t),
        !is_comment(t),
{
    reveal_strlit("###");
    reveal_strlit("WEBSOCKET");
    reveal_strlit("RSOCKET");
    reveal_strlit("GRAPHQL");
    reveal_strlit("//");
    reveal_strlit("#");
    if has_prefix(t, "###"@) {
        lemma_prefix_first(t, "###"@);
    }
    if has_prefix(t, "WEBSOCKET"@) {
        lemma_prefix_first(t, "WEBSOCKET"@);
    }
    if has_prefix(t, "RSOCKET"@) {
        lemma_prefix_first(t, "RSOCKET"@);
    }
    if has_prefix(t, "GRAPHQL"@) {
        lemma_prefix_first(t, "GRAPHQL"@);
    }
    if has_prefix(t, "//"@) {
        lemma_prefix_first(t, "//"@);
    }
    if has_prefix(t, "#"@) {
        lemma_prefix_first(t, "#"@);
    }
}

/// Parsing is a function of the text alone: parsing one text twice gives
/// equal descriptor sequences.
pub proof fn lemma_parse_repeatable(a: Seq<char>, b: Seq<char>)
    requires
        a == b,
    ensures
        parse_text(a) == parse_text(b),
{
}

/// A block whose request line is a bare `http://` or `https://` URL is a
/// `GET` request of that URL, whatever name the separator gave.
pub proof fn lemma_get_shorthand(ls: Seq<Seq<char>>, p: int, name: Option<Seq<char>>)
    requires
        0 <= p < ls.len(),
        is_url_shorthand(tline(ls, p)),
    ensures
        http_block(ls, p, name).0 matches Some(m) && m.method == "GET"@ && m.uri == tline(ls, p),
{
    let t = tline(ls, p);
    reveal_strlit("http://");
    reveal_strlit("https://");
    reveal_strlit("http");
    if has_prefix(t, "http://"@) {
        lemma_prefix_first(t, "http://"@);
        assert(t.subrange(0, 4) =~= "http"@) by {
            assert(t.subrange(0, 7).subrange(0, 4) =~= t.subrange(0, 4));
        }
    } else {
        lemma_prefix_first(t, "https://"@);
        assert(t.subrange(0, 4) =~= "http"@) by {
            assert(t.subrange(0, 8).subrange(0, 4) =~= t.subrange(0, 4));
        }
    }
    lemma_plain_first(t, 'h');
    assert(!is_name_line(t));
    reveal_strlit("# @name");
    if is_name_annotation(t) {
        lemma_prefix_first(t, "# @name"@);
    }
    assert(name_phase(ls, p, name) == (name, p));
    assert(annotation_phase(ls, p, name, seq![]) == (name, Seq::<Seq<char>>::empty(), p));
}

/// A `# @name` annotation is a comment line.
proof fn lemma_annotation_is_comment(t: Seq<char>)
    ensures
        is_name_annotation(t) ==> is_comment(t),
{
    reveal_strlit("# @name");
    reveal_strlit("#");
    if is_name_annotation(t) {
        lemma_prefix_first(t, "# @name"@);
        assert(t.subrange(0, 1) =~= "#"@);
    }
}

/// Lines that start no block are all body lines.
proof fn lemma_body_to_end(ls: Seq<Seq<char>>, p: int, acc: Seq<Seq<char>>)
    requires
        0 <= p <= ls.len(),
        forall|i: int| p <= i < ls.len() ==> !is_block_start(#[trigger] tline(ls, i)),
    ensures
        body_phase(ls, p, acc) == (acc + ls.subrange(p, ls.len() as int), ls.len() as int),
    decreases ls.len() - p,
{
    if p < ls.len() {
        lemma_body_to_end(ls, p + 1, acc.push(ls[p]));
        assert(acc.push(ls[p]) + ls.subrange(p + 1, ls.len() as int) =~= acc + ls.subrange(
            p,
            ls.len() as int,
        ));
    } else {
        assert(acc + ls.subrange(p, ls.len() as int) =~= acc);
    }
}

/// Header lines that are neither blank nor comments run up to the first
/// blank line, which ends the headers and is consumed.
proof fn lemma_headers_to_blank(
    ls: Seq<Seq<char>>,
    p: int,
    b: int,
    h: crate::headers::HeaderSeq,
    c: Seq<Seq<char>>,
    keep: bool,
)
    requires
        0 <= p <= b < ls.len(),
        forall|i: int| p <= i < b ==> (#[trigger] tline(ls, i)).len() > 0 && !is_comment(tline(ls, i)),
        tline(ls, b).len() == 0,
    ensures
        header_phase(ls, p, h, c, keep).2,
        header_phase(ls, p, h, c, keep).3 == b + 1,
        header_phase(ls, p, h, c, keep).1 == c,
    decreases b - p,
{
    if p < b {
        let t = tline(ls, p);
        if crate::parser::has_colon(t) {
            lemma_headers_to_blank(
                ls,
                p + 1,
                b,
                crate::headers::header_insert(h, crate::parser::header_key(t), crate::parser::header_value(t)),
                c,
                keep,
            );
        } else {
            lemma_headers_to_blank(ls, p + 1, b, h, c, keep);
        }
    }
}

/// Body lines run up to the next line that starts a block, or the end, and
/// are kept as they are.
proof fn lemma_body_lines(ls: Seq<Seq<char>>, p: int, e: int, acc: Seq<Seq<char>>)
    requires
        0 <= p <= e <= ls.len(),
        forall|i: int| p <= i < e ==> !is_block_start(#[trigger] tline(ls, i)),
        e < ls.len() ==> is_block_start(tline(ls, e)),
    ensures
        body_phase(ls, p, acc) == (acc + ls.subrange(p, e), e),
    decreases e - p,
{
    if p < e {
        lemma_body_lines(ls, p + 1, e, acc.push(ls[p]));
        assert(acc.push(ls[p]) + ls.subrange(p + 1, e) =~= acc + ls.subrange(p, e));
    } else {
        assert(acc + ls.subrange(p, e) =~= acc);
    }
}

/// In an HTTP block whose request line is at 1, with header lines up to a
/// blank line at `b` and body lines from `b + 1` up to `e`, where the next
/// block or the end of input comes: the body is the body lines joined with
/// line feeds, untrimmed, and the block ends at `e`.
pub proof fn lemma_body_verbatim(ls: Seq<Seq<char>>, name: Option<Seq<char>>, b: int, e: int)
    requires
        2 <= b,
        b + 1 < e <= ls.len(),
        !is_name_line(tline(ls, 1)),
        !is_comment(tline(ls, 1)),
        request_line(ls, 1).1.len() > 0,
        forall|i: int| 2 <= i < b ==> (#[trigger] tline(ls, i)).len() > 0 && !is_comment(tline(ls, i)),
        tline(ls, b).len() == 0,
        forall|i: int| b < i < e ==> !is_block_start(#[trigger] tline(ls, i)),
        e < ls.len() ==> is_block_start(tline(ls, e)),
    ensures
        http_block(ls, 1, name).0 matches Some(m) && m.body == Some(join(ls.subrange(b + 1, e), '\n')),
        http_block(ls, 1, name).1 == e,
{
    lemma_annotation_is_comment(tline(ls, 1));
    assert(name_phase(ls, 1, name) == (name, 1int));
    assert(annotation_phase(ls, 1, name, seq![]) == (name, Seq::<Seq<char>>::empty(), 1int));
    assert(request_line(ls, 1).3 == 2);
    lemma_headers_to_blank(ls, 2, b, seq![], seq![], true);
    lemma_body_lines(ls, b + 1, e, seq![]);
    assert(Seq::<Seq<char>>::empty() + ls.subrange(b + 1, e) =~= ls.subrange(b + 1, e));
}

/// A wait-for-server boundary starts no block and is no plain boundary or comment.
proof fn lemma_wait_marker_plain(t: Seq<char>)
    requires
        is_wait_marker(t),
    ensures
        !is_block_start(t),
        !is_boundary(t),
        !is_comment(t),
{
    reveal_strlit("=== wait-for-server");
    reveal_strlit("===");
    lemma_prefix_first(t, "=== wait-for-server"@);
    lemma_plain_first(t, '=');
}

/// A plain `===` boundary ends the message being read; the next message
/// starts with a wait count of zero.
pub proof fn lemma_boundary_resets(
    ls: Seq<Seq<char>>,
    p: int,
    msgs: Seq<MessageModel>,
    buf: Seq<Seq<char>>,
    count: nat,
)
    requires
        0 <= p < ls.len(),
        is_boundary(tline(ls, p)),
    ensures
        message_phase(ls, p, msgs, buf, count) == message_phase(
            ls,
            p + 1,
            flush(msgs, buf, count),
            seq![],
            0,
        ),
{
    reveal_strlit("===");
    lemma_plain_first(tline(ls, p), '=');
}

/// Wait-for-server boundaries with nothing buffered each add one to the count.
proof fn lemma_wait_markers(ls: Seq<Seq<char>>, p: int, k: nat, msgs: Seq<MessageModel>, c: nat)
    requires
        0 <= p,
        p + k <= ls.len(),
        forall|i: int| p <= i < p + k ==> is_wait_marker(#[trigger] tline(ls, i)),
    ensures
        message_phase(ls, p, msgs, seq![], c) == message_phase(ls, p + k, msgs, seq![], c + k),
    decreases k,
{
    if k > 0 {
        lemma_wait_marker_plain(tline(ls, p));
        assert(flush(msgs, seq![], c) == msgs);
        lemma_wait_markers(ls, p + 1, (k - 1) as nat, msgs, c + 1);
    }
}

/// `n` consecutive wait-for-server boundaries, from a plain state, then a
/// message line: that message is read with a wait count of `n`, and carries
/// it once flushed.
pub proof fn lemma_wait_count(ls: Seq<Seq<char>>, p: int, n: nat, msgs: Seq<MessageModel>)
    requires
        0 <= p,
        p + n < ls.len(),
        forall|i: int| p <= i < p + n ==> is_wait_marker(#[trigger] tline(ls, i)),
        !is_block_start(tline(ls, p + n)),
        !is_boundary(tline(ls, p + n)),
        !is_wait_marker(tline(ls, p + n)),
        !is_comment(tline(ls, p + n)),
    ensures
        message_phase(ls, p, msgs, seq![], 0) == message_phase(
            ls,
            p + n + 1,
            msgs,
            seq![ls[p + n]],
            n,
        ),
        flush(msgs, seq![ls[p + n]], n).last() == (MessageModel {
            content: ls[p + n],
            wait_for_server: n,
        }),
{
    lemma_wait_markers(ls, p, n, msgs, 0);
    assert(Seq::<Seq<char>>::empty().push(ls[p + n]) =~= seq![ls[p + n]]);
}

/// Query lines of a GraphQL block, none of which starts with `{`.
proof fn lemma_query_lines(ls: Seq<Seq<char>>, i: int, v: int, q: Seq<Seq<char>>)
    requires
        0 <= i <= v <= ls.len(),
        forall|j: int|
            i <= j < v ==> !is_block_start(#[trigger] tline(ls, j)) && !is_comment(tline(ls, j))
                && !has_prefix(tline(ls, j), "{"@),
    ensures
        graphql_phase(ls, i, q, None, false, None) == graphql_phase(
            ls,
            v,
            q + ls.subrange(i, v),
            None,
            false,
            None,
        ),
    decreases v - i,
{
    if i < v {
        lemma_query_lines(ls, i + 1, v, q.push(ls[i]));
        assert(q.push(ls[i]) + ls.subrange(i + 1, v) =~= q + ls.subrange(i, v));
    } else {
        assert(q + ls.subrange(i, v) =~= q);
    }
}

/// A GraphQL query followed by a last line that is a one-line JSON object:
/// the query is the lines before it, and the variables are what that line
/// parses to.
pub proof fn lemma_graphql_variables(ls: Seq<Seq<char>>, p: int, v: int)
    requires
        0 <= p < v,
        v + 1 == ls.len(),
        forall|j: int|
            p <= j < v ==> !is_block_start(#[trigger] tline(ls, j)) && !is_comment(tline(ls, j))
                && !has_prefix(tline(ls, j), "{"@),
        has_prefix(tline(ls, v), "{"@),
        ends_with_char(tline(ls, v), '}'),
    ensures
        graphql_phase(ls, p, seq![], None, false, None) == (
            ls.subrange(p, v),
            parsed_json(ls[v]),
            ls.len() as int,
        ),
{
    lemma_query_lines(ls, p, v, seq![]);
    assert(Seq::<Seq<char>>::empty() + ls.subrange(p, v) =~= ls.subrange(p, v));
    reveal_strlit("{");
    lemma_prefix_first(tline(ls, v), "{"@);
    lemma_plain_first(tline(ls, v), '{');
    assert(ls.subrange(v, v + 1).len() == 1);
    assert(join(ls.subrange(v, v + 1), '\n') == ls[v]);
    assert(apply_vars(None, ls[v]) == parsed_json(ls[v]));
    reveal_with_fuel(graphql_phase, 2);
}

proof fn lemma_annotation_end(
    ls: Seq<Seq<char>>,
    p: int,
    name: Option<Seq<char>>,
    c: Seq<Seq<char>>,
)
    requires
        0 <= p <= ls.len(),
    ensures
        p <= annotation_phase(ls, p, name, c).2 <= ls.len(),
    decreases ls.len() - p,
{
    if p < ls.len() {
        let t = tline(ls, p);
        if is_name_annotation(t) {
            lemma_annotation_end(ls, p + 1, Some(crate::text::trim(t.subrange(7, t.len() as int))), c);
        } else if is_comment(t) {
            lemma_annotation_end(ls, p + 1, name, if crate::classify::is_annotation(t) { c } else { c.push(t) });
        }
    }
}

proof fn lemma_header_end(
    ls: Seq<Seq<char>>,
    p: int,
    h: crate::headers::HeaderSeq,
    c: Seq<Seq<char>>,
    keep: bool,
)
    requires
        0 <= p <= ls.len(),
    ensures
        p <= header_phase(ls, p, h, c, keep).3 <= ls.len(),
        !header_phase(ls, p, h, c, keep).2 ==> header_phase(ls, p, h, c, keep).3 == ls.len(),
    decreases ls.len() - p,
{
    if p < ls.len() {
        let t = tline(ls, p);
        if t.len() == 0 {
        } else if is_comment(t) {
            lemma_header_end(
                ls,
                p + 1,
                h,
                if keep && !crate::classify::is_annotation(t) { c.push(t) } else { c },
                keep,
            );
        } else if crate::parser::has_colon(t) {
            lemma_header_end(
                ls,
                p + 1,
                crate::headers::header_insert(h, crate::parser::header_key(t), crate::parser::header_value(t)),
                c,
                keep,
            );
        } else {
            lemma_header_end(ls, p + 1, h, c, keep);
        }
    }
}

/// Where no line from `p` on starts a block, the messages run to the end.
proof fn lemma_messages_to_end(
    ls: Seq<Seq<char>>,
    p: int,
    msgs: Seq<MessageModel>,
    buf: Seq<Seq<char>>,
    count: nat,
)
    requires
        0 <= p <= ls.len(),
        forall|i: int| p <= i < ls.len() ==> !is_block_start(#[trigger] tline(ls, i)),
    ensures
        message_phase(ls, p, msgs, buf, count).1 == ls.len(),
    decreases ls.len() - p,
{
    if p < ls.len() {
        let t = tline(ls, p);
        if is_boundary(t) {
            lemma_messages_to_end(ls, p + 1, flush(msgs, buf, count), seq![], 0);
        } else if is_wait_marker(t) {
            lemma_messages_to_end(ls, p + 1, flush(msgs, buf, count), seq![], count + 1);
        } else if is_comment(t) {
            lemma_messages_to_end(ls, p + 1, msgs, buf, count);
        } else {
            lemma_messages_to_end(ls, p + 1, msgs, buf.push(ls[p]), count);
        }
    }
}

/// Where no line from `p` on starts a block, the query runs to the end.
proof fn lemma_graphql_to_end(
    ls: Seq<Seq<char>>,
    p: int,
    q: Seq<Seq<char>>,
    vars: Option<serde_json::Value>,
    in_vars: bool,
    open: Option<int>,
)
    requires
        0 <= p <= ls.len(),
        forall|i: int| p <= i < ls.len() ==> !is_block_start(#[trigger] tline(ls, i)),
    ensures
        graphql_phase(ls, p, q, vars, in_vars, open).2 == ls.len(),
    decreases ls.len() - p,
{
    if p < ls.len() {
        let t = tline(ls, p);
        match open {
            Some(s) => {
                if ends_with_char(t, '}') {
                    lemma_graphql_to_end(
                        ls,
                        p + 1,
                        q,
                        apply_vars(vars, join(ls.subrange(s, p + 1), '\n')),
                        true,
                        None,
                    );
                } else {
                    lemma_graphql_to_end(ls, p + 1, q, vars, true, Some(s));
                }
            },
            None => {
                if is_comment(t) {
                    lemma_graphql_to_end(ls, p + 1, q, vars, in_vars, None);
                } else if in_vars || (has_prefix(t, "{"@) && q.len() > 0) {
                    if ends_with_char(t, '}') {
                        lemma_graphql_to_end(
                            ls,
                            p + 1,
                            q,
                            apply_vars(vars, join(ls.subrange(p, p + 1), '\n')),
                            true,
                            None,
                        );
                    } else {
                        lemma_graphql_to_end(ls, p + 1, q, vars, true, Some(p));
                    }
                } else {
                    lemma_graphql_to_end(ls, p + 1, q.push(ls[p]), vars, false, None);
                }
            },
        }
    }
}

/// Where no line from `p` on starts a block, an HTTP block runs to the end.
proof fn lemma_http_block_to_end(ls: Seq<Seq<char>>, p: int, name: Option<Seq<char>>)
    requires
        0 <= p <= ls.len(),
        forall|i: int| p <= i < ls.len() ==> !is_block_start(#[trigger] tline(ls, i)),
    ensures
        http_block(ls, p, name).1 == ls.len(),
{
    let (n1, q1) = name_phase(ls, p, name);
    lemma_annotation_end(ls, q1, n1, seq![]);
    let (n2, c2, q2) = annotation_phase(ls, q1, n1, seq![]);
    let q3 = request_line(ls, q2).3;
    lemma_header_end(ls, q3, seq![], c2, true);
    let (h, c4, in_body, q4) = header_phase(ls, q3, seq![], c2, true);
    if in_body {
        lemma_body_to_end(ls, q4, seq![]);
    }
}

/// A file that is one `###` block, with no later line that starts a block,
/// parses to that block's HTTP descriptor alone, or to nothing where the block
/// has no URI.
pub proof fn lemma_single_http_block(ls: Seq<Seq<char>>)
    requires
        ls.len() > 0,
        is_separator(tline(ls, 0)),
        forall|i: int| 1 <= i < ls.len() ==> !is_block_start(#[trigger] tline(ls, i)),
    ensures
        parse_lines(ls) == match http_block(ls, 1, separator_name(tline(ls, 0))).0 {
            Some(m) => seq![RequestModel::Http(m)],
            None => Seq::<RequestModel>::empty(),
        },
{
    reveal_strlit("###");
    lemma_prefix_first(tline(ls, 0), "###"@);
    lemma_http_block_to_end(ls, 1, separator_name(tline(ls, 0)));
    reveal_with_fuel(crate::parser::scan, 2);
}

/// A file that is one WebSocket, RSocket or GraphQL block with a URI, with no
/// later line that starts a block, parses to exactly one descriptor, of the
/// kind that its keyword names.
pub proof fn lemma_single_protocol_block(ls: Seq<Seq<char>>)
    requires
        ls.len() > 0,
        is_protocol_header(tline(ls, 0)),
        tokens(tline(ls, 0)).len() >= 2,
        forall|i: int| 1 <= i < ls.len() ==> !is_block_start(#[trigger] tline(ls, i)),
    ensures
        parse_lines(ls).len() == 1,
        has_prefix(tline(ls, 0), "WEBSOCKET"@) ==> parse_lines(ls)[0] is WebSocket,
        has_prefix(tline(ls, 0), "RSOCKET"@) ==> parse_lines(ls)[0] is RSocket,
        has_prefix(tline(ls, 0), "GRAPHQL"@) ==> parse_lines(ls)[0] is GraphQL,
        has_prefix(tline(ls, 0), "WEBSOCKET"@) ==> (stream_block(ls, 0).0 matches Some(m)
            && parse_lines(ls) == seq![RequestModel::WebSocket(m)]),
        has_prefix(tline(ls, 0), "RSOCKET"@) ==> (stream_block(ls, 0).0 matches Some(m)
            && parse_lines(ls) == seq![RequestModel::RSocket(m)]),
        has_prefix(tline(ls, 0), "GRAPHQL"@) ==> (graphql_block(ls, 0).0 matches Some(g)
            && parse_lines(ls) == seq![RequestModel::GraphQL(g)]),
{
    let t = tline(ls, 0);
    reveal_strlit("###");
    reveal_strlit("WEBSOCKET");
    reveal_strlit("RSOCKET");
    reveal_strlit("GRAPHQL");
    if has_prefix(t, "WEBSOCKET"@) {
        lemma_prefix_first(t, "WEBSOCKET"@);
    } else if has_prefix(t, "RSOCKET"@) {
        lemma_prefix_first(t, "RSOCKET"@);
    } else {
        lemma_prefix_first(t, "GRAPHQL"@);
    }
    if is_separator(t) {
        lemma_prefix_first(t, "###"@);
    }
    lemma_header_end(ls, 1, seq![], seq![], false);
    let q1 = header_phase(ls, 1, seq![], seq![], false).3;
    lemma_messages_to_end(ls, q1, seq![], seq![], 0);
    lemma_graphql_to_end(ls, q1, seq![], None, false, None);
    reveal_with_fuel(crate::parser::scan, 2);
}

/// The header phase stops at the first blank line, and consumes it.
proof fn lemma_header_stops_at_blank(
    ls: Seq<Seq<char>>,
    p: int,
    h: crate::headers::HeaderSeq,
    c: Seq<Seq<char>>,
    keep: bool,
    b: int,
)
    requires
        0 <= p <= b < ls.len(),
        tline(ls, b).len() == 0,
    ensures
        header_phase(ls, p, h, c, keep).2,
        p < header_phase(ls, p, h, c, keep).3 <= b + 1,
    decreases b - p,
{
    let t = tline(ls, p);
    if t.len() == 0 {
    } else if is_comment(t) {
        lemma_header_stops_at_blank(
            ls,
            p + 1,
            h,
            if keep && !crate::classify::is_annotation(t) { c.push(t) } else { c },
            keep,
            b,
        );
    } else if crate::parser::has_colon(t) {
        lemma_header_stops_at_blank(
            ls,
            p + 1,
            crate::headers::header_insert(h, crate::parser::header_key(t), crate::parser::header_value(t)),
            c,
            keep,
            b,
        );
    } else {
        lemma_header_stops_at_blank(ls, p + 1, h, c, keep, b);
    }
}

/// Body lines run up to the next line that starts a block, or the end.
proof fn lemma_body_until(ls: Seq<Seq<char>>, p: int, e: int, acc: Seq<Seq<char>>)
    requires
        0 <= p <= e <= ls.len(),
        forall|i: int| p <= i < e ==> !is_block_start(#[trigger] tline(ls, i)),
        e < ls.len() ==> is_block_start(tline(ls, e)),
    ensures
        body_phase(ls, p, acc).1 == e,
    decreases e - p,
{
    if p < e {
        lemma_body_until(ls, p + 1, e, acc.push(ls[p]));
    }
}

/// A plain HTTP block over lines `s..e`: a separator, a request line right
/// after it, no line inside that starts a block, and, unless the block ends
/// the file, a blank line that ends its headers.
pub open spec fn plain_block(ls: Seq<Seq<char>>, s: int, e: int) -> bool {
    &&& 0 <= s
    &&& s + 1 < e <= ls.len()
    &&& is_separator(tline(ls, s))
    &&& !is_name_line(tline(ls, s + 1))
    &&& !is_comment(tline(ls, s + 1))
    &&& forall|i: int| s < i < e ==> !is_block_start(#[trigger] tline(ls, i))
    &&& e < ls.len() ==> exists|b: int| s + 2 <= b < e && (#[trigger] tline(ls, b)).len() == 0
    &&& e < ls.len() ==> is_separator(tline(ls, e))
}

/// The HTTP descriptor, if any, of the block that begins at the separator line `s`.
pub open spec fn block_result(ls: Seq<Seq<char>>, s: int) -> Option<RequestModel> {
    match http_block(ls, s + 1, separator_name(tline(ls, s))).0 {
        Some(m) => Some(RequestModel::Http(m)),
        None => None,
    }
}

/// The descriptors of the first `k` blocks, whose separators are at `bounds`.
pub open spec fn block_results(ls: Seq<Seq<char>>, bounds: Seq<int>, k: int) -> Seq<RequestModel>
    decreases k,
{
    if k <= 0 {
        seq![]
    } else {
        push_some(block_results(ls, bounds, k - 1), block_result(ls, bounds[k - 1]))
    }
}

/// How many of the first `k` blocks have a URI.
pub open spec fn blocks_with_uri(ls: Seq<Seq<char>>, bounds: Seq<int>, k: int) -> nat
    decreases k,
{
    if k <= 0 {
        0
    } else {
        blocks_with_uri(ls, bounds, k - 1) + if block_result(ls, bounds[k - 1]) is Some {
            1nat
        } else {
            0nat
        }
    }
}

/// A plain block is read to its end, and no further.
proof fn lemma_plain_block_end(ls: Seq<Seq<char>>, s: int, e: int)
    requires
        plain_block(ls, s, e),
    ensures
        http_block(ls, s + 1, separator_name(tline(ls, s))).1 == e,
{
    let name = separator_name(tline(ls, s));
    lemma_annotation_is_comment(tline(ls, s + 1));
    assert(name_phase(ls, s + 1, name) == (name, s + 1));
    assert(annotation_phase(ls, s + 1, name, seq![]) == (name, Seq::<Seq<char>>::empty(), s + 1));
    assert(request_line(ls, s + 1).3 == s + 2);
    if e < ls.len() {
        let b = choose|b: int| s + 2 <= b < e && (#[trigger] tline(ls, b)).len() == 0;
        lemma_header_stops_at_blank(ls, s + 2, seq![], seq![], true, b);
        let q4 = header_phase(ls, s + 2, seq![], seq![], true).3;
        lemma_body_until(ls, q4, e, seq![]);
    } else {
        lemma_header_end(ls, s + 2, seq![], seq![], true);
        let q4 = header_phase(ls, s + 2, seq![], seq![], true).3;
        if header_phase(ls, s + 2, seq![], seq![], true).2 {
            lemma_body_until(ls, q4, e, seq![]);
        }
    }
}

/// Scanning from the separator of block `i` on gives the results of the
/// blocks from `i` on after those before.
proof fn lemma_scan_blocks(ls: Seq<Seq<char>>, bounds: Seq<int>, i: int)
    requires
        bounds.len() > 0,
        bounds.last() == ls.len(),
        0 <= i < bounds.len(),
        forall|j: int| 0 <= j < bounds.len() - 1 ==> plain_block(ls, bounds[j], #[trigger] bounds[j + 1]),
    ensures
        scan(ls, bounds[i], block_results(ls, bounds, i)) == block_results(
            ls,
            bounds,
            bounds.len() - 1,
        ),
    decreases bounds.len() - i,
{
    if i < bounds.len() - 1 {
        let s = bounds[i];
        let e = bounds[i + 1];
        assert(plain_block(ls, s, e));
        lemma_plain_block_end(ls, s, e);
        reveal_strlit("###");
        lemma_prefix_first(tline(ls, s), "###"@);
        assert(next_pos(s, e, ls.len() as int) == e);
        lemma_scan_blocks(ls, bounds, i + 1);
    }
}

proof fn lemma_count_blocks(ls: Seq<Seq<char>>, bounds: Seq<int>, k: int)
    requires
        k >= 0,
    ensures
        block_results(ls, bounds, k).len() == blocks_with_uri(ls, bounds, k),
    decreases k,
{
    if k > 0 {
        lemma_count_blocks(ls, bounds, k - 1);
    }
}

/// A file made of plain `###` blocks, whose separators are at `bounds`,
/// parses to the blocks' descriptors in file order, one for each block that
/// has a URI.
pub proof fn lemma_blocks_in_order(ls: Seq<Seq<char>>, bounds: Seq<int>)
    requires
        bounds.len() > 0,
        bounds[0] == 0,
        bounds.last() == ls.len(),
        forall|i: int| 0 <= i < bounds.len() - 1 ==> plain_block(ls, bounds[i], #[trigger] bounds[i + 1]),
    ensures
        parse_lines(ls) == block_results(ls, bounds, bounds.len() - 1),
        parse_lines(ls).len() == blocks_with_uri(ls, bounds, bounds.len() - 1),
{
    lemma_scan_blocks(ls, bounds, 0);
    lemma_count_blocks(ls, bounds, bounds.len() - 1);
}

/// The text of `ls`: each line followed by a line feed.
pub open spec fn unlines(ls: Seq<Seq<char>>) -> Seq<char>
    decreases ls.len(),
{
    if ls.len() == 0 {
        seq![]
    } else {
        ls[0] + seq!['\n'] + unlines(ls.drop_first())
    }
}

/// A line as `str::lines` gives it back: no line feed in it, and no carriage
/// return at its end.
pub open spec fn plain_line(l: Seq<char>) -> bool {
    &&& forall|k: int| 0 <= k < l.len() ==> l[k] != '\n'
    &&& !(l.len() > 0 && l.last() == '\r')
}

proof fn lemma_lines_shift(a: Seq<char>, b: Seq<char>, i: int, start: int, acc: Seq<Seq<char>>)
    requires
        0 <= start <= i <= b.len(),
    ensures
        lines_from(a + b, a.len() + i, a.len() + start, acc) == lines_from(b, i, start, acc),
    decreases b.len() - i,
{
    let s = a + b;
    if i < b.len() {
        assert(s[a.len() + i] == b[i]);
        if b[i] == '\n' {
            assert(s.subrange(a.len() + start, a.len() + i) =~= b.subrange(start, i));
            lemma_lines_shift(a, b, i + 1, i + 1, acc.push(strip_cr(b.subrange(start, i))));
        } else {
            lemma_lines_shift(a, b, i + 1, start, acc);
        }
    } else {
        assert(s.subrange(a.len() + start, s.len() as int) =~= b.subrange(start, b.len() as int));
    }
}

proof fn lemma_lines_acc(s: Seq<char>, i: int, start: int, acc: Seq<Seq<char>>)
    requires
        0 <= start <= i <= s.len(),
    ensures
        lines_from(s, i, start, acc) == acc + lines_from(s, i, start, seq![]),
    decreases s.len() - i,
{
    if i < s.len() {
        if s[i] == '\n' {
            let x = strip_cr(s.subrange(start, i));
            lemma_lines_acc(s, i + 1, i + 1, acc.push(x));
            lemma_lines_acc(s, i + 1, i + 1, seq![].push(x));
            let rest = lines_from(s, i + 1, i + 1, seq![]);
            assert(acc.push(x) + rest =~= acc + (seq![].push(x) + rest));
        } else {
            lemma_lines_acc(s, i + 1, start, acc);
            lemma_lines_acc(s, i + 1, start, seq![]);
        }
    } else {
        if start < s.len() {
            assert(acc.push(s.subrange(start, s.len() as int)) =~= acc + seq![].push(
                s.subrange(start, s.len() as int),
            ));
        } else {
            assert(acc =~= acc + Seq::<Seq<char>>::empty());
        }
    }
}

proof fn lemma_lines_no_newline(s: Seq<char>, i: int, j: int, start: int, acc: Seq<Seq<char>>)
    requires
        0 <= start <= i <= j <= s.len(),
        forall|k: int| i <= k < j ==> s[k] != '\n',
    ensures
        lines_from(s, i, start, acc) == lines_from(s, j, start, acc),
    decreases j - i,
{
    if i < j {
        lemma_lines_no_newline(s, i + 1, j, start, acc);
    }
}

/// Splitting the text of plain lines into lines gives the lines back.
pub proof fn lemma_split_unlines(ls: Seq<Seq<char>>)
    requires
        forall|i: int| 0 <= i < ls.len() ==> plain_line(#[trigger] ls[i]),
    ensures
        split_lines(unlines(ls)) == ls,
    decreases ls.len(),
{
    if ls.len() == 0 {
        assert(split_lines(unlines(ls)) =~= ls);
    } else {
        let l0 = ls[0];
        let head = l0 + seq!['\n'];
        let r = unlines(ls.drop_first());
        let s = unlines(ls);
        assert(s =~= head + r);
        assert(plain_line(l0));
        assert forall|k: int| 0 <= k < l0.len() implies s[k] != '\n' by {
            assert(s[k] == l0[k]);
        }
        lemma_lines_no_newline(s, 0, l0.len() as int, 0, seq![]);
        assert(s[l0.len() as int] == '\n');
        assert(s.subrange(0, l0.len() as int) =~= l0);
        assert(strip_cr(l0) == l0);
        assert(seq![].push(l0) =~= seq![l0]);
        assert(lines_from(s, head.len() as int, head.len() as int, seq![l0]) == lines_from(r, 0, 0, seq![l0])) by {
            lemma_lines_shift(head, r, 0, 0, seq![l0]);
        }
        lemma_lines_acc(r, 0, 0, seq![l0]);
        assert forall|i: int| 0 <= i < ls.drop_first().len() implies plain_line(
            #[trigger] ls.drop_first()[i],
        ) by {
            assert(ls.drop_first()[i] == ls[i + 1]);
        }
        lemma_split_unlines(ls.drop_first());
        assert(seq![l0] + ls.drop_first() =~= ls);
    }
}

/// Content lines up to the end are read into the message being read, which
/// is flushed at the end.
proof fn lemma_content_to_end(
    ls: Seq<Seq<char>>,
    p: int,
    msgs: Seq<MessageModel>,
    buf: Seq<Seq<char>>,
    c: nat,
)
    requires
        0 <= p <= ls.len(),
        forall|i: int|
            p <= i < ls.len() ==> !is_block_start(#[trigger] tline(ls, i)) && !is_boundary(
                tline(ls, i),
            ) && !is_wait_marker(tline(ls, i)) && !is_comment(tline(ls, i)),
    ensures
        message_phase(ls, p, msgs, buf, c) == (
            flush(msgs, buf + ls.subrange(p, ls.len() as int), c),
            ls.len() as int,
        ),
    decreases ls.len() - p,
{
    if p < ls.len() {
        lemma_content_to_end(ls, p + 1, msgs, buf.push(ls[p]), c);
        assert(buf.push(ls[p]) + ls.subrange(p + 1, ls.len() as int) =~= buf + ls.subrange(
            p,
            ls.len() as int,
        ));
    } else {
        assert(buf + ls.subrange(p, ls.len() as int) =~= buf);
    }
}

/// The text of one `###` block, with no later line that starts a block,
/// parses to that block's HTTP descriptor alone, or to nothing where the
/// block has no URI.
pub proof fn lemma_single_http_block_text(ls: Seq<Seq<char>>)
    requires
        forall|i: int| 0 <= i < ls.len() ==> plain_line(#[trigger] ls[i]),
        ls.len() > 0,
        is_separator(tline(ls, 0)),
        forall|i: int| 1 <= i < ls.len() ==> !is_block_start(#[trigger] tline(ls, i)),
    ensures
        parse_text(unlines(ls)) == match http_block(ls, 1, separator_name(tline(ls, 0))).0 {
            Some(m) => seq![RequestModel::Http(m)],
            None => Seq::<RequestModel>::empty(),
        },
{
    lemma_split_unlines(ls);
    lemma_single_http_block(ls);
}

/// The text of one WebSocket, RSocket or GraphQL block with a URI, with no
/// later line that starts a block, parses to exactly one descriptor, of the
/// kind that its keyword names, whose URI is the keyword line's second word.
pub proof fn lemma_single_protocol_block_text(ls: Seq<Seq<char>>)
    requires
        forall|i: int| 0 <= i < ls.len() ==> plain_line(#[trigger] ls[i]),
        ls.len() > 0,
        is_protocol_header(tline(ls, 0)),
        tokens(tline(ls, 0)).len() >= 2,
        forall|i: int| 1 <= i < ls.len() ==> !is_block_start(#[trigger] tline(ls, i)),
    ensures
        parse_text(unlines(ls)).len() == 1,
        has_prefix(tline(ls, 0), "WEBSOCKET"@) ==> (parse_text(unlines(ls))[0] matches RequestModel::WebSocket(m)
            && m.uri == tokens(tline(ls, 0))[1]),
        has_prefix(tline(ls, 0), "RSOCKET"@) ==> (parse_text(unlines(ls))[0] matches RequestModel::RSocket(m)
            && m.uri == tokens(tline(ls, 0))[1]),
        has_prefix(tline(ls, 0), "GRAPHQL"@) ==> (parse_text(unlines(ls))[0] matches RequestModel::GraphQL(g)
            && g.uri == tokens(tline(ls, 0))[1]),
{
    lemma_split_unlines(ls);
    lemma_single_protocol_block(ls);
}

/// The text of plain `###` blocks, whose separators are at `bounds`, parses
/// to the blocks' descriptors in file order, one for each block that has a
/// URI.
pub proof fn lemma_blocks_in_order_text(ls: Seq<Seq<char>>, bounds: Seq<int>)
    requires
        forall|i: int| 0 <= i < ls.len() ==> plain_line(#[trigger] ls[i]),
        bounds.len() > 0,
        bounds[0] == 0,
        bounds.last() == ls.len(),
        forall|i: int| 0 <= i < bounds.len() - 1 ==> plain_block(ls, bounds[i], #[trigger] bounds[i + 1]),
    ensures
        parse_text(unlines(ls)) == block_results(ls, bounds, bounds.len() - 1),
        parse_text(unlines(ls)).len() == blocks_with_uri(ls, bounds, bounds.len() - 1),
{
    lemma_split_unlines(ls);
    lemma_blocks_in_order(ls, bounds);
}

/// The text of a `###` block with a request line, header lines, a blank
/// line and body lines that start no block parses to one HTTP descriptor
/// whose body is the body lines joined with line feeds, untrimmed.
pub proof fn lemma_body_verbatim_text(ls: Seq<Seq<char>>, b: int)
    requires
        forall|i: int| 0 <= i < ls.len() ==> plain_line(#[trigger] ls[i]),
        2 <= b,
        b + 1 < ls.len(),
        is_separator(tline(ls, 0)),
        !is_name_line(tline(ls, 1)),
        !is_comment(tline(ls, 1)),
        request_line(ls, 1).1.len() > 0,
        forall|i: int| 1 <= i < ls.len() ==> !is_block_start(#[trigger] tline(ls, i)),
        forall|i: int| 2 <= i < b ==> (#[trigger] tline(ls, i)).len() > 0 && !is_comment(tline(ls, i)),
        tline(ls, b).len() == 0,
    ensures
        parse_text(unlines(ls)).len() == 1,
        parse_text(unlines(ls))[0] matches RequestModel::Http(m) && m.body == Some(
            join(ls.subrange(b + 1, ls.len() as int), '\n'),
        ),
{
    lemma_body_verbatim(ls, separator_name(tline(ls, 0)), b, ls.len() as int);
    lemma_single_http_block_text(ls);
}

/// The text of a WebSocket or RSocket block with a URI, no headers, `n`
/// wait-for-server boundaries and then message lines up to the end: one
/// descriptor, with one message, those lines joined with line feeds, that
/// waits for `n` frames.
pub proof fn lemma_wait_count_text(ls: Seq<Seq<char>>, n: nat)
    requires
        forall|i: int| 0 <= i < ls.len() ==> plain_line(#[trigger] ls[i]),
        has_prefix(tline(ls, 0), "WEBSOCKET"@) || has_prefix(tline(ls, 0), "RSOCKET"@),
        tokens(tline(ls, 0)).len() >= 2,
        tline(ls, 1).len() == 0,
        2 + n < ls.len(),
        forall|i: int| 2 <= i < 2 + n ==> is_wait_marker(#[trigger] tline(ls, i)),
        forall|i: int|
            2 + n <= i < ls.len() ==> !is_block_start(#[trigger] tline(ls, i)) && !is_boundary(
                tline(ls, i),
            ) && !is_wait_marker(tline(ls, i)) && !is_comment(tline(ls, i)),
    ensures
        parse_text(unlines(ls)).len() == 1,
        stream_block(ls, 0).0 matches Some(m) && m.messages == seq![
            MessageModel { content: join(ls.subrange(2 + n as int, ls.len() as int), '\n'), wait_for_server: n },
        ],
        parse_text(unlines(ls)) == seq![RequestModel::WebSocket(stream_block(ls, 0).0->Some_0)]
            || parse_text(unlines(ls)) == seq![RequestModel::RSocket(stream_block(ls, 0).0->Some_0)],
{
    assert forall|i: int| 1 <= i < ls.len() implies !is_block_start(#[trigger] tline(ls, i)) by {
        if 2 <= i < 2 + n {
            lemma_wait_marker_plain(tline(ls, i));
        }
        if i == 1 {
            reveal_strlit("###");
            reveal_strlit("WEBSOCKET");
            reveal_strlit("RSOCKET");
            reveal_strlit("GRAPHQL");
        }
    }
    reveal_strlit("WEBSOCKET");
    reveal_strlit("RSOCKET");
    reveal_strlit("GRAPHQL");
    if has_prefix(tline(ls, 0), "WEBSOCKET"@) {
        lemma_prefix_first(tline(ls, 0), "WEBSOCKET"@);
    } else {
        lemma_prefix_first(tline(ls, 0), "RSOCKET"@);
    }
    lemma_split_unlines(ls);
    lemma_single_protocol_block(ls);
    assert(header_phase(ls, 1, seq![], seq![], false).3 == 2);
    lemma_wait_markers(ls, 2, n, seq![], 0);
    lemma_content_to_end(ls, 2 + n as int, seq![], seq![], n);
    assert(Seq::<Seq<char>>::empty() + ls.subrange(2 + n as int, ls.len() as int) =~= ls.subrange(
        2 + n as int,
        ls.len() as int,
    ));
    assert(Seq::<MessageModel>::empty().push(
        MessageModel { content: join(ls.subrange(2 + n as int, ls.len() as int), '\n'), wait_for_server: n },
    ) =~= seq![
        MessageModel { content: join(ls.subrange(2 + n as int, ls.len() as int), '\n'), wait_for_server: n },
    ]);
}

/// The text of a GraphQL block with a URI, no headers, query lines that
/// start no block, comment or `{`, and a last line that is a one-line JSON
/// object: one descriptor whose query is the query lines and whose variables
/// are what that line parses to.
pub proof fn lemma_graphql_variables_text(ls: Seq<Seq<char>>, v: int)
    requires
        forall|i: int| 0 <= i < ls.len() ==> plain_line(#[trigger] ls[i]),
        has_prefix(tline(ls, 0), "GRAPHQL"@),
        tokens(tline(ls, 0)).len() >= 2,
        tline(ls, 1).len() == 0,
        2 < v,
        v + 1 == ls.len(),
        forall|j: int|
            2 <= j < v ==> !is_block_start(#[trigger] tline(ls, j)) && !is_comment(tline(ls, j))
                && !has_prefix(tline(ls, j), "{"@),
        has_prefix(tline(ls, v), "{"@),
        ends_with_char(tline(ls, v), '}'),
    ensures
        parse_text(unlines(ls)) == seq![
            RequestModel::GraphQL(
                crate::model::GraphQLModel {
                    uri: tokens(tline(ls, 0))[1],
                    query: join(ls.subrange(2, v), '\n'),
                    variables: parsed_json(ls[v]),
                    headers: seq![],
                },
            ),
        ],
{
    reveal_strlit("{");
    lemma_prefix_first(tline(ls, v), "{"@);
    lemma_plain_first(tline(ls, v), '{');
    assert forall|i: int| 1 <= i < ls.len() implies !is_block_start(#[trigger] tline(ls, i)) by {
        if i == 1 {
            reveal_strlit("###");
            reveal_strlit("WEBSOCKET");
            reveal_strlit("RSOCKET");
            reveal_strlit("GRAPHQL");
        }
    }
    reveal_strlit("GRAPHQL");
    lemma_prefix_first(tline(ls, 0), "GRAPHQL"@);
    lemma_split_unlines(ls);
    lemma_single_protocol_block(ls);
    assert(header_phase(ls, 1, seq![], seq![], false) == (
        Seq::<(Seq<char>, Seq<char>)>::empty(),
        Seq::<Seq<char>>::empty(),
        true,
        2int,
    ));
    lemma_graphql_variables(ls, 2, v);
}

/// Content lines are read into the message being read.
proof fn lemma_content_lines(
    ls: Seq<Seq<char>>,
    p: int,
    q: int,
    msgs: Seq<MessageModel>,
    buf: Seq<Seq<char>>,
    c: nat,
)
    requires
        0 <= p <= q <= ls.len(),
        forall|i: int|
            p <= i < q ==> !is_block_start(#[trigger] tline(ls, i)) && !is_boundary(tline(ls, i))
                && !is_wait_marker(tline(ls, i)) && !is_comment(tline(ls, i)),
    ensures
        message_phase(ls, p, msgs, buf, c) == message_phase(ls, q, msgs, buf + ls.subrange(p, q), c),
    decreases q - p,
{
    if p < q {
        lemma_content_lines(ls, p + 1, q, msgs, buf.push(ls[p]), c);
        assert(buf.push(ls[p]) + ls.subrange(p + 1, q) =~= buf + ls.subrange(p, q));
    } else {
        assert(buf + ls.subrange(p, q) =~= buf);
    }
}

/// In a WebSocket or RSocket block with no headers, message lines before
/// `n >= 1` wait-for-server boundaries form a first message that waits for
/// nothing, and the lines after them, up to the end, a second that waits for
/// `n` frames.
pub proof fn lemma_wait_count_after_message(ls: Seq<Seq<char>>, a: int, n: nat)
    requires
        tokens(tline(ls, 0)).len() >= 2,
        tline(ls, 1).len() == 0,
        2 < a,
        n >= 1,
        a + n < ls.len(),
        forall|i: int|
            2 <= i < a ==> !is_block_start(#[trigger] tline(ls, i)) && !is_boundary(tline(ls, i))
                && !is_wait_marker(tline(ls, i)) && !is_comment(tline(ls, i)),
        forall|i: int| a <= i < a + n ==> is_wait_marker(#[trigger] tline(ls, i)),
        forall|i: int|
            a + n <= i < ls.len() ==> !is_block_start(#[trigger] tline(ls, i)) && !is_boundary(
                tline(ls, i),
            ) && !is_wait_marker(tline(ls, i)) && !is_comment(tline(ls, i)),
    ensures
        stream_block(ls, 0).0 matches Some(m) && m.messages == seq![
            MessageModel { content: join(ls.subrange(2, a), '\n'), wait_for_server: 0 },
            MessageModel {
                content: join(ls.subrange(a + n as int, ls.len() as int), '\n'),
                wait_for_server: n,
            },
        ],
{
    let m0 = MessageModel { content: join(ls.subrange(2, a), '\n'), wait_for_server: 0 };
    assert(header_phase(ls, 1, seq![], seq![], false).3 == 2);
    lemma_content_lines(ls, 2, a, seq![], seq![], 0);
    assert(Seq::<Seq<char>>::empty() + ls.subrange(2, a) =~= ls.subrange(2, a));
    lemma_wait_marker_plain(tline(ls, a));
    assert(flush(seq![], ls.subrange(2, a), 0) == seq![m0]) by {
        assert(Seq::<MessageModel>::empty().push(m0) =~= seq![m0]);
    }
    assert(message_phase(ls, a, seq![], ls.subrange(2, a), 0) == message_phase(
        ls,
        a + 1,
        seq![m0],
        seq![],
        1,
    ));
    lemma_wait_markers(ls, a + 1, (n - 1) as nat, seq![m0], 1);
    lemma_content_to_end(ls, a + n as int, seq![m0], seq![], n);
    assert(Seq::<Seq<char>>::empty() + ls.subrange(a + n as int, ls.len() as int) =~= ls.subrange(
        a + n as int,
        ls.len() as int,
    ));
    assert(seq![m0].push(
        MessageModel {
            content: join(ls.subrange(a + n as int, ls.len() as int), '\n'),
            wait_for_server: n,
        },
    ) =~= seq![
        m0,
        MessageModel {
            content: join(ls.subrange(a + n as int, ls.len() as int), '\n'),
            wait_for_server: n,
        },
    ]);
}

} // verus!
