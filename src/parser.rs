//! The request-file parser: a single pass over the lines of a file that
//! classifies each line and gathers the blocks into request descriptors.

use vstd::prelude::*;
use crate::classify::{
    block_start, boundary, comment, is_annotation, is_block_start, is_boundary, is_comment,
    is_method_word, is_name_annotation, is_name_line, is_url_shorthand, is_wait_marker,
    is_separator, method_word, name_line, separator, to_upper, upper_of, url_shorthand, wait_marker,
};
use crate::headers::{header_insert, HeaderSeq, Headers};
use crate::json::{parse_json, parsed_json};
use crate::model::{
    Request, RequestModel, request_views, GraphQLModel, GraphQLRequest, HttpModel, HttpRequest, MessageModel, RSocketMessage,
    RSocketRequest, StreamModel, WebSocketMessage, WebSocketRequest, opt_text,
};
use crate::text::{
    chars_of, ends_with_char, find_char, has_prefix, index_of, join, join_all, join_range, push_text, split_ws, starts_with,
    lines_of, split_lines, string_of, texts, tokens, trim, trim_string, trimmed,
};
use vstd::string::StringExecFns;

verus! {

broadcast use vstd::string::group_string_axioms;

// ---------------------------------------------------------------------------
// The parser as spec functions over the lines of a file.
// ---------------------------------------------------------------------------

/// A trimmed line: the line that the classifier sees.
pub open spec fn tline(ls: Seq<Seq<char>>, p: int) -> Seq<char> {
    trim(ls[p])
}

/// The name that a separator line gives: the text after `###`, unless it is
/// empty or a bare method or protocol word.
pub open spec fn separator_name(t: Seq<char>) -> Option<Seq<char>> {
    let rest = trim(t.subrange(3, t.len() as int));
    if rest.len() > 0 && !is_method_word(rest) {
        Some(rest)
    } else {
        None
    }
}

/// The name line right after a separator, if there is one.
pub open spec fn name_phase(ls: Seq<Seq<char>>, p: int, name: Option<Seq<char>>) -> (Option<
    Seq<char>,
>, int) {
    if 0 <= p < ls.len() && is_name_line(tline(ls, p)) {
        (Some(tline(ls, p)), p + 1)
    } else {
        (name, p)
    }
}

/// A run of `# @name` annotations and comments.
pub open spec fn annotation_phase(
    ls: Seq<Seq<char>>,
    p: int,
    name: Option<Seq<char>>,
    comments: Seq<Seq<char>>,
) -> (Option<Seq<char>>, Seq<Seq<char>>, int)
    decreases ls.len() - p,
{
    if 0 <= p < ls.len() {
        let t = tline(ls, p);
        if is_name_annotation(t) {
            annotation_phase(ls, p + 1, Some(trim(t.subrange(7, t.len() as int))), comments)
        } else if is_comment(t) {
            annotation_phase(
                ls,
                p + 1,
                name,
                if is_annotation(t) {
                    comments
                } else {
                    comments.push(t)
                },
            )
        } else {
            (name, comments, p)
        }
    } else {
        (name, comments, p)
    }
}

/// The request line: method, URI and HTTP version.
pub open spec fn request_line(ls: Seq<Seq<char>>, p: int) -> (Seq<char>, Seq<char>, Option<
    Seq<char>,
>, int) {
    if 0 <= p < ls.len() {
        let t = tline(ls, p);
        if is_url_shorthand(t) {
            ("GET"@, t, None, p + 1)
        } else {
            let w = tokens(t);
            (
                if w.len() > 0 {
                    upper_of(w[0])
                } else {
                    "GET"@
                },
                if w.len() > 1 {
                    w[1]
                } else {
                    seq![]
                },
                if w.len() > 2 {
                    Some(join(w.subrange(2, w.len() as int), ' '))
                } else {
                    None
                },
                p + 1,
            )
        }
    } else {
        ("GET"@, seq![], None, p)
    }
}

/// Whether a trimmed line holds a `:`.
pub open spec fn has_colon(t: Seq<char>) -> bool {
    index_of(t, ':', 0) < t.len()
}

/// The name of a header line: what comes before the first `:`, trimmed.
pub open spec fn header_key(t: Seq<char>) -> Seq<char> {
    trim(t.subrange(0, index_of(t, ':', 0)))
}

/// The value of a header line: what comes after the first `:`, trimmed.
pub open spec fn header_value(t: Seq<char>) -> Seq<char> {
    trim(t.subrange(index_of(t, ':', 0) + 1, t.len() as int))
}

/// Header lines up to the first blank line, which is consumed; comments are
/// kept where `keep` holds. The flag tells whether a blank line ended it.
pub open spec fn header_phase(
    ls: Seq<Seq<char>>,
    p: int,
    h: HeaderSeq,
    comments: Seq<Seq<char>>,
    keep: bool,
) -> (HeaderSeq, Seq<Seq<char>>, bool, int)
    decreases ls.len() - p,
{
    if 0 <= p < ls.len() {
        let t = tline(ls, p);
        if t.len() == 0 {
            (h, comments, true, p + 1)
        } else if is_comment(t) {
            header_phase(
                ls,
                p + 1,
                h,
                if keep && !is_annotation(t) {
                    comments.push(t)
                } else {
                    comments
                },
                keep,
            )
        } else if has_colon(t) {
            header_phase(
                ls,
                p + 1,
                header_insert(h, header_key(t), header_value(t)),
                comments,
                keep,
            )
        } else {
            header_phase(ls, p + 1, h, comments, keep)
        }
    } else {
        (h, comments, false, p)
    }
}

/// Raw body lines up to the next block start.
pub open spec fn body_phase(ls: Seq<Seq<char>>, p: int, acc: Seq<Seq<char>>) -> (Seq<
    Seq<char>,
>, int)
    decreases ls.len() - p,
{
    if 0 <= p < ls.len() && !is_block_start(tline(ls, p)) {
        body_phase(ls, p + 1, acc.push(ls[p]))
    } else {
        (acc, p)
    }
}

/// An HTTP block whose first line (after the separator) is at `p`; `None`
/// where it has no URI.
pub open spec fn http_block(ls: Seq<Seq<char>>, p: int, sep_name: Option<Seq<char>>) -> (Option<
    HttpModel,
>, int) {
    let (n1, q1) = name_phase(ls, p, sep_name);
    let (n2, c2, q2) = annotation_phase(ls, q1, n1, seq![]);
    let (m, u, v, q3) = request_line(ls, q2);
    let (h, c4, in_body, q4) = header_phase(ls, q3, seq![], c2, true);
    let (bl, q5) = if in_body {
        body_phase(ls, q4, seq![])
    } else {
        (seq![], q4)
    };
    let model = HttpModel {
        name: n2,
        method: m,
        uri: u,
        http_version: v,
        headers: h,
        body: if bl.len() > 0 {
            Some(join(bl, '\n'))
        } else {
            None
        },
        comments: c4,
    };
    (
        if u.len() > 0 {
            Some(model)
        } else {
            None
        },
        q5,
    )
}

/// `msgs` with the buffered lines appended as one message, if any are buffered.
pub open spec fn flush(msgs: Seq<MessageModel>, buf: Seq<Seq<char>>, count: nat) -> Seq<
    MessageModel,
> {
    if buf.len() > 0 {
        msgs.push(MessageModel { content: join(buf, '\n'), wait_for_server: count })
    } else {
        msgs
    }
}

/// The messages of a WebSocket or RSocket block: `buf` holds the lines of the
/// message being read, `count` the wait-for-server boundaries before it.
pub open spec fn message_phase(
    ls: Seq<Seq<char>>,
    p: int,
    msgs: Seq<MessageModel>,
    buf: Seq<Seq<char>>,
    count: nat,
) -> (Seq<MessageModel>, int)
    decreases ls.len() - p,
{
    if 0 <= p < ls.len() && !is_block_start(tline(ls, p)) {
        let t = tline(ls, p);
        if is_boundary(t) {
            message_phase(ls, p + 1, flush(msgs, buf, count), seq![], 0)
        } else if is_wait_marker(t) {
            message_phase(ls, p + 1, flush(msgs, buf, count), seq![], count + 1)
        } else if is_comment(t) {
            message_phase(ls, p + 1, msgs, buf, count)
        } else {
            message_phase(ls, p + 1, msgs, buf.push(ls[p]), count)
        }
    } else {
        (flush(msgs, buf, count), p)
    }
}

/// A WebSocket or RSocket block whose keyword line is at `p`; `None` where that
/// line has no URI.
pub open spec fn stream_block(ls: Seq<Seq<char>>, p: int) -> (Option<StreamModel>, int) {
    let w = tokens(tline(ls, p));
    if w.len() < 2 {
        (None, p + 1)
    } else {
        let (h, c, b, q1) = header_phase(ls, p + 1, seq![], seq![], false);
        let (ms, q2) = message_phase(ls, q1, seq![], seq![], 0);
        (Some(StreamModel { uri: w[1], headers: h, messages: ms }), q2)
    }
}

/// `vars` after the variables text `text` was read: replaced where it parses.
pub open spec fn apply_vars(vars: Option<serde_json::Value>, text: Seq<char>) -> Option<
    serde_json::Value,
> {
    match parsed_json(text) {
        Some(v) => Some(v),
        None => vars,
    }
}

/// The query and variables of a GraphQL block. `in_vars` tells whether a
/// variables block was seen; `open` is the first line of a variables block
/// that is still being read.
pub open spec fn graphql_phase(
    ls: Seq<Seq<char>>,
    p: int,
    query: Seq<Seq<char>>,
    vars: Option<serde_json::Value>,
    in_vars: bool,
    open: Option<int>,
) -> (Seq<Seq<char>>, Option<serde_json::Value>, int)
    decreases ls.len() - p,
{
    let more = 0 <= p < ls.len() && !is_block_start(tline(ls, p));
    match open {
        Some(s) => {
            if !more {
                (query, apply_vars(vars, join(ls.subrange(s, p), '\n')), p)
            } else if ends_with_char(tline(ls, p), '}') {
                graphql_phase(
                    ls,
                    p + 1,
                    query,
                    apply_vars(vars, join(ls.subrange(s, p + 1), '\n')),
                    true,
                    None,
                )
            } else {
                graphql_phase(ls, p + 1, query, vars, true, Some(s))
            }
        },
        None => {
            if !more {
                (query, vars, p)
            } else if is_comment(tline(ls, p)) {
                graphql_phase(ls, p + 1, query, vars, in_vars, None)
            } else if in_vars || (has_prefix(tline(ls, p), "{"@) && query.len() > 0) {
                if ends_with_char(tline(ls, p), '}') {
                    graphql_phase(
                        ls,
                        p + 1,
                        query,
                        apply_vars(vars, join(ls.subrange(p, p + 1), '\n')),
                        true,
                        None,
                    )
                } else {
                    graphql_phase(ls, p + 1, query, vars, true, Some(p))
                }
            } else {
                graphql_phase(ls, p + 1, query.push(ls[p]), vars, false, None)
            }
        },
    }
}

/// A GraphQL block whose keyword line is at `p`; `None` where that line has
/// no URI.
pub open spec fn graphql_block(ls: Seq<Seq<char>>, p: int) -> (Option<GraphQLModel>, int) {
    let w = tokens(tline(ls, p));
    if w.len() < 2 {
        (None, p + 1)
    } else {
        let (h, c, b, q1) = header_phase(ls, p + 1, seq![], seq![], false);
        let (q, v, q2) = graphql_phase(ls, q1, seq![], None, false, None);
        (Some(GraphQLModel { uri: w[1], query: join(q, '\n'), variables: v, headers: h }), q2)
    }
}

/// Where scanning of `n` lines goes on after a block that began at `p` and
/// ended before `q`: a block takes at least one line.
pub open spec fn next_pos(p: int, q: int, n: int) -> int {
    if p < q <= n {
        q
    } else {
        p + 1
    }
}

/// `acc` with `r` appended where it is present.
pub open spec fn push_some(acc: Seq<RequestModel>, r: Option<RequestModel>) -> Seq<RequestModel> {
    match r {
        Some(m) => acc.push(m),
        None => acc,
    }
}

/// The requests of the blocks from line `p` on, after `acc`.
pub open spec fn scan(ls: Seq<Seq<char>>, p: int, acc: Seq<RequestModel>) -> Seq<RequestModel>
    decreases ls.len() - p,
{
    if 0 <= p < ls.len() {
        let t = tline(ls, p);
        if t.len() == 0 {
            scan(ls, p + 1, acc)
        } else if is_separator(t) {
            let (r, q) = http_block(ls, p + 1, separator_name(t));
            scan(
                ls,
                next_pos(p, q, ls.len() as int),
                push_some(
                    acc,
                    match r {
                        Some(m) => Some(RequestModel::Http(m)),
                        None => None,
                    },
                ),
            )
        } else if has_prefix(t, "WEBSOCKET"@) {
            let (r, q) = stream_block(ls, p);
            scan(
                ls,
                next_pos(p, q, ls.len() as int),
                push_some(
                    acc,
                    match r {
                        Some(m) => Some(RequestModel::WebSocket(m)),
                        None => None,
                    },
                ),
            )
        } else if has_prefix(t, "RSOCKET"@) {
            let (r, q) = stream_block(ls, p);
            scan(
                ls,
                next_pos(p, q, ls.len() as int),
                push_some(
                    acc,
                    match r {
                        Some(m) => Some(RequestModel::RSocket(m)),
                        None => None,
                    },
                ),
            )
        } else if has_prefix(t, "GRAPHQL"@) {
            let (r, q) = graphql_block(ls, p);
            scan(
                ls,
                next_pos(p, q, ls.len() as int),
                push_some(
                    acc,
                    match r {
                        Some(m) => Some(RequestModel::GraphQL(m)),
                        None => None,
                    },
                ),
            )
        } else {
            scan(ls, p + 1, acc)
        }
    } else {
        acc
    }
}

/// The requests of a file given as lines, in file order.
pub open spec fn parse_lines(ls: Seq<Seq<char>>) -> Seq<RequestModel> {
    scan(ls, 0, seq![])
}

/// The requests of a file's text, in file order.
pub open spec fn parse_text(s: Seq<char>) -> Seq<RequestModel> {
    parse_lines(split_lines(s))
}

/// The name that a separator line `t` gives.
fn separator_name_of(t: &Vec<char>) -> (r: Option<String>)
    requires
        is_separator(t@),
    ensures
        opt_text(r) == separator_name(t@),
{
    proof {
        reveal_strlit("###");
    }
    let rest = trim_string(t, 3, t.len());
    if !rest.as_str().is_empty() && !method_word(rest.as_str()) {
        Some(rest)
    } else {
        None
    }
}

/// Appends `r` to `acc`.
fn push_request(acc: &mut Vec<Request>, r: Request)
    ensures
        request_views(final(acc)@) == request_views(old(acc)@).push(r@),
{
    acc.push(r);
    assert(request_views(acc@) =~= request_views(old(acc)@).push(r@));
}

/// The model of an optional HTTP request.
pub open spec fn opt_http(r: Option<HttpRequest>) -> Option<HttpModel> {
    match r {
        Some(q) => Some(q@),
        None => None,
    }
}

/// The models of WebSocket messages.
pub open spec fn ws_views(v: Seq<WebSocketMessage>) -> Seq<MessageModel> {
    v.map_values(|m: WebSocketMessage| m@)
}

/// The models of RSocket messages.
pub open spec fn rs_views(v: Seq<RSocketMessage>) -> Seq<MessageModel> {
    v.map_values(|m: RSocketMessage| m@)
}

/// The model of an optional WebSocket request.
pub open spec fn opt_ws(r: Option<WebSocketRequest>) -> Option<StreamModel> {
    match r {
        Some(q) => Some(q@),
        None => None,
    }
}

/// The model of an optional RSocket request.
pub open spec fn opt_rs(r: Option<RSocketRequest>) -> Option<StreamModel> {
    match r {
        Some(q) => Some(q@),
        None => None,
    }
}

/// The model of an optional GraphQL request.
pub open spec fn opt_gql(r: Option<GraphQLRequest>) -> Option<GraphQLModel> {
    match r {
        Some(q) => Some(q@),
        None => None,
    }
}

/// An optional index as an integer.
pub open spec fn opt_index(o: Option<usize>) -> Option<int> {
    match o {
        Some(i) => Some(i as int),
        None => None,
    }
}

/// Appends the buffered lines to `msgs` as one message, if any are buffered.
fn flush_message(msgs: &mut Vec<WebSocketMessage>, buf: &Vec<String>, count: usize)
    ensures
        ws_views(final(msgs)@) == flush(ws_views(old(msgs)@), texts(buf@), count as nat),
{
    if buf.len() > 0 {
        let m = WebSocketMessage { content: join_all(buf, '\n'), wait_for_server: count };
        msgs.push(m);
        assert(ws_views(msgs@) =~= ws_views(old(msgs)@).push(m@));
    }
}

/// The same messages, as RSocket messages.
fn rsocket_messages(ms: &Vec<WebSocketMessage>) -> (r: Vec<RSocketMessage>)
    ensures
        rs_views(r@) == ws_views(ms@),
{
    let mut r: Vec<RSocketMessage> = Vec::new();
    let mut i: usize = 0;
    while i < ms.len()
        invariant
            i <= ms@.len(),
            rs_views(r@) == ws_views(ms@).subrange(0, i as int),
        decreases ms.len() - i,
    {
        let m = RSocketMessage {
            content: ms[i].content.clone(),
            wait_for_server: ms[i].wait_for_server,
        };
        assert(m@ == ms@[i as int]@);
        let ghost before = r@;
        r.push(m);
        assert(rs_views(r@) =~= rs_views(before).push(m@));
        assert(rs_views(r@) =~= ws_views(ms@).subrange(0, i + 1));
        i = i + 1;
    }
    assert(ws_views(ms@).subrange(0, ms@.len() as int) =~= ws_views(ms@));
    r
}

/// `vars`, replaced by the value of `text` where it parses as JSON.
fn read_vars(vars: Option<serde_json::Value>, text: &String) -> (r: Option<serde_json::Value>)
    ensures
        r == apply_vars(vars, text@),
{
    let parsed = parse_json(text.as_str());
    if parsed.is_some() {
        parsed
    } else {
        vars
    }
}

// ---------------------------------------------------------------------------
// The parser.
// ---------------------------------------------------------------------------

/// A scanner over the lines of one request file, with a read cursor.
pub struct HttpFileParser {
    content: String,
    current_line: usize,
    lines: Vec<String>,
}

impl HttpFileParser {
    /// The lines of the file.
    pub closed spec fn lines(&self) -> Seq<Seq<char>> {
        texts(self.lines@)
    }

    /// The text of the file.
    pub closed spec fn content(&self) -> Seq<char> {
        self.content@
    }

    /// The cursor: the index of the next line to read.
    pub closed spec fn pos(&self) -> int {
        self.current_line as int
    }

    /// The lines are those of the text, and the cursor is within them.
    pub closed spec fn wf(&self) -> bool {
        &&& self.lines() == split_lines(self.content@)
        &&& self.current_line <= self.lines@.len()
    }

    /// `self` scans the same file as `before`, with a valid cursor.
    pub closed spec fn follows(&self, before: &Self) -> bool {
        &&& self.lines@ == before.lines@
        &&& self.content@ == before.content@
        &&& self.current_line >= before.current_line
        &&& self.wf()
    }

    /// A parser for `content`, with the cursor on its first line.
    pub fn new(content: String) -> (r: Self)
        ensures
            r.wf(),
            r.content() == content@,
            r.lines() == split_lines(content@),
            r.pos() == 0,
    {
        let lines = lines_of(content.as_str());
        HttpFileParser { content, current_line: 0, lines }
    }

    /// The trimmed characters of line `p`.
    fn trimmed_line(&self, p: usize) -> (r: Vec<char>)
        requires
            p < self.lines@.len(),
        ensures
            r@ == tline(self.lines(), p as int),
    {
        let cs = chars_of(self.lines[p].as_str());
        trimmed(&cs)
    }

    fn take_name_line(&mut self, name: Option<String>) -> (r: Option<String>)
        requires
            old(self).wf(),
        ensures
            final(self).follows(old(self)),
            (opt_text(r), final(self).pos()) == name_phase(
                old(self).lines(),
                old(self).pos(),
                opt_text(name),
            ),
    {
        if self.current_line < self.lines.len() {
            let t = self.trimmed_line(self.current_line);
            if name_line(&t) {
                self.current_line = self.current_line + 1;
                let n = string_of(&t, 0, t.len());
                assert(t@.subrange(0, t@.len() as int) =~= t@);
                return Some(n);
            }
        }
        name
    }

    fn take_annotations(&mut self, name: Option<String>, comments: &mut Vec<String>) -> (r: Option<
        String,
    >)
        requires
            old(self).wf(),
        ensures
            final(self).follows(old(self)),
            (opt_text(r), texts(final(comments)@), final(self).pos()) == annotation_phase(
                old(self).lines(),
                old(self).pos(),
                opt_text(name),
                texts(old(comments)@),
            ),
    {
        let ghost ls = self.lines();
        let ghost goal = annotation_phase(
            ls,
            self.pos(),
            opt_text(name),
            texts(comments@),
        );
        let mut name = name;
        loop
            invariant
                self.follows(old(self)),
                ls == self.lines(),
                annotation_phase(ls, self.pos(), opt_text(name), texts(comments@)) == goal,
            ensures
                (opt_text(name), texts(comments@), self.pos()) == goal,
            decreases self.lines@.len() - self.current_line,
        {
            if self.current_line >= self.lines.len() {
                break;
            }
            let t = self.trimmed_line(self.current_line);
            if starts_with(&t, "# @name") {
                proof {
                    reveal_strlit("# @name");
                }
                name = Some(trim_string(&t, 7, t.len()));
                self.current_line = self.current_line + 1;
            } else if comment(&t) {
                if !starts_with(&t, "# @") {
                    let c = string_of(&t, 0, t.len());
                    assert(t@.subrange(0, t@.len() as int) =~= t@);
                    push_text(comments, c);
                }
                self.current_line = self.current_line + 1;
            } else {
                break;
            }
        }
        name
    }

    fn take_request_line(&mut self) -> (r: (String, String, Option<String>))
        requires
            old(self).wf(),
        ensures
            final(self).follows(old(self)),
            (r.0@, r.1@, opt_text(r.2), final(self).pos()) == request_line(
                old(self).lines(),
                old(self).pos(),
            ),
    {
        if self.current_line >= self.lines.len() {
            return (String::from_str("GET"), String::new(), None);
        }
        let t = self.trimmed_line(self.current_line);
        self.current_line = self.current_line + 1;
        if url_shorthand(&t) {
            let u = string_of(&t, 0, t.len());
            assert(t@.subrange(0, t@.len() as int) =~= t@);
            return (String::from_str("GET"), u, None);
        }
        let w = split_ws(&t);
        let method = if w.len() > 0 {
            to_upper(w[0].as_str())
        } else {
            String::from_str("GET")
        };
        let uri = if w.len() > 1 {
            w[1].clone()
        } else {
            String::new()
        };
        let version = if w.len() > 2 {
            Some(join_range(&w, 2, w.len(), ' '))
        } else {
            None
        };
        (method, uri, version)
    }

    fn take_headers(&mut self, headers: &mut Headers, comments: &mut Vec<String>, keep: bool) -> (r:
        bool)
        requires
            old(self).wf(),
        ensures
            final(self).follows(old(self)),
            (final(headers)@, texts(final(comments)@), r, final(self).pos()) == header_phase(
                old(self).lines(),
                old(self).pos(),
                old(headers)@,
                texts(old(comments)@),
                keep,
            ),
    {
        let ghost ls = self.lines();
        let ghost goal = header_phase(ls, self.pos(), headers@, texts(comments@), keep);
        let mut blank = false;
        loop
            invariant
                self.follows(old(self)),
                ls == self.lines(),
                !blank ==> header_phase(ls, self.pos(), headers@, texts(comments@), keep) == goal,
                blank ==> (headers@, texts(comments@), true, self.pos()) == goal,
            ensures
                (headers@, texts(comments@), blank, self.pos()) == goal,
            decreases self.lines@.len() - self.current_line, if blank { 0int } else { 1int },
        {
            if blank || self.current_line >= self.lines.len() {
                break;
            }
            let t = self.trimmed_line(self.current_line);
            if t.len() == 0 {
                blank = true;
            } else if comment(&t) {
                if keep && !starts_with(&t, "# @") {
                    let c = string_of(&t, 0, t.len());
                    assert(t@.subrange(0, t@.len() as int) =~= t@);
                    push_text(comments, c);
                }
            } else {
                let k = find_char(&t, ':');
                if k < t.len() {
                    let key = trim_string(&t, 0, k);
                    let value = trim_string(&t, k + 1, t.len());
                    headers.insert(key, value);
                }
            }
            self.current_line = self.current_line + 1;
        }
        blank
    }

    fn take_body(&mut self) -> (r: Vec<String>)
        requires
            old(self).wf(),
        ensures
            final(self).follows(old(self)),
            (texts(r@), final(self).pos()) == body_phase(old(self).lines(), old(self).pos(), seq![]),
    {
        let ghost ls = self.lines();
        let mut acc: Vec<String> = Vec::new();
        assert(texts(acc@) =~= seq![]);
        while self.current_line < self.lines.len()
            invariant
                self.follows(old(self)),
                ls == self.lines(),
                body_phase(ls, self.pos(), texts(acc@)) == body_phase(ls, old(self).pos(), seq![]),
            ensures
                body_phase(ls, self.pos(), texts(acc@)) == (texts(acc@), self.pos()),
            decreases self.lines@.len() - self.current_line,
        {
            let t = self.trimmed_line(self.current_line);
            if block_start(&t) {
                break;
            }
            push_text(&mut acc, self.lines[self.current_line].clone());
            self.current_line = self.current_line + 1;
        }
        acc
    }

    /// Parses an HTTP block whose separator line has been read, with the name
    /// that the separator line gave.
    pub fn parse_request_with_name(&mut self, initial_name: Option<String>) -> (r: Option<
        HttpRequest,
    >)
        requires
            old(self).wf(),
        ensures
            final(self).follows(old(self)),
            (opt_http(r), final(self).pos()) == http_block(
                old(self).lines(),
                old(self).pos(),
                opt_text(initial_name),
            ),
    {
        let name = self.take_name_line(initial_name);
        let mut comments: Vec<String> = Vec::new();
        assert(texts(comments@) =~= seq![]);
        let name = self.take_annotations(name, &mut comments);
        let (method, uri, http_version) = self.take_request_line();
        let mut headers = Headers::new();
        let in_body = self.take_headers(&mut headers, &mut comments, true);
        let body = if in_body {
            let lines = self.take_body();
            if lines.len() > 0 {
                Some(join_all(&lines, '\n'))
            } else {
                None
            }
        } else {
            None
        };
        if uri.as_str().is_empty() {
            return None;
        }
        Some(HttpRequest { name, method, uri, http_version, headers, body, comments })
    }

    fn take_messages(&mut self) -> (r: Vec<WebSocketMessage>)
        requires
            old(self).wf(),
        ensures
            final(self).follows(old(self)),
            (ws_views(r@), final(self).pos()) == message_phase(
                old(self).lines(),
                old(self).pos(),
                seq![],
                seq![],
                0,
            ),
    {
        let ghost ls = self.lines();
        let ghost goal = message_phase(ls, self.pos(), seq![], seq![], 0);
        let mut msgs: Vec<WebSocketMessage> = Vec::new();
        let mut buf: Vec<String> = Vec::new();
        let mut count: usize = 0;
        assert(ws_views(msgs@) =~= seq![]);
        assert(texts(buf@) =~= seq![]);
        loop
            invariant
                self.follows(old(self)),
                ls == self.lines(),
                count <= self.current_line,
                message_phase(ls, self.pos(), ws_views(msgs@), texts(buf@), count as nat) == goal,
            ensures
                (flush(ws_views(msgs@), texts(buf@), count as nat), self.pos()) == goal,
            decreases self.lines@.len() - self.current_line,
        {
            if self.current_line >= self.lines.len() {
                break;
            }
            let t = self.trimmed_line(self.current_line);
            if block_start(&t) {
                break;
            }
            if boundary(&t) {
                flush_message(&mut msgs, &buf, count);
                buf = Vec::new();
                assert(texts(buf@) =~= seq![]);
                count = 0;
            } else if wait_marker(&t) {
                flush_message(&mut msgs, &buf, count);
                buf = Vec::new();
                assert(texts(buf@) =~= seq![]);
                count = count + 1;
            } else if !comment(&t) {
                push_text(&mut buf, self.lines[self.current_line].clone());
            }
            self.current_line = self.current_line + 1;
        }
        flush_message(&mut msgs, &buf, count);
        msgs
    }

    /// Parses a WebSocket or RSocket block whose keyword line is under the cursor.
    fn parse_stream(&mut self) -> (r: Option<WebSocketRequest>)
        requires
            old(self).wf(),
            old(self).pos() < old(self).lines().len(),
        ensures
            final(self).follows(old(self)),
            final(self).pos() > old(self).pos(),
            (opt_ws(r), final(self).pos()) == stream_block(old(self).lines(), old(self).pos()),
    {
        let n = self.lines.len();
        let t = self.trimmed_line(self.current_line);
        let w = split_ws(&t);
        self.current_line = self.current_line + 1;
        assert(self.current_line <= n);
        if w.len() < 2 {
            return None;
        }
        let uri = w[1].clone();
        let mut headers = Headers::new();
        let mut comments: Vec<String> = Vec::new();
        assert(texts(comments@) =~= seq![]);
        self.take_headers(&mut headers, &mut comments, false);
        let messages = self.take_messages();
        Some(WebSocketRequest { uri, headers, messages })
    }

    /// Parses the WebSocket block whose `WEBSOCKET` line is under the cursor.
    pub fn parse_websocket(&mut self) -> (r: Option<WebSocketRequest>)
        requires
            old(self).wf(),
            old(self).pos() < old(self).lines().len(),
        ensures
            final(self).follows(old(self)),
            final(self).pos() > old(self).pos(),
            (opt_ws(r), final(self).pos()) == stream_block(old(self).lines(), old(self).pos()),
    {
        self.parse_stream()
    }

    /// Parses the RSocket block whose `RSOCKET` line is under the cursor.
    pub fn parse_rsocket(&mut self) -> (r: Option<RSocketRequest>)
        requires
            old(self).wf(),
            old(self).pos() < old(self).lines().len(),
        ensures
            final(self).follows(old(self)),
            final(self).pos() > old(self).pos(),
            (opt_rs(r), final(self).pos()) == stream_block(old(self).lines(), old(self).pos()),
    {
        match self.parse_stream() {
            Some(ws) => {
                let messages = rsocket_messages(&ws.messages);
                Some(RSocketRequest { uri: ws.uri, headers: ws.headers, messages })
            },
            None => None,
        }
    }

    fn take_graphql_body(&mut self) -> (r: (Vec<String>, Option<serde_json::Value>))
        requires
            old(self).wf(),
        ensures
            final(self).follows(old(self)),
            (texts(r.0@), r.1, final(self).pos()) == graphql_phase(
                old(self).lines(),
                old(self).pos(),
                seq![],
                None,
                false,
                None,
            ),
    {
        let ghost ls = self.lines();
        let ghost goal = graphql_phase(ls, self.pos(), seq![], None, false, None);
        let mut query: Vec<String> = Vec::new();
        let mut vars: Option<serde_json::Value> = None;
        let mut in_vars = false;
        let mut open: Option<usize> = None;
        let mut done = false;
        assert(texts(query@) =~= seq![]);
        loop
            invariant
                self.follows(old(self)),
                ls == self.lines(),
                open matches Some(s) ==> s <= self.current_line && in_vars,
                !done ==> graphql_phase(ls, self.pos(), texts(query@), vars, in_vars, opt_index(open))
                    == goal,
                done ==> (texts(query@), vars, self.pos()) == goal,
            ensures
                (texts(query@), vars, self.pos()) == goal,
            decreases self.lines@.len() - self.current_line, if done { 0int } else { 1int },
        {
            if done {
                break;
            }
            let more = self.current_line < self.lines.len() && !block_start(
                &self.trimmed_line(self.current_line),
            );
            match open {
                Some(s) => {
                    if !more {
                        let text = join_range(&self.lines, s, self.current_line, '\n');
                        assert(texts(self.lines@).subrange(s as int, self.pos()) == ls.subrange(s as int, self.pos()));
                        vars = read_vars(vars, &text);
                        done = true;
                    } else {
                        let t = self.trimmed_line(self.current_line);
                        if t.len() > 0 && t[t.len() - 1] == '}' {
                            let text = join_range(&self.lines, s, self.current_line + 1, '\n');
                            vars = read_vars(vars, &text);
                            in_vars = true;
                            open = None;
                        }
                        self.current_line = self.current_line + 1;
                    }
                },
                None => {
                    if !more {
                        done = true;
                    } else {
                        let t = self.trimmed_line(self.current_line);
                        if comment(&t) {
                        } else if in_vars || (starts_with(&t, "{") && query.len() > 0) {
                            in_vars = true;
                            if t.len() > 0 && t[t.len() - 1] == '}' {
                                let text = join_range(
                                    &self.lines,
                                    self.current_line,
                                    self.current_line + 1,
                                    '\n',
                                );
                                vars = read_vars(vars, &text);
                            } else {
                                open = Some(self.current_line);
                            }
                        } else {
                            push_text(&mut query, self.lines[self.current_line].clone());
                        }
                        self.current_line = self.current_line + 1;
                    }
                },
            }
        }
        (query, vars)
    }

    /// Parses the GraphQL block whose `GRAPHQL` line is under the cursor.
    pub fn parse_graphql(&mut self) -> (r: Option<GraphQLRequest>)
        requires
            old(self).wf(),
            old(self).pos() < old(self).lines().len(),
        ensures
            final(self).follows(old(self)),
            final(self).pos() > old(self).pos(),
            (opt_gql(r), final(self).pos()) == graphql_block(old(self).lines(), old(self).pos()),
    {
        let n = self.lines.len();
        let t = self.trimmed_line(self.current_line);
        let w = split_ws(&t);
        self.current_line = self.current_line + 1;
        assert(self.current_line <= n);
        if w.len() < 2 {
            return None;
        }
        let uri = w[1].clone();
        let mut headers = Headers::new();
        let mut comments: Vec<String> = Vec::new();
        assert(texts(comments@) =~= seq![]);
        self.take_headers(&mut headers, &mut comments, false);
        let (lines, variables) = self.take_graphql_body();
        let query = join_all(&lines, '\n');
        Some(GraphQLRequest { uri, query, variables, headers })
    }

    /// Parses the blocks from the cursor to the end of the file. A malformed
    /// block is dropped, never reported.
    pub fn parse(&mut self) -> (r: Vec<Request>)
        requires
            old(self).wf(),
        ensures
            final(self).follows(old(self)),
            final(self).pos() == final(self).lines().len(),
            request_views(r@) == scan(old(self).lines(), old(self).pos(), seq![]),
    {
        let ghost ls = self.lines();
        let ghost goal = scan(ls, self.pos(), seq![]);
        let mut requests: Vec<Request> = Vec::new();
        assert(request_views(requests@) =~= seq![]);
        while self.current_line < self.lines.len()
            invariant
                self.follows(old(self)),
                ls == self.lines(),
                scan(ls, self.pos(), request_views(requests@)) == goal,
            decreases self.lines@.len() - self.current_line,
        {
            let p = self.current_line;
            let t = self.trimmed_line(p);
            if t.len() == 0 {
                self.current_line = p + 1;
            } else if separator(&t) {
                let name = separator_name_of(&t);
                self.current_line = p + 1;
                match self.parse_request_with_name(name) {
                    Some(q) => push_request(&mut requests, Request::Http(q)),
                    None => {},
                }
            } else if starts_with(&t, "WEBSOCKET") {
                match self.parse_websocket() {
                    Some(q) => push_request(&mut requests, Request::WebSocket(q)),
                    None => {},
                }
            } else if starts_with(&t, "RSOCKET") {
                match self.parse_rsocket() {
                    Some(q) => push_request(&mut requests, Request::RSocket(q)),
                    None => {},
                }
            } else if starts_with(&t, "GRAPHQL") {
                match self.parse_graphql() {
                    Some(q) => push_request(&mut requests, Request::GraphQL(q)),
                    None => {},
                }
            } else {
                self.current_line = p + 1;
            }
        }
        requests
    }
}

/// The requests of a file's text, in file order.
pub fn parse_http_content(content: String) -> (r: Vec<Request>)
    ensures
        request_views(r@) == parse_text(content@),
{
    let mut parser = HttpFileParser::new(content);
    parser.parse()
}

} // verus!
