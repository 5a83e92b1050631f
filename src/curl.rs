//! Conversion between a request in `.http` form and a `curl` command line.

use vstd::prelude::*;
use crate::classify::{comment, is_comment, is_separator, separator};
use crate::text::{
    chars_of, contains, find_char, push_char, trim_string, contains_text, has_prefix, index_of, join, join_all, lines_of, push_text,
    same_text, split_lines, split_ws, starts_with, string_of, texts, tokens, trim, trimmed,
};
use crate::headers::{header_insert, HeaderSeq, Headers};
use crate::parser::{has_colon, header_key, header_value};
use crate::pattern::{
    captures, compile, group, group_at, group_views, match_views, matches_all, regex_compiles,
    regex_first, regex_matches,
};
use crate::classify::{to_upper, upper_of};
use crate::model::opt_text;
use vstd::string::StringExecFns;

verus! {

broadcast use vstd::string::group_string_axioms;

/// What the conversion has gathered from the lines read so far.
pub struct CurlState {
    pub method: Seq<char>,
    pub url: Seq<char>,
    pub headers: Seq<Seq<char>>,
    pub in_body: bool,
    pub body: Seq<Seq<char>>,
}

/// The state after one more line, `l`.
pub open spec fn curl_step(st: CurlState, l: Seq<char>) -> CurlState {
    let t = trim(l);
    if t.len() == 0 {
        CurlState { in_body: true, ..st }
    } else if is_separator(t) || is_comment(t) {
        st
    } else if !st.in_body {
        if contains(t, "://"@) {
            let w = tokens(t);
            if w.len() >= 2 {
                CurlState { method: w[0], url: w[1], ..st }
            } else if w.len() == 1 {
                CurlState { url: w[0], ..st }
            } else {
                st
            }
        } else if index_of(t, ':', 0) < t.len() && !has_prefix(t, "http"@) && !has_prefix(t, "ws"@) {
            CurlState { headers: st.headers.push(t), ..st }
        } else {
            st
        }
    } else {
        CurlState { body: st.body.push(t), ..st }
    }
}

/// The state after the lines `ls[i..]`.
pub open spec fn curl_scan(ls: Seq<Seq<char>>, i: int, st: CurlState) -> CurlState
    decreases ls.len() - i,
{
    if 0 <= i < ls.len() {
        curl_scan(ls, i + 1, curl_step(st, ls[i]))
    } else {
        st
    }
}

/// `s` with each `'` written as `'\''`, for a single-quoted shell word.
pub open spec fn escape_quotes(s: Seq<char>) -> Seq<char>
    decreases s.len(),
{
    if s.len() == 0 {
        seq![]
    } else {
        escape_quotes(s.drop_last()) + if s.last() == '\'' {
            seq!['\'', '\\', '\'', '\'']
        } else {
            seq![s.last()]
        }
    }
}

/// ` -H '<h>'` for each header, in order.
pub open spec fn header_flags(hs: Seq<Seq<char>>) -> Seq<char>
    decreases hs.len(),
{
    if hs.len() == 0 {
        seq![]
    } else {
        header_flags(hs.drop_last()) + " -H '"@ + hs.last() + "'"@
    }
}

/// The `curl` command for a gathered state.
pub open spec fn curl_command(st: CurlState) -> Seq<char> {
    (if st.method == "GET"@ {
        "curl '"@ + st.url + "'"@
    } else {
        "curl -X "@ + st.method + " '"@ + st.url + "'"@
    }) + header_flags(st.headers) + if st.body.len() > 0 {
        " -d '"@ + escape_quotes(join(st.body, '\n')) + "'"@
    } else {
        seq![]
    }
}

/// The `curl` command for a request in `.http` form.
pub open spec fn http_to_curl_text(request: Seq<char>) -> Seq<char> {
    curl_command(
        curl_scan(
            split_lines(request),
            0,
            CurlState { method: "GET"@, url: seq![], headers: seq![], in_body: false, body: seq![] },
        ),
    )
}

/// Appends `escape_quotes(s)` to `out`.
fn push_escaped(out: &mut String, s: &str)
    ensures
        final(out)@ == old(out)@ + escape_quotes(s@),
{
    let cs = chars_of(s);
    let mut i: usize = 0;
    while i < cs.len()
        invariant
            i <= cs@.len(),
            cs@ == s@,
            out@ == old(out)@ + escape_quotes(cs@.subrange(0, i as int)),
        decreases cs.len() - i,
    {
        let c = cs[i];
        let ghost before = out@;
        if c == '\'' {
            out.append("'\\''");
            proof {
                reveal_strlit("'\\''");
            }
        } else {
            push_char(out, c);
        }
        assert(cs@.subrange(0, i + 1).drop_last() =~= cs@.subrange(0, i as int));
        assert(out@ =~= old(out)@ + escape_quotes(cs@.subrange(0, i + 1)));
        i = i + 1;
    }
    assert(cs@.subrange(0, cs@.len() as int) =~= cs@);
}

/// The expression for the URL of a `curl` command.
pub open spec fn url_pattern() -> Seq<char> {
    r#"(?:^|\s)['"]?([^'"\s]+://[^'"\s]+)['"]?"#@
}

/// The expression for the `-X` method of a `curl` command.
pub open spec fn method_pattern() -> Seq<char> {
    r#"-X\s+(\w+)"#@
}

/// The expression for a `-H` header of a `curl` command.
pub open spec fn header_pattern() -> Seq<char> {
    r#"-H\s+['"]([^'"]+)['"]"#@
}

/// The expression for the `-d` or `--data` body of a `curl` command.
pub open spec fn data_pattern() -> Seq<char> {
    r#"(?:-d|--data)\s+(?:'([^']*(?:\\'[^']*)*)'|"([^"]*(?:\\"[^"]*)*)"|([^\s]+))"#@
}

/// A `curl` command without the word `curl` and surrounding whitespace.
pub open spec fn command_text(cmd: Seq<char>) -> Seq<char> {
    let t = trim(cmd);
    if has_prefix(t, "curl"@) {
        trim(t.subrange(4, t.len() as int))
    } else {
        t
    }
}

/// Group `i` of the first match of `p` in `t`.
pub open spec fn first_group(p: Seq<char>, t: Seq<char>, i: int) -> Option<Seq<char>> {
    match regex_first(p, t) {
        Some(gs) => group(gs, i),
        None => None,
    }
}

/// The headers that the `-H` matches give, in turn; a later value for a name wins.
pub open spec fn header_fields(all: Seq<(int, int, Seq<Option<Seq<char>>>)>) -> HeaderSeq
    decreases all.len(),
{
    if all.len() == 0 {
        seq![]
    } else {
        let acc = header_fields(all.drop_last());
        match group(all.last().2, 1) {
            Some(h) => if has_colon(h) {
                header_insert(acc, header_key(h), header_value(h))
            } else {
                acc
            },
            None => acc,
        }
    }
}

/// The body of a `-d` match: the single-quoted, double-quoted or bare form.
pub open spec fn data_of(gs: Seq<Option<Seq<char>>>) -> Seq<char> {
    match group(gs, 1) {
        Some(d) => d,
        None => match group(gs, 2) {
            Some(d) => d,
            None => match group(gs, 3) {
                Some(d) => d,
                None => seq![],
            },
        },
    }
}

/// `s[i..]` with each `a` `b` pair replaced by `c`, left to right, as
/// `str::replace` does it.
pub open spec fn replace_pair(s: Seq<char>, a: char, b: char, c: char, i: int) -> Seq<char>
    decreases s.len() - i,
{
    if 0 <= i < s.len() {
        if i + 1 < s.len() && s[i] == a && s[i + 1] == b {
            seq![c] + replace_pair(s, a, b, c, i + 2)
        } else {
            seq![s[i]] + replace_pair(s, a, b, c, i + 1)
        }
    } else {
        seq![]
    }
}

/// `s` with escaped quotes unescaped: first `\"`, then `\'`.
pub open spec fn unescape(s: Seq<char>) -> Seq<char> {
    replace_pair(replace_pair(s, '\\', '"', '"', 0), '\\', '\'', '\'', 0)
}

/// `name: value` lines for the headers, in order.
pub open spec fn header_lines(hs: HeaderSeq) -> Seq<char>
    decreases hs.len(),
{
    if hs.len() == 0 {
        seq![]
    } else {
        header_lines(hs.drop_last()) + hs.last().0 + ": "@ + hs.last().1 + seq!['\n']
    }
}

/// The `.http` form of a `curl` command.
pub open spec fn curl_to_http_text(cmd: Seq<char>) -> Seq<char> {
    let c = command_text(cmd);
    let url = match first_group(url_pattern(), c, 1) {
        Some(u) => u,
        None => seq![],
    };
    let m0 = match first_group(method_pattern(), c, 1) {
        Some(m) => upper_of(m),
        None => "GET"@,
    };
    let hs = header_fields(regex_matches(header_pattern(), c));
    let data = match regex_first(data_pattern(), c) {
        Some(gs) => data_of(gs),
        None => seq![],
    };
    let method = if data.len() > 0 && m0 == "GET"@ {
        "POST"@
    } else {
        m0
    };
    "# Converted from cURL\n###\n"@ + method + seq![' '] + url + seq!['\n'] + header_lines(hs) + if data.len()
        > 0 {
        (if hs.len() > 0 {
            seq!['\n']
        } else {
            seq![]
        }) + unescape(data) + seq!['\n']
    } else {
        seq![]
    }
}

/// Why a `curl` command could not be converted.
#[derive(Debug, Clone, Copy, PartialEq, Eq)]
pub enum CurlError {
    /// One of the expressions that read a command did not compile.
    InvalidPattern,
}

/// `s` with each `a` `b` pair replaced by `c`.
fn replace_pair_of(s: &str, a: char, b: char, c: char) -> (r: String)
    ensures
        r@ == replace_pair(s@, a, b, c, 0),
{
    let cs = chars_of(s);
    let n = cs.len();
    let mut out = String::new();
    let mut i: usize = 0;
    while i < n
        invariant
            n == cs@.len(),
            cs@ == s@,
            i <= n,
            out@ + replace_pair(cs@, a, b, c, i as int) == replace_pair(cs@, a, b, c, 0),
        decreases n - i,
    {
        if n - i > 1 && cs[i] == a && cs[i + 1] == b {
            push_char(&mut out, c);
            i = i + 2;
        } else {
            push_char(&mut out, cs[i]);
            i = i + 1;
        }
    }
    assert(out@ + Seq::<char>::empty() =~= out@);
    out
}

/// A `curl` command without the word `curl` and surrounding whitespace.
fn command_of(cmd: &str) -> (r: String)
    ensures
        r@ == command_text(cmd@),
{
    let cs = chars_of(cmd);
    let t = trimmed(&cs);
    proof {
        reveal_strlit("curl");
    }
    if starts_with(&t, "curl") {
        trim_string(&t, 4, t.len())
    } else {
        assert(t@.subrange(0, t@.len() as int) =~= t@);
        string_of(&t, 0, t.len())
    }
}

/// Group `i` of the first match of `p` in `c`.
fn first_group_of(p: &crate::pattern::Pattern, c: &str, i: usize) -> (r: Option<String>)
    ensures
        opt_text(r) == first_group(p.source(), c@, i as int),
{
    match captures(p, c) {
        Some(gs) => group_at(&gs, i),
        None => None,
    }
}

/// The headers of the `-H` matches of `p` in `c`.
fn headers_of(p: &crate::pattern::Pattern, c: &str) -> (r: Headers)
    ensures
        r@ == header_fields(regex_matches(p.source(), c@)),
{
    let all = matches_all(p, c);
    headers_from_groups(&all)
}

/// The headers that the groups of `-H` matches give, in turn.
pub fn headers_from_groups(all: &Vec<(usize, usize, Vec<Option<String>>)>) -> (r: Headers)
    ensures
        r@ == header_fields(match_views(all@)),
{
    let ghost all_views = match_views(all@);
    let mut headers = Headers::new();
    let mut i: usize = 0;
    while i < all.len()
        invariant
            i <= all@.len(),
            all_views == match_views(all@),
            headers@ == header_fields(all_views.subrange(0, i as int)),
        decreases all.len() - i,
    {
        proof {
            let sub = all_views.subrange(0, i + 1);
            assert(sub.drop_last() =~= all_views.subrange(0, i as int));
            assert(sub.last().2 == group_views(all@[i as int].2@));
        }
        match group_at(&all[i].2, 1) {
            Some(h) => {
                let hc = chars_of(h.as_str());
                let k = find_char(&hc, ':');
                if k < hc.len() {
                    headers.insert(trim_string(&hc, 0, k), trim_string(&hc, k + 1, hc.len()));
                }
            },
            None => {},
        }
        i = i + 1;
    }
    assert(all_views.subrange(0, all_views.len() as int) =~= all_views);
    headers
}

/// The data of the first `-d` match of `p` in `c`, or nothing.
fn data_text(p: &crate::pattern::Pattern, c: &str) -> (r: String)
    ensures
        r@ == match regex_first(p.source(), c@) {
            Some(gs) => data_of(gs),
            None => seq![],
        },
{
    match captures(p, c) {
        Some(gs) => match group_at(&gs, 1) {
            Some(d) => d,
            None => match group_at(&gs, 2) {
                Some(d) => d,
                None => match group_at(&gs, 3) {
                    Some(d) => d,
                    None => String::new(),
                },
            },
        },
        None => String::new(),
    }
}

/// The `.http` text for a method, URL, headers and data.
pub fn http_text(method: String, url: String, headers: &Headers, data: String) -> (r: String)
    ensures
        r@ == "# Converted from cURL\n###\n"@ + (if data@.len() > 0 && method@ == "GET"@ {
            "POST"@
        } else {
            method@
        }) + seq![' '] + url@ + seq!['\n'] + header_lines(headers@) + if data@.len() > 0 {
            (if headers@.len() > 0 {
                seq!['\n']
            } else {
                seq![]
            }) + unescape(data@) + seq!['\n']
        } else {
            seq![]
        },
{
    let has_data = !data.as_str().is_empty();
    let mut method = method;
    if has_data {
        let m = chars_of(method.as_str());
        if same_text(&m, "GET") {
            method = String::from_str("POST");
        }
    }
    let mut out = String::from_str("# Converted from cURL\n###\n");
    out.append(method.as_str());
    push_char(&mut out, ' ');
    out.append(url.as_str());
    push_char(&mut out, '\n');
    let ghost head = out@;
    let pairs = headers.entries();
    let mut k: usize = 0;
    while k < pairs.len()
        invariant
            k <= pairs@.len(),
            crate::headers::pair_views(pairs@) == headers@,
            out@ == head + header_lines(headers@.subrange(0, k as int)),
        decreases pairs.len() - k,
    {
        out.append(pairs[k].0.as_str());
        out.append(": ");
        out.append(pairs[k].1.as_str());
        push_char(&mut out, '\n');
        proof {
            let sub = headers@.subrange(0, k + 1);
            assert(sub.drop_last() =~= headers@.subrange(0, k as int));
            assert(sub.last() == (pairs@[k as int].0@, pairs@[k as int].1@));
        }
        k = k + 1;
    }
    assert(headers@.subrange(0, headers@.len() as int) =~= headers@);
    if has_data {
        if !headers.is_empty() {
            push_char(&mut out, '\n');
        }
        let once = replace_pair_of(data.as_str(), '\\', '"', '"');
        let twice = replace_pair_of(once.as_str(), '\\', '\'', '\'');
        out.append(twice.as_str());
        push_char(&mut out, '\n');
    }
    out
}

/// Converts between `.http` requests and `curl` command lines.
pub struct CurlConverter;

impl CurlConverter {
    /// The `.http` form of a `curl` command: its URL, its `-X` method (made
    /// upper case; `GET` by default, `POST` where data is given), its `-H`
    /// headers, and its `-d` data with escaped quotes unescaped. Fails only
    /// where an expression does not compile.
    pub fn curl_to_http(curl_command: &str) -> (r: Result<String, CurlError>)
        ensures
            r is Ok == (regex_compiles(url_pattern()) && regex_compiles(method_pattern())
                && regex_compiles(header_pattern()) && regex_compiles(data_pattern())),
            r matches Ok(t) ==> t@ == curl_to_http_text(curl_command@),
    {
        let command = command_of(curl_command);
        let c = command.as_str();
        let url_re = match compile(r#"(?:^|\s)['"]?([^'"\s]+://[^'"\s]+)['"]?"#) {
            Some(p) => p,
            None => return Err(CurlError::InvalidPattern),
        };
        let method_re = match compile(r#"-X\s+(\w+)"#) {
            Some(p) => p,
            None => return Err(CurlError::InvalidPattern),
        };
        let header_re = match compile(r#"-H\s+['"]([^'"]+)['"]"#) {
            Some(p) => p,
            None => return Err(CurlError::InvalidPattern),
        };
        let data_re = match compile(
            r#"(?:-d|--data)\s+(?:'([^']*(?:\\'[^']*)*)'|"([^"]*(?:\\"[^"]*)*)"|([^\s]+))"#,
        ) {
            Some(p) => p,
            None => return Err(CurlError::InvalidPattern),
        };
        let url = match first_group_of(&url_re, c, 1) {
            Some(u) => u,
            None => String::new(),
        };
        let method = match first_group_of(&method_re, c, 1) {
            Some(m) => to_upper(m.as_str()),
            None => String::from_str("GET"),
        };
        let headers = headers_of(&header_re, c);
        let data = data_text(&data_re, c);
        Ok(http_text(method, url, &headers, data))
    }

    /// The `curl` command for a request in `.http` form: the last request line
    /// gives method and URL, header lines become `-H` flags, and the lines
    /// after the first blank line become the `-d` data.
    pub fn http_to_curl(request: &str) -> (r: String)
        ensures
            r@ == http_to_curl_text(request@),
    {
        let lines = lines_of(request);
        let ghost ls = texts(lines@);
        let mut method = String::from_str("GET");
        let mut url = String::new();
        let mut headers: Vec<String> = Vec::new();
        let mut in_body = false;
        let mut body: Vec<String> = Vec::new();
        let ghost init = CurlState {
            method: "GET"@,
            url: seq![],
            headers: seq![],
            in_body: false,
            body: seq![],
        };
        assert(texts(headers@) =~= seq![]);
        assert(texts(body@) =~= seq![]);
        let mut i: usize = 0;
        while i < lines.len()
            invariant
                i <= lines@.len(),
                ls == texts(lines@),
                ls == split_lines(request@),
                curl_scan(
                    ls,
                    i as int,
                    CurlState {
                        method: method@,
                        url: url@,
                        headers: texts(headers@),
                        in_body,
                        body: texts(body@),
                    },
                ) == curl_scan(ls, 0, init),
            decreases lines.len() - i,
        {
            let cs = chars_of(lines[i].as_str());
            let t = trimmed(&cs);
            if t.len() == 0 {
                in_body = true;
            } else if separator(&t) || comment(&t) {
            } else if !in_body {
                if contains_text(&t, "://") {
                    let w = split_ws(&t);
                    if w.len() >= 2 {
                        method = w[0].clone();
                        url = w[1].clone();
                    } else if w.len() == 1 {
                        url = w[0].clone();
                    }
                } else if crate::text::find_char(&t, ':') < t.len() && !starts_with(&t, "http")
                    && !starts_with(&t, "ws") {
                    push_text(&mut headers, string_of(&t, 0, t.len()));
                    assert(t@.subrange(0, t@.len() as int) =~= t@);
                }
            } else {
                push_text(&mut body, string_of(&t, 0, t.len()));
                assert(t@.subrange(0, t@.len() as int) =~= t@);
            }
            i = i + 1;
        }
        let mut curl = String::from_str("curl ");
        let m = chars_of(method.as_str());
        if !same_text(&m, "GET") {
            curl.append("-X ");
            curl.append(method.as_str());
            curl.append(" ");
        }
        curl.append("'");
        curl.append(url.as_str());
        curl.append("'");
        let ghost head = curl@;
        proof {
            reveal_strlit("curl ");
            reveal_strlit("-X ");
            reveal_strlit(" ");
            reveal_strlit("'");
            reveal_strlit("curl '");
            reveal_strlit("curl -X ");
            reveal_strlit(" '");
            if method@ == "GET"@ {
                assert(head =~= "curl '"@ + url@ + "'"@);
            } else {
                assert(head =~= "curl -X "@ + method@ + " '"@ + url@ + "'"@);
            }
        }
        let mut k: usize = 0;
        while k < headers.len()
            invariant
                k <= headers@.len(),
                curl@ == head + header_flags(texts(headers@).subrange(0, k as int)),
            decreases headers.len() - k,
        {
            curl.append(" -H '");
            curl.append(headers[k].as_str());
            curl.append("'");
            let ghost hs = texts(headers@).subrange(0, k + 1);
            assert(hs.drop_last() =~= texts(headers@).subrange(0, k as int));
            k = k + 1;
        }
        assert(texts(headers@).subrange(0, headers@.len() as int) =~= texts(headers@));
        if body.len() > 0 {
            let data = join_all(&body, '\n');
            curl.append(" -d '");
            push_escaped(&mut curl, data.as_str());
            curl.append("'");
        }
        curl
    }
}

} // verus!
