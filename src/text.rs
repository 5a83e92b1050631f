//! Character-level text primitives: whitespace, trimming, tokens, prefixes,
//! line splitting and joining.

use vstd::prelude::*;
use vstd::std_specs::iter::IteratorSpec;
use vstd::string::StrSliceExecFns;
use vstd::string::StringExecFns;

verus! {

broadcast use vstd::string::group_string_axioms;

/// The characters that `char::is_whitespace` accepts (Unicode `White_Space`).
pub open spec fn is_ws(c: char) -> bool {
    c == '\t' || c == '\n' || c == '\u{B}' || c == '\u{C}' || c == '\r' || c == ' '
        || c == '\u{85}' || c == '\u{A0}' || c == '\u{1680}'
        || ('\u{2000}' <= c && c <= '\u{200A}')
        || c == '\u{2028}' || c == '\u{2029}' || c == '\u{202F}' || c == '\u{205F}'
        || c == '\u{3000}'
}

pub fn char_is_ws(c: char) -> (r: bool)
    ensures
        r == is_ws(c),
{
    c == '\t' || c == '\n' || c == '\u{B}' || c == '\u{C}' || c == '\r' || c == ' '
        || c == '\u{85}' || c == '\u{A0}' || c == '\u{1680}'
        || ('\u{2000}' <= c && c <= '\u{200A}')
        || c == '\u{2028}' || c == '\u{2029}' || c == '\u{202F}' || c == '\u{205F}'
        || c == '\u{3000}'
}

/// The characters of `s`, in order.
pub fn chars_of(s: &str) -> (r: Vec<char>)
    ensures
        r@ == s@,
{
    broadcast use vstd::string::axiom_spec_iter, vstd::string::next_postcondition;
    let mut it = s.chars();
    let mut v: Vec<char> = Vec::new();
    loop
        invariant
            it.obeys_prophetic_iter_laws(),
            it.decrease() is Some,
            v@ + it.remaining() == s@,
        ensures
            v@ == s@,
        decreases it.decrease()->0,
    {
        match it.next() {
            Some(c) => {
                v.push(c);
            },
            None => {
                assert(v@ =~= s@);
                break;
            },
        }
    }
    v
}

/// The views of a sequence of strings.
pub open spec fn texts(v: Seq<String>) -> Seq<Seq<char>> {
    v.map_values(|x: String| x@)
}

/// Relies on `String::push`: appends one character.
#[verifier::external_body]
pub(crate) fn push_char(s: &mut String, c: char)
    ensures
        final(s)@ == old(s)@.push(c),
{
    s.push(c)
}

/// Appends `s` to `v`.
pub fn push_text(v: &mut Vec<String>, s: String)
    ensures
        final(v)@ == old(v)@.push(s),
        texts(final(v)@) == texts(old(v)@).push(s@),
{
    v.push(s);
    assert(texts(v@) =~= texts(old(v)@).push(s@));
}

/// A new string holding `cs[from..to]`.
pub fn string_of(cs: &Vec<char>, from: usize, to: usize) -> (r: String)
    requires
        from <= to <= cs@.len(),
    ensures
        r@ == cs@.subrange(from as int, to as int),
{
    let mut r = String::new();
    let mut i: usize = from;
    while i < to
        invariant
            from <= i <= to <= cs@.len(),
            r@ == cs@.subrange(from as int, i as int),
        decreases to - i,
    {
        push_char(&mut r, cs[i]);
        i = i + 1;
        assert(r@ =~= cs@.subrange(from as int, i as int));
    }
    r
}

/// `cs[from..to]` as a new vector.
pub fn slice_of(cs: &Vec<char>, from: usize, to: usize) -> (r: Vec<char>)
    requires
        from <= to <= cs@.len(),
    ensures
        r@ == cs@.subrange(from as int, to as int),
{
    let mut r: Vec<char> = Vec::new();
    let mut i: usize = from;
    while i < to
        invariant
            from <= i <= to <= cs@.len(),
            r@ == cs@.subrange(from as int, i as int),
        decreases to - i,
    {
        r.push(cs[i]);
        i = i + 1;
        assert(r@ =~= cs@.subrange(from as int, i as int));
    }
    r
}

/// Index of the first non-whitespace character of `s` at or after `i`.
pub open spec fn skip_ws(s: Seq<char>, i: int) -> int
    decreases s.len() - i,
{
    if 0 <= i < s.len() && is_ws(s[i]) {
        skip_ws(s, i + 1)
    } else {
        i
    }
}

/// End of `s[lo..j]` once trailing whitespace is dropped.
pub open spec fn back_ws(s: Seq<char>, lo: int, j: int) -> int
    decreases j - lo,
{
    if lo < j && is_ws(s[j - 1]) {
        back_ws(s, lo, j - 1)
    } else {
        j
    }
}

/// `s` without leading and trailing whitespace, as `str::trim` gives it.
pub open spec fn trim(s: Seq<char>) -> Seq<char> {
    let a = skip_ws(s, 0);
    s.subrange(a, back_ws(s, a, s.len() as int))
}

/// The bounds of `trim(cs)` inside `cs`.
pub fn trim_bounds(cs: &Vec<char>) -> (r: (usize, usize))
    ensures
        r.0 <= r.1 <= cs@.len(),
        cs@.subrange(r.0 as int, r.1 as int) == trim(cs@),
{
    let n = cs.len();
    let mut a: usize = 0;
    while a < n && char_is_ws(cs[a])
        invariant
            a <= n == cs@.len(),
            skip_ws(cs@, a as int) == skip_ws(cs@, 0),
        decreases n - a,
    {
        a = a + 1;
    }
    let mut b: usize = n;
    while b > a && char_is_ws(cs[b - 1])
        invariant
            a <= b <= n == cs@.len(),
            skip_ws(cs@, 0) == a,
            back_ws(cs@, a as int, b as int) == back_ws(cs@, a as int, n as int),
        decreases b,
    {
        b = b - 1;
    }
    (a, b)
}

/// `trim(cs)` as a new vector.
pub fn trimmed(cs: &Vec<char>) -> (r: Vec<char>)
    ensures
        r@ == trim(cs@),
{
    let (a, b) = trim_bounds(cs);
    slice_of(cs, a, b)
}

/// `trim(cs[from..to])` as a new string.
pub fn trim_string(cs: &Vec<char>, from: usize, to: usize) -> (r: String)
    requires
        from <= to <= cs@.len(),
    ensures
        r@ == trim(cs@.subrange(from as int, to as int)),
{
    let part = slice_of(cs, from, to);
    let (a, b) = trim_bounds(&part);
    string_of(&part, a, b)
}

/// Whether `s` begins with `p`.
pub open spec fn has_prefix(s: Seq<char>, p: Seq<char>) -> bool {
    p.len() <= s.len() && s.subrange(0, p.len() as int) == p
}

/// Whether `s` ends with `c`.
pub open spec fn ends_with_char(s: Seq<char>, c: char) -> bool {
    s.len() > 0 && s.last() == c
}

/// Whether `p` occurs in `s`.
pub open spec fn contains(s: Seq<char>, p: Seq<char>) -> bool {
    exists|i: int| 0 <= i && i + p.len() <= s.len() && #[trigger] s.subrange(i, i + p.len()) == p
}

/// Whether `cs[at..]` begins with `p`.
fn prefix_at(cs: &Vec<char>, at: usize, p: &Vec<char>) -> (r: bool)
    requires
        at <= cs@.len(),
    ensures
        r == has_prefix(cs@.subrange(at as int, cs@.len() as int), p@),
{
    let ghost t = cs@.subrange(at as int, cs@.len() as int);
    let n = cs.len();
    if p.len() > n - at {
        return false;
    }
    let mut i: usize = 0;
    while i < p.len()
        invariant
            n == cs@.len(),
            at + p@.len() <= cs@.len(),
            i <= p@.len(),
            t == cs@.subrange(at as int, cs@.len() as int),
            forall|k: int| 0 <= k < i ==> cs@[at + k] == p@[k],
        decreases p.len() - i,
    {
        if cs[at + i] != p[i] {
            assert(t.subrange(0, p@.len() as int)[i as int] != p@[i as int]);
            return false;
        }
        i = i + 1;
    }
    assert(t.subrange(0, p@.len() as int) =~= p@);
    true
}

/// Whether `cs` begins with `lit`.
pub fn starts_with(cs: &Vec<char>, lit: &str) -> (r: bool)
    ensures
        r == has_prefix(cs@, lit@),
{
    let p = chars_of(lit);
    let r = prefix_at(cs, 0, &p);
    assert(cs@.subrange(0, cs@.len() as int) =~= cs@);
    r
}

/// Whether `lit` occurs in `cs`.
pub fn contains_text(cs: &Vec<char>, lit: &str) -> (r: bool)
    ensures
        r == contains(cs@, lit@),
{
    let p = chars_of(lit);
    let n = cs.len();
    if p.len() > n {
        return false;
    }
    let last = n - p.len();
    let mut i: usize = 0;
    loop
        invariant
            n == cs@.len(),
            p@ == lit@,
            p@.len() <= n,
            last == n - p@.len(),
            i <= last,
            forall|k: int| 0 <= k < i ==> #[trigger] cs@.subrange(k, k + p@.len()) != p@,
        decreases last - i,
    {
        let found = prefix_at(cs, i, &p);
        assert(cs@.subrange(i as int, n as int).subrange(0, p@.len() as int)
            =~= cs@.subrange(i as int, i + p@.len()));
        if found {
            return true;
        }
        if i == last {
            return false;
        }
        i = i + 1;
    }
}

/// Index of the first `c` in `s` at or after `i`, or `s.len()` where none is.
pub open spec fn index_of(s: Seq<char>, c: char, i: int) -> int
    decreases s.len() - i,
{
    if 0 <= i < s.len() {
        if s[i] == c {
            i
        } else {
            index_of(s, c, i + 1)
        }
    } else {
        s.len() as int
    }
}

pub proof fn lemma_index_of_bounds(s: Seq<char>, c: char, i: int)
    requires
        0 <= i <= s.len(),
    ensures
        i <= index_of(s, c, i) <= s.len(),
        index_of(s, c, i) < s.len() ==> s[index_of(s, c, i)] == c,
        forall|k: int| i <= k < index_of(s, c, i) ==> s[k] != c,
    decreases s.len() - i,
{
    if i < s.len() && s[i] != c {
        lemma_index_of_bounds(s, c, i + 1);
    }
}

/// The index of the first `c` in `cs`, as `index_of` gives it.
pub fn find_char(cs: &Vec<char>, c: char) -> (r: usize)
    ensures
        r == index_of(cs@, c, 0),
        r <= cs@.len(),
{
    proof { lemma_index_of_bounds(cs@, c, 0); }
    let mut i: usize = 0;
    while i < cs.len() && cs[i] != c
        invariant
            i <= cs@.len(),
            index_of(cs@, c, i as int) == index_of(cs@, c, 0),
        decreases cs.len() - i,
    {
        i = i + 1;
    }
    i
}

/// Whitespace-separated tokens of `s[i..]`, as `str::split_whitespace` gives them,
/// after `acc`; the token being read starts at `start` (no token is open when
/// `start == i`).
pub open spec fn tokens_from(s: Seq<char>, i: int, start: int, acc: Seq<Seq<char>>) -> Seq<
    Seq<char>,
>
    decreases s.len() - i,
{
    if 0 <= i < s.len() {
        if is_ws(s[i]) {
            tokens_from(
                s,
                i + 1,
                i + 1,
                if start < i {
                    acc.push(s.subrange(start, i))
                } else {
                    acc
                },
            )
        } else {
            tokens_from(s, i + 1, start, acc)
        }
    } else if start < s.len() {
        acc.push(s.subrange(start, s.len() as int))
    } else {
        acc
    }
}

/// The whitespace-separated tokens of `s`.
pub open spec fn tokens(s: Seq<char>) -> Seq<Seq<char>> {
    tokens_from(s, 0, 0, seq![])
}

/// The whitespace-separated tokens of `cs`.
pub fn split_ws(cs: &Vec<char>) -> (r: Vec<String>)
    ensures
        texts(r@) == tokens(cs@),
{
    let n = cs.len();
    let mut acc: Vec<String> = Vec::new();
    let mut i: usize = 0;
    let mut start: usize = 0;
    assert(texts(acc@) =~= seq![]);
    while i < n
        invariant
            n == cs@.len(),
            start <= i <= n,
            tokens_from(cs@, i as int, start as int, texts(acc@)) == tokens(cs@),
        decreases n - i,
    {
        if char_is_ws(cs[i]) {
            if start < i {
                let t = string_of(cs, start, i);
                let ghost before = texts(acc@);
                acc.push(t);
                assert(texts(acc@) =~= before.push(cs@.subrange(start as int, i as int)));
            }
            i = i + 1;
            start = i;
        } else {
            i = i + 1;
        }
    }
    if start < n {
        let t = string_of(cs, start, n);
        let ghost before = texts(acc@);
        acc.push(t);
        assert(texts(acc@) =~= before.push(cs@.subrange(start as int, n as int)));
    }
    acc
}

/// `l` without one final carriage return.
pub open spec fn strip_cr(l: Seq<char>) -> Seq<char> {
    if l.len() > 0 && l.last() == '\r' {
        l.drop_last()
    } else {
        l
    }
}

/// The lines of `s[i..]`, as `str::lines` gives them, after `acc`; the line
/// being read starts at `start`.
pub open spec fn lines_from(s: Seq<char>, i: int, start: int, acc: Seq<Seq<char>>) -> Seq<
    Seq<char>,
>
    decreases s.len() - i,
{
    if 0 <= i < s.len() {
        if s[i] == '\n' {
            lines_from(s, i + 1, i + 1, acc.push(strip_cr(s.subrange(start, i))))
        } else {
            lines_from(s, i + 1, start, acc)
        }
    } else if start < s.len() {
        acc.push(s.subrange(start, s.len() as int))
    } else {
        acc
    }
}

/// The lines of `s`: split at each line feed, without the line terminators
/// (`\n` or `\r\n`); a final line feed opens no further line.
pub open spec fn split_lines(s: Seq<char>) -> Seq<Seq<char>> {
    lines_from(s, 0, 0, seq![])
}

/// The lines of `text`.
pub fn lines_of(text: &str) -> (r: Vec<String>)
    ensures
        texts(r@) == split_lines(text@),
{
    let cs = chars_of(text);
    let n = cs.len();
    let mut acc: Vec<String> = Vec::new();
    let mut i: usize = 0;
    let mut start: usize = 0;
    assert(texts(acc@) =~= seq![]);
    while i < n
        invariant
            n == cs@.len(),
            cs@ == text@,
            start <= i <= n,
            lines_from(cs@, i as int, start as int, texts(acc@)) == split_lines(text@),
        decreases n - i,
    {
        if cs[i] == '\n' {
            let end = if i > start && cs[i - 1] == '\r' {
                i - 1
            } else {
                i
            };
            let t = string_of(&cs, start, end);
            assert(t@ == strip_cr(cs@.subrange(start as int, i as int)));
            let ghost before = texts(acc@);
            acc.push(t);
            assert(texts(acc@) =~= before.push(t@));
            i = i + 1;
            start = i;
        } else {
            i = i + 1;
        }
    }
    if start < n {
        let t = string_of(&cs, start, n);
        let ghost before = texts(acc@);
        acc.push(t);
        assert(texts(acc@) =~= before.push(cs@.subrange(start as int, n as int)));
    }
    acc
}

/// The parts of `xs` with `sep` between each two.
pub open spec fn join(xs: Seq<Seq<char>>, sep: char) -> Seq<char>
    decreases xs.len(),
{
    if xs.len() == 0 {
        seq![]
    } else if xs.len() == 1 {
        xs[0]
    } else {
        join(xs.drop_last(), sep).push(sep) + xs.last()
    }
}

/// `parts[from..to]` joined with `sep`.
pub fn join_range(parts: &Vec<String>, from: usize, to: usize, sep: char) -> (r: String)
    requires
        from <= to <= parts@.len(),
    ensures
        r@ == join(texts(parts@).subrange(from as int, to as int), sep),
{
    if from == to {
        assert(texts(parts@).subrange(from as int, to as int).len() == 0);
        return String::new();
    }
    let mut r = parts[from].clone();
    assert(texts(parts@).subrange(from as int, from + 1) =~= seq![parts@[from as int]@]);
    let mut i: usize = from + 1;
    while i < to
        invariant
            from < i <= to <= parts@.len(),
            r@ == join(texts(parts@).subrange(from as int, i as int), sep),
        decreases to - i,
    {
        push_char(&mut r, sep);
        r.append(parts[i].as_str());
        let ghost xs = texts(parts@).subrange(from as int, i + 1);
        assert(xs.drop_last() =~= texts(parts@).subrange(from as int, i as int));
        assert(xs.last() == parts@[i as int]@);
        i = i + 1;
    }
    r
}

/// All of `parts` joined with `sep`.
pub fn join_all(parts: &Vec<String>, sep: char) -> (r: String)
    ensures
        r@ == join(texts(parts@), sep),
{
    let r = join_range(parts, 0, parts.len(), sep);
    assert(texts(parts@).subrange(0, parts@.len() as int) =~= texts(parts@));
    r
}

/// The code of `c` with ASCII upper case folded to lower case.
pub open spec fn fold_ascii(c: char) -> u32 {
    if 'A' <= c && c <= 'Z' {
        (c as u32 + 32) as u32
    } else {
        c as u32
    }
}

/// Whether two texts are equal when ASCII letters are compared ignoring
/// case, as `str::eq_ignore_ascii_case` compares them.
pub open spec fn same_ignoring_ascii_case(a: Seq<char>, b: Seq<char>) -> bool {
    a.len() == b.len() && forall|i: int| 0 <= i < a.len() ==> fold_ascii(#[trigger] a[i]) == fold_ascii(b[i])
}

fn fold_char(c: char) -> (r: u32)
    ensures
        r == fold_ascii(c),
{
    if 'A' <= c && c <= 'Z' {
        c as u32 + 32
    } else {
        c as u32
    }
}

/// Whether `a` equals `b` ignoring ASCII case.
pub fn same_text_ignoring_ascii_case(a: &Vec<char>, b: &str) -> (r: bool)
    ensures
        r == same_ignoring_ascii_case(a@, b@),
{
    let p = chars_of(b);
    if a.len() != p.len() {
        return false;
    }
    let mut i: usize = 0;
    while i < a.len()
        invariant
            i <= a@.len(),
            a@.len() == p@.len(),
            p@ == b@,
            forall|k: int| 0 <= k < i ==> fold_ascii(#[trigger] a@[k]) == fold_ascii(p@[k]),
        decreases a.len() - i,
    {
        if fold_char(a[i]) != fold_char(p[i]) {
            return false;
        }
        i = i + 1;
    }
    true
}

/// Whether two texts are equal.
pub fn same_text(a: &Vec<char>, b: &str) -> (r: bool)
    ensures
        r == (a@ == b@),
{
    let p = chars_of(b);
    if a.len() != p.len() {
        return false;
    }
    let r = prefix_at(a, 0, &p);
    assert(a@.subrange(0, a@.len() as int) =~= a@);
    assert(r ==> a@ =~= p@);
    r
}

} // verus!
