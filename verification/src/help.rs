//! Template rendering: `{if:<tool>}`/`{ifnot:<tool>}`/`{endif:<tool>}`
//! blocks are resolved first, then the `{ident}`, `{name}`, `{desc}` and
//! `{owner}` placeholders are filled in from the repository description.

use vstd::prelude::*;
use vstd::slice::slice_to_vec;
use vstd::utf8::{decode_utf8, encode_utf8, valid_utf8};
use crate::repo::{RepoBuilder, ToolOption, selects};
use crate::text::{
    append_chars, chars_equal, chars_of, contains_seq, copy_range, find_chars, find_from,
    lemma_find_from, matches_at, occurs_at, string_of,
};

verus! {

// ---------------------------------------------------------------------------
// Markers

/// Marker opening a block kept only when its tool is selected.
pub open spec fn if_marker() -> Seq<char> {
    seq!['{', 'i', 'f', ':']
}

/// Marker closing a tool-conditional block.
pub open spec fn endif_marker() -> Seq<char> {
    seq!['{', 'e', 'n', 'd', 'i', 'f', ':']
}

/// Marker opening a block kept only when its tool is not selected.
pub open spec fn ifnot_marker() -> Seq<char> {
    seq!['{', 'i', 'f', 'n', 'o', 't', ':']
}

/// The characters of `{if:`.
fn if_marker_chars() -> (v: Vec<char>)
    ensures
        v@ == if_marker(),
{
    let v = vec!['{', 'i', 'f', ':'];
    assert(v@ =~= if_marker());
    v
}

/// The characters of `{endif:`.
fn endif_marker_chars() -> (v: Vec<char>)
    ensures
        v@ == endif_marker(),
{
    let v = vec!['{', 'e', 'n', 'd', 'i', 'f', ':'];
    assert(v@ =~= endif_marker());
    v
}

/// The characters of `{ifnot:`.
fn ifnot_marker_chars() -> (v: Vec<char>)
    ensures
        v@ == ifnot_marker(),
{
    let v = vec!['{', 'i', 'f', 'n', 'o', 't', ':'];
    assert(v@ =~= ifnot_marker());
    v
}

// ---------------------------------------------------------------------------
// Trimming

/// `char::is_whitespace`: the characters with the Unicode `White_Space` property.
pub open spec fn is_whitespace(c: char) -> bool {
    ||| '\t' <= c <= '\r'
    ||| c == ' '
    ||| c == '\u{85}'
    ||| c == '\u{a0}'
    ||| c == '\u{1680}'
    ||| '\u{2000}' <= c <= '\u{200a}'
    ||| c == '\u{2028}'
    ||| c == '\u{2029}'
    ||| c == '\u{202f}'
    ||| c == '\u{205f}'
    ||| c == '\u{3000}'
}

/// The index of the first non-whitespace character of `s` at or after `i`,
/// or `s.len()` when there is none.
pub open spec fn skip_ws_forward(s: Seq<char>, i: int) -> int
    decreases s.len() - i,
{
    if i < 0 || i >= s.len() {
        s.len() as int
    } else if is_whitespace(s[i]) {
        skip_ws_forward(s, i + 1)
    } else {
        i
    }
}

/// One past the index of the last non-whitespace character of `s` before
/// `j`, or `0` when there is none.
pub open spec fn skip_ws_backward(s: Seq<char>, j: int) -> int
    decreases j,
{
    if j <= 0 || j > s.len() {
        0
    } else if is_whitespace(s[j - 1]) {
        skip_ws_backward(s, j - 1)
    } else {
        j
    }
}

/// `str::trim`: `s` without its leading and trailing whitespace.
pub open spec fn trim(s: Seq<char>) -> Seq<char> {
    let a = skip_ws_forward(s, 0);
    let b = skip_ws_backward(s, s.len() as int);
    if a < b {
        s.subrange(a, b)
    } else {
        seq![]
    }
}

/// `char::is_whitespace`.
fn char_is_whitespace(c: char) -> (r: bool)
    ensures
        r == is_whitespace(c),
{
    ('\t' <= c && c <= '\r') || c == ' ' || c == '\u{85}' || c == '\u{a0}' || c == '\u{1680}'
        || ('\u{2000}' <= c && c <= '\u{200a}') || c == '\u{2028}' || c == '\u{2029}' || c
        == '\u{202f}' || c == '\u{205f}' || c == '\u{3000}'
}

/// The characters of `s` from `from` to `to`, with surrounding whitespace removed.
fn trim_range(s: &Vec<char>, from: usize, to: usize) -> (r: Vec<char>)
    requires
        from <= to <= s.len(),
    ensures
        r@ == trim(s@.subrange(from as int, to as int)),
{
    let ghost t = s@.subrange(from as int, to as int);
    let mut a: usize = from;
    while a < to && char_is_whitespace(s[a])
        invariant
            from <= a <= to <= s.len(),
            t == s@.subrange(from as int, to as int),
            skip_ws_forward(t, 0) == skip_ws_forward(t, a - from),
        decreases to - a,
    {
        a += 1;
    }
    let mut b: usize = to;
    while b > from && char_is_whitespace(s[b - 1])
        invariant
            from <= b <= to <= s.len(),
            t == s@.subrange(from as int, to as int),
            skip_ws_backward(t, t.len() as int) == skip_ws_backward(t, b - from),
        decreases b,
    {
        b -= 1;
    }
    assert(skip_ws_forward(t, 0) == a - from);
    assert(skip_ws_backward(t, t.len() as int) == b - from);
    if a < b {
        let r = copy_range(s, a, b);
        assert(r@ =~= t.subrange(a - from, b - from));
        r
    } else {
        Vec::new()
    }
}

// ---------------------------------------------------------------------------
// Marker lines

/// What `marker_tool` finds: the trimmed text between the first `marker`
/// of `line` and the first `}` after it.
pub open spec fn marker_tool_spec(line: Seq<char>, marker: Seq<char>) -> Option<Seq<char>> {
    match find_from(line, marker, 0) {
        None => None,
        Some(p) => match find_from(line, seq!['}'], p + marker.len()) {
            None => None,
            Some(e) => Some(trim(line.subrange(p + marker.len(), e))),
        },
    }
}

/// Extracts the tool name out of a `{<marker><tool>}` line, if it has one.
///
/// The marker is matched anywhere in the line, so it can sit behind whatever
/// comment syntax the template's file format uses.
pub fn marker_tool(line: &str, marker: &str) -> (r: Option<String>)
    ensures
        r matches Some(t) ==> marker_tool_spec(line@, marker@) == Some(t@),
        r is None ==> marker_tool_spec(line@, marker@) is None,
{
    let l = chars_of(line);
    let m = chars_of(marker);
    match marker_tool_chars(&l, &m) {
        Some(t) => Some(string_of(&t)),
        None => None,
    }
}

/// The characters of `}`.
fn close_brace_chars() -> (v: Vec<char>)
    ensures
        v@ == seq!['}'],
{
    let v = vec!['}'];
    assert(v@ =~= seq!['}']);
    v
}

/// `marker_tool`, on characters.
fn marker_tool_chars(line: &Vec<char>, marker: &Vec<char>) -> (r: Option<Vec<char>>)
    ensures
        r matches Some(t) ==> marker_tool_spec(line@, marker@) == Some(t@),
        r is None ==> marker_tool_spec(line@, marker@) is None,
{
    let found: Option<usize> = if marker.len() == 0 {
        assert(line@.subrange(0, 0) =~= marker@);
        assert(find_from(line@, marker@, 0) == Some(0int));
        Some(0usize)
    } else {
        find_chars(line, marker, 0)
    };
    match found {
        None => None,
        Some(p) => {
            assert(find_from(line@, marker@, 0) == Some(p as int));
            proof {
                lemma_find_from(line@, marker@, 0);
            }
            assert(occurs_at(line@, marker@, p as int));
            assert(p + marker@.len() <= line@.len());
            assert(line@.len() == line.len());
            let start = p + marker.len();
            let brace = close_brace_chars();
            match find_chars(line, &brace, start) {
                None => None,
                Some(e) => {
                    proof {
                        lemma_find_from(line@, brace@, start as int);
                    }
                    Some(trim_range(line, start, e))
                },
            }
        },
    }
}

// ---------------------------------------------------------------------------
// Conditional blocks

/// A line ending in `\r\n` loses its `\r` too.
pub open spec fn strip_cr(t: Seq<char>) -> Seq<char> {
    if t.len() > 0 && t.last() == '\r' {
        t.drop_last()
    } else {
        t
    }
}

/// The lines of `s` (as `str::lines` yields them) from the line starting at
/// `start`, with `s[start..i]` already known to hold no `\n`.
pub open spec fn lines_from(s: Seq<char>, start: int, i: int) -> Seq<Seq<char>>
    decreases s.len() - i,
{
    if i >= s.len() {
        if start < s.len() {
            seq![s.subrange(start, s.len() as int)]
        } else {
            seq![]
        }
    } else if s[i] == '\n' {
        seq![strip_cr(s.subrange(start, i))] + lines_from(s, i + 1, i + 1)
    } else {
        lines_from(s, start, i + 1)
    }
}

/// `str::lines`: `s` split at each `\n`, a `\r` right before it dropped, and
/// no empty line after a final `\n`.
pub open spec fn lines(s: Seq<char>) -> Seq<Seq<char>> {
    lines_from(s, 0, 0)
}

/// The state of the block filter after some lines: the lines kept so far,
/// and the tool whose block is being dropped, if any.
pub type StripState = (Seq<Seq<char>>, Option<Seq<char>>);

/// The block filter's response to one line.
pub open spec fn strip_step(st: StripState, line: Seq<char>, options: Seq<ToolOption>) -> StripState {
    let (kept, skipping) = st;
    match marker_tool_spec(line, endif_marker()) {
        Some(tool) => (kept, if skipping == Some(tool) { None } else { skipping }),
        None => match marker_tool_spec(line, if_marker()) {
            Some(tool) => (
                kept,
                if skipping is None && !selects(options, tool) { Some(tool) } else { skipping },
            ),
            None => match marker_tool_spec(line, ifnot_marker()) {
                Some(tool) => (
                    kept,
                    if skipping is None && selects(options, tool) { Some(tool) } else { skipping },
                ),
                None => if skipping is None { (kept.push(line), skipping) } else { st },
            },
        },
    }
}

/// The block filter run over `lines`, from nothing kept and nothing skipped.
pub open spec fn strip_lines(lines: Seq<Seq<char>>, options: Seq<ToolOption>) -> StripState
    decreases lines.len(),
{
    if lines.len() == 0 {
        (seq![], None)
    } else {
        strip_step(strip_lines(lines.drop_last(), options), lines.last(), options)
    }
}

/// Each of `lines` followed by a `\n`.
pub open spec fn terminated(lines: Seq<Seq<char>>) -> Seq<char>
    decreases lines.len(),
{
    if lines.len() == 0 {
        seq![]
    } else {
        terminated(lines.drop_last()) + lines.last() + seq!['\n']
    }
}

/// What `strip_conditionals` makes of `content`.
pub open spec fn stripped(content: Seq<char>, options: Seq<ToolOption>) -> Seq<char> {
    if !contains_seq(content, if_marker()) && !contains_seq(content, ifnot_marker()) {
        content
    } else {
        terminated(strip_lines(lines(content), options).0)
    }
}

/// The characters of an optional character vector.
pub open spec fn opt_view(o: Option<Vec<char>>) -> Option<Seq<char>> {
    match o {
        Some(v) => Some(v@),
        None => None,
    }
}

/// Feeds one line to the block filter.
fn strip_line(
    out: &mut Vec<char>,
    skipping: &mut Option<Vec<char>>,
    line: Vec<char>,
    repo: &RepoBuilder,
    Ghost(kept): Ghost<Seq<Seq<char>>>,
) -> (kept2: Ghost<Seq<Seq<char>>>)
    requires
        old(out)@ == terminated(kept),
    ensures
        (kept2@, opt_view(*final(skipping))) == strip_step(
            (kept, opt_view(*old(skipping))),
            line@,
            repo.options@,
        ),
        final(out)@ == terminated(kept2@),
{
    let endif = endif_marker_chars();
    let ifm = if_marker_chars();
    let ifnot = ifnot_marker_chars();
    match marker_tool_chars(&line, &endif) {
        Some(tool) => {
            let same = match &*skipping {
                Some(s) => chars_equal(s, &tool),
                None => false,
            };
            if same {
                *skipping = None;
            }
            return Ghost(kept);
        },
        None => {},
    }
    match marker_tool_chars(&line, &ifm) {
        Some(tool) => {
            if skipping.is_none() && !repo.is_selected_chars(&tool) {
                *skipping = Some(tool);
            }
            return Ghost(kept);
        },
        None => {},
    }
    match marker_tool_chars(&line, &ifnot) {
        Some(tool) => {
            if skipping.is_none() && repo.is_selected_chars(&tool) {
                *skipping = Some(tool);
            }
            return Ghost(kept);
        },
        None => {},
    }
    if skipping.is_none() {
        let ghost k2 = kept.push(line@);
        append_chars(out, &line);
        out.push('\n');
        assert(k2.drop_last() =~= kept);
        return Ghost(k2);
    }
    Ghost(kept)
}

/// `strip_conditionals`, on characters.
fn strip_conditionals_chars(content: &Vec<char>, repo: &RepoBuilder) -> (out: Vec<char>)
    ensures
        out@ == stripped(content@, repo.options@),
{
    let ifm = if_marker_chars();
    let ifnot = ifnot_marker_chars();
    if find_chars(content, &ifm, 0).is_none() && find_chars(content, &ifnot, 0).is_none() {
        return copy_range(content, 0, content.len());
    }
    let ghost s = content@;
    let n = content.len();
    let mut out: Vec<char> = Vec::new();
    let mut skipping: Option<Vec<char>> = None;
    let ghost mut kept: Seq<Seq<char>> = seq![];
    let ghost mut done: Seq<Seq<char>> = seq![];
    let mut start: usize = 0;
    let mut i: usize = 0;
    assert(done + lines_from(s, 0, 0) =~= lines(s));
    while i < n
        invariant
            s == content@,
            n == content.len(),
            start <= i <= n,
            lines(s) == done + lines_from(s, start as int, i as int),
            (kept, opt_view(skipping)) == strip_lines(done, repo.options@),
            out@ == terminated(kept),
        decreases n - i,
    {
        if content[i] == '\n' {
            let mut line = copy_range(content, start, i);
            if line.len() > 0 && line[line.len() - 1] == '\r' {
                line.pop();
                assert(line@ =~= strip_cr(s.subrange(start as int, i as int)));
            }
            let ghost l = line@;
            assert(l == strip_cr(s.subrange(start as int, i as int)));
            let Ghost(k2) = strip_line(&mut out, &mut skipping, line, repo, Ghost(kept));
            proof {
                assert(done.push(l).drop_last() =~= done);
                assert(done + lines_from(s, start as int, i as int) =~= done.push(l) + lines_from(
                    s,
                    i + 1,
                    i + 1,
                ));
                done = done.push(l);
                kept = k2;
            }
            start = i + 1;
        }
        i += 1;
    }
    if start < n {
        let line = copy_range(content, start, n);
        let ghost l = line@;
        let Ghost(k2) = strip_line(&mut out, &mut skipping, line, repo, Ghost(kept));
        proof {
            assert(done.push(l).drop_last() =~= done);
            assert(lines(s) =~= done.push(l));
            done = done.push(l);
            kept = k2;
        }
    } else {
        assert(lines(s) =~= done);
    }
    out
}

/// Drops `{if:<tool>}`/`{ifnot:<tool>}`/`{endif:<tool>}` blocks whose tool
/// is not selected (for `{ifnot:}`, whose tool is selected), keeping the body
/// of the others. The marker lines themselves are removed either way, and
/// every kept line ends in `\n`. Content with neither an `{if:` nor an
/// `{ifnot:` marker is returned as it is.
pub fn strip_conditionals(content: &str, repo: &RepoBuilder) -> (out: String)
    ensures
        out@ == stripped(content@, repo.options@),
{
    let c = chars_of(content);
    let r = strip_conditionals_chars(&c, repo);
    string_of(&r)
}

// ---------------------------------------------------------------------------
// Placeholders

/// `s` with every occurrence of `pat` replaced by `rep`, scanning from the
/// left and resuming after each replaced occurrence (`str::replace`).
pub open spec fn replace_all(s: Seq<char>, pat: Seq<char>, rep: Seq<char>) -> Seq<char>
    decreases s.len(),
{
    if s.len() == 0 {
        s
    } else if pat.len() > 0 && occurs_at(s, pat, 0) {
        rep + replace_all(s.skip(pat.len() as int), pat, rep)
    } else {
        seq![s[0]] + replace_all(s.drop_first(), pat, rep)
    }
}

/// `replace_all`, on characters.
pub fn replace_chars(s: &Vec<char>, pat: &Vec<char>, rep: &Vec<char>) -> (r: Vec<char>)
    requires
        pat.len() > 0,
    ensures
        r@ == replace_all(s@, pat@, rep@),
{
    let mut r: Vec<char> = Vec::new();
    let mut i: usize = 0;
    assert(s@.skip(0) =~= s@);
    assert(r@ + replace_all(s@, pat@, rep@) =~= replace_all(s@, pat@, rep@));
    while i < s.len()
        invariant
            i <= s.len(),
            pat.len() > 0,
            replace_all(s@, pat@, rep@) == r@ + replace_all(s@.skip(i as int), pat@, rep@),
        decreases s.len() - i,
    {
        let ghost rest = s@.skip(i as int);
        if matches_at(s, pat, i) {
            assert(rest.subrange(0, pat@.len() as int) =~= s@.subrange(i as int, i + pat@.len()));
            assert(rest.skip(pat@.len() as int) =~= s@.skip(i + pat@.len()));
            append_chars(&mut r, rep);
            i += pat.len();
        } else {
            assert(!occurs_at(rest, pat@, 0)) by {
                if pat@.len() <= rest.len() {
                    assert(rest.subrange(0, pat@.len() as int) =~= s@.subrange(
                        i as int,
                        i + pat@.len(),
                    ));
                }
            }
            assert(rest.drop_first() =~= s@.skip(i + 1));
            assert(rest[0] == s@[i as int]);
            r.push(s[i]);
            i += 1;
        }
    }
    assert(s@.skip(s.len() as int) =~= Seq::<char>::empty());
    assert(r@ + Seq::<char>::empty() =~= r@);
    r
}

/// Characters that `char::is_ascii_alphanumeric` accepts.
pub open spec fn is_ascii_alphanumeric(c: char) -> bool {
    ('a' <= c <= 'z') || ('A' <= c <= 'Z') || ('0' <= c <= '9')
}

/// Characters that `char::is_ascii_digit` accepts.
pub open spec fn is_ascii_digit(c: char) -> bool {
    '0' <= c <= '9'
}

/// One character of `{name}` folded into an identifier character: ASCII
/// letters lowercased, ASCII digits kept, anything else `_`.
pub open spec fn ident_char(c: char) -> char {
    if 'A' <= c <= 'Z' {
        ((c as u32) + 32) as char
    } else if is_ascii_alphanumeric(c) {
        c
    } else {
        '_'
    }
}

/// `{name}` folded into a Rust identifier, with a leading `_` if it would
/// otherwise start with a digit.
pub open spec fn ident_of(name: Seq<char>) -> Seq<char> {
    let m = name.map_values(|c: char| ident_char(c));
    if m.len() > 0 && is_ascii_digit(m[0]) {
        seq!['_'] + m
    } else {
        m
    }
}

/// `ident_char`, computed.
fn fold_ident_char(c: char) -> (r: char)
    ensures
        r == ident_char(c),
{
    if 'A' <= c && c <= 'Z' {
        let b: u8 = c as u8;
        assert(b == c as u32);
        ((b + 32) as char)
    } else if ('a' <= c && c <= 'z') || ('0' <= c && c <= '9') {
        c
    } else {
        '_'
    }
}

/// `{name}` folded into a Rust identifier: lowercased, with every character
/// that is not ASCII alphanumeric replaced by `_`, and a leading `_` if the
/// result would start with a digit.
pub fn ident(name: &str) -> (out: String)
    ensures
        out@ == ident_of(name@),
        identifier_of(name@, out@),
{
    let n = chars_of(name);
    let v = ident_chars(&n);
    proof {
        lemma_ident_maps_each_char(name@);
    }
    string_of(&v)
}

/// `ident`, on characters.
fn ident_chars(name: &Vec<char>) -> (out: Vec<char>)
    ensures
        out@ == ident_of(name@),
{
    let mut m: Vec<char> = Vec::new();
    let mut i: usize = 0;
    while i < name.len()
        invariant
            i <= name.len(),
            m@ == name@.take(i as int).map_values(|c: char| ident_char(c)),
        decreases name.len() - i,
    {
        m.push(fold_ident_char(name[i]));
        assert(name@.take(i + 1).map_values(|c: char| ident_char(c)) =~= name@.take(
            i as int,
        ).map_values(|c: char| ident_char(c)).push(ident_char(name@[i as int])));
        i += 1;
    }
    assert(name@.take(name.len() as int) =~= name@);
    if m.len() > 0 && '0' <= m[0] && m[0] <= '9' {
        let mut out: Vec<char> = vec!['_'];
        append_chars(&mut out, &m);
        assert(out@ =~= seq!['_'] + m@);
        out
    } else {
        m
    }
}

/// The placeholder `{ident}`.
pub open spec fn ident_placeholder() -> Seq<char> {
    seq!['{', 'i', 'd', 'e', 'n', 't', '}']
}

/// The placeholder `{name}`.
pub open spec fn name_placeholder() -> Seq<char> {
    seq!['{', 'n', 'a', 'm', 'e', '}']
}

/// The placeholder `{desc}`.
pub open spec fn desc_placeholder() -> Seq<char> {
    seq!['{', 'd', 'e', 's', 'c', '}']
}

/// The placeholder `{owner}`.
pub open spec fn owner_placeholder() -> Seq<char> {
    seq!['{', 'o', 'w', 'n', 'e', 'r', '}']
}

/// The text of a rendered template: conditional blocks resolved first, then
/// `{ident}`, `{name}`, `{desc}` and `{owner}` replaced, in that order.
pub open spec fn substituted(content: Seq<char>, repo: RepoBuilder) -> Seq<char> {
    let s0 = stripped(content, repo.options@);
    let s1 = replace_all(s0, ident_placeholder(), ident_of(repo.name@));
    let s2 = replace_all(s1, name_placeholder(), repo.name@);
    let s3 = replace_all(s2, desc_placeholder(), repo.desc@);
    replace_all(s3, owner_placeholder(), repo.owner@)
}

/// Rewrites a template on its way out: `{if:<tool>}`/`{ifnot:<tool>}` blocks
/// first, then the `{ident}`, `{name}`, `{desc}` and `{owner}` placeholders;
/// the result is UTF-8 encoded.
///
/// Order matters: conditionals are resolved before placeholders, so a
/// `{name}` sitting inside a block belonging to an unselected tool is dropped
/// rather than substituted.
pub fn substitute(content: &str, repo: &RepoBuilder) -> (bytes: Vec<u8>)
    ensures
        bytes@ == encode_utf8(substituted(content@, *repo)),
{
    let c = chars_of(content);
    let s0 = strip_conditionals_chars(&c, repo);
    let name = chars_of(repo.name.as_str());
    let id = ident_chars(&name);
    let desc = chars_of(repo.desc.as_str());
    let owner = chars_of(repo.owner.as_str());
    let p_ident = vec!['{', 'i', 'd', 'e', 'n', 't', '}'];
    let p_name = vec!['{', 'n', 'a', 'm', 'e', '}'];
    let p_desc = vec!['{', 'd', 'e', 's', 'c', '}'];
    let p_owner = vec!['{', 'o', 'w', 'n', 'e', 'r', '}'];
    assert(p_ident@ =~= ident_placeholder());
    assert(p_name@ =~= name_placeholder());
    assert(p_desc@ =~= desc_placeholder());
    assert(p_owner@ =~= owner_placeholder());
    let s1 = replace_chars(&s0, &p_ident, &id);
    let s2 = replace_chars(&s1, &p_name, &name);
    let s3 = replace_chars(&s2, &p_desc, &desc);
    let s4 = replace_chars(&s3, &p_owner, &owner);
    let text = string_of(&s4);
    slice_to_vec(text.as_str().as_bytes())
}

// ---------------------------------------------------------------------------
// Template files

/// `std::str::from_utf8`: the bytes read as a string when they are valid
/// UTF-8, and nothing otherwise.
#[verifier::external_body]
fn str_from_utf8(bytes: &[u8]) -> (r: Option<&str>)
    ensures
        r is Some <==> valid_utf8(bytes@),
        r matches Some(s) ==> s@ == decode_utf8(bytes@),
{
    std::str::from_utf8(bytes).ok()
}

/// What an embedded template file becomes on disk: a UTF-8 file goes through
/// `substitute`; anything else is copied byte for byte, which is what keeps
/// binary templates intact.
pub fn render_file(contents: &[u8], repo: &RepoBuilder) -> (bytes: Vec<u8>)
    ensures
        bytes@ == if valid_utf8(contents@) {
            encode_utf8(substituted(decode_utf8(contents@), *repo))
        } else {
            contents@
        },
{
    match str_from_utf8(contents) {
        Some(text) => substitute(text, repo),
        None => slice_to_vec(contents),
    }
}

// ---------------------------------------------------------------------------
// Laws

/// A line that is none of the three marker lines.
pub open spec fn plain_line(line: Seq<char>) -> bool {
    &&& marker_tool_spec(line, endif_marker()) is None
    &&& marker_tool_spec(line, if_marker()) is None
    &&& marker_tool_spec(line, ifnot_marker()) is None
}

/// A line that starts dropping the block of `tool`: an `{if:}` line of an
/// unselected tool or an `{ifnot:}` line of a selected one.
pub open spec fn opens_dropped_block(line: Seq<char>, options: Seq<ToolOption>, tool: Seq<char>) -> bool {
    &&& marker_tool_spec(line, endif_marker()) is None
    &&& match marker_tool_spec(line, if_marker()) {
        Some(t) => t == tool && !selects(options, t),
        None => marker_tool_spec(line, ifnot_marker()) == Some(tool) && selects(options, tool),
    }
}

/// A template with neither an `{if:` nor an `{ifnot:` marker passes through
/// `strip_conditionals` unchanged.
pub proof fn lemma_unmarked_content_unchanged(content: Seq<char>, options: Seq<ToolOption>)
    requires
        !contains_seq(content, if_marker()),
        !contains_seq(content, ifnot_marker()),
    ensures
        stripped(content, options) == content,
{
}

/// Marker lines never reach the output, and every line that does is a line
/// of the template.
pub proof fn lemma_kept_lines_are_plain_template_lines(lines: Seq<Seq<char>>, options: Seq<ToolOption>)
    ensures
        forall|i: int|
            0 <= i < strip_lines(lines, options).0.len() ==> plain_line(
                #[trigger] strip_lines(lines, options).0[i],
            ) && lines.contains(strip_lines(lines, options).0[i]),
    decreases lines.len(),
{
    if lines.len() > 0 {
        let prev = lines.drop_last();
        lemma_kept_lines_are_plain_template_lines(prev, options);
        let k0 = strip_lines(prev, options).0;
        let k1 = strip_lines(lines, options).0;
        assert forall|i: int| 0 <= i < k1.len() implies plain_line(#[trigger] k1[i]) && lines.contains(
            k1[i],
        ) by {
            if i < k0.len() {
                assert(k1[i] == k0[i]);
                let j = choose|j: int| 0 <= j < prev.len() && prev[j] == k0[i];
                assert(lines[j] == prev[j]);
            } else {
                assert(k1[i] == lines.last());
                assert(lines[lines.len() - 1] == lines.last());
            }
        }
    }
}

/// When no line opens a dropped block, every plain line is kept, in order,
/// and nothing else.
pub proof fn lemma_no_dropped_block_keeps_plain_lines(lines: Seq<Seq<char>>, options: Seq<ToolOption>)
    requires
        forall|i: int, t: Seq<char>| 0 <= i < lines.len() ==> !#[trigger] opens_dropped_block(lines[i], options, t),
    ensures
        strip_lines(lines, options) == (lines.filter(|l: Seq<char>| plain_line(l)), None::<Seq<char>>),
    decreases lines.len(),
{
    reveal(Seq::filter);
    if lines.len() > 0 {
        let prev = lines.drop_last();
        assert forall|i: int, t: Seq<char>| 0 <= i < prev.len() implies !#[trigger] opens_dropped_block(prev[i], options, t) by {
            assert(prev[i] == lines[i]);
        }
        lemma_no_dropped_block_keeps_plain_lines(prev, options);
        let l = lines.last();
        assert(lines[lines.len() - 1] == l);
        match marker_tool_spec(l, if_marker()) {
            Some(t) => {
                assert(!opens_dropped_block(l, options, t));
            },
            None => match marker_tool_spec(l, ifnot_marker()) {
                Some(t) => {
                    assert(!opens_dropped_block(l, options, t));
                },
                None => {},
            },
        }
    }
}

/// While the block of `tool` is being dropped, lines add nothing to the
/// output, up to the `{endif:}` line of that tool.
proof fn lemma_dropping_continues(
    lines: Seq<Seq<char>>,
    options: Seq<ToolOption>,
    a: int,
    j: int,
    tool: Seq<char>,
    kept: Seq<Seq<char>>,
)
    requires
        0 <= a < j <= lines.len(),
        strip_lines(lines.take(a + 1), options) == (kept, Some(tool)),
        forall|m: int| a < m < j ==> marker_tool_spec(#[trigger] lines[m], endif_marker()) != Some(tool),
    ensures
        strip_lines(lines.take(j), options) == (kept, Some(tool)),
    decreases j - a,
{
    if j > a + 1 {
        lemma_dropping_continues(lines, options, a, j - 1, tool, kept);
        let l = lines[j - 1];
        assert(lines.take(j).drop_last() =~= lines.take(j - 1));
        assert(lines.take(j).last() == l);
    }
}

/// Conditionals are resolved before placeholders: a block whose tool is not
/// selected (or, for `{ifnot:}`, is selected) adds nothing to the output,
/// from its opening line through its `{endif:}` line, so whatever it holds
/// never reaches substitution.
pub proof fn lemma_dropped_block_adds_nothing(
    lines: Seq<Seq<char>>,
    options: Seq<ToolOption>,
    a: int,
    b: int,
    tool: Seq<char>,
)
    requires
        0 <= a < b < lines.len(),
        strip_lines(lines.take(a), options).1 is None,
        opens_dropped_block(lines[a], options, tool),
        marker_tool_spec(lines[b], endif_marker()) == Some(tool),
        forall|m: int| a < m < b ==> marker_tool_spec(#[trigger] lines[m], endif_marker()) != Some(tool),
    ensures
        strip_lines(lines.take(b + 1), options) == (strip_lines(lines.take(a), options).0, None::<Seq<char>>),
{
    let kept = strip_lines(lines.take(a), options).0;
    assert(lines.take(a + 1).drop_last() =~= lines.take(a));
    assert(lines.take(a + 1).last() == lines[a]);
    assert(strip_lines(lines.take(a + 1), options) == (kept, Some(tool)));
    lemma_dropping_continues(lines, options, a, b, tool, kept);
    assert(lines.take(b + 1).drop_last() =~= lines.take(b));
    assert(lines.take(b + 1).last() == lines[b]);
}

/// Replacing a pattern that does not occur changes nothing.
pub proof fn lemma_replace_absent(s: Seq<char>, pat: Seq<char>, rep: Seq<char>)
    requires
        pat.len() > 0,
        forall|i: int| !occurs_at(s, pat, i),
    ensures
        replace_all(s, pat, rep) == s,
    decreases s.len(),
{
    if s.len() > 0 {
        let t = s.drop_first();
        assert forall|i: int| !occurs_at(t, pat, i) by {
            if occurs_at(t, pat, i) {
                assert(s.subrange(i + 1, i + 1 + pat.len()) =~= t.subrange(i, i + pat.len()));
                assert(occurs_at(s, pat, i + 1));
            }
        }
        lemma_replace_absent(t, pat, rep);
        assert(seq![s[0]] + t =~= s);
    }
}

/// A template with no markers and no placeholders renders to itself.
pub proof fn lemma_plain_template_renders_to_itself(content: Seq<char>, repo: RepoBuilder)
    requires
        !contains_seq(content, if_marker()),
        !contains_seq(content, ifnot_marker()),
        !contains_seq(content, ident_placeholder()),
        !contains_seq(content, name_placeholder()),
        !contains_seq(content, desc_placeholder()),
        !contains_seq(content, owner_placeholder()),
    ensures
        substituted(content, repo) == content,
{
    lemma_find_from(content, ident_placeholder(), 0);
    lemma_find_from(content, name_placeholder(), 0);
    lemma_find_from(content, desc_placeholder(), 0);
    lemma_find_from(content, owner_placeholder(), 0);
    lemma_replace_absent(content, ident_placeholder(), ident_of(repo.name@));
    lemma_replace_absent(content, name_placeholder(), repo.name@);
    lemma_replace_absent(content, desc_placeholder(), repo.desc@);
    lemma_replace_absent(content, owner_placeholder(), repo.owner@);
}

/// What `substitute` returns is valid UTF-8, and reads back as the rendered text.
pub proof fn lemma_substitute_output_is_utf8(content: Seq<char>, repo: RepoBuilder)
    ensures
        valid_utf8(encode_utf8(substituted(content, repo))),
        decode_utf8(encode_utf8(substituted(content, repo))) == substituted(content, repo),
{
    vstd::utf8::encode_utf8_valid_utf8(substituted(content, repo));
    vstd::utf8::encode_utf8_decode_utf8(substituted(content, repo));
}

/// `{ident}` is a Rust identifier: lowercase ASCII letters, ASCII digits and
/// `_` only, not starting with a digit, and as long as the name, plus one
/// when a `_` had to go in front.
pub proof fn lemma_ident_is_identifier(name: Seq<char>)
    ensures
        forall|i: int|
            0 <= i < ident_of(name).len() ==> {
                let c = #[trigger] ident_of(name)[i];
                ('a' <= c <= 'z') || ('0' <= c <= '9') || c == '_'
            },
        ident_of(name).len() > 0 ==> !is_ascii_digit(ident_of(name)[0]),
        ident_of(name).len() == name.len() || ident_of(name).len() == name.len() + 1,
{
    let m = name.map_values(|c: char| ident_char(c));
    assert forall|i: int| 0 <= i < m.len() implies {
        let c = #[trigger] m[i];
        ('a' <= c <= 'z') || ('0' <= c <= '9') || c == '_'
    } by {
        let c = name[i];
        if 'A' <= c <= 'Z' {
            assert((c as u32) + 32 <= 'z' as u32);
        }
    }
    if m.len() > 0 && is_ascii_digit(m[0]) {
        let r = seq!['_'] + m;
        assert forall|i: int| 0 < i < r.len() implies r[i] == m[i - 1] by {}
    }
}

/// `l` holds no line break.
pub open spec fn one_line(l: Seq<char>) -> bool {
    forall|k: int| 0 <= k < l.len() ==> l[k] != '\n' && l[k] != '\r'
}

/// The lines of a text can be read from any line start onwards by dropping
/// what comes before it.
proof fn lemma_lines_from_shift(s: Seq<char>, d: int, start: int, i: int)
    requires
        0 <= d <= start <= i <= s.len(),
    ensures
        lines_from(s, start, i) == lines_from(s.skip(d), start - d, i - d),
    decreases s.len() - i,
{
    let t = s.skip(d);
    if i >= s.len() {
        if start < s.len() {
            assert(s.subrange(start, s.len() as int) =~= t.subrange(start - d, t.len() as int));
        }
    } else if s[i] == '\n' {
        assert(t[i - d] == s[i]);
        lemma_lines_from_shift(s, d, i + 1, i + 1);
        assert(s.subrange(start, i) =~= t.subrange(start - d, i - d));
    } else {
        assert(t[i - d] == s[i]);
        lemma_lines_from_shift(s, d, start, i + 1);
    }
}

/// Scanning over a stretch without `\n` does not change the lines found.
proof fn lemma_lines_from_scan(s: Seq<char>, i: int, j: int)
    requires
        0 <= i <= j <= s.len(),
        forall|k: int| i <= k < j ==> s[k] != '\n',
    ensures
        lines_from(s, 0, i) == lines_from(s, 0, j),
    decreases j - i,
{
    if i < j {
        lemma_lines_from_scan(s, i + 1, j);
    }
}

/// The lines of a text that starts with one line and a `\n`.
proof fn lemma_lines_first(l: Seq<char>, r: Seq<char>)
    requires
        one_line(l),
    ensures
        lines(l + seq!['\n'] + r) == seq![l] + lines(r),
{
    let s = l + seq!['\n'] + r;
    let n = l.len() as int;
    lemma_lines_from_scan(s, 0, n);
    assert(s[n] == '\n');
    assert(s.subrange(0, n) =~= l);
    lemma_lines_from_shift(s, n + 1, n + 1, n + 1);
    assert(s.skip(n + 1) =~= r);
}

/// `terminated`, read from the front.
proof fn lemma_terminated_front(k: Seq<Seq<char>>)
    requires
        k.len() > 0,
    ensures
        terminated(k) == k[0] + seq!['\n'] + terminated(k.drop_first()),
    decreases k.len(),
{
    if k.len() > 1 {
        lemma_terminated_front(k.drop_last());
        assert(k.drop_last().drop_first() =~= k.drop_first().drop_last());
        assert(k.drop_first().last() == k.last());
        assert(k.drop_last()[0] == k[0]);
        assert(terminated(k) =~= k[0] + seq!['\n'] + terminated(k.drop_first()));
    } else {
        assert(k.drop_last().len() == 0);
        assert(k.drop_first().len() == 0);
        assert(terminated(k.drop_last()) == Seq::<char>::empty());
        assert(terminated(k.drop_first()) == Seq::<char>::empty());
        assert(k.last() == k[0]);
        assert(terminated(k) =~= k[0] + seq!['\n'] + terminated(k.drop_first()));
    }
}

/// Lines joined with `\n` read back as the same lines.
proof fn lemma_lines_of_terminated(k: Seq<Seq<char>>)
    requires
        forall|j: int| 0 <= j < k.len() ==> one_line(#[trigger] k[j]),
    ensures
        lines(terminated(k)) == k,
    decreases k.len(),
{
    if k.len() == 0 {
        assert(lines(terminated(k)) =~= k);
    } else {
        lemma_terminated_front(k);
        assert(forall|j: int| 0 <= j < k.drop_first().len() ==> k.drop_first()[j] == k[j + 1]);
        lemma_lines_of_terminated(k.drop_first());
        assert(one_line(k[0]));
        lemma_lines_first(k[0], terminated(k.drop_first()));
        assert(seq![k[0]] + k.drop_first() =~= k);
    }
}

/// Lines of a text with no `\r` hold no line break.
proof fn lemma_lines_are_one_line(s: Seq<char>, start: int, i: int)
    requires
        0 <= start <= i,
        forall|k: int| start <= k < i && k < s.len() ==> s[k] != '\n',
        forall|k: int| 0 <= k < s.len() ==> s[k] != '\r',
    ensures
        forall|j: int| 0 <= j < lines_from(s, start, i).len() ==> one_line(#[trigger] lines_from(s, start, i)[j]),
    decreases s.len() - i,
{
    if i >= s.len() {
        if start < s.len() {
            let l = s.subrange(start, s.len() as int);
            assert(one_line(l)) by {
                assert forall|k: int| 0 <= k < l.len() implies l[k] != '\n' && l[k] != '\r' by {
                    assert(l[k] == s[start + k]);
                }
            }
            assert(lines_from(s, start, i) =~= seq![l]);
        }
    } else if s[i] == '\n' {
        lemma_lines_are_one_line(s, i + 1, i + 1);
        let l = s.subrange(start, i);
        assert(one_line(l)) by {
            assert forall|k: int| 0 <= k < l.len() implies l[k] != '\n' && l[k] != '\r' by {
                assert(l[k] == s[start + k]);
            }
        }
        assert(l.len() == 0 || l.last() != '\r');
        assert(strip_cr(l) == l);
        let rest = lines_from(s, i + 1, i + 1);
        assert(lines_from(s, start, i) == seq![strip_cr(l)] + rest);
        assert forall|j: int| 0 <= j < lines_from(s, start, i).len() implies one_line(#[trigger] lines_from(s, start, i)[j]) by {
            if j > 0 {
                assert(lines_from(s, start, i)[j] == rest[j - 1]);
            } else {
                assert(lines_from(s, start, i)[0] == l);
            }
        }
    } else {
        lemma_lines_are_one_line(s, start, i + 1);
        assert(lines_from(s, start, i) == lines_from(s, start, i + 1));
    }
}

/// Plain lines all pass the block filter.
proof fn lemma_plain_lines_pass(k: Seq<Seq<char>>, options: Seq<ToolOption>)
    requires
        forall|j: int| 0 <= j < k.len() ==> plain_line(#[trigger] k[j]),
    ensures
        strip_lines(k, options) == (k, None::<Seq<char>>),
    decreases k.len(),
{
    if k.len() > 0 {
        assert(forall|j: int| 0 <= j < k.drop_last().len() ==> k.drop_last()[j] == k[j]);
        lemma_plain_lines_pass(k.drop_last(), options);
        assert(plain_line(k[k.len() - 1]));
        assert(k.drop_last().push(k.last()) =~= k);
    }
}

/// Running the block filter again on its own output (of a text without
/// `\r`) changes nothing.
pub proof fn lemma_strip_idempotent(content: Seq<char>, options: Seq<ToolOption>)
    requires
        forall|k: int| 0 <= k < content.len() ==> content[k] != '\r',
    ensures
        stripped(stripped(content, options), options) == stripped(content, options),
{
    if contains_seq(content, if_marker()) || contains_seq(content, ifnot_marker()) {
        let l = lines(content);
        let k = strip_lines(l, options).0;
        lemma_kept_lines_are_plain_template_lines(l, options);
        lemma_lines_are_one_line(content, 0, 0);
        assert forall|j: int| 0 <= j < k.len() implies one_line(#[trigger] k[j]) && plain_line(k[j]) by {
            assert(plain_line(k[j]) && l.contains(k[j]));
            let m = choose|m: int| 0 <= m < l.len() && l[m] == k[j];
            assert(one_line(l[m]));
        }
        lemma_lines_of_terminated(k);
        lemma_plain_lines_pass(k, options);
    }
}

/// `pieces` joined with `sep` between each two.
pub open spec fn interleave(pieces: Seq<Seq<char>>, sep: Seq<char>) -> Seq<char>
    decreases pieces.len(),
{
    if pieces.len() == 0 {
        seq![]
    } else if pieces.len() == 1 {
        pieces[0]
    } else {
        pieces[0] + sep + interleave(pieces.drop_first(), sep)
    }
}

/// `c` does not occur in `s`.
pub open spec fn lacks(s: Seq<char>, c: char) -> bool {
    forall|k: int| 0 <= k < s.len() ==> s[k] != c
}

/// Text in which the pattern's first character never occurs passes
/// through a replacement untouched, whatever follows it.
proof fn lemma_replace_skips_plain_prefix(x: Seq<char>, t: Seq<char>, pat: Seq<char>, rep: Seq<char>)
    requires
        pat.len() > 0,
        lacks(x, pat[0]),
    ensures
        replace_all(x + t, pat, rep) == x + replace_all(t, pat, rep),
    decreases x.len(),
{
    if x.len() > 0 {
        let s = x + t;
        assert(s[0] == x[0]);
        if occurs_at(s, pat, 0) {
            assert(s.subrange(0, pat.len() as int)[0] == s[0]);
        }
        assert(s.drop_first() =~= x.drop_first() + t);
        lemma_replace_skips_plain_prefix(x.drop_first(), t, pat, rep);
        assert(seq![x[0]] + (x.drop_first() + replace_all(t, pat, rep)) =~= x + replace_all(t, pat, rep));
    } else {
        assert(x + t =~= t);
        assert(x + replace_all(t, pat, rep) =~= replace_all(t, pat, rep));
    }
}

/// Every occurrence is replaced: in a text made of pieces that never hold
/// the pattern's first character, joined by the pattern, each occurrence of
/// the pattern becomes the replacement and the pieces stay as they are.
pub proof fn lemma_replace_every_occurrence(pieces: Seq<Seq<char>>, pat: Seq<char>, rep: Seq<char>)
    requires
        pat.len() > 0,
        forall|i: int| 0 <= i < pieces.len() ==> lacks(#[trigger] pieces[i], pat[0]),
    ensures
        replace_all(interleave(pieces, pat), pat, rep) == interleave(pieces, rep),
    decreases pieces.len(),
{
    if pieces.len() == 0 {
    } else if pieces.len() == 1 {
        assert(lacks(pieces[0], pat[0]));
        lemma_replace_skips_plain_prefix(pieces[0], seq![], pat, rep);
        assert(pieces[0] + Seq::<char>::empty() =~= pieces[0]);
    } else {
        let rest = pieces.drop_first();
        assert(forall|i: int| 0 <= i < rest.len() ==> rest[i] == pieces[i + 1]);
        lemma_replace_every_occurrence(rest, pat, rep);
        let tail = interleave(rest, pat);
        assert(lacks(pieces[0], pat[0]));
        assert(interleave(pieces, pat) =~= pieces[0] + (pat + tail));
        lemma_replace_skips_plain_prefix(pieces[0], pat + tail, pat, rep);
        let u = pat + tail;
        assert(u.subrange(0, pat.len() as int) =~= pat);
        assert(u.len() > 0);
        assert(u.skip(pat.len() as int) =~= tail);
        assert(replace_all(u, pat, rep) == rep + replace_all(tail, pat, rep));
        assert(interleave(pieces, rep) =~= pieces[0] + (rep + interleave(rest, rep)));
    }
}

/// `out` is `name` folded into an identifier: a `_` in front exactly when
/// the name starts with an ASCII digit, then one character per character of
/// the name: an ASCII capital becomes its small letter, a small letter or
/// digit stays, and anything else becomes `_`.
pub open spec fn identifier_of(name: Seq<char>, out: Seq<char>) -> bool {
    let off: int = if name.len() > 0 && '0' <= name[0] <= '9' { 1 } else { 0 };
    &&& out.len() == name.len() + off
    &&& off == 1 ==> out[0] == '_'
    &&& forall|i: int|
        0 <= i < name.len() ==> {
            let c = name[i];
            let r = #[trigger] out[i + off];
            &&& ('A' <= c <= 'Z' ==> r as u32 == c as u32 + 32)
            &&& (('a' <= c <= 'z') || ('0' <= c <= '9') ==> r == c)
            &&& (!('A' <= c <= 'Z') && !('a' <= c <= 'z') && !('0' <= c <= '9') ==> r == '_')
        }
}

/// `{ident}` keeps every ASCII letter (lowercased) and digit of the name in
/// place, turns everything else into `_`, and puts a `_` in front only of a
/// name that starts with a digit.
pub proof fn lemma_ident_maps_each_char(name: Seq<char>)
    ensures
        identifier_of(name, ident_of(name)),
{
    let m = name.map_values(|c: char| ident_char(c));
    let out = ident_of(name);
    let off: int = if name.len() > 0 && '0' <= name[0] <= '9' { 1 } else { 0 };
    if name.len() > 0 {
        assert(m[0] == ident_char(name[0]));
        assert(is_ascii_digit(m[0]) == ('0' <= name[0] <= '9'));
    }
    assert forall|i: int| 0 <= i < name.len() implies {
        let c = name[i];
        let r = #[trigger] out[i + off];
        &&& ('A' <= c <= 'Z' ==> r as u32 == c as u32 + 32)
        &&& (('a' <= c <= 'z') || ('0' <= c <= '9') ==> r == c)
        &&& (!('A' <= c <= 'Z') && !('a' <= c <= 'z') && !('0' <= c <= '9') ==> r == '_')
    } by {
        assert(out[i + off] == m[i]);
        assert(m[i] == ident_char(name[i]));
        let c = name[i];
        if 'A' <= c <= 'Z' {
            assert(((c as u32) + 32) as char as u32 == c as u32 + 32);
        }
    }
}

} // verus!
