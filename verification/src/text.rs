//! Text handling shared by the query components: line splitting, trimming,
//! case-insensitive containment and preview truncation, all stated over
//! sequences of characters.

use vstd::prelude::*;
use vstd::std_specs::iter::IteratorSpec;
use vstd::slice::*;
use vstd::string::*;
use vstd::utf8::{decode_utf8, valid_utf8};

verus! {

/// The longest preview, in characters.
pub const PREVIEW_LIMIT: usize = 100;

/// How many characters of an over-long line are kept before the ellipsis.
pub const PREVIEW_KEEP: usize = 97;

/// The lowercase form that `str::to_lowercase` gives a text.
pub uninterp spec fn lowercase_of(s: Seq<char>) -> Seq<char>;

/// What `String::from_utf8_lossy` makes of a run of bytes.
pub uninterp spec fn lossy_text_of(bytes: Seq<u8>) -> Seq<char>;

/// `str::to_lowercase`: the result is the lowercase form of the argument.
#[verifier::external_body]
pub(crate) fn lowercase(s: &str) -> (r: String)
    ensures
        r@ == lowercase_of(s@),
{
    s.to_lowercase()
}

/// `String::from_utf8_lossy`: the text that the bytes decode to, invalid
/// sequences replaced. Valid UTF-8 comes back as the text that it encodes.
#[verifier::external_body]
pub(crate) fn lossy_text(bytes: &[u8]) -> (r: String)
    ensures
        r@ == lossy_text_of(bytes@),
        valid_utf8(bytes@) ==> r@ == decode_utf8(bytes@),
{
    String::from_utf8_lossy(bytes).into_owned()
}

/// `String::from_utf8`: succeeds exactly on valid UTF-8 and then holds the
/// characters that the bytes encode.
#[verifier::external_body]
pub(crate) fn decode_text(bytes: Vec<u8>) -> (r: Option<String>)
    ensures
        r is Some <==> vstd::utf8::valid_utf8(bytes@),
        r is Some ==> r->0@ == vstd::utf8::decode_utf8(bytes@),
{
    String::from_utf8(bytes).ok()
}

/// `String::from_iter` over characters: the string made of exactly these.
#[verifier::external_body]
pub(crate) fn text_of(chars: &[char]) -> (r: String)
    ensures
        r@ == chars@,
{
    String::from_iter(chars.iter())
}

/// The characters of a string, in order.
pub fn chars_of(s: &str) -> (r: Vec<char>)
    ensures
        r@ == s@,
{
    let mut out: Vec<char> = Vec::new();
    for c in it: s.chars()
        invariant
            it.seq() == s@,
            out@ == s@.take(it.index() as int),
    {
        out.push(c);
    }
    out
}

/// The views of a run of strings.
pub open spec fn views(v: Seq<String>) -> Seq<Seq<char>> {
    v.map_values(|s: String| s@)
}

/// Unicode white space: the characters that trimming removes.
pub open spec fn is_space(c: char) -> bool {
    let u = c as u32;
    ||| 0x09 <= u <= 0x0D
    ||| u == 0x20
    ||| u == 0x85
    ||| u == 0xA0
    ||| u == 0x1680
    ||| 0x2000 <= u <= 0x200A
    ||| u == 0x2028
    ||| u == 0x2029
    ||| u == 0x202F
    ||| u == 0x205F
    ||| u == 0x3000
}

/// A text is blank when it is empty or holds white space only.
pub open spec fn is_blank(s: Seq<char>) -> bool {
    forall|i: int| 0 <= i < s.len() ==> is_space(#[trigger] s[i])
}

/// Where the line that starts at `from` stops: at its newline, or at the end
/// of the text.
pub open spec fn line_stop(s: Seq<char>, from: int) -> int
    decreases s.len() - from,
{
    if from >= s.len() {
        s.len() as int
    } else if s[from] == '\n' {
        from
    } else {
        line_stop(s, from + 1)
    }
}

/// The line that starts at `from`, without its terminator: a newline, or a
/// carriage return followed by a newline.
pub open spec fn line_at(s: Seq<char>, from: int) -> Seq<char> {
    let stop = line_stop(s, from);
    if stop < s.len() && from < stop && s[stop - 1] == '\r' {
        s.subrange(from, stop - 1)
    } else {
        s.subrange(from, stop)
    }
}

/// The lines of the text from `from` on. A final newline ends the last line
/// and starts no new one.
pub open spec fn lines_from(s: Seq<char>, from: int) -> Seq<Seq<char>>
    decreases s.len() + 1 - from,
    via lines_from_decreases
{
    if from < 0 || from >= s.len() {
        Seq::empty()
    } else {
        seq![line_at(s, from)] + lines_from(s, line_stop(s, from) + 1)
    }
}

#[via_fn]
proof fn lines_from_decreases(s: Seq<char>, from: int) {
    if 0 <= from < s.len() {
        lemma_line_stop_bounds(s, from);
    }
}

/// A line stops at or behind its start, and within the text.
pub proof fn lemma_line_stop_bounds(s: Seq<char>, from: int)
    requires
        0 <= from <= s.len(),
    ensures
        from <= line_stop(s, from) <= s.len(),
    decreases s.len() - from,
{
    if from < s.len() && s[from] != '\n' {
        lemma_line_stop_bounds(s, from + 1);
    }
}

/// The lines of a text.
pub open spec fn text_lines(s: Seq<char>) -> Seq<Seq<char>> {
    lines_from(s, 0)
}

/// The first line of a text; the empty text has the empty first line.
pub open spec fn first_line(s: Seq<char>) -> Seq<char> {
    line_at(s, 0)
}

/// The length of the text once its trailing newlines are gone.
pub open spec fn trimmed_len(s: Seq<char>) -> int
    decreases s.len(),
{
    if s.len() > 0 && s.last() == '\n' {
        trimmed_len(s.drop_last())
    } else {
        s.len() as int
    }
}

/// The text without its trailing newlines.
pub open spec fn trim_newlines(s: Seq<char>) -> Seq<char> {
    s.take(trimmed_len(s))
}

/// Three full stops.
pub open spec fn ellipsis() -> Seq<char> {
    seq!['.', '.', '.']
}

/// A line as it is shown in a result: trailing newlines removed, and cut to
/// `PREVIEW_LIMIT` characters, the last three an ellipsis, when it is longer.
pub open spec fn preview_of(line: Seq<char>) -> Seq<char> {
    let t = trim_newlines(line);
    if t.len() > PREVIEW_LIMIT {
        t.take(PREVIEW_KEEP as int) + ellipsis()
    } else {
        t
    }
}

/// `needle` stands in `hay` at position `i`.
pub open spec fn occurs_at(needle: Seq<char>, hay: Seq<char>, i: int) -> bool {
    &&& 0 <= i
    &&& i + needle.len() <= hay.len()
    &&& hay.subrange(i, i + needle.len()) == needle
}

/// `needle` stands somewhere in `hay`.
pub open spec fn occurs_in(needle: Seq<char>, hay: Seq<char>) -> bool {
    exists|i: int| occurs_at(needle, hay, i)
}

/// Case-insensitive containment: the lowercase query stands in the
/// lowercase form of the text.
pub open spec fn matches_query(text: Seq<char>, query: Seq<char>) -> bool {
    occurs_in(query, lowercase_of(text))
}

/// Lexicographic order by code point, the order of `String`.
pub open spec fn lex_le(a: Seq<char>, b: Seq<char>) -> bool
    decreases a.len(),
{
    if a.len() == 0 {
        true
    } else if b.len() == 0 {
        false
    } else if a[0] != b[0] {
        (a[0] as u32) < (b[0] as u32)
    } else {
        lex_le(a.drop_first(), b.drop_first())
    }
}

/// The position just behind the last full stop, or 0 where there is none.
pub open spec fn last_dot(s: Seq<char>) -> int
    decreases s.len(),
{
    if s.len() == 0 {
        0
    } else if s.last() == '.' {
        s.len() as int
    } else {
        last_dot(s.drop_last())
    }
}

/// What follows the last full stop; the whole text where it has none.
pub open spec fn last_segment(s: Seq<char>) -> Seq<char> {
    s.skip(last_dot(s))
}

pub fn is_white_space(c: char) -> (r: bool)
    ensures
        r == is_space(c),
{
    let u: u32 = c as u32;
    (0x09 <= u && u <= 0x0D) || u == 0x20 || u == 0x85 || u == 0xA0 || u == 0x1680 || (0x2000 <= u
        && u <= 0x200A) || u == 0x2028 || u == 0x2029 || u == 0x202F || u == 0x205F || u == 0x3000
}

/// Whether a query is blank, as `is_blank` defines it.
pub fn blank(s: &str) -> (r: bool)
    ensures
        r == is_blank(s@),
{
    let chars = chars_of(s);
    let mut i: usize = 0;
    while i < chars.len()
        invariant
            i <= chars.len(),
            chars@ == s@,
            forall|k: int| 0 <= k < i ==> is_space(#[trigger] chars@[k]),
        decreases chars.len() - i,
    {
        if !is_white_space(chars[i]) {
            return false;
        }
        i += 1;
    }
    true
}

/// Where the line that starts at `from` stops.
pub fn find_line_stop(s: &Vec<char>, from: usize) -> (stop: usize)
    requires
        from <= s.len(),
    ensures
        stop == line_stop(s@, from as int),
        from <= stop <= s.len(),
{
    let mut i: usize = from;
    while i < s.len() && s[i] != '\n'
        invariant
            from <= i <= s.len(),
            line_stop(s@, from as int) == line_stop(s@, i as int),
        decreases s.len() - i,
    {
        i += 1;
    }
    i
}

/// The line that starts at `from`, and where it stops.
pub fn take_line(s: &Vec<char>, from: usize) -> (r: (String, usize))
    requires
        from <= s.len(),
    ensures
        r.0@ == line_at(s@, from as int),
        r.1 == line_stop(s@, from as int),
        from <= r.1 <= s.len(),
{
    let stop = find_line_stop(s, from);
    let end = if stop < s.len() && from < stop && s[stop - 1] == '\r' {
        stop - 1
    } else {
        stop
    };
    (text_of(slice_subrange(s.as_slice(), from, end)), stop)
}

/// The first line of a text.
pub fn first_line_of(s: &str) -> (r: String)
    ensures
        r@ == first_line(s@),
{
    let chars = chars_of(s);
    take_line(&chars, 0).0
}

/// The lines of a text, in order.
pub fn split_lines(s: &Vec<char>) -> (r: Vec<String>)
    ensures
        views(r@) == text_lines(s@),
{
    let mut out: Vec<String> = Vec::new();
    let mut from: usize = 0;
    while from < s.len()
        invariant
            from <= s.len(),
            views(out@) + lines_from(s@, from as int) == text_lines(s@),
        decreases s.len() - from,
    {
        let (line, stop) = take_line(s, from);
        proof {
            assert(views(out@.push(line)) == views(out@).push(line@));
            assert(views(out@).push(line@) + lines_from(s@, stop + 1) == views(out@) + lines_from(
                s@,
                from as int,
            ));
        }
        out.push(line);
        from = if stop < s.len() {
            stop + 1
        } else {
            stop
        };
    }
    out
}

/// The length of the text without its trailing newlines.
pub fn find_trimmed_len(s: &Vec<char>) -> (n: usize)
    ensures
        n == trimmed_len(s@),
        n <= s.len(),
{
    let mut n: usize = s.len();
    proof {
        assert(s@.take(s.len() as int) == s@);
    }
    while n > 0 && s[n - 1] == '\n'
        invariant
            n <= s.len(),
            trimmed_len(s@) == trimmed_len(s@.take(n as int)),
        decreases n,
    {
        proof {
            assert(s@.take(n as int).drop_last() == s@.take(n - 1));
        }
        n -= 1;
    }
    n
}

/// The text without its trailing newlines.
pub fn trim_line(s: &Vec<char>) -> (r: String)
    ensures
        r@ == trim_newlines(s@),
{
    let n = find_trimmed_len(s);
    text_of(slice_subrange(s.as_slice(), 0, n))
}

/// The preview of a line.
pub fn make_preview(line: &Vec<char>) -> (r: String)
    ensures
        r@ == preview_of(line@),
        r@.len() <= PREVIEW_LIMIT,
{
    let n = find_trimmed_len(line);
    if n > PREVIEW_LIMIT {
        let head = text_of(slice_subrange(line.as_slice(), 0, PREVIEW_KEEP));
        proof {
            reveal_strlit("...");
            assert("..."@ == ellipsis());
            assert(line@.subrange(0, PREVIEW_KEEP as int) == trim_newlines(line@).take(
                PREVIEW_KEEP as int,
            ));
        }
        head.concat("...")
    } else {
        text_of(slice_subrange(line.as_slice(), 0, n))
    }
}

/// Whether `needle` stands in `hay` at position `at`.
pub fn stands_at(needle: &Vec<char>, hay: &Vec<char>, at: usize) -> (r: bool)
    requires
        at + needle.len() <= hay.len(),
    ensures
        r == occurs_at(needle@, hay@, at as int),
{
    let mut k: usize = 0;
    while k < needle.len()
        invariant
            k <= needle.len(),
            at + needle.len() <= hay.len(),
            forall|j: int| 0 <= j < k ==> hay@[at + j] == needle@[j],
        decreases needle.len() - k,
    {
        if hay[at + k] != needle[k] {
            proof {
                assert(hay@.subrange(at as int, at + needle.len())[k as int] == hay@[at + k]);
            }
            return false;
        }
        k += 1;
    }
    proof {
        assert(hay@.subrange(at as int, at + needle.len()) =~= needle@);
    }
    true
}

/// Whether `needle` stands somewhere in `hay`.
pub fn contains_text(hay: &Vec<char>, needle: &Vec<char>) -> (r: bool)
    ensures
        r == occurs_in(needle@, hay@),
{
    if needle.len() > hay.len() {
        return false;
    }
    let last: usize = hay.len() - needle.len();
    let mut at: usize = 0;
    while at < last
        invariant
            last == hay.len() - needle.len(),
            needle.len() <= hay.len(),
            at <= last,
            forall|j: int| 0 <= j < at ==> !occurs_at(needle@, hay@, j),
        decreases last - at,
    {
        if stands_at(needle, hay, at) {
            return true;
        }
        at += 1;
    }
    stands_at(needle, hay, last)
}

/// Whether the lowercase query stands in the lowercase form of `text`.
pub fn text_matches(text: &str, query: &Vec<char>) -> (r: bool)
    ensures
        r == matches_query(text@, query@),
{
    let lower = lowercase(text);
    let chars = chars_of(lower.as_str());
    contains_text(&chars, query)
}

/// Whether `a` comes before `b`, or equals it, in lexicographic order.
pub fn lex_before(a: &Vec<char>, b: &Vec<char>) -> (r: bool)
    ensures
        r == lex_le(a@, b@),
{
    let mut i: usize = 0;
    proof {
        assert(a@.skip(0) == a@);
        assert(b@.skip(0) == b@);
    }
    while i < a.len() && i < b.len()
        invariant
            i <= a.len(),
            i <= b.len(),
            lex_le(a@, b@) == lex_le(a@.skip(i as int), b@.skip(i as int)),
        decreases a.len() - i,
    {
        proof {
            assert(a@.skip(i as int).drop_first() == a@.skip(i + 1));
            assert(b@.skip(i as int).drop_first() == b@.skip(i + 1));
        }
        if a[i] != b[i] {
            return (a[i] as u32) < (b[i] as u32);
        }
        i += 1;
    }
    i == a.len()
}

/// The position just behind the last full stop.
pub fn find_last_dot(s: &Vec<char>) -> (n: usize)
    ensures
        n == last_dot(s@),
        n <= s.len(),
{
    let mut n: usize = s.len();
    proof {
        assert(s@.take(s.len() as int) == s@);
    }
    while n > 0 && s[n - 1] != '.'
        invariant
            n <= s.len(),
            last_dot(s@) == last_dot(s@.take(n as int)),
        decreases n,
    {
        proof {
            assert(s@.take(n as int).drop_last() == s@.take(n - 1));
        }
        n -= 1;
    }
    n
}

} // verus!
