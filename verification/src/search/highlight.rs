//! The marking of search terms.

use crate::style::{paint, Style};
#[allow(unused_imports)]
use crate::style::painted;
use crate::text::{is_blank, join, put, trim};
#[allow(unused_imports)]
use crate::text::{joined, texts, trimmed};
#[allow(unused_imports)]
use crate::ui::progress::{lemma_seen_painted, lemma_seen_plain, seen, unescaped};
use vstd::prelude::*;
#[allow(unused_imports)]
use vstd::utf8::{decode_utf8, encode_utf8, is_char_boundary, valid_utf8};

verus! {

/// A character that means something else than itself in a pattern.
pub open spec fn is_meta(c: char) -> bool {
    c == '\\' || c == '.' || c == '+' || c == '*' || c == '?' || c == '(' || c == ')' || c == '|' || c
        == '[' || c == ']' || c == '{' || c == '}' || c == '^' || c == '$' || c == '#' || c == '&'
        || c == '-' || c == '~'
}

/// A text as a pattern that stands for itself.
pub open spec fn escaped(s: Seq<char>) -> Seq<char>
    decreases s.len(),
{
    if s.len() == 0 {
        seq![]
    } else if is_meta(s.last()) {
        escaped(s.drop_last()).push('\\').push(s.last())
    } else {
        escaped(s.drop_last()).push(s.last())
    }
}

/// `escape` of the crate regex puts a backslash before each character that means something else
/// than itself in a pattern.
pub assume_specification[ regex::escape ](pattern: &str) -> (r: String)
    ensures
        r@ == escaped(pattern@),
;

/// Where a pattern matches a text, whatever the case of its letters: the bytes at which each
/// match starts and ends. There are none where the pattern is not valid.
pub uninterp spec fn matches_in(pattern: Seq<char>, text: Seq<char>) -> Option<Seq<(usize, usize)>>;

/// Matches that follow one another, each within the text and made of whole characters.
pub open spec fn in_sequence(found: Seq<(usize, usize)>, bytes: Seq<u8>, from: int) -> bool {
    &&& forall|k: int|
        0 <= k < found.len() ==> from <= (#[trigger] found[k]).0 <= found[k].1 <= bytes.len()
            && is_char_boundary(bytes, found[k].0 as int) && is_char_boundary(
            bytes,
            found[k].1 as int,
        )
    &&& forall|j: int, k: int|
        0 <= j < k < found.len() ==> (#[trigger] found[j]).1 <= (#[trigger] found[k]).0
}

/// `RegexBuilder::build`, case-insensitive, and `Regex::find_iter` of the crate regex: the places
/// of all matches, where the pattern is valid. The result depends on the pattern and the text
/// alone. Matches do not overlap, come in the order of the text, and start and end between
/// characters.
#[verifier::external_body]
fn find_all(pattern: &str, text: &str) -> (r: Option<Vec<(usize, usize)>>)
    ensures
        match r {
            Some(found) => matches_in(pattern@, text@) == Some(found@) && in_sequence(
                found@,
                encode_utf8(text@),
                0,
            ),
            None => matches_in(pattern@, text@) is None,
        },
{
    let re = regex::RegexBuilder::new(pattern).case_insensitive(true).build().ok()?;
    Some(re.find_iter(text).map(|m| (m.start(), m.end())).collect())
}

/// The characters between two bytes of a text.
pub open spec fn piece(bytes: Seq<u8>, from: int, to: int) -> Seq<char> {
    decode_utf8(bytes.subrange(from, to))
}

/// How text and matches are marked.
#[derive(Debug, Clone, Copy, PartialEq, Eq, Structural)]
pub struct Marking {
    /// The style of the text; matches are only made bold where there are no colours.
    pub base: Style,
    /// The style of matches.
    pub hi: Style,
    pub color_on: bool,
}

/// A piece between matches.
pub open spec fn marked_text(m: Marking, s: Seq<char>) -> Seq<char> {
    if m.color_on {
        painted(m.base, s)
    } else {
        s
    }
}

/// A match.
pub open spec fn marked_match(m: Marking, s: Seq<char>) -> Seq<char> {
    if m.color_on {
        painted(m.hi, s)
    } else {
        painted(Style { foreground: None, bold: true, dimmed: false }, s)
    }
}

/// The text before the `n`th match, with the matches before it marked, up to the end of the last
/// of them.
pub open spec fn marked_upto(m: Marking, bytes: Seq<u8>, found: Seq<(usize, usize)>, n: int) -> Seq<
    char,
>
    decreases n,
{
    if n <= 0 {
        seq![]
    } else {
        marked_upto(m, bytes, found, n - 1) + marked_text(
            m,
            piece(bytes, end_of(found, n - 1), found[n - 1].0 as int),
        ) + marked_match(m, piece(bytes, found[n - 1].0 as int, found[n - 1].1 as int))
    }
}

/// The byte after the first `n` matches.
pub open spec fn end_of(found: Seq<(usize, usize)>, n: int) -> int {
    if n <= 0 {
        0
    } else {
        found[n - 1].1 as int
    }
}

/// A text with its matches marked.
pub open spec fn marked(m: Marking, text: Seq<char>, found: Seq<(usize, usize)>) -> Seq<char> {
    let bytes = encode_utf8(text);
    let n = found.len() as int;
    marked_upto(m, bytes, found, n) + marked_text(
        m,
        piece(bytes, end_of(found, n), bytes.len() as int),
    )
}

proof fn lemma_boundary(bytes: Seq<u8>, a: int, b: int)
    requires
        valid_utf8(bytes),
        0 <= a <= b <= bytes.len(),
        is_char_boundary(bytes, a),
        is_char_boundary(bytes, b),
    ensures
        valid_utf8(bytes.subrange(0, b)),
        is_char_boundary(bytes.subrange(0, b), a),
{
    vstd::utf8::valid_utf8_split(bytes, b);
    let front = bytes.subrange(0, b);
    if a == b {
        vstd::utf8::is_char_boundary_start_end_of_seq(front);
    } else {
        vstd::utf8::is_char_boundary_iff_not_is_continuation_byte(bytes, a);
        vstd::utf8::is_char_boundary_iff_not_is_continuation_byte(front, a);
        assert(front[a] == bytes[a]);
    }
}

/// The characters between two bytes of a text.
fn cut(text: &str, from: usize, to: usize) -> (r: String)
    requires
        from <= to <= encode_utf8(text@).len(),
        is_char_boundary(encode_utf8(text@), from as int),
        is_char_boundary(encode_utf8(text@), to as int),
    ensures
        r@ == piece(encode_utf8(text@), from as int, to as int),
{
    let ghost bytes = encode_utf8(text@);
    proof {
        vstd::utf8::encode_utf8_valid_utf8(text@);
        lemma_boundary(bytes, from as int, to as int);
    }
    let (front, _) = text.split_at(to);
    let (_, middle) = front.split_at(from);
    proof {
        assert(encode_utf8(middle@) =~= bytes.subrange(from as int, to as int));
        vstd::utf8::encode_utf8_decode_utf8(middle@);
    }
    middle.to_owned()
}

fn mark_text(m: Marking, s: &str) -> (r: String)
    ensures
        r@ == marked_text(m, s@),
{
    if m.color_on {
        paint(m.base, s)
    } else {
        s.to_owned()
    }
}

fn mark_match(m: Marking, s: &str) -> (r: String)
    ensures
        r@ == marked_match(m, s@),
{
    if m.color_on {
        paint(m.hi, s)
    } else {
        paint(Style { foreground: None, bold: true, dimmed: false }, s)
    }
}

/// A text with the matches at these places marked.
pub fn mark(m: Marking, text: &str, found: &Vec<(usize, usize)>) -> (r: String)
    requires
        in_sequence(found@, encode_utf8(text@), 0),
    ensures
        r@ == marked(m, text@, found@),
{
    let ghost bytes = encode_utf8(text@);
    let mut out = String::new();
    let mut last: usize = 0;
    let mut k: usize = 0;
    proof {
        vstd::utf8::encode_utf8_valid_utf8(text@);
        vstd::utf8::is_char_boundary_start_end_of_seq(bytes);
    }
    assert(out@ =~= seq![]);
    while k < found.len()
        invariant
            k <= found@.len(),
            bytes == encode_utf8(text@),
            valid_utf8(bytes),
            in_sequence(found@, bytes, 0),
            last == end_of(found@, k as int),
            last <= bytes.len(),
            is_char_boundary(bytes, last as int),
            out@ == marked_upto(m, bytes, found@, k as int),
        decreases found.len() - k,
    {
        let (start, end) = found[k];
        proof {
            assert(found@[k as int].0 == start);
            if k > 0 {
                assert(found@[k - 1].1 <= found@[k as int].0);
            }
        }
        put(&mut out, mark_text(m, cut(text, last, start).as_str()).as_str());
        put(&mut out, mark_match(m, cut(text, start, end).as_str()).as_str());
        last = end;
        k += 1;
    }
    let whole = text.as_bytes().len();
    proof {
        vstd::utf8::is_char_boundary_start_end_of_seq(bytes);
    }
    put(&mut out, mark_text(m, cut(text, last, whole).as_str()).as_str());
    out
}

/// The terms that are searched for, as patterns that stand for themselves; blank ones are left
/// out.
pub open spec fn term_patterns(terms: Seq<Seq<char>>) -> Seq<Seq<char>>
    decreases terms.len(),
{
    if terms.len() == 0 {
        seq![]
    } else if trimmed(terms.last()).len() == 0 {
        term_patterns(terms.drop_last())
    } else {
        term_patterns(terms.drop_last()).push(escaped(trimmed(terms.last())))
    }
}

/// The pattern for any of the terms.
pub open spec fn any_pattern(patterns: Seq<Seq<char>>) -> Seq<char> {
    "("@ + joined(patterns, "|"@) + ")"@
}

/// A text with the terms marked in it. Without terms, or without a valid pattern, nothing is
/// marked.
pub open spec fn highlighted(m: Marking, text: Seq<char>, terms: Seq<Seq<char>>) -> Seq<char> {
    let patterns = term_patterns(terms);
    if patterns.len() == 0 {
        marked_text(m, text)
    } else {
        match matches_in(any_pattern(patterns), text) {
            Some(found) => marked(m, text, found),
            None => marked_text(m, text),
        }
    }
}

fn patterns_of(terms: &Vec<String>) -> (r: Vec<String>)
    ensures
        texts(r@) == term_patterns(texts(terms@)),
{
    let mut out: Vec<String> = Vec::new();
    let mut i: usize = 0;
    let ghost all = texts(terms@);
    assert(all.take(0) =~= seq![]);
    assert(texts(out@) =~= seq![]);
    while i < terms.len()
        invariant
            i <= terms.len(),
            all == texts(terms@),
            texts(out@) == term_patterns(all.take(i as int)),
        decreases terms.len() - i,
    {
        assert(all.take(i + 1).drop_last() =~= all.take(i as int));
        let ghost so_far = out@;
        let term = trim(terms[i].as_str());
        if !is_blank(term.as_str()) {
            out.push(regex::escape(term.as_str()));
            assert(texts(out@) =~= texts(so_far).push(escaped(trimmed(terms@[i as int]@))));
        }
        i += 1;
    }
    assert(all.take(i as int) =~= all);
    out
}

/// A text with the search terms marked, whatever the case of their letters.
pub fn highlight_terms(text: &str, terms: &Vec<String>, base: Style, hi: Style, color_on: bool) -> (r:
    String)
    ensures
        r@ == highlighted(Marking { base, hi, color_on }, text@, texts(terms@)),
        unescaped(text@) ==> seen(r@) == text@,
{
    let m = Marking { base, hi, color_on };
    proof {
        if unescaped(text@) {
            lemma_seen_text(m, text@, seq![]);
            assert(marked_text(m, text@) + Seq::<char>::empty() =~= marked_text(m, text@));
            assert(text@ + seen(seq![]) =~= text@);
        }
    }
    let patterns = patterns_of(terms);
    assert(texts(patterns@).len() == patterns@.len());
    if patterns.len() == 0 {
        return mark_text(m, text);
    }
    let mut pattern = "(".to_owned();
    put(&mut pattern, join(&patterns, "|").as_str());
    put(&mut pattern, ")");
    match find_all(pattern.as_str(), text) {
        Some(found) => {
            proof {
                if unescaped(text@) {
                    marking_is_unseen(m, text@, found@);
                }
            }
            mark(m, text, &found)
        },
        None => mark_text(m, text),
    }
}

proof fn lemma_pieces(bytes: Seq<u8>, a: int, b: int, c: int)
    requires
        valid_utf8(bytes),
        0 <= a <= b <= c <= bytes.len(),
        is_char_boundary(bytes, a),
        is_char_boundary(bytes, b),
        is_char_boundary(bytes, c),
    ensures
        piece(bytes, a, c) == piece(bytes, a, b) + piece(bytes, b, c),
{
    lemma_boundary(bytes, a, c);
    lemma_boundary(bytes, b, c);
    let front = bytes.subrange(0, c);
    lemma_boundary(front, a, b);
    vstd::utf8::decode_utf8_split(front, a);
    vstd::utf8::decode_utf8_split(front, b);
    let head = front.subrange(0, b);
    vstd::utf8::decode_utf8_split(head, a);
    assert(head.subrange(0, a) =~= front.subrange(0, a));
    assert(head.subrange(a, b) =~= bytes.subrange(a, b));
    assert(front.subrange(a, c) =~= bytes.subrange(a, c));
    assert(front.subrange(b, c) =~= bytes.subrange(b, c));
    let x = decode_utf8(front.subrange(0, a));
    assert(x + piece(bytes, a, c) =~= x + (piece(bytes, a, b) + piece(bytes, b, c)));
    assert((x + piece(bytes, a, c)).skip(x.len() as int) =~= piece(bytes, a, c));
    assert((x + (piece(bytes, a, b) + piece(bytes, b, c))).skip(x.len() as int) =~= piece(
        bytes,
        a,
        b,
    ) + piece(bytes, b, c));
}

/// What is marked with a style that changes nothing.
pub open spec fn unmarked(bytes: Seq<u8>, found: Seq<(usize, usize)>, n: int) -> Seq<char>
    decreases n,
{
    if n <= 0 {
        seq![]
    } else {
        unmarked(bytes, found, n - 1) + piece(bytes, end_of(found, n - 1), found[n - 1].0 as int)
            + piece(bytes, found[n - 1].0 as int, found[n - 1].1 as int)
    }
}

proof fn lemma_unmarked(bytes: Seq<u8>, found: Seq<(usize, usize)>, n: int)
    requires
        valid_utf8(bytes),
        in_sequence(found, bytes, 0),
        0 <= n <= found.len(),
    ensures
        unmarked(bytes, found, n) == piece(bytes, 0, end_of(found, n)),
        0 <= end_of(found, n) <= bytes.len(),
        is_char_boundary(bytes, end_of(found, n)),
    decreases n,
{
    vstd::utf8::is_char_boundary_start_end_of_seq(bytes);
    if n > 0 {
        lemma_unmarked(bytes, found, n - 1);
        let m = found[n - 1];
        if n > 1 {
            assert(found[n - 2].1 <= found[n - 1].0);
        }
        let e = end_of(found, n - 1);
        lemma_pieces(bytes, 0, e, m.0 as int);
        lemma_pieces(bytes, 0, m.0 as int, m.1 as int);
    } else {
        assert(bytes.subrange(0, 0) =~= seq![]);
        assert(decode_utf8(seq![]) =~= seq![]);
    }
}

/// Nothing of a text is lost or moved by the marking: the pieces between the matches and the
/// matches themselves, one after the other, are the text.
pub proof fn marking_keeps_the_text(text: Seq<char>, found: Seq<(usize, usize)>)
    requires
        in_sequence(found, encode_utf8(text), 0),
    ensures
        ({
            let bytes = encode_utf8(text);
            let n = found.len() as int;
            unmarked(bytes, found, n) + piece(bytes, end_of(found, n), bytes.len() as int) == text
        }),
{
    let bytes = encode_utf8(text);
    let n = found.len() as int;
    vstd::utf8::encode_utf8_valid_utf8(text);
    vstd::utf8::is_char_boundary_start_end_of_seq(bytes);
    lemma_unmarked(bytes, found, n);
    lemma_pieces(bytes, 0, end_of(found, n), bytes.len() as int);
    assert(bytes.subrange(0, bytes.len() as int) =~= bytes);
    vstd::utf8::encode_utf8_decode_utf8(text);
}

proof fn lemma_seen_text(m: Marking, s: Seq<char>, rest: Seq<char>)
    requires
        unescaped(s),
    ensures
        seen(marked_text(m, s) + rest) == s + seen(rest),
        seen(marked_match(m, s) + rest) == s + seen(rest),
{
    lemma_seen_plain(s, rest);
    lemma_seen_painted(m.base, s, rest);
    lemma_seen_painted(m.hi, s, rest);
    lemma_seen_painted(Style { foreground: None, bold: true, dimmed: false }, s, rest);
}

proof fn lemma_piece_unescaped(text: Seq<char>, a: int, b: int)
    requires
        unescaped(text),
        0 <= a <= b <= encode_utf8(text).len(),
        is_char_boundary(encode_utf8(text), a),
        is_char_boundary(encode_utf8(text), b),
    ensures
        unescaped(piece(encode_utf8(text), a, b)),
{
    let bytes = encode_utf8(text);
    let end = bytes.len() as int;
    vstd::utf8::encode_utf8_valid_utf8(text);
    vstd::utf8::encode_utf8_decode_utf8(text);
    vstd::utf8::is_char_boundary_start_end_of_seq(bytes);
    lemma_pieces(bytes, 0, a, end);
    lemma_pieces(bytes, a, b, end);
    assert(bytes.subrange(0, end) =~= bytes);
    let (x, y, z) = (piece(bytes, 0, a), piece(bytes, a, b), piece(bytes, b, end));
    assert(text == x + (y + z));
    assert forall|i: int| 0 <= i < y.len() implies #[trigger] y[i] != '\x1b' by {
        assert(text[x.len() + i] == y[i]);
    }
}

proof fn lemma_seen_upto(
    m: Marking,
    text: Seq<char>,
    found: Seq<(usize, usize)>,
    n: int,
    rest: Seq<char>,
)
    requires
        unescaped(text),
        in_sequence(found, encode_utf8(text), 0),
        0 <= n <= found.len(),
    ensures
        seen(marked_upto(m, encode_utf8(text), found, n) + rest) == unmarked(
            encode_utf8(text),
            found,
            n,
        ) + seen(rest),
    decreases n,
{
    let bytes = encode_utf8(text);
    if n > 0 {
        vstd::utf8::encode_utf8_valid_utf8(text);
        lemma_unmarked(bytes, found, n - 1);
        let (start, end) = (found[n - 1].0 as int, found[n - 1].1 as int);
        let from = end_of(found, n - 1);
        if n > 1 {
            assert(found[n - 2].1 <= found[n - 1].0);
        }
        lemma_piece_unescaped(text, from, start);
        lemma_piece_unescaped(text, start, end);
        let (a, b) = (piece(bytes, from, start), piece(bytes, start, end));
        let tail = marked_match(m, b) + rest;
        lemma_seen_text(m, b, rest);
        lemma_seen_text(m, a, tail);
        lemma_seen_upto(m, text, found, n - 1, marked_text(m, a) + tail);
        assert(marked_upto(m, bytes, found, n) + rest =~= marked_upto(m, bytes, found, n - 1) + (
        marked_text(m, a) + tail));
        assert(unmarked(bytes, found, n) + seen(rest) =~= unmarked(bytes, found, n - 1) + (a + (b
            + seen(rest))));
    } else {
        assert(marked_upto(m, bytes, found, n) + rest =~= rest);
        assert(unmarked(bytes, found, n) + seen(rest) =~= seen(rest));
    }
}

/// What is seen of a text with its matches marked is the text itself, with colours and without.
pub proof fn marking_is_unseen(m: Marking, text: Seq<char>, found: Seq<(usize, usize)>)
    requires
        unescaped(text),
        in_sequence(found, encode_utf8(text), 0),
    ensures
        seen(marked(m, text, found)) == text,
{
    let bytes = encode_utf8(text);
    let n = found.len() as int;
    let nothing = Seq::<char>::empty();
    vstd::utf8::encode_utf8_valid_utf8(text);
    vstd::utf8::is_char_boundary_start_end_of_seq(bytes);
    lemma_unmarked(bytes, found, n);
    lemma_piece_unescaped(text, end_of(found, n), bytes.len() as int);
    let last = piece(bytes, end_of(found, n), bytes.len() as int);
    lemma_seen_upto(m, text, found, n, marked_text(m, last));
    lemma_seen_text(m, last, nothing);
    assert(marked_text(m, last) + nothing =~= marked_text(m, last));
    assert(last + seen(nothing) =~= last);
    marking_keeps_the_text(text, found);
}

} // verus!
