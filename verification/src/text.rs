//! Text as sequences of characters: searching, cutting and joining.

use vstd::prelude::*;
#[allow(unused_imports)]
use vstd::string::StringExecFns;
#[allow(unused_imports)]
use vstd::utf8::{decode_utf8, valid_utf8};

verus! {

/// `String::push` of the standard library appends one character.
pub assume_specification[ String::push ](s: &mut String, c: char)
    ensures
        final(s)@ == old(s)@.push(c),
;

/// The contents of a list of strings.
pub open spec fn texts(list: Seq<String>) -> Seq<Seq<char>> {
    list.map_values(|s: String| s@)
}

/// The content of an optional string.
pub open spec fn opt_text(s: Option<String>) -> Option<Seq<char>> {
    match s {
        Some(t) => Some(t@),
        None => None,
    }
}

/// The content of an optional borrowed string.
pub open spec fn opt_str(s: Option<&str>) -> Option<Seq<char>> {
    match s {
        Some(t) => Some(t@),
        None => None,
    }
}

/// `c` repeated `n` times.
pub open spec fn repeated(c: char, n: nat) -> Seq<char> {
    Seq::new(n, |i: int| c)
}

/// The characters with Unicode's `White_Space` property.
pub open spec fn is_space(c: char) -> bool {
    ||| '\u{9}' <= c <= '\u{d}'
    ||| c == ' '
    ||| c == '\u{85}'
    ||| c == '\u{a0}'
    ||| c == '\u{1680}'
    ||| '\u{2000}' <= c <= '\u{200a}'
    ||| c == '\u{2028}'
    ||| c == '\u{2029}'
    ||| c == '\u{202f}'
    ||| c == '\u{205f}'
    ||| c == '\u{3000}'
}

/// The control characters: Unicode's general category `Cc`.
pub open spec fn is_control(c: char) -> bool {
    c <= '\u{1f}' || '\u{7f}' <= c <= '\u{9f}'
}

/// The lower-case form of an ASCII letter; any other character as it is.
pub open spec fn ascii_lower(c: char) -> char {
    if 'A' <= c <= 'Z' {
        ((c as u32) + 32) as char
    } else {
        c
    }
}

/// A kind of character, for runs of that kind.
#[derive(Clone, Copy, PartialEq, Eq, Structural)]
pub enum Run {
    /// White space.
    Space,
    /// Anything but white space.
    Word,
    /// This one character.
    Only(char),
    /// Anything but this character.
    Except(char),
}

/// Whether `c` is of the kind `run`.
pub open spec fn fits(run: Run, c: char) -> bool {
    match run {
        Run::Space => is_space(c),
        Run::Word => !is_space(c),
        Run::Only(d) => c == d,
        Run::Except(d) => c != d,
    }
}

/// How many characters at the start of `s` are of the kind `run`.
pub open spec fn leading(s: Seq<char>, run: Run) -> int
    decreases s.len(),
{
    if s.len() == 0 || !fits(run, s[0]) {
        0
    } else {
        1 + leading(s.skip(1), run)
    }
}

/// How many characters at the end of `s` are of the kind `run`.
pub open spec fn trailing(s: Seq<char>, run: Run) -> int
    decreases s.len(),
{
    if s.len() == 0 || !fits(run, s.last()) {
        0
    } else {
        1 + trailing(s.drop_last(), run)
    }
}

pub proof fn lemma_leading(s: Seq<char>, run: Run)
    ensures
        0 <= leading(s, run) <= s.len(),
        forall|i: int| 0 <= i < leading(s, run) ==> fits(run, #[trigger] s[i]),
        leading(s, run) < s.len() ==> !fits(run, s[leading(s, run)]),
    decreases s.len(),
{
    if s.len() > 0 && fits(run, s[0]) {
        lemma_leading(s.skip(1), run);
        assert forall|i: int| 0 <= i < leading(s, run) implies fits(run, #[trigger] s[i]) by {
            if i > 0 {
                assert(s[i] == s.skip(1)[i - 1]);
            }
        }
    }
}

/// The length of the leading run is the only number with these properties.
pub proof fn lemma_leading_is(s: Seq<char>, run: Run, n: int)
    requires
        0 <= n <= s.len(),
        forall|i: int| 0 <= i < n ==> fits(run, #[trigger] s[i]),
        n < s.len() ==> !fits(run, s[n]),
    ensures
        leading(s, run) == n,
{
    lemma_leading(s, run);
    let m = leading(s, run);
    if m < n {
        assert(fits(run, s[m]));
    } else if n < m {
        assert(fits(run, s[n]));
    }
}

pub proof fn lemma_trailing(s: Seq<char>, run: Run)
    ensures
        0 <= trailing(s, run) <= s.len(),
        forall|i: int| s.len() - trailing(s, run) <= i < s.len() ==> fits(run, #[trigger] s[i]),
        trailing(s, run) < s.len() ==> !fits(run, s[s.len() - 1 - trailing(s, run)]),
    decreases s.len(),
{
    if s.len() > 0 && fits(run, s.last()) {
        lemma_trailing(s.drop_last(), run);
        assert forall|i: int| s.len() - trailing(s, run) <= i < s.len() implies fits(
            run,
            #[trigger] s[i],
        ) by {
            if i < s.len() - 1 {
                assert(s[i] == s.drop_last()[i]);
            }
        }
    }
}

/// The length of the trailing run is the only number with these properties.
pub proof fn lemma_trailing_is(s: Seq<char>, run: Run, n: int)
    requires
        0 <= n <= s.len(),
        forall|i: int| s.len() - n <= i < s.len() ==> fits(run, #[trigger] s[i]),
        n < s.len() ==> !fits(run, s[s.len() - 1 - n]),
    ensures
        trailing(s, run) == n,
{
    lemma_trailing(s, run);
    let m = trailing(s, run);
    if m < n {
        assert(fits(run, s[s.len() - 1 - m]));
    } else if n < m {
        assert(fits(run, s[s.len() - 1 - n]));
    }
}

/// `s` without white space at its start.
pub open spec fn trim_start(s: Seq<char>) -> Seq<char> {
    s.skip(leading(s, Run::Space))
}

/// `s` without white space at its end.
pub open spec fn trim_end(s: Seq<char>) -> Seq<char> {
    s.take(s.len() - trailing(s, Run::Space))
}

/// `s` without white space around it.
pub open spec fn trimmed(s: Seq<char>) -> Seq<char> {
    trim_end(trim_start(s))
}

/// `s` without the trailing characters `c`.
pub open spec fn trim_end_char(s: Seq<char>, c: char) -> Seq<char> {
    s.take(s.len() - trailing(s, Run::Only(c)))
}

/// Whether `p` occurs in `s` at position `i`.
pub open spec fn occurs_at(s: Seq<char>, p: Seq<char>, i: int) -> bool {
    0 <= i && i + p.len() <= s.len() && s.subrange(i, i + p.len()) == p
}

/// Whether `p` occurs anywhere in `s`.
pub open spec fn mentions(s: Seq<char>, p: Seq<char>) -> bool {
    exists|i: int| occurs_at(s, p, i)
}

/// Whether `i` is where `p` first occurs in `s`.
pub open spec fn first_at(s: Seq<char>, p: Seq<char>, i: int) -> bool {
    occurs_at(s, p, i) && forall|j: int| 0 <= j < i ==> !occurs_at(s, p, j)
}

/// The part of `s` before the first occurrence of `p`; all of `s` where there is none.
pub open spec fn before(s: Seq<char>, p: Seq<char>) -> Seq<char> {
    if mentions(s, p) {
        s.take(choose|i: int| first_at(s, p, i))
    } else {
        s
    }
}

/// The two parts of `s` around the first `c`.
pub open spec fn split_once(s: Seq<char>, c: char) -> Option<(Seq<char>, Seq<char>)> {
    let n = leading(s, Run::Except(c));
    if n < s.len() {
        Some((s.take(n), s.skip(n + 1)))
    } else {
        None
    }
}

/// The part of `s` after the last `c`; all of `s` where there is none.
pub open spec fn after_last(s: Seq<char>, c: char) -> Seq<char> {
    s.skip(s.len() - trailing(s, Run::Except(c)))
}

/// The words of `s`: the longest runs of characters that are no white space.
pub open spec fn words(s: Seq<char>) -> Seq<Seq<char>>
    decreases s.len(),
{
    if s.len() == 0 {
        seq![]
    } else if is_space(s[0]) {
        words(s.skip(1))
    } else {
        let n = leading(s, Run::Word);
        proof {
            lemma_leading(s, Run::Word);
        }
        seq![s.take(n)] + words(s.skip(n))
    }
}

/// `s` cut at every `c`; one part more than there are `c`.
pub open spec fn split_char(s: Seq<char>, c: char) -> Seq<Seq<char>>
    decreases s.len(),
{
    let n = leading(s, Run::Except(c));
    proof {
        lemma_leading(s, Run::Except(c));
    }
    if n < s.len() {
        seq![s.take(n)] + split_char(s.skip(n + 1), c)
    } else {
        seq![s]
    }
}

/// A line without the carriage return at its end.
pub open spec fn without_cr(line: Seq<char>) -> Seq<char> {
    if line.len() > 0 && line.last() == '\r' {
        line.drop_last()
    } else {
        line
    }
}

/// The lines of `s`: each ends in `\n` or `\r\n`, and the last may end with the text.
pub open spec fn lines(s: Seq<char>) -> Seq<Seq<char>>
    decreases s.len(),
{
    if s.len() == 0 {
        seq![]
    } else {
        let n = leading(s, Run::Except('\n'));
        proof {
            lemma_leading(s, Run::Except('\n'));
        }
        if n < s.len() {
            seq![without_cr(s.take(n))] + lines(s.skip(n + 1))
        } else {
            seq![s]
        }
    }
}

/// `s` with every occurrence of `from`, taken from the left without overlap, put as `to`.
pub open spec fn replaced(s: Seq<char>, from: Seq<char>, to: Seq<char>) -> Seq<char>
    decreases s.len(),
{
    if from.len() == 0 || s.len() < from.len() {
        s
    } else if occurs_at(s, from, 0) {
        to + replaced(s.skip(from.len() as int), from, to)
    } else {
        seq![s[0]] + replaced(s.skip(1), from, to)
    }
}

/// The parts one after the other, with `sep` between each two.
pub open spec fn joined(parts: Seq<Seq<char>>, sep: Seq<char>) -> Seq<char>
    decreases parts.len(),
{
    if parts.len() == 0 {
        seq![]
    } else if parts.len() == 1 {
        parts[0]
    } else {
        joined(parts.drop_last(), sep) + sep + parts.last()
    }
}

/// Appends `s` to `out`.
pub fn put(out: &mut String, s: &str)
    ensures
        final(out)@ == old(out)@ + s@,
{
    out.append(s);
}

/// The characters of `s`.
pub fn chars_of(s: &str) -> (r: Vec<char>)
    ensures
        r@ == s@,
{
    let mut out: Vec<char> = Vec::new();
    for c in it: s.chars()
        invariant
            it.seq() == s@,
            out@ == s@.take(it.index() as int),
    {
        proof {
            assert(s@.take(it.index() + 1) =~= s@.take(it.index() as int).push(c));
        }
        out.push(c);
    }
    assert(s@.take(s@.len() as int) =~= s@);
    out
}

/// The characters from `a` to `b` as a string.
pub fn string_of(v: &Vec<char>, a: usize, b: usize) -> (r: String)
    requires
        a <= b <= v.len(),
    ensures
        r@ == v@.subrange(a as int, b as int),
{
    let mut out = String::new();
    let mut i: usize = a;
    while i < b
        invariant
            a <= i <= b <= v.len(),
            out@ == v@.subrange(a as int, i as int),
        decreases b - i,
    {
        out.push(v[i]);
        i += 1;
        assert(v@.subrange(a as int, i as int) =~= v@.subrange(a as int, i - 1).push(v[i - 1]));
    }
    out
}

/// Whether the two texts are the same.
pub fn same(a: &str, b: &str) -> (r: bool)
    ensures
        r == (a@ == b@),
{
    a.to_owned() == b.to_owned()
}

/// `n` copies of `c`.
pub fn repeat(c: char, n: usize) -> (r: String)
    ensures
        r@ == repeated(c, n as nat),
{
    let mut out = String::new();
    let mut i: usize = 0;
    while i < n
        invariant
            i <= n,
            out@ =~= repeated(c, i as nat),
        decreases n - i,
    {
        out.push(c);
        i += 1;
    }
    out
}

/// Whether a character is white space.
pub fn is_space_char(c: char) -> (r: bool)
    ensures
        r == is_space(c),
{
    ('\u{9}' <= c && c <= '\u{d}') || c == ' ' || c == '\u{85}' || c == '\u{a0}' || c == '\u{1680}'
        || ('\u{2000}' <= c && c <= '\u{200a}') || c == '\u{2028}' || c == '\u{2029}' || c
        == '\u{202f}' || c == '\u{205f}' || c == '\u{3000}'
}

/// Whether a character is a control character.
pub fn is_control_char(c: char) -> (r: bool)
    ensures
        r == is_control(c),
{
    c <= '\u{1f}' || ('\u{7f}' <= c && c <= '\u{9f}')
}

fn fits_run(run: Run, c: char) -> (r: bool)
    ensures
        r == fits(run, c),
{
    match run {
        Run::Space => is_space_char(c),
        Run::Word => !is_space_char(c),
        Run::Only(d) => c == d,
        Run::Except(d) => c != d,
    }
}

/// Where the run that starts at `from` ends.
pub fn run_end(v: &Vec<char>, from: usize, run: Run) -> (r: usize)
    requires
        from <= v.len(),
    ensures
        from <= r <= v.len(),
        r == from + leading(v@.skip(from as int), run),
{
    let mut i: usize = from;
    while i < v.len() && fits_run(run, v[i])
        invariant
            from <= i <= v.len(),
            forall|k: int| from <= k < i ==> fits(run, #[trigger] v@[k]),
        decreases v.len() - i,
    {
        i += 1;
    }
    proof {
        let s = v@.skip(from as int);
        assert forall|k: int| 0 <= k < i - from implies fits(run, #[trigger] s[k]) by {
            assert(s[k] == v@[from + k]);
        }
        lemma_leading_is(s, run, i - from);
    }
    i
}

/// Where the run that ends at `to` starts.
pub fn run_start(v: &Vec<char>, to: usize, run: Run) -> (r: usize)
    requires
        to <= v.len(),
    ensures
        r <= to,
        r == to - trailing(v@.take(to as int), run),
{
    let mut i: usize = to;
    while i > 0 && fits_run(run, v[i - 1])
        invariant
            i <= to <= v.len(),
            forall|k: int| i <= k < to ==> fits(run, #[trigger] v@[k]),
        decreases i,
    {
        i -= 1;
    }
    proof {
        let s = v@.take(to as int);
        assert forall|k: int| s.len() - (to - i) <= k < s.len() implies fits(run, #[trigger] s[k]) by {
            assert(s[k] == v@[k]);
        }
        lemma_trailing_is(s, run, to - i);
    }
    i
}

/// The text without white space around it.
pub fn trim(s: &str) -> (r: String)
    ensures
        r@ == trimmed(s@),
{
    let v = chars_of(s);
    let a = run_end(&v, 0, Run::Space);
    assert(v@.skip(0) =~= v@);
    let rest = chars_of(string_of(&v, a, v.len()).as_str());
    assert(rest@ =~= trim_start(s@));
    let b = run_start(&rest, rest.len(), Run::Space);
    assert(rest@.take(rest@.len() as int) =~= rest@);
    string_of(&rest, 0, b)
}

/// The text without white space at its end.
pub fn trim_tail(s: &str) -> (r: String)
    ensures
        r@ == trim_end(s@),
{
    let v = chars_of(s);
    let b = run_start(&v, v.len(), Run::Space);
    assert(v@.take(v@.len() as int) =~= v@);
    string_of(&v, 0, b)
}

/// The text without the characters `c` at its end.
pub fn trim_tail_char(s: &str, c: char) -> (r: String)
    ensures
        r@ == trim_end_char(s@, c),
{
    let v = chars_of(s);
    let b = run_start(&v, v.len(), Run::Only(c));
    assert(v@.take(v@.len() as int) =~= v@);
    string_of(&v, 0, b)
}

/// Whether `p` stands at position `i` of `v`.
fn stands_at(v: &Vec<char>, p: &Vec<char>, i: usize) -> (r: bool)
    requires
        i <= v.len(),
    ensures
        r == occurs_at(v@, p@, i as int),
{
    if v.len() - i < p.len() {
        return false;
    }
    let mut k: usize = 0;
    while k < p.len()
        invariant
            k <= p.len(),
            i + p.len() <= v.len(),
            forall|j: int| 0 <= j < k ==> v@[i + j] == #[trigger] p@[j],
        decreases p.len() - k,
    {
        if v[i + k] != p[k] {
            assert(v@.subrange(i as int, i + p.len())[k as int] != p@[k as int]);
            return false;
        }
        k += 1;
    }
    assert(v@.subrange(i as int, i + p.len()) =~= p@);
    true
}

/// Where `p` first stands in `v`.
fn find(v: &Vec<char>, p: &Vec<char>) -> (r: Option<usize>)
    ensures
        match r {
            Some(i) => first_at(v@, p@, i as int),
            None => !mentions(v@, p@),
        },
{
    let mut i: usize = 0;
    loop
        invariant
            i <= v.len(),
            forall|j: int| 0 <= j < i ==> !occurs_at(v@, p@, j),
        decreases v.len() - i,
    {
        if stands_at(v, p, i) {
            return Some(i);
        }
        if i == v.len() {
            assert(forall|j: int| !occurs_at(v@, p@, j)) by {
                assert forall|j: int| !occurs_at(v@, p@, j) by {
                    if occurs_at(v@, p@, j) {
                        assert(j <= v.len());
                    }
                }
            }
            return None;
        }
        i += 1;
    }
}

/// Whether `p` occurs in `s`.
pub fn contains(s: &str, p: &str) -> (r: bool)
    ensures
        r == mentions(s@, p@),
{
    match find(&chars_of(s), &chars_of(p)) {
        Some(_) => true,
        None => false,
    }
}

/// Whether `s` starts with `p`.
pub fn starts_with(s: &str, p: &str) -> (r: bool)
    ensures
        r == p@.is_prefix_of(s@),
{
    let v = chars_of(s);
    let q = chars_of(p);
    assert(q@.len() <= v@.len() ==> v@.subrange(0, q@.len() as int) =~= v@.take(q@.len() as int));
    stands_at(&v, &q, 0)
}

/// Whether `s` ends with `p`.
pub fn ends_with(s: &str, p: &str) -> (r: bool)
    ensures
        r == p@.is_suffix_of(s@),
{
    let v = chars_of(s);
    let q = chars_of(p);
    if q.len() > v.len() {
        return false;
    }
    assert(v@.subrange(v@.len() - q@.len(), v@.len() as int) =~= v@.skip(v@.len() - q@.len()));
    stands_at(&v, &q, v.len() - q.len())
}

/// The text before the first `p`; the whole text where there is none.
pub fn text_before(s: &str, p: &str) -> (r: String)
    ensures
        r@ == before(s@, p@),
{
    let v = chars_of(s);
    let q = chars_of(p);
    match find(&v, &q) {
        Some(i) => {
            proof {
                let k = choose|k: int| first_at(s@, p@, k);
                assert(first_at(s@, p@, k));
                assert(!(k < i) && !(i < k));
            }
            string_of(&v, 0, i)
        },
        None => s.to_owned(),
    }
}

/// The texts around the first `c`.
pub fn cut_once(s: &str, c: char) -> (r: Option<(String, String)>)
    ensures
        match r {
            Some(p) => split_once(s@, c) == Some((p.0@, p.1@)),
            None => split_once(s@, c) is None,
        },
{
    let v = chars_of(s);
    assert(v@.skip(0) =~= v@);
    let n = run_end(&v, 0, Run::Except(c));
    if n < v.len() {
        Some((string_of(&v, 0, n), string_of(&v, n + 1, v.len())))
    } else {
        None
    }
}

/// The text after the last `c`; the whole text where there is none.
pub fn tail_after(s: &str, c: char) -> (r: String)
    ensures
        r@ == after_last(s@, c),
{
    let v = chars_of(s);
    let n = run_start(&v, v.len(), Run::Except(c));
    assert(v@.take(v@.len() as int) =~= v@);
    string_of(&v, n, v.len())
}

/// The words of the text.
pub fn words_of(s: &str) -> (r: Vec<String>)
    ensures
        texts(r@) == words(s@),
{
    let v = chars_of(s);
    let mut out: Vec<String> = Vec::new();
    let mut i: usize = 0;
    assert(v@.skip(0) =~= v@);
    assert(texts(out@) =~= seq![]);
    while i < v.len()
        invariant
            i <= v.len(),
            v@ == s@,
            texts(out@) + words(v@.skip(i as int)) =~= words(s@),
        decreases v.len() - i,
    {
        let ghost rest = v@.skip(i as int);
        if is_space_char(v[i]) {
            assert(rest.skip(1) =~= v@.skip(i + 1));
            i += 1;
        } else {
            let j = run_end(&v, i, Run::Word);
            proof {
                lemma_leading(rest, Run::Word);
                assert(rest[0] == v@[i as int]);
                assert(rest.take(j - i) =~= v@.subrange(i as int, j as int));
                assert(rest.skip(j - i) =~= v@.skip(j as int));
            }
            let ghost before = out@;
            out.push(string_of(&v, i, j));
            assert(texts(out@) =~= texts(before).push(v@.subrange(i as int, j as int)));
            assert(words(rest) =~= seq![v@.subrange(i as int, j as int)] + words(v@.skip(j as int)));
            i = j;
        }
    }
    assert(v@.skip(i as int) =~= seq![]);
    out
}

/// The text cut at every `c`.
pub fn split_at_char(s: &str, c: char) -> (r: Vec<String>)
    ensures
        texts(r@) == split_char(s@, c),
{
    let v = chars_of(s);
    let mut out: Vec<String> = Vec::new();
    let mut i: usize = 0;
    assert(v@.skip(0) =~= v@);
    assert(texts(out@) =~= seq![]);
    loop
        invariant
            i <= v.len(),
            v@ == s@,
            texts(out@) + split_char(v@.skip(i as int), c) =~= split_char(s@, c),
        decreases v.len() - i,
    {
        let ghost rest = v@.skip(i as int);
        let ghost before = out@;
        let j = run_end(&v, i, Run::Except(c));
        out.push(string_of(&v, i, j));
        assert(texts(out@) =~= texts(before).push(v@.subrange(i as int, j as int)));
        assert(rest.take(j - i) =~= v@.subrange(i as int, j as int));
        if j < v.len() {
            assert(rest.skip(j - i + 1) =~= v@.skip(j + 1));
            i = j + 1;
        } else {
            assert(rest =~= v@.subrange(i as int, j as int));
            return out;
        }
    }
}

/// The lines of the text.
pub fn lines_of(s: &str) -> (r: Vec<String>)
    ensures
        texts(r@) == lines(s@),
{
    let v = chars_of(s);
    let mut out: Vec<String> = Vec::new();
    let mut i: usize = 0;
    assert(v@.skip(0) =~= v@);
    assert(texts(out@) =~= seq![]);
    while i < v.len()
        invariant
            i <= v.len(),
            v@ == s@,
            texts(out@) + lines(v@.skip(i as int)) =~= lines(s@),
        decreases v.len() - i,
    {
        let ghost rest = v@.skip(i as int);
        let ghost before = out@;
        let j = run_end(&v, i, Run::Except('\n'));
        assert(rest.take(j - i) =~= v@.subrange(i as int, j as int));
        if j < v.len() {
            let ghost whole = v@.subrange(i as int, j as int);
            if j > i && v[j - 1] == '\r' {
                assert(whole.drop_last() =~= v@.subrange(i as int, j - 1));
                out.push(string_of(&v, i, j - 1));
            } else {
                out.push(string_of(&v, i, j));
            }
            assert(texts(out@) =~= texts(before).push(without_cr(whole)));
            assert(rest.skip(j - i + 1) =~= v@.skip(j + 1));
            i = j + 1;
        } else {
            assert(rest =~= v@.subrange(i as int, j as int));
            out.push(string_of(&v, i, j));
            assert(texts(out@) =~= texts(before).push(rest));
            i = j;
            assert(v@.skip(i as int) =~= seq![]);
        }
    }
    assert(v@.skip(i as int) =~= seq![]);
    out
}

/// The text with every `from` put as `to`.
pub fn replace(s: &str, from: &str, to: &str) -> (r: String)
    ensures
        r@ == replaced(s@, from@, to@),
{
    let v = chars_of(s);
    let p = chars_of(from);
    if p.len() == 0 {
        return s.to_owned();
    }
    let mut out = String::new();
    let mut i: usize = 0;
    assert(v@.skip(0) =~= v@);
    while v.len() - i >= p.len()
        invariant
            i <= v.len(),
            v@ == s@,
            p@ == from@,
            p.len() > 0,
            out@ + replaced(v@.skip(i as int), from@, to@) =~= replaced(s@, from@, to@),
        decreases v.len() - i,
    {
        let ghost rest = v@.skip(i as int);
        proof {
            assert(rest.subrange(0, p@.len() as int) =~= v@.subrange(i as int, i + p@.len()));
            assert(occurs_at(rest, p@, 0) == occurs_at(v@, p@, i as int));
        }
        if stands_at(&v, &p, i) {
            assert(rest.skip(p@.len() as int) =~= v@.skip(i + p@.len()));
            out.append(to);
            i += p.len();
        } else {
            assert(rest.skip(1) =~= v@.skip(i + 1));
            out.push(v[i]);
            i += 1;
        }
    }
    out.append(string_of(&v, i, v.len()).as_str());
    assert(v@.skip(i as int) =~= v@.subrange(i as int, v@.len() as int));
    out
}

/// The parts with `sep` between each two.
pub fn join(parts: &Vec<String>, sep: &str) -> (r: String)
    ensures
        r@ == joined(texts(parts@), sep@),
{
    let mut out = String::new();
    let mut i: usize = 0;
    assert(texts(parts@).take(0) =~= seq![]);
    while i < parts.len()
        invariant
            i <= parts.len(),
            out@ =~= joined(texts(parts@).take(i as int), sep@),
        decreases parts.len() - i,
    {
        let ghost done = texts(parts@).take(i + 1);
        assert(done.drop_last() =~= texts(parts@).take(i as int));
        if i > 0 {
            out.append(sep);
        }
        out.append(parts[i].as_str());
        i += 1;
    }
    assert(texts(parts@).take(parts@.len() as int) =~= texts(parts@));
    out
}

/// A copy of the texts.
pub fn copy_list(list: &Vec<String>) -> (r: Vec<String>)
    ensures
        texts(r@) == texts(list@),
        r@.len() == list@.len(),
{
    let mut out: Vec<String> = Vec::new();
    let mut i: usize = 0;
    while i < list.len()
        invariant
            i <= list.len(),
            out@.len() == i,
            texts(out@) =~= texts(list@).take(i as int),
        decreases list.len() - i,
    {
        let ghost before = out@;
        out.push(list[i].clone());
        assert(texts(out@) =~= texts(before).push(list@[i as int]@));
        i += 1;
    }
    assert(texts(list@).take(i as int) =~= texts(list@));
    out
}

/// Appends copies of the texts of `list` to `out`.
pub fn put_texts(out: &mut Vec<String>, list: &Vec<String>)
    ensures
        texts(final(out)@) == texts(old(out)@) + texts(list@),
{
    let ghost before = texts(out@);
    let mut i: usize = 0;
    assert(texts(list@).take(0) =~= seq![]);
    assert(texts(out@) =~= before + seq![]);
    while i < list.len()
        invariant
            i <= list.len(),
            texts(out@) =~= before + texts(list@).take(i as int),
        decreases list.len() - i,
    {
        let ghost so_far = out@;
        out.push(list[i].clone());
        assert(texts(out@) =~= texts(so_far).push(list@[i as int]@));
        i += 1;
    }
    assert(texts(list@).take(i as int) =~= texts(list@));
}

/// Whether `s` is one of the texts.
pub fn is_one_of(s: &str, list: &Vec<String>) -> (r: bool)
    ensures
        r == texts(list@).contains(s@),
{
    let mut i: usize = 0;
    while i < list.len()
        invariant
            i <= list.len(),
            forall|k: int| 0 <= k < i ==> #[trigger] list@[k]@ != s@,
        decreases list.len() - i,
    {
        if same(list[i].as_str(), s) {
            assert(texts(list@)[i as int] == s@);
            return true;
        }
        i += 1;
    }
    assert forall|k: int| 0 <= k < texts(list@).len() implies texts(list@)[k] != s@ by {
        assert(list@[k]@ != s@);
    }
    false
}

/// Whether the text has no character.
pub fn is_blank(s: &str) -> (r: bool)
    ensures
        r == (s@.len() == 0),
{
    proof {
        reveal_strlit("");
        if s@.len() == 0 {
            assert(s@ =~= ""@);
        }
    }
    same(s, "")
}

/// The text of bytes that may not all be text, as the standard library reads them.
pub uninterp spec fn lossy_text(bytes: Seq<u8>) -> Seq<char>;

/// `String::from_utf8_lossy` of the standard library. The result depends on the bytes alone, and
/// bytes that are text are read as that text.
#[verifier::external_body]
pub(crate) fn text_of_bytes(bytes: &[u8]) -> (r: String)
    ensures
        r@ == lossy_text(bytes@),
        valid_utf8(bytes@) ==> r@ == decode_utf8(bytes@),
{
    String::from_utf8_lossy(bytes).into_owned()
}

/// `String::from_utf8` of the standard library: the text of the bytes, where they are text.
#[verifier::external_body]
pub(crate) fn text_of_utf8(bytes: Vec<u8>) -> (r: Option<String>)
    ensures
        match r {
            Some(s) => valid_utf8(bytes@) && s@ == decode_utf8(bytes@),
            None => !valid_utf8(bytes@),
        },
{
    String::from_utf8(bytes).ok()
}

/// The text with its letters in lower case, as the standard library maps them.
pub uninterp spec fn lowercase(s: Seq<char>) -> Seq<char>;

/// `str::to_lowercase` of the standard library. The result depends on the text alone.
pub assume_specification[ str::to_lowercase ](s: &str) -> (r: String)
    ensures
        r@ == lowercase(s@),
;

/// The text with its ASCII letters in lower case.
pub fn lower_ascii(s: &str) -> (r: String)
    ensures
        r@ == s@.map_values(|c: char| ascii_lower(c)),
{
    let v = chars_of(s);
    let mut out = String::new();
    let mut i: usize = 0;
    while i < v.len()
        invariant
            i <= v.len(),
            out@ =~= v@.take(i as int).map_values(|c: char| ascii_lower(c)),
        decreases v.len() - i,
    {
        let c = v[i];
        if 'A' <= c && c <= 'Z' {
            let d: u8 = c as u8;
            out.push((d + 32) as char);
        } else {
            out.push(c);
        }
        i += 1;
    }
    assert(v@.take(v@.len() as int) =~= v@);
    out
}

} // verus!
