//! Progress bars and the lines that hold them.

use crate::fmt::{larger, truncate_to_width, width};
#[allow(unused_imports)]
use crate::fmt::{all_narrow, escape_starts, is_narrow, max, min, minus, text_width, truncated};
use crate::number::decimal_text;
#[allow(unused_imports)]
use crate::number::decimal;
use crate::text::{chars_of, ends_with, put, repeat, run_start, string_of, tail_after, text_before, Run};
#[allow(unused_imports)]
use crate::text::{after_last, before, lemma_trailing, opt_text, repeated, trailing};
#[allow(unused_imports)]
use crate::style::{codes, is_plain, painted, Style};
#[allow(unused_imports)]
use crate::text::joined;
use crate::ui::preview::format_bytes_u64;
#[allow(unused_imports)]
use crate::ui::preview::size_text;
use vstd::prelude::*;

verus! {

/// The most columns between the brackets of a progress bar.
pub const PROGRESS_BAR_WIDTH: usize = 52;

/// A letter of the ASCII alphabet.
pub open spec fn is_letter(c: char) -> bool {
    'a' <= c <= 'z' || 'A' <= c <= 'Z'
}

/// What follows the first letter of `s`; nothing where there is none.
pub open spec fn after_letter(s: Seq<char>) -> Seq<char>
    decreases s.len(),
{
    if s.len() == 0 {
        s
    } else if is_letter(s[0]) {
        s.skip(1)
    } else {
        after_letter(s.skip(1))
    }
}

pub proof fn lemma_after_letter(s: Seq<char>)
    ensures
        after_letter(s).len() <= s.len(),
    decreases s.len(),
{
    if s.len() > 0 && !is_letter(s[0]) {
        lemma_after_letter(s.skip(1));
    }
}

/// What is seen of a text on a terminal: escape sequences are left out. A sequence starts with
/// the escape character and `[` and ends with a letter, or with the text.
pub open spec fn seen(s: Seq<char>) -> Seq<char>
    decreases s.len(),
{
    if s.len() == 0 {
        s
    } else if escape_starts(s) {
        proof {
            lemma_after_letter(s.skip(2));
        }
        seen(after_letter(s.skip(2)))
    } else {
        seq![s[0]] + seen(s.skip(1))
    }
}

/// The columns that a text takes on a terminal, escape sequences left out.
pub open spec fn seen_width(s: Seq<char>) -> int {
    text_width(seen(s)) as int
}

fn skip_letter(v: &Vec<char>, from: usize) -> (r: usize)
    requires
        from <= v.len(),
    ensures
        from <= r <= v.len(),
        v@.skip(r as int) == after_letter(v@.skip(from as int)),
{
    let mut i: usize = from;
    while i < v.len()
        invariant
            from <= i <= v.len(),
            after_letter(v@.skip(from as int)) == after_letter(v@.skip(i as int)),
        decreases v.len() - i,
    {
        assert(v@.skip(i as int).skip(1) =~= v@.skip(i + 1));
        let c = v[i];
        i += 1;
        if ('a' <= c && c <= 'z') || ('A' <= c && c <= 'Z') {
            return i;
        }
    }
    i
}

/// The columns that a text takes on a terminal, escape sequences left out.
pub fn visible_width(s: &str) -> (r: usize)
    ensures
        r == seen_width(s@),
{
    let v = chars_of(s);
    let mut plain = String::new();
    let mut i: usize = 0;
    assert(v@.skip(0) =~= v@);
    assert(plain@ + seen(v@) =~= seen(s@));
    while i < v.len()
        invariant
            i <= v.len(),
            plain@ + seen(v@.skip(i as int)) == seen(s@),
        decreases v.len() - i,
    {
        let ghost rest = v@.skip(i as int);
        if v[i] == '\x1b' && v.len() - i > 1 && v[i + 1] == '[' {
            assert(rest.skip(2) =~= v@.skip(i + 2));
            i = skip_letter(&v, i + 2);
        } else {
            let ghost so_far = plain@;
            assert(rest.skip(1) =~= v@.skip(i + 1));
            plain.push(v[i]);
            i += 1;
            assert(plain@ + seen(v@.skip(i as int)) =~= so_far + (seq![rest[0]] + seen(
                v@.skip(i as int),
            )));
        }
    }
    assert(v@.skip(i as int) =~= seq![]);
    assert(plain@ + seq![] =~= plain@);
    width(plain.as_str())
}

/// The columns between the brackets of a bar.
pub open spec fn bar_width(w: int) -> int {
    min(max(w, 1), PROGRESS_BAR_WIDTH as int)
}

/// The place of the arrow in a bar that is not full.
pub open spec fn bar_arrow(percent: int, w: int) -> int {
    min(percent * w / 100, w - 1)
}

/// A bar of progress without colours: full, or done up to an arrow.
pub open spec fn bar(percent: nat, width: int) -> Seq<char> {
    let w = bar_width(width);
    if percent >= 100 {
        "["@ + repeated('=', w as nat) + "]"@
    } else {
        let arrow = bar_arrow(percent as int, w);
        "["@ + repeated('=', arrow as nat) + "➔"@ + repeated('-', (w - arrow - 1) as nat) + "]"@
    }
}

/// A bar of progress in colours.
pub open spec fn painted_bar(percent: nat, width: int) -> Seq<char> {
    let w = bar_width(width);
    if percent >= 100 {
        "["@ + "\x1b[1;34m"@ + repeated('=', w as nat) + "\x1b[0m"@ + "]"@
    } else {
        let arrow = bar_arrow(percent as int, w);
        "["@ + "\x1b[1;34m"@ + repeated('=', arrow as nat) + "➔"@ + "\x1b[90m"@ + repeated(
            '-',
            (w - arrow - 1) as nat,
        ) + "\x1b[0m"@ + "]"@
    }
}

fn width_of_bar(w: usize) -> (r: usize)
    ensures
        r == bar_width(w as int),
        1 <= r <= PROGRESS_BAR_WIDTH,
{
    if w < 1 {
        1
    } else if w > PROGRESS_BAR_WIDTH {
        PROGRESS_BAR_WIDTH
    } else {
        w
    }
}

fn arrow_of_bar(percent: u64, w: usize) -> (r: usize)
    requires
        percent < 100,
        1 <= w <= PROGRESS_BAR_WIDTH,
    ensures
        r == bar_arrow(percent as int, w as int),
        r < w,
{
    assert(0 <= percent * w <= 100 * 52) by (nonlinear_arith)
        requires
            percent < 100,
            1 <= w <= 52,
    ;
    let at: usize = (percent as usize * w) / 100;
    if at < w - 1 {
        at
    } else {
        w - 1
    }
}

/// A bar of progress without colours.
pub fn render_progress_bar(percent: u64, width: usize) -> (r: String)
    ensures
        r@ == bar(percent as nat, width as int),
{
    let w = width_of_bar(width);
    let mut out = "[".to_owned();
    if percent >= 100 {
        put(&mut out, repeat('=', w).as_str());
    } else {
        let arrow = arrow_of_bar(percent, w);
        put(&mut out, repeat('=', arrow).as_str());
        put(&mut out, "➔");
        put(&mut out, repeat('-', w - arrow - 1).as_str());
    }
    put(&mut out, "]");
    out
}

/// A bar of progress in colours.
pub fn paint_progress_bar(percent: u64, width: usize) -> (r: String)
    ensures
        r@ == painted_bar(percent as nat, width as int),
{
    let w = width_of_bar(width);
    let mut out = "[".to_owned();
    put(&mut out, "\x1b[1;34m");
    if percent >= 100 {
        put(&mut out, repeat('=', w).as_str());
    } else {
        let arrow = arrow_of_bar(percent, w);
        put(&mut out, repeat('=', arrow).as_str());
        put(&mut out, "➔");
        put(&mut out, "\x1b[90m");
        put(&mut out, repeat('-', w - arrow - 1).as_str());
    }
    put(&mut out, "\x1b[0m");
    put(&mut out, "]");
    out
}

/// A bar has as many characters between its brackets as it is asked for, up to a limit.
pub proof fn bar_has_fixed_length(percent: nat, width: int)
    ensures
        bar(percent, width).len() == bar_width(width) + 2,
{
    reveal_strlit("[");
    reveal_strlit("]");
    reveal_strlit("➔");
    let w = bar_width(width);
    if percent < 100 {
        assert(0 <= percent * w) by (nonlinear_arith)
            requires
                0 <= w,
        ;
    }
}

/// Whether a text holds no escape character.
pub open spec fn unescaped(s: Seq<char>) -> bool {
    forall|i: int| 0 <= i < s.len() ==> #[trigger] s[i] != '\x1b'
}

pub proof fn lemma_seen_plain(a: Seq<char>, b: Seq<char>)
    requires
        unescaped(a),
    ensures
        seen(a + b) == a + seen(b),
    decreases a.len(),
{
    if a.len() == 0 {
        assert(a + b =~= b);
        assert(a + seen(b) =~= seen(b));
    } else {
        let rest = a.skip(1);
        assert((a + b).skip(1) =~= rest + b);
        assert forall|i: int| 0 <= i < rest.len() implies #[trigger] rest[i] != '\x1b' by {
            assert(rest[i] == a[i + 1]);
        }
        lemma_seen_plain(rest, b);
        assert((a + b)[0] == a[0]);
        assert(a[0] != '\x1b');
        assert(seq![a[0]] + (rest + seen(b)) =~= a + seen(b));
    }
}

/// Whether a text is one escape sequence.
pub open spec fn is_sequence(e: Seq<char>) -> bool {
    &&& e.len() >= 3
    &&& escape_starts(e)
    &&& is_letter(e.last())
    &&& forall|i: int| 2 <= i < e.len() - 1 ==> !is_letter(#[trigger] e[i])
}

proof fn lemma_seen_sequence(e: Seq<char>, b: Seq<char>)
    requires
        is_sequence(e),
    ensures
        seen(e + b) == seen(b),
{
    let s = e + b;
    assert(escape_starts(s));
    lemma_letter_at(s.skip(2), e.len() - 3);
    assert(s.skip(2).skip(e.len() - 2) =~= b);
}

proof fn lemma_letter_at(s: Seq<char>, k: int)
    requires
        0 <= k < s.len(),
        is_letter(s[k]),
        forall|i: int| 0 <= i < k ==> !is_letter(#[trigger] s[i]),
    ensures
        after_letter(s) == s.skip(k + 1),
    decreases k,
{
    if k > 0 {
        assert(!is_letter(s[0]));
        assert forall|i: int| 0 <= i < k - 1 implies !is_letter(#[trigger] s.skip(1)[i]) by {
            assert(s.skip(1)[i] == s[i + 1]);
        }
        lemma_letter_at(s.skip(1), k - 1);
        assert(s.skip(1).skip(k) =~= s.skip(k + 1));
    }
}

/// The colours of a bar change nothing of what is seen of it.
pub proof fn colours_of_bar_are_unseen(percent: nat, width: int)
    ensures
        seen(painted_bar(percent, width)) == bar(percent, width),
{
    reveal_strlit("[");
    reveal_strlit("]");
    reveal_strlit("➔");
    reveal_strlit("\x1b[1;34m");
    reveal_strlit("\x1b[90m");
    reveal_strlit("\x1b[0m");
    let w = bar_width(width);
    let (blue, grey, reset) = ("\x1b[1;34m"@, "\x1b[90m"@, "\x1b[0m"@);
    assert(is_sequence(blue));
    assert(is_sequence(grey));
    assert(is_sequence(reset));
    let end = "]"@;
    assert(end + Seq::<char>::empty() =~= end);
    lemma_seen_plain(end, seq![]);
    assert(seen(end) =~= end);
    lemma_seen_sequence(reset, end);
    if percent >= 100 {
        let body = repeated('=', w as nat);
        lemma_seen_plain(body, reset + end);
        lemma_seen_sequence(blue, body + (reset + end));
        lemma_seen_plain("["@, blue + (body + (reset + end)));
        assert(painted_bar(percent, width) =~= "["@ + (blue + (body + (reset + end))));
        assert("["@ + (body + end) =~= bar(percent, width));
    } else {
        let arrow = bar_arrow(percent as int, w);
        let filled = repeated('=', arrow as nat);
        let empty = repeated('-', (w - arrow - 1) as nat);
        lemma_seen_plain(empty, reset + end);
        lemma_seen_sequence(grey, empty + (reset + end));
        let tail = grey + (empty + (reset + end));
        lemma_seen_plain("➔"@, tail);
        lemma_seen_plain(filled, "➔"@ + tail);
        lemma_seen_sequence(blue, filled + ("➔"@ + tail));
        lemma_seen_plain("["@, blue + (filled + ("➔"@ + tail)));
        assert(painted_bar(percent, width) =~= "["@ + (blue + (filled + ("➔"@ + tail))));
        assert("["@ + (filled + ("➔"@ + (empty + end))) =~= bar(percent, width));
    }
}

/// A bar takes as many columns as it is asked for, up to a limit, and those of its brackets, with
/// colours and without.
pub proof fn bar_takes_its_columns(percent: nat, width: int)
    ensures
        seen_width(bar(percent, width)) == bar_width(width) + 2,
        seen_width(painted_bar(percent, width)) == bar_width(width) + 2,
{
    let b = bar(percent, width);
    let nothing = Seq::<char>::empty();
    bar_has_fixed_length(percent, width);
    colours_of_bar_are_unseen(percent, width);
    reveal_strlit("[");
    reveal_strlit("]");
    reveal_strlit("➔");
    assert forall|i: int| 0 <= i < b.len() implies is_narrow(#[trigger] b[i]) && b[i] != '\x1b' by {
        assert(b[i] == '[' || b[i] == ']' || b[i] == '=' || b[i] == '-' || b[i] == '➔');
    }
    lemma_seen_plain(b, nothing);
    assert(b + nothing =~= b);
    assert(seen(nothing) =~= nothing);
    assert(all_narrow(b));
}

/// A text without letters.
pub open spec fn letterless(s: Seq<char>) -> bool {
    forall|i: int| 0 <= i < s.len() ==> !is_letter(#[trigger] s[i])
}

proof fn lemma_codes(style: Style)
    requires
        !is_plain(style),
    ensures
        letterless(joined(codes(style), ";"@)),
{
    reveal_strlit(";");
    reveal_strlit("1");
    reveal_strlit("2");
    reveal_strlit("30");
    reveal_strlit("31");
    reveal_strlit("32");
    reveal_strlit("33");
    reveal_strlit("34");
    reveal_strlit("35");
    reveal_strlit("36");
    reveal_strlit("37");
    let all = codes(style);
    assert forall|k: int| 0 <= k < all.len() implies letterless(#[trigger] all[k]) by {}
    lemma_joined_letterless(all, ";"@);
}

proof fn lemma_joined_letterless(parts: Seq<Seq<char>>, sep: Seq<char>)
    requires
        letterless(sep),
        forall|k: int| 0 <= k < parts.len() ==> letterless(#[trigger] parts[k]),
    ensures
        letterless(joined(parts, sep)),
    decreases parts.len(),
{
    if parts.len() > 1 {
        let front = parts.drop_last();
        assert forall|k: int| 0 <= k < front.len() implies letterless(#[trigger] front[k]) by {
            assert(front[k] == parts[k]);
        }
        lemma_joined_letterless(front, sep);
        let a = joined(front, sep);
        let b = parts.last();
        assert(b == parts[parts.len() - 1]);
        assert forall|i: int| 0 <= i < (a + sep + b).len() implies !is_letter(
            #[trigger] (a + sep + b)[i],
        ) by {
            if i < a.len() {
                assert((a + sep + b)[i] == a[i]);
            } else if i < a.len() + sep.len() {
                assert((a + sep + b)[i] == sep[i - a.len()]);
            } else {
                assert((a + sep + b)[i] == b[i - a.len() - sep.len()]);
            }
        }
    }
}

pub proof fn lemma_seen_painted(style: Style, text: Seq<char>, rest: Seq<char>)
    requires
        unescaped(text),
    ensures
        seen(painted(style, text) + rest) == text + seen(rest),
{
    if is_plain(style) {
        assert(painted(style, text) =~= text);
        lemma_seen_plain(text, rest);
    } else {
        reveal_strlit("\x1b[");
        reveal_strlit("m");
        reveal_strlit("\x1b[0m");
        lemma_codes(style);
        let inner = joined(codes(style), ";"@);
        let prefix = "\x1b["@ + inner + "m"@;
        let suffix = "\x1b[0m"@;
        assert(is_sequence(suffix));
        assert(is_sequence(prefix)) by {
            assert forall|i: int| 2 <= i < prefix.len() - 1 implies !is_letter(#[trigger] prefix[i]) by {
                assert(prefix[i] == inner[i - 2]);
            }
        }
        lemma_seen_sequence(suffix, rest);
        lemma_seen_plain(text, suffix + rest);
        lemma_seen_sequence(prefix, text + (suffix + rest));
        assert(painted(style, text) + rest =~= prefix + (text + (suffix + rest)));
    }
}

/// Painting a text changes nothing of what is seen of it.
pub proof fn paint_is_unseen(style: Style, text: Seq<char>)
    requires
        unescaped(text),
    ensures
        seen(painted(style, text)) == text,
{
    let nothing = Seq::<char>::empty();
    lemma_seen_painted(style, text, nothing);
    assert(painted(style, text) + nothing =~= painted(style, text));
    assert(seen(nothing) =~= nothing);
    assert(text + nothing =~= text);
}

/// A file name without the endings of signatures.
pub open spec fn without_sig(s: Seq<char>) -> Seq<char>
    decreases s.len(),
{
    if ".sig"@.len() > 0 && ".sig"@.is_suffix_of(s) {
        without_sig(s.take(s.len() - ".sig"@.len()))
    } else {
        s
    }
}

/// The part of a text before the last `-`.
pub open spec fn before_dash(s: Seq<char>) -> Option<Seq<char>> {
    let n = trailing(s, Run::Except('-'));
    if n < s.len() {
        Some(s.take(s.len() - n - 1))
    } else {
        None
    }
}

/// The name in the stem of a package file: what comes before version, release and architecture.
pub open spec fn name_in_stem(stem: Seq<char>) -> Seq<char> {
    match before_dash(stem) {
        Some(a) => match before_dash(a) {
            Some(b) => match before_dash(b) {
                Some(name) => name,
                None => stem,
            },
            None => stem,
        },
        None => stem,
    }
}

/// The file of a download: no directories and no ending of a signature.
pub open spec fn download_file(filename: Seq<char>) -> Seq<char> {
    after_last(without_sig(filename), '/')
}

/// The package of a download.
pub open spec fn download_name(filename: Seq<char>) -> Seq<char> {
    name_in_stem(before(download_file(filename), ".pkg.tar"@))
}

fn cut_dash(s: &str) -> (r: Option<String>)
    ensures
        opt_text(r) == before_dash(s@),
{
    let v = chars_of(s);
    let n = run_start(&v, v.len(), Run::Except('-'));
    proof {
        assert(v@.take(v@.len() as int) =~= v@);
        lemma_trailing(v@, Run::Except('-'));
    }
    if n > 0 {
        assert(v@.subrange(0, n - 1) =~= v@.take(n - 1));
        Some(string_of(&v, 0, n - 1))
    } else {
        None
    }
}

/// The package and the file of a download.
pub fn split_download_filename(filename: &str) -> (r: (String, String))
    ensures
        r.0@ == download_name(filename@),
        r.1@ == download_file(filename@),
{
    proof {
        reveal_strlit(".sig");
    }
    let mut name = filename.to_owned();
    while ends_with(name.as_str(), ".sig")
        invariant
            ".sig"@.len() == 4,
            without_sig(name@) == without_sig(filename@),
        decreases name@.len(),
    {
        let v = chars_of(name.as_str());
        assert(v@.subrange(0, v@.len() - 4) =~= v@.take(v@.len() - 4));
        name = string_of(&v, 0, v.len() - 4);
    }
    let plain = tail_after(name.as_str(), '/');
    let stem = text_before(plain.as_str(), ".pkg.tar");
    let short = match cut_dash(stem.as_str()) {
        Some(a) => match cut_dash(a.as_str()) {
            Some(b) => match cut_dash(b.as_str()) {
                Some(c) => c,
                None => stem,
            },
            None => stem,
        },
        None => stem,
    };
    (short, plain)
}

/// How much of a download is done, in percent.
pub open spec fn percent_done(downloaded: u64, total: u64) -> int {
    if total == 0 {
        0
    } else {
        min(min(downloaded * 100, u64::MAX as int) / total as int, 100)
    }
}

/// How much of a download is done, in percent.
pub fn download_percent(downloaded: u64, total: u64) -> (r: u64)
    ensures
        r == percent_done(downloaded, total),
        r <= 100,
{
    if total == 0 {
        return 0;
    }
    let product: u128 = downloaded as u128 * 100;
    let limited: u64 = if product < u64::MAX as u128 {
        product as u64
    } else {
        u64::MAX
    };
    let done: u64 = limited / total;
    if done < 100 {
        done
    } else {
        100
    }
}

/// Two texts at the two ends of a line, with at least one blank between them.
pub open spec fn aligned(left: Seq<char>, right: Seq<char>, term: int) -> Option<Seq<char>> {
    let used = seen_width(left) + seen_width(right);
    if term < used + 1 {
        None
    } else {
        Some(left + repeated(' ', (term - used) as nat) + right)
    }
}

/// Two texts at the two ends of a line.
pub fn right_align_bar(left: &str, right: &str, terminal_width: usize) -> (r: Option<String>)
    ensures
        opt_text(r) == aligned(left@, right@, terminal_width as int),
{
    let used: u128 = visible_width(left) as u128 + visible_width(right) as u128;
    if (terminal_width as u128) < used + 1 {
        return None;
    }
    let mut out = left.to_owned();
    put(&mut out, repeat(' ', (terminal_width as u128 - used) as usize).as_str());
    put(&mut out, right);
    Some(out)
}

/// A file name in at most `max` columns.
pub open spec fn cut_filename(name: Seq<char>, max: int) -> Seq<char> {
    if seen_width(name) <= max {
        name
    } else {
        truncated(name, max as nat)
    }
}

/// A file name in at most `max_width` columns.
pub fn truncate_filename_to_width(filename: &str, max_width: usize) -> (r: String)
    ensures
        r@ == cut_filename(filename@, max_width as int),
{
    if visible_width(filename) <= max_width {
        return filename.to_owned();
    }
    truncate_to_width(filename, max_width)
}

/// The time that is left, from the seconds it takes. There is no such number where nothing
/// comes in.
pub open spec fn time_left(bytes_remaining: u64, secs: Option<u64>) -> Seq<char> {
    if bytes_remaining == 0 {
        "0s"@
    } else {
        match secs {
            None => "--"@,
            Some(n) => if n < 60 {
                decimal(n as nat) + "s"@
            } else {
                decimal((n / 60) as nat) + "m"@ + decimal((n % 60) as nat) + "s"@
            },
        }
    }
}

/// The time that is left.
pub fn format_time_remaining(bytes_remaining: u64, secs: Option<u64>) -> (r: String)
    ensures
        r@ == time_left(bytes_remaining, secs),
{
    if bytes_remaining == 0 {
        return "0s".to_owned();
    }
    match secs {
        None => "--".to_owned(),
        Some(n) => {
            if n < 60 {
                let mut out = decimal_text(n as u128);
                put(&mut out, "s");
                out
            } else {
                let mut out = decimal_text((n / 60) as u128);
                put(&mut out, "m");
                put(&mut out, decimal_text((n % 60) as u128).as_str());
                put(&mut out, "s");
                out
            }
        },
    }
}

/// The parts of the line of a download.
pub struct DownloadParts {
    /// Which package is downloaded.
    pub name: Seq<char>,
    /// The file.
    pub file: Seq<char>,
    /// Size, time, speed and percent.
    pub numbers: Seq<char>,
    pub percent: nat,
}

/// The left end of the line of a download.
pub open spec fn download_left(p: DownloadParts) -> Seq<char> {
    "Downloading "@ + p.name
}

/// The right end of the line of a download.
pub open spec fn download_right(p: DownloadParts, file: Seq<char>, b: int) -> Seq<char> {
    "("@ + file + ")"@ + p.numbers + " "@ + painted_bar(p.percent, b)
}

/// The line of a download with the widest bar, of at most `b` and at least twenty columns, with
/// which it fits.
pub open spec fn widest_line(p: DownloadParts, term: int, b: int) -> Option<Seq<char>>
    decreases b,
{
    match aligned(download_left(p), download_right(p, p.file, b), term) {
        Some(line) => Some(line),
        None => if b > 20 {
            widest_line(p, term, b - 1)
        } else {
            None
        },
    }
}

/// The room for the name of the file beside the smallest bar.
pub open spec fn room_for_file(p: DownloadParts, term: int) -> int {
    minus(
        term,
        seen_width(download_left(p)) + seen_width(p.numbers + " "@ + painted_bar(p.percent, 20))
            + 1,
    )
}

/// A line with nothing but the package and the smallest bar.
pub open spec fn short_line(p: DownloadParts) -> Seq<char> {
    p.name + " "@ + painted_bar(p.percent, 20)
}

/// The line of a download: the widest bar with which everything fits; otherwise the smallest bar
/// and the file name cut to fit; otherwise only the package and the bar.
pub open spec fn fitted_line(p: DownloadParts, term: int) -> Seq<char> {
    match widest_line(p, term, PROGRESS_BAR_WIDTH as int) {
        Some(line) => line,
        None => {
            let room = room_for_file(p, term);
            let file = cut_filename(p.file, minus(room, 2));
            match aligned(download_left(p), download_right(p, file, 20), term) {
                Some(line) if room > 0 => line,
                _ => short_line(p),
            }
        },
    }
}

/// The parts of the line of a download. `time` and `speed` are shown as they are.
pub open spec fn download_parts(
    filename: Seq<char>,
    downloaded: u64,
    total: u64,
    time: Seq<char>,
    speed: Seq<char>,
) -> DownloadParts {
    let percent = percent_done(downloaded, total);
    DownloadParts {
        name: "\x1b[1m"@ + download_name(filename) + "\x1b[0m..."@,
        file: download_file(filename),
        numbers: " \x1b[33m["@ + size_text(minus(total as int, downloaded as int) as nat)
            + " left]\x1b[0m \x1b[33m"@ + time + "\x1b[0m "@ + speed + "  "@ + decimal(percent as nat)
            + "%"@,
        percent: percent as nat,
    }
}

/// The parts of a line as text.
struct Parts {
    name: String,
    left: String,
    file: String,
    numbers: String,
    percent: u64,
}

impl Parts {
    spec fn model(&self) -> DownloadParts {
        DownloadParts {
            name: self.name@,
            file: self.file@,
            numbers: self.numbers@,
            percent: self.percent as nat,
        }
    }

    spec fn wf(&self) -> bool {
        self.left@ == download_left(self.model())
    }

    fn right(&self, file: &str, b: usize) -> (r: String)
        ensures
            r@ == download_right(self.model(), file@, b as int),
    {
        let mut out = "(".to_owned();
        put(&mut out, file);
        put(&mut out, ")");
        put(&mut out, self.numbers.as_str());
        put(&mut out, " ");
        put(&mut out, paint_progress_bar(self.percent, b).as_str());
        out
    }

    fn short(&self) -> (r: String)
        ensures
            r@ == short_line(self.model()),
    {
        let mut out = self.name.clone();
        put(&mut out, " ");
        put(&mut out, paint_progress_bar(self.percent, 20).as_str());
        out
    }

    fn widest(&self, term: usize) -> (r: Option<String>)
        requires
            self.wf(),
        ensures
            opt_text(r) == widest_line(self.model(), term as int, PROGRESS_BAR_WIDTH as int),
    {
        let mut b: usize = PROGRESS_BAR_WIDTH;
        loop
            invariant
                self.wf(),
                20 <= b <= PROGRESS_BAR_WIDTH,
                widest_line(self.model(), term as int, PROGRESS_BAR_WIDTH as int) == widest_line(
                    self.model(),
                    term as int,
                    b as int,
                ),
            decreases b,
        {
            let right = self.right(self.file.as_str(), b);
            let line = right_align_bar(self.left.as_str(), right.as_str(), term);
            if line.is_some() || b == 20 {
                return line;
            }
            b -= 1;
        }
    }

    fn room(&self, term: usize) -> (r: usize)
        requires
            self.wf(),
        ensures
            r == room_for_file(self.model(), term as int),
    {
        let mut fixed = self.numbers.clone();
        put(&mut fixed, " ");
        put(&mut fixed, paint_progress_bar(self.percent, 20).as_str());
        let used: u128 = visible_width(self.left.as_str()) as u128 + visible_width(fixed.as_str()) as u128
            + 1;
        if term as u128 <= used {
            0
        } else {
            (term as u128 - used) as usize
        }
    }
}

/// The line of a download, with the words for the time that is left and for the speed.
pub fn compose_download_line(
    filename: &str,
    downloaded: u64,
    total: u64,
    time: &str,
    speed: &str,
    terminal_width: usize,
) -> (r: String)
    ensures
        r@ == fitted_line(
            download_parts(filename@, downloaded, total, time@, speed@),
            max(terminal_width as int, 1),
        ),
{
    let (package, file) = split_download_filename(filename);
    let percent = download_percent(downloaded, total);
    let remaining: u64 = if total > downloaded {
        total - downloaded
    } else {
        0
    };
    let mut name = "\x1b[1m".to_owned();
    put(&mut name, package.as_str());
    put(&mut name, "\x1b[0m...");
    let mut left = "Downloading ".to_owned();
    put(&mut left, name.as_str());
    let mut numbers = " \x1b[33m[".to_owned();
    put(&mut numbers, format_bytes_u64(remaining).as_str());
    put(&mut numbers, " left]\x1b[0m \x1b[33m");
    put(&mut numbers, time);
    put(&mut numbers, "\x1b[0m ");
    put(&mut numbers, speed);
    put(&mut numbers, "  ");
    put(&mut numbers, decimal_text(percent as u128).as_str());
    put(&mut numbers, "%");
    let parts = Parts { name, left, file, numbers, percent };
    let ghost model = download_parts(filename@, downloaded, total, time@, speed@);
    assert(parts.model() == model);
    let term = larger(terminal_width, 1);
    match parts.widest(term) {
        Some(line) => {
            return line;
        },
        None => {},
    }
    let room = parts.room(term);
    if room == 0 {
        return parts.short();
    }
    let kept: usize = if room > 2 {
        room - 2
    } else {
        0
    };
    let cut = truncate_filename_to_width(parts.file.as_str(), kept);
    let right = parts.right(cut.as_str(), 20);
    match right_align_bar(parts.left.as_str(), right.as_str(), term) {
        Some(line) => line,
        None => parts.short(),
    }
}

/// The left end of the line of a package.
pub open spec fn install_left(package: Seq<char>, removing: bool) -> Seq<char> {
    (if removing {
        "\x1b[36mRemoving\x1b[0m \x1b[1m"@
    } else {
        "\x1b[36mInstalling\x1b[0m \x1b[1m"@
    }) + package + "\x1b[0m..."@
}

/// The right end of the line of a package.
pub open spec fn install_right(percent: nat, current: nat, total: nat, b: int) -> Seq<char> {
    "\x1b[90m"@ + decimal(current) + "/"@ + decimal(total) + "\x1b[0m "@ + decimal(percent) + "% "@
        + painted_bar(percent, b)
}

/// The line of a package with the widest bar, of at most `b` and at least twelve columns, with
/// which it fits; with the smallest where none does.
pub open spec fn install_line(
    left: Seq<char>,
    percent: nat,
    current: nat,
    total: nat,
    term: int,
    b: int,
) -> Seq<char>
    decreases b,
{
    let right = install_right(percent, current, total, b);
    match aligned(left, right, term) {
        Some(line) => line,
        None => if b <= 12 {
            left + " "@ + right
        } else {
            install_line(left, percent, current, total, term, b - 1)
        },
    }
}

fn fit_install_line(left: &str, percent: u64, current: usize, total: usize, term: usize) -> (r:
    String)
    ensures
        r@ == install_line(
            left@,
            percent as nat,
            current as nat,
            total as nat,
            term as int,
            PROGRESS_BAR_WIDTH as int,
        ),
{
    let mut b: usize = PROGRESS_BAR_WIDTH;
    loop
        invariant
            12 <= b <= PROGRESS_BAR_WIDTH,
            install_line(
                left@,
                percent as nat,
                current as nat,
                total as nat,
                term as int,
                PROGRESS_BAR_WIDTH as int,
            ) == install_line(
                left@,
                percent as nat,
                current as nat,
                total as nat,
                term as int,
                b as int,
            ),
        decreases b,
    {
        let mut right = "\x1b[90m".to_owned();
        put(&mut right, decimal_text(current as u128).as_str());
        put(&mut right, "/");
        put(&mut right, decimal_text(total as u128).as_str());
        put(&mut right, "\x1b[0m ");
        put(&mut right, decimal_text(percent as u128).as_str());
        put(&mut right, "% ");
        put(&mut right, paint_progress_bar(percent, b).as_str());
        match right_align_bar(left, right.as_str(), term) {
            Some(line) => {
                return line;
            },
            None => {},
        }
        if b <= 12 {
            let mut line = left.to_owned();
            put(&mut line, " ");
            put(&mut line, right.as_str());
            return line;
        }
        b -= 1;
    }
}

/// The line of a package that is installed or removed.
pub fn render_install_line(
    package: &str,
    percent: u64,
    current: usize,
    total: usize,
    removing: bool,
    terminal_width: usize,
) -> (r: String)
    ensures
        r@ == install_line(
            install_left(package@, removing),
            min(percent as int, 100) as nat,
            current as nat,
            total as nat,
            max(terminal_width as int, 1),
            PROGRESS_BAR_WIDTH as int,
        ),
{
    let done: u64 = if percent < 100 {
        percent
    } else {
        100
    };
    let mut left = if removing {
        "\x1b[36mRemoving\x1b[0m \x1b[1m".to_owned()
    } else {
        "\x1b[36mInstalling\x1b[0m \x1b[1m".to_owned()
    };
    put(&mut left, package);
    put(&mut left, "\x1b[0m...");
    fit_install_line(left.as_str(), done, current, total, larger(terminal_width, 1))
}

/// A line whose two ends fit takes all columns that are left between them: its blanks and the
/// columns of its ends add up to the terminal.
pub proof fn aligned_line_fills_the_terminal(left: Seq<char>, right: Seq<char>, term: int)
    ensures
        aligned(left, right, term) is Some <==> seen_width(left) + seen_width(right) + 1 <= term,
        aligned(left, right, term) matches Some(line) ==> line.len() - left.len() - right.len()
            + seen_width(left) + seen_width(right) == term,
{
}

} // verus!
