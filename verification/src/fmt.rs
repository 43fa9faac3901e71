//! Display widths, times, and lists of packages.

use crate::config::Config;
use crate::style::{heading_text, paint, Colour, Style};
#[allow(unused_imports)]
use crate::style::{heading, painted};
use crate::text::{chars_of, cut_once, put, repeat, run_end, string_of, Run};
#[allow(unused_imports)]
use crate::text::{joined, leading, lemma_leading, opt_text, repeated, split_once, texts};
use chrono::TimeZone;
use vstd::prelude::*;
#[allow(unused_imports)]
use vstd::utf8::encode_utf8;

verus! {

/// A character that takes one column wherever it stands among its like: printable ASCII, and the
/// arrow of a progress bar.
pub open spec fn is_narrow(c: char) -> bool {
    ' ' <= c <= '~' || c == '➔'
}

/// A text of such characters alone.
pub open spec fn all_narrow(s: Seq<char>) -> bool {
    forall|i: int| 0 <= i < s.len() ==> is_narrow(#[trigger] s[i])
}

/// The columns that a text takes on a terminal, as the crate unicode-width counts them.
pub uninterp spec fn measured_width(s: Seq<char>) -> usize;

/// The columns that a character takes, as the crate unicode-width counts them; a control
/// character has no width.
pub uninterp spec fn measured_char_width(c: char) -> Option<usize>;

/// The columns that a text takes on a terminal: one for each character where all are narrow,
/// otherwise as the crate unicode-width counts them.
pub open spec fn text_width(s: Seq<char>) -> usize {
    if all_narrow(s) {
        s.len() as usize
    } else {
        measured_width(s)
    }
}

/// The columns that a character takes: one where it is narrow, otherwise as the crate
/// unicode-width counts them.
pub open spec fn char_width(c: char) -> Option<usize> {
    if is_narrow(c) {
        Some(1)
    } else {
        measured_char_width(c)
    }
}

/// A time as text: seconds since the epoch, seconds east of Greenwich, and a format of the crate
/// chrono. There is none for a time that chrono cannot represent.
pub uninterp spec fn formatted_time(secs: i64, offset: i32, format: Seq<char>) -> Option<Seq<char>>;

/// `UnicodeWidthStr::width` of the crate unicode-width. The result depends on the text alone, and
/// a text of printable ASCII and arrows takes one column for each character.
#[verifier::external_body]
pub(crate) fn width(s: &str) -> (r: usize)
    ensures
        r == text_width(s@),
        all_narrow(s@) ==> r == s@.len(),
        !all_narrow(s@) ==> r == measured_width(s@),
{
    unicode_width::UnicodeWidthStr::width(s)
}

/// `UnicodeWidthChar::width` of the crate unicode-width. The result depends on the character
/// alone, and is one for printable ASCII and the arrow.
#[verifier::external_body]
fn width_of_char(c: char) -> (r: Option<usize>)
    ensures
        r == char_width(c),
        !is_narrow(c) ==> r == measured_char_width(c),
{
    unicode_width::UnicodeWidthChar::width(c)
}

/// `TimeZone::timestamp_opt` and `DateTime::format` of the crate chrono, in a time zone with a
/// fixed offset. The result depends on the arguments alone, and the epoch itself is a time that
/// chrono can represent.
#[verifier::external_body]
fn format_time(secs: i64, offset: i32, format: &str) -> (r: Option<String>)
    requires
        -86_400 < offset < 86_400,
        format@ == "%a, %e %b %Y %T"@ || format@ == "%Y-%m-%d"@,
    ensures
        opt_text(r) == formatted_time(secs, offset, format@),
        secs == 0 ==> r is Some,
{
    let zone = chrono::FixedOffset::east_opt(offset)?;
    let time = chrono::Utc.timestamp_opt(secs, 0).single()?;
    Some(time.with_timezone(&zone).format(format).to_string())
}

/// An optional text, or the word for none.
pub fn opt(config: &Config, value: &Option<String>) -> (r: String)
    ensures
        r@ == (match *value {
            Some(t) => t@,
            None => config.messages.none@,
        }),
{
    match value {
        Some(t) => t.clone(),
        None => config.messages.none.clone(),
    }
}

/// The first text, or the second where there is none.
pub fn time_or_epoch(time: Option<String>, epoch: Option<String>) -> (r: String)
    ensures
        time is Some ==> r@ == time->0@,
        time is None && epoch is Some ==> r@ == epoch->0@,
        time is None && epoch is None ==> r@.len() == 0,
{
    match (time, epoch) {
        (Some(t), _) => t,
        (None, Some(t)) => t,
        (None, None) => String::new(),
    }
}

/// A time in a format, and the epoch for a time that cannot be represented.
pub open spec fn time_text(secs: i64, offset: i32, epoch_offset: i32, format: Seq<char>) -> Option<
    Seq<char>,
> {
    match formatted_time(secs, offset, format) {
        Some(t) => Some(t),
        None => formatted_time(0, epoch_offset, format),
    }
}

/// A date and time of day. `offset` is what the local time zone adds to it in seconds,
/// `epoch_offset` what it adds to the epoch.
pub fn date(secs: i64, offset: i32, epoch_offset: i32) -> (r: String)
    requires
        -86_400 < offset < 86_400,
        -86_400 < epoch_offset < 86_400,
    ensures
        Some(r@) == time_text(secs, offset, epoch_offset, "%a, %e %b %Y %T"@),
{
    let time = format_time(secs, offset, "%a, %e %b %Y %T");
    let epoch = format_time(0, epoch_offset, "%a, %e %b %Y %T");
    time_or_epoch(time, epoch)
}

/// A date. `offset` is what the local time zone adds to it in seconds, `epoch_offset` what it
/// adds to the epoch.
pub fn ymd(secs: i64, offset: i32, epoch_offset: i32) -> (r: String)
    requires
        -86_400 < offset < 86_400,
        -86_400 < epoch_offset < 86_400,
    ensures
        Some(r@) == time_text(secs, offset, epoch_offset, "%Y-%m-%d"@),
{
    let time = format_time(secs, offset, "%Y-%m-%d");
    let epoch = format_time(0, epoch_offset, "%Y-%m-%d");
    time_or_epoch(time, epoch)
}

/// Whether an escape sequence starts at the head of `s`.
pub open spec fn escape_starts(s: Seq<char>) -> bool {
    s.len() > 1 && s[0] == '\x1b' && s[1] == '['
}

/// What follows the colour sequence at the head of `s`: it ends with `m`, or with the text.
pub open spec fn after_colour(s: Seq<char>) -> Seq<char> {
    let n = 1 + leading(s.skip(1), Run::Except('m'));
    if n < s.len() {
        s.skip(n + 1)
    } else {
        seq![]
    }
}

/// The characters of `s` that are in no colour sequence, counted.
pub open spec fn word_length(s: Seq<char>) -> nat
    decreases s.len(),
{
    if s.len() == 0 {
        0
    } else if escape_starts(s) {
        proof {
            lemma_leading(s.skip(1), Run::Except('m'));
        }
        word_length(after_colour(s))
    } else {
        1 + word_length(s.skip(1))
    }
}

/// The characters of a word that are in no colour sequence, counted.
pub fn word_len(s: &str) -> (r: usize)
    ensures
        r == word_length(s@),
{
    let v = chars_of(s);
    let mut n: usize = 0;
    let mut i: usize = 0;
    assert(v@.skip(0) =~= v@);
    while i < v.len()
        invariant
            i <= v.len(),
            n <= i,
            v@ == s@,
            n + word_length(v@.skip(i as int)) == word_length(s@),
        decreases v.len() - i,
    {
        let ghost rest = v@.skip(i as int);
        assert(rest.len() == v.len() - i);
        if v[i] == '\x1b' && v.len() - i > 1 && v[i + 1] == '[' {
            let j = run_end(&v, i + 1, Run::Except('m'));
            proof {
                assert(rest.skip(1) =~= v@.skip(i + 1));
                assert(escape_starts(rest));
            }
            if j < v.len() {
                assert(after_colour(rest) =~= v@.skip(j + 1));
                i = j + 1;
            } else {
                assert(after_colour(rest) =~= v@.skip(j as int));
                i = j;
            }
        } else {
            assert(!escape_starts(rest));
            assert(rest.skip(1) =~= v@.skip(i + 1));
            n += 1;
            i += 1;
        }
    }
    assert(v@.skip(i as int) =~= seq![]);
    n
}

/// How words are set on lines.
pub struct Layout {
    pub color: Style,
    /// The blanks before each line but the first.
    pub indent: usize,
    /// The columns of a line.
    pub cols: usize,
}

/// Whether a word goes to a new line.
pub open spec fn breaks(l: Layout, word: Seq<char>, pos: int, first: bool) -> bool {
    !first && pos + word_length(word) > l.cols
}

/// The column after a word.
pub open spec fn column_after(l: Layout, word: Seq<char>, pos: int, first: bool) -> int {
    (if breaks(l, word, pos, first) {
        l.indent as int
    } else {
        pos
    }) + word_length(word)
}

/// Whether a separator follows a word.
pub open spec fn parted(l: Layout, end: int, more: bool, sep: Seq<char>) -> bool {
    more && end + encode_utf8(sep).len() < l.cols
}

/// A word with what comes before and after it.
pub open spec fn set_word(
    l: Layout,
    word: Seq<char>,
    pos: int,
    first: bool,
    more: bool,
    sep: Seq<char>,
) -> Seq<char> {
    (if breaks(l, word, pos, first) {
        "\n"@ + repeated(' ', l.indent as nat)
    } else {
        seq![]
    }) + painted(l.color, word) + (if parted(l, column_after(l, word, pos, first), more, sep) {
        sep
    } else {
        seq![]
    })
}

/// The column after a word and its separator.
pub open spec fn set_column(
    l: Layout,
    word: Seq<char>,
    pos: int,
    first: bool,
    more: bool,
    sep: Seq<char>,
) -> int {
    let end = column_after(l, word, pos, first);
    if parted(l, end, more, sep) {
        end + encode_utf8(sep).len()
    } else {
        end
    }
}

/// Words on lines, the first at column `pos`.
pub open spec fn wrapped(
    l: Layout,
    words: Seq<Seq<char>>,
    pos: int,
    first: bool,
    sep: Seq<char>,
) -> Seq<char>
    decreases words.len(),
{
    if words.len() == 0 {
        seq![]
    } else {
        let more = words.len() > 1;
        set_word(l, words[0], pos, first, more, sep) + wrapped(
            l,
            words.skip(1),
            set_column(l, words[0], pos, first, more, sep),
            false,
            sep,
        )
    }
}

/// The words in a colour, one by one.
pub open spec fn painted_all(color: Style, words: Seq<Seq<char>>) -> Seq<Seq<char>> {
    words.map_values(|w: Seq<char>| painted(color, w))
}

/// A line of words, wrapped where the width is known and leaves room beside the indent.
pub open spec fn indented(
    color: Style,
    start: int,
    indent: int,
    cols: Option<usize>,
    sep: Seq<char>,
    words: Seq<Seq<char>>,
) -> Seq<char> {
    (match cols {
        Some(cols) => if cols > indent + 2 {
            wrapped(Layout { color, indent: indent as usize, cols }, words, start, true, sep)
        } else {
            joined(painted_all(color, words), sep)
        },
        None => joined(painted_all(color, words), sep),
    }) + "\n"@
}

/// Appends a word; the column after it.
fn put_word(
    out: &mut String,
    l: &Layout,
    word: &str,
    pos: u128,
    first: bool,
    more: bool,
    sep: &str,
) -> (r: u128)
    requires
        pos <= 2 * usize::MAX,
    ensures
        final(out)@ == old(out)@ + set_word(*l, word@, pos as int, first, more, sep@),
        r == set_column(*l, word@, pos as int, first, more, sep@),
        first ==> r <= pos + usize::MAX || r <= usize::MAX,
        !first ==> r <= 2 * usize::MAX,
{
    let ghost before = out@;
    let ghost mut head: Seq<char> = seq![];
    let ghost mut tail: Seq<char> = seq![];
    let len: u128 = word_len(word) as u128;
    let sep_len: u128 = sep.as_bytes().len() as u128;
    let mut end: u128 = pos + len;
    if !first && end > l.cols as u128 {
        put(out, "\n");
        put(out, repeat(' ', l.indent).as_str());
        end = l.indent as u128 + len;
        proof {
            head = "\n"@ + repeated(' ', l.indent as nat);
        }
    }
    assert(out@ =~= before + head);
    put(out, paint(l.color, word).as_str());
    if more && end + sep_len < l.cols as u128 {
        put(out, sep);
        end = end + sep_len;
        proof {
            tail = sep@;
        }
    }
    assert(out@ =~= before + (head + painted(l.color, word@) + tail));
    end
}

fn wrap_words(l: &Layout, start: usize, sep: &str, words: &Vec<String>) -> (r: String)
    ensures
        r@ == wrapped(*l, texts(words@), start as int, true, sep@),
{
    let mut out = String::new();
    let mut pos: u128 = start as u128;
    let mut i: usize = 0;
    let ghost all = texts(words@);
    assert(all.skip(0) =~= all);
    assert(out@ + wrapped(*l, all, start as int, true, sep@) =~= wrapped(
        *l,
        all,
        start as int,
        true,
        sep@,
    ));
    while i < words.len()
        invariant
            i <= words.len(),
            all == texts(words@),
            pos <= 2 * usize::MAX,
            i == 0 ==> pos <= usize::MAX,
            out@ + wrapped(*l, all.skip(i as int), pos as int, i == 0, sep@) == wrapped(
                *l,
                all,
                start as int,
                true,
                sep@,
            ),
        decreases words.len() - i,
    {
        let ghost rest = all.skip(i as int);
        let ghost before = out@;
        let ghost from = pos;
        assert(rest[0] == words@[i as int]@);
        assert(rest.skip(1) =~= all.skip(i + 1));
        let more = i + 1 < words.len();
        pos = put_word(&mut out, l, words[i].as_str(), pos, i == 0, more, sep);
        proof {
            let set = set_word(*l, rest[0], from as int, i == 0, more, sep@);
            let tail = wrapped(*l, all.skip(i + 1), pos as int, false, sep@);
            assert(wrapped(*l, rest, from as int, i == 0, sep@) == set + tail);
            assert(before + (set + tail) =~= before + set + tail);
        }
        i += 1;
    }
    assert(all.skip(i as int) =~= seq![]);
    assert(out@ + seq![] =~= out@);
    out
}

fn paint_words(color: Style, sep: &str, words: &Vec<String>) -> (r: String)
    ensures
        r@ == joined(painted_all(color, texts(words@)), sep@),
{
    let mut done: Vec<String> = Vec::new();
    let mut i: usize = 0;
    while i < words.len()
        invariant
            i <= words.len(),
            texts(done@) =~= painted_all(color, texts(words@).take(i as int)),
        decreases words.len() - i,
    {
        let ghost before = done@;
        done.push(paint(color, words[i].as_str()));
        assert(texts(done@) =~= texts(before).push(painted(color, words@[i as int]@)));
        i += 1;
        assert(texts(words@).take(i as int) =~= texts(words@).take(i - 1).push(words@[i - 1]@));
    }
    assert(texts(words@).take(i as int) =~= texts(words@));
    crate::text::join(&done, sep)
}

/// The line of words that is printed after `start` columns of a label, with later lines indented.
pub fn print_indent(
    color: Style,
    start: usize,
    indent: usize,
    cols: Option<usize>,
    sep: &str,
    value: &Vec<String>,
) -> (r: String)
    ensures
        r@ == indented(color, start as int, indent as int, cols, sep@, texts(value@)),
{
    let mut out = match cols {
        Some(cols) => {
            if cols as u128 > indent as u128 + 2 {
                wrap_words(&Layout { color, indent, cols }, start, sep, value)
            } else {
                paint_words(color, sep, value)
            }
        },
        None => paint_words(color, sep, value),
    };
    put(&mut out, "\n");
    out
}

/// The first version that is there.
pub open spec fn first_some(list: Seq<Option<String>>) -> Option<Seq<char>>
    decreases list.len(),
{
    if list.len() == 0 {
        None
    } else if list[0] is Some {
        Some(list[0]->0@)
    } else {
        first_some(list.skip(1))
    }
}

/// The installed version of a package.
pub open spec fn installed_version(local: Option<Seq<char>>, dbs: Seq<Option<String>>) -> Option<
    Seq<char>,
> {
    if dbs.len() == 0 {
        local
    } else {
        first_some(dbs)
    }
}

/// The installed version of a package. `local` is its version in the local database, `dbs` its
/// version in each of the local build repositories, which take precedence where there are any.
pub fn old_ver(local: Option<String>, dbs: &Vec<Option<String>>) -> (r: Option<String>)
    ensures
        opt_text(r) == installed_version(opt_text(local), dbs@),
{
    if dbs.len() == 0 {
        return local;
    }
    let mut i: usize = 0;
    assert(dbs@.skip(0) =~= dbs@);
    while i < dbs.len()
        invariant
            i <= dbs.len(),
            first_some(dbs@.skip(i as int)) == first_some(dbs@),
        decreases dbs.len() - i,
    {
        assert(dbs@.skip(i as int).skip(1) =~= dbs@.skip(i + 1));
        match &dbs[i] {
            Some(v) => {
                return Some(v.clone());
            },
            None => {},
        }
        i += 1;
    }
    assert(dbs@.skip(i as int) =~= seq![]);
    None
}

/// A number from the bytes of a name.
pub open spec fn name_hash(bytes: Seq<u8>) -> nat
    decreases bytes.len(),
{
    if bytes.len() == 0 {
        5
    } else {
        (17 * name_hash(bytes.drop_last()) + bytes.last() as nat) % 0x1_0000_0000
    }
}

/// The colour of a repository.
pub open spec fn repo_colour(name: Seq<char>) -> Colour {
    let n = name_hash(encode_utf8(name)) % 6;
    if n == 0 {
        Colour::Blue
    } else if n == 1 {
        Colour::Purple
    } else if n == 2 {
        Colour::Cyan
    } else if n == 3 {
        Colour::Green
    } else if n == 4 {
        Colour::Yellow
    } else {
        Colour::Red
    }
}

/// The name of a repository in a colour of its own.
pub fn color_repo(enabled: bool, name: &str) -> (r: String)
    ensures
        r@ == (if enabled {
            painted(
                Style { foreground: Some(repo_colour(name@)), bold: true, dimmed: false },
                name@,
            )
        } else {
            name@
        }),
{
    if !enabled {
        return name.to_owned();
    }
    let bytes = name.as_bytes();
    let mut col: u64 = 5;
    let mut i: usize = 0;
    while i < bytes.len()
        invariant
            i <= bytes.len(),
            bytes@ == encode_utf8(name@),
            col < 0x1_0000_0000,
            col == name_hash(bytes@.take(i as int)),
        decreases bytes.len() - i,
    {
        assert(bytes@.take(i + 1).drop_last() =~= bytes@.take(i as int));
        col = (17 * col + bytes[i] as u64) % 0x1_0000_0000;
        i += 1;
    }
    assert(bytes@.take(i as int) =~= bytes@);
    let n: u64 = col % 6;
    let colour = if n == 0 {
        Colour::Blue
    } else if n == 1 {
        Colour::Purple
    } else if n == 2 {
        Colour::Cyan
    } else if n == 3 {
        Colour::Green
    } else if n == 4 {
        Colour::Yellow
    } else {
        Colour::Red
    };
    paint(Style { foreground: Some(colour), bold: true, dimmed: false }, name)
}

/// The line for a target.
pub open spec fn target_line(targ: Seq<char>, quiet: bool) -> Seq<char> {
    (match (quiet, split_once(targ, '/')) {
        (true, Some(parts)) => parts.1,
        _ => targ,
    }) + "\n"@
}

/// The line for a target: all of it, or what follows the first `/`.
pub fn print_target(targ: &str, quiet: bool) -> (r: String)
    requires
        quiet ==> split_once(targ@, '/') is Some,
    ensures
        r@ == target_line(targ@, quiet),
{
    let mut out = if quiet {
        match cut_once(targ, '/') {
            Some(p) => p.1,
            None => String::new(),
        }
    } else {
        targ.to_owned()
    };
    put(&mut out, "\n");
    out
}

/// A package in a list.
#[derive(Debug, Clone)]
pub struct ListRow {
    pub repository: String,
    pub name: String,
    pub version: String,
    pub status: String,
    pub description: String,
}

/// The columns of a character; a control character takes none.
pub open spec fn columns(c: char) -> nat {
    match char_width(c) {
        Some(w) => w as nat,
        None => 0,
    }
}

/// How many characters at the start of `s` fit into `room` columns.
pub open spec fn fitting(s: Seq<char>, room: int) -> int
    decreases s.len(),
{
    if s.len() == 0 || columns(s[0]) > room {
        0
    } else {
        1 + fitting(s.skip(1), room - columns(s[0]))
    }
}

/// `s` where it is no wider than `max`; otherwise its start with three dots after it.
pub open spec fn truncated(s: Seq<char>, max: nat) -> Seq<char> {
    if max == 0 {
        seq![]
    } else if text_width(s) <= max {
        s
    } else if max <= 3 {
        repeated('.', max)
    } else {
        s.take(fitting(s, max - 3)) + "..."@
    }
}

/// The columns of the characters of `s`, one by one.
pub open spec fn columns_of(s: Seq<char>) -> nat
    decreases s.len(),
{
    if s.len() == 0 {
        0
    } else {
        columns(s[0]) + columns_of(s.skip(1))
    }
}

/// What is kept of a text in `room` columns has no more columns, and the next character would
/// not fit.
pub proof fn fitting_is_longest(s: Seq<char>, room: int)
    requires
        0 <= room,
    ensures
        0 <= fitting(s, room) <= s.len(),
        columns_of(s.take(fitting(s, room))) <= room,
        fitting(s, room) < s.len() ==> columns_of(s.take(fitting(s, room) + 1)) > room,
    decreases s.len(),
{
    let n = fitting(s, room);
    if s.len() > 0 && columns(s[0]) <= room {
        let rest = s.skip(1);
        fitting_is_longest(rest, room - columns(s[0]));
        assert(s.take(n).skip(1) =~= rest.take(n - 1));
        assert(s.take(n)[0] == s[0]);
        if n < s.len() {
            assert(s.take(n + 1).skip(1) =~= rest.take(n));
            assert(s.take(n + 1)[0] == s[0]);
        }
    } else if s.len() > 0 {
        assert(s.take(1)[0] == s[0]);
        assert(s.take(1).skip(1) =~= seq![]);
        assert(columns_of(seq![]) == 0);
    }
}

proof fn lemma_narrow_fitting(s: Seq<char>, room: int)
    requires
        all_narrow(s),
        0 <= room <= s.len(),
    ensures
        fitting(s, room) == room,
    decreases s.len(),
{
    if room > 0 {
        assert(is_narrow(s[0]));
        assert(all_narrow(s.skip(1)));
        lemma_narrow_fitting(s.skip(1), room - 1);
    }
}

/// A text of narrow characters, such as printable ASCII, is kept where it has no more of them than
/// the width has columns. A longer one takes up the width: with dots alone where that is tiny,
/// otherwise with the start of the text and three dots. Cutting it again changes nothing.
pub proof fn narrow_text_takes_up_the_width(s: Seq<char>, max: nat)
    requires
        all_narrow(s),
        s.len() <= usize::MAX,
    ensures
        truncated(s, max).len() <= max,
        truncated(s, max) == s <==> s.len() <= max,
        s.len() > max && max <= 3 ==> truncated(s, max) == repeated('.', max),
        s.len() > max && max > 3 ==> truncated(s, max) == s.take(max - 3) + "..."@,
        s.len() > max ==> truncated(s, max).len() == max,
        truncated(truncated(s, max), max) == truncated(s, max),
{
    reveal_strlit("...");
    let t = truncated(s, max);
    if s.len() > max && max > 3 {
        lemma_narrow_fitting(s, max - 3);
    }
    if s.len() <= max {
        if max == 0 {
            assert(s =~= seq![]);
        }
    } else {
        assert(t.len() == max);
        assert forall|i: int| 0 <= i < t.len() implies is_narrow(#[trigger] t[i]) by {
            if max > 3 && i < max - 3 {
                assert(t[i] == s[i]);
            } else {
                assert(t[i] == '.');
            }
        }
        assert(all_narrow(t));
        if max == 0 {
            assert(t =~= seq![]);
        }
    }
}

fn count_fitting(v: &Vec<char>, room: usize) -> (r: usize)
    ensures
        r <= v.len(),
        r == fitting(v@, room as int),
{
    let mut left: usize = room;
    let mut i: usize = 0;
    assert(v@.skip(0) =~= v@);
    while i < v.len()
        invariant
            i <= v.len(),
            i + fitting(v@.skip(i as int), left as int) == fitting(v@, room as int),
        decreases v.len() - i,
    {
        let cw: usize = match width_of_char(v[i]) {
            Some(w) => w,
            None => 0,
        };
        assert(v@.skip(i as int).skip(1) =~= v@.skip(i + 1));
        if cw > left {
            return i;
        }
        left -= cw;
        i += 1;
    }
    i
}

/// A text in at most `max_width` columns, with dots where something is left out.
pub fn truncate_to_width(s: &str, max_width: usize) -> (r: String)
    ensures
        r@ == truncated(s@, max_width as nat),
{
    if max_width == 0 {
        return String::new();
    }
    if width(s) <= max_width {
        return s.to_owned();
    }
    if max_width <= 3 {
        return repeat('.', max_width);
    }
    let v = chars_of(s);
    let n = count_fitting(&v, max_width - 3);
    let mut out = string_of(&v, 0, n);
    assert(v@.subrange(0, n as int) =~= v@.take(n as int));
    put(&mut out, "...");
    out
}

/// The line above a section.
pub fn print_section_header(config: &Config, title: &str) -> (r: String)
    ensures
        r@ == heading(config.color, title@) + "\n"@,
{
    let mut out = heading_text(&config.color, title);
    put(&mut out, "\n");
    out
}

/// The width of the widest text.
pub open spec fn widest(list: Seq<Seq<char>>) -> int
    decreases list.len(),
{
    if list.len() == 0 {
        0
    } else {
        let before = widest(list.drop_last());
        let last = text_width(list.last()) as int;
        if last > before {
            last
        } else {
            before
        }
    }
}

/// The width of the widest text.
pub fn widest_of(list: &Vec<String>) -> (r: usize)
    ensures
        r == widest(texts(list@)),
{
    let mut best: usize = 0;
    let mut i: usize = 0;
    assert(texts(list@).take(0) =~= seq![]);
    while i < list.len()
        invariant
            i <= list.len(),
            best == widest(texts(list@).take(i as int)),
        decreases list.len() - i,
    {
        assert(texts(list@).take(i + 1).drop_last() =~= texts(list@).take(i as int));
        let w = width(list[i].as_str());
        if w > best {
            best = w;
        }
        i += 1;
    }
    assert(texts(list@).take(i as int) =~= texts(list@));
    best
}

pub open spec fn min(a: int, b: int) -> int {
    if a < b {
        a
    } else {
        b
    }
}

pub open spec fn max(a: int, b: int) -> int {
    if a > b {
        a
    } else {
        b
    }
}

/// `a - b`, or zero where `b` is the larger.
pub open spec fn minus(a: int, b: int) -> int {
    if a > b {
        a - b
    } else {
        0
    }
}

/// The smaller number.
pub fn smaller(a: usize, b: usize) -> (r: usize)
    ensures
        r == min(a as int, b as int),
{
    if a < b {
        a
    } else {
        b
    }
}

/// The larger number.
pub fn larger(a: usize, b: usize) -> (r: usize)
    ensures
        r == max(a as int, b as int),
{
    if a > b {
        a
    } else {
        b
    }
}

/// Repository and version of a row.
pub open spec fn repo_version(row: ListRow) -> Seq<char> {
    row.repository@ + " "@ + row.version@
}

pub open spec fn row_names(rows: Seq<ListRow>) -> Seq<Seq<char>> {
    rows.map_values(|r: ListRow| r.name@)
}

pub open spec fn row_versions(rows: Seq<ListRow>) -> Seq<Seq<char>> {
    rows.map_values(|r: ListRow| repo_version(r))
}

pub open spec fn row_states(rows: Seq<ListRow>) -> Seq<Seq<char>> {
    rows.map_values(|r: ListRow| r.status@)
}

/// The widths of the columns of a list.
pub struct ListWidths {
    pub name: usize,
    pub version: usize,
    pub status: usize,
    pub description: usize,
}

/// The columns of the terminal for a list.
pub open spec fn list_terminal(config: Config) -> int {
    max(
        match config.cols {
            Some(c) => c as int,
            None => 120,
        },
        80,
    )
}

/// The widths of a list: each column is as wide as its widest cell up to a limit, and the
/// description takes what is left of the terminal.
pub open spec fn list_widths(config: Config, rows: Seq<ListRow>) -> ListWidths {
    let name = min(widest(row_names(rows)), 38);
    let version = min(widest(row_versions(rows)), 34);
    let status = min(widest(row_states(rows)), 18);
    ListWidths {
        name: name as usize,
        version: version as usize,
        status: status as usize,
        description: max(minus(list_terminal(config), name + version + status + 6), 12) as usize,
    }
}

/// A cell and the blanks that fill its column, given the width that the cell counts for.
pub open spec fn padded_cell(style: Style, cell: Seq<char>, counted: int, column: int) -> Seq<char> {
    painted(style, cell) + repeated(' ', minus(column, counted) as nat)
}

/// The line with the names of the columns.
pub open spec fn list_header(config: Config, w: ListWidths) -> Seq<char> {
    let c = config.color;
    let name = truncated(config.messages.name@, w.name as nat);
    let version = truncated(config.messages.repo_version@, w.version as nat);
    let status = truncated(config.messages.status@, w.status as nat);
    let description = truncated(config.messages.description@, w.description as nat);
    padded_cell(c.field, name, text_width(name) as int, w.name as int) + "  "@ + padded_cell(
        c.field,
        version,
        text_width(version) as int,
        w.version as int,
    ) + "  "@ + padded_cell(c.field, status, text_width(status) as int, w.status as int) + "  "@
        + painted(c.field, description) + "\n"@
}

/// The line for a package.
pub open spec fn list_line(config: Config, row: ListRow, w: ListWidths) -> Seq<char> {
    let c = config.color;
    padded_cell(
        c.sl_pkg,
        truncated(row.name@, w.name as nat),
        text_width(row.name@) as int,
        w.name as int,
    ) + "  "@ + padded_cell(
        c.sl_repo,
        truncated(repo_version(row), w.version as nat),
        text_width(repo_version(row)) as int,
        w.version as int,
    ) + "  "@ + padded_cell(
        c.sl_installed,
        truncated(row.status@, w.status as nat),
        text_width(row.status@) as int,
        w.status as int,
    ) + "  "@ + painted(c.install_version, truncated(row.description@, w.description as nat))
        + "\n"@
}

/// The lines for packages.
pub open spec fn list_lines(config: Config, rows: Seq<ListRow>, w: ListWidths) -> Seq<char>
    decreases rows.len(),
{
    if rows.len() == 0 {
        seq![]
    } else {
        list_lines(config, rows.drop_last(), w) + list_line(config, rows.last(), w)
    }
}

fn repo_version_of(row: &ListRow) -> (r: String)
    ensures
        r@ == repo_version(*row),
{
    let mut out = row.repository.clone();
    put(&mut out, " ");
    put(&mut out, row.version.as_str());
    out
}

fn put_cell(out: &mut String, style: Style, cell: &str, counted: usize, column: usize)
    ensures
        final(out)@ == old(out)@ + padded_cell(style, cell@, counted as int, column as int),
{
    let ghost before = out@;
    put(out, paint(style, cell).as_str());
    let blanks: usize = if column > counted {
        column - counted
    } else {
        0
    };
    put(out, repeat(' ', blanks).as_str());
    assert(out@ =~= before + padded_cell(style, cell@, counted as int, column as int));
}

fn widths_of_list(config: &Config, rows: &Vec<ListRow>) -> (w: ListWidths)
    ensures
        w == list_widths(*config, rows@),
        w.name <= 38,
        w.version <= 34,
        w.status <= 18,
{
    let mut names: Vec<String> = Vec::new();
    let mut versions: Vec<String> = Vec::new();
    let mut states: Vec<String> = Vec::new();
    let mut i: usize = 0;
    while i < rows.len()
        invariant
            i <= rows.len(),
            texts(names@) =~= row_names(rows@.take(i as int)),
            texts(versions@) =~= row_versions(rows@.take(i as int)),
            texts(states@) =~= row_states(rows@.take(i as int)),
        decreases rows.len() - i,
    {
        let ghost (n, v, s) = (names@, versions@, states@);
        names.push(rows[i].name.clone());
        versions.push(repo_version_of(&rows[i]));
        states.push(rows[i].status.clone());
        proof {
            let row = rows@[i as int];
            assert(texts(names@) =~= texts(n).push(row.name@));
            assert(texts(versions@) =~= texts(v).push(repo_version(row)));
            assert(texts(states@) =~= texts(s).push(row.status@));
            assert(rows@.take(i + 1) =~= rows@.take(i as int).push(row));
        }
        i += 1;
    }
    assert(rows@.take(i as int) =~= rows@);
    let name = smaller(widest_of(&names), 38);
    let version = smaller(widest_of(&versions), 34);
    let status = smaller(widest_of(&states), 18);
    let term = larger(
        match config.cols {
            Some(c) => c,
            None => 120,
        },
        80,
    );
    let fixed: usize = name + version + status + 6;
    let rest: usize = if term > fixed {
        term - fixed
    } else {
        0
    };
    ListWidths { name, version, status, description: larger(rest, 12) }
}

fn put_list_header(out: &mut String, config: &Config, w: &ListWidths)
    ensures
        final(out)@ == old(out)@ + list_header(*config, *w),
{
    let c = &config.color;
    let ghost before = out@;
    let name = truncate_to_width(config.messages.name.as_str(), w.name);
    let version = truncate_to_width(config.messages.repo_version.as_str(), w.version);
    let status = truncate_to_width(config.messages.status.as_str(), w.status);
    let description = truncate_to_width(config.messages.description.as_str(), w.description);
    put_cell(out, c.field, name.as_str(), width(name.as_str()), w.name);
    put(out, "  ");
    put_cell(out, c.field, version.as_str(), width(version.as_str()), w.version);
    put(out, "  ");
    put_cell(out, c.field, status.as_str(), width(status.as_str()), w.status);
    put(out, "  ");
    put(out, paint(c.field, description.as_str()).as_str());
    put(out, "\n");
    assert(out@ =~= before + list_header(*config, *w));
}

fn put_list_line(out: &mut String, config: &Config, row: &ListRow, w: &ListWidths)
    ensures
        final(out)@ == old(out)@ + list_line(*config, *row, *w),
{
    let c = &config.color;
    let ghost before = out@;
    let rv = repo_version_of(row);
    let name = truncate_to_width(row.name.as_str(), w.name);
    put_cell(out, c.sl_pkg, name.as_str(), width(row.name.as_str()), w.name);
    put(out, "  ");
    let version = truncate_to_width(rv.as_str(), w.version);
    put_cell(out, c.sl_repo, version.as_str(), width(rv.as_str()), w.version);
    put(out, "  ");
    let status = truncate_to_width(row.status.as_str(), w.status);
    put_cell(out, c.sl_installed, status.as_str(), width(row.status.as_str()), w.status);
    put(out, "  ");
    let description = truncate_to_width(row.description.as_str(), w.description);
    put(out, paint(c.install_version, description.as_str()).as_str());
    put(out, "\n");
    assert(out@ =~= before + list_line(*config, *row, *w));
}

/// The table of a list of packages; nothing where there is none.
pub fn print_dnf_like_rows(config: &Config, rows: &Vec<ListRow>) -> (r: String)
    ensures
        rows@.len() == 0 ==> r@.len() == 0,
        rows@.len() > 0 ==> r@ == list_header(*config, list_widths(*config, rows@)) + list_lines(
            *config,
            rows@,
            list_widths(*config, rows@),
        ),
{
    let mut out = String::new();
    if rows.len() == 0 {
        return out;
    }
    let w = widths_of_list(config, rows);
    put_list_header(&mut out, config, &w);
    assert(out@ =~= list_header(*config, w));
    let mut i: usize = 0;
    while i < rows.len()
        invariant
            i <= rows.len(),
            out@ =~= list_header(*config, w) + list_lines(*config, rows@.take(i as int), w),
        decreases rows.len() - i,
    {
        assert(rows@.take(i + 1).drop_last() =~= rows@.take(i as int));
        put_list_line(&mut out, config, &rows[i], &w);
        i += 1;
    }
    assert(rows@.take(i as int) =~= rows@);
    out
}

} // verus!
