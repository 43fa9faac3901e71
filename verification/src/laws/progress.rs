//! What lines and bars of progress show.

#[allow(unused_imports)]
use crate::fmt::{all_narrow, narrow_text_takes_up_the_width};
#[allow(unused_imports)]
use crate::laws::helper::lemma_within;
#[allow(unused_imports)]
use crate::number::decimal;
#[allow(unused_imports)]
use crate::text::{before, first_at, lemma_trailing_is, mentions, occurs_at, Run};
#[allow(unused_imports)]
use crate::ui::preview::size_text;
#[allow(unused_imports)]
use crate::ui::progress::{
    aligned, bar, before_dash, cut_filename, download_file, download_left, download_name,
    download_parts, download_right, fitted_line, install_left, install_line, install_right,
    percent_done, seen_width, short_line, time_left, widest_line, without_sig, DownloadParts,
};
#[allow(unused_imports)]
use crate::ui::render::{
    block, block_lines, fresh_download, notes_download, notes_install, progressed, reported, slot,
    BoardView, DownloadLine, DownloadState, InstallState, TransactionRenderController,
};
use vstd::prelude::*;

verus! {

/// The columns between the brackets of a bar that was asked for with a width.
pub open spec fn room_in_bar(width: int) -> int {
    if width < 1 {
        1
    } else if width > 52 {
        52
    } else {
        width
    }
}

/// A bar that is not full has its arrow at the share that is done: behind it everything is done,
/// before it nothing is. A full bar is done everywhere.
pub proof fn bars_show_the_share_that_is_done(percent: nat, width: int, n: int, i: int)
    requires
        0 <= i < room_in_bar(width),
        n == percent * room_in_bar(width) / 100,
    ensures
        ({
            let b = bar(percent, width);
            let w = room_in_bar(width);
            &&& b.len() == w + 2
            &&& b[0] == '['
            &&& b[w + 1] == ']'
            &&& percent >= 100 ==> b[1 + i] == '='
            &&& percent < 100 && i < n ==> b[1 + i] == '='
            &&& percent < 100 && i == n ==> b[1 + i] == '➔'
            &&& percent < 100 && i > n ==> b[1 + i] == '-'
        }),
{
    reveal_strlit("[");
    reveal_strlit("]");
    reveal_strlit("➔");
    let w = room_in_bar(width);
    if percent < 100 {
        assert(0 <= percent * w < 100 * w) by (nonlinear_arith)
            requires
                0 <= percent < 100,
                1 <= w,
        ;
        assert(n < w);
    }
}

/// A bar only grows: what is done stays done as the percentage rises.
pub proof fn bars_only_grow(p: nat, q: nat, width: int, i: int)
    requires
        p <= q,
        0 <= i < room_in_bar(width),
        bar(p, width)[1 + i] == '=',
    ensures
        bar(q, width)[1 + i] == '=',
{
    let w = room_in_bar(width);
    assert(p * w <= q * w) by (nonlinear_arith)
        requires
            p <= q,
            0 <= w,
    ;
    bars_show_the_share_that_is_done(p, width, (p * w / 100) as int, i);
    bars_show_the_share_that_is_done(q, width, (q * w / 100) as int, i);
}

/// The percentage is the share of the whole that was downloaded, rounded down: nothing of nothing,
/// and never more than all.
pub proof fn percentages_are_shares(downloaded: u64, total: u64)
    requires
        downloaded * 100 <= u64::MAX,
    ensures
        total == 0 ==> percent_done(downloaded, total) == 0,
        total > 0 && downloaded >= total ==> percent_done(downloaded, total) == 100,
        total > 0 && downloaded < total ==> {
            &&& percent_done(downloaded, total) * total <= downloaded * 100
            &&& downloaded * 100 < (percent_done(downloaded, total) + 1) * total
        },
{
    if total > 0 {
        let d = downloaded as int;
        let t = total as int;
        let q = d * 100 / t;
        assert(q * t <= d * 100 < (q + 1) * t) by (nonlinear_arith)
            requires
                t > 0,
                q == d * 100 / t,
        ;
        if d >= t {
            assert(q >= 100) by (nonlinear_arith)
                requires
                    t > 0,
                    d >= t,
                    q == d * 100 / t,
            ;
        } else {
            assert(q < 100) by (nonlinear_arith)
                requires
                    t > 0,
                    0 <= d < t,
                    q == d * 100 / t,
            ;
        }
    }
}

/// What is left takes no time where nothing is left, an unknown time where nothing comes in, and
/// otherwise its minutes, where there are any, and its seconds.
pub proof fn times_are_given_in_minutes_and_seconds(left: u64, minutes: u64, seconds: u64)
    requires
        left > 0,
        seconds < 60,
        minutes * 60 + seconds <= u64::MAX,
    ensures
        forall|s: Option<u64>| time_left(0, s) == "0s"@,
        time_left(left, None) == "--"@,
        minutes == 0 ==> time_left(left, Some(seconds)) == decimal(seconds as nat) + "s"@,
        minutes > 0 ==> time_left(left, Some((minutes * 60 + seconds) as u64)) == decimal(
            minutes as nat,
        ) + "m"@ + decimal(seconds as nat) + "s"@,
{
    let n = (minutes * 60 + seconds) as u64;
    assert(n / 60 == minutes && n % 60 == seconds);
}

proof fn lemma_before_dash(a: Seq<char>, b: Seq<char>)
    requires
        !b.contains('-'),
    ensures
        before_dash(a + "-"@ + b) == Some(a),
{
    reveal_strlit("-");
    let s = a + "-"@ + b;
    let n = b.len() as int;
    assert forall|i: int| s.len() - n <= i < s.len() implies crate::text::fits(
        Run::Except('-'),
        #[trigger] s[i],
    ) by {
        let k = i - (s.len() - n);
        assert(s[i] == b[k]);
        assert(b.contains(b[k]));
    }
    assert(s[s.len() - n - 1] == '-');
    lemma_trailing_is(s, Run::Except('-'), n);
    assert(s.take(s.len() - n - 1) =~= a);
}

proof fn lemma_after_slash(dir: Seq<char>, file: Seq<char>)
    requires
        !file.contains('/'),
    ensures
        crate::text::after_last(dir + "/"@ + file, '/') == file,
{
    reveal_strlit("/");
    let s = dir + "/"@ + file;
    let n = file.len() as int;
    assert forall|i: int| s.len() - n <= i < s.len() implies crate::text::fits(
        Run::Except('/'),
        #[trigger] s[i],
    ) by {
        let k = i - (s.len() - n);
        assert(s[i] == file[k]);
        assert(file.contains(file[k]));
    }
    assert(s[s.len() - n - 1] == '/');
    lemma_trailing_is(s, Run::Except('/'), n);
    assert(s.skip(s.len() - n) =~= file);
}

/// The package of a download is what stands in the name of its file before version, release and
/// architecture, in whatever directory, and for a signature as for the file that it signs.
pub proof fn downloads_go_by_their_packages(
    dir: Seq<char>,
    name: Seq<char>,
    version: Seq<char>,
    release: Seq<char>,
    arch: Seq<char>,
    ending: Seq<char>,
)
    requires
        !version.contains('-'),
        !release.contains('-'),
        !arch.contains('-'),
        ({
            let stem = name + "-"@ + version + "-"@ + release + "-"@ + arch;
            let file = stem + ".pkg.tar"@ + ending;
            &&& !file.contains('/')
            &&& first_at(file, ".pkg.tar"@, stem.len() as int)
            &&& !".sig"@.is_suffix_of(dir + "/"@ + file)
        }),
    ensures
        ({
            let stem = name + "-"@ + version + "-"@ + release + "-"@ + arch;
            let file = stem + ".pkg.tar"@ + ending;
            &&& download_file(dir + "/"@ + file) == file
            &&& download_file(dir + "/"@ + file + ".sig"@) == file
            &&& download_name(dir + "/"@ + file) == name
            &&& download_name(dir + "/"@ + file + ".sig"@) == name
        }),
{
    reveal_strlit(".sig");
    let stem = name + "-"@ + version + "-"@ + release + "-"@ + arch;
    let file = stem + ".pkg.tar"@ + ending;
    let path = dir + "/"@ + file;
    let signed = path + ".sig"@;
    lemma_after_slash(dir, file);
    assert(signed.subrange(signed.len() - 4, signed.len() as int) =~= ".sig"@);
    assert(".sig"@.is_suffix_of(signed));
    assert(signed.take(signed.len() - 4) =~= path);
    assert(without_sig(path) == path);
    assert(without_sig(signed) == without_sig(path));
    let at = choose|i: int| first_at(file, ".pkg.tar"@, i);
    let k = stem.len() as int;
    assert(at == k) by {
        if at < k {
            assert(occurs_at(file, ".pkg.tar"@, at));
        }
        if k < at {
            assert(occurs_at(file, ".pkg.tar"@, k));
        }
    }
    assert(occurs_at(file, ".pkg.tar"@, k));
    assert(file.take(k) =~= stem);
    lemma_before_dash(name + "-"@ + version + "-"@ + release, arch);
    lemma_before_dash(name + "-"@ + version, release);
    lemma_before_dash(name, version);
}

proof fn lemma_held_in_part(a: Seq<char>, b: Seq<char>, c: Seq<char>, word: Seq<char>)
    requires
        mentions(b, word),
    ensures
        mentions(a + b + c, word),
{
    let s = a + b + c;
    let i = choose|i: int| occurs_at(b, word, i);
    let n = a.len() + i;
    assert(s.subrange(n, n + word.len()) =~= b.subrange(i, i + word.len()));
    assert(occurs_at(s, word, n));
}

proof fn lemma_install_ends(
    left: Seq<char>,
    percent: nat,
    current: nat,
    total: nat,
    term: int,
    b: int,
)
    ensures
        left.is_prefix_of(install_line(left, percent, current, total, term, b)),
        exists|c: int| #[trigger]
            install_right(percent, current, total, c).is_suffix_of(
                install_line(left, percent, current, total, term, b),
            ),
    decreases b,
{
    let right = install_right(percent, current, total, b);
    let line = install_line(left, percent, current, total, term, b);
    if aligned(left, right, term) is Some || b <= 12 {
        assert(line.subrange(0, left.len() as int) =~= left);
        assert(line.subrange(line.len() - right.len(), line.len() as int) =~= right);
        assert(right.is_suffix_of(line));
    } else {
        lemma_install_ends(left, percent, current, total, term, b - 1);
        let c = choose|c: int| #[trigger]
            install_right(percent, current, total, c).is_suffix_of(
                install_line(left, percent, current, total, term, b - 1),
            );
        assert(install_right(percent, current, total, c).is_suffix_of(line));
    }
}

proof fn lemma_install_left(package: Seq<char>, removing: bool)
    ensures
        mentions(install_left(package, removing), package),
        removing ==> "\x1b[36mRemoving"@.is_prefix_of(install_left(package, removing)),
        !removing ==> "\x1b[36mInstalling"@.is_prefix_of(install_left(package, removing)),
{
    let left = install_left(package, removing);
    if removing {
        lemma_within("\x1b[36mRemoving\x1b[0m \x1b[1m"@, package, "\x1b[0m..."@);
        reveal_strlit("\x1b[36mRemoving\x1b[0m \x1b[1m");
        reveal_strlit("\x1b[36mRemoving");
        assert(left.subrange(0, "\x1b[36mRemoving"@.len() as int) =~= "\x1b[36mRemoving"@);
    } else {
        lemma_within("\x1b[36mInstalling\x1b[0m \x1b[1m"@, package, "\x1b[0m..."@);
        reveal_strlit("\x1b[36mInstalling\x1b[0m \x1b[1m");
        reveal_strlit("\x1b[36mInstalling");
        assert(left.subrange(0, "\x1b[36mInstalling"@.len() as int) =~= "\x1b[36mInstalling"@);
    }
}

proof fn lemma_install_right(percent: nat, current: nat, total: nat, b: int)
    ensures
        mentions(
            install_right(percent, current, total, b),
            decimal(current) + "/"@ + decimal(total),
        ),
        mentions(install_right(percent, current, total, b), decimal(percent) + "%"@),
{
    let right = install_right(percent, current, total, b);
    let count = decimal(current) + "/"@ + decimal(total);
    let share = decimal(percent) + "%"@;
    let bars = crate::ui::progress::painted_bar(percent, b);
    let rest = "\x1b[0m "@ + decimal(percent) + "% "@ + bars;
    assert(right =~= "\x1b[90m"@ + count + rest);
    lemma_within("\x1b[90m"@, count, rest);
    reveal_strlit("% ");
    reveal_strlit("%");
    assert("% "@ =~= "%"@ + seq![' ']);
    let head = "\x1b[90m"@ + count + "\x1b[0m "@;
    assert(right =~= head + share + (seq![' '] + bars));
    lemma_within(head, share, seq![' '] + bars);
}

proof fn lemma_starts(line: Seq<char>, left: Seq<char>, word: Seq<char>)
    requires
        left.is_prefix_of(line),
    ensures
        mentions(left, word) ==> mentions(line, word),
        word.is_prefix_of(left) ==> word.is_prefix_of(line),
{
    let nothing = Seq::<char>::empty();
    let n = left.len() as int;
    assert(line.subrange(0, n) == left);
    assert(line =~= nothing + left + line.skip(n));
    if mentions(left, word) {
        lemma_held_in_part(nothing, left, line.skip(n), word);
    }
    if word.is_prefix_of(left) {
        assert(line.subrange(0, word.len() as int) =~= left.subrange(0, word.len() as int));
    }
}

proof fn lemma_ends(line: Seq<char>, right: Seq<char>, word: Seq<char>)
    requires
        right.is_suffix_of(line),
        mentions(right, word),
    ensures
        mentions(line, word),
{
    let nothing = Seq::<char>::empty();
    let n = line.len() - right.len();
    assert(line.subrange(n, line.len() as int) == right);
    assert(line =~= line.take(n) + right + nothing);
    lemma_held_in_part(line.take(n), right, nothing, word);
}

/// The line of a package tells what is done with it and how far it is, on a terminal of any width:
/// its name, whether it is installed or removed, its number among all, and the percentage.
pub proof fn lines_of_packages_tell_what_is_done(
    package: Seq<char>,
    removing: bool,
    percent: nat,
    current: nat,
    total: nat,
    term: int,
    b: int,
)
    ensures
        ({
            let line = install_line(install_left(package, removing), percent, current, total, term, b);
            &&& mentions(line, package)
            &&& removing ==> "\x1b[36mRemoving"@.is_prefix_of(line)
            &&& !removing ==> "\x1b[36mInstalling"@.is_prefix_of(line)
            &&& mentions(line, decimal(current) + "/"@ + decimal(total))
            &&& mentions(line, decimal(percent) + "%"@)
        }),
{
    let left = install_left(package, removing);
    let line = install_line(left, percent, current, total, term, b);
    lemma_install_ends(left, percent, current, total, term, b);
    let c = choose|c: int| #[trigger] install_right(percent, current, total, c).is_suffix_of(line);
    let right = install_right(percent, current, total, c);
    lemma_install_left(package, removing);
    lemma_install_right(percent, current, total, c);
    lemma_starts(line, left, package);
    lemma_starts(line, left, "\x1b[36mRemoving"@);
    lemma_starts(line, left, "\x1b[36mInstalling"@);
    lemma_ends(line, right, decimal(current) + "/"@ + decimal(total));
    lemma_ends(line, right, decimal(percent) + "%"@);
}

proof fn lemma_widest_line(p: DownloadParts, term: int, b: int)
    ensures
        widest_line(p, term, b) matches Some(line) ==> exists|c: int| #[trigger]
            download_right(p, p.file, c).is_suffix_of(line) && download_left(p).is_prefix_of(line),
    decreases b,
{
    let left = download_left(p);
    let right = download_right(p, p.file, b);
    match aligned(left, right, term) {
        Some(line) => {
            assert(line.subrange(0, left.len() as int) =~= left);
            assert(line.subrange(line.len() - right.len(), line.len() as int) =~= right);
            assert(right.is_suffix_of(line));
        },
        None => if b > 20 {
            lemma_widest_line(p, term, b - 1);
        },
    }
}

/// The bytes of a download that are left.
pub open spec fn bytes_left(downloaded: u64, total: u64) -> nat {
    if downloaded < total {
        (total - downloaded) as nat
    } else {
        0
    }
}

proof fn lemma_download_left(
    filename: Seq<char>,
    downloaded: u64,
    total: u64,
    time: Seq<char>,
    speed: Seq<char>,
)
    ensures
        mentions(
            download_left(download_parts(filename, downloaded, total, time, speed)),
            download_name(filename),
        ),
        mentions(
            short_line(download_parts(filename, downloaded, total, time, speed)),
            download_name(filename),
        ),
{
    let p = download_parts(filename, downloaded, total, time, speed);
    let name = download_name(filename);
    let nothing = Seq::<char>::empty();
    lemma_within("\x1b[1m"@, name, "\x1b[0m..."@);
    lemma_held_in_part("Downloading "@, p.name, nothing, name);
    assert("Downloading "@ + p.name + nothing =~= download_left(p));
    let rest = " "@ + crate::ui::progress::painted_bar(p.percent, 20);
    lemma_held_in_part(nothing, p.name, rest, name);
    assert(nothing + p.name + rest =~= short_line(p));
}

proof fn lemma_numbers(
    filename: Seq<char>,
    downloaded: u64,
    total: u64,
    time: Seq<char>,
    speed: Seq<char>,
)
    ensures
        ({
            let n = download_parts(filename, downloaded, total, time, speed).numbers;
            &&& mentions(n, size_text(bytes_left(downloaded, total)))
            &&& mentions(n, time)
            &&& mentions(n, speed)
            &&& mentions(n, decimal(percent_done(downloaded, total) as nat) + "%"@)
        }),
{
    let nothing = Seq::<char>::empty();
    let size = size_text(bytes_left(downloaded, total));
    let share = decimal(percent_done(downloaded, total) as nat) + "%"@;
    let a = " \x1b[33m["@;
    let b = " left]\x1b[0m \x1b[33m"@;
    let d = "\x1b[0m "@;
    let n = download_parts(filename, downloaded, total, time, speed).numbers;
    assert(n =~= a + size + (b + time + d + speed + "  "@ + share));
    assert(n =~= (a + size + b) + time + (d + speed + "  "@ + share));
    assert(n =~= (a + size + b + time + d) + speed + ("  "@ + share));
    assert(n =~= (a + size + b + time + d + speed + "  "@) + share + nothing);
    lemma_within(a, size, b + time + d + speed + "  "@ + share);
    lemma_within(a + size + b, time, d + speed + "  "@ + share);
    lemma_within(a + size + b + time + d, speed, "  "@ + share);
    lemma_within(a + size + b + time + d + speed + "  "@, share, nothing);
}

proof fn lemma_download_right(p: DownloadParts, c: int, word: Seq<char>)
    ensures
        mentions(download_right(p, p.file, c), p.file),
        mentions(p.numbers, word) ==> mentions(download_right(p, p.file, c), word),
{
    let tail = " "@ + crate::ui::progress::painted_bar(p.percent, c);
    let right = download_right(p, p.file, c);
    assert(right =~= "("@ + p.file + (")"@ + p.numbers + tail));
    lemma_within("("@, p.file, ")"@ + p.numbers + tail);
    if mentions(p.numbers, word) {
        let head = "("@ + p.file + ")"@;
        assert(right =~= head + p.numbers + tail);
        lemma_held_in_part(head, p.numbers, tail, word);
    }
}

proof fn lemma_fitted_starts(p: DownloadParts, term: int)
    ensures
        download_left(p).is_prefix_of(fitted_line(p, term)) || fitted_line(p, term) == short_line(p),
{
    lemma_widest_line(p, term, 52);
    let line = fitted_line(p, term);
    let left = download_left(p);
    if widest_line(p, term, 52) is None && line != short_line(p) {
        assert(line.subrange(0, left.len() as int) =~= left);
    }
}

/// The line of a download names its package on a terminal of any width. Where the bar finds its
/// place beside the rest, it also gives the file, the size that is left, the time, the speed and
/// the percentage.
pub proof fn lines_of_downloads_tell_what_is_done(
    filename: Seq<char>,
    downloaded: u64,
    total: u64,
    time: Seq<char>,
    speed: Seq<char>,
    term: int,
)
    ensures
        ({
            let p = download_parts(filename, downloaded, total, time, speed);
            let line = fitted_line(p, term);
            &&& mentions(line, download_name(filename))
            &&& widest_line(p, term, 52) is Some ==> {
                &&& mentions(line, download_file(filename))
                &&& mentions(line, size_text(bytes_left(downloaded, total)))
                &&& mentions(line, time)
                &&& mentions(line, speed)
                &&& mentions(line, decimal(percent_done(downloaded, total) as nat) + "%"@)
            }
        }),
{
    let p = download_parts(filename, downloaded, total, time, speed);
    let line = fitted_line(p, term);
    lemma_download_left(filename, downloaded, total, time, speed);
    lemma_fitted_starts(p, term);
    if line != short_line(p) {
        lemma_starts(line, download_left(p), download_name(filename));
    }
    if widest_line(p, term, 52) is Some {
        lemma_widest_line(p, term, 52);
        let c = choose|c: int| #[trigger]
            download_right(p, p.file, c).is_suffix_of(line) && download_left(p).is_prefix_of(line);
        let right = download_right(p, p.file, c);
        let size = size_text(bytes_left(downloaded, total));
        let share = decimal(percent_done(downloaded, total) as nat) + "%"@;
        lemma_numbers(filename, downloaded, total, time, speed);
        lemma_download_right(p, c, size);
        lemma_download_right(p, c, time);
        lemma_download_right(p, c, speed);
        lemma_download_right(p, c, share);
        lemma_ends(line, right, p.file);
        lemma_ends(line, right, size);
        lemma_ends(line, right, time);
        lemma_ends(line, right, speed);
        lemma_ends(line, right, share);
    }
}

/// The speed of a download is what came in since the report before, in the time since that report.
/// A download that is complete stands still, stays complete, and never has more than all.
pub proof fn speeds_are_those_since_the_last_report(
    s: DownloadState,
    first: u64,
    then_at: u128,
    second: u64,
    now: u128,
    total: u64,
)
    requires
        first <= second,
        then_at < now,
    ensures
        ({
            let a = reported(s, first, total, then_at);
            let b = reported(a, second, total, now);
            &&& second < total ==> b.speed.bytes == second - first && b.speed.nanos == now - then_at
            &&& second < total ==> b.downloaded == second
            &&& second >= total ==> b.downloaded == total && b.frozen
            &&& first < total <= second && !s.frozen ==> b.speed.bytes == 0
            &&& s.frozen || first >= total ==> a.frozen
            &&& a.frozen ==> b.frozen
            &&& second < total && !s.frozen ==> !b.frozen
        }),
{
}

/// A download that starts has no speed yet, and nothing of it is complete.
pub proof fn new_downloads_stand_still(downloaded: u64, total: u64, now: u128)
    ensures
        ({
            let s = reported(fresh_download(downloaded, total, now), downloaded, total, now);
            &&& s.speed.bytes == 0
            &&& s.frozen <==> downloaded >= total
            &&& s.total == total
        }),
{
}

/// An installation shows what was reported last, never more than all, and stays complete once it is.
pub proof fn installations_show_the_last_report(
    s: Option<InstallState>,
    percent: u64,
    current: usize,
    total: usize,
    removing: bool,
)
    ensures
        ({
            let t = progressed(s, percent, current, total, removing);
            &&& t.percent <= 100
            &&& percent <= 100 ==> t.percent == percent
            &&& percent > 100 ==> t.percent == 100
            &&& t.current == current && t.total == total && t.removing == removing
            &&& percent >= 100 ==> t.frozen
            &&& (s matches Some(before) && before.frozen) ==> t.frozen
            &&& t.frozen ==> percent >= 100 || (s matches Some(before) && before.frozen)
        }),
{
}

/// Every line of a block is drawn, in its order, on a line of its own.
pub proof fn blocks_show_every_line(lines: Seq<Seq<char>>, line: Seq<char>)
    ensures
        block_lines(seq![]).len() == 0,
        block_lines(lines.push(line)) == block_lines(lines) + "\r\x1b[2K"@ + line + "\n"@,
{
    assert(lines.push(line).drop_last() =~= lines);
}

/// What is drawn are the packages that got done since the last drawing, in their order, and those
/// under way: right after a drawing only the latter.
pub proof fn drawings_show_what_is_new(b: BoardView, now: u128, i: usize)
    requires
        b.frozen_rendered <= b.frozen.len() <= usize::MAX,
        b.active.contains(i),
    ensures
        b.pending().contains(i),
        b.drawn(now).pending() == b.active,
        b.drawn(now).freeze(i).pending().contains(i),
        b.drawn(now).freeze(i).pending()[0] == i,
{
    let k = choose|k: int| 0 <= k < b.active.len() && b.active[k] == i;
    let p = b.pending();
    assert(p[b.frozen.len() - b.frozen_rendered + k] == i);
    let d = b.drawn(now);
    assert(d.pending() =~= b.active);
    let f = d.freeze(i);
    assert(f.frozen.skip(d.frozen_rendered as int) =~= seq![i]);
    assert(f.pending()[0] == i);
}

proof fn lemma_widest_bar(p: DownloadParts, term: int, b: int, c: int)
    requires
        20 <= c <= b,
        aligned(download_left(p), download_right(p, p.file, c), term) is Some,
    ensures
        exists|d: int|
            c <= d <= b && widest_line(p, term, b) is Some && widest_line(p, term, b) == #[trigger]
                aligned(download_left(p), download_right(p, p.file, d), term),
    decreases b,
{
    if aligned(download_left(p), download_right(p, p.file, b), term) is None {
        lemma_widest_bar(p, term, b - 1, c);
        let d = choose|d: int|
            c <= d <= b - 1 && widest_line(p, term, b - 1) is Some && widest_line(p, term, b - 1)
                == #[trigger] aligned(download_left(p), download_right(p, p.file, d), term);
        assert(widest_line(p, term, b) == aligned(
            download_left(p),
            download_right(p, p.file, d),
            term,
        ));
    }
}

proof fn lemma_widest_install(
    left: Seq<char>,
    percent: nat,
    current: nat,
    total: nat,
    term: int,
    b: int,
    c: int,
)
    requires
        12 <= c <= b,
        aligned(left, install_right(percent, current, total, c), term) is Some,
    ensures
        exists|d: int|
            c <= d <= b && Some(install_line(left, percent, current, total, term, b)) == #[trigger]
                aligned(left, install_right(percent, current, total, d), term),
    decreases b,
{
    if aligned(left, install_right(percent, current, total, b), term) is None {
        lemma_widest_install(left, percent, current, total, term, b - 1, c);
        let d = choose|d: int|
            c <= d <= b - 1 && Some(install_line(left, percent, current, total, term, b - 1))
                == #[trigger] aligned(left, install_right(percent, current, total, d), term);
        assert(Some(install_line(left, percent, current, total, term, b)) == aligned(
            left,
            install_right(percent, current, total, d),
            term,
        ));
    }
}

/// Where the line of a download fits with some bar, it has a bar that is no smaller.
pub proof fn downloads_have_the_widest_bar(p: DownloadParts, term: int, c: int)
    requires
        20 <= c <= 52,
        seen_width(download_left(p)) + seen_width(download_right(p, p.file, c)) < term,
    ensures
        exists|d: int|
            c <= d <= 52 && Some(fitted_line(p, term)) == #[trigger] aligned(
                download_left(p),
                download_right(p, p.file, d),
                term,
            ),
{
    lemma_widest_bar(p, term, 52, c);
}

/// Where the line of a package fits with some bar, it has a bar that is no smaller.
pub proof fn packages_have_the_widest_bar(
    left: Seq<char>,
    percent: nat,
    current: nat,
    total: nat,
    term: int,
    c: int,
)
    requires
        12 <= c <= 52,
        seen_width(left) + seen_width(install_right(percent, current, total, c)) < term,
    ensures
        exists|d: int|
            c <= d <= 52 && Some(install_line(left, percent, current, total, term, 52)) == #[trigger]
                aligned(left, install_right(percent, current, total, d), term),
{
    lemma_widest_install(left, percent, current, total, term, 52, c);
}

/// A report on a download concerns its package alone: that has a line from now on, with what was
/// reported; every other line stays as it was. Signatures and files of no size have no line.
pub proof fn reports_concern_their_download(
    from: TransactionRenderController,
    to: TransactionRenderController,
    package: Seq<char>,
    downloaded: u64,
    total: u64,
    now: u128,
    drawn: Option<Vec<DownloadLine>>,
    k: int,
)
    requires
        from.wf(),
        notes_download(from, to, package, downloaded, total, now, drawn),
        0 <= k < to.downloads@.keys.len(),
    ensures
        total == 0 || ".sig"@.is_suffix_of(package) ==> to == from && drawn is None,
        total > 0 && !".sig"@.is_suffix_of(package) ==> {
            &&& to.downloads@.keys.contains(package)
            &&& to.downloads@.keys[k] == package ==> {
                &&& to.download_states@[k].total == total
                &&& downloaded <= total ==> to.download_states@[k].downloaded == downloaded
                &&& downloaded > total ==> to.download_states@[k].downloaded == total
                &&& downloaded >= total ==> to.download_states@[k].frozen
            }
            &&& to.downloads@.keys[k] != package ==> {
                &&& k < from.downloads@.keys.len()
                &&& to.downloads@.keys[k] == from.downloads@.keys[k]
                &&& to.download_states@[k] == from.download_states@[k]
            }
        },
        to.installs == from.installs && to.install_states == from.install_states,
{
    let b = from.downloads@;
    if total > 0 && !".sig"@.is_suffix_of(package) {
        if b.keys.contains(package) {
            assert(to.downloads@.keys == b.keys);
            assert(to.downloads@.keys[slot(b, package)] == package);
        } else {
            assert(to.downloads@.keys == b.keys.push(package));
            assert(to.downloads@.keys[b.keys.len() as int] == package);
            if k < b.keys.len() {
                assert(b.keys.contains(b.keys[k]));
            }
        }
    }
}

/// A file name of narrow characters is cut to its room, and stays as it is where it fits.
pub proof fn file_names_are_cut_to_their_room(name: Seq<char>, room: int)
    requires
        all_narrow(name),
        name.len() <= usize::MAX,
        room >= 0,
    ensures
        cut_filename(name, room).len() <= room,
        name.len() <= room ==> cut_filename(name, room) == name,
{
    narrow_text_takes_up_the_width(name, room as nat);
    let nothing = Seq::<char>::empty();
    assert forall|i: int| 0 <= i < name.len() implies #[trigger] name[i] != '\x1b' by {
        assert(crate::fmt::is_narrow(name[i]));
    }
    crate::ui::progress::lemma_seen_plain(name, nothing);
    assert(name + nothing =~= name);
    assert(crate::ui::progress::seen(nothing) =~= nothing);
}

/// A block is drawn over the lines that stand above the cursor, as many as there are.
pub proof fn blocks_are_drawn_over_what_is_above(up: nat, lines: Seq<Seq<char>>)
    ensures
        block(0, lines) == block_lines(lines),
        up > 0 ==> block(up, lines) == "\x1b["@ + decimal(up) + "A"@ + block_lines(lines),
{
    assert(block(0, lines) =~= block_lines(lines));
}

/// A report on an installation concerns its package alone: that has a line from now on, with what was
/// reported, and is done once all of it is; every other line stays as it was.
pub proof fn reports_concern_their_installation(
    from: TransactionRenderController,
    to: TransactionRenderController,
    package: Seq<char>,
    percent: u64,
    current: usize,
    total: usize,
    removing: bool,
    now: u128,
    terminal: Option<usize>,
    text: Option<Seq<char>>,
    k: int,
)
    requires
        from.wf(),
        notes_install(from, to, package, percent, current, total, removing, now, terminal, text),
        0 <= k < to.installs@.keys.len(),
    ensures
        to.installs@.keys.contains(package),
        to.installs@.keys[k] == package ==> {
            let s = to.install_states@[k];
            &&& s.current == current && s.total == total && s.removing == removing
            &&& percent <= 100 ==> s.percent == percent
            &&& percent > 100 ==> s.percent == 100
            &&& percent >= 100 ==> s.frozen
            &&& k < from.installs@.keys.len() && from.install_states@[k].frozen ==> s.frozen
            &&& s.frozen ==> percent >= 100 || (k < from.installs@.keys.len()
                && from.install_states@[k].frozen)
        },
        to.installs@.keys[k] != package ==> {
            &&& k < from.installs@.keys.len()
            &&& to.installs@.keys[k] == from.installs@.keys[k]
            &&& to.install_states@[k] == from.install_states@[k]
        },
        !from.installs@.keys.contains(package) ==> text is Some,
        to.downloads == from.downloads && to.download_states == from.download_states,
{
    let b = from.installs@;
    if b.keys.contains(package) {
        assert(to.installs@.keys == b.keys);
        assert(to.installs@.keys[slot(b, package)] == package);
    } else {
        assert(to.installs@.keys == b.keys.push(package));
        assert(to.installs@.keys[b.keys.len() as int] == package);
        if k < b.keys.len() {
            assert(b.keys.contains(b.keys[k]));
        }
        let c = b.with(package);
        assert(c.active[c.active.len() - 1] == b.keys.len() as usize);
        assert(c.active.len() > 0);
    }
}

} // verus!
