use bah::style::{Colour, Style};
use bah::ui::progress::{
    compose_download_line, download_percent, format_time_remaining, paint_progress_bar,
    render_install_line, render_progress_bar, right_align_bar, split_download_filename,
    truncate_filename_to_width, visible_width, PROGRESS_BAR_WIDTH,
};
use bah::ui::render::{Board, DownloadLine, Speed, TransactionRenderController};
use bah::fmt::color_repo;
use unicode_width::UnicodeWidthStr;

fn plain(s: &str) -> String {
    let mut out = String::new();
    let mut chars = s.chars().peekable();
    while let Some(c) = chars.next() {
        if c == '\x1b' && chars.peek() == Some(&'[') {
            chars.next();
            for d in chars.by_ref() {
                if d.is_ascii_alphabetic() {
                    break;
                }
            }
        } else {
            out.push(c);
        }
    }
    out
}

#[test]
fn escape_sequences_take_no_columns() {
    assert_eq!(visible_width("abc"), 3);
    assert_eq!(visible_width("\x1b[1;34mabc\x1b[0m"), 3);
    assert_eq!(visible_width("\x1b[1"), 0);
    assert_eq!(visible_width("日本\x1b[2K"), 4);
    assert_eq!(visible_width(""), 0);
}

#[test]
fn bars_are_full_or_end_in_an_arrow() {
    assert_eq!(render_progress_bar(0, 4), "[➔---]");
    assert_eq!(render_progress_bar(50, 4), "[==➔-]");
    assert_eq!(render_progress_bar(99, 4), "[===➔]");
    assert_eq!(render_progress_bar(100, 4), "[====]");
    assert_eq!(render_progress_bar(700, 0), "[=]");
    assert_eq!(render_progress_bar(0, 0), "[➔]");
}

#[test]
fn bars_have_fixed_length_at_every_width() {
    for width in [0, 1, 2, 20, 51, 52, 53, usize::MAX] {
        for percent in [0, 1, 33, 99, 100, u64::MAX] {
            let bar = render_progress_bar(percent, width);
            assert_eq!(bar.chars().count(), width.clamp(1, PROGRESS_BAR_WIDTH) + 2);
        }
    }
}

#[test]
fn colours_of_bars_are_unseen() {
    for percent in [0, 10, 99, 100] {
        let painted = paint_progress_bar(percent, 30);
        assert_ne!(painted, render_progress_bar(percent, 30));
        assert_eq!(plain(&painted), render_progress_bar(percent, 30));
    }
    assert_eq!(paint_progress_bar(50, 4), "[\x1b[1;34m==➔\x1b[90m-\x1b[0m]");
    assert_eq!(paint_progress_bar(100, 2), "[\x1b[1;34m==\x1b[0m]");
}

#[test]
fn painted_text_is_seen_as_it_is() {
    let painted = color_repo(true, "core");
    assert_eq!(plain(&painted), "core");
    assert_eq!(visible_width(&painted), 4);
    let style = Style { foreground: Some(Colour::Red), bold: true, dimmed: true };
    let line = bah::fmt::print_indent(style, 0, 0, None, "", &vec!["x".to_string()]);
    assert_eq!(line, "\x1b[1;2;31mx\x1b[0m\n");
}

#[test]
fn download_names_are_found_in_file_names() {
    let pair = |a: &str, b: &str| (a.to_string(), b.to_string());
    assert_eq!(
        split_download_filename("vlc-3.0.21-1-x86_64.pkg.tar.zst"),
        pair("vlc", "vlc-3.0.21-1-x86_64.pkg.tar.zst")
    );
    assert_eq!(
        split_download_filename("a/b/gtk-doc-1-2-any.pkg.tar.xz.sig.sig"),
        pair("gtk-doc", "gtk-doc-1-2-any.pkg.tar.xz")
    );
    assert_eq!(split_download_filename("core.db"), pair("core.db", "core.db"));
    assert_eq!(split_download_filename("a-b-c"), pair("a-b-c", "a-b-c"));
    assert_eq!(split_download_filename(""), pair("", ""));
}

#[test]
fn percents_stay_in_range() {
    assert_eq!(download_percent(0, 0), 0);
    assert_eq!(download_percent(67, 100), 67);
    assert_eq!(download_percent(1, 3), 33);
    assert_eq!(download_percent(9, 3), 100);
    assert_eq!(download_percent(u64::MAX, u64::MAX), 1);
    assert_eq!(download_percent(u64::MAX, 1), 100);
}

#[test]
fn lines_are_aligned_to_both_ends() {
    assert_eq!(right_align_bar("ab", "cd", 7), Some("ab   cd".into()));
    assert_eq!(right_align_bar("ab", "cd", 5), Some("ab cd".into()));
    assert_eq!(right_align_bar("ab", "cd", 4), None);
    let line = right_align_bar("\x1b[1mab\x1b[0m", "日", 9).unwrap();
    assert_eq!(visible_width(&line), 9);
}

#[test]
fn file_names_are_cut() {
    assert_eq!(truncate_filename_to_width("abcdef", 6), "abcdef");
    assert_eq!(truncate_filename_to_width("abcdef", 5), "ab...");
    assert_eq!(truncate_filename_to_width("abcdef", 0), "");
}

#[test]
fn remaining_time_has_minutes() {
    assert_eq!(format_time_remaining(0, None), "0s");
    assert_eq!(format_time_remaining(5, None), "--");
    assert_eq!(format_time_remaining(5, Some(59)), "59s");
    assert_eq!(format_time_remaining(5, Some(60)), "1m0s");
    assert_eq!(format_time_remaining(5, Some(3725)), "62m5s");
}

#[test]
fn download_progress_line_keeps_info_left_of_bar() {
    let time = format_time_remaining(33, Some(1));
    let line =
        compose_download_line("vlc-3.0.21-1-x86_64.pkg.tar.zst", 67, 100, &time, "1.2 MB/s", 120);
    assert!(line.starts_with("Downloading \x1b[1mvlc\x1b[0m..."));
    assert!(!line.contains("[vlc]"));
    assert!(line.contains("(vlc-3.0.21-1-x86_64.pkg.tar.zst)"));
    assert!(line.contains("[33 B left]"));
    assert!(line.contains("1.2 MB/s  67%"));
    assert_eq!(visible_width(&line), 120);
    let bar = line.split_whitespace().last().expect("bar");
    let body = bar.trim_start_matches('[').trim_end_matches(']');
    assert_eq!(body.chars().count(), PROGRESS_BAR_WIDTH);
}

#[test]
fn download_progress_line_compacts_on_narrow_terminal() {
    let time = format_time_remaining(99, Some(1));
    let line =
        compose_download_line("cuda-13.2.1-2-x86_64.pkg.tar.zst", 1, 100, &time, "1.2 MB/s", 42);
    assert!(line.starts_with("\x1b[1mcuda\x1b[0m..."));
    assert!(!line.contains("(cuda-13.2.1-2-x86_64.pkg.tar.zst)"));
    assert!(visible_width(&line) <= 42);
    let bar = line.split_whitespace().last().expect("bar");
    let body = bar.trim_start_matches('[').trim_end_matches(']');
    assert!(body.chars().count() <= PROGRESS_BAR_WIDTH);
}

#[test]
fn download_lines_fill_a_wide_terminal() {
    let line =
        compose_download_line("vlc-3.0.21-1-x86_64.pkg.tar.zst", 67, 100, "1s", "1.2 MB/s", 160);
    assert_eq!(visible_width(&line), 160);
    let seen = plain(&line);
    assert!(seen.starts_with("Downloading vlc... "));
    assert!(seen.contains("(vlc-3.0.21-1-x86_64.pkg.tar.zst) [33 B left] 1s 1.2 MB/s  67% ["));
    let bar = seen.split_whitespace().last().unwrap();
    assert_eq!(bar.chars().count(), PROGRESS_BAR_WIDTH + 2);
}

#[test]
fn download_lines_shrink_on_narrow_terminals() {
    let file = "vlc-3.0.21-1-x86_64.pkg.tar.zst";
    let line = |width| plain(&compose_download_line(file, 67, 100, "1s", "1.2 MB/s", width));
    for width in [104, 105, 120, 136, 137] {
        let full = line(width);
        assert!(full.contains(file) && full.starts_with("Downloading vlc... "));
        assert_eq!(full.as_str().width(), width);
    }
    let cut = line(90);
    assert!(cut.contains("(vlc-3.0.21-1-x...) [33 B left] 1s 1.2 MB/s  67% [=============➔------]"));
    assert_eq!(cut.as_str().width(), 90);
    assert_eq!(line(30), "vlc... [=============➔------]");
}

#[test]
fn bars_take_their_columns() {
    for percent in [0, 33, 99, 100] {
        for width in [0, 1, 20, 52, 60] {
            let columns = width.clamp(1, PROGRESS_BAR_WIDTH) + 2;
            assert_eq!(visible_width(&paint_progress_bar(percent, width)), columns);
            assert_eq!(visible_width(&render_progress_bar(percent, width)), columns);
        }
    }
}

#[test]
fn downloads_never_turn_active_again() {
    let mut ui = TransactionRenderController::new();
    ui.on_download_progress("a.pkg", 5, 10, 0);
    assert_eq!((ui.downloads.active.as_slice(), ui.downloads.frozen.len()), (&[0][..], 0));
    ui.on_download_progress("a.pkg", 12, 10, MS);
    ui.on_download_progress("a.pkg", 3, 10, 2 * MS);
    ui.on_download_progress("b.pkg.sig", 1, 10, 3 * MS);
    ui.on_download_progress("b.pkg", 1, 0, 4 * MS);
    assert!(ui.downloads.active.is_empty());
    assert_eq!(ui.downloads.frozen, vec![0]);
    assert!(ui.download_states.iter().all(|s| s.downloaded <= s.total));
}

#[test]
fn install_lines_name_what_is_done() {
    let line = render_install_line("nano", 40, 1, 3, false, 100);
    assert!(line.starts_with("\x1b[36mInstalling\x1b[0m \x1b[1mnano\x1b[0m..."));
    assert_eq!(visible_width(&line), 100);
    assert!(plain(&line).contains(" 1/3 40% ["));
    let line = render_install_line("nano", 400, 1, 3, true, 1);
    assert_eq!(plain(&line), "Removing nano... 1/3 100% [============]");
}

fn downloads(lines: Option<Vec<DownloadLine>>) -> Option<Vec<(String, u64, u64, Speed)>> {
    lines.map(|l| {
        l.into_iter()
            .map(|d| (d.package, d.downloaded, d.total, d.speed))
            .collect()
    })
}

const MS: u128 = 1_000_000;

#[test]
fn downloads_are_drawn_at_first_and_then_not_too_often() {
    let none = Speed { bytes: 0, nanos: 1 };
    let mut ui = TransactionRenderController::new();
    let first = ui.on_download_progress("a.pkg", 10, 100, 0);
    assert_eq!(downloads(first), Some(vec![("a.pkg".into(), 10, 100, none)]));
    assert_eq!(
        ui.draw_downloads(&vec!["line a".into()], 0),
        "\r\x1b[2Kline a\n"
    );
    assert!(ui.on_download_progress("a.pkg", 20, 100, 50 * MS).is_none());
    let later = ui.on_download_progress("a.pkg", 40, 100, 150 * MS);
    let speed = Speed { bytes: 20, nanos: 100 * MS };
    assert_eq!(downloads(later), Some(vec![("a.pkg".into(), 40, 100, speed)]));
    assert_eq!(
        ui.draw_downloads(&vec!["line a".into()], 150 * MS),
        "\x1b[1A\r\x1b[2Kline a\n"
    );
}

#[test]
fn finished_downloads_are_drawn_once_more() {
    let none = Speed { bytes: 0, nanos: 1 };
    let mut ui = TransactionRenderController::new();
    ui.on_download_progress("a", 1, 9, 0);
    ui.draw_downloads(&vec!["a".into()], 0);
    ui.on_download_progress("b", 1, 9, 1);
    ui.draw_downloads(&vec!["a".into(), "b".into()], 1);
    let done = ui.on_download_progress("b", 12, 9, 2);
    assert_eq!(
        downloads(done),
        Some(vec![
            ("b".into(), 9, 9, none),
            ("a".into(), 1, 9, none)
        ])
    );
    assert_eq!(
        ui.draw_downloads(&vec!["b".into(), "a".into()], 2),
        "\x1b[2A\r\x1b[2Kb\n\r\x1b[2Ka\n"
    );
    let next = ui.on_download_progress("a", 9, 9, 3);
    assert_eq!(downloads(next), Some(vec![("a".into(), 9, 9, none)]));
    ui.draw_downloads(&vec!["a".into()], 3);
    assert!(ui.on_download_progress("a", 9, 9, 1000 * MS).is_none());
}

#[test]
fn signatures_and_empty_downloads_are_not_drawn() {
    let mut ui = TransactionRenderController::new();
    assert!(ui.on_download_progress("a.sig", 1, 2, 0).is_none());
    assert!(ui.on_download_progress("a", 1, 0, 0).is_none());
    assert!(ui.downloads.keys.is_empty());
}

#[test]
fn installations_are_drawn_as_blocks() {
    let mut ui = TransactionRenderController::new();
    let text = ui.on_install_progress("nano", 10, 1, 2, false, 0, Some(80)).unwrap();
    assert!(text.starts_with("\r\x1b[2K\x1b[36mInstalling"));
    assert!(ui.on_install_progress("nano", 20, 1, 2, false, MS, Some(80)).is_none());
    let text = ui.on_install_progress("nano", 100, 1, 2, false, 2 * MS, Some(80)).unwrap();
    assert!(text.starts_with("\x1b[1A\r\x1b[2K"));
    assert!(plain(&text).contains("100%"));
    let text = ui.on_install_progress("vim", 0, 2, 2, true, 3 * MS, None).unwrap();
    assert_eq!(text.matches('\n').count(), 1);
    assert!(text.starts_with("\r\x1b[2K\x1b[36mRemoving"));
    assert_eq!(visible_width(text.trim_end().trim_start_matches('\r')), 120);
    assert_eq!(ui.installs.frozen, vec![0]);
    assert_eq!(ui.installs.active, vec![1]);
}

#[test]
fn steps_and_hooks_are_lines() {
    let cfg = bah::config::Config::default();
    let mut ui = TransactionRenderController::new();
    assert_eq!(ui.on_static_step("x"), "x\n");
    assert_eq!(ui.on_log_line("y"), "y\n");
    assert_eq!(ui.on_hook_phase_start(&cfg), ":: Running post-transaction hooks...\n");
    assert_eq!(ui.on_hook_step(1, 4, "Fonts"), "(1/4) Fonts \x1b[32m::\x1b[0m\n");
    assert_eq!(ui.on_hook_phase_done(&cfg), ":: Post-transaction hooks completed.\n");
    ui.finish();
    let board = Board::new();
    assert!(board.keys.is_empty() && board.last_render.is_none());
}
