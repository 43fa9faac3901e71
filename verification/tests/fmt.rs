use bah::config::Config;
use bah::fmt::{
    color_repo, date, old_ver, opt, print_dnf_like_rows, print_indent, print_section_header,
    print_target, time_or_epoch, truncate_to_width, word_len, ymd, ListRow,
};
use bah::style::{Colour, Style};
use unicode_width::{UnicodeWidthChar, UnicodeWidthStr};

#[test]
fn short_texts_are_not_cut() {
    assert_eq!(truncate_to_width("nano", 4), "nano");
    assert_eq!(truncate_to_width("nano", 0), "");
    assert_eq!(truncate_to_width("", 3), "");
}

#[test]
fn long_texts_end_in_dots() {
    assert_eq!(truncate_to_width("abcdefgh", 6), "abc...");
    assert_eq!(truncate_to_width("abcdefgh", 3), "...");
    assert_eq!(truncate_to_width("abcdefgh", 1), ".");
    assert_eq!(truncate_to_width("日本語日本語", 7), "日本...");
    assert_eq!(truncate_to_width("日本語日本語", 8), "日本...");
}

#[test]
fn kept_characters_fit_and_the_next_would_not() {
    for s in ["日本語 mixed テキスト", "plain text here", "e\u{301}e\u{301}e\u{301}e\u{301}e\u{301}"] {
        for max in 4..s.width() {
            let cut = truncate_to_width(s, max);
            let kept = cut.strip_suffix("...").unwrap();
            let used: usize = kept.chars().map(|c| c.width().unwrap_or(0)).sum();
            assert!(used <= max - 3);
            let next = s.chars().nth(kept.chars().count()).unwrap();
            assert!(used + next.width().unwrap_or(0) > max - 3);
        }
    }
}

#[test]
fn words_are_counted_without_colours() {
    assert_eq!(word_len("abc"), 3);
    assert_eq!(word_len("\x1b[1;34mabc\x1b[0m"), 3);
    assert_eq!(word_len("\x1b[1"), 0);
    assert_eq!(word_len("\x1bx"), 2);
    assert_eq!(word_len("日本"), 2);
}

#[test]
fn times_are_shown_in_the_given_zone() {
    assert_eq!(date(0, 0, 0), "Thu,  1 Jan 1970 00:00:00");
    assert_eq!(date(1431648000, 7200, 0), "Fri, 15 May 2015 02:00:00");
    assert_eq!(ymd(1431648000, 0, 0), "2015-05-15");
    assert_eq!(ymd(1431648000, -3600, 0), "2015-05-14");
}

#[test]
fn a_time_out_of_range_is_the_epoch() {
    assert_eq!(ymd(i64::MAX, 0, 3600), "1970-01-01");
    assert_eq!(date(i64::MIN, 0, 3600), "Thu,  1 Jan 1970 01:00:00");
    assert_eq!(time_or_epoch(None, Some("e".into())), "e");
    assert_eq!(time_or_epoch(Some("t".into()), None), "t");
}

fn words(list: &[&str]) -> Vec<String> {
    list.iter().map(|s| s.to_string()).collect()
}

#[test]
fn lines_wrap_at_the_terminal() {
    let p = Style::new();
    assert_eq!(
        print_indent(p, 4, 4, Some(12), "  ", &words(&["aaa", "bbb", "cc", "d"])),
        "aaa  bbb\n    cc  d\n"
    );
    assert_eq!(
        print_indent(p, 0, 4, Some(6), " ", &words(&["aa", "bb"])),
        "aa bb\n"
    );
    assert_eq!(
        print_indent(p, 9, 4, Some(10), " ", &words(&["aaaa", "b"])),
        "aaaa\n    b\n"
    );
}

#[test]
fn lines_without_a_width_do_not_wrap() {
    let p = Style::new();
    assert_eq!(
        print_indent(p, 4, 10, Some(12), ", ", &words(&["aaa", "bbb"])),
        "aaa, bbb\n"
    );
    assert_eq!(print_indent(p, 0, 0, None, " ", &words(&[])), "\n");
    let bold = Style { foreground: None, bold: true, dimmed: false };
    assert_eq!(
        print_indent(bold, 0, 0, None, " ", &words(&["x"])),
        "\x1b[1mx\x1b[0m\n"
    );
}

#[test]
fn build_repositories_take_precedence() {
    let v = |s: &str| Some(s.to_string());
    assert_eq!(old_ver(v("1"), &vec![]), v("1"));
    assert_eq!(old_ver(v("1"), &vec![None, v("2"), v("3")]), v("2"));
    assert_eq!(old_ver(v("1"), &vec![None]), None);
}

#[test]
fn repositories_have_steady_colours() {
    let palette = [34, 35, 36, 32, 33, 31];
    for name in ["core", "extra", "multilib", "aur", "", "日本"] {
        let mut col: u32 = 5;
        for &b in name.as_bytes() {
            col = (b as u32).wrapping_add((col << 4).wrapping_add(col));
        }
        let code = palette[col as usize % palette.len()];
        assert_eq!(color_repo(true, name), format!("\x1b[1;{}m{}\x1b[0m", code, name));
        assert_eq!(color_repo(false, name), name);
    }
}

#[test]
fn quiet_targets_lose_their_repository() {
    assert_eq!(print_target("core/linux", true), "linux\n");
    assert_eq!(print_target("core/linux", false), "core/linux\n");
    assert_eq!(print_target("a/b/c", true), "b/c\n");
}

#[test]
fn absent_values_have_a_word() {
    let cfg = Config::default();
    assert_eq!(opt(&cfg, &None), "None");
    assert_eq!(opt(&cfg, &Some("x".into())), "x");
}

fn row(repository: &str, name: &str, version: &str, status: &str, description: &str) -> ListRow {
    ListRow {
        repository: repository.into(),
        name: name.into(),
        version: version.into(),
        status: status.into(),
        description: description.into(),
    }
}

#[test]
fn lists_are_tables() {
    let cfg = Config::default();
    let text = print_dnf_like_rows(
        &cfg,
        &vec![
            row("core", "linux", "6.1-1", "installed", "The kernel"),
            row("extra", "vim", "9", "", "Editor"),
        ],
    );
    assert_eq!(
        text,
        "Name   Repo Ve...  Status     Description\n\
         linux  core 6.1-1  installed  The kernel\n\
         vim    extra 9                Editor\n"
    );
    assert_eq!(print_dnf_like_rows(&cfg, &vec![]), "");
}

#[test]
fn list_descriptions_are_cut_to_the_terminal() {
    let mut cfg = Config::default();
    cfg.cols = Some(80);
    let long = "x".repeat(200);
    let text = print_dnf_like_rows(&cfg, &vec![row("r", "n", "v", "s", &long)]);
    let line = text.lines().nth(1).unwrap();
    assert_eq!(line.width(), 80);
    assert!(line.ends_with("..."));
}

#[test]
fn section_headers_are_painted() {
    let mut cfg = Config::default();
    cfg.color.action = Style { foreground: Some(Colour::Blue), bold: true, dimmed: false };
    cfg.color.bold = Style { foreground: None, bold: true, dimmed: false };
    assert_eq!(
        print_section_header(&cfg, "Title"),
        "\x1b[1;34m::\x1b[0m \x1b[1mTitle\x1b[0m\n"
    );
    cfg.color.bold = Style { foreground: Some(Colour::White), bold: false, dimmed: true };
    assert_eq!(
        print_section_header(&cfg, ""),
        "\x1b[1;34m::\x1b[0m \x1b[2;37m\x1b[0m\n"
    );
}

#[test]
fn printable_text_takes_up_the_width() {
    let text: String = (' '..='~').collect();
    for max in 0..=100 {
        let cut = truncate_to_width(&text, max);
        assert_eq!(cut.len(), max.min(95));
        assert_eq!(cut == text, max >= 95);
        assert_eq!(truncate_to_width(&cut, max), cut);
        if max > 3 && max < 95 {
            assert_eq!(cut, format!("{}...", &text[..max - 3]));
        }
    }
}
