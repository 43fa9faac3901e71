use bah::config::{Arg, Config, SearchBy, SortBy, SortMode};
use bah::number::scale;
use bah::search::find::{
    lower_terms, pick_names, search, search_aur, search_aur_regex, search_local, search_pkgbuilds,
    search_repos, search_target, sort_terms, AfterAttempt, Attempt, RegexSearchError,
    MAX_REGEX_HITS,
};
use bah::search::highlight::{highlight_terms, mark, Marking};
use bah::search::menu::{
    interactive_menu, interactive_search, interactive_search_local, menu_choice, order_menu,
};
use bah::search::rows::{
    compute_search_columns, desc_one_line, print_search_row, print_search_verbose,
    search_row_from_alpm, search_row_from_any_pkg, search_row_from_aur, search_row_from_pkgbuild,
    search_term_width, AnyPkg, AurHit, CustomHit, RepoHit, SearchColumns, SearchRow,
};
use bah::style::{Colour, Style};
use flate2::write::GzEncoder;
use flate2::Compression;
use std::io::Write;

fn strings(list: &[&str]) -> Vec<String> {
    list.iter().map(|s| s.to_string()).collect()
}

fn gzip(data: &[u8]) -> Vec<u8> {
    let mut e = GzEncoder::new(Vec::new(), Compression::default());
    e.write_all(data).unwrap();
    e.finish().unwrap()
}

fn repo(name: &str) -> RepoHit {
    RepoHit {
        name: name.into(),
        version: "1-1".into(),
        db: "core".into(),
        desc: Some("desc".into()),
        groups: vec![],
        url: Some("http://u".into()),
        installed: None,
        same_version: false,
    }
}

fn aur(name: &str, votes: i64) -> AurHit {
    AurHit {
        name: name.into(),
        version: "2-1".into(),
        package_base: format!("{}-base", name),
        description: Some("Some Thing".into()),
        url: None,
        maintainer: Some("m".into()),
        out_of_date: None,
        offset: 0,
        epoch_offset: 0,
        installed: None,
        num_votes: votes,
        popularity: -votes,
        id: 100 - votes,
        first_submitted: votes,
        last_modified: -votes,
    }
}

fn custom(name: &str) -> CustomHit {
    CustomHit {
        repo: "mine".into(),
        base: "base".into(),
        name: name.into(),
        version: "3".into(),
        desc: None,
        provides: vec!["virt=1".into()],
        groups: vec!["grp".into()],
        path: "/p".into(),
        installed: None,
    }
}

fn plain_style() -> Style {
    Style { foreground: None, bold: false, dimmed: false }
}

#[test]
fn terms_are_marked() {
    let p = plain_style();
    let mark = |text: &str, terms: &[&str]| highlight_terms(text, &strings(terms), p, p, false);
    assert_eq!(mark("Linux kernel", &["KERNEL"]), "Linux \x1b[1mkernel\x1b[0m");
    assert_eq!(mark("aXbX", &[" x "]), "a\x1b[1mX\x1b[0mb\x1b[1mX\x1b[0m");
    assert_eq!(mark("text", &["", "  "]), "text");
    assert_eq!(mark("text", &[]), "text");
    assert_eq!(mark("c++ c", &["c++"]), "\x1b[1mc++\x1b[0m c");
    assert_eq!(mark("日本語", &["本"]), "日\x1b[1m本\x1b[0m語");
    assert_eq!(mark("a-b|c", &["-b|"]), "a\x1b[1m-b|\x1b[0mc");
}

#[test]
fn terms_are_marked_in_colour() {
    let base = Style { foreground: Some(Colour::Blue), bold: false, dimmed: false };
    let hi = Style { foreground: Some(Colour::Red), bold: false, dimmed: false };
    assert_eq!(
        highlight_terms("abc", &strings(&["b"]), base, hi, true),
        "\x1b[34ma\x1b[0m\x1b[31mb\x1b[0m\x1b[34mc\x1b[0m"
    );
    assert_eq!(highlight_terms("abc", &vec![], base, hi, true), "\x1b[34mabc\x1b[0m");
}

#[test]
fn marking_keeps_every_character() {
    let m = Marking { base: plain_style(), hi: plain_style(), color_on: true };
    for found in [vec![], vec![(0, 3)], vec![(3, 3), (3, 6), (7, 8)]] {
        assert_eq!(mark(m, "日本ab", &found), "日本ab");
    }
}

#[test]
fn patterns_for_themselves_are_escaped() {
    let text = "a\\.+*?()|[]{}^$#&-~b";
    assert_eq!(
        highlight_terms(text, &strings(&[text]), plain_style(), plain_style(), false),
        format!("\x1b[1m{}\x1b[0m", text)
    );
}

#[test]
fn rows_show_what_is_installed() {
    let cfg = Config::default();
    let mut p = repo("linux");
    p.groups = strings(&["g", "h"]);
    let row = search_row_from_alpm(&cfg, &p);
    assert_eq!((row.status.as_str(), row.description.as_str()), ("", "desc (g,h)"));
    p.installed = Some("0".into());
    assert_eq!(search_row_from_alpm(&cfg, &p).status, "[installed: 0]");
    p.same_version = true;
    assert_eq!(search_row_from_alpm(&cfg, &p).status, "[installed]");
    let mut a = aur("x", 1);
    a.installed = Some("2-1".into());
    a.out_of_date = Some(0);
    a.maintainer = None;
    a.description = None;
    let row = search_row_from_aur(&cfg, &a);
    assert_eq!(row.status, "[installed] ood:1970-01-01 [orphaned]");
    assert_eq!((row.repo.as_str(), row.description.as_str()), ("aur", "None"));
    let mut c = custom("y");
    c.installed = Some("2".into());
    let row = search_row_from_pkgbuild(&cfg, &c);
    assert_eq!((row.status.as_str(), row.repo.as_str()), ("[installed: 2]", "mine"));
    assert_eq!(search_row_from_any_pkg(&cfg, &AnyPkg::Custom(c)).name, "y");
}

fn row(name: &str, repo: &str, version: &str) -> SearchRow {
    let mut p = self::repo(name);
    p.db = repo.into();
    p.version = version.into();
    search_row_from_alpm(&Config::default(), &p)
}

#[test]
fn columns_fit_or_shrink() {
    let rows = vec![row("ab", "core", "1"), row("abcd", "x", "1")];
    let w = compute_search_columns(&rows, 80);
    assert_eq!(w, SearchColumns { left: 4, mid: 6, description: 68 });
    assert_eq!(
        compute_search_columns(&vec![], 80),
        SearchColumns { left: 0, mid: 0, description: 78 }
    );
    let wide = vec![row(&"n".repeat(60), "repo", &"v".repeat(25))];
    let w = compute_search_columns(&wide, 80);
    let factor = 70f64 / 90f64;
    assert_eq!(w.left, (60f64 * factor).floor() as u128);
    assert_eq!(w.mid, (30f64 * factor).floor() as u128);
    assert_eq!(w.left + w.mid + 2 + w.description as u128, 80);
    assert_eq!(scale(60, 70, 90), w.left);
    let w = compute_search_columns(&wide, 5);
    assert_eq!(w, SearchColumns { left: 6, mid: 4, description: 0 });
}

#[test]
fn columns_shrink_as_doubles_do() {
    for l in 0..70usize {
        for m in 2..60usize {
            let mut r = row(&"n".repeat(l), "", &"v".repeat(m - 1));
            r.repo = String::new();
            for term in [48usize, 50, 61, 80] {
                let w = compute_search_columns(&vec![r.clone()], term);
                let (mut el, mut em) = (l, m);
                if l + m + 10 > term && l + m > term - 10 {
                    let factor = (term - 10) as f64 / (l + m) as f64;
                    el = ((l as f64 * factor).floor() as usize).max(6);
                    em = ((m as f64 * factor).floor() as usize).max(4);
                }
                assert_eq!((w.left, w.mid), (el as u128, em as u128));
                assert_eq!(w.description, term.saturating_sub(el + em + 2));
            }
        }
    }
}

#[test]
fn lines_are_cut_into_columns() {
    let cfg = Config::default();
    let mut r = row("name", "core", "1.0");
    r.status = "[installed]".into();
    r.description = " two\n words ".into();
    let w = SearchColumns { left: 18, mid: 10, description: 20 };
    assert_eq!(
        print_search_row(&cfg, &r, w, &vec![]),
        "name [installed]   core 1.0   two words\n"
    );
    let w = SearchColumns { left: 8, mid: 6, description: 5 };
    assert_eq!(print_search_row(&cfg, &r, w, &vec![]), "name ... cor... tw...\n");
    let w = SearchColumns { left: 18, mid: 10, description: 0 };
    assert_eq!(
        print_search_row(&cfg, &r, w, &strings(&["core"])),
        "name [installed]   \x1b[1mcore\x1b[0m 1.0   \n"
    );
    assert_eq!(desc_one_line("\ta  b\u{3000}c "), "a b c");
}

#[test]
fn fields_are_shown_on_request() {
    let mut cfg = Config::default();
    let r = search_row_from_aur(&cfg, &aur("x", 1));
    assert!(print_search_verbose(&cfg, &r).is_empty());
    cfg.args.args = vec![
        Arg { key: "s".into(), value: None },
        Arg { key: "search".into(), value: None },
    ];
    let shown = |r: &SearchRow| {
        print_search_verbose(&cfg, r)
            .into_iter()
            .map(|f| format!("{}={}", f.label, f.value))
            .collect::<Vec<_>>()
    };
    assert_eq!(shown(&r), vec!["    AUR URL=https://aur.archlinux.org/packages/x-base"]);
    assert_eq!(
        shown(&search_row_from_alpm(&cfg, &repo("a"))),
        vec!["    URL=http://u"]
    );
    assert_eq!(
        shown(&search_row_from_pkgbuild(&cfg, &custom("a"))),
        vec!["    Path=/p"]
    );
}

#[test]
fn terminals_leave_room_for_a_prefix() {
    let mut cfg = Config::default();
    assert_eq!(search_term_width(&cfg, 0), 80);
    assert_eq!(search_term_width(&cfg, 3), 77);
    cfg.cols = Some(20);
    assert_eq!(search_term_width(&cfg, 3), 48);
}

#[test]
fn databases_are_searched() {
    let mut cfg = Config::default();
    let names = |l: Vec<RepoHit>| l.into_iter().map(|p| p.name).collect::<Vec<_>>();
    let t = strings(&["t"]);
    let found = || vec![vec![repo("a"), repo("b")], vec![], vec![repo("c")]];
    assert_eq!(names(search_repos(&cfg, &t, found())), vec!["a", "b", "c"]);
    assert!(search_repos(&cfg, &vec![], found()).is_empty());
    assert_eq!(names(search_local(&cfg, &vec![], vec![repo("x")], vec![repo("y")])), vec!["x"]);
    assert_eq!(names(search_local(&cfg, &t, vec![repo("x")], vec![repo("y")])), vec!["y"]);
    cfg.limit = 2;
    assert_eq!(names(search_repos(&cfg, &t, found())), vec!["a", "b"]);
    cfg.mode.repo = false;
    assert!(search_repos(&cfg, &t, found()).is_empty());
}

#[test]
fn build_scripts_are_searched_by_patterns() {
    let mut cfg = Config::default();
    let pkgs = vec![custom("foo"), custom("bar")];
    let hits = |cfg: &Config, t: &[&str]| search_pkgbuilds(cfg, &strings(t), &pkgs);
    assert_eq!(hits(&cfg, &["^fo+$"]), Ok(vec![0]));
    assert_eq!(hits(&cfg, &["bar", "foo"]), Ok(vec![0, 1]));
    assert_eq!(hits(&cfg, &["virt"]), Ok(vec![0, 1]));
    assert_eq!(hits(&cfg, &["^grp$"]), Ok(vec![0, 1]));
    assert_eq!(hits(&cfg, &["^base$"]), Ok(vec![0, 1]));
    assert_eq!(hits(&cfg, &["nothing"]), Ok(vec![]));
    assert_eq!(hits(&cfg, &[]), Ok(vec![0, 1]));
    let error = hits(&cfg, &["("]).unwrap_err();
    assert_eq!(error, regex::RegexSet::new(["("]).unwrap_err().to_string());
    cfg.mode.pkgbuild = false;
    assert_eq!(hits(&cfg, &["("]), Ok(vec![]));
}

#[test]
fn terms_are_lowered_and_sorted() {
    assert_eq!(lower_terms(&strings(&["ÄB", "c"])), strings(&["äb", "c"]));
    assert_eq!(
        sort_terms(&strings(&["ccc", "é", "a", "bb", "z"])),
        strings(&["a", "z", "é", "bb", "ccc"])
    );
}

#[test]
fn refused_terms_are_passed_over() {
    let mut terms = strings(&["a", "bb", "ccc"]);
    assert_eq!(search_target(Attempt::Refused, 0, &mut terms), AfterAttempt::Next);
    assert_eq!(search_target(Attempt::Refused, 2, &mut terms), AfterAttempt::Fail);
    assert_eq!(search_target(Attempt::Failed, 0, &mut terms), AfterAttempt::Fail);
    assert_eq!(terms.len(), 3);
    assert_eq!(search_target(Attempt::Found, 1, &mut terms), AfterAttempt::Use);
    assert_eq!(terms, strings(&["a", "ccc"]));
}

#[test]
fn results_of_the_aur_are_checked_and_ordered() {
    let mut cfg = Config::default();
    let t = strings(&["x"]);
    let mut pkgs = vec![aur("Foo-x", 1), aur("bar", 5), aur("foo", 5), aur("zed", 9)];
    pkgs[3].description = None;
    assert_eq!(search_aur(&cfg, &t, &pkgs, &vec![]), vec![3, 1, 2, 0]);
    assert_eq!(search_aur(&cfg, &t, &pkgs, &strings(&["thing"])), vec![1, 2, 0]);
    cfg.search_by = SearchBy::Name;
    assert_eq!(search_aur(&cfg, &t, &pkgs, &strings(&["thing"])), Vec::<usize>::new());
    assert_eq!(search_aur(&cfg, &t, &pkgs, &strings(&["foo"])), vec![2, 0]);
    cfg.search_by = SearchBy::Other;
    assert_eq!(search_aur(&cfg, &t, &pkgs, &strings(&["none"])).len(), 4);
    for (by, order) in [
        (SortBy::Popularity, vec![0, 1, 2, 3]),
        (SortBy::Id, vec![3, 1, 2, 0]),
        (SortBy::Name, vec![0, 1, 2, 3]),
        (SortBy::Base, vec![0, 1, 2, 3]),
        (SortBy::Submitted, vec![0, 1, 2, 3]),
        (SortBy::Modified, vec![3, 1, 2, 0]),
        (SortBy::Relevance, vec![0, 1, 2, 3]),
    ] {
        cfg.sort_by = by;
        assert_eq!(search_aur(&cfg, &t, &pkgs, &vec![]), order, "{:?}", by);
    }
    cfg.limit = 2;
    assert_eq!(search_aur(&cfg, &t, &pkgs, &vec![]), vec![0, 1]);
    assert!(search_aur(&cfg, &vec![], &pkgs, &vec![]).is_empty());
    cfg.mode.aur = false;
    assert!(search_aur(&cfg, &t, &pkgs, &vec![]).is_empty());
}

#[test]
fn searches_by_patterns_are_not_checked_again() {
    let mut cfg = Config::default();
    cfg.args.args = vec![Arg { key: "regex".into(), value: None }];
    let pkgs = vec![aur("a", 1)];
    assert_eq!(search_aur(&cfg, &strings(&["x"]), &pkgs, &strings(&["x"])), vec![0]);
}

#[test]
fn the_packed_list_is_searched_by_patterns() {
    let data = gzip("linux\nlinux-lts\nüber\n".as_bytes());
    assert_eq!(
        search_aur_regex(&data, &strings(&["^linux", "ü"])).unwrap(),
        strings(&["linux", "linux-lts", "über"])
    );
    assert_eq!(
        search_aur_regex(&data, &strings(&["lts$"])).unwrap(),
        strings(&["linux-lts"])
    );
    let cfg = Config::default();
    let message = |r: Result<Vec<String>, RegexSearchError>| r.unwrap_err().message(&cfg);
    assert_eq!(message(search_aur_regex(b"", &strings(&["a"]))), "failed to decode package list");
    assert_eq!(
        message(search_aur_regex(&gzip(b"\xff"), &strings(&["a"]))),
        "failed to decode package list"
    );
    assert!(matches!(
        search_aur_regex(&data, &strings(&["["])),
        Err(RegexSearchError::BadPattern(_))
    ));
    let many = "a\n".repeat(MAX_REGEX_HITS);
    assert_eq!(
        message(search_aur_regex(&gzip(many.as_bytes()), &strings(&["a"]))),
        "too many packages"
    );
    let fewer = "a\n".repeat(MAX_REGEX_HITS - 1);
    assert!(search_aur_regex(&gzip(fewer.as_bytes()), &strings(&["a"])).is_ok());
    assert_eq!(pick_names(&strings(&["a", "b"]), &vec![false, true]), strings(&["b"]));
}

#[test]
fn searches_print_lines() {
    let mut cfg = Config::default();
    let lines = |cfg: &Config| {
        let out = search(cfg, &vec![repo("r1"), repo("r2")], &vec![custom("c")], &vec![aur("a1", 1), aur("a2", 2)]);
        assert_eq!(out.code, 0);
        out.lines.into_iter().map(|l| l.text).collect::<Vec<_>>()
    };
    let top = lines(&cfg);
    assert_eq!(top[0], "r1 core 1-1 desc\n");
    assert_eq!(top[2], "c  mine 3   None\n");
    assert_eq!(top[4], "a2 aur 2-1  Some Thing\n");
    cfg.args.args = vec![Arg { key: "quiet".into(), value: None }];
    assert_eq!(lines(&cfg), vec!["r1\n", "r2\n", "c\n", "a1\n", "a2\n"]);
    cfg.sort_mode = SortMode::BottomUp;
    assert_eq!(lines(&cfg), vec!["a2\n", "a1\n", "c\n", "r2\n", "r1\n"]);
    assert_eq!(search(&cfg, &vec![], &vec![custom("c")], &vec![]).code, 1);
}

fn menu() -> Vec<AnyPkg> {
    vec![
        AnyPkg::RepoPkg(repo("r")),
        AnyPkg::Custom(custom("c")),
        AnyPkg::AurPkg(aur("a", 1)),
    ]
}

#[test]
fn exact_names_come_first_in_the_menu() {
    assert_eq!(order_menu(&menu(), &strings(&["a", "x", "c"])), vec![1, 2, 0]);
    assert_eq!(order_menu(&menu(), &vec![]), vec![0, 1, 2]);
}

#[test]
fn menus_are_numbered() {
    let mut cfg = Config::default();
    cfg.targets = strings(&["a"]);
    let view = interactive_menu(&cfg, &menu(), true).unwrap();
    assert_eq!(view.prompt, "Packages to install (eg: 1 2 3, 1-3):");
    assert!(view.lines[0].text.starts_with("1 \x1b[1ma\x1b[0m "));
    assert!(view.lines[1].text.starts_with("2 r "));
    cfg.sort_mode = SortMode::BottomUp;
    let view = interactive_menu(&cfg, &menu(), false).unwrap();
    assert_eq!(view.prompt, "Select packages (eg: 1 2 3, 1-3):");
    assert!(view.lines[0].text.starts_with("3 c "));
    assert!(interactive_menu(&cfg, &vec![], true).is_none());
    let many = vec![AnyPkg::RepoPkg(repo("r")); 10];
    let view = interactive_menu(&cfg, &many, true).unwrap();
    assert!(view.lines[0].text.starts_with("10 r"));
    assert!(view.lines[9].text.starts_with(" 1 r"));
}

#[test]
fn choices_become_targets() {
    let mut cfg = Config::default();
    cfg.targets = strings(&["a"]);
    let choice = |cfg: &Config, reply: &str| menu_choice(cfg, &menu(), reply, &vec![true, false, true]);
    assert_eq!(choice(&cfg, "1 3"), strings(&["aur/a", "mine/c"]));
    assert!(choice(&cfg, " \n").is_empty());
    cfg.sort_mode = SortMode::BottomUp;
    assert_eq!(choice(&cfg, "1 3"), strings(&["mine/c", "aur/a"]));
}

#[test]
fn chosen_targets_replace_the_old_ones() {
    let mut cfg = Config::default();
    cfg.targets = strings(&["old"]);
    cfg.quiet = true;
    assert_eq!(interactive_search(&mut cfg, 3, strings(&["core/a"])), None);
    assert_eq!(cfg.targets, strings(&["core/a"]));
    assert_eq!(cfg.args.targets, strings(&["core/a"]));
    assert!(cfg.quiet);
    assert_eq!(
        interactive_search_local(&mut cfg, 3, vec![]),
        Some(" there is nothing to do".into())
    );
    assert_eq!(interactive_search_local(&mut cfg, 0, vec![]), None);
    assert!(cfg.targets.is_empty());
}

#[test]
fn marks_are_not_seen() {
    let hi = Style { foreground: Some(Colour::Red), bold: true, dimmed: false };
    let base = Style { foreground: Some(Colour::Blue), bold: false, dimmed: false };
    let text = "VLC media player: vlc, ➔ [vlc]";
    for color_on in [false, true] {
        let marked = highlight_terms(text, &strings(&["vlc", "play"]), base, hi, color_on);
        assert_ne!(marked, text);
        let mut seen = String::new();
        let mut rest = marked.as_str();
        while let Some(at) = rest.find('\x1b') {
            seen.push_str(&rest[..at]);
            let end = rest[at..].find('m').unwrap();
            rest = &rest[at + end + 1..];
        }
        seen.push_str(rest);
        assert_eq!(seen, text);
    }
}

#[test]
fn a_description_always_has_room() {
    for l in [0usize, 1, 5, 47, 100, 5000] {
        for m in [2usize, 3, 9, 46, 100, 5000] {
            let mut r = row(&"n".repeat(l), "", &"v".repeat(m - 1));
            r.repo = String::new();
            for term in [48usize, 49, 80, 120, 300] {
                let w = compute_search_columns(&vec![r.clone()], term);
                assert!(w.description >= 2);
                assert_eq!(w.left + w.mid + 2 + w.description as u128, term as u128);
                if l + m + 10 > term {
                    assert!(w.left >= 6 && w.mid >= 4);
                } else {
                    assert_eq!((w.left, w.mid), (l as u128, m as u128));
                }
            }
        }
    }
}
