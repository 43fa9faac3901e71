use bah::config::Config;
use bah::style::{Colour, Style};
use bah::ui::bundle::{
    aur_cached_pkg_size, format_download_cell, read_first_changelog_line, repo_tx_action, Actions,
    BuildBase, BuildPkg, CacheDir, CacheEntry, LocalPkg, RepoPkg,
};
use bah::ui::notice::print_critical_hook_failure_warning;
use bah::ui::preview::{
    paint_version_cell, section_separator_line, v_label, version_plain, version_plain_for_tx,
};
use bah::ui::{
    confirm_transaction, install_confirmation_bundle, print_confirmation_table,
    print_critical_pkg_warning, print_hook_phase_done, print_hook_phase_start, print_hook_step,
    print_install_confirmation_summary, print_install_confirmation_table, print_warning_block,
    remove_confirmation_bundle, ConfirmationTable, InstallConfirmTotals, TxActionKind,
    TxConfirmOp, TxRowGroup, TxRowPaint, TxSourceKind,
};
use unicode_width::UnicodeWidthStr;

fn repo_pkg(name: &str, db: &str, version: &str, old: Option<&str>, target: bool) -> RepoPkg {
    RepoPkg {
        name: name.into(),
        db: db.into(),
        version: version.into(),
        download_size: 2048,
        isize: 100,
        desc: Some(format!("{} from {}", name, db)),
        changelog: None,
        local: old.map(|v| LocalPkg {
            name: name.into(),
            version: v.into(),
            isize: 30,
            desc: None,
        }),
        target,
    }
}

fn build_pkg(name: &str, version: &str, installed: Option<&str>, target: bool) -> BuildPkg {
    BuildPkg {
        name: name.into(),
        version: version.into(),
        description: Some("built".into()),
        installed: installed.map(|s| s.into()),
        target,
    }
}

fn cells(t: &ConfirmationTable) -> Vec<Vec<String>> {
    t.rows.iter().map(|r| r.cells.clone()).collect()
}

#[test]
fn versions_get_a_letter() {
    assert_eq!(v_label(" 1.0 "), "v1.0");
    assert_eq!(v_label("v2"), "v2");
    assert_eq!(v_label("  "), "");
    assert_eq!(version_plain("1", "2"), "v1 -> v2");
}

#[test]
fn shown_versions_follow_the_action() {
    let paint = |action| TxRowPaint {
        action,
        source: TxSourceKind::Repo,
        old_ver: "1".into(),
        new_ver: "2".into(),
    };
    let cfg = Config::default();
    for (action, text) in [
        (TxActionKind::Install, "v2"),
        (TxActionKind::Remove, "v1"),
        (TxActionKind::Upgrade, "v1 -> v2"),
    ] {
        assert_eq!(version_plain_for_tx(&paint(action)), text);
        assert_eq!(paint_version_cell(&cfg, &paint(action)), text);
    }
}

#[test]
fn actions_follow_the_installed_version() {
    assert_eq!(repo_tx_action(None, "2"), TxActionKind::Install);
    assert_eq!(repo_tx_action(Some(""), "2"), TxActionKind::Install);
    assert_eq!(repo_tx_action(Some("2"), "2"), TxActionKind::Install);
    assert_eq!(repo_tx_action(Some("1"), "2"), TxActionKind::Upgrade);
}

#[test]
fn download_cells_tell_what_is_known() {
    let cfg = Config::default();
    assert_eq!(format_download_cell(&cfg, None), "Build");
    assert_eq!(format_download_cell(&cfg, Some(0)), "—");
    assert_eq!(format_download_cell(&cfg, Some(-5)), "—");
    assert_eq!(format_download_cell(&cfg, Some(2048)), "2.0 KiB");
}

#[test]
fn changelogs_give_their_first_line() {
    assert_eq!(read_first_changelog_line(&None), None);
    assert_eq!(read_first_changelog_line(&Some(vec![])), None);
    assert_eq!(read_first_changelog_line(&Some(b"\n  \n".to_vec())), None);
    assert_eq!(
        read_first_changelog_line(&Some(b"\n  first \nsecond".to_vec())),
        Some("first".into())
    );
    assert_eq!(
        read_first_changelog_line(&Some(vec![b'a', 0xff, b'b'])),
        Some("a\u{fffd}b".into())
    );
}

fn entry(name: &str, size: i64) -> CacheEntry {
    CacheEntry { name: Some(name.into()), size: Some(size) }
}

#[test]
fn cached_packages_have_sizes() {
    let dir = |entries| CacheDir { entries };
    let full = vec![
        entry("foo-1-1-any.pkg.tar.zst", 10),
        entry("foo-1-2-any.pkg.tar.zst", 30),
        entry("foo-1-any.txt", 99),
        entry("bar-1-1.pkg.tar", 77),
    ];
    assert_eq!(aur_cached_pkg_size(&vec![], "foo", "1"), None);
    assert_eq!(
        aur_cached_pkg_size(&vec![dir(None), dir(Some(full.clone()))], "foo", "1"),
        Some(30)
    );
    assert_eq!(aur_cached_pkg_size(&vec![dir(Some(full.clone()))], "foo", "2"), None);
    let mut broken = full.clone();
    broken.push(CacheEntry { name: None, size: None });
    assert_eq!(aur_cached_pkg_size(&vec![dir(Some(broken))], "foo", "1"), None);
    let unsized_one = vec![CacheEntry { name: Some("foo-1-1.pkg.tar".into()), size: None }];
    assert_eq!(aur_cached_pkg_size(&vec![dir(Some(unsized_one))], "foo", "1"), None);
}

#[test]
fn installations_list_builds_then_repositories_by_name() {
    let cfg = Config::default();
    let actions = Actions {
        build: vec![BuildBase {
            pkgs: vec![
                build_pkg("zeta", "2", Some("1"), true),
                build_pkg("tool-git", "5", None, false),
            ],
        }],
        install: vec![
            repo_pkg("vim", "extra", "9.1", Some("9.0"), true),
            repo_pkg("acl", "core", "2.3", None, false),
            repo_pkg("vim", "core", "9.1", Some("9.1"), false),
        ],
    };
    let (table, totals) =
        install_confirmation_bundle(&cfg, &actions, &vec!["tool-git".into()], &vec![]).unwrap();
    assert_eq!(table.title, "Package changes");
    assert_eq!(table.headers, vec!["Package", "Version", "Download", "Details"]);
    assert_eq!(
        cells(&table),
        vec![
            vec!["zeta", "v1 -> v2", "Build", "built"],
            vec!["tool-git", "vlatest-commit", "Build", "built"],
            vec!["acl", "v2.3", "2.0 KiB", "acl from core"],
            vec!["vim", "v9.1", "2.0 KiB", "vim from core"],
            vec!["vim", "v9.0 -> v9.1", "2.0 KiB", "vim from extra"],
        ]
    );
    assert_eq!(table.rows[0].group, Some(TxRowGroup::Target));
    assert_eq!(table.rows[1].group, Some(TxRowGroup::Dependency));
    assert_eq!(table.rows[4].tx.as_ref().unwrap().action, TxActionKind::Upgrade);
    assert_eq!(table.rows[4].tx.as_ref().unwrap().source, TxSourceKind::Repo);
    assert_eq!(totals.download_bytes, 3 * 2048);
    assert_eq!(totals.disk_delta_bytes, 70 + 100 + 70);
    assert!(totals.download_excludes_aur && totals.disk_partial && totals.had_repo_pkg);
}

#[test]
fn nothing_to_install_has_no_preview() {
    let cfg = Config::default();
    let none = Actions { build: vec![], install: vec![] };
    assert!(install_confirmation_bundle(&cfg, &none, &vec![], &vec![]).is_none());
}

#[test]
fn equal_packages_keep_their_order() {
    let cfg = Config::default();
    let mut first = repo_pkg("a", "core", "1", None, true);
    first.desc = Some("first".into());
    let mut second = repo_pkg("a", "core", "1", None, true);
    second.desc = Some("second".into());
    let actions = Actions { build: vec![], install: vec![first, second] };
    let (table, _) = install_confirmation_bundle(&cfg, &actions, &vec![], &vec![]).unwrap();
    assert_eq!(table.rows[0].cells[3], "first");
    assert_eq!(table.rows[1].cells[3], "second");
}

#[test]
fn removals_list_what_is_installed() {
    let cfg = Config::default();
    let local = |name: &str, isize| {
        Some(LocalPkg {
            name: name.into(),
            version: "3-1".into(),
            isize,
            desc: Some("gone".into()),
        })
    };
    let (table, totals) =
        remove_confirmation_bundle(&cfg, &vec![local("a", 5), None, local("b", 7)]).unwrap();
    assert_eq!(
        cells(&table),
        vec![vec!["a", "v3-1", "gone"], vec!["b", "v3-1", "gone"]]
    );
    assert_eq!(totals.disk_delta_bytes, -12);
    assert!(totals.had_repo_pkg);
    assert!(remove_confirmation_bundle(&cfg, &vec![None]).is_none());
    assert!(remove_confirmation_bundle(&cfg, &vec![]).is_none());
}

#[test]
fn separators_fill_the_line() {
    assert_eq!(section_separator_line(12, "Deps"), " --Deps-----");
    assert_eq!(section_separator_line(7, "Deps"), " --Deps");
    assert_eq!(section_separator_line(6, "Deps"), " --...");
    assert_eq!(section_separator_line(0, "Deps"), ".");
}

fn sample(cfg: &Config) -> (ConfirmationTable, InstallConfirmTotals) {
    let actions = Actions {
        build: vec![BuildBase { pkgs: vec![build_pkg("zeta", "2", Some("1"), true)] }],
        install: vec![
            repo_pkg("vim", "extra", "9.1", Some("9.0"), true),
            repo_pkg("acl", "core", "2.3", None, false),
        ],
    };
    install_confirmation_bundle(cfg, &actions, &vec![], &vec![]).unwrap()
}

#[test]
fn previews_of_installations_have_groups_and_sources() {
    let cfg = Config::default();
    let (table, totals) = sample(&cfg);
    let text =
        print_install_confirmation_table(&cfg, Some(73), &table, &totals, TxConfirmOp::Install);
    let lines: Vec<&str> = text.lines().map(|l| l.trim_end()).collect();
    let bar = |title: &str| {
        let label = format!(" --{}", title);
        format!("\x1b[1;34m{}{}\x1b[0m", label, "-".repeat(72 - label.width()))
    };
    assert_eq!(lines[0], "");
    assert_eq!(lines[1], ":: Packages to install (3):");
    assert_eq!(lines[2], bar("Target Packages"));
    assert_eq!(lines[3], bar("AUR Packages"));
    assert!(lines[4].starts_with("zeta     v1 -> v2         Build  \x1b[2;37mbuilt"));
    assert_eq!(lines[5], bar("Repo Packages"));
    assert!(lines[6].starts_with("vim      v9.0 -> v9.1   2.0 KiB  \x1b[2;37mvim from extra"));
    assert_eq!(lines[7], bar("Dependencies"));
    assert!(lines[8].starts_with("acl      v2.3           2.0 KiB  \x1b[2;37macl from core"));
    assert_eq!(lines[9], "");
    assert_eq!(lines[10], ":: Total download size: 4.0 KiB*");
    assert_eq!(
        lines[11],
        "   * AUR / local build sizes are applied when packages are built and installed."
    );
    assert_eq!(lines[12], "");
    assert_eq!(lines.len(), 13);
}

#[test]
fn previews_of_updates_have_sources_only() {
    let cfg = Config::default();
    let (table, totals) = sample(&cfg);
    let text = print_install_confirmation_table(&cfg, None, &table, &totals, TxConfirmOp::Update);
    assert!(text.contains(":: Packages to update (3):\n\x1b[1;34m --AUR Packages"));
    assert!(text.contains(" --Repo Packages"));
    assert!(!text.contains("Dependencies"));
    for name in ["zeta", "vim  ", "acl  "] {
        assert_eq!(text.matches(&format!("\n{}", name)).count(), 1, "{}", name);
    }
}

#[test]
fn previews_of_removals_have_no_summary() {
    let cfg = Config::default();
    let local = Some(LocalPkg {
        name: "nano".into(),
        version: "8-1".into(),
        isize: 1,
        desc: None,
    });
    let (table, totals) = remove_confirmation_bundle(&cfg, &vec![local]).unwrap();
    let c = confirm_transaction(&cfg, Some(80), &table, &totals, TxConfirmOp::Remove);
    assert_eq!(
        c.text,
        format!(
            "\n:: Packages to remove (1):\nnano     v8-1     \x1b[2;37m{}\x1b[0m\n",
            " ".repeat(79 - 18)
        )
    );
    assert_eq!(c.prompt, "Proceed with removal?");
    assert!(c.default_yes);
}

#[test]
fn long_versions_are_cut_before_the_details_vanish() {
    let cfg = Config::default();
    let mut table = ConfirmationTable::new("t");
    table.headers = vec!["Package".into(), "Version".into(), "Description".into()];
    table.push_row(vec!["p".into(), "x".into(), "detail".into()]);
    table.rows[0].tx = Some(TxRowPaint {
        action: TxActionKind::Install,
        source: TxSourceKind::Repo,
        old_ver: "".into(),
        new_ver: "1".repeat(100),
    });
    let totals = InstallConfirmTotals::default();
    let text = print_install_confirmation_table(&cfg, Some(72), &table, &totals, TxConfirmOp::Remove);
    let line = text.lines().nth(2).unwrap();
    assert!(line.starts_with(&format!("p        v{}...  \x1b[2;37mdetail      \x1b[0m", "1".repeat(44))));
}

#[test]
fn tables_without_rows_or_columns_are_not_shown() {
    let cfg = Config::default();
    let totals = InstallConfirmTotals::default();
    let mut t = ConfirmationTable::new("t");
    assert_eq!(print_install_confirmation_table(&cfg, None, &t, &totals, TxConfirmOp::Install), "");
    assert_eq!(print_confirmation_table(&cfg, &t, &[]), "");
    t.headers = vec!["A".into()];
    assert_eq!(print_confirmation_table(&cfg, &t, &[]), "");
}

#[test]
fn summaries_tell_the_download_size() {
    let mut cfg = Config::default();
    let mut totals = InstallConfirmTotals::default();
    assert_eq!(
        print_install_confirmation_summary(&cfg, &totals),
        "\n:: Total download size: 0 B\n\n"
    );
    totals.download_bytes = 1536;
    assert_eq!(
        print_install_confirmation_summary(&cfg, &totals),
        "\n:: Total download size: 1.5 KiB\n\n"
    );
    totals.download_bytes = 0;
    totals.download_excludes_aur = true;
    cfg.messages.build_sizes = "note".into();
    assert_eq!(
        print_install_confirmation_summary(&cfg, &totals),
        "\n:: Total download size: — (AUR)\n   note\n\n"
    );
}

#[test]
fn warnings_are_yellow() {
    assert_eq!(print_warning_block(&vec![]), "");
    assert_eq!(print_warning_block(&vec!["x".into()]), "\x1b[33mx\x1b[0m\n\n");
    assert_eq!(print_critical_pkg_warning(&vec![]), "");
    assert_eq!(
        print_critical_pkg_warning(&vec!["linux".into(), "glibc".into()]),
        "\x1b[33m:: Warning: This transaction includes critical system packages:\x1b[0m\n\
         \x1b[33m   linux, glibc\x1b[0m\n\
         \x1b[33m   Interrupting this operation may leave your system unbootable.\x1b[0m\n\
         \x1b[33m   Ensure /boot is mounted before proceeding.\x1b[0m\n\n"
    );
}

#[test]
fn hooks_have_lines() {
    let mut cfg = Config::default();
    cfg.color.field = Style { foreground: Some(Colour::Cyan), bold: false, dimmed: false };
    assert_eq!(print_hook_phase_start(&cfg), ":: Running post-transaction hooks...\n");
    assert_eq!(print_hook_phase_done(&cfg), ":: Post-transaction hooks completed.\n");
    assert_eq!(print_hook_step(&cfg, 2, 9, "Hook"), "\x1b[36m[2/9]\x1b[0m Hook\n");
}

#[test]
fn failed_boot_hooks_raise_an_alarm() {
    assert_eq!(print_critical_hook_failure_warning(None), "");
    assert_eq!(print_critical_hook_failure_warning(Some("Updating fonts")), "");
    let text = print_critical_hook_failure_warning(Some("Updating KERNEL image"));
    assert!(text.starts_with(&format!("\n\x1b[1;31m{}\x1b[0m\n", "=".repeat(70))));
    assert!(text.contains("\x1b[1;31mFailed hook: Updating KERNEL image\x1b[0m\n"));
    assert_eq!(text.lines().count(), 18);
}

#[test]
fn caps_limit_columns() {
    let mut cfg = Config::default();
    cfg.cols = Some(10);
    let mut t = ConfirmationTable::new("T");
    t.headers = vec!["A".into(), "B".into()];
    t.push_row(vec!["abcdefghij".into(), "xy".into()]);
    let text = print_confirmation_table(&cfg, &t, &[6, 9]);
    assert_eq!(text, ":: T\nA       B        \nabc...  xy\n");
    let wide = print_confirmation_table(&cfg, &t, &[]);
    assert_eq!(wide.lines().nth(1).unwrap().width(), 72);
}
