use bah::config::{Arg, Args, Config};
use bah::exec::{
    command, command_err, command_output, command_status, new_makepkg, new_pacman, output_report,
    signal_exit_code, wait_for_lock_notice, AfterCommand, Status,
};
use bah::messages::fill;
use bah::order::{key_of_pair, key_of_text, stable_order};
use bah::remove::{remove, removed_bases, RemoveEvent, RemovePhase};
use bah::sync::{
    aur_names, filter, list, list_aur, list_exit_code, list_pkgbuilds, list_repo_dbs, print_pkg,
    repository_not_found, split_lines, DbPkg, ListStep, ListedPkg, RepoDb,
};
use bah::style::{Colour, Style};
use bah::ui::bundle::LocalPkg;
use flate2::write::GzEncoder;
use flate2::Compression;
use std::io::Write;

fn strings(list: &[&str]) -> Vec<String> {
    list.iter().map(|s| s.to_string()).collect()
}

fn gzip(data: &[u8]) -> Vec<u8> {
    let mut e = GzEncoder::new(Vec::new(), Compression::default());
    e.write_all(data).unwrap();
    e.finish().unwrap()
}

fn quiet() -> Config {
    let mut cfg = Config::default();
    cfg.args.args = vec![Arg { key: "q".into(), value: None }];
    cfg
}

#[test]
fn statuses_have_codes() {
    assert_eq!(Status(3).code(), 3);
    assert_eq!(Status(0).success(), Ok(0));
    assert_eq!(Status(2).success(), Err(Status(2)));
    assert_eq!(Status::of_process(Some(7)), Status(7));
    assert_eq!(Status::of_process(None), Status(1));
    assert_eq!(signal_exit_code(15), 143);
}

#[test]
fn options_are_counted_under_both_names() {
    let arg = |k: &str| Arg { key: k.into(), value: None };
    let a = Args {
        bin: "p".into(),
        op: "sync".into(),
        args: vec![arg("y"), arg("refresh"), arg("u")],
        targets: vec![],
    };
    assert_eq!(a.count("y", "refresh"), 2);
    assert_eq!(a.count("needed", "needed"), 0);
    assert!(a.has_arg("u", "sysupgrade") && !a.has_arg("d", "nodeps"));
}

#[test]
fn failed_commands_are_reported() {
    let cfg = Config::default();
    let args = strings(&["-S", "x"]);
    assert_eq!(command_err(&cfg, "p", &args), "failed to run: p -S x");
    assert_eq!(command_err(&cfg, "p", &vec![]), "failed to run: p ");
    assert_eq!(command(&cfg, "p", &args, Status(0)), Ok(()));
    assert_eq!(command(&cfg, "p", &args, Status(1)), Err("failed to run: p -S x".into()));
    assert!(matches!(
        command_status(&cfg, "p", &args, Some(None), 0),
        AfterCommand::Result(Ok(Status(1)))
    ));
    assert!(matches!(
        command_status(&cfg, "p", &args, None, 0),
        AfterCommand::Result(Err(e)) if e == "failed to run: p -S x"
    ));
    assert!(matches!(
        command_status(&cfg, "p", &args, Some(Some(0)), 2),
        AfterCommand::Exit(130)
    ));
    assert_eq!(command_output(&cfg, "p", &args, true, b"x"), Ok(()));
    assert_eq!(
        command_output(&cfg, "p", &args, false, b" bad \xff\n"),
        Err("failed to run: p -S x: bad \u{fffd}".into())
    );
    assert_eq!(output_report(&cfg, "p", &args, " e "), "failed to run: p -S x: e");
}

#[test]
fn command_lines_are_composed() {
    let mut cfg = Config::default();
    let run = new_pacman(&cfg, "pacman", &strings(&["-Q"]));
    assert_eq!((run.program.as_str(), run.args), ("pacman", strings(&["-Q"])));
    cfg.makepkg_conf = Some("/m".into());
    cfg.mflags = strings(&["--skip"]);
    let run = new_makepkg(&cfg, "/build", &strings(&["-f"]), Some("/out"));
    assert_eq!(run.command.program, "makepkg");
    assert_eq!(run.command.args, strings(&["--config", "/m", "--skip", "-f"]));
    assert_eq!((run.dir.as_str(), run.pkgdest.as_deref()), ("/build", Some("/out")));
    assert_eq!(new_makepkg(&cfg, "/b", &vec![], None).pkgdest, None);
    assert_eq!(
        wait_for_lock_notice(&cfg),
        ":: Pacman is currently in use, please wait...\n"
    );
}

#[test]
fn sentences_take_values() {
    assert_eq!(fill("installed: {}", "1.0"), "installed: 1.0");
    assert_eq!(fill("none", "1.0"), "none");
}

#[test]
fn orders_are_stable() {
    let keys = |list: &[&str]| list.iter().map(|s| key_of_text(s)).collect::<Vec<_>>();
    assert_eq!(stable_order(&keys(&["b", "a", "ab", "b", ""])), vec![4, 1, 2, 0, 3]);
    assert!(stable_order(&vec![]).is_empty());
    let words = ["é", "e", "z", "Z", "日", "ee", ""];
    let mut sorted = words.to_vec();
    sorted.sort();
    let order = stable_order(&keys(&words));
    assert_eq!(order.iter().map(|i| words[*i]).collect::<Vec<_>>(), sorted);
}

#[test]
fn pairs_are_ordered_by_both_texts() {
    let pairs = [("a", "z"), ("a", "b"), ("", "zz"), ("ab", "a"), ("a", "")];
    let keys = pairs.iter().map(|p| key_of_pair(p.0, p.1)).collect::<Vec<_>>();
    let mut sorted = pairs.to_vec();
    sorted.sort();
    let order = stable_order(&keys);
    assert_eq!(order.iter().map(|i| pairs[*i]).collect::<Vec<_>>(), sorted);
}

#[test]
fn known_targets_are_filtered() {
    let targets = strings(&["a", "b", "c"]);
    let out = filter(&targets, &vec![true, false, true], 2);
    assert_eq!((out.text.as_str(), out.code), ("a\nc\n", 127));
    let out = filter(&targets, &vec![true, true, true], 3);
    assert_eq!((out.text.as_str(), out.code), ("a\nb\nc\n", 0));
}

#[test]
fn lists_have_parts() {
    let mut cfg = Config::default();
    let repos = strings(&["core"]);
    let builds = strings(&["mine", "yours"]);
    assert_eq!(
        list(&cfg, &vec![], &repos, &builds),
        vec![
            ListStep::Repos,
            ListStep::Pkgbuilds(0),
            ListStep::Pkgbuilds(1),
            ListStep::Aur
        ]
    );
    let targets = strings(&["core", "yours", "aur", "none"]);
    let steps = list(&cfg, &targets, &repos, &builds);
    assert_eq!(
        steps,
        vec![
            ListStep::Repo(0),
            ListStep::PkgbuildsNamed(1),
            ListStep::Aur,
            ListStep::NotFound(3)
        ]
    );
    assert_eq!(list_exit_code(&steps, false), 1);
    assert_eq!(list_exit_code(&steps[..3].to_vec(), false), 0);
    assert_eq!(list_exit_code(&steps[..3].to_vec(), true), 1);
    assert_eq!(list_exit_code(&steps[..2].to_vec(), true), 0);
    cfg.mode.aur = false;
    cfg.mode.repo = false;
    assert_eq!(
        list(&cfg, &targets, &repos, &builds)[..3],
        [ListStep::NotFound(0), ListStep::PkgbuildsNamed(1), ListStep::NotFound(2)]
    );
    assert_eq!(repository_not_found("x"), "repository \"x\" was not found");
}

fn dbs() -> Vec<RepoDb> {
    let pkg = |name: &str, installed: Option<&str>, same_version| DbPkg {
        name: name.into(),
        version: "2".into(),
        desc: Some("d".into()),
        installed: installed.map(|s| s.into()),
        same_version,
    };
    vec![
        RepoDb {
            name: "core".into(),
            server: Some("file://file:///srv".into()),
            pkgs: vec![pkg("a", Some("1"), false), pkg("b", Some("2"), true)],
        },
        RepoDb { name: "extra".into(), server: None, pkgs: vec![pkg("c", None, false)] },
    ]
}

#[test]
fn repositories_are_listed() {
    let mut cfg = Config::default();
    assert_eq!(list_repo_dbs(&cfg, &dbs(), None), "core /srv\nextra \n");
    assert_eq!(list_repo_dbs(&cfg, &dbs(), Some("extra")), "extra \n");
    cfg.quiet = true;
    assert_eq!(list_repo_dbs(&cfg, &dbs(), None), "core\nextra\n");
    cfg.list = true;
    assert_eq!(list_repo_dbs(&cfg, &dbs(), None), "a\nb\nc\n");
    assert_eq!(list_repo_dbs(&cfg, &dbs(), Some("core")), "a\nb\n");
    cfg.quiet = false;
    assert_eq!(
        list_repo_dbs(&cfg, &dbs(), None),
        ":: Available repository packages\n\
         .  Repo...  Status        Description\n\
         a  core 2   installed: 1  d\n\
         b  core 2   installed     d\n\
         c  extra 2                d\n"
    );
    assert_eq!(
        list_repo_dbs(&cfg, &dbs(), Some("x")),
        ":: Available repository packages\n"
    );
}

#[test]
fn packages_are_listed_in_bytes() {
    let mut cfg = Config::default();
    cfg.color.sl_repo = Style { foreground: Some(Colour::Purple), bold: true, dimmed: false };
    assert_eq!(
        print_pkg(&cfg, b"n\xff", "aur", "1", true),
        b"\x1b[1;35maur\x1b[0m n\xff 1 [installed]\n"
    );
    assert_eq!(print_pkg(&quiet(), b"n\xff", "aur", "1", true), b"n\xff\n");
    let pkgs = vec![
        ListedPkg { name: "x".into(), version: "1".into(), installed: false },
        ListedPkg { name: "y".into(), version: "2".into(), installed: true },
    ];
    assert_eq!(
        list_pkgbuilds(&Config::default(), "mine", &pkgs),
        b"mine x 1\nmine y 2 [installed]\n"
    );
}

#[test]
fn the_packed_list_of_the_aur_is_listed() {
    let cfg = Config::default();
    let names = aur_names(&cfg, &gzip(b"\na\nbb\n\nc")).unwrap();
    assert_eq!(names, vec![b"a".to_vec(), b"bb".to_vec(), b"c".to_vec()]);
    assert_eq!(
        list_aur(&cfg, &names, &vec![false, true, false]),
        b"aur a unknown-version\naur bb unknown-version [installed]\naur c unknown-version\n"
    );
    assert_eq!(aur_names(&cfg, b"junk").unwrap_err(), "failed to decode package list");
    let mut cut = gzip(b"aaaaaaaaaaaaaaaaa");
    cut.pop();
    assert!(aur_names(&cfg, &cut).is_err());
    assert!(split_lines(&vec![]).is_empty());
    assert!(split_lines(&b"\n\n".to_vec()).is_empty());
}

fn local(name: &str) -> Option<LocalPkg> {
    Some(LocalPkg { name: name.into(), version: "1".into(), isize: 5, desc: None })
}

#[test]
fn removals_ask_first() {
    let cfg = Config::default();
    let mut r = remove(&cfg, None, &vec![], &vec![local("a"), None]);
    assert_eq!((r.warning.as_str(), r.phase), ("", RemovePhase::Confirm));
    let c = r.confirmation.as_ref().unwrap();
    assert!(c.text.contains(":: Packages to remove (1):\na  "));
    assert_eq!(c.prompt, "Proceed with removal?");
    r.advance(RemoveEvent::BackendCode(0));
    assert_eq!(r.phase, RemovePhase::Confirm);
    r.advance(RemoveEvent::Answer(true));
    r.advance(RemoveEvent::BackendCode(0));
    assert_eq!(r.phase, RemovePhase::Save);
    r.advance(RemoveEvent::Saved(false));
    assert_eq!(r.phase, RemovePhase::Finished(1));
    let mut r = remove(&cfg, None, &vec![], &vec![local("a")]);
    r.advance(RemoveEvent::Answer(false));
    assert_eq!(r.phase, RemovePhase::Finished(1));
    let mut r = remove(&cfg, None, &vec![], &vec![None]);
    assert_eq!(r.phase, RemovePhase::Backend);
    r.advance(RemoveEvent::BackendCode(7));
    assert_eq!(r.phase, RemovePhase::Finished(7));
}

#[test]
fn removals_of_critical_packages_are_guarded() {
    let mut cfg = Config::default();
    let critical = strings(&["linux"]);
    let r = remove(&cfg, None, &critical, &vec![local("linux")]);
    assert!(r.warning.contains("critical system packages"));
    assert_eq!(r.phase, RemovePhase::Confirm);
    cfg.args.args = vec![Arg { key: "noscriptlet".into(), value: None }];
    let r = remove(&cfg, None, &critical, &vec![local("linux")]);
    assert!(r.confirmation.is_none());
    assert_eq!(r.phase, RemovePhase::Finished(1));
    assert!(r.error.unwrap().starts_with("--noscriptlet cannot be used"));
}

#[test]
fn bases_of_removed_packages_are_forgotten() {
    assert_eq!(
        removed_bases(&vec![Some("a".into()), None, Some("b".into())]),
        strings(&["a", "b"])
    );
}

#[test]
fn large_sizes_may_cancel_out() {
    let cfg = Config::default();
    let big = |isize| {
        Some(LocalPkg { name: "p".into(), version: "1".into(), isize, desc: None })
    };
    let (_, totals) = bah::ui::remove_confirmation_bundle(
        &cfg,
        &vec![big(i64::MAX), big(i64::MAX), big(-i64::MAX)],
    )
    .unwrap();
    assert_eq!(totals.disk_delta_bytes, -i64::MAX);
}
