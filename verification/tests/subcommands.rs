use bah::subcommands::expand_subcommands;

fn expand(args: &[&str]) -> Vec<String> {
    expand_subcommands(args.iter().map(|s| s.to_string()).collect())
}

#[test]
fn passthrough_flags() {
    assert_eq!(
        expand_subcommands(vec!["-Ss".into(), "vlc".into()]),
        vec!["-Ss", "vlc"]
    );
}

#[test]
fn implicit_search() {
    assert_eq!(
        expand_subcommands(vec!["vlc".into()]),
        vec!["-S", "-s", "vlc"]
    );
}

#[test]
fn search_verb() {
    assert_eq!(
        expand_subcommands(vec!["search".into(), "vlc".into()]),
        vec!["-S", "-s", "vlc"]
    );
}

#[test]
fn update_empty_is_syu() {
    assert_eq!(expand_subcommands(vec!["update".into()]), vec!["-Syu"]);
}

#[test]
fn relative_pkgbuild_untouched() {
    assert_eq!(
        expand_subcommands(vec!["./mypkg".into()]),
        vec!["./mypkg"]
    );
}

#[test]
fn no_arguments_stay_none() {
    assert!(expand(&[]).is_empty());
}

#[test]
fn absolute_path_is_untouched() {
    assert_eq!(expand(&["/tmp/pkg", "search"]), vec!["/tmp/pkg", "search"]);
}

#[test]
fn every_verb_has_its_flags() {
    let table: [(&str, &[&str]); 26] = [
        ("find", &["-S", "-s", "x"]),
        ("install", &["-S", "x"]),
        ("upgrade", &["-S", "x"]),
        ("up", &["-S", "x"]),
        ("sync", &["-S", "x"]),
        ("remove", &["-R", "x"]),
        ("uninstall", &["-R", "x"]),
        ("rm", &["-R", "x"]),
        ("query", &["-Q", "x"]),
        ("info", &["-S", "-i", "x"]),
        ("build", &["-B", "x"]),
        ("clone", &["-G", "x"]),
        ("getpkgbuild", &["-G", "x"]),
        ("fetch", &["-G", "x"]),
        ("news", &["-P", "-w", "x"]),
        ("stats", &["-P", "--stats", "x"]),
        ("order", &["-P", "--order", "x"]),
        ("files", &["-F", "x"]),
        ("database", &["-D", "x"]),
        ("deptest", &["-T", "x"]),
        ("repo", &["-L", "x"]),
        ("repolist", &["-L", "x"]),
        ("chroot", &["-C", "x"]),
        ("clean", &["-S", "-c", "x"]),
        ("list", &["-S", "-l", "x"]),
        ("vlc", &["-S", "-s", "vlc", "x"]),
    ];
    for (verb, flags) in table {
        assert_eq!(expand(&[verb, "x"]), flags);
    }
}

#[test]
fn verbs_ignore_case_and_terms_keep_it() {
    assert_eq!(expand(&["INSTALL", "Foo"]), vec!["-S", "Foo"]);
    assert_eq!(expand(&["VLC"]), vec!["-S", "-s", "VLC"]);
}

#[test]
fn bare_sync_only_refreshes() {
    assert_eq!(expand(&["sync"]), vec!["-Sy"]);
    assert_eq!(expand(&["SYNC"]), vec!["-Sy"]);
}

#[test]
fn bare_update_verbs_refresh_and_upgrade() {
    assert_eq!(expand(&["upgrade"]), vec!["-Syu"]);
    assert_eq!(expand(&["up"]), vec!["-Syu"]);
}

#[test]
fn help_and_version_stand_alone() {
    assert_eq!(expand(&["help", "install"]), vec!["-h"]);
    assert_eq!(expand(&["version"]), vec!["-V"]);
}

#[test]
fn expanding_twice_changes_nothing() {
    for args in [vec!["vlc", "mpv"], vec!["update"], vec!["help"], vec!["./x"], vec![]] {
        let once = expand(&args);
        assert_eq!(expand_subcommands(once.clone()), once);
    }
}
