//! What command lines come to, and what is done about their ends.

#[allow(unused_imports)]
use crate::backend::{backend_for, follows_failure, is_legacy, is_strict, BackendKind, BackendStep};
#[allow(unused_imports)]
use crate::backend::alpm::{target_error, TargetFound};
#[allow(unused_imports)]
use crate::config::{Args, Config};
#[allow(unused_imports)]
use crate::exec::{
    command_error, follows_command, makepkg_arguments, pacman_arguments, pacman_program,
    AfterCommand, Status,
};
#[allow(unused_imports)]
use crate::subcommands::{expanded, lone_flag, stays, verb, verb_flags};
#[allow(unused_imports)]
use crate::text::{ascii_lower, mentions, occurs_at, split_once, texts};
use vstd::prelude::*;

verus! {

/// Where rights are needed, pacman runs through the program that gives them, with that program's
/// own flags first; otherwise it runs by itself. Its own arguments come last, as they stand.
pub proof fn pacman_runs_with_its_rights(
    config: Config,
    bin: Seq<char>,
    args: Seq<Seq<char>>,
)
    ensures
        config.need_root ==> pacman_program(config, bin) == config.sudo_bin@ && texts(
            config.sudo_flags@,
        ).push(bin).is_prefix_of(pacman_arguments(config, bin, args)),
        !config.need_root ==> pacman_program(config, bin) == bin,
        args.is_suffix_of(pacman_arguments(config, bin, args)),
        config.pacman_conf is None && !config.need_root ==> pacman_arguments(config, bin, args)
            == args,
        config.pacman_conf matches Some(path) ==> exists|i: int|
            0 <= i < pacman_arguments(config, bin, args).len() - 1 && pacman_arguments(
                config,
                bin,
                args,
            )[i] == "--config"@ && #[trigger] pacman_arguments(config, bin, args)[i + 1] == path@,
{
    let all = pacman_arguments(config, bin, args);
    assert(all.subrange(all.len() - args.len(), all.len() as int) =~= args);
    let head = if config.need_root {
        texts(config.sudo_flags@).push(bin)
    } else {
        seq![]
    };
    assert(all.subrange(0, head.len() as int) =~= head);
    match config.pacman_conf {
        Some(path) => {
            let i = head.len() as int;
            assert(all[i] == "--config"@);
            assert(all[i + 1] == path@);
        },
        None => {
            if !config.need_root {
                assert(all =~= args);
            }
        },
    }
}

/// The arguments of makepkg are those that name its configuration, then its usual flags, then those
/// that were given.
pub proof fn makepkg_takes_its_flags_and_arguments(config: Config, args: Seq<Seq<char>>)
    ensures
        (texts(config.mflags@) + args).is_suffix_of(makepkg_arguments(config, args)),
        config.makepkg_conf is None ==> makepkg_arguments(config, args) == texts(config.mflags@)
            + args,
        config.makepkg_conf matches Some(path) ==> makepkg_arguments(config, args)
            == seq!["--config"@, path@] + texts(config.mflags@) + args,
{
    let all = makepkg_arguments(config, args);
    let tail = texts(config.mflags@) + args;
    assert(all.subrange(all.len() - tail.len(), all.len() as int) =~= tail);
    if config.makepkg_conf is None {
        assert(all =~= tail);
    }
}

/// A report on a command names its program and each of its arguments.
pub proof fn reports_name_the_command(
    config: Config,
    program: Seq<char>,
    args: Seq<Seq<char>>,
    i: int,
)
    requires
        0 <= i < args.len(),
    ensures
        mentions(command_error(config, program, args), program),
        mentions(command_error(config, program, args), args[i]),
{
    let text = command_error(config, program, args);
    let all = crate::text::joined(args, " "@);
    let head = config.messages.failed_to_run@ + " "@;
    let a = head.len() as int;
    assert(text.subrange(a, a + program.len()) =~= program);
    assert(occurs_at(text, program, a));
    crate::laws::transactions::lemma_joined_mentions(args, " "@, i);
    let k = choose|k: int| occurs_at(all, args[i], k);
    let b = (head + program + " "@).len() + k;
    assert(text.subrange(b, b + args[i].len()) =~= all.subrange(k, k + args[i].len()));
    assert(occurs_at(text, args[i], b));
}

/// A signal that was caught ends the program with the code that shells give it, whatever came of the
/// command. Otherwise the exit code of the command is its status, a command that was ended by a
/// signal counts as failed, and a command that could not be run is an error.
pub proof fn commands_end_as_they_ended(
    config: Config,
    program: Seq<char>,
    args: Seq<Seq<char>>,
    ran: Option<Option<i32>>,
    caught: usize,
    r: AfterCommand<Result<Status, String>>,
)
    requires
        follows_command(config, program, args, ran, caught, r),
        caught <= i32::MAX - 128,
    ensures
        r is Exit <==> caught > 0,
        r matches AfterCommand::Exit(code) ==> code - 128 == caught,
        caught == 0 && ran is None ==> (r matches AfterCommand::Result(o) && o is Err),
        caught == 0 ==> (ran matches Some(Some(code)) ==> (r matches AfterCommand::Result(Ok(status))
            && status.0 == code)),
        caught == 0 && ran == Some(None::<i32>) ==> (r matches AfterCommand::Result(Ok(status))
            && status.0 != 0),
{
}

/// The legacy backend is selected by either of its names, in letters of any case, and by nothing
/// else; without a selection the other one runs.
pub proof fn the_legacy_backend_is_selected_by_name(name: Seq<char>)
    ensures
        backend_for(None) == BackendKind::Alpm,
        backend_for(Some(name)) == BackendKind::LegacyPacman <==> same_word(name, "legacy"@)
            || same_word(name, "pacman"@),
        is_strict(Some(name)) <==> same_word(name, "1"@) || same_word(name, "true"@) || same_word(
            name,
            "yes"@,
        ),
        !is_strict(None),
{
    lemma_same_word(name, "legacy"@);
    lemma_same_word(name, "pacman"@);
    lemma_same_word(name, "1"@);
    lemma_same_word(name, "true"@);
    lemma_same_word(name, "yes"@);
    reveal_strlit("legacy");
    reveal_strlit("pacman");
    reveal_strlit("1");
    reveal_strlit("true");
    reveal_strlit("yes");
}

/// Whether two words are the same but for the case of ASCII letters.
pub open spec fn same_word(a: Seq<char>, b: Seq<char>) -> bool {
    a.len() == b.len() && forall|i: int|
        0 <= i < a.len() ==> (#[trigger] a[i] == b[i] || ('A' <= a[i] <= 'Z' && a[i] as u32 + 32
            == b[i] as u32))
}

proof fn lemma_same_word(a: Seq<char>, b: Seq<char>)
    requires
        true,
    ensures
        (forall|i: int| 0 <= i < b.len() ==> !('A' <= #[trigger] b[i] <= 'Z')) ==> (same_word(a, b)
            <==> a.map_values(|c: char| ascii_lower(c)) == b),
{
    let low = a.map_values(|c: char| ascii_lower(c));
    if forall|i: int| 0 <= i < b.len() ==> !('A' <= #[trigger] b[i] <= 'Z') {
        if same_word(a, b) {
            assert forall|i: int| 0 <= i < low.len() implies low[i] == b[i] by {
                assert(a[i] == b[i] || ('A' <= a[i] <= 'Z' && a[i] as u32 + 32 == b[i] as u32));
                lemma_lower(a[i], b[i]);
            }
            assert(low =~= b);
        }
        if low == b {
            assert forall|i: int| 0 <= i < a.len() implies (#[trigger] a[i] == b[i] || ('A' <= a[i]
                <= 'Z' && a[i] as u32 + 32 == b[i] as u32)) by {
                assert(low[i] == b[i]);
                lemma_lower(a[i], b[i]);
            }
        }
    }
}

proof fn lemma_lower(a: char, b: char)
    ensures
        'A' <= a <= 'Z' ==> (ascii_lower(a) == b <==> a as u32 + 32 == b as u32),
        !('A' <= a <= 'Z') ==> ascii_lower(a) == a,
{
}

/// Cleaning the package cache is never left to the backend that changes the database itself, and
/// neither is anything while the legacy backend is selected; everything else is.
pub proof fn the_cache_is_cleaned_by_the_legacy_backend(args: Args, backend: Option<Seq<char>>)
    ensures
        args.op@ == "sync"@ && args.given("c"@, "clean"@) ==> is_legacy(args, backend),
        backend_for(backend) == BackendKind::LegacyPacman ==> is_legacy(args, backend),
        is_legacy(args, backend) ==> backend_for(backend) == BackendKind::LegacyPacman || (args.op@
            == "sync"@ && args.given("c"@, "clean"@)),
{
}

/// After a failure of the backend the legacy backend is tried, unless that is forbidden; either way
/// the report holds the error and the operation.
pub proof fn failures_of_the_backend_are_reported(
    config: Config,
    args: Args,
    options: Seq<Seq<char>>,
    strict: Option<Seq<char>>,
    error: Seq<char>,
    step: BackendStep,
)
    requires
        follows_failure(config, args, options, strict, error, step),
    ensures
        is_strict(strict) ==> (step matches BackendStep::Failed { notice, error: e } && e@ == error
            && mentions(notice@, error) && mentions(notice@, args.op@)),
        !is_strict(strict) ==> (step matches BackendStep::Legacy(notice) && mentions(
            notice@,
            error,
        ) && mentions(notice@, args.op@)),
{
    let notice = match step {
        BackendStep::Legacy(n) => n@,
        BackendStep::Failed { notice, .. } => notice@,
        _ => seq![],
    };
    let head = crate::style::painted(config.color.warning, "::"@) + " ALPM backend failed: "@;
    let a = head.len() as int;
    let b = (head + error + " (op="@).len() as int;
    assert(notice.subrange(a, a + error.len()) =~= error);
    assert(notice.subrange(b, b + args.op@.len()) =~= args.op@);
    assert(occurs_at(notice, error, a));
    assert(occurs_at(notice, args.op@, b));
}

/// A target is added if and only if a package was found and taken; otherwise the report names the
/// target, or the repository and the name that it is made of.
pub proof fn targets_that_are_not_added_are_named(target: Seq<char>, found: TargetFound)
    ensures
        target_error(target, found) is None <==> found is Added,
        found is Refused || split_once(target, '/') is None ==> (target_error(
            target,
            found,
        ) matches Some(text) ==> mentions(text, target)),
        found is NoRepo ==> (split_once(target, '/') matches Some(parts) ==> mentions(
            target_error(target, found)->0,
            parts.0,
        )),
        found is NoPackage ==> (split_once(target, '/') matches Some(parts) ==> mentions(
            target_error(target, found)->0,
            parts.0,
        ) && mentions(target_error(target, found)->0, parts.1)),
{
    match target_error(target, found) {
        None => {},
        Some(text) => {
            let a = "failed to add target '"@.len() as int;
            let b = "target not found: "@.len() as int;
            if found is Refused {
                assert(text.subrange(a, a + target.len()) =~= target);
                assert(occurs_at(text, target, a));
            } else {
                match split_once(target, '/') {
                    None => {
                        assert(text.subrange(b, b + target.len()) =~= target);
                        assert(occurs_at(text, target, b));
                    },
                    Some(parts) => {
                        let c = if found is NoRepo {
                            "repository '"@.len() as int
                        } else {
                            "target not found in repo '"@.len() as int
                        };
                        assert(text.subrange(c, c + parts.0.len()) =~= parts.0);
                        assert(occurs_at(text, parts.0, c));
                        if found is NoPackage {
                            let d = text.len() - parts.1.len();
                            assert(text.subrange(d, d + parts.1.len()) =~= parts.1);
                            assert(occurs_at(text, parts.1, d));
                        }
                    },
                }
            }
        },
    }
}

/// Whatever a leading word stands for, what follows it is kept as it stands, but for the words that
/// ask for help or for the version; and something stands in front of it.
pub proof fn what_follows_a_word_is_kept(args: Seq<Seq<char>>)
    requires
        args.len() > 0,
        !stays(args[0]),
        verb(args[0]) != "help"@,
        verb(args[0]) != "version"@,
    ensures
        args.skip(1).is_suffix_of(expanded(args)),
        expanded(args).len() > args.skip(1).len(),
        "-"@.is_prefix_of(expanded(args)[0]),
{
    let out = expanded(args);
    let rest = args.skip(1);
    crate::subcommands::expansion_is_settled(args);
    assert(out.subrange(out.len() - rest.len(), out.len() as int) =~= rest);
    reveal_strlit("-");
    reveal_strlit("-S");
    reveal_strlit("-Syu");
    reveal_strlit("-Sy");
    reveal_strlit("-R");
    reveal_strlit("-Q");
    reveal_strlit("-B");
    reveal_strlit("-G");
    reveal_strlit("-P");
    reveal_strlit("-F");
    reveal_strlit("-D");
    reveal_strlit("-T");
    reveal_strlit("-L");
    reveal_strlit("-C");
    assert(out[0].len() > 0 && out[0][0] == '-');
    assert(out[0].subrange(0, 1) =~= "-"@);
}

/// The flags that each leading word stands for, whatever follows it.
pub proof fn words_stand_for_their_flags(first: Seq<char>, rest: Seq<Seq<char>>)
    requires
        !stays(first),
    ensures
        ({
            let v = verb(first);
            let out = expanded(seq![first] + rest);
            &&& v == "install"@ ==> out == seq!["-S"@] + rest
            &&& v == "remove"@ || v == "uninstall"@ || v == "rm"@ ==> out == seq!["-R"@] + rest
            &&& v == "search"@ || v == "find"@ ==> out == seq!["-S"@, "-s"@] + rest
            &&& v == "info"@ ==> out == seq!["-S"@, "-i"@] + rest
            &&& v == "query"@ ==> out == seq!["-Q"@] + rest
            &&& v == "clean"@ ==> out == seq!["-S"@, "-c"@] + rest
            &&& v == "list"@ ==> out == seq!["-S"@, "-l"@] + rest
            &&& v == "update"@ || v == "upgrade"@ || v == "up"@ ==> out == (if rest.len() == 0 {
                seq!["-Syu"@]
            } else {
                seq!["-S"@] + rest
            })
            &&& v == "sync"@ ==> out == (if rest.len() == 0 {
                seq!["-Sy"@]
            } else {
                seq!["-S"@] + rest
            })
        }),
{
    let args = seq![first] + rest;
    assert(args[0] == first);
    assert(args.skip(1) =~= rest);
    let v = verb(first);
    let bare = rest.len() == 0;
    assert(expanded(args) == (match (lone_flag(v), verb_flags(v, bare)) {
        (Some(flag), _) => seq![flag],
        (None, Some(flags)) => flags + rest,
        (None, None) => seq!["-S"@, "-s"@] + args,
    }));
    lemma_flags_of_words(v, bare);
    if rest.len() == 0 {
        assert(seq!["-Syu"@] + rest =~= seq!["-Syu"@]);
        assert(seq!["-Sy"@] + rest =~= seq!["-Sy"@]);
    }
}

proof fn lemma_flags_of_words(v: Seq<char>, bare: bool)
    ensures
        v == "install"@ ==> lone_flag(v) is None && verb_flags(v, bare) == Some(seq!["-S"@]),
        v == "remove"@ ==> lone_flag(v) is None && verb_flags(v, bare) == Some(seq!["-R"@]),
        v == "uninstall"@ ==> lone_flag(v) is None && verb_flags(v, bare) == Some(seq!["-R"@]),
        v == "rm"@ ==> lone_flag(v) is None && verb_flags(v, bare) == Some(seq!["-R"@]),
        v == "search"@ ==> lone_flag(v) is None && verb_flags(v, bare) == Some(seq!["-S"@, "-s"@]),
        v == "find"@ ==> lone_flag(v) is None && verb_flags(v, bare) == Some(seq!["-S"@, "-s"@]),
        v == "info"@ ==> lone_flag(v) is None && verb_flags(v, bare) == Some(seq!["-S"@, "-i"@]),
        v == "query"@ ==> lone_flag(v) is None && verb_flags(v, bare) == Some(seq!["-Q"@]),
        v == "clean"@ ==> lone_flag(v) is None && verb_flags(v, bare) == Some(seq!["-S"@, "-c"@]),
        v == "list"@ ==> lone_flag(v) is None && verb_flags(v, bare) == Some(seq!["-S"@, "-l"@]),
        v == "update"@ ==> lone_flag(v) is None && verb_flags(v, bare) == Some(if bare { seq!["-Syu"@] } else { seq!["-S"@] }),
        v == "upgrade"@ ==> lone_flag(v) is None && verb_flags(v, bare) == Some(if bare { seq!["-Syu"@] } else { seq!["-S"@] }),
        v == "up"@ ==> lone_flag(v) is None && verb_flags(v, bare) == Some(if bare { seq!["-Syu"@] } else { seq!["-S"@] }),
        v == "sync"@ ==> lone_flag(v) is None && verb_flags(v, bare) == Some(if bare { seq!["-Sy"@] } else { seq!["-S"@] }),
{
    reveal_strlit("search");
    reveal_strlit("find");
    reveal_strlit("install");
    reveal_strlit("update");
    reveal_strlit("upgrade");
    reveal_strlit("up");
    reveal_strlit("sync");
    reveal_strlit("remove");
    reveal_strlit("uninstall");
    reveal_strlit("rm");
    reveal_strlit("query");
    reveal_strlit("info");
    reveal_strlit("build");
    reveal_strlit("clone");
    reveal_strlit("getpkgbuild");
    reveal_strlit("fetch");
    reveal_strlit("news");
    reveal_strlit("stats");
    reveal_strlit("order");
    reveal_strlit("files");
    reveal_strlit("database");
    reveal_strlit("deptest");
    reveal_strlit("repo");
    reveal_strlit("repolist");
    reveal_strlit("chroot");
    reveal_strlit("clean");
    reveal_strlit("list");
    reveal_strlit("help");
    reveal_strlit("version");
    assert("help"@.len() == 4);
    assert("version"@.len() == 7);
    assert("search"@.len() == 6);
    assert("find"@.len() == 4);
    assert("install"@.len() == 7);
    assert("update"@.len() == 6);
    assert("upgrade"@.len() == 7);
    assert("sync"@.len() == 4);
    assert("up"@.len() == 2);
    assert("remove"@.len() == 6);
    assert("uninstall"@.len() == 9);
    assert("rm"@.len() == 2);
    assert("query"@.len() == 5);
    assert("info"@.len() == 4);
    assert("build"@.len() == 5);
    assert("clone"@.len() == 5);
    assert("getpkgbuild"@.len() == 11);
    assert("fetch"@.len() == 5);
    assert("news"@.len() == 4);
    assert("stats"@.len() == 5);
    assert("order"@.len() == 5);
    assert("files"@.len() == 5);
    assert("database"@.len() == 8);
    assert("deptest"@.len() == 7);
    assert("repo"@.len() == 4);
    assert("repolist"@.len() == 8);
    assert("chroot"@.len() == 6);
    assert("clean"@.len() == 5);
    assert("list"@.len() == 4);
    assert("install"@[0] == 'i' && "version"@[0] == 'v');
    assert("install"@[0] == 'i' && "upgrade"@[0] == 'u');
    assert("install"@[0] == 'i' && "deptest"@[0] == 'd');
    assert("remove"@[0] == 'r' && "search"@[0] == 's');
    assert("remove"@[0] == 'r' && "update"@[0] == 'u');
    assert("remove"@[0] == 'r' && "chroot"@[0] == 'c');
    assert("rm"@[0] == 'r' && "up"@[0] == 'u');
    assert("search"@[0] == 's' && "update"@[0] == 'u');
    assert("search"@[0] == 's' && "chroot"@[0] == 'c');
    assert("find"@[0] == 'f' && "help"@[0] == 'h');
    assert("find"@[0] == 'f' && "sync"@[0] == 's');
    assert("find"@[0] == 'f' && "info"@[0] == 'i');
    assert("find"@[0] == 'f' && "news"@[0] == 'n');
    assert("find"@[0] == 'f' && "repo"@[0] == 'r');
    assert("find"@[0] == 'f' && "list"@[0] == 'l');
    assert("info"@[0] == 'i' && "help"@[0] == 'h');
    assert("info"@[0] == 'i' && "sync"@[0] == 's');
    assert("info"@[0] == 'i' && "news"@[0] == 'n');
    assert("info"@[0] == 'i' && "repo"@[0] == 'r');
    assert("info"@[0] == 'i' && "list"@[0] == 'l');
    assert("query"@[0] == 'q' && "build"@[0] == 'b');
    assert("query"@[0] == 'q' && "clone"@[0] == 'c');
    assert("query"@[0] == 'q' && "fetch"@[0] == 'f');
    assert("query"@[0] == 'q' && "stats"@[0] == 's');
    assert("query"@[0] == 'q' && "order"@[0] == 'o');
    assert("query"@[0] == 'q' && "files"@[0] == 'f');
    assert("query"@[0] == 'q' && "clean"@[0] == 'c');
    assert("clean"@[0] == 'c' && "build"@[0] == 'b');
    assert("clean"@[2] == 'e' && "clone"@[2] == 'o');
    assert("clean"@[0] == 'c' && "fetch"@[0] == 'f');
    assert("clean"@[0] == 'c' && "stats"@[0] == 's');
    assert("clean"@[0] == 'c' && "order"@[0] == 'o');
    assert("clean"@[0] == 'c' && "files"@[0] == 'f');
    assert("list"@[0] == 'l' && "help"@[0] == 'h');
    assert("list"@[0] == 'l' && "sync"@[0] == 's');
    assert("list"@[0] == 'l' && "news"@[0] == 'n');
    assert("list"@[0] == 'l' && "repo"@[0] == 'r');
    assert("update"@[0] == 'u' && "chroot"@[0] == 'c');
    assert("upgrade"@[0] == 'u' && "version"@[0] == 'v');
    assert("upgrade"@[0] == 'u' && "deptest"@[0] == 'd');
    assert("sync"@[0] == 's' && "help"@[0] == 'h');
    assert("sync"@[0] == 's' && "news"@[0] == 'n');
    assert("sync"@[0] == 's' && "repo"@[0] == 'r');
}

} // verus!
