//! Leading words such as `search` or `install` in place of flags. Whatever starts with `-` stays
//! as it is.

use crate::text::{copy_list, lower_ascii, same, starts_with};
#[allow(unused_imports)]
use crate::text::{ascii_lower, texts};
use vstd::prelude::*;

verus! {

/// A word in lower case.
pub open spec fn verb(word: Seq<char>) -> Seq<char> {
    word.map_values(|c: char| ascii_lower(c))
}

/// The flags that stand for a word. `bare` tells that nothing follows the word.
pub open spec fn verb_flags(v: Seq<char>, bare: bool) -> Option<Seq<Seq<char>>> {
    if v == "search"@ || v == "find"@ {
        Some(seq!["-S"@, "-s"@])
    } else if v == "install"@ {
        Some(seq!["-S"@])
    } else if v == "update"@ || v == "upgrade"@ || v == "up"@ {
        Some(
            if bare {
                seq!["-Syu"@]
            } else {
                seq!["-S"@]
            },
        )
    } else if v == "sync"@ {
        Some(
            if bare {
                seq!["-Sy"@]
            } else {
                seq!["-S"@]
            },
        )
    } else if v == "remove"@ || v == "uninstall"@ || v == "rm"@ {
        Some(seq!["-R"@])
    } else if v == "query"@ {
        Some(seq!["-Q"@])
    } else if v == "info"@ {
        Some(seq!["-S"@, "-i"@])
    } else if v == "build"@ {
        Some(seq!["-B"@])
    } else if v == "clone"@ || v == "getpkgbuild"@ || v == "fetch"@ {
        Some(seq!["-G"@])
    } else if v == "news"@ {
        Some(seq!["-P"@, "-w"@])
    } else if v == "stats"@ {
        Some(seq!["-P"@, "--stats"@])
    } else if v == "order"@ {
        Some(seq!["-P"@, "--order"@])
    } else if v == "files"@ {
        Some(seq!["-F"@])
    } else if v == "database"@ {
        Some(seq!["-D"@])
    } else if v == "deptest"@ {
        Some(seq!["-T"@])
    } else if v == "repo"@ || v == "repolist"@ {
        Some(seq!["-L"@])
    } else if v == "chroot"@ {
        Some(seq!["-C"@])
    } else if v == "clean"@ {
        Some(seq!["-S"@, "-c"@])
    } else if v == "list"@ {
        Some(seq!["-S"@, "-l"@])
    } else {
        None
    }
}

/// The words whose flags stand alone: what follows them is dropped.
pub open spec fn lone_flag(v: Seq<char>) -> Option<Seq<char>> {
    if v == "help"@ {
        Some("-h"@)
    } else if v == "version"@ {
        Some("-V"@)
    } else {
        None
    }
}

/// Whether a first argument stays as it is: flags, and paths of build scripts.
pub open spec fn stays(first: Seq<char>) -> bool {
    "-"@.is_prefix_of(first) || "./"@.is_prefix_of(first) || "/"@.is_prefix_of(first)
}

/// The arguments with a leading word put as flags. A word that stands for no flags is searched
/// for, together with what follows it.
pub open spec fn expanded(args: Seq<Seq<char>>) -> Seq<Seq<char>> {
    if args.len() == 0 || stays(args[0]) {
        args
    } else {
        let v = verb(args[0]);
        let rest = args.skip(1);
        match (lone_flag(v), verb_flags(v, rest.len() == 0)) {
            (Some(flag), _) => seq![flag],
            (None, Some(flags)) => flags + rest,
            (None, None) => seq!["-S"@, "-s"@] + args,
        }
    }
}

fn flags_one(a: &str) -> (r: Vec<String>)
    ensures
        texts(r@) == seq![a@],
{
    let mut out: Vec<String> = Vec::new();
    out.push(a.to_owned());
    assert(texts(out@) =~= seq![a@]);
    out
}

fn flags_two(a: &str, b: &str) -> (r: Vec<String>)
    ensures
        texts(r@) == seq![a@, b@],
{
    let mut out: Vec<String> = Vec::new();
    out.push(a.to_owned());
    out.push(b.to_owned());
    assert(texts(out@) =~= seq![a@, b@]);
    out
}

fn flags_for(v: &str, bare: bool) -> (r: Option<Vec<String>>)
    ensures
        match r {
            Some(flags) => verb_flags(v@, bare) == Some(texts(flags@)),
            None => verb_flags(v@, bare) is None,
        },
{
    if same(v, "search") || same(v, "find") {
        Some(flags_two("-S", "-s"))
    } else if same(v, "install") {
        Some(flags_one("-S"))
    } else if same(v, "update") || same(v, "upgrade") || same(v, "up") {
        if bare {
            Some(flags_one("-Syu"))
        } else {
            Some(flags_one("-S"))
        }
    } else if same(v, "sync") {
        if bare {
            Some(flags_one("-Sy"))
        } else {
            Some(flags_one("-S"))
        }
    } else if same(v, "remove") || same(v, "uninstall") || same(v, "rm") {
        Some(flags_one("-R"))
    } else if same(v, "query") {
        Some(flags_one("-Q"))
    } else if same(v, "info") {
        Some(flags_two("-S", "-i"))
    } else if same(v, "build") {
        Some(flags_one("-B"))
    } else if same(v, "clone") || same(v, "getpkgbuild") || same(v, "fetch") {
        Some(flags_one("-G"))
    } else if same(v, "news") {
        Some(flags_two("-P", "-w"))
    } else if same(v, "stats") {
        Some(flags_two("-P", "--stats"))
    } else if same(v, "order") {
        Some(flags_two("-P", "--order"))
    } else if same(v, "files") {
        Some(flags_one("-F"))
    } else if same(v, "database") {
        Some(flags_one("-D"))
    } else if same(v, "deptest") {
        Some(flags_one("-T"))
    } else if same(v, "repo") || same(v, "repolist") {
        Some(flags_one("-L"))
    } else if same(v, "chroot") {
        Some(flags_one("-C"))
    } else if same(v, "clean") {
        Some(flags_two("-S", "-c"))
    } else if same(v, "list") {
        Some(flags_two("-S", "-l"))
    } else {
        None
    }
}

/// `prefix` and then the arguments from `from` on.
fn prepend(prefix: Vec<String>, args: &Vec<String>, from: usize) -> (r: Vec<String>)
    requires
        from <= args@.len(),
    ensures
        texts(r@) == texts(prefix@) + texts(args@).skip(from as int),
{
    let mut out = copy_list(&prefix);
    let mut i: usize = from;
    assert(texts(args@).subrange(from as int, from as int) =~= seq![]);
    assert(texts(out@) =~= texts(prefix@) + seq![]);
    while i < args.len()
        invariant
            from <= i <= args@.len(),
            texts(out@) =~= texts(prefix@) + texts(args@).subrange(from as int, i as int),
        decreases args.len() - i,
    {
        let ghost so_far = out@;
        out.push(args[i].clone());
        assert(texts(out@) =~= texts(so_far).push(args@[i as int]@));
        i += 1;
        assert(texts(args@).subrange(from as int, i as int) =~= texts(args@).subrange(
            from as int,
            i - 1,
        ).push(args@[i - 1]@));
    }
    assert(texts(args@).subrange(from as int, i as int) =~= texts(args@).skip(from as int));
    out
}

/// Puts a leading word as flags.
/// - `bah vlc` → `bah -S -s vlc` (implicit search)
/// - `bah search vlc` → `bah -S -s vlc`
/// - `bah update` → `bah -Syu` (refresh and upgrade)
/// - `bah sync` → `bah -Sy` (refresh only)
/// - `bah -Ss vlc` → unchanged
/// - `bah ./pkg` → unchanged
pub fn expand_subcommands(args: Vec<String>) -> (r: Vec<String>)
    ensures
        texts(r@) == expanded(texts(args@)),
{
    if args.len() == 0 {
        return args;
    }
    let first = args[0].as_str();
    assert(texts(args@)[0] == first@);
    if starts_with(first, "-") || starts_with(first, "./") || starts_with(first, "/") {
        return args;
    }
    let cmd = lower_ascii(first);
    if same(cmd.as_str(), "help") {
        return flags_one("-h");
    }
    if same(cmd.as_str(), "version") {
        return flags_one("-V");
    }
    match flags_for(cmd.as_str(), args.len() == 1) {
        Some(flags) => prepend(flags, &args, 1),
        None => {
            assert(texts(args@).skip(0) =~= texts(args@));
            prepend(flags_two("-S", "-s"), &args, 0)
        },
    }
}

/// Flags and paths are left alone, and so are the arguments after them.
pub proof fn flags_and_paths_are_untouched(args: Seq<Seq<char>>)
    requires
        args.len() > 0,
        stays(args[0]),
    ensures
        expanded(args) == args,
{
}

/// Expanding arguments a second time changes nothing.
pub proof fn expansion_is_settled(args: Seq<Seq<char>>)
    ensures
        expanded(expanded(args)) == expanded(args),
{
    reveal_strlit("-");
    if args.len() > 0 && !stays(args[0]) {
        let v = verb(args[0]);
        let rest = args.skip(1);
        let out = expanded(args);
        reveal_strlit("-h");
        reveal_strlit("-V");
        reveal_strlit("-S");
        reveal_strlit("-Syu");
        reveal_strlit("-Sy");
        reveal_strlit("-R");
        reveal_strlit("-Q");
        reveal_strlit("-B");
        reveal_strlit("-G");
        reveal_strlit("-P");
        reveal_strlit("-F");
        reveal_strlit("-D");
        reveal_strlit("-T");
        reveal_strlit("-L");
        reveal_strlit("-C");
        assert(out.len() > 0 && out[0].len() > 0 && out[0][0] == '-');
        assert(out[0].take(1) =~= "-"@);
        assert("-"@.is_prefix_of(out[0]));
    }
}

} // verus!
