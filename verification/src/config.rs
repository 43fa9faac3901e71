//! Settings and command line arguments.

#[allow(unused_imports)]
use crate::messages::is_english;
use crate::messages::Messages;
#[allow(unused_imports)]
use crate::style::is_colourless;
use crate::style::Colors;
use crate::text::same;
use vstd::prelude::*;

verus! {

/// One option of the command line, without its dashes.
#[derive(Debug, Clone)]
pub struct Arg {
    pub key: String,
    pub value: Option<String>,
}

/// A command line: the program, the operation, the options and what they apply to.
#[derive(Debug, Clone)]
pub struct Args {
    pub bin: String,
    pub op: String,
    pub args: Vec<Arg>,
    pub targets: Vec<String>,
}

/// How often one of the two names occurs among the options.
pub open spec fn occurrences(args: Seq<Arg>, a: Seq<char>, b: Seq<char>) -> nat
    decreases args.len(),
{
    if args.len() == 0 {
        0
    } else {
        occurrences(args.drop_last(), a, b) + (if args.last().key@ == a || args.last().key@ == b {
            1nat
        } else {
            0nat
        })
    }
}

impl Args {
    /// How often an option is given, under either of its names.
    pub open spec fn times(&self, a: Seq<char>, b: Seq<char>) -> nat {
        occurrences(self.args@, a, b)
    }

    /// Whether an option is given, under either of its names.
    pub open spec fn given(&self, a: Seq<char>, b: Seq<char>) -> bool {
        self.times(a, b) > 0
    }

    /// How often an option is given.
    pub fn count(&self, a: &str, b: &str) -> (r: usize)
        ensures
            r == self.times(a@, b@),
    {
        let mut n: usize = 0;
        let mut i: usize = 0;
        assert(self.args@.take(0) =~= seq![]);
        while i < self.args.len()
            invariant
                i <= self.args.len(),
                n <= i,
                n == occurrences(self.args@.take(i as int), a@, b@),
            decreases self.args.len() - i,
        {
            assert(self.args@.take(i + 1).drop_last() =~= self.args@.take(i as int));
            if same(self.args[i].key.as_str(), a) || same(self.args[i].key.as_str(), b) {
                n += 1;
            }
            i += 1;
        }
        assert(self.args@.take(i as int) =~= self.args@);
        n
    }

    /// Whether an option is given.
    pub fn has_arg(&self, a: &str, b: &str) -> (r: bool)
        ensures
            r == self.given(a@, b@),
    {
        self.count(a, b) > 0
    }
}

/// Which end of a list of results comes first.
#[derive(Debug, Clone, Copy, PartialEq, Eq, Structural)]
pub enum SortMode {
    TopDown,
    BottomUp,
}

/// By what the results of a search are ordered.
#[derive(Debug, Clone, Copy, PartialEq, Eq, Structural)]
pub enum SortBy {
    Votes,
    Popularity,
    Id,
    Name,
    Base,
    Submitted,
    Modified,
    Relevance,
}

/// What a search looks at.
#[derive(Debug, Clone, Copy, PartialEq, Eq, Structural)]
pub enum SearchBy {
    NameDesc,
    Name,
    Other,
}

/// Which kinds of package sources are in use.
#[derive(Debug, Clone, Copy, PartialEq, Eq, Structural)]
pub struct Mode {
    pub repo: bool,
    pub pkgbuild: bool,
    pub aur: bool,
}

/// The settings that the library reads.
#[derive(Debug, Clone)]
pub struct Config {
    pub color: Colors,
    pub messages: Messages,
    pub cols: Option<usize>,
    pub args: Args,
    pub targets: Vec<String>,
    pub mode: Mode,
    pub limit: usize,
    pub sort_mode: SortMode,
    pub sort_by: SortBy,
    pub search_by: SearchBy,
    pub aur_url: String,
    pub aur_namespace: String,
    pub interactive: bool,
    pub list: bool,
    pub quiet: bool,
    pub need_root: bool,
    pub no_confirm: bool,
    pub force_noscriptlet: bool,
    pub boot_min_free_mb: u64,
    pub sudo_bin: String,
    pub sudo_flags: Vec<String>,
    pub pacman_conf: Option<String>,
    pub makepkg_bin: String,
    pub makepkg_conf: Option<String>,
    pub mflags: Vec<String>,
}

impl Default for Config {
    /// The settings of a program that was started without a configuration: no colours, English
    /// sentences, all sources, and the smallest free space on the boot partition that the
    /// program asks for.
    fn default() -> (r: Config)
        ensures
            is_colourless(r.color),
            is_english(r.messages),
            r.cols is None,
            r.args.bin@ == "pacman"@,
            r.args.op@ == "sync"@,
            r.args.args@ == Seq::<Arg>::empty(),
            r.args.targets@ == Seq::<String>::empty(),
            r.targets@ == Seq::<String>::empty(),
            r.mode == (Mode { repo: true, pkgbuild: true, aur: true }),
            r.limit == 0,
            r.sort_mode == SortMode::TopDown,
            r.sort_by == SortBy::Votes,
            r.search_by == SearchBy::NameDesc,
            r.aur_url@ == "https://aur.archlinux.org/"@,
            r.aur_namespace@ == "aur"@,
            !r.interactive && !r.list && !r.quiet && !r.need_root && !r.no_confirm,
            !r.force_noscriptlet,
            r.boot_min_free_mb == 100,
            r.sudo_bin@ == "sudo"@,
            r.sudo_flags@ == Seq::<String>::empty(),
            r.pacman_conf is None,
            r.makepkg_bin@ == "makepkg"@,
            r.makepkg_conf is None,
            r.mflags@ == Seq::<String>::empty(),
    {
        Config {
            color: Colors::plain(),
            messages: Messages::default(),
            cols: None,
            args: Args {
                bin: "pacman".to_owned(),
                op: "sync".to_owned(),
                args: Vec::new(),
                targets: Vec::new(),
            },
            targets: Vec::new(),
            mode: Mode { repo: true, pkgbuild: true, aur: true },
            limit: 0,
            sort_mode: SortMode::TopDown,
            sort_by: SortBy::Votes,
            search_by: SearchBy::NameDesc,
            aur_url: "https://aur.archlinux.org/".to_owned(),
            aur_namespace: "aur".to_owned(),
            interactive: false,
            list: false,
            quiet: false,
            need_root: false,
            no_confirm: false,
            force_noscriptlet: false,
            boot_min_free_mb: 100,
            sudo_bin: "sudo".to_owned(),
            sudo_flags: Vec::new(),
            pacman_conf: None,
            makepkg_bin: "makepkg".to_owned(),
            makepkg_conf: None,
            mflags: Vec::new(),
        }
    }
}

} // verus!
