//! The switches of a transaction.

use vstd::prelude::*;

verus! {

/// The switches of a transaction.
#[derive(Debug, Clone, Copy, PartialEq, Eq, Structural)]
pub struct TransFlags {
    pub download_only: bool,
    pub no_deps: bool,
    pub no_dep_version: bool,
    pub needed: bool,
    pub db_only: bool,
    pub no_scriptlet: bool,
    pub no_conflicts: bool,
    pub cascade: bool,
    pub no_save: bool,
    pub recurse: bool,
    pub recurse_all: bool,
    pub unneeded: bool,
}

/// No switch at all.
pub open spec fn no_flags() -> TransFlags {
    TransFlags {
        download_only: false,
        no_deps: false,
        no_dep_version: false,
        needed: false,
        db_only: false,
        no_scriptlet: false,
        no_conflicts: false,
        cascade: false,
        no_save: false,
        recurse: false,
        recurse_all: false,
        unneeded: false,
    }
}

impl TransFlags {
    /// No switch at all.
    pub fn none() -> (r: TransFlags)
        ensures
            r == no_flags(),
    {
        TransFlags {
            download_only: false,
            no_deps: false,
            no_dep_version: false,
            needed: false,
            db_only: false,
            no_scriptlet: false,
            no_conflicts: false,
            cascade: false,
            no_save: false,
            recurse: false,
            recurse_all: false,
            unneeded: false,
        }
    }
}

} // verus!
