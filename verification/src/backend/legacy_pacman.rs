//! The backend that runs pacman.

use crate::config::Config;
use crate::exec::{new_pacman, CommandLine};
#[allow(unused_imports)]
use crate::exec::{pacman_arguments, pacman_program};
#[allow(unused_imports)]
use crate::text::texts;
use vstd::prelude::*;

verus! {

/// The backend that runs pacman.
#[derive(Debug, Clone, Copy, Default)]
pub struct LegacyPacmanBackend;

impl LegacyPacmanBackend {
    /// The command that carries out an operation.
    pub fn pacman(&self, config: &Config, bin: &str, args: &Vec<String>) -> (r: CommandLine)
        ensures
            r.program@ == pacman_program(*config, bin@),
            texts(r.args@) == pacman_arguments(*config, bin@, texts(args@)),
    {
        new_pacman(config, bin, args)
    }
}

} // verus!
