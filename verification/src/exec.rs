//! The commands that the program runs, and what comes of them.

use crate::config::Config;
use crate::style::paint;
#[allow(unused_imports)]
use crate::style::painted;
use crate::text::{copy_list, join, put, put_texts, text_of_bytes, trim};
#[allow(unused_imports)]
use crate::text::{joined, lossy_text, opt_str, opt_text, texts, trimmed};
use vstd::prelude::*;

verus! {

/// The exit code of a command.
#[derive(Debug, Clone, Copy, PartialEq, Eq, Structural)]
pub struct Status(pub i32);

impl Status {
    /// The exit code.
    pub fn code(self) -> (r: i32)
        ensures
            r == self.0,
    {
        self.0
    }

    /// Zero is a success.
    pub fn success(self) -> (r: Result<i32, Status>)
        ensures
            r == (if self.0 == 0 {
                Ok::<i32, Status>(0)
            } else {
                Err::<i32, Status>(self)
            }),
    {
        if self.0 == 0 {
            Ok(0)
        } else {
            Err(self)
        }
    }

    /// The status of a process; one that was ended by a signal has no code and counts as failed.
    pub fn of_process(code: Option<i32>) -> (r: Status)
        ensures
            r.0 == (match code {
                Some(c) => c,
                None => 1,
            }),
    {
        match code {
            Some(c) => Status(c),
            None => Status(1),
        }
    }
}

/// The report on a command that could not be run.
pub open spec fn command_error(config: Config, program: Seq<char>, args: Seq<Seq<char>>) -> Seq<char> {
    config.messages.failed_to_run@ + " "@ + program + " "@ + joined(args, " "@)
}

/// The report on a command that could not be run.
pub fn command_err(config: &Config, program: &str, args: &Vec<String>) -> (r: String)
    ensures
        r@ == command_error(*config, program@, texts(args@)),
{
    let mut out = config.messages.failed_to_run.clone();
    put(&mut out, " ");
    put(&mut out, program);
    put(&mut out, " ");
    put(&mut out, join(args, " ").as_str());
    out
}

/// What is done after a command has ended.
#[derive(Debug)]
pub enum AfterCommand<T> {
    /// Go on with what came of it.
    Result(T),
    /// A signal was caught meanwhile: leave the program with this exit code.
    Exit(i32),
}

/// The exit code for a signal.
pub fn signal_exit_code(signal: usize) -> (r: i32)
    requires
        signal <= i32::MAX - 128,
    ensures
        r == 128 + signal,
{
    128 + signal as i32
}

/// Whether `r` is what is done after a command. `ran` is the exit code of its process, where it
/// could be run, and `caught` the signal that was caught meanwhile, or zero.
pub open spec fn follows_command(
    config: Config,
    program: Seq<char>,
    args: Seq<Seq<char>>,
    ran: Option<Option<i32>>,
    caught: usize,
    r: AfterCommand<Result<Status, String>>,
) -> bool {
    if caught != 0 {
        r == AfterCommand::<Result<Status, String>>::Exit((128 + caught) as i32)
    } else {
        match ran {
            Some(code) => r == AfterCommand::Result(
                Ok::<Status, String>(
                    Status(
                        match code {
                            Some(c) => c,
                            None => 1,
                        },
                    ),
                ),
            ),
            None => r matches AfterCommand::Result(Err(e)) && e@ == command_error(
                config,
                program,
                args,
            ),
        }
    }
}

/// What is done after a command: a caught signal ends the program, otherwise the status of the
/// process or the report that it could not be run is the result.
pub fn command_status(
    config: &Config,
    program: &str,
    args: &Vec<String>,
    ran: Option<Option<i32>>,
    caught: usize,
) -> (r: AfterCommand<Result<Status, String>>)
    requires
        caught <= i32::MAX - 128,
    ensures
        follows_command(*config, program@, texts(args@), ran, caught, r),
{
    if caught != 0 {
        return AfterCommand::Exit(signal_exit_code(caught));
    }
    match ran {
        Some(code) => AfterCommand::Result(Ok(Status::of_process(code))),
        None => AfterCommand::Result(Err(command_err(config, program, args))),
    }
}

/// What comes of a command that has to succeed.
pub fn command(config: &Config, program: &str, args: &Vec<String>, status: Status) -> (r: Result<
    (),
    String,
>)
    ensures
        match r {
            Ok(_) => status.0 == 0,
            Err(e) => status.0 != 0 && e@ == command_error(*config, program@, texts(args@)),
        },
{
    match status.success() {
        Ok(_) => Ok(()),
        Err(_) => Err(command_err(config, program, args)),
    }
}

/// The report on a command that failed and what it wrote to its error output.
pub open spec fn output_error(
    config: Config,
    program: Seq<char>,
    args: Seq<Seq<char>>,
    stderr: Seq<char>,
) -> Seq<char> {
    command_error(config, program, args) + ": "@ + trimmed(stderr)
}

/// The report on a command that failed and what it wrote to its error output.
pub fn output_report(config: &Config, program: &str, args: &Vec<String>, stderr: &str) -> (r: String)
    ensures
        r@ == output_error(*config, program@, texts(args@), stderr@),
{
    let mut out = command_err(config, program, args);
    put(&mut out, ": ");
    put(&mut out, trim(stderr).as_str());
    out
}

/// What comes of a command whose output is used.
pub fn command_output(
    config: &Config,
    program: &str,
    args: &Vec<String>,
    succeeded: bool,
    stderr: &[u8],
) -> (r: Result<(), String>)
    ensures
        match r {
            Ok(_) => succeeded,
            Err(e) => !succeeded && e@ == output_error(
                *config,
                program@,
                texts(args@),
                lossy_text(stderr@),
            ),
        },
{
    if succeeded {
        Ok(())
    } else {
        Err(output_report(config, program, args, text_of_bytes(stderr).as_str()))
    }
}

/// A command line.
#[derive(Debug)]
pub struct CommandLine {
    pub program: String,
    pub args: Vec<String>,
}

/// The options that name a configuration file.
pub open spec fn config_option(path: Option<String>) -> Seq<Seq<char>> {
    match path {
        Some(p) => seq!["--config"@, p@],
        None => seq![],
    }
}

fn put_config(out: &mut Vec<String>, path: &Option<String>)
    ensures
        texts(final(out)@) == texts(old(out)@) + config_option(*path),
{
    let ghost before = out@;
    match path {
        Some(p) => {
            out.push("--config".to_owned());
            out.push(p.clone());
        },
        None => {},
    }
    assert(texts(out@) =~= texts(before) + config_option(*path));
}

/// The program of a command line of pacman.
pub open spec fn pacman_program(config: Config, bin: Seq<char>) -> Seq<char> {
    if config.need_root {
        config.sudo_bin@
    } else {
        bin
    }
}

/// The arguments of a command line of pacman.
pub open spec fn pacman_arguments(config: Config, bin: Seq<char>, args: Seq<Seq<char>>) -> Seq<
    Seq<char>,
> {
    (if config.need_root {
        texts(config.sudo_flags@).push(bin)
    } else {
        seq![]
    }) + config_option(config.pacman_conf) + args
}

/// The command line of pacman: through the program that gives it its rights, where it needs them.
/// `bin` is its own program and `args` are its arguments.
pub fn new_pacman(config: &Config, bin: &str, args: &Vec<String>) -> (r: CommandLine)
    ensures
        r.program@ == pacman_program(*config, bin@),
        texts(r.args@) == pacman_arguments(*config, bin@, texts(args@)),
{
    let mut out: Vec<String> = Vec::new();
    let program = if config.need_root {
        out = copy_list(&config.sudo_flags);
        let ghost flags = out@;
        out.push(bin.to_owned());
        assert(texts(out@) =~= texts(flags).push(bin@));
        config.sudo_bin.clone()
    } else {
        assert(texts(out@) =~= seq![]);
        bin.to_owned()
    };
    put_config(&mut out, &config.pacman_conf);
    put_texts(&mut out, args);
    CommandLine { program, args: out }
}

/// A run of makepkg: its command line, the directory in which it runs, and where it puts packages,
/// where that is not left to its configuration.
#[derive(Debug)]
pub struct MakepkgRun {
    pub command: CommandLine,
    pub dir: String,
    /// The value of the variable `PKGDEST`.
    pub pkgdest: Option<String>,
}

/// The arguments of a run of makepkg.
pub open spec fn makepkg_arguments(config: Config, args: Seq<Seq<char>>) -> Seq<Seq<char>> {
    config_option(config.makepkg_conf) + texts(config.mflags@) + args
}

/// A run of makepkg.
pub fn new_makepkg(config: &Config, dir: &str, args: &Vec<String>, pkgdest: Option<&str>) -> (r:
    MakepkgRun)
    ensures
        r.command.program@ == config.makepkg_bin@,
        texts(r.command.args@) == makepkg_arguments(*config, texts(args@)),
        r.dir@ == dir@,
        opt_text(r.pkgdest) == opt_str(pkgdest),
{
    let mut out: Vec<String> = Vec::new();
    put_config(&mut out, &config.makepkg_conf);
    assert(texts(out@) =~= config_option(config.makepkg_conf));
    put_texts(&mut out, &config.mflags);
    put_texts(&mut out, args);
    let pkgdest = match pkgdest {
        Some(dest) => Some(dest.to_owned()),
        None => None,
    };
    MakepkgRun {
        command: CommandLine { program: config.makepkg_bin.clone(), args: out },
        dir: dir.to_owned(),
        pkgdest,
    }
}

/// The line that is shown while another program uses the package database.
pub fn wait_for_lock_notice(config: &Config) -> (r: String)
    ensures
        r@ == painted(config.color.error, "::"@) + " "@ + painted(
            config.color.bold,
            config.messages.pacman_in_use@,
        ) + "\n"@,
{
    let mut out = paint(config.color.error, "::");
    put(&mut out, " ");
    put(&mut out, paint(config.color.bold, config.messages.pacman_in_use.as_str()).as_str());
    put(&mut out, "\n");
    out
}

} // verus!
