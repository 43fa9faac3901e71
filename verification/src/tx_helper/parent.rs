//! The parent of the helper: what it makes of the helper's messages, and how it ends.

use crate::config::Config;
use crate::exec::Status;
use crate::number::decimal_int_text;
#[allow(unused_imports)]
use crate::number::decimal_int;
#[allow(unused_imports)]
use crate::style::heading;
use crate::text::put;
#[allow(unused_imports)]
use crate::text::texts;
use crate::tx_helper::events::format_log_line_for_parent;
#[allow(unused_imports)]
use crate::tx_helper::events::shown_log_line;
use crate::tx_helper::ipc::{HelperToParent, ParentToHelper};
use crate::ui::render::{DownloadLine, TransactionRenderController};
#[allow(unused_imports)]
use crate::ui::render::{notes_download, notes_install};
use vstd::prelude::*;

verus! {

/// The error of a transaction that the user interrupted.
#[derive(Debug, Clone, Copy, PartialEq, Eq, Structural)]
pub struct InterruptedError;

impl InterruptedError {
    pub fn message(&self) -> (r: &'static str)
        ensures
            r@ == "operation interrupted"@,
    {
        "operation interrupted"
    }
}

/// What the parent learns.
#[derive(Debug)]
pub enum ParentEvent {
    /// A message of the helper.
    Message(HelperToParent),
    /// A line that is no message.
    Noise,
    /// The helper has closed its end.
    Closed,
    /// The reading failed.
    ReadFailed(String),
    /// Nothing came for a while; whether the helper has ended.
    Quiet(bool),
    /// The reader is gone.
    Disconnected,
}

/// What the parent does.
#[derive(Debug)]
pub enum ParentStep {
    /// Wait for the next event.
    Wait,
    /// Write this to the terminal, then wait.
    Print(String),
    /// Draw these lines of downloads, then wait.
    Draw(Vec<DownloadLine>),
    /// Put the question to the user and send the answer under its number, then wait.
    Ask { id: u64, prompt: String, default_yes: bool },
    /// Stop waiting; the exit code, where the helper sent one.
    Stop(Option<i32>),
    /// Stop with this error.
    Fail(String),
}

/// Whether a step prints this text.
pub open spec fn prints(step: ParentStep, text: Seq<char>) -> bool {
    step matches ParentStep::Print(t) && t@ == text
}

/// The step for a message that changes no progress.
pub open spec fn plain_step(config: Config, m: HelperToParent, step: ParentStep) -> bool {
    match m {
        HelperToParent::Event { message } => prints(step, message@ + "\n"@),
        HelperToParent::HookPhaseStart => prints(
            step,
            heading(config.color, "Running post-transaction hooks..."@) + "\n"@,
        ),
        HelperToParent::HookStep { current, total, desc } => prints(
            step,
            "("@ + crate::number::decimal(current as nat) + "/"@ + crate::number::decimal(
                total as nat,
            ) + ") "@ + desc@ + " "@ + crate::ui::notice::ok_mark() + "\n"@,
        ),
        HelperToParent::HookPhaseDone => prints(
            step,
            heading(config.color, "Post-transaction hooks completed."@) + "\n"@,
        ),
        HelperToParent::LogLine { level, message } => prints(
            step,
            shown_log_line(config.color, level@, message@) + "\n"@,
        ),
        HelperToParent::Question { id, prompt, default_yes } =>
            step matches ParentStep::Ask { id: i, prompt: p, default_yes: d } && i == id && p@
                == prompt@ && d == default_yes,
        HelperToParent::Result { code } => step == ParentStep::Stop(Some(code)),
        HelperToParent::Error { message } => step matches ParentStep::Fail(t) && t@
            == "helper error: "@ + message@,
        HelperToParent::DownloadProgress { .. } => step is Wait || step is Draw,
        HelperToParent::InstallProgress { .. } => step is Wait || step is Print,
    }
}

/// The lines that a step draws.
pub open spec fn drawn_lines(step: ParentStep) -> Option<Vec<DownloadLine>> {
    match step {
        ParentStep::Draw(lines) => Some(lines),
        _ => None,
    }
}

/// The text that a step prints.
pub open spec fn printed_text(step: ParentStep) -> Option<Seq<char>> {
    match step {
        ParentStep::Print(text) => Some(text@),
        _ => None,
    }
}

/// Whether a message reports progress.
pub open spec fn is_progress(m: HelperToParent) -> bool {
    m is DownloadProgress || m is InstallProgress
}

/// The step for an event, at a time in nanoseconds. Progress goes to the renderer, which tells
/// what is drawn.
pub fn on_parent_event(
    config: &Config,
    ui: &mut TransactionRenderController,
    event: &ParentEvent,
    now: u128,
    terminal: Option<usize>,
) -> (r: ParentStep)
    requires
        old(ui).wf(),
        old(ui).downloads@.keys.len() < usize::MAX,
        old(ui).installs@.keys.len() < usize::MAX,
    ensures
        final(ui).wf(),
        match *event {
            ParentEvent::Message(m) => plain_step(*config, m, r) && (!is_progress(m) ==> *final(ui)
                == *old(ui)),
            ParentEvent::Noise => r is Wait && *final(ui) == *old(ui),
            ParentEvent::Closed | ParentEvent::Disconnected => r == ParentStep::Stop(None)
                && *final(ui) == *old(ui),
            ParentEvent::ReadFailed(e) => (r matches ParentStep::Fail(t) && t@
                == "read helper IPC line: "@ + e@) && *final(ui) == *old(ui),
            ParentEvent::Quiet(ended) => (if ended {
                r == ParentStep::Stop(None)
            } else {
                r is Wait
            }) && *final(ui) == *old(ui),
        },
        match *event {
            ParentEvent::Message(HelperToParent::DownloadProgress { package, downloaded, total }) =>
                notes_download(
                    *old(ui),
                    *final(ui),
                    package@,
                    downloaded,
                    total,
                    now,
                    drawn_lines(r),
                ),
            ParentEvent::Message(
                HelperToParent::InstallProgress { package, percent, current, total, removing },
            ) => notes_install(
                *old(ui),
                *final(ui),
                package@,
                percent,
                current,
                total,
                removing,
                now,
                terminal,
                printed_text(r),
            ),
            _ => true,
        },
{
    match event {
        ParentEvent::Noise => ParentStep::Wait,
        ParentEvent::Closed => ParentStep::Stop(None),
        ParentEvent::Disconnected => ParentStep::Stop(None),
        ParentEvent::ReadFailed(e) => {
            let mut text = "read helper IPC line: ".to_owned();
            put(&mut text, e.as_str());
            ParentStep::Fail(text)
        },
        ParentEvent::Quiet(ended) => {
            if *ended {
                ParentStep::Stop(None)
            } else {
                ParentStep::Wait
            }
        },
        ParentEvent::Message(m) => match m {
            HelperToParent::Event { message } => ParentStep::Print(
                ui.on_static_step(message.as_str()),
            ),
            HelperToParent::DownloadProgress { package, downloaded, total } => {
                match ui.on_download_progress(package.as_str(), *downloaded, *total, now) {
                    Some(lines) => ParentStep::Draw(lines),
                    None => ParentStep::Wait,
                }
            },
            HelperToParent::InstallProgress { package, percent, current, total, removing } => {
                match ui.on_install_progress(
                    package.as_str(),
                    *percent,
                    *current,
                    *total,
                    *removing,
                    now,
                    terminal,
                ) {
                    Some(text) => ParentStep::Print(text),
                    None => ParentStep::Wait,
                }
            },
            HelperToParent::HookPhaseStart => ParentStep::Print(ui.on_hook_phase_start(config)),
            HelperToParent::HookStep { current, total, desc } => ParentStep::Print(
                ui.on_hook_step(*current, *total, desc.as_str()),
            ),
            HelperToParent::HookPhaseDone => ParentStep::Print(ui.on_hook_phase_done(config)),
            HelperToParent::LogLine { level, message } => {
                let line = format_log_line_for_parent(config, level.as_str(), message.as_str());
                ParentStep::Print(ui.on_log_line(line.as_str()))
            },
            HelperToParent::Question { id, prompt, default_yes } => ParentStep::Ask {
                id: *id,
                prompt: prompt.clone(),
                default_yes: *default_yes,
            },
            HelperToParent::Result { code } => {
                ui.finish();
                ParentStep::Stop(Some(*code))
            },
            HelperToParent::Error { message } => {
                ui.finish();
                let mut text = "helper error: ".to_owned();
                put(&mut text, message.as_str());
                ParentStep::Fail(text)
            },
        },
    }
}

/// The message that answers a question.
pub fn answer(id: u64, yes: bool) -> (r: ParentToHelper)
    ensures
        r == (ParentToHelper::Answer { id, yes }),
{
    ParentToHelper::Answer { id, yes }
}

/// How the parent ends after the helper has stopped.
#[derive(Debug)]
pub enum HelperEnd {
    /// With the status that the helper sent.
    Status(Status),
    /// The stale lock is removed, and then the operation is reported as interrupted.
    Interrupted,
    /// With this error.
    Failed(String),
}

/// Whether the parent ends so.
pub open spec fn ends_so(code: Option<i32>, interrupted: bool, status: Status, end: HelperEnd) -> bool {
    match code {
        Some(c) => end == HelperEnd::Status(Status(c)),
        None => if interrupted {
            end is Interrupted
        } else {
            end matches HelperEnd::Failed(t) && t@
                == "transaction helper terminated before sending a result (status "@ + decimal_int(
                status.0 as int,
            ) + ")"@
        },
    }
}

/// How the parent ends: with the exit code that the helper sent; otherwise the operation was
/// interrupted, or the helper ended without a result. `status` is the exit code of its process.
pub fn helper_end(code: Option<i32>, interrupted: bool, status: Status) -> (r: HelperEnd)
    ensures
        ends_so(code, interrupted, status, r),
{
    match code {
        Some(c) => HelperEnd::Status(Status(c)),
        None => {
            if interrupted {
                return HelperEnd::Interrupted;
            }
            let mut text = "transaction helper terminated before sending a result (status ".to_owned();
            put(&mut text, decimal_int_text(status.0 as i64).as_str());
            put(&mut text, ")");
            HelperEnd::Failed(text)
        },
    }
}

/// The command that starts the helper, after the program that gives it its rights.
pub open spec fn helper_command(config: Config, exe: Seq<char>) -> Seq<Seq<char>> {
    texts(config.sudo_flags@).push(exe).push("--helper-transaction"@)
}

/// The arguments for the program that gives the helper its rights.
pub fn helper_arguments(config: &Config, exe: &str) -> (r: Vec<String>)
    ensures
        texts(r@) == helper_command(*config, exe@),
{
    let mut out = crate::text::copy_list(&config.sudo_flags);
    let ghost flags = out@;
    out.push(exe.to_owned());
    out.push("--helper-transaction".to_owned());
    assert(texts(out@) =~= texts(flags).push(exe@).push("--helper-transaction"@));
    out
}

/// The arguments for the program that removes the lock of an interrupted transaction.
pub fn lock_cleanup_arguments(config: &Config) -> (r: Vec<String>)
    ensures
        texts(r@) == texts(config.sudo_flags@).push("rm"@).push("-f"@).push(
            "/var/lib/pacman/db.lck"@,
        ),
{
    let mut out = crate::text::copy_list(&config.sudo_flags);
    let ghost flags = out@;
    out.push("rm".to_owned());
    out.push("-f".to_owned());
    out.push("/var/lib/pacman/db.lck".to_owned());
    assert(texts(out@) =~= texts(flags).push("rm"@).push("-f"@).push("/var/lib/pacman/db.lck"@));
    out
}

/// What comes of the removal of the lock of an interrupted transaction.
pub fn lock_cleanup_result(status: Status) -> (r: Result<(), &'static str>)
    ensures
        match r {
            Ok(_) => status.0 == 0,
            Err(e) => status.0 != 0 && e@
                == "failed to remove stale pacman db lock after interruption"@,
        },
{
    if status.0 == 0 {
        Ok(())
    } else {
        Err("failed to remove stale pacman db lock after interruption")
    }
}

/// What the parent does about the signals that reach it.
#[derive(Debug, Clone, Copy, PartialEq, Eq, Structural)]
pub enum ParentSignal {
    /// No signal was caught: look again later.
    Watch,
    /// Tell the user, pass the signal on to the helper, and stop watching.
    PassOn,
    /// Stop watching: the signal was passed on before.
    Stop,
}

/// What the parent does about the signals that reach it.
pub open spec fn signal_reaction(caught: usize, sent: bool) -> ParentSignal {
    if caught == 0 {
        ParentSignal::Watch
    } else if sent {
        ParentSignal::Stop
    } else {
        ParentSignal::PassOn
    }
}

/// What the parent does about the signals that reach it: the first is passed on.
pub fn on_parent_signal(caught: usize, sent: bool) -> (r: ParentSignal)
    ensures
        r == signal_reaction(caught, sent),
{
    if caught == 0 {
        ParentSignal::Watch
    } else if sent {
        ParentSignal::Stop
    } else {
        ParentSignal::PassOn
    }
}

/// What is written to the terminal when a signal is passed on.
pub fn interrupted_notice() -> (r: &'static str)
    ensures
        r@ == "\r\x1b[2K\x1b[1m:: Interrupted. Cleaning up...\x1b[0m\n"@,
{
    "\r\x1b[2K\x1b[1m:: Interrupted. Cleaning up...\x1b[0m\n"
}

/// What is done while the helper is to end.
#[derive(Debug, Clone, Copy, PartialEq, Eq, Structural)]
pub enum ExitWait {
    /// It has ended with this status.
    Ended(Status),
    /// Look again in a moment.
    Sleep,
    /// End it by force.
    Kill,
}

/// What is done while the helper is to end.
pub open spec fn exit_wait(exited: Option<Option<i32>>, now: u128, deadline: u128) -> ExitWait {
    match exited {
        Some(code) => ExitWait::Ended(
            Status(
                match code {
                    Some(c) => c,
                    None => 1,
                },
            ),
        ),
        None => if now >= deadline {
            ExitWait::Kill
        } else {
            ExitWait::Sleep
        },
    }
}

/// What is done while the helper is to end: it is waited for until the deadline, and then ended by
/// force. `exited` holds the exit code of a process that has ended.
pub fn wait_helper_exit(exited: Option<Option<i32>>, now: u128, deadline: u128) -> (r: ExitWait)
    ensures
        r == exit_wait(exited, now, deadline),
{
    match exited {
        Some(code) => ExitWait::Ended(Status::of_process(code)),
        None => {
            if now >= deadline {
                ExitWait::Kill
            } else {
                ExitWait::Sleep
            }
        },
    }
}

/// The exit code of the helper reaches the caller: a message with a result stops the parent, and
/// the parent then ends with that status, whatever signals it caught and however the helper's
/// process ended.
pub proof fn result_reaches_the_caller(
    config: Config,
    code: i32,
    sent: Option<i32>,
    interrupted: bool,
    status: Status,
    end: HelperEnd,
)
    requires
        plain_step(config, HelperToParent::Result { code }, ParentStep::Stop(sent)),
        ends_so(sent, interrupted, status, end),
    ensures
        end == HelperEnd::Status(Status(code)),
{
}

/// A message with an error makes the parent fail with it.
pub proof fn helper_error_is_reported(config: Config, message: String, step: ParentStep)
    requires
        plain_step(config, HelperToParent::Error { message }, step),
    ensures
        step matches ParentStep::Fail(text) && text@ == "helper error: "@ + message@,
{
}

} // verus!
