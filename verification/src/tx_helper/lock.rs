//! The recovery from a lock that a dead process left on the package database.

use crate::number::{decimal_int_text, parse_i32};
#[allow(unused_imports)]
use crate::number::{decimal_int, i32_value};
use crate::text::put;
#[allow(unused_imports)]
use crate::text::opt_text;
use crate::tx_helper::ipc::{ask_helper_question, Asking, HelperToParent};
#[allow(unused_imports)]
use crate::tx_helper::ipc::is_question;
use vstd::prelude::*;

verus! {

/// What the recovery waits for.
#[derive(Debug, Clone, Copy, PartialEq, Eq, Structural)]
pub enum LockPhase {
    /// Look at the lock.
    Look,
    /// Tell whether the process is alive.
    Process(i32),
    /// Put the question to the user.
    Ask(Option<i32>),
    /// Release the old transaction and close the database.
    Release,
    /// Remove the lock.
    Remove,
    /// Tell the parent.
    Announce,
    /// Wait a moment.
    Pause,
    /// Open the database anew.
    Reopen,
    Finished,
}

/// What came of a step.
#[derive(Debug)]
pub enum LockFact {
    /// There is no lock.
    Absent,
    /// There is a lock; its text, where it can be read.
    Present(Option<String>),
    /// Whether the process is alive.
    Alive(bool),
    /// The answer of the user; the default where none came.
    Answer(bool),
    Done,
    Failed(String),
}

/// The process that a lock names.
pub open spec fn lock_pid(text: Option<Seq<char>>) -> Option<i32> {
    match text {
        Some(t) => i32_value(t),
        None => None,
    }
}

/// What comes after a fact. `no_confirm` tells that nobody is asked, which counts as a no.
pub open spec fn lock_next(no_confirm: bool, phase: LockPhase, f: LockFact) -> LockPhase {
    match (phase, f) {
        (LockPhase::Look, LockFact::Absent) => LockPhase::Release,
        (LockPhase::Look, LockFact::Present(text)) => match lock_pid(opt_text(text)) {
            Some(pid) => LockPhase::Process(pid),
            None => asking(no_confirm, None),
        },
        (LockPhase::Process(pid), LockFact::Alive(alive)) => if alive {
            LockPhase::Finished
        } else {
            asking(no_confirm, Some(pid))
        },
        (LockPhase::Ask(_), LockFact::Answer(yes)) => if yes {
            LockPhase::Release
        } else {
            LockPhase::Finished
        },
        (LockPhase::Release, _) => LockPhase::Remove,
        (LockPhase::Remove, LockFact::Done) => LockPhase::Announce,
        (LockPhase::Remove, LockFact::Absent) => LockPhase::Announce,
        (LockPhase::Announce, LockFact::Done) => LockPhase::Pause,
        (LockPhase::Pause, _) => LockPhase::Reopen,
        _ => LockPhase::Finished,
    }
}

/// The question, or the end where nobody is asked.
pub open spec fn asking(no_confirm: bool, pid: Option<i32>) -> LockPhase {
    if no_confirm {
        LockPhase::Finished
    } else {
        LockPhase::Ask(pid)
    }
}

/// The report that the user did not agree.
pub open spec fn declined() -> Seq<char> {
    "database lock present and removal was declined"@
}

/// The failure that a fact means.
pub open spec fn lock_failure(no_confirm: bool, phase: LockPhase, f: LockFact) -> Option<Seq<char>> {
    match (phase, f) {
        (LockPhase::Look, LockFact::Present(text)) => if no_confirm && lock_pid(
            opt_text(text),
        ) is None {
            Some(declined())
        } else {
            None
        },
        (LockPhase::Process(pid), LockFact::Alive(alive)) => if alive {
            Some(
                "Pacman is already in use by running process "@ + decimal_int(pid as int)
                    + " (db lock is active)"@,
            )
        } else if no_confirm {
            Some(declined())
        } else {
            None
        },
        (LockPhase::Ask(_), LockFact::Answer(yes)) => if yes {
            None
        } else {
            Some(declined())
        },
        (LockPhase::Remove, LockFact::Failed(_)) => Some("failed to remove stale pacman lock"@),
        (_, LockFact::Failed(text)) => if phase is Finished || phase is Release || phase is Pause {
            None
        } else {
            Some(text@)
        },
        _ => None,
    }
}

/// The words of the question.
pub open spec fn lock_prompt(pid: Option<i32>) -> Seq<char> {
    match pid {
        Some(p) => "Stale pacman lock detected (PID "@ + decimal_int(p as int)
            + "). Remove it and retry?"@,
        None => "Stale pacman lock detected. Remove it and retry?"@,
    }
}

/// A recovery.
#[derive(Debug)]
pub struct LockRecovery {
    pub phase: LockPhase,
    pub error: Option<String>,
}

fn ask_or_end(no_confirm: bool, pid: Option<i32>) -> (r: LockPhase)
    ensures
        r == asking(no_confirm, pid),
{
    if no_confirm {
        LockPhase::Finished
    } else {
        LockPhase::Ask(pid)
    }
}

fn prompt_for(pid: Option<i32>) -> (r: String)
    ensures
        r@ == lock_prompt(pid),
{
    match pid {
        Some(p) => {
            let mut text = "Stale pacman lock detected (PID ".to_owned();
            put(&mut text, decimal_int_text(p as i64).as_str());
            put(&mut text, "). Remove it and retry?");
            text
        },
        None => "Stale pacman lock detected. Remove it and retry?".to_owned(),
    }
}

fn pid_of(text: &Option<String>) -> (r: Option<i32>)
    ensures
        r == lock_pid(opt_text(*text)),
{
    match text {
        Some(t) => parse_i32(t.as_str()),
        None => None,
    }
}

/// Whether a message tells of the removal.
pub open spec fn is_announcement(m: HelperToParent) -> bool {
    m matches HelperToParent::Event { message } && message@
        == "Removed stale /var/lib/pacman/db.lck lock; retrying transaction."@
}

/// The message that tells of the removal.
pub fn announcement() -> (r: HelperToParent)
    ensures
        is_announcement(r),
{
    HelperToParent::Event {
        message: "Removed stale /var/lib/pacman/db.lck lock; retrying transaction.".to_owned(),
    }
}

impl LockRecovery {
    pub fn new() -> (r: LockRecovery)
        ensures
            r.phase == LockPhase::Look,
            r.error is None,
    {
        LockRecovery { phase: LockPhase::Look, error: None }
    }

    /// The question for the user, while it is to be asked. Its default is no.
    pub fn question(&self, next_id: &mut u64) -> (r: Option<HelperToParent>)
        requires
            *old(next_id) < u64::MAX,
        ensures
            match self.phase {
                LockPhase::Ask(pid) => r matches Some(m) && is_question(
                    m,
                    *old(next_id),
                    lock_prompt(pid),
                    false,
                ) && *final(next_id) == *old(next_id) + 1,
                _ => r is None && *final(next_id) == *old(next_id),
            },
    {
        match self.phase {
            LockPhase::Ask(pid) => match ask_helper_question(
                false,
                next_id,
                prompt_for(pid).as_str(),
                false,
            ) {
                Asking::Ask(m) => Some(m),
                Asking::Decided(_) => None,
            },
            _ => None,
        }
    }

    /// Goes on with a fact. A recovery that ends without a failure has opened the database anew.
    pub fn recover_from_stale_lock(&mut self, no_confirm: bool, fact: &LockFact)
        ensures
            final(self).phase == lock_next(no_confirm, old(self).phase, *fact),
            opt_text(final(self).error) == (match lock_failure(no_confirm, old(self).phase, *fact) {
                Some(text) => Some(text),
                None => opt_text(old(self).error),
            }),
    {
        let mut failed: Option<String> = None;
        self.phase = match (self.phase, fact) {
            (LockPhase::Look, LockFact::Absent) => LockPhase::Release,
            (LockPhase::Look, LockFact::Present(text)) => match pid_of(text) {
                Some(pid) => LockPhase::Process(pid),
                None => {
                    if no_confirm {
                        failed = Some("database lock present and removal was declined".to_owned());
                    }
                    ask_or_end(no_confirm, None)
                },
            },
            (LockPhase::Process(pid), LockFact::Alive(alive)) => {
                if *alive {
                    let mut text = "Pacman is already in use by running process ".to_owned();
                    put(&mut text, decimal_int_text(pid as i64).as_str());
                    put(&mut text, " (db lock is active)");
                    failed = Some(text);
                    LockPhase::Finished
                } else {
                    if no_confirm {
                        failed = Some("database lock present and removal was declined".to_owned());
                    }
                    ask_or_end(no_confirm, Some(pid))
                }
            },
            (LockPhase::Ask(_), LockFact::Answer(yes)) => {
                if *yes {
                    LockPhase::Release
                } else {
                    failed = Some("database lock present and removal was declined".to_owned());
                    LockPhase::Finished
                }
            },
            (LockPhase::Release, _) => LockPhase::Remove,
            (LockPhase::Remove, LockFact::Done) => LockPhase::Announce,
            (LockPhase::Remove, LockFact::Absent) => LockPhase::Announce,
            (LockPhase::Remove, LockFact::Failed(_)) => {
                failed = Some("failed to remove stale pacman lock".to_owned());
                LockPhase::Finished
            },
            (LockPhase::Announce, LockFact::Done) => LockPhase::Pause,
            (LockPhase::Pause, _) => LockPhase::Reopen,
            (LockPhase::Finished, _) => LockPhase::Finished,
            (_, LockFact::Failed(text)) => {
                failed = Some(text.clone());
                LockPhase::Finished
            },
            _ => LockPhase::Finished,
        };
        if failed.is_some() {
            self.error = failed;
        }
    }
}

/// The phase of a recovery after the first `n` facts.
pub open spec fn lock_phase_after(no_confirm: bool, facts: Seq<LockFact>, n: int) -> LockPhase
    decreases n,
{
    if n <= 0 {
        LockPhase::Look
    } else {
        lock_next(no_confirm, lock_phase_after(no_confirm, facts, n - 1), facts[n - 1])
    }
}

/// A lock that is there is never removed unless the user agreed, and never while the process
/// that it names is alive: where the removal is reached, the first fact said that there is no
/// lock, or the last fact before the release was a yes.
pub proof fn lock_is_removed_with_consent(no_confirm: bool, facts: Seq<LockFact>, n: int)
    requires
        0 <= n <= facts.len(),
        lock_phase_after(no_confirm, facts, n) is Remove,
    ensures
        n >= 2,
        (n == 2 && facts[0] is Absent) || (!no_confirm && facts[n - 2] == LockFact::Answer(true)),
        forall|i: int|
            0 <= i < n && lock_phase_after(no_confirm, facts, i) is Process ==> #[trigger] facts[i]
                == LockFact::Alive(false),
{
    reveal_with_fuel(lock_phase_after, 5);
    lemma_lock_trail(no_confirm, facts, n);
    assert(lock_phase_after(no_confirm, facts, n - 1) is Release);
    lemma_lock_trail(no_confirm, facts, n - 1);
    assert(n - 1 > 0);
    let before = lock_phase_after(no_confirm, facts, n - 2);
    if before is Look {
        lemma_lock_start(no_confirm, facts, n - 2);
    } else {
        assert(before is Ask);
        lemma_lock_trail(no_confirm, facts, n - 2);
    }
}

proof fn lemma_lock_start(no_confirm: bool, facts: Seq<LockFact>, n: int)
    requires
        0 <= n,
        lock_phase_after(no_confirm, facts, n) is Look,
    ensures
        n == 0,
    decreases n,
{
}

proof fn lemma_lock_trail(no_confirm: bool, facts: Seq<LockFact>, n: int)
    requires
        0 <= n,
    ensures
        lock_phase_after(no_confirm, facts, n) is Finished || forall|i: int|
            0 <= i < n && lock_phase_after(no_confirm, facts, i) is Process ==> #[trigger] facts[i]
                == LockFact::Alive(false),
        lock_phase_after(no_confirm, facts, n) is Ask ==> !no_confirm,
    decreases n,
{
    if n > 0 {
        lemma_lock_trail(no_confirm, facts, n - 1);
    }
}

} // verus!
