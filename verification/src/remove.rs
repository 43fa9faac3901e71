//! The removal of packages.

use crate::config::Config;
#[allow(unused_imports)]
use crate::text::{opt_text, texts};
use crate::tx_helper::transaction::ensure_noscriptlet_allowed;
#[allow(unused_imports)]
use crate::tx_helper::transaction::{noscriptlet_error, scriptlet_guard};
use crate::ui::bundle::{remove_confirmation_bundle, LocalPkg};
#[allow(unused_imports)]
use crate::ui::bundle::{is_change_table, remove_models, removed_size};
use crate::ui::notice::print_critical_pkg_warning;
#[allow(unused_imports)]
use crate::ui::notice::critical_warning;
use crate::ui::preview::{confirm_transaction, Confirmation};
#[allow(unused_imports)]
use crate::ui::preview::{confirm_words, preview};
#[allow(unused_imports)]
use crate::ui::table::{ConfirmationTable, InstallConfirmTotals};
use crate::ui::table::TxConfirmOp;
use vstd::prelude::*;

verus! {

/// What a removal waits for.
#[derive(Debug, Clone, Copy, PartialEq, Eq, Structural)]
pub enum RemovePhase {
    /// The answer of the user.
    Confirm,
    /// The backend.
    Backend,
    /// The record of packages under development is written.
    Save,
    /// The exit code.
    Finished(i32),
}

/// What a removal is told.
#[derive(Debug, Clone, Copy, PartialEq, Eq, Structural)]
pub enum RemoveEvent {
    Answer(bool),
    BackendCode(i32),
    Saved(bool),
}

/// What comes after an event: a no ends the removal, and so does a backend that fails; a record
/// that cannot be written makes the exit code one. Other events change nothing.
pub open spec fn remove_next(phase: RemovePhase, e: RemoveEvent) -> RemovePhase {
    match (phase, e) {
        (RemovePhase::Confirm, RemoveEvent::Answer(yes)) => if yes {
            RemovePhase::Backend
        } else {
            RemovePhase::Finished(1)
        },
        (RemovePhase::Backend, RemoveEvent::BackendCode(code)) => if code != 0 {
            RemovePhase::Finished(code)
        } else {
            RemovePhase::Save
        },
        (RemovePhase::Save, RemoveEvent::Saved(saved)) => if saved {
            RemovePhase::Finished(0)
        } else {
            RemovePhase::Finished(1)
        },
        _ => phase,
    }
}

/// A removal: what is shown first, and how it goes on.
#[derive(Debug)]
pub struct Removal {
    /// The warning about critical packages, if any.
    pub warning: String,
    /// What is put to the user, unless there is nothing to show.
    pub confirmation: Option<Confirmation>,
    pub phase: RemovePhase,
    /// The reason why the removal is refused.
    pub error: Option<String>,
}

/// Whether the user is asked this about these packages.
pub open spec fn asks_removal(
    config: Config,
    terminal: Option<usize>,
    found: Seq<Option<LocalPkg>>,
    c: Confirmation,
) -> bool {
    &&& c.prompt@ == confirm_words(TxConfirmOp::Remove)
    &&& c.default_yes
    &&& exists|t: ConfirmationTable, totals: InstallConfirmTotals|
        is_change_table(
            config,
            t,
            seq![
                config.messages.package@,
                config.messages.version@,
                config.messages.description@,
            ],
            remove_models(found),
        ) && c.text@ == #[trigger] preview(config, terminal, t, totals, TxConfirmOp::Remove)
}

/// Whether a removal starts so: critical packages are warned of, and stop it where they are guarded;
/// otherwise the user is asked where a target is installed.
pub open spec fn starts_removal(
    config: Config,
    terminal: Option<usize>,
    critical: Seq<Seq<char>>,
    found: Seq<Option<LocalPkg>>,
    r: Removal,
) -> bool {
    &&& r.warning@ == critical_warning(critical)
    &&& scriptlet_guard(config) && critical.len() > 0 ==> {
        &&& opt_text(r.error) == Some(noscriptlet_error(critical))
        &&& r.confirmation is None
        &&& r.phase == RemovePhase::Finished(1)
    }
    &&& !(scriptlet_guard(config) && critical.len() > 0) ==> {
        &&& r.error is None
        &&& r.confirmation is None <==> remove_models(found).len() == 0
        &&& r.confirmation matches Some(c) ==> asks_removal(config, terminal, found, c)
        &&& r.phase == if r.confirmation is Some {
            RemovePhase::Confirm
        } else {
            RemovePhase::Backend
        }
    }
}

/// Starts a removal. `critical` are the critical packages among the targets, and `found` holds for
/// each target the installed package of that name. The user is asked where a target is installed.
pub fn remove(
    config: &Config,
    terminal: Option<usize>,
    critical: &Vec<String>,
    found: &Vec<Option<LocalPkg>>,
) -> (r: Removal)
    requires
        i64::MIN <= -removed_size(found@) <= i64::MAX,
    ensures
        starts_removal(*config, terminal, texts(critical@), found@, r),
{
    assert(texts(critical@).len() == critical@.len());
    let warning = print_critical_pkg_warning(critical);
    match ensure_noscriptlet_allowed(critical, config) {
        Ok(_) => {},
        Err(e) => {
            return Removal {
                warning,
                confirmation: None,
                phase: RemovePhase::Finished(1),
                error: Some(e),
            };
        },
    }
    match remove_confirmation_bundle(config, found) {
        Some((table, totals)) => {
            let c = confirm_transaction(config, terminal, &table, &totals, TxConfirmOp::Remove);
            assert(asks_removal(*config, terminal, found@, c));
            Removal {
                warning,
                confirmation: Some(c),
                phase: RemovePhase::Confirm,
                error: None,
            }
        },
        None => Removal {
            warning,
            confirmation: None,
            phase: RemovePhase::Backend,
            error: None,
        },
    }
}

impl Removal {
    /// Goes on with an event.
    pub fn advance(&mut self, e: RemoveEvent)
        ensures
            final(self).phase == remove_next(old(self).phase, e),
            final(self).warning == old(self).warning,
            final(self).confirmation == old(self).confirmation,
            final(self).error == old(self).error,
    {
        self.phase = match (self.phase, e) {
            (RemovePhase::Confirm, RemoveEvent::Answer(yes)) => if yes {
                RemovePhase::Backend
            } else {
                RemovePhase::Finished(1)
            },
            (RemovePhase::Backend, RemoveEvent::BackendCode(code)) => if code != 0 {
                RemovePhase::Finished(code)
            } else {
                RemovePhase::Save
            },
            (RemovePhase::Save, RemoveEvent::Saved(saved)) => if saved {
                RemovePhase::Finished(0)
            } else {
                RemovePhase::Finished(1)
            },
            (phase, _) => phase,
        };
    }
}

/// The phase of a removal after the first `n` events.
pub open spec fn remove_phase_after(start: RemovePhase, events: Seq<RemoveEvent>, n: int) -> RemovePhase
    decreases n,
{
    if n <= 0 {
        start
    } else {
        remove_next(remove_phase_after(start, events, n - 1), events[n - 1])
    }
}

/// Where the user is asked, nothing is removed without a yes.
pub proof fn removal_needs_consent(events: Seq<RemoveEvent>, n: int)
    requires
        0 <= n <= events.len(),
        remove_phase_after(RemovePhase::Confirm, events, n) is Backend,
    ensures
        exists|i: int| 0 <= i < n && #[trigger] events[i] == RemoveEvent::Answer(true),
    decreases n,
{
    if n > 0 {
        let before = remove_phase_after(RemovePhase::Confirm, events, n - 1);
        if before is Backend {
            removal_needs_consent(events, n - 1);
        } else {
            assert(events[n - 1] == RemoveEvent::Answer(true));
        }
    }
}

/// The bases of the targets that are installed: what is known of their development is forgotten
/// after the removal.
pub open spec fn bases_of(found: Seq<Option<String>>) -> Seq<Seq<char>>
    decreases found.len(),
{
    if found.len() == 0 {
        seq![]
    } else {
        match found.last() {
            Some(base) => bases_of(found.drop_last()).push(base@),
            None => bases_of(found.drop_last()),
        }
    }
}

/// The bases of the targets that are installed. `found` holds for each target the base of the
/// installed package of that name.
pub fn removed_bases(found: &Vec<Option<String>>) -> (r: Vec<String>)
    ensures
        texts(r@) == bases_of(found@),
{
    let mut out: Vec<String> = Vec::new();
    let mut i: usize = 0;
    assert(found@.take(0) =~= seq![]);
    assert(texts(out@) =~= seq![]);
    while i < found.len()
        invariant
            i <= found@.len(),
            texts(out@) == bases_of(found@.take(i as int)),
        decreases found.len() - i,
    {
        assert(found@.take(i + 1).drop_last() =~= found@.take(i as int));
        let ghost so_far = out@;
        match &found[i] {
            Some(base) => {
                out.push(base.clone());
                assert(texts(out@) =~= texts(so_far).push(base@));
            },
            None => {},
        }
        i += 1;
    }
    assert(found@.take(i as int) =~= found@);
    out
}

} // verus!
