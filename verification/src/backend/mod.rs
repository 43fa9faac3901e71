//! The choice of the backend for transactions.

pub mod alpm;
pub mod legacy_pacman;

use crate::backend::alpm::{is_cache_cleaning, AlpmBackend, Operation, Route};
#[allow(unused_imports)]
use crate::backend::alpm::{cleans_cache, operation_of, plans};
use crate::config::{Args, Config};
use crate::exec::Status;
use crate::style::paint;
#[allow(unused_imports)]
use crate::style::painted;
use crate::text::{lower_ascii, put, same};
#[allow(unused_imports)]
use crate::text::{ascii_lower, opt_str, texts};
use crate::tx_helper::plan::TransactionPlan;
use vstd::prelude::*;

verus! {

/// The backends.
#[derive(Debug, Clone, Copy, PartialEq, Eq, Structural)]
pub enum BackendKind {
    LegacyPacman,
    Alpm,
}

/// A text with its ASCII letters in lower case.
pub open spec fn in_lower(s: Seq<char>) -> Seq<char> {
    s.map_values(|c: char| ascii_lower(c))
}

/// The backend that the variable `BAH_BACKEND` selects.
pub open spec fn backend_for(var: Option<Seq<char>>) -> BackendKind {
    match var {
        Some(v) => if in_lower(v) == "legacy"@ || in_lower(v) == "pacman"@ {
            BackendKind::LegacyPacman
        } else {
            BackendKind::Alpm
        },
        None => BackendKind::Alpm,
    }
}

/// The backend that the variable `BAH_BACKEND` selects.
pub fn selected_backend(var: Option<&str>) -> (r: BackendKind)
    ensures
        r == backend_for(opt_str(var)),
{
    match var {
        Some(v) => {
            let lower = lower_ascii(v);
            if same(lower.as_str(), "legacy") || same(lower.as_str(), "pacman") {
                BackendKind::LegacyPacman
            } else {
                BackendKind::Alpm
            }
        },
        None => BackendKind::Alpm,
    }
}

/// Whether the variable `BAH_BACKEND_STRICT` forbids another backend.
pub open spec fn is_strict(var: Option<Seq<char>>) -> bool {
    match var {
        Some(v) => in_lower(v) == "1"@ || in_lower(v) == "true"@ || in_lower(v) == "yes"@,
        None => false,
    }
}

/// Whether another backend may be tried, as the variable `BAH_BACKEND_STRICT` says.
pub fn allow_fallback(var: Option<&str>) -> (r: bool)
    ensures
        r == !is_strict(opt_str(var)),
{
    match var {
        Some(v) => {
            let lower = lower_ascii(v);
            !(same(lower.as_str(), "1") || same(lower.as_str(), "true") || same(
                lower.as_str(),
                "yes",
            ))
        },
        None => true,
    }
}

/// A list of texts as the standard library shows it for debugging.
pub uninterp spec fn debug_list(list: Seq<Seq<char>>) -> Seq<char>;

/// The `Debug` text of a list of strings, which the standard library writes. It depends on the
/// list alone.
#[verifier::external_body]
fn debug_text(list: &Vec<String>) -> (r: String)
    ensures
        r@ == debug_list(texts(list@)),
{
    format!("{:?}", list)
}

/// The report that a backend failed.
pub open spec fn backend_failure(
    config: Config,
    error: Seq<char>,
    op: Seq<char>,
    args: Seq<char>,
    targets: Seq<char>,
) -> Seq<char> {
    painted(config.color.warning, "::"@) + " ALPM backend failed: "@ + error + " (op="@ + op
        + " args="@ + args + " targets="@ + targets + ")\n"@
}

/// The report that a backend failed, from the texts of the arguments and targets.
pub fn backend_report(config: &Config, error: &str, op: &str, args: &str, targets: &str) -> (r:
    String)
    ensures
        r@ == backend_failure(*config, error@, op@, args@, targets@),
{
    let mut out = paint(config.color.warning, "::");
    put(&mut out, " ALPM backend failed: ");
    put(&mut out, error);
    put(&mut out, " (op=");
    put(&mut out, op);
    put(&mut out, " args=");
    put(&mut out, args);
    put(&mut out, " targets=");
    put(&mut out, targets);
    put(&mut out, ")\n");
    out
}

/// What is done next for an operation.
#[derive(Debug)]
pub enum BackendStep {
    /// The helper carries out this plan.
    Helper(TransactionPlan),
    /// The operation is carried out in this process.
    Here(Operation),
    /// This is written to the error output, and the legacy backend runs the operation.
    Legacy(String),
    /// The operation ends with this status.
    Done(Status),
    /// This is written to the error output, and the operation fails with the error.
    Failed { notice: String, error: String },
}

/// Whether the legacy backend runs an operation from the start: it is selected by the variable
/// `BAH_BACKEND`, or the package cache is cleaned.
pub open spec fn is_legacy(args: Args, backend: Option<Seq<char>>) -> bool {
    backend_for(backend) == BackendKind::LegacyPacman || cleans_cache(args)
}

/// Whether a step is the right one after the ALPM backend failed with `error`: the failure is
/// reported, and the legacy backend is tried unless the variable `BAH_BACKEND_STRICT` forbids it.
pub open spec fn follows_failure(
    config: Config,
    args: Args,
    options: Seq<Seq<char>>,
    strict: Option<Seq<char>>,
    error: Seq<char>,
    step: BackendStep,
) -> bool {
    let report = backend_failure(
        config,
        error,
        args.op@,
        debug_list(options),
        debug_list(texts(args.targets@)),
    );
    match step {
        BackendStep::Legacy(notice) => !is_strict(strict) && notice@ == report + painted(
            config.color.warning,
            "::"@,
        ) + " falling back to legacy pacman backend\n"@,
        BackendStep::Failed { notice, error: e } => is_strict(strict) && notice@ == report && e@
            == error,
        _ => false,
    }
}

fn after_failure(
    config: &Config,
    args: &Args,
    options: &Vec<String>,
    strict: Option<&str>,
    error: &str,
) -> (r: BackendStep)
    ensures
        follows_failure(*config, *args, texts(options@), opt_str(strict), error@, r),
{
    let options = debug_text(options);
    let targets = debug_text(&args.targets);
    let mut notice = backend_report(
        config,
        error,
        args.op.as_str(),
        options.as_str(),
        targets.as_str(),
    );
    if allow_fallback(strict) {
        put(&mut notice, paint(config.color.warning, "::").as_str());
        put(&mut notice, " falling back to legacy pacman backend\n");
        BackendStep::Legacy(notice)
    } else {
        BackendStep::Failed { notice, error: error.to_owned() }
    }
}

/// What is done next for an operation. `options` are its options as text, `backend` and `strict`
/// the variables `BAH_BACKEND` and `BAH_BACKEND_STRICT`, and `ended` is what came of the ALPM
/// backend, once it has run.
///
/// The legacy backend runs what it is selected for, and always cleans the package cache: no
/// transaction is opened for that. Anything else goes to the ALPM backend. Its status is the
/// result; a failure is reported and, where that is allowed, the legacy backend is tried.
pub fn pacman(
    config: &Config,
    args: &Args,
    options: &Vec<String>,
    backend: Option<&str>,
    strict: Option<&str>,
    is_root: bool,
    ended: &Option<Result<Status, String>>,
) -> (r: BackendStep)
    ensures
        is_legacy(*args, opt_str(backend)) ==> (r matches BackendStep::Legacy(notice) && notice@
            == ""@),
        !is_legacy(*args, opt_str(backend)) ==> match *ended {
            None => {
                let by_helper = config.need_root && !is_root;
                match operation_of(args.op@) {
                    Some(op) => if by_helper {
                        r matches BackendStep::Helper(plan) && plans(
                            *args,
                            config.no_confirm,
                            plan,
                        )
                    } else {
                        r == BackendStep::Here(op)
                    },
                    None => follows_failure(
                        *config,
                        *args,
                        texts(options@),
                        opt_str(strict),
                        if by_helper {
                            "ALPM helper plan unsupported op '"@ + args.op@ + "'"@
                        } else {
                            "ALPM backend currently supports sync/remove/upgrade operations"@
                        },
                        r,
                    ),
                }
            },
            Some(Ok(status)) => r == BackendStep::Done(status),
            Some(Err(error)) => follows_failure(
                *config,
                *args,
                texts(options@),
                opt_str(strict),
                error@,
                r,
            ),
        },
{
    if selected_backend(backend) == BackendKind::LegacyPacman || is_cache_cleaning(args) {
        return BackendStep::Legacy("".to_owned());
    }
    match ended {
        Some(Ok(status)) => BackendStep::Done(*status),
        Some(Err(error)) => after_failure(config, args, options, strict, error.as_str()),
        None => match AlpmBackend.pacman(config, args, is_root) {
            Ok(Route::Helper(plan)) => BackendStep::Helper(plan),
            Ok(Route::Here(op)) => BackendStep::Here(op),
            Ok(Route::Legacy) => BackendStep::Legacy("".to_owned()),
            Err(error) => after_failure(config, args, options, strict, error.as_str()),
        },
    }
}

} // verus!
