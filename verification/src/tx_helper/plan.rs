//! The plan of a transaction, and what a plan must not hold.

#[allow(unused_imports)]
use crate::number::decimal;
use crate::number::decimal_text;
use crate::text::{chars_of, contains, is_control_char, put, same, split_at_char, starts_with};
#[allow(unused_imports)]
use crate::text::{is_control, mentions, split_char, texts};
use vstd::prelude::*;
#[allow(unused_imports)]
use vstd::utf8::encode_utf8;

verus! {

/// The most targets that a plan may name.
pub const MAX_TARGETS: usize = 4096;

/// The most bytes that a target may have.
pub const MAX_TARGET_LEN: usize = 4096;

/// What the helper is asked to do.
#[derive(Debug, Clone)]
pub enum TransactionPlan {
    Sync {
        targets: Vec<String>,
        refresh_count: u8,
        sysupgrade_count: u8,
        download_only: bool,
        nodeps_count: u8,
        needed: bool,
        db_only: bool,
        no_scriptlet: bool,
        overwrite: bool,
        print_only: bool,
        no_confirm: bool,
    },
    Remove {
        targets: Vec<String>,
        nodeps: bool,
        cascade: bool,
        no_save: bool,
        db_only: bool,
        no_scriptlet: bool,
        recursive_count: u8,
        unneeded: bool,
        print_only: bool,
        no_confirm: bool,
    },
    Upgrade {
        targets: Vec<String>,
        nodeps_count: u8,
        db_only: bool,
        download_only: bool,
        needed: bool,
        overwrite: bool,
        print_only: bool,
        no_confirm: bool,
    },
    SetInstallReason { reason: String, packages: Vec<String>, no_confirm: bool },
}

impl TransactionPlan {
    /// What the plan applies to: targets, or the packages whose reason is set.
    pub open spec fn subjects(&self) -> Seq<String> {
        match self {
            TransactionPlan::Sync { targets, .. } => targets@,
            TransactionPlan::Remove { targets, .. } => targets@,
            TransactionPlan::Upgrade { targets, .. } => targets@,
            TransactionPlan::SetInstallReason { packages, .. } => packages@,
        }
    }

    /// Whether the plan is carried out without questions.
    pub open spec fn unattended(&self) -> bool {
        match self {
            TransactionPlan::Sync { no_confirm, .. } => *no_confirm,
            TransactionPlan::Remove { no_confirm, .. } => *no_confirm,
            TransactionPlan::Upgrade { no_confirm, .. } => *no_confirm,
            TransactionPlan::SetInstallReason { no_confirm, .. } => *no_confirm,
        }
    }

    /// Whether the plan only shows what would be done.
    pub open spec fn only_shows(&self) -> bool {
        match self {
            TransactionPlan::Sync { print_only, .. } => *print_only,
            TransactionPlan::Remove { print_only, .. } => *print_only,
            TransactionPlan::Upgrade { print_only, .. } => *print_only,
            TransactionPlan::SetInstallReason { .. } => false,
        }
    }

    pub fn targets(&self) -> (r: &Vec<String>)
        ensures
            r@ == self.subjects(),
    {
        match self {
            TransactionPlan::Sync { targets, .. } => targets,
            TransactionPlan::Remove { targets, .. } => targets,
            TransactionPlan::Upgrade { targets, .. } => targets,
            TransactionPlan::SetInstallReason { packages, .. } => packages,
        }
    }

    pub fn no_confirm(&self) -> (r: bool)
        ensures
            r == self.unattended(),
    {
        match self {
            TransactionPlan::Sync { no_confirm, .. } => *no_confirm,
            TransactionPlan::Remove { no_confirm, .. } => *no_confirm,
            TransactionPlan::Upgrade { no_confirm, .. } => *no_confirm,
            TransactionPlan::SetInstallReason { no_confirm, .. } => *no_confirm,
        }
    }

    pub fn print_only(&self) -> (r: bool)
        ensures
            r == self.only_shows(),
    {
        match self {
            TransactionPlan::Sync { print_only, .. } => *print_only,
            TransactionPlan::Remove { print_only, .. } => *print_only,
            TransactionPlan::Upgrade { print_only, .. } => *print_only,
            TransactionPlan::SetInstallReason { .. } => false,
        }
    }
}

/// Why a plan is refused. The number in a variant is the place of the target at fault.
#[derive(Debug, Clone, Copy, PartialEq, Eq, Structural)]
pub enum PlanError {
    TooManyTargets,
    TargetTooLong(usize),
    ControlCharacter(usize),
    DotDot(usize),
    RelativePath(usize),
    ParentInPath(usize),
    UnsupportedReason,
}

/// Whether a text holds a control character.
pub open spec fn has_control(s: Seq<char>) -> bool {
    exists|i: int| 0 <= i < s.len() && is_control(#[trigger] s[i])
}

/// What is wrong with one target.
pub open spec fn target_fault(t: Seq<char>, at: int) -> Option<PlanError> {
    if encode_utf8(t).len() > MAX_TARGET_LEN {
        Some(PlanError::TargetTooLong(at as usize))
    } else if has_control(t) {
        Some(PlanError::ControlCharacter(at as usize))
    } else if mentions(t, ".."@) {
        Some(PlanError::DotDot(at as usize))
    } else {
        None
    }
}

/// What is wrong with the path of a package file.
pub open spec fn path_fault(p: Seq<char>, at: int) -> Option<PlanError> {
    if !"/"@.is_prefix_of(p) {
        Some(PlanError::RelativePath(at as usize))
    } else if split_char(p, '/').contains(".."@) {
        Some(PlanError::ParentInPath(at as usize))
    } else {
        None
    }
}

/// The fault of one target, as a target or as a path.
pub open spec fn fault_at(targets: Seq<String>, paths: bool, at: int) -> Option<PlanError> {
    if paths {
        path_fault(targets[at]@, at)
    } else {
        target_fault(targets[at]@, at)
    }
}

/// The first fault among the targets from `at` on.
pub open spec fn first_fault(targets: Seq<String>, paths: bool, at: int) -> Option<PlanError>
    decreases targets.len() - at,
{
    if at < 0 || at >= targets.len() {
        None
    } else if fault_at(targets, paths, at) is Some {
        fault_at(targets, paths, at)
    } else {
        first_fault(targets, paths, at + 1)
    }
}

/// What is wrong with a list of targets.
pub open spec fn targets_fault(targets: Seq<String>) -> Option<PlanError> {
    if targets.len() > MAX_TARGETS {
        Some(PlanError::TooManyTargets)
    } else {
        first_fault(targets, false, 0)
    }
}

/// What is wrong with a plan.
pub open spec fn plan_fault(plan: TransactionPlan) -> Option<PlanError> {
    match plan {
        TransactionPlan::SetInstallReason { reason, packages, .. } => if reason@ != "asdeps"@
            && reason@ != "asexplicit"@ {
            Some(PlanError::UnsupportedReason)
        } else {
            targets_fault(packages@)
        },
        TransactionPlan::Upgrade { targets, .. } => if targets_fault(targets@) is Some {
            targets_fault(targets@)
        } else {
            first_fault(targets@, true, 0)
        },
        _ => targets_fault(plan.subjects()),
    }
}

fn find_control(s: &str) -> (r: bool)
    ensures
        r == has_control(s@),
{
    let v = chars_of(s);
    let mut i: usize = 0;
    while i < v.len()
        invariant
            i <= v.len(),
            v@ == s@,
            forall|k: int| 0 <= k < i ==> !is_control(#[trigger] s@[k]),
        decreases v.len() - i,
    {
        if is_control_char(v[i]) {
            assert(is_control(s@[i as int]));
            return true;
        }
        i += 1;
    }
    false
}

/// Whether one of the parts is `..`.
fn holds_parent(parts: &Vec<String>) -> (r: bool)
    ensures
        r == texts(parts@).contains(".."@),
{
    let mut i: usize = 0;
    while i < parts.len()
        invariant
            i <= parts.len(),
            forall|k: int| 0 <= k < i ==> #[trigger] parts@[k]@ != ".."@,
        decreases parts.len() - i,
    {
        if same(parts[i].as_str(), "..") {
            assert(texts(parts@)[i as int] == ".."@);
            return true;
        }
        i += 1;
    }
    assert forall|k: int| 0 <= k < texts(parts@).len() implies texts(parts@)[k] != ".."@ by {
        assert(parts@[k]@ != ".."@);
    }
    false
}

/// Checks the path of a package file: it has to be absolute, and no part of it may be `..`.
pub fn validate_upgrade_pkg_path(p: &str, at: usize) -> (r: Option<PlanError>)
    ensures
        r == path_fault(p@, at as int),
{
    if !starts_with(p, "/") {
        return Some(PlanError::RelativePath(at));
    }
    let parts = split_at_char(p, '/');
    if holds_parent(&parts) {
        return Some(PlanError::ParentInPath(at));
    }
    None
}

fn validate_target(t: &str, at: usize) -> (r: Option<PlanError>)
    ensures
        r == target_fault(t@, at as int),
{
    if t.as_bytes().len() > MAX_TARGET_LEN {
        return Some(PlanError::TargetTooLong(at));
    }
    if find_control(t) {
        return Some(PlanError::ControlCharacter(at));
    }
    if contains(t, "..") {
        return Some(PlanError::DotDot(at));
    }
    None
}

fn validate_each(targets: &Vec<String>, paths: bool) -> (r: Option<PlanError>)
    ensures
        r == first_fault(targets@, paths, 0),
{
    let mut i: usize = 0;
    while i < targets.len()
        invariant
            i <= targets.len(),
            first_fault(targets@, paths, 0) == first_fault(targets@, paths, i as int),
        decreases targets.len() - i,
    {
        let fault = if paths {
            validate_upgrade_pkg_path(targets[i].as_str(), i)
        } else {
            validate_target(targets[i].as_str(), i)
        };
        if fault.is_some() {
            return fault;
        }
        i += 1;
    }
    None
}

fn validate_targets(targets: &Vec<String>) -> (r: Option<PlanError>)
    ensures
        r == targets_fault(targets@),
{
    if targets.len() > MAX_TARGETS {
        return Some(PlanError::TooManyTargets);
    }
    validate_each(targets, false)
}

/// Checks a plan before it is carried out.
pub fn validate_plan(plan: &TransactionPlan) -> (r: Result<(), PlanError>)
    ensures
        match r {
            Ok(_) => plan_fault(*plan) is None,
            Err(e) => plan_fault(*plan) == Some(e),
        },
{
    let fault = match plan {
        TransactionPlan::SetInstallReason { reason, packages, .. } => {
            if !same(reason.as_str(), "asdeps") && !same(reason.as_str(), "asexplicit") {
                Some(PlanError::UnsupportedReason)
            } else {
                validate_targets(packages)
            }
        },
        TransactionPlan::Upgrade { targets, .. } => {
            let fault = validate_targets(targets);
            if fault.is_some() {
                fault
            } else {
                validate_each(targets, true)
            }
        },
        _ => validate_targets(plan.targets()),
    };
    match fault {
        Some(e) => Err(e),
        None => Ok(()),
    }
}

/// The text of a refusal.
pub open spec fn plan_error_text(plan: TransactionPlan, e: PlanError) -> Seq<char> {
    match e {
        PlanError::TooManyTargets => "transaction plan has too many targets ("@ + decimal(
            plan.subjects().len(),
        ) + " > "@ + decimal(MAX_TARGETS as nat) + ")"@,
        PlanError::TargetTooLong(_) => "target too long (>"@ + decimal(MAX_TARGET_LEN as nat)
            + " bytes)"@,
        PlanError::ControlCharacter(_) => "target contains forbidden control characters"@,
        PlanError::DotDot(_) => "target must not contain '..'"@,
        PlanError::RelativePath(i) => "local package path must be absolute (got "@
            + plan.subjects()[i as int]@ + ")"@,
        PlanError::ParentInPath(_) => "local package path must not contain '..'"@,
        PlanError::UnsupportedReason => match plan {
            TransactionPlan::SetInstallReason { reason, .. } => "unsupported install reason '"@
                + reason@ + "'"@,
            _ => "unsupported install reason"@,
        },
    }
}

impl PlanError {
    /// The text of the refusal of `plan`.
    pub fn message(&self, plan: &TransactionPlan) -> (r: String)
        requires
            *self matches PlanError::RelativePath(i) ==> i < plan.subjects().len(),
        ensures
            r@ == plan_error_text(*plan, *self),
    {
        match self {
            PlanError::TooManyTargets => {
                let mut out = "transaction plan has too many targets (".to_owned();
                put(&mut out, decimal_text(plan.targets().len() as u128).as_str());
                put(&mut out, " > ");
                put(&mut out, decimal_text(MAX_TARGETS as u128).as_str());
                put(&mut out, ")");
                out
            },
            PlanError::TargetTooLong(_) => {
                let mut out = "target too long (>".to_owned();
                put(&mut out, decimal_text(MAX_TARGET_LEN as u128).as_str());
                put(&mut out, " bytes)");
                out
            },
            PlanError::ControlCharacter(_) => "target contains forbidden control characters".to_owned(),
            PlanError::DotDot(_) => "target must not contain '..'".to_owned(),
            PlanError::RelativePath(i) => {
                let mut out = "local package path must be absolute (got ".to_owned();
                put(&mut out, plan.targets()[*i].as_str());
                put(&mut out, ")");
                out
            },
            PlanError::ParentInPath(_) => "local package path must not contain '..'".to_owned(),
            PlanError::UnsupportedReason => match plan {
                TransactionPlan::SetInstallReason { reason, .. } => {
                    let mut out = "unsupported install reason '".to_owned();
                    put(&mut out, reason.as_str());
                    put(&mut out, "'");
                    out
                },
                _ => "unsupported install reason".to_owned(),
            },
        }
    }
}

proof fn lemma_no_fault(targets: Seq<String>, paths: bool, at: int, i: int)
    requires
        first_fault(targets, paths, at) is None,
        0 <= at <= i < targets.len(),
    ensures
        fault_at(targets, paths, i) is None,
    decreases i - at,
{
    if at < i {
        lemma_no_fault(targets, paths, at + 1, i);
    }
}

/// A plan that passes has few enough targets, and each of them is short, holds no control
/// character and no `..`; the package files of an upgrade are absolute paths.
pub proof fn accepted_plan_is_safe(plan: TransactionPlan)
    requires
        plan_fault(plan) is None,
    ensures
        plan.subjects().len() <= MAX_TARGETS,
        forall|i: int|
            0 <= i < plan.subjects().len() ==> {
                let t = #[trigger] plan.subjects()[i]@;
                &&& encode_utf8(t).len() <= MAX_TARGET_LEN
                &&& !has_control(t)
                &&& !mentions(t, ".."@)
                &&& plan is Upgrade ==> "/"@.is_prefix_of(t) && !split_char(t, '/').contains(".."@)
            },
        plan matches TransactionPlan::SetInstallReason { reason, .. } ==> reason@ == "asdeps"@
            || reason@ == "asexplicit"@,
{
    let all = plan.subjects();
    assert forall|i: int| 0 <= i < all.len() implies {
        let t = #[trigger] all[i]@;
        &&& encode_utf8(t).len() <= MAX_TARGET_LEN
        &&& !has_control(t)
        &&& !mentions(t, ".."@)
        &&& plan is Upgrade ==> "/"@.is_prefix_of(t) && !split_char(t, '/').contains(".."@)
    } by {
        lemma_no_fault(all, false, 0, i);
        if plan is Upgrade {
            lemma_no_fault(all, true, 0, i);
        }
    }
}

} // verus!
