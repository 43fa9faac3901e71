//! What the helper and its parent do about plans, questions, reports, locks and signals.

#[allow(unused_imports)]
use crate::backend::alpm::event_line;
#[allow(unused_imports)]
use crate::config::Config;
#[allow(unused_imports)]
use crate::exec::Status;
#[allow(unused_imports)]
use crate::laws::transactions::lemma_joined_mentions;
#[allow(unused_imports)]
use crate::number::decimal_int;
#[allow(unused_imports)]
use crate::style::{heading, is_plain, Colors};
#[allow(unused_imports)]
use crate::text::{is_control, joined, mentions, occurs_at, opt_text, split_char, texts};
#[allow(unused_imports)]
use crate::tx_helper::environment::{is_unsafe_var, signal_step};
#[allow(unused_imports)]
use crate::tx_helper::events::{
    cleaned, event_words, handles_question, hooks_after, lemma_encoded_push, level_tag,
    question_words, reacts, reports_download, reports_install, set_value, settled, shown_log_line,
    DownloadEvent, HelperEvent, LogLevels, ProgressKind, QuestionStep, Reaction, TxQuestion,
};
#[allow(unused_imports)]
use crate::tx_helper::ipc::{meaning, HelperToParent, ParentToHelper, Reply, Wait};
#[allow(unused_imports)]
use crate::tx_helper::lock::{
    lock_failure, lock_next, lock_phase_after, lock_prompt, LockFact, LockPhase,
};
#[allow(unused_imports)]
use crate::tx_helper::parent::{
    ends_so, exit_wait, helper_command, plain_step, signal_reaction, ExitWait, HelperEnd,
    ParentStep,
};
#[allow(unused_imports)]
use crate::tx_helper::plan::{first_fault, plan_error_text, plan_fault, PlanError, TransactionPlan};
use vstd::prelude::*;
#[allow(unused_imports)]
use vstd::utf8::encode_utf8;

verus! {

/// Whether a target is harmless: at most 4096 bytes, no control character, and no two dots in a row.
pub open spec fn is_harmless(t: Seq<char>) -> bool {
    &&& encode_utf8(t).len() <= 4096
    &&& forall|i: int| 0 <= i < t.len() ==> !is_control(#[trigger] t[i])
    &&& forall|i: int| 0 <= i < t.len() - 1 ==> !(#[trigger] t[i] == '.' && t[i + 1] == '.')
}

proof fn lemma_dots(t: Seq<char>)
    ensures
        mentions(t, ".."@) <==> exists|i: int|
            0 <= i < t.len() - 1 && #[trigger] t[i] == '.' && t[i + 1] == '.',
{
    reveal_strlit("..");
    if mentions(t, ".."@) {
        let i = choose|i: int| occurs_at(t, ".."@, i);
        assert(t.subrange(i, i + 2)[0] == t[i]);
        assert(t.subrange(i, i + 2)[1] == t[i + 1]);
        assert(t[i] == '.' && t[i + 1] == '.');
    }
    if exists|i: int| 0 <= i < t.len() - 1 && #[trigger] t[i] == '.' && t[i + 1] == '.' {
        let i = choose|i: int| 0 <= i < t.len() - 1 && #[trigger] t[i] == '.' && t[i + 1] == '.';
        assert(t.subrange(i, i + 2) =~= ".."@);
        assert(occurs_at(t, ".."@, i));
    }
}

proof fn lemma_first_fault(targets: Seq<String>, paths: bool, at: int)
    requires
        0 <= at <= targets.len(),
    ensures
        first_fault(targets, paths, at) is None <==> forall|i: int|
            at <= i < targets.len() ==> #[trigger] crate::tx_helper::plan::fault_at(targets, paths, i) is None,
    decreases targets.len() - at,
{
    if at < targets.len() {
        lemma_first_fault(targets, paths, at + 1);
        if first_fault(targets, paths, at) is None {
            assert forall|i: int| at <= i < targets.len() implies #[trigger] crate::tx_helper::plan::fault_at(
                targets,
                paths,
                i,
            ) is None by {
                if i == at {
                    assert(crate::tx_helper::plan::fault_at(targets, paths, at) is None);
                }
            }
        }
    }
}

proof fn lemma_part_mentions(s: Seq<char>, c: char, k: int)
    requires
        0 <= k < split_char(s, c).len(),
    ensures
        exists|i: int|
            0 <= i && i + split_char(s, c)[k].len() <= s.len() && #[trigger] s.subrange(
                i,
                i + split_char(s, c)[k].len(),
            ) == split_char(s, c)[k],
    decreases s.len(),
{
    let n = crate::text::leading(s, crate::text::Run::Except(c));
    crate::text::lemma_leading(s, crate::text::Run::Except(c));
    let parts = split_char(s, c);
    if n < s.len() {
        let rest = s.skip(n + 1);
        if k == 0 {
            assert(s.subrange(0int, 0int + parts[0].len()) =~= parts[0]);
        } else {
            lemma_part_mentions(rest, c, k - 1);
            let more = split_char(rest, c);
            assert(parts[k] == more[k - 1]);
            let i = choose|i: int|
                0 <= i && i + more[k - 1].len() <= rest.len() && #[trigger] rest.subrange(
                    i,
                    i + more[k - 1].len(),
                ) == more[k - 1];
            let j = n + 1 + i;
            assert(s.subrange(j, j + parts[k].len()) =~= rest.subrange(i, i + more[k - 1].len()));
        }
    } else {
        assert(s.subrange(0int, 0int + parts[0].len()) =~= parts[0]);
    }
}

/// A plan is accepted if and only if it has at most 4096 targets, all of them are harmless, those of
/// an upgrade are absolute paths, and a reason that it sets is one of the two that there are.
pub proof fn exactly_the_harmless_plans_are_accepted(plan: TransactionPlan)
    ensures
        plan_fault(plan) is None <==> {
            &&& plan.subjects().len() <= 4096
            &&& forall|i: int|
                0 <= i < plan.subjects().len() ==> is_harmless((#[trigger] plan.subjects()[i])@)
            &&& plan is Upgrade ==> forall|i: int|
                0 <= i < plan.subjects().len() ==> (#[trigger] plan.subjects()[i])@.len() > 0
                    && plan.subjects()[i]@[0] == '/'
            &&& plan matches TransactionPlan::SetInstallReason { reason, .. } ==> reason@
                == "asdeps"@ || reason@ == "asexplicit"@
        },
{
    reveal_strlit("/");
    reveal_strlit("..");
    let all = plan.subjects();
    lemma_first_fault(all, false, 0);
    lemma_first_fault(all, true, 0);
    assert forall|i: int| 0 <= i < all.len() implies ({
        let t = (#[trigger] all[i])@;
        &&& crate::tx_helper::plan::fault_at(all, false, i) is None <==> is_harmless(t)
        &&& is_harmless(t) ==> (crate::tx_helper::plan::fault_at(all, true, i) is None <==> t.len()
            > 0 && t[0] == '/')
    }) by {
        let t = all[i]@;
        lemma_dots(t);
        if is_harmless(t) {
            assert(!mentions(t, ".."@));
            assert("/"@.is_prefix_of(t) <==> t.len() > 0 && t[0] == '/') by {
                if t.len() > 0 && t[0] == '/' {
                    assert(t.subrange(0, 1) =~= "/"@);
                }
                if "/"@.is_prefix_of(t) {
                    assert(t.subrange(0, 1)[0] == t[0]);
                }
            }
            assert(!split_char(t, '/').contains(".."@)) by {
                if split_char(t, '/').contains(".."@) {
                    let k = choose|k: int|
                        0 <= k < split_char(t, '/').len() && split_char(t, '/')[k] == ".."@;
                    lemma_part_mentions(t, '/', k);
                    let j = choose|j: int|
                        0 <= j && j + 2 <= t.len() && #[trigger] t.subrange(j, j + 2) == ".."@;
                    assert(occurs_at(t, ".."@, j));
                }
            }
        }
    }
    if plan_fault(plan) is None {
        assert forall|i: int| 0 <= i < all.len() implies is_harmless((#[trigger] all[i])@) by {
            assert(crate::tx_helper::plan::fault_at(all, false, i) is None);
        }
        if plan is Upgrade {
            assert forall|i: int| 0 <= i < all.len() implies (#[trigger] all[i])@.len() > 0
                && all[i]@[0] == '/' by {
                assert(crate::tx_helper::plan::fault_at(all, true, i) is None);
            }
        }
    }
}

/// A variable is taken out of the environment if and only if it says where programs load code from.
pub proof fn loader_variables_are_unsafe(rest: Seq<char>)
    ensures
        is_unsafe_var("LD_"@ + rest),
        is_unsafe_var("DYLD_"@ + rest),
        is_unsafe_var("PERL5LIB"@),
        is_unsafe_var("PYTHONPATH"@),
        is_unsafe_var("RUBYLIB"@),
        is_unsafe_var("NODE_PATH"@),
        !is_unsafe_var("PATH"@),
        !is_unsafe_var("HOME"@),
{
    assert(("LD_"@ + rest).subrange(0, "LD_"@.len() as int) =~= "LD_"@);
    assert(("DYLD_"@ + rest).subrange(0, "DYLD_"@.len() as int) =~= "DYLD_"@);
    reveal_strlit("PATH");
    reveal_strlit("HOME");
    reveal_strlit("LD_");
    reveal_strlit("DYLD_");
    reveal_strlit("PERL5LIB");
    reveal_strlit("PYTHONPATH");
    reveal_strlit("RUBYLIB");
    reveal_strlit("NODE_PATH");
    assert("PATH"@.subrange(0, 3)[0] == 'P');
    assert("HOME"@.subrange(0, 3)[0] == 'H');
    assert("LD_"@[0] == 'L');
    assert("PATH"@.len() == 4 && "HOME"@.len() == 4 && "DYLD_"@.len() == 5 && "PERL5LIB"@.len() == 8
        && "PYTHONPATH"@.len() == 10 && "RUBYLIB"@.len() == 7 && "NODE_PATH"@.len() == 9);
}

/// While a commit is protected, no signal does anything. Otherwise a transaction is asked to stop
/// before the helper itself leaves, and it leaves only once.
pub proof fn commits_are_protected_from_signals(transaction: bool, leaving: bool)
    ensures
        signal_step(false, transaction, leaving) is Ignore,
        signal_step(true, true, leaving) is InterruptTransaction,
        signal_step(true, false, leaving) is Leave <==> !leaving,
        !(signal_step(true, false, leaving) is Ignore),
{
}

/// The first signal is passed on to the helper, and no other.
pub proof fn the_first_signal_is_passed_on(caught: usize, sent: bool)
    ensures
        signal_reaction(caught, sent) is PassOn <==> caught > 0 && !sent,
        signal_reaction(caught, sent) is Watch <==> caught == 0,
{
}

/// A helper that has ended is not killed, and one that has not is killed only once its time is up.
pub proof fn helpers_are_given_their_time(
    exited: Option<Option<i32>>,
    now: u128,
    deadline: u128,
)
    ensures
        exit_wait(exited, now, deadline) is Kill <==> exited is None && now >= deadline,
        exit_wait(exited, now, deadline) is Ended <==> exited is Some,
        exited matches Some(Some(code)) ==> exit_wait(exited, now, deadline) == ExitWait::Ended(
            Status(code),
        ),
{
}

/// A helper that ends without a result is never taken for a success: the operation was interrupted,
/// or it failed with the helper's exit code in the report.
pub proof fn silence_is_no_success(interrupted: bool, status: Status, end: HelperEnd)
    requires
        ends_so(None, interrupted, status, end),
    ensures
        !(end is Status),
        end is Interrupted <==> interrupted,
        end matches HelperEnd::Failed(text) ==> mentions(text@, decimal_int(status.0 as int)),
{
    match end {
        HelperEnd::Failed(text) => {
            let d = decimal_int(status.0 as int);
            let at = "transaction helper terminated before sending a result (status "@.len() as int;
            assert(text@.subrange(at, at + d.len()) =~= d);
            assert(occurs_at(text@, d, at));
        },
        _ => {},
    }
}

/// A question of the helper reaches the user with its words and its default, under its number; no
/// other message asks anything.
pub proof fn questions_reach_the_user(config: Config, m: HelperToParent, step: ParentStep)
    requires
        plain_step(config, m, step),
    ensures
        step is Ask <==> m is Question,
        m matches HelperToParent::Question { id, prompt, default_yes } ==> (
        step matches ParentStep::Ask { id: i, prompt: p, default_yes: d } && i == id && p@
            == prompt@ && d == default_yes),
        step is Stop ==> m is Result,
        step is Fail <==> m is Error,
        m matches HelperToParent::Event { message } ==> (step matches ParentStep::Print(t)
            && message@.is_prefix_of(t@)),
{
    match (m, step) {
        (HelperToParent::Event { message }, ParentStep::Print(t)) => {
            assert(t@.subrange(0, message@.len() as int) =~= message@);
        },
        _ => {},
    }
}

/// A question names what it is about: the ignored package, the packages that replace each other and
/// where the new one comes from, the package that is removed for a conflict, the damaged file,
/// each of the packages that are removed, or the key and its owner. Only the choice of a provider
/// is not put to the user.
pub proof fn questions_name_what_they_are_about(q: TxQuestion)
    ensures
        question_words(q) is None <==> q is SelectProvider,
        q matches TxQuestion::InstallIgnored { pkg } ==> mentions(question_words(q)->0, pkg@),
        q matches TxQuestion::Replace { old, new, db } ==> mentions(question_words(q)->0, old@)
            && mentions(question_words(q)->0, new@) && mentions(question_words(q)->0, db@),
        q matches TxQuestion::Conflict { package2 } ==> mentions(question_words(q)->0, package2@),
        q matches TxQuestion::Corrupted { filepath } ==> mentions(question_words(q)->0, filepath@),
        q matches TxQuestion::RemovePkgs { packages } ==> forall|i: int|
            0 <= i < packages@.len() ==> mentions(question_words(q)->0, (#[trigger] packages@[i])@),
        q matches TxQuestion::ImportKey { fingerprint, uid } ==> mentions(
            question_words(q)->0,
            fingerprint@,
        ) && mentions(question_words(q)->0, uid@),
{
    match q {
        TxQuestion::InstallIgnored { pkg } => {
            lemma_within("Install ignored package '"@, pkg@, "'?"@);
        },
        TxQuestion::Replace { old, new, db } => {
            let w = question_words(q)->0;
            let a = "Replace '"@;
            let b = "' with '"@;
            let c = "' from '"@;
            let d = "'?"@;
            lemma_within(a, old@, b + new@ + c + db@ + d);
            lemma_within(a + old@ + b, new@, c + db@ + d);
            lemma_within(a + old@ + b + new@ + c, db@, d);
            assert(w =~= a + old@ + (b + new@ + c + db@ + d));
            assert(w =~= (a + old@ + b) + new@ + (c + db@ + d));
            assert(w =~= (a + old@ + b + new@ + c) + db@ + d);
        },
        TxQuestion::Conflict { package2 } => {
            lemma_within("Resolve conflict by removing '"@, package2@, "' ?"@);
        },
        TxQuestion::Corrupted { filepath } => {
            lemma_within("Corrupted package '"@, filepath@, "'. Remove from cache?"@);
        },
        TxQuestion::RemovePkgs { packages } => {
            let names = texts(packages@);
            let all = joined(names, ", "@);
            let w = question_words(q)->0;
            let h = "Remove packages: "@;
            assert forall|i: int| 0 <= i < packages@.len() implies mentions(
                w,
                (#[trigger] packages@[i])@,
            ) by {
                assert(names[i] == packages@[i]@);
                lemma_joined_mentions(names, ", "@, i);
                let k = choose|k: int| occurs_at(all, names[i], k);
                let at = h.len() + k;
                assert(w.subrange(at, at + names[i].len()) =~= all.subrange(k, k + names[i].len()));
                assert(occurs_at(w, names[i], at));
            }
        },
        TxQuestion::ImportKey { fingerprint, uid } => {
            let w = question_words(q)->0;
            let a = "Import key '"@;
            let b = "' ("@;
            let c = ")?"@;
            lemma_within(a, fingerprint@, b + uid@ + c);
            lemma_within(a + fingerprint@ + b, uid@, c);
            assert(w =~= a + fingerprint@ + (b + uid@ + c));
            assert(w =~= (a + fingerprint@ + b) + uid@ + c);
        },
        TxQuestion::SelectProvider => {},
    }
}

/// A text between two others occurs in the whole.
pub proof fn lemma_within(a: Seq<char>, b: Seq<char>, c: Seq<char>)
    ensures
        mentions(a + b + c, b),
{
    let s = a + b + c;
    let at = a.len() as int;
    assert(s.subrange(at, at + b.len()) =~= b);
    assert(occurs_at(s, b, at));
}

/// Where nobody is asked, nothing is asked, and every question is answered by yes, but a conflict by
/// no. Otherwise every question is put to the user with yes as its default, each under a number of
/// its own; only a provider is taken without asking.
pub proof fn questions_are_asked_or_answered(
    q: TxQuestion,
    no_confirm: bool,
    id: u64,
    next_id: u64,
    r: QuestionStep,
)
    requires
        handles_question(q, no_confirm, id, next_id, r),
        id < u64::MAX,
    ensures
        r is FirstProvider <==> q is SelectProvider,
        no_confirm ==> !(r is Ask) && next_id == id,
        r matches QuestionStep::Decided(yes) ==> no_confirm && (yes <==> !(q is Conflict)),
        !no_confirm && !(q is SelectProvider) ==> (r matches QuestionStep::Ask(m, d) && d && next_id
            == id + 1 && (m matches HelperToParent::Question { id: i, default_yes, .. } && i == id
            && default_yes)),
{
    questions_name_what_they_are_about(q);
}

/// An answer that came is taken; without one, or where the question could not be sent, the default
/// stands.
pub proof fn answers_are_taken_as_they_come(yes: bool, default_yes: bool, answer: Option<bool>)
    ensures
        settled(true, Some(yes), default_yes) == yes,
        settled(true, None, default_yes) == default_yes,
        settled(false, answer, default_yes) == default_yes,
{
}

/// A yes does what is asked: it installs, replaces, removes, imports, and skips nothing; a no to the
/// removal of packages skips them.
pub proof fn a_yes_does_what_is_asked(q: TxQuestion)
    ensures
        q is RemovePkgs ==> !set_value(q, true) && set_value(q, false),
        !(q is RemovePkgs) ==> set_value(q, true) && !set_value(q, false),
{
}

/// A report on a package says how far it is, and is told apart: a removal is a removal, and an
/// installation or upgrade is none. What is done is always reported.
pub proof fn progress_is_reported_as_it_is(
    kind: ProgressKind,
    name: Seq<char>,
    percent: i32,
    howmany: usize,
    current: usize,
    now: u128,
    before: Map<Seq<char>, u128>,
    after: Map<Seq<char>, u128>,
    r: Option<HelperToParent>,
)
    requires
        reports_install(kind, name, percent, howmany, current, now, before, after, r),
    ensures
        kind == ProgressKind::Other ==> r is None,
        kind != ProgressKind::Other && percent >= 100 ==> r is Some,
        kind != ProgressKind::Other && !before.contains_key(name) ==> r is Some,
        r matches Some(m) ==> (m matches HelperToParent::InstallProgress {
            package,
            percent: p,
            current: c,
            total,
            removing,
        } && package@ == name && c == current && total == howmany && (removing <==> kind
            == ProgressKind::Remove) && p <= 100 && (0 <= percent <= 100 ==> p == percent)),
{
}

/// A download is reported under its own name with what was downloaded of it; its end is reported as
/// complete, its failure as a warning with its name, and signatures not at all.
pub proof fn downloads_are_reported_as_they_are(
    name: Seq<char>,
    event: DownloadEvent,
    now: u128,
    before: Map<Seq<char>, u128>,
    after: Map<Seq<char>, u128>,
    r: Option<HelperToParent>,
)
    requires
        reports_download(name, event, now, before, after, r),
    ensures
        ".sig"@.is_suffix_of(name) ==> r is None,
        !".sig"@.is_suffix_of(name) ==> match event {
            DownloadEvent::Progress { downloaded, total } => {
                &&& 0 < total <= downloaded ==> r is Some
                &&& total <= 0 ==> r is None
                &&& 0 <= downloaded ==> (r matches Some(m) ==> (
                m matches HelperToParent::DownloadProgress { package, downloaded: d, total: t }
                    && package@ == name && d == downloaded && t == total))
            },
            DownloadEvent::Completed { total, failed } => {
                &&& failed ==> (r matches Some(HelperToParent::LogLine { level, message })
                    && level@ == "warning"@ && mentions(message@, name))
                &&& !failed && total > 0 ==> (r matches Some(
                    HelperToParent::DownloadProgress { package, downloaded: d, total: t },
                ) && package@ == name && d == total && t == total)
            },
            DownloadEvent::Other => r is None,
        },
{
    match (event, r) {
        (
            DownloadEvent::Completed { failed, .. },
            Some(HelperToParent::LogLine { level, message }),
        ) => {
            if failed && !".sig"@.is_suffix_of(name) {
                let at = "download failed for "@.len() as int;
                assert(message@.subrange(at, at + name.len()) =~= name);
                assert(occurs_at(message@, name, at));
            }
        },
        _ => {},
    }
}

/// A package that was installed, upgraded or removed is named, or its versions are, the old one
/// first.
pub proof fn finished_packages_are_named(name: String, before: String, after: String)
    ensures
        event_words(HelperEvent::Installed { name }) == Some("Installed "@ + name@),
        event_words(HelperEvent::Removed { name }) == Some("Removed "@ + name@),
        event_words(HelperEvent::Upgraded { old: before, new: after }) == Some(
            "Upgraded "@ + before@ + " -> "@ + after@,
        ),
{
}

/// A hook that starts is remembered as the last one, by its description or else its name, until
/// another starts; the hooks after a transaction are told of at their start and end, those before
/// it are not; and each step that ends is told of with its place.
pub proof fn hooks_are_followed(
    c: Colors,
    name: String,
    desc: Option<String>,
    position: usize,
    total: usize,
    last: Option<Seq<char>>,
    active: bool,
    started: Option<u128>,
    now: u128,
    post: bool,
    r: Reaction,
)
    ensures
        hooks_after(HelperEvent::HookRunStart { name, desc }, last, active, started, now).0
            == Some(
            match desc {
                Some(d) => d@,
                None => name@,
            },
        ),
        hooks_after(HelperEvent::HookStart { post }, last, active, started, now).0 == last,
        hooks_after(HelperEvent::HookDone { post }, last, active, started, now).0 == last,
        hooks_after(HelperEvent::HookStart { post: true }, last, active, started, now).1,
        !hooks_after(HelperEvent::HookDone { post: true }, last, active, started, now).1,
        hooks_after(HelperEvent::HookStart { post: false }, last, active, started, now) == (
            last,
            active,
            started,
        ),
        reacts(c, HelperEvent::HookStart { post }, r) ==> (r is Emit <==> post),
        reacts(c, HelperEvent::HookDone { post }, r) ==> (r is Emit <==> post),
        reacts(c, HelperEvent::HookRunDone { name, desc, position, total }, r) ==> (
        r matches Reaction::Emit(HelperToParent::HookStep { current, total: t, desc: d }) && current
            == position && t == total && (d@ == name@ || Some(d@) == opt_text(desc))),
{
}

/// What a scriptlet writes is written to the terminal line by line, and never sent as a message.
pub proof fn scriptlets_write_to_the_terminal(c: Colors, line: String, r: Reaction)
    requires
        reacts(c, HelperEvent::ScriptletInfo { line }, r),
    ensures
        !(r is Emit),
        line@.len() > 0 ==> (r matches Reaction::Print(text) && text@ == line@ + "\n"@),
{
}

/// The tag of a log line is that of its gravest level.
pub proof fn errors_outrank_warnings(level: LogLevels)
    ensures
        level.error <==> level_tag(level) == "error"@,
        !level.error ==> (level.warning <==> level_tag(level) == "warning"@),
{
    reveal_strlit("error");
    reveal_strlit("warning");
    reveal_strlit("debug");
    reveal_strlit("message");
    assert("error"@[0] == 'e' && "debug"@[0] == 'd');
    assert("warning"@[0] == 'w' && "message"@[0] == 'm');
    assert("error"@.len() == 5 && "warning"@.len() == 7 && "debug"@.len() == 5 && "message"@.len()
        == 7);
}

/// A recovery with a lock of a dead process and a user who agrees removes the lock, tells of it and
/// opens the database anew, without a failure.
pub proof fn an_agreed_recovery_opens_the_database_anew(facts: Seq<LockFact>, k: int)
    requires
        facts.len() == 7,
        0 <= k < 7,
        facts[0] matches LockFact::Present(text) && crate::tx_helper::lock::lock_pid(
            opt_text(text),
        ) is None,
        facts[1] == LockFact::Answer(true),
        forall|i: int| 2 <= i < 7 ==> #[trigger] facts[i] is Done,
    ensures
        lock_phase_after(false, facts, 1) is Ask,
        lock_phase_after(false, facts, 2) is Release,
        lock_phase_after(false, facts, 3) is Remove,
        lock_phase_after(false, facts, 4) is Announce,
        lock_phase_after(false, facts, 5) is Pause,
        lock_phase_after(false, facts, 6) is Reopen,
        lock_phase_after(false, facts, 7) is Finished,
        lock_failure(false, lock_phase_after(false, facts, k), facts[k]) is None,
{
    reveal_with_fuel(lock_phase_after, 8);
    assert(facts[2] is Done && facts[3] is Done && facts[4] is Done && facts[5] is Done && facts[6] is Done);
}

/// A lock whose process is alive is a failure that names the process; a no, and nobody to ask, are
/// failures too; none of them goes on.
pub proof fn locks_in_use_are_left_alone(no_confirm: bool, pid: i32, asked: Option<i32>)
    ensures
        lock_failure(no_confirm, LockPhase::Process(pid), LockFact::Alive(true)) matches Some(text)
            && mentions(text, decimal_int(pid as int)),
        lock_next(no_confirm, LockPhase::Process(pid), LockFact::Alive(true)) is Finished,
        lock_failure(no_confirm, LockPhase::Ask(asked), LockFact::Answer(false)) is Some,
        lock_next(no_confirm, LockPhase::Ask(asked), LockFact::Answer(false)) is Finished,
        lock_failure(true, LockPhase::Process(pid), LockFact::Alive(false)) is Some,
        lock_next(true, LockPhase::Process(pid), LockFact::Alive(false)) is Finished,
        lock_next(false, LockPhase::Process(pid), LockFact::Alive(false)) == LockPhase::Ask(
            Some(pid),
        ),
        lock_prompt(Some(pid)) != lock_prompt(None) ==> mentions(
            lock_prompt(Some(pid)),
            decimal_int(pid as int),
        ),
{
    let d = decimal_int(pid as int);
    lemma_within("Pacman is already in use by running process "@, d, " (db lock is active)"@);
    lemma_within("Stale pacman lock detected (PID "@, d, "). Remove it and retry?"@);
}

proof fn lemma_fault_found(targets: Seq<String>, paths: bool, at: int)
    requires
        0 <= at <= targets.len() <= usize::MAX,
        first_fault(targets, paths, at) is Some,
    ensures
        exists|i: int|
            at <= i < targets.len() && first_fault(targets, paths, at) == #[trigger]
                crate::tx_helper::plan::fault_at(targets, paths, i) && (forall|j: int|
                at <= j < i ==> #[trigger] crate::tx_helper::plan::fault_at(targets, paths, j) is None),
    decreases targets.len() - at,
{
    if crate::tx_helper::plan::fault_at(targets, paths, at) is None {
        lemma_fault_found(targets, paths, at + 1);
        let i = choose|i: int|
            at + 1 <= i < targets.len() && first_fault(targets, paths, at + 1) == #[trigger]
                crate::tx_helper::plan::fault_at(targets, paths, i) && (forall|j: int|
                at + 1 <= j < i ==> #[trigger] crate::tx_helper::plan::fault_at(targets, paths, j)
                    is None);
        assert(first_fault(targets, paths, at) == crate::tx_helper::plan::fault_at(targets, paths, i));
        assert forall|j: int| at <= j < i implies #[trigger] crate::tx_helper::plan::fault_at(
            targets,
            paths,
            j,
        ) is None by {
            if j > at {
                assert(crate::tx_helper::plan::fault_at(targets, paths, j) is None);
            }
        }
    }
}

/// A plan is refused for what is wrong with it: too many targets, or a target that is too long,
/// holds a control character or two dots in a row, or is no absolute path where it should be one.
/// The text of the refusal tells which path, or which reason, it is about.
pub proof fn refusals_tell_what_is_wrong(plan: TransactionPlan, i: usize)
    requires
        plan.subjects().len() <= usize::MAX,
        i < plan.subjects().len(),
    ensures
        plan_fault(plan) == Some(PlanError::TooManyTargets) ==> plan.subjects().len() > 4096,
        plan_fault(plan) == Some(PlanError::TargetTooLong(i)) ==> encode_utf8(
            plan.subjects()[i as int]@,
        ).len() > 4096,
        plan_fault(plan) == Some(PlanError::ControlCharacter(i)) ==> exists|k: int|
            0 <= k < plan.subjects()[i as int]@.len() && is_control(
                #[trigger] plan.subjects()[i as int]@[k],
            ),
        plan_fault(plan) == Some(PlanError::DotDot(i)) ==> mentions(
            plan.subjects()[i as int]@,
            ".."@,
        ),
        plan_fault(plan) == Some(PlanError::RelativePath(i)) ==> {
            &&& plan is Upgrade
            &&& !"/"@.is_prefix_of(plan.subjects()[i as int]@)
            &&& mentions(
                plan_error_text(plan, PlanError::RelativePath(i)),
                plan.subjects()[i as int]@,
            )
        },
        plan_fault(plan) is Some && plan_fault(plan)->0 is UnsupportedReason ==> {
            &&& plan is SetInstallReason
            &&& mentions(
                plan_error_text(plan, PlanError::UnsupportedReason),
                plan->SetInstallReason_reason@,
            )
        },
{
    let all = plan.subjects();
    if first_fault(all, false, 0) is Some {
        lemma_fault_found(all, false, 0);
    }
    if first_fault(all, true, 0) is Some {
        lemma_fault_found(all, true, 0);
    }
    lemma_within("local package path must be absolute (got "@, all[i as int]@, ")"@);
    match plan {
        TransactionPlan::SetInstallReason { reason, .. } => {
            lemma_within("unsupported install reason '"@, reason@, "'"@);
        },
        _ => {},
    }
}

/// Lines of the log are shown with their text, and errors, warnings and the rest with a mark each.
pub proof fn log_lines_are_shown(c: Colors, level: Seq<char>, message: Seq<char>)
    requires
        is_plain(c.error),
        is_plain(c.warning),
        is_plain(c.field),
    ensures
        level == "error"@ ==> shown_log_line(c, level, message) == "[X]"@ + " "@ + message,
        level == "warning"@ ==> shown_log_line(c, level, message) == "[!]"@ + " "@ + message,
        level != "error"@ && level != "warning"@ ==> shown_log_line(c, level, message) == "[·]"@
            + " "@ + message,
{
    reveal_strlit("error");
    reveal_strlit("warning");
    assert("error"@.len() != "warning"@.len());
    assert(shown_log_line(c, level, message) =~= shown_log_line(c, level, message));
    assert(crate::style::painted(c.error, "[X]"@) =~= "[X]"@);
    assert(crate::style::painted(c.warning, "[!]"@) =~= "[!]"@);
    assert(crate::style::painted(c.field, "[·]"@) =~= "[·]"@);
}

/// The helper is this program itself, started with its rights and told to be the helper.
pub proof fn the_helper_is_this_program(config: Config, exe: Seq<char>, k: int)
    ensures
        ({
            let command = helper_command(config, exe);
            let flags = texts(config.sudo_flags@);
            &&& command.len() == flags.len() + 2
            &&& 0 <= k < flags.len() ==> command[k] == flags[k]
            &&& command[flags.len() as int] == exe
            &&& command.last() == "--helper-transaction"@
        }),
{
}

/// Without colours the line of an event has its words behind a mark, and a second one where a
/// package is done with; an event without words has no line but for the start of hooks.
pub proof fn events_have_their_lines(c: Colors, e: HelperEvent)
    requires
        is_plain(c.action),
        is_plain(c.bold),
        is_plain(c.tx_install),
    ensures
        e is HookStart ==> event_line(c, e) == Some(":: Running hooks...\n"@),
        !(e is HookStart) ==> (event_line(c, e) is None <==> event_words(e) is None),
        e is Installed || e is Upgraded || e is Removed ==> (event_words(e) matches Some(words)
            && event_line(c, e) == Some(":: [OK] "@ + words + "\n"@)),
        !(e is HookStart || e is Installed || e is Upgraded || e is Removed) ==> (
        event_words(e) matches Some(words) ==> event_line(c, e) == Some(":: "@ + words + "\n"@)),
{
    reveal_strlit("::");
    reveal_strlit(" ");
    reveal_strlit(":: ");
    reveal_strlit("[OK]");
    reveal_strlit(":: [OK] ");
    reveal_strlit("Running hooks...");
    reveal_strlit(":: Running hooks...\n");
    reveal_strlit("\n");
    assert("::"@ + " "@ =~= ":: "@);
    assert("::"@ + " "@ + ("[OK]"@ + " "@) =~= ":: [OK] "@);
    match event_words(e) {
        Some(words) => {
            let ok = crate::style::painted(c.tx_install, "[OK]"@) + " "@;
            assert(heading(c, words) =~= ":: "@ + words);
            assert(heading(c, ok + words) =~= ":: [OK] "@ + words);
        },
        None => {},
    }
    assert(heading(c, "Running hooks..."@) + "\n"@ =~= ":: Running hooks...\n"@);
}

/// A lock that is gone needs no consent: the transaction is released and the database is opened anew
/// without a question and without a failure, whether or not there is something left to remove.
pub proof fn locks_that_are_gone_need_no_consent(no_confirm: bool, facts: Seq<LockFact>, k: int)
    requires
        facts.len() == 6,
        0 <= k < 6,
        facts[0] is Absent,
        facts[1] is Done,
        facts[2] is Done || facts[2] is Absent,
        facts[3] is Done,
        facts[4] is Done,
        facts[5] is Done,
    ensures
        lock_phase_after(no_confirm, facts, 1) is Release,
        lock_phase_after(no_confirm, facts, 2) is Remove,
        lock_phase_after(no_confirm, facts, 3) is Announce,
        lock_phase_after(no_confirm, facts, 4) is Pause,
        lock_phase_after(no_confirm, facts, 5) is Reopen,
        lock_phase_after(no_confirm, facts, 6) is Finished,
        lock_failure(no_confirm, lock_phase_after(no_confirm, facts, k), facts[k]) is None,
{
    reveal_with_fuel(lock_phase_after, 7);
}

/// Where a step of a recovery fails, the recovery ends with a failure: a lock that cannot be removed
/// is told of as such, anything else as it was told. A release and a pause do not fail.
pub proof fn failed_recoveries_are_reported(no_confirm: bool, phase: LockPhase, text: String)
    requires
        phase is Look || phase is Process || phase is Ask || phase is Remove || phase is Announce
            || phase is Reopen,
    ensures
        lock_next(no_confirm, phase, LockFact::Failed(text)) is Finished,
        lock_failure(no_confirm, phase, LockFact::Failed(text)) is Some,
        !(phase is Remove) ==> lock_failure(no_confirm, phase, LockFact::Failed(text)) == Some(text@),
        phase is Remove ==> lock_failure(no_confirm, phase, LockFact::Failed(text)) == Some(
            "failed to remove stale pacman lock"@,
        ),
        lock_next(no_confirm, LockPhase::Release, LockFact::Failed(text)) is Remove,
        lock_next(no_confirm, LockPhase::Pause, LockFact::Failed(text)) is Reopen,
{
}

/// The wait for an answer goes on over noise and answers to other questions, and ends without an
/// answer where no more comes.
pub proof fn waiting_ends_with_an_answer_or_none(id: u64, other: u64, yes: bool)
    ensures
        meaning(id, Reply::Message(ParentToHelper::Answer { id, yes })) == Wait::Over(Some(yes)),
        other != id ==> meaning(id, Reply::Message(ParentToHelper::Answer { id: other, yes }))
            == Wait::Again,
        meaning(id, Reply::Noise) == Wait::Again,
        meaning(id, Reply::NoMore) == Wait::Over(None),
{
}

proof fn lemma_cleaned_short(out: Seq<char>, rest: Seq<char>)
    requires
        encode_utf8(out).len() <= 4 * out.len(),
        4 * (out.len() + rest.len()) <= 8192,
        !rest.contains('\0'),
    ensures
        ({
            let all = cleaned(out, rest);
            &&& all.len() == out.len() + rest.len()
            &&& all.take(out.len() as int) == out
            &&& forall|k: int|
                0 <= k < rest.len() ==> all[out.len() + k] == (if is_control(#[trigger] rest[k])
                    && rest[k] != '\n' && rest[k] != '\r' && rest[k] != '\t' {
                    ' '
                } else {
                    rest[k]
                })
        }),
    decreases rest.len(),
{
    let all = cleaned(out, rest);
    if rest.len() == 0 {
        assert(all.take(out.len() as int) =~= out);
    } else {
        assert(rest.contains(rest[0]));
        let c = if is_control(rest[0]) && rest[0] != '\n' && rest[0] != '\r' && rest[0] != '\t' {
            ' '
        } else {
            rest[0]
        };
        let longer = out.push(c);
        let tail = rest.skip(1);
        lemma_encoded_push(out, c);
        assert(!tail.contains('\0')) by {
            if tail.contains('\0') {
                let k = choose|k: int| 0 <= k < tail.len() && tail[k] == '\0';
                assert(rest[k + 1] == '\0');
            }
        }
        lemma_cleaned_short(longer, tail);
        assert(all == cleaned(longer, tail));
        assert(all.take(out.len() as int) =~= all.take(longer.len() as int).take(out.len() as int));
        assert(longer.take(out.len() as int) =~= out);
        assert(all[out.len() as int] == all.take(longer.len() as int)[out.len() as int]);
        assert forall|k: int| 0 <= k < rest.len() implies all[out.len() + k] == (if is_control(
            #[trigger] rest[k],
        ) && rest[k] != '\n' && rest[k] != '\r' && rest[k] != '\t' {
            ' '
        } else {
            rest[k]
        }) by {
            if k > 0 {
                assert(tail[k - 1] == rest[k]);
                assert(all[longer.len() + (k - 1)] == all[out.len() + k]);
            }
        }
    }
}

/// Of a short message every character stays in its place, but for control characters, which become
/// blanks unless they are line ends or tabulators.
pub proof fn messages_keep_their_characters(msg: Seq<char>, k: int)
    requires
        msg.len() <= 2048,
        !msg.contains('\0'),
        0 <= k < msg.len(),
    ensures
        cleaned(seq![], msg).len() == msg.len(),
        !is_control(msg[k]) || msg[k] == '\n' || msg[k] == '\r' || msg[k] == '\t' ==> cleaned(
            seq![],
            msg,
        )[k] == msg[k],
        is_control(msg[k]) && msg[k] != '\n' && msg[k] != '\r' && msg[k] != '\t' ==> cleaned(
            seq![],
            msg,
        )[k] == ' ',
{
    assert(encode_utf8(Seq::<char>::empty()) =~= seq![]);
    lemma_cleaned_short(seq![], msg);
    assert(cleaned(seq![], msg)[0 + k] == cleaned(seq![], msg)[k]);
}

} // verus!
