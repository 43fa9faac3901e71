//! What the helper makes of the events, progress, questions and log lines of a transaction.

use crate::config::Config;
#[allow(unused_imports)]
use crate::fmt::{max, min};
use crate::style::{heading_text, paint, Colors};
#[allow(unused_imports)]
use crate::style::{heading, painted};
use crate::text::{chars_of, ends_with, is_blank, is_control_char, join, put, same};
#[allow(unused_imports)]
use crate::text::{is_control, joined, opt_text, texts};
use crate::tx_helper::ipc::{ask_helper_question, Asking, HelperToParent};
#[allow(unused_imports)]
use crate::tx_helper::ipc::is_question;
use crate::tx_helper::throttle::Throttle;
#[allow(unused_imports)]
use crate::tx_helper::throttle::report_due;
use vstd::prelude::*;
#[allow(unused_imports)]
use vstd::utf8::encode_utf8;

verus! {

/// An event of a transaction. `post` tells that hooks run after the transaction.
#[derive(Debug, Clone)]
pub enum HelperEvent {
    ScriptletInfo { line: String },
    HookRunStart { name: String, desc: Option<String> },
    HookRunDone { name: String, desc: Option<String>, position: usize, total: usize },
    HookStart { post: bool },
    HookDone { post: bool },
    ResolveDepsStart,
    InterConflictsStart,
    IntegrityStart,
    LoadStart,
    KeyringStart,
    DiskSpaceStart,
    TransactionStart,
    Installed { name: String },
    Upgraded { old: String, new: String },
    Removed { name: String },
    Other,
}

/// What is known of the hooks of a transaction.
#[derive(Debug)]
pub struct HookTracking {
    /// The hook that was started last.
    pub last_hook: Option<String>,
    /// Hooks run after the transaction.
    pub phase_active: bool,
    /// When the phase or the hook started, in nanoseconds.
    pub started: Option<u128>,
}

/// What is done about an event.
#[derive(Debug)]
pub enum Reaction {
    Nothing,
    /// Written to the terminal as it is.
    Print(String),
    /// Sent to the parent.
    Emit(HelperToParent),
}

/// The words for an event.
pub open spec fn event_words(e: HelperEvent) -> Option<Seq<char>> {
    match e {
        HelperEvent::ResolveDepsStart => Some("Resolving dependencies..."@),
        HelperEvent::InterConflictsStart => Some("Checking conflicts..."@),
        HelperEvent::IntegrityStart => Some("Checking integrity..."@),
        HelperEvent::LoadStart => Some("Loading package files..."@),
        HelperEvent::KeyringStart => Some("Checking keyring..."@),
        HelperEvent::DiskSpaceStart => Some("Checking disk space..."@),
        HelperEvent::TransactionStart => Some("Committing transaction..."@),
        HelperEvent::Installed { name } => Some("Installed "@ + name@),
        HelperEvent::Upgraded { old, new } => Some("Upgraded "@ + old@ + " -> "@ + new@),
        HelperEvent::Removed { name } => Some("Removed "@ + name@),
        _ => None,
    }
}

/// The name under which a hook is shown: its description, or its name.
pub open spec fn hook_label(name: Seq<char>, desc: Option<Seq<char>>) -> Seq<char> {
    match desc {
        Some(d) => d,
        None => name,
    }
}

/// What is done about an event.
pub open spec fn reacts(c: Colors, e: HelperEvent, r: Reaction) -> bool {
    match e {
        HelperEvent::ScriptletInfo { line } => if line@.len() == 0 {
            r is Nothing
        } else {
            r matches Reaction::Print(text) && text@ == line@ + "\n"@
        },
        HelperEvent::HookRunDone { name, desc, position, total } =>
            r matches Reaction::Emit(HelperToParent::HookStep { current, total: t, desc: d })
                && current == position && t == total && d@ == hook_label(name@, opt_text(desc)),
        HelperEvent::HookStart { post } => if post {
            r matches Reaction::Emit(HelperToParent::HookPhaseStart)
        } else {
            r is Nothing
        },
        HelperEvent::HookDone { post } => if post {
            r matches Reaction::Emit(HelperToParent::HookPhaseDone)
        } else {
            r is Nothing
        },
        _ => match event_words(e) {
            Some(words) => r matches Reaction::Emit(HelperToParent::Event { message }) && message@
                == heading(c, words),
            None => r is Nothing,
        },
    }
}

/// What is known of the hooks after an event: the hook that ran last, whether the phase is on,
/// and the start.
pub open spec fn hooks_after(
    e: HelperEvent,
    last: Option<Seq<char>>,
    active: bool,
    started: Option<u128>,
    now: u128,
) -> (Option<Seq<char>>, bool, Option<u128>) {
    match e {
        HelperEvent::HookStart { post } => if post {
            (last, true, Some(now))
        } else {
            (last, active, started)
        },
        HelperEvent::HookDone { post } => if post {
            (last, false, None)
        } else {
            (last, active, started)
        },
        HelperEvent::HookRunStart { name, desc } => (
            Some(hook_label(name@, opt_text(desc))),
            active,
            Some(now),
        ),
        _ => (last, active, started),
    }
}

impl HookTracking {
    pub open spec fn state(&self) -> (Option<Seq<char>>, bool, Option<u128>) {
        (opt_text(self.last_hook), self.phase_active, self.started)
    }

    /// Nothing is known.
    pub fn new() -> (r: HookTracking)
        ensures
            r.state() == (None::<Seq<char>>, false, None::<u128>),
    {
        HookTracking { last_hook: None, phase_active: false, started: None }
    }
}

fn label_of(name: &String, desc: &Option<String>) -> (r: String)
    ensures
        r@ == hook_label(name@, opt_text(*desc)),
{
    match desc {
        Some(d) => d.clone(),
        None => name.clone(),
    }
}

/// The words for an event.
pub fn words_for_event(e: &HelperEvent) -> (r: Option<String>)
    ensures
        opt_text(r) == event_words(*e),
{
    match e {
        HelperEvent::ResolveDepsStart => Some("Resolving dependencies...".to_owned()),
        HelperEvent::InterConflictsStart => Some("Checking conflicts...".to_owned()),
        HelperEvent::IntegrityStart => Some("Checking integrity...".to_owned()),
        HelperEvent::LoadStart => Some("Loading package files...".to_owned()),
        HelperEvent::KeyringStart => Some("Checking keyring...".to_owned()),
        HelperEvent::DiskSpaceStart => Some("Checking disk space...".to_owned()),
        HelperEvent::TransactionStart => Some("Committing transaction...".to_owned()),
        HelperEvent::Installed { name } => {
            let mut out = "Installed ".to_owned();
            put(&mut out, name.as_str());
            Some(out)
        },
        HelperEvent::Upgraded { old, new } => {
            let mut out = "Upgraded ".to_owned();
            put(&mut out, old.as_str());
            put(&mut out, " -> ");
            put(&mut out, new.as_str());
            Some(out)
        },
        HelperEvent::Removed { name } => {
            let mut out = "Removed ".to_owned();
            put(&mut out, name.as_str());
            Some(out)
        },
        _ => None,
    }
}

/// What is done about an event, at a time in nanoseconds, and what is then known of the hooks.
pub fn helper_event_cb(e: &HelperEvent, c: &Colors, hooks: &mut HookTracking, now: u128) -> (r:
    Reaction)
    ensures
        reacts(*c, *e, r),
        final(hooks).state() == hooks_after(
            *e,
            old(hooks).state().0,
            old(hooks).state().1,
            old(hooks).state().2,
            now,
        ),
{
    match e {
        HelperEvent::ScriptletInfo { line } => {
            if is_blank(line.as_str()) {
                return Reaction::Nothing;
            }
            let mut text = line.clone();
            put(&mut text, "\n");
            Reaction::Print(text)
        },
        HelperEvent::HookRunDone { name, desc, position, total } => Reaction::Emit(
            HelperToParent::HookStep {
                current: *position,
                total: *total,
                desc: label_of(name, desc),
            },
        ),
        HelperEvent::HookStart { post } => {
            if !*post {
                return Reaction::Nothing;
            }
            hooks.phase_active = true;
            hooks.started = Some(now);
            Reaction::Emit(HelperToParent::HookPhaseStart)
        },
        HelperEvent::HookDone { post } => {
            if !*post {
                return Reaction::Nothing;
            }
            hooks.phase_active = false;
            hooks.started = None;
            Reaction::Emit(HelperToParent::HookPhaseDone)
        },
        HelperEvent::HookRunStart { name, desc } => {
            hooks.started = Some(now);
            hooks.last_hook = Some(label_of(name, desc));
            Reaction::Nothing
        },
        _ => match words_for_event(e) {
            Some(words) => Reaction::Emit(
                HelperToParent::Event { message: heading_text(c, words.as_str()) },
            ),
            None => Reaction::Nothing,
        },
    }
}

/// What progress is made with.
#[derive(Debug, Clone, Copy, PartialEq, Eq, Structural)]
pub enum ProgressKind {
    Add,
    Upgrade,
    Remove,
    Other,
}

/// A percentage, brought into its range.
pub open spec fn clamped(percent: i32) -> int {
    min(max(percent as int, 0), 100)
}

/// Whether `r` is the report on a package that is installed, upgraded or removed, given the times
/// of the reports before it and after it.
pub open spec fn reports_install(
    kind: ProgressKind,
    name: Seq<char>,
    percent: i32,
    howmany: usize,
    current: usize,
    now: u128,
    before: Map<Seq<char>, u128>,
    after: Map<Seq<char>, u128>,
    r: Option<HelperToParent>,
) -> bool {
    let shown = kind != ProgressKind::Other && report_due(
        before,
        name,
        now,
        clamped(percent) >= 100,
    );
    &&& r is Some <==> shown
    &&& after == if shown {
        before.insert(name, now)
    } else {
        before
    }
    &&& r matches Some(m) ==> (m matches HelperToParent::InstallProgress {
        package,
        percent: p,
        current: c,
        total,
        removing,
    } && package@ == name && p == clamped(percent) && c == current && total == howmany && removing
        == (kind == ProgressKind::Remove))
}

/// The report on a package that is installed, upgraded or removed, unless it comes too soon
/// after the last one on that package. The end is always reported.
pub fn helper_progress_cb(
    kind: ProgressKind,
    pkgname: &str,
    percent: i32,
    howmany: usize,
    current: usize,
    now: u128,
    throttle: &mut Throttle,
) -> (r: Option<HelperToParent>)
    requires
        old(throttle).wf(),
    ensures
        final(throttle).wf(),
        reports_install(
            kind,
            pkgname@,
            percent,
            howmany,
            current,
            now,
            old(throttle)@,
            final(throttle)@,
            r,
        ),
{
    match kind {
        ProgressKind::Other => {
            return None;
        },
        _ => {},
    }
    let p: u64 = if percent < 0 {
        0
    } else if percent > 100 {
        100
    } else {
        percent as u64
    };
    if !throttle.pass(pkgname, now, p >= 100) {
        return None;
    }
    Some(
        HelperToParent::InstallProgress {
            package: pkgname.to_owned(),
            percent: p,
            current,
            total: howmany,
            removing: kind == ProgressKind::Remove,
        },
    )
}

/// An event of a download.
#[derive(Debug, Clone, Copy, PartialEq, Eq, Structural)]
pub enum DownloadEvent {
    Progress { downloaded: i64, total: i64 },
    Completed { total: i64, failed: bool },
    Other,
}

/// Whether a message reports this much of a download.
pub open spec fn is_download(m: HelperToParent, name: Seq<char>, done: int, all: int) -> bool {
    m matches HelperToParent::DownloadProgress { package, downloaded, total } && package@ == name
        && downloaded == done && total == all
}

/// Whether a message is this line of the log.
pub open spec fn is_log_line(m: HelperToParent, tag: Seq<char>, text: Seq<char>) -> bool {
    m matches HelperToParent::LogLine { level, message } && level@ == tag && message@ == text
}

fn not_negative(n: i64) -> (r: u64)
    ensures
        r == max(n as int, 0),
{
    if n > 0 {
        n as u64
    } else {
        0
    }
}

/// Whether `r` is the report on a download, given the times of the reports before it and after it.
pub open spec fn reports_download(
    name: Seq<char>,
    event: DownloadEvent,
    now: u128,
    before: Map<Seq<char>, u128>,
    after: Map<Seq<char>, u128>,
    r: Option<HelperToParent>,
) -> bool {
    if ".sig"@.is_suffix_of(name) {
        r is None && after == before
    } else {
        match event {
            DownloadEvent::Progress { downloaded, total } => {
                let done = max(downloaded as int, 0);
                let all = max(total as int, 0);
                let shown = all > 0 && report_due(before, name, now, done >= all);
                &&& r is Some <==> shown
                &&& r matches Some(m) ==> is_download(m, name, done, all)
                &&& after == if shown {
                    before.insert(name, now)
                } else {
                    before
                }
            },
            DownloadEvent::Completed { total, failed } => {
                &&& r is Some <==> failed || total > 0
                &&& r matches Some(m) ==> if failed {
                    is_log_line(m, "warning"@, "download failed for "@ + name)
                } else {
                    is_download(m, name, total as int, total as int)
                }
                &&& after == before.remove(name)
            },
            DownloadEvent::Other => r is None && after == before,
        }
    }
}

/// The report on a download, unless it comes too soon after the last one on that file.
/// Signatures are not reported; the end of a download and its failure always are.
pub fn helper_download_cb(
    filename: &str,
    event: DownloadEvent,
    now: u128,
    throttle: &mut Throttle,
) -> (r: Option<HelperToParent>)
    requires
        old(throttle).wf(),
    ensures
        final(throttle).wf(),
        reports_download(filename@, event, now, old(throttle)@, final(throttle)@, r),
{
    if ends_with(filename, ".sig") {
        return None;
    }
    match event {
        DownloadEvent::Progress { downloaded, total } => {
            let done = not_negative(downloaded);
            let all = not_negative(total);
            if all == 0 {
                return None;
            }
            if !throttle.pass(filename, now, done >= all) {
                return None;
            }
            Some(
                HelperToParent::DownloadProgress {
                    package: filename.to_owned(),
                    downloaded: done,
                    total: all,
                },
            )
        },
        DownloadEvent::Completed { total, failed } => {
            let all = not_negative(total);
            throttle.forget(filename);
            if failed {
                let mut message = "download failed for ".to_owned();
                put(&mut message, filename);
                Some(HelperToParent::LogLine { level: "warning".to_owned(), message })
            } else if all > 0 {
                Some(
                    HelperToParent::DownloadProgress {
                        package: filename.to_owned(),
                        downloaded: all,
                        total: all,
                    },
                )
            } else {
                None
            }
        },
        DownloadEvent::Other => None,
    }
}

/// A question of a transaction.
#[derive(Debug, Clone)]
pub enum TxQuestion {
    InstallIgnored { pkg: String },
    Replace { old: String, new: String, db: String },
    Conflict { package2: String },
    Corrupted { filepath: String },
    RemovePkgs { packages: Vec<String> },
    SelectProvider,
    ImportKey { fingerprint: String, uid: String },
}

/// The words of a question; the choice of a provider is not put to the user.
pub open spec fn question_words(q: TxQuestion) -> Option<Seq<char>> {
    match q {
        TxQuestion::InstallIgnored { pkg } => Some("Install ignored package '"@ + pkg@ + "'?"@),
        TxQuestion::Replace { old, new, db } => Some(
            "Replace '"@ + old@ + "' with '"@ + new@ + "' from '"@ + db@ + "'?"@,
        ),
        TxQuestion::Conflict { package2 } => Some(
            "Resolve conflict by removing '"@ + package2@ + "' ?"@,
        ),
        TxQuestion::Corrupted { filepath } => Some(
            "Corrupted package '"@ + filepath@ + "'. Remove from cache?"@,
        ),
        TxQuestion::RemovePkgs { packages } => Some(
            "Remove packages: "@ + joined(texts(packages@), ", "@) + " ?"@,
        ),
        TxQuestion::SelectProvider => None,
        TxQuestion::ImportKey { fingerprint, uid } => Some(
            "Import key '"@ + fingerprint@ + "' ("@ + uid@ + ")?"@,
        ),
    }
}

/// The answer where nobody answers: yes, but a conflict is not resolved by itself where nobody
/// is asked.
pub open spec fn question_default(q: TxQuestion, no_confirm: bool) -> bool {
    q is Conflict ==> !no_confirm
}

fn words_of_question(q: &TxQuestion) -> (r: Option<String>)
    ensures
        opt_text(r) == question_words(*q),
{
    match q {
        TxQuestion::InstallIgnored { pkg } => {
            let mut out = "Install ignored package '".to_owned();
            put(&mut out, pkg.as_str());
            put(&mut out, "'?");
            Some(out)
        },
        TxQuestion::Replace { old, new, db } => {
            let mut out = "Replace '".to_owned();
            put(&mut out, old.as_str());
            put(&mut out, "' with '");
            put(&mut out, new.as_str());
            put(&mut out, "' from '");
            put(&mut out, db.as_str());
            put(&mut out, "'?");
            Some(out)
        },
        TxQuestion::Conflict { package2 } => {
            let mut out = "Resolve conflict by removing '".to_owned();
            put(&mut out, package2.as_str());
            put(&mut out, "' ?");
            Some(out)
        },
        TxQuestion::Corrupted { filepath } => {
            let mut out = "Corrupted package '".to_owned();
            put(&mut out, filepath.as_str());
            put(&mut out, "'. Remove from cache?");
            Some(out)
        },
        TxQuestion::RemovePkgs { packages } => {
            let mut out = "Remove packages: ".to_owned();
            put(&mut out, join(packages, ", ").as_str());
            put(&mut out, " ?");
            Some(out)
        },
        TxQuestion::SelectProvider => None,
        TxQuestion::ImportKey { fingerprint, uid } => {
            let mut out = "Import key '".to_owned();
            put(&mut out, fingerprint.as_str());
            put(&mut out, "' (");
            put(&mut out, uid.as_str());
            put(&mut out, ")?");
            Some(out)
        },
    }
}

/// How the questions of a transaction are answered.
#[derive(Debug)]
pub struct QuestionIpcState {
    pub no_confirm: bool,
    pub next_id: u64,
}

/// What is done about a question.
#[derive(Debug)]
pub enum QuestionStep {
    /// The first provider is taken.
    FirstProvider,
    /// The answer is given without a question.
    Decided(bool),
    /// The parent is asked; the flag is the answer where the question cannot be sent or no
    /// answer comes.
    Ask(HelperToParent, bool),
}

/// Whether `r` is what is done about a question, given the number of the next question before it
/// and after it.
pub open spec fn handles_question(
    q: TxQuestion,
    no_confirm: bool,
    id: u64,
    next_id: u64,
    r: QuestionStep,
) -> bool {
    let default = question_default(q, no_confirm);
    match question_words(q) {
        None => r is FirstProvider && next_id == id,
        Some(words) => if no_confirm {
            r == QuestionStep::Decided(default) && next_id == id
        } else {
            r matches QuestionStep::Ask(m, d) && d == default && is_question(m, id, words, default)
                && next_id == id + 1
        },
    }
}

/// What is done about a question of a transaction.
pub fn helper_question_cb(q: &TxQuestion, state: &mut QuestionIpcState) -> (r: QuestionStep)
    requires
        old(state).next_id < u64::MAX,
    ensures
        final(state).no_confirm == old(state).no_confirm,
        handles_question(*q, old(state).no_confirm, old(state).next_id, final(state).next_id, r),
{
    let words = match words_of_question(q) {
        None => {
            return QuestionStep::FirstProvider;
        },
        Some(w) => w,
    };
    let default_yes = match q {
        TxQuestion::Conflict { .. } => !state.no_confirm,
        _ => true,
    };
    match ask_helper_question(state.no_confirm, &mut state.next_id, words.as_str(), default_yes) {
        Asking::Decided(yes) => QuestionStep::Decided(yes),
        Asking::Ask(m) => QuestionStep::Ask(m, default_yes),
    }
}

/// The answer to a question.
pub open spec fn settled(sent: bool, answer: Option<bool>, default_yes: bool) -> bool {
    if sent && answer is Some {
        answer->0
    } else {
        default_yes
    }
}

/// The answer to a question: the default where the question could not be sent, or where no
/// answer came.
pub fn settle_question(sent: bool, answer: Option<bool>, default_yes: bool) -> (r: bool)
    ensures
        r == settled(sent, answer, default_yes),
{
    if !sent {
        return default_yes;
    }
    match answer {
        Some(yes) => yes,
        None => default_yes,
    }
}

/// What a yes or no sets in the question.
pub open spec fn set_value(q: TxQuestion, yes: bool) -> bool {
    if q is RemovePkgs {
        !yes
    } else {
        yes
    }
}

/// What a yes or no sets in the question: for packages that would be removed, whether they are
/// skipped; otherwise the answer itself.
pub fn answer_value(q: &TxQuestion, yes: bool) -> (r: bool)
    ensures
        r == set_value(*q, yes),
{
    match q {
        TxQuestion::RemovePkgs { .. } => !yes,
        _ => yes,
    }
}

/// The most bytes of a log line before it is cut.
pub const MAX_LOG_MESSAGE_BYTES: usize = 8192;

/// A text of the log after `out`: no null characters, blanks for other control characters, and
/// dots where it grows too long.
pub open spec fn cleaned(out: Seq<char>, rest: Seq<char>) -> Seq<char>
    decreases rest.len(),
{
    if rest.len() == 0 {
        out
    } else if encode_utf8(out).len() >= MAX_LOG_MESSAGE_BYTES {
        out + "..."@
    } else if rest[0] == '\0' {
        cleaned(out, rest.skip(1))
    } else if is_control(rest[0]) && rest[0] != '\n' && rest[0] != '\r' && rest[0] != '\t' {
        cleaned(out.push(' '), rest.skip(1))
    } else {
        cleaned(out.push(rest[0]), rest.skip(1))
    }
}

/// A text that may go to the log.
pub fn sanitize_log_fragment(msg: &str) -> (r: String)
    ensures
        r@ == cleaned(seq![], msg@),
{
    let v = chars_of(msg);
    let mut out = String::new();
    let mut i: usize = 0;
    assert(v@.skip(0) =~= v@);
    assert(out@ =~= seq![]);
    while i < v.len()
        invariant
            i <= v.len(),
            v@ == msg@,
            cleaned(out@, v@.skip(i as int)) == cleaned(seq![], msg@),
        decreases v.len() - i,
    {
        assert(v@.skip(i as int).skip(1) =~= v@.skip(i + 1));
        if out.as_str().as_bytes().len() >= MAX_LOG_MESSAGE_BYTES {
            put(&mut out, "...");
            return out;
        }
        let c = v[i];
        if c == '\0' {
        } else if is_control_char(c) && c != '\n' && c != '\r' && c != '\t' {
            out.push(' ');
        } else {
            out.push(c);
        }
        i += 1;
    }
    assert(v@.skip(i as int) =~= seq![]);
    out
}

/// A character that a log line may hold.
pub open spec fn is_printable(c: char) -> bool {
    !is_control(c) || c == '\n' || c == '\r' || c == '\t'
}

/// A cleaned text holds no control characters but the ends of lines and tabs.
pub proof fn cleaned_text_is_printable(out: Seq<char>, rest: Seq<char>)
    requires
        forall|i: int| 0 <= i < out.len() ==> is_printable(#[trigger] out[i]),
    ensures
        forall|i: int|
            0 <= i < cleaned(out, rest).len() ==> is_printable(#[trigger] cleaned(out, rest)[i]),
    decreases rest.len(),
{
    if rest.len() == 0 {
        assert(cleaned(out, rest) == out);
    } else if encode_utf8(out).len() >= MAX_LOG_MESSAGE_BYTES {
        reveal_strlit("...");
        let all = cleaned(out, rest);
        assert(all == out + "..."@);
        assert forall|i: int| 0 <= i < all.len() implies is_printable(#[trigger] all[i]) by {
            if i < out.len() {
                assert(all[i] == out[i]);
            } else {
                assert(all[i] == '.');
            }
        }
    } else if rest[0] == '\0' {
        cleaned_text_is_printable(out, rest.skip(1));
        assert(cleaned(out, rest) == cleaned(out, rest.skip(1)));
    } else if is_control(rest[0]) && rest[0] != '\n' && rest[0] != '\r' && rest[0] != '\t' {
        cleaned_text_is_printable(out.push(' '), rest.skip(1));
        assert(cleaned(out, rest) == cleaned(out.push(' '), rest.skip(1)));
    } else {
        cleaned_text_is_printable(out.push(rest[0]), rest.skip(1));
        assert(cleaned(out, rest) == cleaned(out.push(rest[0]), rest.skip(1)));
    }
}

pub proof fn lemma_encoded_push(s: Seq<char>, c: char)
    ensures
        encode_utf8(s.push(c)).len() <= encode_utf8(s).len() + 4,
        (c as u32) < 0x80 ==> encode_utf8(s.push(c)).len() == encode_utf8(s).len() + 1,
    decreases s.len(),
{
    if s.len() == 0 {
        assert(s.push(c).drop_first() =~= s);
        assert(s.push(c)[0] == c);
        assert(encode_utf8(s) =~= seq![]);
        assert(encode_utf8(s.push(c)) == vstd::utf8::encode_scalar(c as u32) + encode_utf8(s));
        assert(encode_utf8(s.push(c)) =~= vstd::utf8::encode_scalar(c as u32));
    } else {
        lemma_encoded_push(s.drop_first(), c);
        assert(s.push(c).drop_first() =~= s.drop_first().push(c));
        assert(s.push(c)[0] == s[0]);
    }
}

/// A cleaned text is cut soon after the limit for a log line: the last character may go beyond it
/// by three bytes, and three dots follow.
pub proof fn cleaned_text_is_short(out: Seq<char>, rest: Seq<char>)
    requires
        encode_utf8(out).len() < MAX_LOG_MESSAGE_BYTES + 4,
    ensures
        encode_utf8(cleaned(out, rest)).len() <= MAX_LOG_MESSAGE_BYTES + 3 + 3,
    decreases rest.len(),
{
    if rest.len() == 0 {
    } else if encode_utf8(out).len() >= MAX_LOG_MESSAGE_BYTES {
        reveal_strlit("...");
        assert(out + "..."@ =~= out.push('.').push('.').push('.'));
        lemma_encoded_push(out, '.');
        lemma_encoded_push(out.push('.'), '.');
        lemma_encoded_push(out.push('.').push('.'), '.');
    } else if rest[0] == '\0' {
        cleaned_text_is_short(out, rest.skip(1));
    } else if is_control(rest[0]) && rest[0] != '\n' && rest[0] != '\r' && rest[0] != '\t' {
        lemma_encoded_push(out, ' ');
        cleaned_text_is_short(out.push(' '), rest.skip(1));
    } else {
        lemma_encoded_push(out, rest[0]);
        cleaned_text_is_short(out.push(rest[0]), rest.skip(1));
    }
}

/// Whether a text can stand at the start of a cleaned one: it is printable, and within the limit
/// before its last character.
pub open spec fn is_clean(out: Seq<char>) -> bool {
    &&& forall|i: int| 0 <= i < out.len() ==> is_printable(#[trigger] out[i])
    &&& forall|k: int|
        0 <= k < out.len() ==> encode_utf8(#[trigger] out.take(k)).len() < MAX_LOG_MESSAGE_BYTES
}

proof fn lemma_clean_again(out: Seq<char>, k: int, tail: Seq<char>)
    requires
        is_clean(out),
        0 <= k <= out.len(),
    ensures
        cleaned(out.take(k), out.skip(k) + tail) == cleaned(out, tail),
    decreases out.len() - k,
{
    let rest = out.skip(k) + tail;
    if k < out.len() {
        assert(encode_utf8(out.take(k)).len() < MAX_LOG_MESSAGE_BYTES);
        assert(rest[0] == out[k]);
        assert(is_printable(out[k]));
        assert(rest.skip(1) =~= out.skip(k + 1) + tail);
        assert(out.take(k).push(out[k]) =~= out.take(k + 1));
        lemma_clean_again(out, k + 1, tail);
    } else {
        assert(out.take(k) =~= out);
        assert(rest =~= tail);
    }
}

proof fn lemma_clean_push(out: Seq<char>, c: char)
    requires
        is_clean(out),
        is_printable(c),
        encode_utf8(out).len() < MAX_LOG_MESSAGE_BYTES,
    ensures
        is_clean(out.push(c)),
{
    assert forall|k: int| 0 <= k < out.push(c).len() implies encode_utf8(
        #[trigger] out.push(c).take(k),
    ).len() < MAX_LOG_MESSAGE_BYTES by {
        if k < out.len() {
            assert(out.push(c).take(k) =~= out.take(k));
        } else {
            assert(out.push(c).take(k) =~= out);
        }
    }
}

proof fn lemma_cleaned_is_settled(out: Seq<char>, rest: Seq<char>)
    requires
        is_clean(out),
    ensures
        cleaned(seq![], cleaned(out, rest)) == cleaned(out, rest),
    decreases rest.len(),
{
    let nothing = Seq::<char>::empty();
    assert(out.take(0) =~= nothing);
    assert(out.skip(0) =~= out);
    if rest.len() == 0 {
        lemma_clean_again(out, 0, nothing);
        assert(out + nothing =~= out);
    } else if encode_utf8(out).len() >= MAX_LOG_MESSAGE_BYTES {
        reveal_strlit("...");
        lemma_clean_again(out, 0, "..."@);
    } else if rest[0] == '\0' {
        lemma_cleaned_is_settled(out, rest.skip(1));
    } else if is_control(rest[0]) && rest[0] != '\n' && rest[0] != '\r' && rest[0] != '\t' {
        lemma_clean_push(out, ' ');
        lemma_cleaned_is_settled(out.push(' '), rest.skip(1));
    } else {
        lemma_clean_push(out, rest[0]);
        lemma_cleaned_is_settled(out.push(rest[0]), rest.skip(1));
    }
}

/// Cleaning a text a second time changes nothing.
pub proof fn cleaning_is_settled(msg: Seq<char>)
    ensures
        cleaned(seq![], cleaned(seq![], msg)) == cleaned(seq![], msg),
{
    lemma_cleaned_is_settled(seq![], msg);
}

/// The levels of a log line.
#[derive(Debug, Clone, Copy, PartialEq, Eq, Structural)]
pub struct LogLevels {
    pub error: bool,
    pub warning: bool,
    pub debug: bool,
    pub function: bool,
}

/// The tag of a log line.
pub open spec fn level_tag(level: LogLevels) -> Seq<char> {
    if level.error {
        "error"@
    } else if level.warning {
        "warning"@
    } else if level.debug || level.function {
        "debug"@
    } else {
        "message"@
    }
}

/// The tag of a log line: that of its gravest level.
pub fn log_level_to_tag(level: LogLevels) -> (r: &'static str)
    ensures
        r@ == level_tag(level),
{
    if level.error {
        "error"
    } else if level.warning {
        "warning"
    } else if level.debug || level.function {
        "debug"
    } else {
        "message"
    }
}

/// The report on a log line: only warnings and errors are passed on, and only where something is
/// left of them.
pub fn helper_log_cb(level: LogLevels, msg: &str) -> (r: Option<HelperToParent>)
    ensures
        r is Some <==> (level.warning || level.error) && cleaned(seq![], msg@).len() > 0,
        r matches Some(m) ==> is_log_line(m, level_tag(level), cleaned(seq![], msg@)),
{
    if !level.warning && !level.error {
        return None;
    }
    let message = sanitize_log_fragment(msg);
    if is_blank(message.as_str()) {
        return None;
    }
    Some(HelperToParent::LogLine { level: log_level_to_tag(level).to_owned(), message })
}

/// A log line as the parent shows it.
pub open spec fn shown_log_line(c: Colors, level: Seq<char>, message: Seq<char>) -> Seq<char> {
    (if level == "error"@ {
        painted(c.error, "[X]"@)
    } else if level == "warning"@ {
        painted(c.warning, "[!]"@)
    } else {
        painted(c.field, "[·]"@)
    }) + " "@ + message
}

/// A log line as the parent shows it.
pub fn format_log_line_for_parent(config: &Config, level: &str, message: &str) -> (r: String)
    ensures
        r@ == shown_log_line(config.color, level@, message@),
{
    let c = &config.color;
    let mut out = if same(level, "error") {
        paint(c.error, "[X]")
    } else if same(level, "warning") {
        paint(c.warning, "[!]")
    } else {
        paint(c.field, "[·]")
    };
    put(&mut out, " ");
    put(&mut out, message);
    out
}

} // verus!
