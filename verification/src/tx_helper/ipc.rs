//! The messages between the helper and its parent, and the reading of lines.

use crate::number::decimal_text;
#[allow(unused_imports)]
use crate::number::decimal;
use crate::text::{put, text_of_utf8};
use vstd::prelude::*;
#[allow(unused_imports)]
use vstd::utf8::{decode_utf8, valid_utf8};

verus! {

/// The most bytes of the line that holds a plan.
pub const MAX_PLAN_BYTES: usize = 0x2_0000;

/// The most bytes of a message.
pub const MAX_IPC_LINE_BYTES: usize = 0x4000;

/// What the helper tells its parent.
#[derive(Debug, Clone)]
pub enum HelperToParent {
    Event { message: String },
    DownloadProgress { package: String, downloaded: u64, total: u64 },
    InstallProgress { package: String, percent: u64, current: usize, total: usize, removing: bool },
    HookPhaseStart,
    HookStep { current: usize, total: usize, desc: String },
    HookPhaseDone,
    LogLine { level: String, message: String },
    Question { id: u64, prompt: String, default_yes: bool },
    Result { code: i32 },
    Error { message: String },
}

/// What the parent tells the helper.
#[derive(Debug, Clone)]
pub enum ParentToHelper {
    Answer { id: u64, yes: bool },
}

/// A line that is being read, byte by byte, and never grows beyond its limit.
#[derive(Debug)]
pub struct LineBuffer {
    pub bytes: Vec<u8>,
    pub limit: usize,
}

/// What a byte means for a line.
#[derive(Debug, Clone, Copy, PartialEq, Eq, Structural)]
pub enum Feed {
    /// The line goes on.
    More,
    /// The line has ended with a newline.
    Newline,
    /// The line has ended with the input.
    EndOfInput,
    /// The line is longer than its limit.
    TooLong,
}

/// What a byte, or the end of the input, means for a line of `len` bytes.
pub open spec fn feed_of(len: int, limit: int, byte: Option<u8>) -> Feed {
    match byte {
        None => Feed::EndOfInput,
        Some(b) => if b == 10 {
            Feed::Newline
        } else if len >= limit {
            Feed::TooLong
        } else {
            Feed::More
        },
    }
}

impl LineBuffer {
    pub open spec fn wf(&self) -> bool {
        self.bytes@.len() <= self.limit
    }

    /// An empty line.
    pub fn new(limit: usize) -> (r: LineBuffer)
        ensures
            r.wf(),
            r.limit == limit,
            r.bytes@ == Seq::<u8>::empty(),
    {
        LineBuffer { bytes: Vec::new(), limit }
    }

    /// Takes a byte, or the end of the input.
    pub fn feed(&mut self, byte: Option<u8>) -> (r: Feed)
        requires
            old(self).wf(),
        ensures
            final(self).wf(),
            final(self).limit == old(self).limit,
            r == feed_of(old(self).bytes@.len() as int, old(self).limit as int, byte),
            final(self).bytes@ == (if r == Feed::More {
                old(self).bytes@.push(byte->0)
            } else {
                old(self).bytes@
            }),
    {
        match byte {
            None => Feed::EndOfInput,
            Some(b) => {
                if b == 10 {
                    Feed::Newline
                } else if self.bytes.len() >= self.limit {
                    Feed::TooLong
                } else {
                    self.bytes.push(b);
                    Feed::More
                }
            },
        }
    }
}

/// How many bytes come before the first newline of a stream, or before its end.
pub open spec fn line_length(stream: Seq<u8>) -> int
    decreases stream.len(),
{
    if stream.len() == 0 || stream[0] == 10 {
        0
    } else {
        1 + line_length(stream.skip(1))
    }
}

/// The bytes of a line after the first `n` bytes of a stream, and what the last of them meant.
pub open spec fn fed(stream: Seq<u8>, limit: int, n: int) -> (Seq<u8>, Feed)
    decreases n,
{
    if n <= 0 {
        (seq![], Feed::More)
    } else {
        let (bytes, feed) = fed(stream, limit, n - 1);
        let byte = if n <= stream.len() {
            Some(stream[n - 1])
        } else {
            None
        };
        if feed != Feed::More {
            (bytes, feed)
        } else {
            let next = feed_of(bytes.len() as int, limit, byte);
            if next == Feed::More {
                (bytes.push(byte->0), next)
            } else {
                (bytes, next)
            }
        }
    }
}

proof fn lemma_line_length(stream: Seq<u8>)
    ensures
        0 <= line_length(stream) <= stream.len(),
        forall|i: int| 0 <= i < line_length(stream) ==> #[trigger] stream[i] != 10,
        line_length(stream) < stream.len() ==> stream[line_length(stream)] == 10,
    decreases stream.len(),
{
    if stream.len() > 0 && stream[0] != 10 {
        lemma_line_length(stream.skip(1));
        assert forall|i: int| 0 <= i < line_length(stream) implies #[trigger] stream[i] != 10 by {
            if i > 0 {
                assert(stream[i] == stream.skip(1)[i - 1]);
            }
        }
    }
}

proof fn lemma_fed(stream: Seq<u8>, limit: int, n: int)
    requires
        0 <= n <= line_length(stream),
        n <= limit,
    ensures
        fed(stream, limit, n) == (stream.take(n), Feed::More),
    decreases n,
{
    lemma_line_length(stream);
    if n > 0 {
        lemma_fed(stream, limit, n - 1);
        assert(stream.take(n - 1).push(stream[n - 1]) =~= stream.take(n));
    } else {
        assert(stream.take(0) =~= seq![]);
    }
}

/// Reading a stream byte by byte gives what comes before its first newline, or all of it; where
/// that is longer than the limit, reading stops with the limit reached.
pub proof fn reading_gives_the_first_line(stream: Seq<u8>, limit: int)
    requires
        0 <= limit,
    ensures
        ({
            let n = line_length(stream);
            &&& n <= limit ==> fed(stream, limit, n + 1) == (
                stream.take(n),
                if n < stream.len() {
                    Feed::Newline
                } else {
                    Feed::EndOfInput
                },
            )
            &&& n > limit ==> fed(stream, limit, limit + 1) == (stream.take(limit), Feed::TooLong)
        }),
{
    let n = line_length(stream);
    lemma_line_length(stream);
    if n <= limit {
        lemma_fed(stream, limit, n);
    } else {
        lemma_fed(stream, limit, limit);
    }
}

/// What came of the reading of a plan.
#[derive(Debug)]
pub enum PlanRead {
    More,
    Line(Vec<u8>),
    Failed(String),
}

/// The report on a line that is too long.
pub open spec fn too_long_text(limit: nat) -> Seq<char> {
    "input line exceeded maximum size ("@ + decimal(limit) + " bytes)"@
}

/// Takes a byte of the line that holds a plan.
pub fn read_until_newline_limited(line: &mut LineBuffer, byte: Option<u8>) -> (r: PlanRead)
    requires
        old(line).wf(),
    ensures
        final(line).wf(),
        final(line).limit == old(line).limit,
        ({
            let feed = feed_of(old(line).bytes@.len() as int, old(line).limit as int, byte);
            match r {
                PlanRead::More => feed == Feed::More && final(line).bytes@ == old(line).bytes@.push(
                    byte->0,
                ),
                PlanRead::Line(bytes) => (feed == Feed::Newline || feed == Feed::EndOfInput)
                    && bytes@ == old(line).bytes@,
                PlanRead::Failed(text) => feed == Feed::TooLong && text@ == too_long_text(
                    old(line).limit as nat,
                ),
            }
        }),
{
    match line.feed(byte) {
        Feed::More => PlanRead::More,
        Feed::Newline | Feed::EndOfInput => PlanRead::Line(line.bytes.clone()),
        Feed::TooLong => {
            let mut text = "input line exceeded maximum size (".to_owned();
            put(&mut text, decimal_text(line.limit as u128).as_str());
            put(&mut text, " bytes)");
            PlanRead::Failed(text)
        },
    }
}

/// What came of the reading of a message.
#[derive(Debug)]
pub enum IpcRead {
    More,
    /// The other side has closed its end.
    Closed,
    Line(String),
    Failed(String),
}

/// The report on a message that is too long.
pub open spec fn ipc_too_long() -> Seq<char> {
    "IPC line exceeds "@ + decimal(MAX_IPC_LINE_BYTES as nat) + " bytes"@
}

/// Takes a byte of a message. A message is text of limited length; an end of the input before
/// any byte means that there are no more messages.
pub fn read_ipc_line_bounded(line: &mut LineBuffer, byte: Option<u8>) -> (r: IpcRead)
    requires
        old(line).wf(),
        old(line).limit == MAX_IPC_LINE_BYTES,
    ensures
        final(line).wf(),
        final(line).limit == MAX_IPC_LINE_BYTES,
        ({
            let bytes = old(line).bytes@;
            let feed = feed_of(bytes.len() as int, MAX_IPC_LINE_BYTES as int, byte);
            let ended = feed == Feed::Newline || (feed == Feed::EndOfInput && bytes.len() > 0);
            match r {
                IpcRead::More => feed == Feed::More && final(line).bytes@ == bytes.push(byte->0),
                IpcRead::Closed => feed == Feed::EndOfInput && bytes.len() == 0,
                IpcRead::Line(text) => ended && valid_utf8(bytes) && text@ == decode_utf8(bytes)
                    && final(line).bytes@ == Seq::<u8>::empty(),
                IpcRead::Failed(text) => (ended && !valid_utf8(bytes) && text@
                    == "IPC line is not valid UTF-8"@) || (feed == Feed::TooLong && text@
                    == ipc_too_long()),
            }
        }),
{
    match line.feed(byte) {
        Feed::More => IpcRead::More,
        Feed::TooLong => {
            let mut text = "IPC line exceeds ".to_owned();
            put(&mut text, decimal_text(MAX_IPC_LINE_BYTES as u128).as_str());
            put(&mut text, " bytes");
            IpcRead::Failed(text)
        },
        feed => {
            if feed == Feed::EndOfInput && line.bytes.len() == 0 {
                return IpcRead::Closed;
            }
            let bytes = line.bytes.clone();
            line.bytes = Vec::new();
            match text_of_utf8(bytes) {
                Some(text) => IpcRead::Line(text),
                None => IpcRead::Failed("IPC line is not valid UTF-8".to_owned()),
            }
        },
    }
}

/// What the helper knows of a reply.
#[derive(Debug, Clone)]
pub enum Reply {
    /// The parent answered.
    Message(ParentToHelper),
    /// A line that is no message.
    Noise,
    /// There will be no more lines.
    NoMore,
}

/// Whether the wait for an answer goes on.
#[derive(Debug, Clone, Copy, PartialEq, Eq, Structural)]
pub enum Wait {
    Again,
    Over(Option<bool>),
}

/// What a reply means for the question `id`: other answers and noise are passed over.
pub open spec fn meaning(id: u64, reply: Reply) -> Wait {
    match reply {
        Reply::Message(ParentToHelper::Answer { id: got, yes }) => if got == id {
            Wait::Over(Some(yes))
        } else {
            Wait::Again
        },
        Reply::Noise => Wait::Again,
        Reply::NoMore => Wait::Over(None),
    }
}

/// What a reply means for the question `id`.
pub fn wait_parent_answer(id: u64, reply: &Reply) -> (r: Wait)
    ensures
        r == meaning(id, *reply),
{
    match reply {
        Reply::Message(ParentToHelper::Answer { id: got, yes }) => {
            if *got == id {
                Wait::Over(Some(*yes))
            } else {
                Wait::Again
            }
        },
        Reply::Noise => Wait::Again,
        Reply::NoMore => Wait::Over(None),
    }
}

/// An answer ends the wait for the question of its number with what it says, and no other wait.
pub proof fn answer_belongs_to_its_question(asked: u64, id: u64, yes: bool)
    ensures
        meaning(asked, Reply::Message(ParentToHelper::Answer { id, yes })) == (if asked == id {
            Wait::Over(Some(yes))
        } else {
            Wait::Again
        }),
{
}

/// Whether a message is this question.
pub open spec fn is_question(m: HelperToParent, id: u64, prompt: Seq<char>, default_yes: bool) -> bool {
    m matches HelperToParent::Question { id: i, prompt: p, default_yes: d } && i == id && p@ == prompt
        && d == default_yes
}

/// A question of the helper: already decided, or to be put to the parent.
#[derive(Debug)]
pub enum Asking {
    Decided(bool),
    Ask(HelperToParent),
}

/// Asks the parent, unless the plan is carried out without questions. Each question has a number
/// of its own.
pub fn ask_helper_question(
    no_confirm: bool,
    next_id: &mut u64,
    prompt: &str,
    default_yes: bool,
) -> (r: Asking)
    requires
        *old(next_id) < u64::MAX,
    ensures
        match r {
            Asking::Decided(yes) => no_confirm && yes == default_yes && *final(next_id) == *old(
                next_id,
            ),
            Asking::Ask(m) => !no_confirm && is_question(m, *old(next_id), prompt@, default_yes)
                && *final(next_id) == *old(next_id) + 1,
        },
{
    if no_confirm {
        return Asking::Decided(default_yes);
    }
    let id = *next_id;
    *next_id = id + 1;
    Asking::Ask(HelperToParent::Question { id, prompt: prompt.to_owned(), default_yes })
}

/// Why the helper does not start.
#[derive(Debug, Clone, Copy, PartialEq, Eq, Structural)]
pub enum HelperRefusal {
    NotRoot,
    EmptyPlan,
}

/// Whether the helper starts, given its rights and the line that holds its plan.
pub fn accept_plan_line(is_root: bool, line: &Vec<u8>) -> (r: Result<(), HelperRefusal>)
    ensures
        r == (if !is_root {
            Err::<(), HelperRefusal>(HelperRefusal::NotRoot)
        } else if line@.len() == 0 {
            Err::<(), HelperRefusal>(HelperRefusal::EmptyPlan)
        } else {
            Ok::<(), HelperRefusal>(())
        }),
{
    if !is_root {
        Err(HelperRefusal::NotRoot)
    } else if line.len() == 0 {
        Err(HelperRefusal::EmptyPlan)
    } else {
        Ok(())
    }
}

impl HelperRefusal {
    pub fn message(self) -> (r: &'static str)
        ensures
            r@ == (match self {
                HelperRefusal::NotRoot => "--helper-transaction must be run as root"@,
                HelperRefusal::EmptyPlan => "helper transaction plan is empty"@,
            }),
    {
        match self {
            HelperRefusal::NotRoot => "--helper-transaction must be run as root",
            HelperRefusal::EmptyPlan => "helper transaction plan is empty",
        }
    }
}

/// The last message of the helper: its exit code, or its failure.
pub fn result_message(result: &Result<i32, String>) -> (r: HelperToParent)
    ensures
        match *result {
            Ok(c) => r matches HelperToParent::Result { code } && code == c,
            Err(e) => r matches HelperToParent::Error { message } && message@ == e@,
        },
{
    match result {
        Ok(code) => HelperToParent::Result { code: *code },
        Err(e) => HelperToParent::Error { message: e.clone() },
    }
}

} // verus!
