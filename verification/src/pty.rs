//! The local shell session: how it is started, fed, read and sized.

use crossbeam_channel::{Sender, TrySendError};
use vstd::prelude::*;
use vstd::string::*;

use crate::config::settings::{clone_text, clone_texts, texts};
use crate::context::ShellProfile;
use crate::terminal::model::{
    actions_for, byte_strings, host_writes, law_host_writes_keep_their_order, ModelState,
    TerminalModel,
};
use crate::terminal::types::{optional_text, TerminalSize};

verus! {

/// How many chunks of input wait for the shell before more are refused.
pub const INPUT_QUEUE_CHUNKS: usize = 256;

/// How many events wait for the user interface.
pub const EVENT_QUEUE_LENGTH: usize = 2;

/// How many bytes of output are read at once.
pub const READ_BUFFER_BYTES: usize = 16_384;

/// As soon as so many bytes of input are gathered they are written.
pub const WRITE_BATCH_BYTES: usize = 65_536;

/// What is wrong with a session, with the cause in words.
#[derive(Clone, Debug, Eq, PartialEq)]
pub enum PtyError {
    Open(String),
    CloneReader(String),
    Writer(String),
    Spawn(String),
    SpawnThread { name: String, source: String },
    InputClosed,
    InputBackpressure,
    Resize(String),
    Terminate(String),
}

/// What the error tells the user.
pub open spec fn pty_message(error: PtyError) -> Seq<char> {
    match error {
        PtyError::Open(cause) => "failed to open local PTY: "@ + cause@,
        PtyError::CloneReader(cause) => "failed to clone PTY reader: "@ + cause@,
        PtyError::Writer(cause) => "failed to acquire PTY writer: "@ + cause@,
        PtyError::Spawn(cause) => "failed to spawn shell: "@ + cause@,
        PtyError::SpawnThread { name, source } => "failed to spawn "@ + name@ + " thread: "@
            + source@,
        PtyError::InputClosed => "terminal input channel is closed"@,
        PtyError::InputBackpressure => "terminal input queue is full"@,
        PtyError::Resize(cause) => "failed to resize PTY: "@ + cause@,
        PtyError::Terminate(cause) => "failed to terminate shell: "@ + cause@,
    }
}

impl PtyError {
    /// What the error tells the user.
    #[must_use]
    pub fn message(&self) -> (res: String)
        ensures
            res@ == pty_message(*self),
    {
        match self {
            PtyError::Open(cause) => "failed to open local PTY: ".to_owned().concat(
                cause.as_str(),
            ),
            PtyError::CloneReader(cause) => "failed to clone PTY reader: ".to_owned().concat(
                cause.as_str(),
            ),
            PtyError::Writer(cause) => "failed to acquire PTY writer: ".to_owned().concat(
                cause.as_str(),
            ),
            PtyError::Spawn(cause) => "failed to spawn shell: ".to_owned().concat(cause.as_str()),
            PtyError::SpawnThread { name, source } => "failed to spawn ".to_owned().concat(
                name.as_str(),
            ).concat(" thread: ").concat(source.as_str()),
            PtyError::InputClosed => "terminal input channel is closed".to_owned(),
            PtyError::InputBackpressure => "terminal input queue is full".to_owned(),
            PtyError::Resize(cause) => "failed to resize PTY: ".to_owned().concat(cause.as_str()),
            PtyError::Terminate(cause) => "failed to terminate shell: ".to_owned().concat(
                cause.as_str(),
            ),
        }
    }
}

/// Events emitted by a local terminal session.
#[derive(Clone, Debug, Eq, PartialEq)]
pub enum SessionEvent {
    Output,
    Exited { code: u32, signal: Option<String> },
    ReadFailed(String),
    WriteFailed(String),
}

/// The size of a PTY in the 16-bit terms of its protocol.
#[derive(Clone, Copy, Debug, Eq, PartialEq, Structural)]
pub struct PtyDimensions {
    pub rows: u16,
    pub cols: u16,
    pub pixel_width: u16,
    pub pixel_height: u16,
}

/// `value` where it fits in 16 bits, else the largest value that does.
pub open spec fn clamped_dimension(value: int) -> u16 {
    if value > u16::MAX {
        u16::MAX
    } else {
        value as u16
    }
}

/// The size of a PTY for a screen; its size in pixels is left open.
pub open spec fn pty_size(size: TerminalSize) -> PtyDimensions {
    PtyDimensions {
        rows: clamped_dimension(size.lines as int),
        cols: clamped_dimension(size.columns as int),
        pixel_width: 0,
        pixel_height: 0,
    }
}

/// The size of a PTY for a screen; its size in pixels is left open.
#[must_use]
pub fn to_pty_size(size: TerminalSize) -> (res: PtyDimensions)
    ensures
        res == pty_size(size),
{
    let rows = if size.lines > 65_535 {
        65_535
    } else {
        size.lines as u16
    };
    let cols = if size.columns > 65_535 {
        65_535
    } else {
        size.columns as u16
    };
    PtyDimensions { rows, cols, pixel_width: 0, pixel_height: 0 }
}

/// How a shell is started.
#[derive(Clone, Debug, Eq, PartialEq)]
pub struct LaunchPlan {
    pub program: String,
    pub args: Vec<String>,
    pub environment: Vec<(String, String)>,
    pub cwd: Option<String>,
}

/// The names and values of environment variables.
pub open spec fn variables(environment: Seq<(String, String)>) -> Seq<(Seq<char>, Seq<char>)> {
    environment.map_values(|variable: (String, String)| (variable.0@, variable.1@))
}

/// What the environment of a shell says of the terminal.
pub open spec fn advertised() -> Seq<(Seq<char>, Seq<char>)> {
    seq![("TERM"@, "xterm-256color"@), ("COLORTERM"@, "truecolor"@)]
}

/// Plans the start of a shell. The environment advertises a terminal with full colors, so that
/// prompts do not fall back to those of a dumb terminal.
#[must_use]
pub fn launch_plan(shell: &ShellProfile) -> (res: LaunchPlan)
    ensures
        res.program@ == shell.program@,
        texts(res.args@) == texts(shell.args@),
        optional_text(res.cwd) == optional_text(shell.cwd),
        variables(res.environment@) == advertised(),
{
    let mut environment: Vec<(String, String)> = Vec::new();
    environment.push(("TERM".to_owned(), "xterm-256color".to_owned()));
    environment.push(("COLORTERM".to_owned(), "truecolor".to_owned()));
    assert(variables(environment@) =~= seq![
        ("TERM"@, "xterm-256color"@),
        ("COLORTERM"@, "truecolor"@),
    ]);
    LaunchPlan {
        program: shell.program.clone(),
        args: clone_texts(&shell.args),
        environment,
        cwd: clone_text(&shell.cwd),
    }
}

/// How a shell ended: with a code and perhaps a signal, or in a way that could not be found out.
pub open spec fn end_told(status: Result<(u32, Option<String>), String>) -> SessionEvent {
    match status {
        Ok((code, signal)) => SessionEvent::Exited { code, signal },
        Err(error) => SessionEvent::ReadFailed(error),
    }
}

/// How a shell ended: with a code and perhaps a signal, or in a way that could not be found out.
#[must_use]
pub fn exit_event(status: Result<(u32, Option<String>), String>) -> (res: SessionEvent)
    ensures
        res == end_told(status),
{
    match status {
        Ok((code, signal)) => SessionEvent::Exited { code, signal },
        Err(error) => SessionEvent::ReadFailed(error),
    }
}

/// Input that is gathered to be written at once.
pub struct WriteBatch {
    bytes: Vec<u8>,
}

impl View for WriteBatch {
    type V = Seq<u8>;

    closed spec fn view(&self) -> Seq<u8> {
        self.bytes@
    }
}

impl WriteBatch {
    #[must_use]
    pub fn new(first: Vec<u8>) -> (res: Self)
        ensures
            res@ == first@,
    {
        WriteBatch { bytes: first }
    }

    /// Whether there is room for another chunk.
    #[must_use]
    pub fn wants_more(&self) -> (res: bool)
        ensures
            res == (self@.len() < WRITE_BATCH_BYTES),
    {
        self.bytes.len() < WRITE_BATCH_BYTES
    }

    /// Adds a chunk behind what was gathered before.
    pub fn push(&mut self, chunk: &[u8])
        ensures
            final(self)@ == old(self)@ + chunk@,
    {
        self.bytes.extend_from_slice(chunk);
        assert(self.bytes@ =~= old(self)@ + chunk@);
    }

    /// The bytes to write.
    #[must_use]
    pub fn into_bytes(self) -> (res: Vec<u8>)
        ensures
            res@ == self@,
    {
        self.bytes
    }
}

/// What reading from the shell came to.
pub enum ReadOutcome {
    /// There is nothing more to come.
    Closed,
    Bytes(Vec<u8>),
    Failed(String),
}

/// What is to be done after reading from the shell.
#[derive(Clone, Debug, Eq, PartialEq)]
pub enum ReadStep {
    /// Stop reading; an event is passed on where there is one.
    Stop(Option<SessionEvent>),
    /// Send the responses to the shell, pass on that there is output, and read on.
    Continue { responses: Vec<Vec<u8>> },
}

/// Whether handing what was read to the terminal leads from `before` to `after` and to `step`.
pub open spec fn reading_leads_to<T: TerminalModel>(
    before: T,
    outcome: ReadOutcome,
    after: T,
    step: ReadStep,
) -> bool {
    match (outcome, step) {
        (ReadOutcome::Closed, ReadStep::Stop(event)) => event is None && after.state()
            == before.state(),
        (ReadOutcome::Failed(error), ReadStep::Stop(event)) => event == Some(
            SessionEvent::ReadFailed(error),
        ) && after.state() == before.state(),
        (ReadOutcome::Bytes(bytes), ReadStep::Continue { responses }) => {
            let fed = before.state().fed(before.input_effect(bytes@));
            let state = after.state();
            &&& byte_strings(responses@) == host_writes(fed.pending)
            &&& state.well_formed()
            &&& state == (ModelState { pending: T::left_behind(fed.pending), ..fed })
        },
        _ => false,
    }
}

/// Hands what was read to the terminal, and decides what is to be done next. All that the terminal
/// wants to answer goes to the shell, in order.
pub fn read_step<T: TerminalModel>(terminal: &mut T, outcome: ReadOutcome) -> (res: ReadStep)
    requires
        old(terminal).state().well_formed(),
    ensures
        reading_leads_to(*old(terminal), outcome, *final(terminal), res),
{
    match outcome {
        ReadOutcome::Closed => ReadStep::Stop(None),
        ReadOutcome::Failed(error) => ReadStep::Stop(Some(SessionEvent::ReadFailed(error))),
        ReadOutcome::Bytes(bytes) => {
            terminal.feed(bytes.as_slice());
            ReadStep::Continue { responses: terminal.drain_host_responses() }
        },
    }
}

/// What became of a chunk of input.
#[derive(Clone, Copy, Debug, Eq, PartialEq, Structural)]
pub enum SendOutcome {
    Queued,
    Full,
    Disconnected,
}

/// What queueing input comes to.
pub open spec fn queueing_result(outcome: SendOutcome) -> Result<(), PtyError> {
    match outcome {
        SendOutcome::Queued => Ok(()),
        SendOutcome::Full => Err(PtyError::InputBackpressure),
        SendOutcome::Disconnected => Err(PtyError::InputClosed),
    }
}

/// What queueing input comes to.
#[must_use]
pub fn write_result(outcome: SendOutcome) -> (res: Result<(), PtyError>)
    ensures
        res == queueing_result(outcome),
{
    match outcome {
        SendOutcome::Queued => Ok(()),
        SendOutcome::Full => Err(PtyError::InputBackpressure),
        SendOutcome::Disconnected => Err(PtyError::InputClosed),
    }
}

/// The chunks that went into the queue through its sending end, in order.
pub uninterp spec fn taken(queue: Sender<Vec<u8>>) -> Seq<Seq<u8>>;

/// The chunks that have gone into the queue after a chunk was offered: it is the last one where the
/// queue took it, and they are the same where it did not.
pub open spec fn taken_after(before: Seq<Seq<u8>>, chunk: Seq<u8>, outcome: SendOutcome) -> Seq<
    Seq<u8>,
> {
    match outcome {
        SendOutcome::Queued => before.push(chunk),
        SendOutcome::Full | SendOutcome::Disconnected => before,
    }
}

/// Offers a chunk to the queue with `crossbeam_channel::Sender::try_send`, which does not block.
/// Whether there is room, and anybody left to take it, depends on the other threads, so which
/// outcome it is is not said.
#[verifier::external_body]
fn try_send(queue: &mut Sender<Vec<u8>>, chunk: Vec<u8>) -> (res: SendOutcome)
    ensures
        taken(*final(queue)) == taken_after(taken(*old(queue)), chunk@, res),
{
    match queue.try_send(chunk) {
        Ok(()) => SendOutcome::Queued,
        Err(TrySendError::Full(_)) => SendOutcome::Full,
        Err(TrySendError::Disconnected(_)) => SendOutcome::Disconnected,
    }
}

/// Queues user or terminal-generated bytes for the shell, as one chunk behind all earlier ones.
/// Nothing is queued where there is an error.
///
/// # Errors
///
/// Returns [`PtyError::InputClosed`] after the writer has stopped, and
/// [`PtyError::InputBackpressure`] while the queue is full.
pub fn queue_input(queue: &mut Sender<Vec<u8>>, bytes: Vec<u8>) -> (res: Result<(), PtyError>)
    ensures
        exists|outcome: SendOutcome|
            res == #[trigger] queueing_result(outcome) && taken(*final(queue)) == taken_after(
                taken(*old(queue)),
                bytes@,
                outcome,
            ),
        res is Ok ==> taken(*final(queue)) == taken(*old(queue)).push(bytes@),
        res is Err ==> taken(*final(queue)) == taken(*old(queue)),
{
    let outcome = try_send(queue, bytes);
    let res = write_result(outcome);
    assert(res == queueing_result(outcome));
    res
}

/// The shell is told the size of the screen, lines as rows and columns as columns. What does not fit
/// in the protocol is told as the largest number that does.
pub proof fn law_shell_is_told_the_size(size: TerminalSize)
    ensures
        size.lines <= 65535 ==> pty_size(size).rows == size.lines,
        size.columns <= 65535 ==> pty_size(size).cols == size.columns,
        size.lines > 65535 ==> pty_size(size).rows == 65535,
        size.columns > 65535 ==> pty_size(size).cols == 65535,
        pty_size(size).pixel_width == 0,
        pty_size(size).pixel_height == 0,
{
}

/// The end of a shell is told with its code and its signal. Where they could not be found out the
/// reason is told.
pub proof fn law_end_is_told(code: u32, signal: Option<String>, error: String)
    ensures
        end_told(Ok((code, signal))) matches SessionEvent::Exited { code: told, signal: by } && told
            == code && by == signal,
        end_told(Err(error)) matches SessionEvent::ReadFailed(reason) && reason == error,
{
}

/// The environment names a terminal with 256 colors and with full colors, each under the variable by
/// which programs look for it.
pub proof fn law_full_colors_are_advertised()
    ensures
        advertised().len() == 2,
        exists|i: int|
            0 <= i < 2 && (#[trigger] advertised()[i]).0 == seq!['T', 'E', 'R', 'M'] && advertised()[i].1.skip(
                advertised()[i].1.len() - 8,
            ) == seq!['2', '5', '6', 'c', 'o', 'l', 'o', 'r'],
        exists|i: int|
            0 <= i < 2 && (#[trigger] advertised()[i]).0 == seq![
                'C',
                'O',
                'L',
                'O',
                'R',
                'T',
                'E',
                'R',
                'M',
            ] && advertised()[i].1 == seq!['t', 'r', 'u', 'e', 'c', 'o', 'l', 'o', 'r'],
{
    reveal_strlit("TERM");
    reveal_strlit("xterm-256color");
    reveal_strlit("COLORTERM");
    reveal_strlit("truecolor");
    assert("TERM"@ =~= seq!['T', 'E', 'R', 'M']);
    assert("xterm-256color"@.skip(6) =~= seq!['2', '5', '6', 'c', 'o', 'l', 'o', 'r']);
    assert("COLORTERM"@ =~= seq!['C', 'O', 'L', 'O', 'R', 'T', 'E', 'R', 'M']);
    assert("truecolor"@ =~= seq!['t', 'r', 'u', 'e', 'c', 'o', 'l', 'o', 'r']);
    assert(advertised()[0].0 == "TERM"@ && advertised()[1].0 == "COLORTERM"@);
}

/// Reading goes on for as long as there are bytes, and stops at the end or at a failure, of which the
/// window is told. Only bytes change the terminal, and all that it answers to them goes to the shell:
/// what it answered before, and then what these bytes ask for.
pub proof fn law_output_is_answered<T: TerminalModel>(
    before: T,
    outcome: ReadOutcome,
    after: T,
    step: ReadStep,
)
    requires
        reading_leads_to(before, outcome, after, step),
    ensures
        step is Continue <==> outcome is Bytes,
        !(outcome is Bytes) ==> after.state() == before.state(),
        outcome is Closed ==> (step matches ReadStep::Stop(event) && event is None),
        outcome matches ReadOutcome::Failed(error) ==> (step matches ReadStep::Stop(event) && (event
            matches Some(SessionEvent::ReadFailed(reason)) && reason == error)),
        outcome matches ReadOutcome::Bytes(bytes) ==> {
            let effect = before.input_effect(bytes@);
            &&& after.state().content == effect.content
            &&& step matches ReadStep::Continue { responses } && byte_strings(responses@)
                == host_writes(before.state().pending) + host_writes(actions_for(effect.sent))
        },
{
    if let ReadOutcome::Bytes(bytes) = outcome {
        let effect = before.input_effect(bytes@);
        law_host_writes_keep_their_order(before.state().pending, actions_for(effect.sent));
    }
}

/// Input is taken if and only if the queue took it. A full queue and a closed one are told apart.
pub proof fn law_refused_input_is_told(outcome: SendOutcome)
    ensures
        queueing_result(outcome) is Ok <==> outcome is Queued,
        outcome is Full ==> (queueing_result(outcome) matches Err(error)
            && error is InputBackpressure),
        outcome is Disconnected ==> (queueing_result(outcome) matches Err(error)
            && error is InputClosed),
{
}

/// Whether `text` ends in `end`.
pub open spec fn tells_cause(text: Seq<char>, end: Seq<char>) -> bool {
    text.len() > end.len() && text.skip(text.len() - end.len()) == end
}

/// Every error that has a cause is told with the cause at its end, behind what was being done.
pub proof fn law_session_errors_tell_their_cause(cause: String, name: String)
    ensures
        tells_cause(pty_message(PtyError::Open(cause)), cause@),
        tells_cause(pty_message(PtyError::CloneReader(cause)), cause@),
        tells_cause(pty_message(PtyError::Writer(cause)), cause@),
        tells_cause(pty_message(PtyError::Spawn(cause)), cause@),
        tells_cause(pty_message(PtyError::SpawnThread { name, source: cause }), cause@),
        tells_cause(pty_message(PtyError::Resize(cause)), cause@),
        tells_cause(pty_message(PtyError::Terminate(cause)), cause@),
        pty_message(PtyError::InputClosed) != pty_message(PtyError::InputBackpressure),
{
    reveal_strlit("failed to open local PTY: ");
    reveal_strlit("failed to clone PTY reader: ");
    reveal_strlit("failed to acquire PTY writer: ");
    reveal_strlit("failed to spawn shell: ");
    reveal_strlit("failed to spawn ");
    reveal_strlit(" thread: ");
    reveal_strlit("failed to resize PTY: ");
    reveal_strlit("failed to terminate shell: ");
    reveal_strlit("terminal input channel is closed");
    reveal_strlit("terminal input queue is full");
    lemma_cause_at_the_end("failed to open local PTY: "@, cause@);
    lemma_cause_at_the_end("failed to clone PTY reader: "@, cause@);
    lemma_cause_at_the_end("failed to acquire PTY writer: "@, cause@);
    lemma_cause_at_the_end("failed to spawn shell: "@, cause@);
    lemma_cause_at_the_end("failed to spawn "@ + name@ + " thread: "@, cause@);
    lemma_cause_at_the_end("failed to resize PTY: "@, cause@);
    lemma_cause_at_the_end("failed to terminate shell: "@, cause@);
    assert("terminal input channel is closed"@.len() == 32);
    assert("terminal input queue is full"@.len() == 28);
}

proof fn lemma_cause_at_the_end(start: Seq<char>, cause: Seq<char>)
    requires
        start.len() > 0,
    ensures
        tells_cause(start + cause, cause),
{
    assert((start + cause).skip(start.len() as int) =~= cause);
}

} // verus!
