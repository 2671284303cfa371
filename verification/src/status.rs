//! The progress of a write: the errors of the service, the status updates
//! sent to the browser, and the state machine that follows the writer
//! program from its start, through the lines it prints, to its exit.

use vstd::prelude::*;
use vstd::utf8::{decode_utf8, valid_utf8};
use crate::numbers::{decimal, decimal_text};
use crate::text::{
    append_chars, chars_equal, chars_of, ends_with, ends_with_chars, string_of, trim, trimmed,
};

verus! {

/// The number of lines the writer prints for a complete write.
pub const TOTAL_LINES: u64 = 159;

/// An error of the service.
pub enum Error {
    /// Something went wrong while writing; the text says what.
    Internal(String),
    /// The requested dump does not exist; the text names it.
    NotFound(String),
}

/// What an error is made of.
pub enum ErrorView {
    Internal(Seq<char>),
    NotFound(Seq<char>),
}

impl View for Error {
    type V = ErrorView;

    open spec fn view(&self) -> ErrorView {
        match self {
            Error::Internal(m) => ErrorView::Internal(m@),
            Error::NotFound(m) => ErrorView::NotFound(m@),
        }
    }
}

/// The message of an error: `Error: ` before the text of an internal error,
/// ` was not found` after the text of a missing dump.
pub open spec fn error_message(e: ErrorView) -> Seq<char> {
    match e {
        ErrorView::Internal(m) => seq!['E', 'r', 'r', 'o', 'r', ':', ' '] + m,
        ErrorView::NotFound(m) => m + seq![' ', 'w', 'a', 's', ' ', 'n', 'o', 't', ' ', 'f', 'o', 'u', 'n', 'd'],
    }
}

impl Error {
    /// The message of the error, as [`error_message`] says.
    pub fn message(&self) -> (r: String)
        ensures
            r@ == error_message(self@),
    {
        match self {
            Error::Internal(m) => {
                let head: Vec<char> = vec!['E', 'r', 'r', 'o', 'r', ':', ' '];
                assert(head@ =~= seq!['E', 'r', 'r', 'o', 'r', ':', ' ']);
                let mut r = string_of(&head);
                append_chars(&mut r, &chars_of(m.as_str()));
                r
            },
            Error::NotFound(m) => {
                let tail: Vec<char> = vec![' ', 'w', 'a', 's', ' ', 'n', 'o', 't', ' ', 'f', 'o', 'u', 'n', 'd'];
                assert(tail@ =~= seq![' ', 'w', 'a', 's', ' ', 'n', 'o', 't', ' ', 'f', 'o', 'u', 'n', 'd']);
                let mut r = string_of(&chars_of(m.as_str()));
                append_chars(&mut r, &tail);
                r
            },
        }
    }
}

/// A status update of a write, as sent to the browser.
#[derive(Debug, PartialEq)]
pub enum CmdStatus {
    /// The writer program has started.
    Started,
    /// The writer program has finished successfully.
    Success,
    /// The write has progressed to this percentage.
    Progress(u64),
    /// The write failed; the text says why.
    Failed(String),
}

/// What a status update is made of.
pub enum StatusView {
    Started,
    Success,
    Progress(nat),
    Failed(Seq<char>),
}

impl View for CmdStatus {
    type V = StatusView;

    open spec fn view(&self) -> StatusView {
        match self {
            CmdStatus::Started => StatusView::Started,
            CmdStatus::Success => StatusView::Success,
            CmdStatus::Progress(p) => StatusView::Progress(*p as nat),
            CmdStatus::Failed(m) => StatusView::Failed(m@),
        }
    }
}

/// The percentage of a write that `lines` printed lines stand for: the whole
/// part of `lines * 100 / 159`.
pub open spec fn progress_percent(lines: nat) -> nat {
    lines * 100 / (TOTAL_LINES as nat)
}

/// The line with which the writer announces a complete write.
pub open spec fn finished_line() -> Seq<char> {
    seq!['F', 'i', 'n', 'i', 's', 'h', 'e', 'd', ' ', 'w', 'r', 'i', 't', 'i', 'n', 'g', ' ', 't', 'a', 'g']
}

/// The ending with which the writer announces a failed step.
pub open spec fn failed_suffix() -> Seq<char> {
    seq!['.', '.', '.', 'F', 'a', 'i', 'l', 'e', 'd']
}

/// The error when the writer stopped printing after `lines` lines, too early.
pub open spec fn early_exit_message(lines: nat) -> Seq<char> {
    seq![
        'E', 'x', 'i', 't', 'e', 'd', ' ', 'e', 'a', 'r', 'l', 'y', ' ', 'e', 'x', 'p', 'e', 'c',
        't', 'e', 'd', ' ', '1', '5', '9', ' ', 'f', 'o', 'u', 'n', 'd', ' ',
    ] + decimal(lines)
}

/// `Exited unsuccessfully: `, the start of the reports of failed writes.
pub open spec fn unsuccessful_prefix() -> Seq<char> {
    seq![
        'E', 'x', 'i', 't', 'e', 'd', ' ', 'u', 'n', 's', 'u', 'c', 'c', 'e', 's', 's', 'f', 'u',
        'l', 'l', 'y', ':', ' ',
    ]
}

/// `Spawn Failure: `, the start of the report of a writer that could not start.
pub open spec fn spawn_failure_prefix() -> Seq<char> {
    seq!['S', 'p', 'a', 'w', 'n', ' ', 'F', 'a', 'i', 'l', 'u', 'r', 'e', ':', ' ']
}

fn unsuccessful_prefix_text() -> (r: String)
    ensures
        r@ == unsuccessful_prefix(),
{
    let v: Vec<char> = vec![
        'E', 'x', 'i', 't', 'e', 'd', ' ', 'u', 'n', 's', 'u', 'c', 'c', 'e', 's', 's', 'f', 'u',
        'l', 'l', 'y', ':', ' ',
    ];
    assert(v@ =~= unsuccessful_prefix());
    string_of(&v)
}

/// The text of bytes read as UTF-8, with invalid sequences replaced
/// (`String::from_utf8_lossy`).
pub uninterp spec fn utf8_lossy(bytes: Seq<u8>) -> Seq<char>;

/// Reads bytes as UTF-8 text with `String::from_utf8_lossy`.
///
/// The contract names the result and claims what std documents: bytes that are valid
/// UTF-8 give exactly the text they encode. It does not state which replacement
/// characters stand for invalid sequences.
#[verifier::external_body]
fn lossy_text(bytes: &Vec<u8>) -> (r: String)
    ensures
        r@ == utf8_lossy(bytes@),
        valid_utf8(bytes@) ==> r@ == decode_utf8(bytes@),
{
    String::from_utf8_lossy(bytes.as_slice()).into_owned()
}

/// How the wait for the writer program ended.
pub enum ExitReport {
    /// The wait itself failed; the text says why.
    WaitFailed(String),
    /// The program exited: whether successfully, its exit status as text, and
    /// what it wrote to its error output.
    Exited { success: bool, status: String, stderr: Vec<u8> },
}

/// The status update that reports how the writer program ended: success, the
/// failure of the wait, or `Exited unsuccessfully: `, the exit status, ` - `
/// and the trimmed error output.
pub open spec fn exit_status(report: ExitReport) -> StatusView {
    match report {
        ExitReport::WaitFailed(m) => StatusView::Failed(m@),
        ExitReport::Exited { success, status, stderr } => if success {
            StatusView::Success
        } else {
            StatusView::Failed(
                unsuccessful_prefix() + status@ + seq![' ', '-', ' '] + trim(utf8_lossy(stderr@)),
            )
        },
    }
}

/// The status update that reports how the writer program ended, as
/// [`exit_status`] says.
pub fn exit_report_status(report: ExitReport) -> (r: CmdStatus)
    ensures
        r@ == exit_status(report),
        report matches ExitReport::Exited { success, status, stderr } ==> (!success && valid_utf8(
            stderr@,
        ) ==> r@ == StatusView::Failed(
            unsuccessful_prefix() + status@ + seq![' ', '-', ' '] + trim(decode_utf8(stderr@)),
        )),
{
    match report {
        ExitReport::WaitFailed(m) => CmdStatus::Failed(m),
        ExitReport::Exited { success, status, stderr } => {
            if success {
                CmdStatus::Success
            } else {
                let mut r = unsuccessful_prefix_text();
                append_chars(&mut r, &chars_of(status.as_str()));
                let sep: Vec<char> = vec![' ', '-', ' '];
                assert(sep@ =~= seq![' ', '-', ' ']);
                append_chars(&mut r, &sep);
                let info = lossy_text(&stderr);
                append_chars(&mut r, &trimmed(&chars_of(info.as_str())));
                CmdStatus::Failed(r)
            }
        },
    }
}

/// What the follower of the writer's output does next.
pub enum WatchAction {
    /// Send this update, then read the next line.
    Send(CmdStatus),
    /// Send this update, then stop reading: the write is complete.
    SendLast(CmdStatus),
    /// Stop, with this outcome.
    Done(Result<(), Error>),
}

/// What happened while following the writer's output.
pub enum WatchEvent {
    /// The writer printed this line.
    Line(String),
    /// The writer's output ended, or could not be read further.
    Closed,
    /// The last update could not be sent; the text says why.
    SendFailed(String),
}

/// What an action of the follower is made of.
pub enum WatchActionView {
    Send(StatusView),
    SendLast(StatusView),
    Done(Result<(), ErrorView>),
}

impl View for WatchAction {
    type V = WatchActionView;

    open spec fn view(&self) -> WatchActionView {
        match self {
            WatchAction::Send(s) => WatchActionView::Send(s@),
            WatchAction::SendLast(s) => WatchActionView::SendLast(s@),
            WatchAction::Done(Ok(())) => WatchActionView::Done(Ok(())),
            WatchAction::Done(Err(e)) => WatchActionView::Done(Err(e@)),
        }
    }
}

/// Follows the writer's output, counting its lines.
pub struct StdoutWatch {
    /// The lines counted so far.
    pub lines: u64,
}

/// The line count after one more line (it stays at its maximum there).
pub open spec fn next_count(lines: u64) -> u64 {
    if lines < u64::MAX {
        (lines + 1) as u64
    } else {
        lines
    }
}

/// One step of following the writer's output: the new line count and the
/// action. A line that ends with `...Failed` stops with an internal error
/// holding the line; `Finished writing tag` completes the write (the count
/// becomes 159 and 100 percent is sent last); any other line sends the
/// percentage of the new count. The end of the output stops, with success
/// when 159 lines or more were counted and with the early-exit error
/// otherwise. A failed send stops with an internal error holding its reason.
pub open spec fn watch_step(lines: u64, event: WatchEvent) -> (u64, WatchActionView) {
    match event {
        WatchEvent::Line(line) => {
            let n = next_count(lines);
            if ends_with(line@, failed_suffix()) {
                (n, WatchActionView::Done(Err(ErrorView::Internal(line@))))
            } else if line@ == finished_line() {
                (TOTAL_LINES, WatchActionView::SendLast(StatusView::Progress(100)))
            } else {
                (n, WatchActionView::Send(StatusView::Progress(progress_percent(n as nat))))
            }
        },
        WatchEvent::Closed => if lines < TOTAL_LINES {
            (lines, WatchActionView::Done(Err(ErrorView::Internal(early_exit_message(lines as nat)))))
        } else {
            (lines, WatchActionView::Done(Ok(())))
        },
        WatchEvent::SendFailed(m) => (lines, WatchActionView::Done(Err(ErrorView::Internal(m@)))),
    }
}

/// The percentage that `lines` printed lines stand for, as [`progress_percent`] says.
pub fn percent_of(lines: u64) -> (p: u64)
    ensures
        p as nat == progress_percent(lines as nat),
{
    let q = lines / 159;
    let r = lines % 159;
    proof {
        assert(q <= 0xFFFF_FFFF_FFFF_FFFFu64 / 159);
        assert((lines as nat) * 100 / 159 == q * 100 + r * 100 / 159) by (nonlinear_arith)
            requires
                lines == q * 159 + r,
                0 <= r < 159,
        {
            assert(lines * 100 == (q * 100) * 159 + r * 100);
        }
    }
    q * 100 + r * 100 / 159
}

impl StdoutWatch {
    /// A follower that has counted no line yet.
    pub fn new() -> (w: StdoutWatch)
        ensures
            w.lines == 0,
    {
        StdoutWatch { lines: 0 }
    }

    /// Takes one event of the writer's output, as [`watch_step`] says.
    pub fn step(&mut self, event: WatchEvent) -> (a: WatchAction)
        ensures
            (final(self).lines, a@) == watch_step(old(self).lines, event),
    {
        match event {
            WatchEvent::Line(line) => {
                let n = if self.lines < u64::MAX {
                    self.lines + 1
                } else {
                    self.lines
                };
                let v = chars_of(line.as_str());
                let suffix: Vec<char> = vec!['.', '.', '.', 'F', 'a', 'i', 'l', 'e', 'd'];
                assert(suffix@ =~= failed_suffix());
                let finished: Vec<char> = vec![
                    'F', 'i', 'n', 'i', 's', 'h', 'e', 'd', ' ', 'w', 'r', 'i', 't', 'i', 'n', 'g',
                    ' ', 't', 'a', 'g',
                ];
                assert(finished@ =~= finished_line());
                if ends_with_chars(&v, &suffix) {
                    self.lines = n;
                    WatchAction::Done(Err(Error::Internal(line)))
                } else if chars_equal(&v, &finished) {
                    self.lines = TOTAL_LINES;
                    WatchAction::SendLast(CmdStatus::Progress(100))
                } else {
                    self.lines = n;
                    WatchAction::Send(CmdStatus::Progress(percent_of(n)))
                }
            },
            WatchEvent::Closed => {
                if self.lines < TOTAL_LINES {
                    let head: Vec<char> = vec![
                        'E', 'x', 'i', 't', 'e', 'd', ' ', 'e', 'a', 'r', 'l', 'y', ' ', 'e', 'x',
                        'p', 'e', 'c', 't', 'e', 'd', ' ', '1', '5', '9', ' ', 'f', 'o', 'u', 'n',
                        'd', ' ',
                    ];
                    let mut m = string_of(&head);
                    let count = decimal_text(self.lines);
                    append_chars(&mut m, &chars_of(count.as_str()));
                    assert(m@ =~= early_exit_message(self.lines as nat));
                    WatchAction::Done(Err(Error::Internal(m)))
                } else {
                    WatchAction::Done(Ok(()))
                }
            },
            WatchEvent::SendFailed(m) => WatchAction::Done(Err(Error::Internal(m))),
        }
    }
}

/// Where a write stands.
#[derive(Clone, Copy, PartialEq, Eq, Structural, Debug)]
pub enum Phase {
    /// The writer program is being started.
    Spawning,
    /// The writer's output is followed; this many lines were counted.
    Watching(u64),
    /// The writer's exit is awaited.
    Waiting,
    /// Nothing more happens.
    Finished,
}

/// What happened during a write.
pub enum SessionEvent {
    /// The writer program could not be started; the text says why.
    SpawnFailed(String),
    /// The writer program started; whether its output can be read.
    Spawned(bool),
    /// The writer printed this line.
    Line(String),
    /// The writer's output ended, or could not be read further.
    StdoutClosed,
    /// The update sent last could not be sent; the text says why.
    SendFailed(String),
    /// The writer program ended.
    Exited(ExitReport),
}

/// What to do after sending the update of a step.
#[derive(Clone, Copy, PartialEq, Eq, Structural, Debug)]
pub enum Next {
    /// Read the next line of the writer's output.
    ReadLine,
    /// Stop reading the writer's output: report that it ended.
    EndWatch,
    /// Wait for the writer to exit.
    WaitExit,
    /// Stop.
    Stop,
}

/// One step of a write: the update to send, if any; whether a failure to send
/// it must be reported (as [`SessionEvent::SendFailed`], in place of what
/// `next` asks for); and what to do next.
pub struct SessionStep {
    pub send: Option<CmdStatus>,
    pub checked: bool,
    pub next: Next,
}

/// What a step is made of.
pub open spec fn step_view(s: SessionStep) -> (Option<StatusView>, bool, Next) {
    (
        match s.send {
            Some(st) => Some(st@),
            None => None,
        },
        s.checked,
        s.next,
    )
}

/// The follower's event for an event of the write, if it is one.
pub open spec fn as_watch_event(event: SessionEvent) -> Option<WatchEvent> {
    match event {
        SessionEvent::Line(l) => Some(WatchEvent::Line(l)),
        SessionEvent::StdoutClosed => Some(WatchEvent::Closed),
        SessionEvent::SendFailed(m) => Some(WatchEvent::SendFailed(m)),
        _ => None,
    }
}

/// One step of a write, from the phase it stands in and what happened: the
/// new phase, the update to send, whether a failed send must be reported,
/// and what to do next.
///
/// A writer that cannot start is reported as `Spawn Failure: ` and the
/// reason, and the write ends. A started writer is reported as started; its
/// output is then followed if it can be read, else its exit is awaited. While
/// the output is followed, each event goes to [`watch_step`]: its updates are
/// sent and their failures reported; once it is done, a failure is reported as
/// `Exited unsuccessfully: ` and the error's message, and the exit is awaited.
/// The exit is reported as [`exit_status`] says, and the write ends. Any other
/// event ends the write with nothing sent.
pub open spec fn session_step(phase: Phase, event: SessionEvent) -> (
    Phase,
    (Option<StatusView>, bool, Next),
) {
    match (phase, event) {
        (Phase::Spawning, SessionEvent::SpawnFailed(m)) => (
            Phase::Finished,
            (Some(StatusView::Failed(spawn_failure_prefix() + m@)), false, Next::Stop),
        ),
        (Phase::Spawning, SessionEvent::Spawned(readable)) => if readable {
            (Phase::Watching(0), (Some(StatusView::Started), false, Next::ReadLine))
        } else {
            (Phase::Waiting, (Some(StatusView::Started), false, Next::WaitExit))
        },
        (Phase::Waiting, SessionEvent::Exited(r)) => (
            Phase::Finished,
            (Some(exit_status(r)), false, Next::Stop),
        ),
        (Phase::Watching(lines), ev) => match as_watch_event(ev) {
            Some(w) => {
                let (n, a) = watch_step(lines, w);
                match a {
                    WatchActionView::Send(st) => (Phase::Watching(n), (Some(st), true, Next::ReadLine)),
                    WatchActionView::SendLast(st) => (
                        Phase::Watching(n),
                        (Some(st), true, Next::EndWatch),
                    ),
                    WatchActionView::Done(Ok(())) => (Phase::Waiting, (None, false, Next::WaitExit)),
                    WatchActionView::Done(Err(e)) => (
                        Phase::Waiting,
                        (
                            Some(StatusView::Failed(unsuccessful_prefix() + error_message(e))),
                            false,
                            Next::WaitExit,
                        ),
                    ),
                }
            },
            None => (Phase::Finished, (None, false, Next::Stop)),
        },
        _ => (Phase::Finished, (None, false, Next::Stop)),
    }
}

/// A write in progress.
pub struct Session {
    pub phase: Phase,
}

impl Session {
    /// A write whose writer program is being started.
    pub fn new() -> (s: Session)
        ensures
            s.phase == Phase::Spawning,
    {
        Session { phase: Phase::Spawning }
    }

    /// Takes one event of the write, as [`session_step`] says.
    pub fn step(&mut self, event: SessionEvent) -> (r: SessionStep)
        ensures
            (final(self).phase, step_view(r)) == session_step(old(self).phase, event),
            old(self).phase == Phase::Waiting ==> (event matches SessionEvent::Exited(
                ExitReport::Exited { success, status, stderr },
            ) ==> (!success && valid_utf8(stderr@) ==> (r.send matches Some(st) && st@
                == StatusView::Failed(
                unsuccessful_prefix() + status@ + seq![' ', '-', ' '] + trim(decode_utf8(stderr@)),
            )))),
    {
        match (self.phase, event) {
            (Phase::Spawning, SessionEvent::SpawnFailed(m)) => {
                let v: Vec<char> = vec![
                    'S', 'p', 'a', 'w', 'n', ' ', 'F', 'a', 'i', 'l', 'u', 'r', 'e', ':', ' ',
                ];
                assert(v@ =~= spawn_failure_prefix());
                let mut t = string_of(&v);
                append_chars(&mut t, &chars_of(m.as_str()));
                self.phase = Phase::Finished;
                SessionStep { send: Some(CmdStatus::Failed(t)), checked: false, next: Next::Stop }
            },
            (Phase::Spawning, SessionEvent::Spawned(readable)) => {
                if readable {
                    self.phase = Phase::Watching(0);
                    SessionStep { send: Some(CmdStatus::Started), checked: false, next: Next::ReadLine }
                } else {
                    self.phase = Phase::Waiting;
                    SessionStep { send: Some(CmdStatus::Started), checked: false, next: Next::WaitExit }
                }
            },
            (Phase::Waiting, SessionEvent::Exited(r)) => {
                self.phase = Phase::Finished;
                SessionStep { send: Some(exit_report_status(r)), checked: false, next: Next::Stop }
            },
            (Phase::Watching(lines), ev) => {
                let w = match ev {
                    SessionEvent::Line(l) => WatchEvent::Line(l),
                    SessionEvent::StdoutClosed => WatchEvent::Closed,
                    SessionEvent::SendFailed(m) => WatchEvent::SendFailed(m),
                    _ => {
                        self.phase = Phase::Finished;
                        return SessionStep { send: None, checked: false, next: Next::Stop };
                    },
                };
                let mut watch = StdoutWatch { lines };
                let a = watch.step(w);
                match a {
                    WatchAction::Send(st) => {
                        self.phase = Phase::Watching(watch.lines);
                        SessionStep { send: Some(st), checked: true, next: Next::ReadLine }
                    },
                    WatchAction::SendLast(st) => {
                        self.phase = Phase::Watching(watch.lines);
                        SessionStep { send: Some(st), checked: true, next: Next::EndWatch }
                    },
                    WatchAction::Done(Ok(())) => {
                        self.phase = Phase::Waiting;
                        SessionStep { send: None, checked: false, next: Next::WaitExit }
                    },
                    WatchAction::Done(Err(e)) => {
                        let mut t = unsuccessful_prefix_text();
                        let m = e.message();
                        append_chars(&mut t, &chars_of(m.as_str()));
                        self.phase = Phase::Waiting;
                        SessionStep { send: Some(CmdStatus::Failed(t)), checked: false, next: Next::WaitExit }
                    },
                }
            },
            _ => {
                self.phase = Phase::Finished;
                SessionStep { send: None, checked: false, next: Next::Stop }
            },
        }
    }
}

proof fn lemma_percent_bounds(a: nat, b: nat)
    ensures
        a <= b ==> progress_percent(a) <= progress_percent(b),
        a <= TOTAL_LINES ==> progress_percent(a) <= 100,
        progress_percent(TOTAL_LINES as nat) == 100,
{
    assert(a <= b ==> a * 100 / 159 <= b * 100 / 159) by (nonlinear_arith);
    assert(a <= 159 ==> a * 100 / 159 <= 100) by (nonlinear_arith);
}

/// Progress stays within bounds: while fewer than 159 lines have been
/// counted, every percentage that a step of the follower sends is at most 100.
pub proof fn law_progress_at_most_100(lines: u64, event: WatchEvent)
    requires
        lines < TOTAL_LINES,
    ensures
        match watch_step(lines, event).1 {
            WatchActionView::Send(StatusView::Progress(p)) => p <= 100,
            WatchActionView::SendLast(StatusView::Progress(p)) => p <= 100,
            _ => true,
        },
{
    lemma_percent_bounds((lines + 1) as nat, 0);
}

/// Progress never goes back: while at most 159 lines have been counted, the
/// percentage a step sends is no less than the percentage of the lines
/// counted before it.
pub proof fn law_progress_never_decreases(lines: u64, event: WatchEvent)
    requires
        lines <= TOTAL_LINES,
    ensures
        match watch_step(lines, event).1 {
            WatchActionView::Send(StatusView::Progress(p)) => p >= progress_percent(lines as nat),
            WatchActionView::SendLast(StatusView::Progress(p)) => p >= progress_percent(
                lines as nat,
            ),
            _ => true,
        },
{
    lemma_percent_bounds(lines as nat, (lines + 1) as nat);
    lemma_percent_bounds(lines as nat, 0);
}

/// A complete write ends well: once the writer announces a finished write,
/// 100 percent is sent last, and the end of its output then leads to the wait
/// for its exit without any failure being sent.
pub proof fn law_finished_write_succeeds(lines: u64, line: String)
    requires
        line@ == finished_line(),
    ensures
        ({
            let (phase, step) = session_step(Phase::Watching(lines), SessionEvent::Line(line));
            &&& phase == Phase::Watching(TOTAL_LINES)
            &&& step == (Some(StatusView::Progress(100)), true, Next::EndWatch)
            &&& session_step(phase, SessionEvent::StdoutClosed) == (
                Phase::Waiting,
                (Option::<StatusView>::None, false, Next::WaitExit),
            )
        }),
{
    assert(!ends_with(finished_line(), failed_suffix())) by {
        let f = finished_line();
        assert(f.skip(f.len() - failed_suffix().len())[8] != failed_suffix()[8]);
    }
}

/// A started writer is announced: the first update sent once the writer
/// program has started is that it started.
pub proof fn law_start_is_announced(readable: bool)
    ensures
        session_step(Phase::Spawning, SessionEvent::Spawned(readable)).1.0 == Some(
            StatusView::Started,
        ),
{
}

/// The exit is the last word: once the writer has exited, success or a
/// failure is sent, the write is finished and nothing more is done.
pub proof fn law_exit_is_last(report: ExitReport)
    ensures
        ({
            let (phase, (sent, _, next)) = session_step(Phase::Waiting, SessionEvent::Exited(report));
            &&& phase == Phase::Finished
            &&& next == Next::Stop
            &&& (sent == Some(StatusView::Success) || sent matches Some(StatusView::Failed(_)))
        }),
{
}

/// A finished write stays silent: whatever happens after it, nothing is sent
/// and nothing more is done.
pub proof fn law_finished_is_silent(event: SessionEvent)
    ensures
        session_step(Phase::Finished, event) == (
            Phase::Finished,
            (Option::<StatusView>::None, false, Next::Stop),
        ),
{
}

/// The phase reached and the updates sent, in order, when the events
/// `events` happen to a write standing in `phase`.
pub open spec fn run_from(phase: Phase, events: Seq<SessionEvent>) -> (Phase, Seq<StatusView>)
    decreases events.len(),
{
    if events.len() == 0 {
        (phase, seq![])
    } else {
        let (before, sent) = run_from(phase, events.drop_last());
        let (after, step) = session_step(before, events.last());
        (
            after,
            match step.0 {
                Some(st) => sent.push(st),
                None => sent,
            },
        )
    }
}

/// What holds of the updates sent so far in each phase of a write.
pub open spec fn run_invariant(phase: Phase, sent: Seq<StatusView>) -> bool {
    &&& phase == Phase::Spawning ==> sent.len() == 0
    &&& (phase is Watching || phase == Phase::Waiting) ==> sent.len() > 0 && forall|i: int|
        0 <= i < sent.len() ==> sent[i] != StatusView::Success
    &&& forall|i: int| 0 <= i < sent.len() && sent[i] == StatusView::Started ==> i == 0
    &&& forall|i: int| 0 <= i < sent.len() && sent[i] == StatusView::Success ==> i == sent.len() - 1
}

proof fn lemma_run_invariant(events: Seq<SessionEvent>)
    ensures
        run_invariant(run_from(Phase::Spawning, events).0, run_from(Phase::Spawning, events).1),
    decreases events.len(),
{
    if events.len() > 0 {
        lemma_run_invariant(events.drop_last());
        let (before, sent) = run_from(Phase::Spawning, events.drop_last());
        let ev = events.last();
        let (after, step) = session_step(before, ev);
        match before {
            Phase::Watching(lines) => {
                match as_watch_event(ev) {
                    Some(w) => {
                        let (n, a) = watch_step(lines, w);
                        assert(step.0 is None || (step.0 != Some(StatusView::Started) && step.0
                            != Some(StatusView::Success)));
                    },
                    None => {},
                }
            },
            _ => {},
        }
        let total = run_from(Phase::Spawning, events).1;
        assert forall|i: int| 0 <= i < total.len() && total[i] == StatusView::Started implies i
            == 0 by {
            if i < sent.len() {
                assert(total[i] == sent[i]);
            }
        }
        assert forall|i: int| 0 <= i < total.len() && total[i] == StatusView::Success implies i
            == total.len() - 1 by {
            if i < sent.len() {
                assert(total[i] == sent[i]);
            }
        }
    }
}

proof fn lemma_finished_run(events: Seq<SessionEvent>)
    ensures
        run_from(Phase::Finished, events) == (Phase::Finished, Seq::<StatusView>::empty()),
    decreases events.len(),
{
    if events.len() > 0 {
        lemma_finished_run(events.drop_last());
    }
}

proof fn lemma_run_append(phase: Phase, events: Seq<SessionEvent>, more: Seq<SessionEvent>)
    ensures
        run_from(phase, events + more) == (
            run_from(run_from(phase, events).0, more).0,
            run_from(phase, events).1 + run_from(run_from(phase, events).0, more).1,
        ),
    decreases more.len(),
{
    if more.len() == 0 {
        assert(events + more =~= events);
        assert(run_from(phase, events).1 + Seq::<StatusView>::empty() =~= run_from(phase, events).1);
    } else {
        assert((events + more).drop_last() =~= events + more.drop_last());
        assert((events + more).last() == more.last());
        lemma_run_append(phase, events, more.drop_last());
        let mid = run_from(phase, events).0;
        let (_, step) = session_step(run_from(mid, more.drop_last()).0, more.last());
        match step.0 {
            Some(st) => {
                assert(run_from(phase, events).1 + run_from(mid, more.drop_last()).1.push(st) =~= (
                run_from(phase, events).1 + run_from(mid, more.drop_last()).1).push(st));
            },
            None => {},
        }
    }
}

/// The order of the updates of a write: whatever happens, `Started` is sent
/// at most once and only as the first update, and `Success` at most once and
/// only as the last.
pub proof fn law_write_order(events: Seq<SessionEvent>)
    ensures
        ({
            let sent = run_from(Phase::Spawning, events).1;
            &&& forall|i: int| 0 <= i < sent.len() && sent[i] == StatusView::Started ==> i == 0
            &&& forall|i: int|
                0 <= i < sent.len() && sent[i] == StatusView::Success ==> i == sent.len() - 1
        }),
{
    lemma_run_invariant(events);
}

/// Nothing follows the end of a write: once a write has finished, as it does
/// when the exit of the writer has been reported, further events change
/// neither its phase nor the updates sent.
pub proof fn law_nothing_after_end(events: Seq<SessionEvent>, more: Seq<SessionEvent>)
    requires
        run_from(Phase::Spawning, events).0 == Phase::Finished,
    ensures
        run_from(Phase::Spawning, events + more) == run_from(Phase::Spawning, events),
{
    lemma_run_append(Phase::Spawning, events, more);
    lemma_finished_run(more);
    assert(run_from(Phase::Spawning, events).1 + Seq::<StatusView>::empty() =~= run_from(
        Phase::Spawning,
        events,
    ).1);
}

/// Whether a line is an ordinary line of the writer: it neither announces a
/// failed step nor a finished write.
pub open spec fn ordinary_line(line: Seq<char>) -> bool {
    !ends_with(line, failed_suffix()) && line != finished_line()
}

/// Each ordinary line is counted: from a count of `k` lines, an ordinary line
/// brings the count to `k + 1` and sends the whole part of `(k + 1) * 100 / 159`
/// as progress, then asks for the next line.
pub proof fn law_line_is_counted(k: u64, line: String)
    requires
        k < u64::MAX,
        ordinary_line(line@),
    ensures
        session_step(Phase::Watching(k), SessionEvent::Line(line)) == (
            Phase::Watching((k + 1) as u64),
            (Some(StatusView::Progress(((k + 1) * 100 / 159) as nat)), true, Next::ReadLine),
        ),
        watch_step(k, WatchEvent::Line(line)) == (
            (k + 1) as u64,
            WatchActionView::Send(StatusView::Progress(((k + 1) * 100 / 159) as nat)),
        ),
{
}

/// The events of a started write whose writer printed `lines`.
pub open spec fn started_with_lines(lines: Seq<String>) -> Seq<SessionEvent> {
    seq![SessionEvent::Spawned(true)] + lines.map_values(|l: String| SessionEvent::Line(l))
}

/// Progress follows the lines: after a start with readable output and `n`
/// ordinary lines, the write follows the output with `n` lines counted, one
/// update was sent per event, and the update sent last is `Started` when no
/// line came, else the whole part of `n * 100 / 159` as progress.
pub proof fn law_progress_follows_lines(lines: Seq<String>)
    requires
        forall|i: int| 0 <= i < lines.len() ==> ordinary_line(#[trigger] lines[i]@),
        lines.len() < u64::MAX,
    ensures
        ({
            let (phase, sent) = run_from(Phase::Spawning, started_with_lines(lines));
            let n = lines.len();
            &&& phase == Phase::Watching(n as u64)
            &&& sent.len() == n + 1
            &&& sent.last() == if n == 0 {
                StatusView::Started
            } else {
                StatusView::Progress((n * 100 / 159) as nat)
            }
        }),
    decreases lines.len(),
{
    let events = started_with_lines(lines);
    if lines.len() == 0 {
        assert(events =~= seq![SessionEvent::Spawned(true)]);
        assert(events.drop_last() =~= Seq::<SessionEvent>::empty());
        assert(run_from(Phase::Spawning, events.drop_last()) == (Phase::Spawning, Seq::<StatusView>::empty()));
        assert(events.last() == SessionEvent::Spawned(true));
    } else {
        let before = lines.drop_last();
        assert forall|i: int| 0 <= i < before.len() implies ordinary_line(#[trigger] before[i]@) by {
            assert(before[i] == lines[i]);
        }
        law_progress_follows_lines(before);
        assert(events.drop_last() =~= started_with_lines(before));
        assert(events.last() == SessionEvent::Line(lines.last()));
        assert(ordinary_line(lines[lines.len() - 1]@));
        let k = (lines.len() - 1) as u64;
        law_line_is_counted(k, lines.last());
        let (p0, sent0) = run_from(Phase::Spawning, started_with_lines(before));
        assert(p0 == Phase::Watching(k));
        let (p1, step) = session_step(p0, events.last());
        assert(p1 == Phase::Watching(lines.len() as u64));
        assert(run_from(Phase::Spawning, events).1 == sent0.push(
            StatusView::Progress((lines.len() * 100 / 159) as nat),
        ));
    }
}

/// An output that ends early is a failure: when it ends after fewer than 159
/// counted lines, the follower stops with the early-exit error naming the
/// count; with 159 or more it stops with success. During a write, the early
/// end is reported as `Exited unsuccessfully: Error: ` and that message.
pub proof fn law_early_end_fails(k: u64)
    ensures
        k < 159 ==> watch_step(k, WatchEvent::Closed) == (
            k,
            WatchActionView::Done(Err(ErrorView::Internal(early_exit_message(k as nat)))),
        ),
        k >= 159 ==> watch_step(k, WatchEvent::Closed) == (k, WatchActionView::Done(Ok(()))),
        k < 159 ==> session_step(Phase::Watching(k), SessionEvent::StdoutClosed) == (
            Phase::Waiting,
            (
                Some(
                    StatusView::Failed(
                        unsuccessful_prefix() + seq!['E', 'r', 'r', 'o', 'r', ':', ' ']
                            + early_exit_message(k as nat),
                    ),
                ),
                false,
                Next::WaitExit,
            ),
        ),
{
    let m = early_exit_message(k as nat);
    let e = seq!['E', 'r', 'r', 'o', 'r', ':', ' '];
    assert(unsuccessful_prefix() + (e + m) =~= unsuccessful_prefix() + e + m);
}

/// A successful exit is reported as success, whatever the writer wrote on its
/// error output and whatever its status text.
pub proof fn law_success_is_success(status: String, stderr: Vec<u8>)
    ensures
        exit_status(ExitReport::Exited { success: true, status, stderr }) == StatusView::Success,
        session_step(
            Phase::Waiting,
            SessionEvent::Exited(ExitReport::Exited { success: true, status, stderr }),
        ) == (Phase::Finished, (Some(StatusView::Success), false, Next::Stop)),
{
}

} // verus!
