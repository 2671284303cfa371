//! The messages of the event stream of a write: what the writer printed,
//! keep-alive pings, how it ended, and what went wrong.

use vstd::prelude::*;
use crate::text::{append_chars, chars_of, string_of};

verus! {

/// A message of the event stream of a write.
pub enum Message {
    /// Something went wrong; the text says what.
    Error(String),
    /// The writer program exited successfully.
    Success,
    /// The writer printed this line on its output.
    StdOut(String),
    /// The writer printed this line on its error output.
    StdErr(String),
    /// Nothing was printed for a while.
    Ping,
}

/// What a message is made of.
pub enum MessageView {
    Error(Seq<char>),
    Success,
    StdOut(Seq<char>),
    StdErr(Seq<char>),
    Ping,
}

impl View for Message {
    type V = MessageView;

    open spec fn view(&self) -> MessageView {
        match self {
            Message::Error(m) => MessageView::Error(m@),
            Message::Success => MessageView::Success,
            Message::StdOut(m) => MessageView::StdOut(m@),
            Message::StdErr(m) => MessageView::StdErr(m@),
            Message::Ping => MessageView::Ping,
        }
    }
}

/// The output streams of the writer program.
#[derive(Clone, Copy, PartialEq, Eq, Structural, Debug)]
pub enum Stream {
    Stdout,
    Stderr,
}

/// `Path not found: `.
pub open spec fn path_not_found_prefix() -> Seq<char> {
    seq!['P', 'a', 't', 'h', ' ', 'n', 'o', 't', ' ', 'f', 'o', 'u', 'n', 'd', ':', ' ']
}

/// `Error executing pimiibo: `.
pub open spec fn spawn_error_prefix() -> Seq<char> {
    seq![
        'E', 'r', 'r', 'o', 'r', ' ', 'e', 'x', 'e', 'c', 'u', 't', 'i', 'n', 'g', ' ', 'p', 'i',
        'm', 'i', 'i', 'b', 'o', ':', ' ',
    ]
}

/// `non-success exit status: `.
pub open spec fn exit_error_prefix() -> Seq<char> {
    seq![
        'n', 'o', 'n', '-', 's', 'u', 'c', 'c', 'e', 's', 's', ' ', 'e', 'x', 'i', 't', ' ', 's',
        't', 'a', 't', 'u', 's', ':', ' ',
    ]
}

/// `error while waiting: `.
pub open spec fn wait_error_prefix() -> Seq<char> {
    seq![
        'e', 'r', 'r', 'o', 'r', ' ', 'w', 'h', 'i', 'l', 'e', ' ', 'w', 'a', 'i', 't', 'i', 'n',
        'g', ':', ' ',
    ]
}

/// `Error reading line from stdout: ` or `Error reading line from stderr: `.
pub open spec fn read_error_prefix(stream: Stream) -> Seq<char> {
    seq![
        'E', 'r', 'r', 'o', 'r', ' ', 'r', 'e', 'a', 'd', 'i', 'n', 'g', ' ', 'l', 'i', 'n', 'e',
        ' ', 'f', 'r', 'o', 'm', ' ', 's', 't', 'd',
    ] + match stream {
        Stream::Stdout => seq!['o', 'u', 't', ':', ' '],
        Stream::Stderr => seq!['e', 'r', 'r', ':', ' '],
    }
}

/// The event name of a message: `error` for an error, none for the others.
pub open spec fn event_name(m: MessageView) -> Option<Seq<char>> {
    match m {
        MessageView::Error(_) => Some(seq!['e', 'r', 'r', 'o', 'r']),
        _ => None,
    }
}

/// The name of the event that closes the stream.
pub open spec fn complete_event() -> Seq<char> {
    seq!['c', 'o', 'm', 'p', 'l', 'e', 't', 'e']
}

/// The data of the event that closes the stream: `timeout` when the write ran
/// out of time, none otherwise.
pub open spec fn completion_data(timed_out: bool) -> Option<Seq<char>> {
    if timed_out {
        Some(seq!['t', 'i', 'm', 'e', 'o', 'u', 't'])
    } else {
        None
    }
}

/// The text `prefix` followed by `m`.
fn prefixed(prefix: &Vec<char>, m: &str) -> (r: String)
    ensures
        r@ == prefix@ + m@,
{
    let mut r = string_of(prefix);
    append_chars(&mut r, &chars_of(m));
    r
}

impl Message {
    /// The error that the dump at `path` does not exist.
    pub fn path_not_found(path: &str) -> (m: Message)
        ensures
            m@ == MessageView::Error(path_not_found_prefix() + path@),
    {
        let p: Vec<char> = vec!['P', 'a', 't', 'h', ' ', 'n', 'o', 't', ' ', 'f', 'o', 'u', 'n', 'd', ':', ' '];
        assert(p@ =~= path_not_found_prefix());
        Message::Error(prefixed(&p, path))
    }

    /// The error that the writer program could not be started, for `reason`.
    pub fn spawn_failed(reason: &str) -> (m: Message)
        ensures
            m@ == MessageView::Error(spawn_error_prefix() + reason@),
    {
        let p: Vec<char> = vec![
            'E', 'r', 'r', 'o', 'r', ' ', 'e', 'x', 'e', 'c', 'u', 't', 'i', 'n', 'g', ' ', 'p',
            'i', 'm', 'i', 'i', 'b', 'o', ':', ' ',
        ];
        assert(p@ =~= spawn_error_prefix());
        Message::Error(prefixed(&p, reason))
    }

    /// How the writer program exited: success, or an error that gives its
    /// exit status.
    pub fn exited(success: bool, status: &str) -> (m: Message)
        ensures
            m@ == if success {
                MessageView::Success
            } else {
                MessageView::Error(exit_error_prefix() + status@)
            },
    {
        if success {
            Message::Success
        } else {
            let p: Vec<char> = vec![
                'n', 'o', 'n', '-', 's', 'u', 'c', 'c', 'e', 's', 's', ' ', 'e', 'x', 'i', 't', ' ',
                's', 't', 'a', 't', 'u', 's', ':', ' ',
            ];
            assert(p@ =~= exit_error_prefix());
            Message::Error(prefixed(&p, status))
        }
    }

    /// The error that waiting for the writer program failed, for `reason`.
    pub fn wait_failed(reason: &str) -> (m: Message)
        ensures
            m@ == MessageView::Error(wait_error_prefix() + reason@),
    {
        let p: Vec<char> = vec![
            'e', 'r', 'r', 'o', 'r', ' ', 'w', 'h', 'i', 'l', 'e', ' ', 'w', 'a', 'i', 't', 'i',
            'n', 'g', ':', ' ',
        ];
        assert(p@ =~= wait_error_prefix());
        Message::Error(prefixed(&p, reason))
    }

    /// The line the writer printed on `stream`.
    pub fn line(stream: Stream, line: String) -> (m: Message)
        ensures
            m@ == match stream {
                Stream::Stdout => MessageView::StdOut(line@),
                Stream::Stderr => MessageView::StdErr(line@),
            },
    {
        match stream {
            Stream::Stdout => Message::StdOut(line),
            Stream::Stderr => Message::StdErr(line),
        }
    }

    /// The error that a line of `stream` could not be read, for `reason`.
    pub fn read_failed(stream: Stream, reason: &str) -> (m: Message)
        ensures
            m@ == MessageView::Error(read_error_prefix(stream) + reason@),
    {
        let mut p: Vec<char> = vec![
            'E', 'r', 'r', 'o', 'r', ' ', 'r', 'e', 'a', 'd', 'i', 'n', 'g', ' ', 'l', 'i', 'n',
            'e', ' ', 'f', 'r', 'o', 'm', ' ', 's', 't', 'd',
        ];
        match stream {
            Stream::Stdout => {
                p.push('o');
                p.push('u');
                p.push('t');
            },
            Stream::Stderr => {
                p.push('e');
                p.push('r');
                p.push('r');
            },
        }
        p.push(':');
        p.push(' ');
        assert(p@ =~= read_error_prefix(stream));
        Message::Error(prefixed(&p, reason))
    }

    /// The name of the event that carries this message, as [`event_name`] says.
    pub fn event_name(&self) -> (r: Option<String>)
        ensures
            match event_name(self@) {
                Some(n) => r matches Some(x) && x@ == n,
                None => r is None,
            },
    {
        match self {
            Message::Error(_) => {
                let v: Vec<char> = vec!['e', 'r', 'r', 'o', 'r'];
                assert(v@ =~= seq!['e', 'r', 'r', 'o', 'r']);
                Some(string_of(&v))
            },
            _ => None,
        }
    }
}

/// The name and the data of the event that closes the stream of a write,
/// as [`complete_event`] and [`completion_data`] say.
pub fn completion(timed_out: bool) -> (r: (String, Option<String>))
    ensures
        r.0@ == complete_event(),
        match completion_data(timed_out) {
            Some(d) => r.1 matches Some(x) && x@ == d,
            None => r.1 is None,
        },
{
    let name: Vec<char> = vec!['c', 'o', 'm', 'p', 'l', 'e', 't', 'e'];
    assert(name@ =~= complete_event());
    let data = if timed_out {
        let d: Vec<char> = vec!['t', 'i', 'm', 'e', 'o', 'u', 't'];
        assert(d@ =~= seq!['t', 'i', 'm', 'e', 'o', 'u', 't']);
        Some(string_of(&d))
    } else {
        None
    };
    (string_of(&name), data)
}

/// What a poll of the writer program found.
pub enum Poll {
    /// It exited: whether successfully, and its exit status as text.
    Exited { success: bool, status: String },
    /// It is still running.
    Running,
    /// The poll failed; the text says why.
    Failed(String),
}

/// What to do after a poll of the writer program.
pub enum PollAction {
    /// Send this message, then stop.
    Report(Message),
    /// Pass on the next event of the writer's output, then poll again.
    Forward,
}

/// The message that ends a stream after a poll, if the poll ends it: how the
/// writer exited, or that waiting for it failed; none while it still runs.
pub open spec fn poll_report(p: Poll) -> Option<MessageView> {
    match p {
        Poll::Exited { success, status } => Some(
            if success {
                MessageView::Success
            } else {
                MessageView::Error(exit_error_prefix() + status@)
            },
        ),
        Poll::Running => None,
        Poll::Failed(m) => Some(MessageView::Error(wait_error_prefix() + m@)),
    }
}

/// What to do after a poll of the writer program, as [`poll_report`] says.
pub fn after_poll(p: Poll) -> (a: PollAction)
    ensures
        match a {
            PollAction::Report(m) => poll_report(p) == Some(m@),
            PollAction::Forward => poll_report(p) is None,
        },
{
    match p {
        Poll::Exited { success, status } => PollAction::Report(Message::exited(success, status.as_str())),
        Poll::Running => PollAction::Forward,
        Poll::Failed(m) => PollAction::Report(Message::wait_failed(m.as_str())),
    }
}

} // verus!
