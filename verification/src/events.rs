//! What the three producers of the client hand to the session: keys and mouse
//! from the terminal, ticks from the blink timer, text from the server.
//!
//! Each producer runs on its own and puts its events into one queue, which the
//! session empties one event at a time. The functions here say which event a
//! producer forwards, and when it stops.

use crate::app::{notice_entry, system_author, Event, MouseKind};
use crate::input_widget::Key;
use crate::text::{is_blank, is_space, lemma_trimmed_is_subrange, trimmed};
use vstd::prelude::*;
use vstd::string::*;

verus! {

/// The time between two ticks of the blink timer, in milliseconds.
pub const BLINK_INTERVAL_MS: u64 = 500;

/// What the terminal reported.
#[derive(Clone, Copy, Debug, PartialEq, Eq, Structural)]
pub enum TerminalInput {
    Key(Key),
    Mouse(MouseKind),
    /// A report that the session has no use for, such as a change of size.
    Other,
}

/// How a read from the server ended.
pub enum ReadOutcome {
    /// The read returned no bytes: the server closed the connection.
    Closed,
    /// The read returned bytes, and this is their text.
    Data(String),
    /// The read failed for this reason.
    Failed(String),
}

/// What the reader of the server's socket does after a read.
pub struct Forward {
    /// The event for the session, if there is one.
    pub event: Option<Event>,
    /// Whether the reader ends.
    pub stop: bool,
}

/// The notice for a connection that the server closed.
pub open spec fn disconnected_text() -> Seq<char> {
    "Server disconnected"@
}

/// The notice for a read that failed for `reason`.
pub open spec fn read_error_text(reason: Seq<char>) -> Seq<char> {
    "Connection error: "@ + reason
}

/// Whether `fwd` hands the session the notice `text`.
pub open spec fn notifies(fwd: Forward, text: Seq<char>) -> bool {
    &&& fwd.event matches Some(Event::Notice(t))
    &&& t@ == text
}

/// The end of reading always shows in the history, and under the system's
/// name: neither notice is blank, so each makes one entry, whatever the
/// reason of a failure holds; and the notice of a closed connection is
/// filed word for word.
pub proof fn lemma_read_end_is_filed_under_system(reason: Seq<char>)
    ensures
        notice_entry(disconnected_text()) == Some((system_author(), disconnected_text())),
        notice_entry(read_error_text(reason)) matches Some(m) && m.0 == system_author() && m.1
            == trimmed(read_error_text(reason)) && m.1.len() > 0 && m.1[0] == 'C',
{
    reveal_strlit("Server disconnected");
    reveal_strlit("Connection error: ");
    let d = disconnected_text();
    assert(!is_space(d[0]));
    assert(!is_space(d.last()));
    assert(!is_blank(d));
    assert(trimmed(d) == d);
    let e = read_error_text(reason);
    assert(e[0] == 'C');
    assert(!is_space(e[0]));
    assert(!is_blank(e));
    let r = lemma_trimmed_is_subrange(e);
    if r.0 > 0 {
        assert(is_space(e[0]));
    }
    if r.0 == r.1 {
        assert(is_space(e[0]));
    }
}

/// The event for a report of the terminal: keys and mouse go on, the rest is dropped.
pub fn on_terminal_input(input: TerminalInput) -> (event: Option<Event>)
    ensures
        match input {
            TerminalInput::Key(key) => event == Some(Event::Input(key)),
            TerminalInput::Mouse(kind) => event == Some(Event::Mouse(kind)),
            TerminalInput::Other => event is None,
        },
{
    match input {
        TerminalInput::Key(key) => Some(Event::Input(key)),
        TerminalInput::Mouse(kind) => Some(Event::Mouse(kind)),
        TerminalInput::Other => None,
    }
}

/// The event of the blink timer.
pub fn on_tick() -> (event: Event)
    ensures
        event is CursorBlink,
{
    Event::CursorBlink
}

/// What follows a read from the server. Text always goes to the session, as
/// it was read, and the reader goes on; what to make of a blank chunk is for
/// the session to say. When the server closed, or the read failed, the session
/// gets one notice, and the reader ends.
pub fn on_server_read(outcome: ReadOutcome) -> (fwd: Forward)
    ensures
        match outcome {
            ReadOutcome::Closed => fwd.stop && notifies(fwd, disconnected_text()),
            ReadOutcome::Data(text) => !fwd.stop && fwd.event == Some(Event::ServerMessage(text)),
            ReadOutcome::Failed(reason) => fwd.stop && notifies(fwd, read_error_text(reason@)),
        },
{
    match outcome {
        ReadOutcome::Closed => Forward {
            event: Some(Event::Notice(String::from_str("Server disconnected"))),
            stop: true,
        },
        ReadOutcome::Data(text) => Forward { event: Some(Event::ServerMessage(text)), stop: false },
        ReadOutcome::Failed(reason) => {
            let mut text = String::from_str("Connection error: ");
            text.append(reason.as_str());
            Forward { event: Some(Event::Notice(text)), stop: true }
        },
    }
}

} // verus!
