//! The chat session of the client: the history of messages, what an event
//! does to it, what goes out to the server, and what is shown.
//!
//! The session decides; its caller owns the socket and the screen. A line that
//! the user submits is entered in the history at once, before it is sent, and
//! is never matched against what the server sends later: the server does not
//! send a line back to its author. A chunk from the server is one message,
//! however many lines it holds.

use crate::input_widget::{blink, edit, key_is_input, key_quits, InputWidget, Key, KeyCode};
use crate::text::{
    chars_of, find_char, first_index_of, is_blank, lemma_trimmed_empty_iff_blank, string_of,
    trim, trim_bounds, trimmed,
};
use vstd::prelude::*;
use vstd::string::*;

verus! {

/// One entry of the history.
pub struct Message {
    pub author: String,
    pub content: String,
}

/// What the mouse did, as far as the session cares.
#[derive(Clone, Copy, Debug, PartialEq, Eq, Structural)]
pub enum MouseKind {
    ScrollDown,
    ScrollUp,
    Other,
}

/// What the session is told: a key, the mouse, a tick of the blink timer, a
/// chunk of text from the server, or a notice of the client itself.
pub enum Event {
    Input(Key),
    Mouse(MouseKind),
    CursorBlink,
    /// Text that the server sent, as it was read.
    ServerMessage(String),
    /// Word of the client about its connection. It is no text of the server
    /// and is never read as a chat line.
    Notice(String),
}

/// The step of sending at which a message got stuck.
#[derive(Clone, Copy, Debug, PartialEq, Eq, Structural)]
pub enum SendFailure {
    Lock,
    Write,
    Flush,
}

/// The author under which the client files what no user wrote.
pub open spec fn system_author() -> Seq<char> {
    "System"@
}

/// The entry that a chunk from the server makes in the history: none for a
/// blank chunk; else the trimmed text, split at its first colon into author
/// and content, both trimmed; without a colon it is all content, by the system.
pub open spec fn parse_inbound(chunk: Seq<char>) -> Option<(Seq<char>, Seq<char>)> {
    let t = trimmed(chunk);
    let k = first_index_of(t, ':');
    if t.len() == 0 {
        None
    } else if k < t.len() {
        Some((trimmed(t.subrange(0, k)), trimmed(t.subrange(k + 1, t.len() as int))))
    } else {
        Some((system_author(), t))
    }
}

/// The entry that a notice makes in the history: its trimmed text, under the
/// system's name, whatever the text holds; none for a blank text.
pub open spec fn notice_entry(text: Seq<char>) -> Option<(Seq<char>, Seq<char>)> {
    if is_blank(text) {
        None
    } else {
        Some((system_author(), trimmed(text)))
    }
}

/// A blank chunk makes no entry, and every other chunk makes one.
pub proof fn lemma_blank_chunk_makes_no_entry(chunk: Seq<char>)
    ensures
        parse_inbound(chunk) is None <==> is_blank(chunk),
{
    lemma_trimmed_empty_iff_blank(chunk);
}

/// Reads a chunk from the server as `parse_inbound` says.
pub fn parse_server_message(chunk: &str) -> (r: Option<Message>)
    ensures
        match r {
            Some(m) => parse_inbound(chunk@) == Some((m.author@, m.content@)),
            None => parse_inbound(chunk@) is None,
        },
{
    let v = chars_of(chunk);
    let (a, b) = trim_bounds(&v);
    if a == b {
        return None;
    }
    let text = string_of(&v, a, b);
    let t = chars_of(text.as_str());
    match find_char(&t, ':') {
        Some(k) => {
            let author = trim(string_of(&t, 0, k).as_str());
            let content = trim(string_of(&t, k + 1, t.len()).as_str());
            Some(Message { author, content })
        },
        None => Some(Message { author: String::from_str("System"), content: text }),
    }
}

/// The history as pairs of author and content.
pub open spec fn entries(messages: Seq<Message>) -> Seq<(Seq<char>, Seq<char>)> {
    Seq::new(messages.len(), |i: int| (messages[i].author@, messages[i].content@))
}

/// `a - b`, or nothing where `b` is the larger.
pub open spec fn minus(a: int, b: int) -> int {
    if a >= b {
        a - b
    } else {
        0
    }
}

/// The rows that a history takes when it is shown from its start: none for a
/// message without an author, one for the first message and two for each later one.
pub open spec fn row_count(h: Seq<(Seq<char>, Seq<char>)>) -> int
    decreases h.len(),
{
    if h.len() == 0 {
        0
    } else {
        row_count(h.drop_last()) + if h.last().0.len() == 0 {
            0int
        } else if h.len() == 1 {
            1int
        } else {
            2int
        }
    }
}

/// Where the view stands after new text came: it jumps to the end where the
/// history no longer fits in `height` rows and the view was already near the end.
pub open spec fn scrolled(h: Seq<(Seq<char>, Seq<char>)>, offset: int, height: int) -> int {
    if row_count(h) > height && offset >= minus(minus(h.len() as int, height / 2), 2) {
        minus(h.len() as int, height)
    } else {
        offset
    }
}

/// The line that shows one message.
pub open spec fn message_line(m: (Seq<char>, Seq<char>)) -> Seq<char> {
    m.0 + ": "@ + m.1
}

/// The lines that show the messages `h`: one line for each message that has an
/// author, and an empty line between two of them.
pub open spec fn lines_of(h: Seq<(Seq<char>, Seq<char>)>) -> Seq<Seq<char>>
    decreases h.len(),
{
    if h.len() == 0 {
        Seq::empty()
    } else {
        let above = lines_of(h.drop_last());
        if h.last().0.len() == 0 {
            above
        } else if above.len() == 0 {
            above.push(message_line(h.last()))
        } else {
            above.push(Seq::empty()).push(message_line(h.last()))
        }
    }
}

/// The messages from `offset` on.
pub open spec fn from_offset(h: Seq<(Seq<char>, Seq<char>)>, offset: int) -> Seq<
    (Seq<char>, Seq<char>),
> {
    if 0 <= offset < h.len() {
        h.subrange(offset, h.len() as int)
    } else {
        Seq::empty()
    }
}

/// Whether `key` sends the text `text`: it is the enter key, and the text is not blank.
pub open spec fn submits(text: Seq<char>, key: Key) -> bool {
    key.code == KeyCode::Enter && !is_blank(text)
}

/// The words that go before the reason of a failed send.
pub open spec fn failure_prefix(f: SendFailure) -> Seq<char> {
    match f {
        SendFailure::Lock => "Failed to lock stream: "@,
        SendFailure::Write => "Failed to write to server: "@,
        SendFailure::Flush => "Failed to send message: "@,
    }
}

/// The texts of `lines`.
pub open spec fn texts(lines: Seq<String>) -> Seq<Seq<char>> {
    Seq::new(lines.len(), |i: int| lines[i]@)
}

/// The state of the client's chat session.
pub struct App {
    pub running: bool,
    pub input_widget: InputWidget,
    pub messages: Vec<Message>,
    pub scroll_offset: usize,
    pub should_auto_scroll: bool,
    pub username: String,
    pub server_ip: String,
}

impl App {
    /// The editor's cursor stands inside its text.
    pub open spec fn wf(&self) -> bool {
        self.input_widget.wf()
    }

    /// The history as pairs of author and content.
    pub open spec fn history(&self) -> Seq<(Seq<char>, Seq<char>)> {
        entries(self.messages@)
    }

    /// Whether all but the editor and the running flag are as in `other`.
    pub open spec fn same_view_as(&self, other: &Self) -> bool {
        &&& self.messages == other.messages
        &&& self.scroll_offset == other.scroll_offset
        &&& self.should_auto_scroll == other.should_auto_scroll
        &&& self.username == other.username
        &&& self.server_ip == other.server_ip
    }

    /// A running session without history.
    pub fn new(username: String, server_ip: String) -> (app: Self)
        ensures
            app.wf(),
            app.running,
            app.history() == Seq::<(Seq<char>, Seq<char>)>::empty(),
            app.input_widget.text@ == Seq::<char>::empty(),
            app.input_widget.cursor_position == 0,
            app.input_widget.cursor_visible,
            app.input_widget.username == username,
            app.scroll_offset == 0,
            !app.should_auto_scroll,
            app.username == username,
            app.server_ip == server_ip,
    {
        let app = App {
            running: true,
            input_widget: InputWidget::new(username.clone()),
            messages: Vec::new(),
            scroll_offset: 0,
            should_auto_scroll: false,
            username,
            server_ip,
        };
        assert(app.history() =~= Seq::<(Seq<char>, Seq<char>)>::empty());
        app
    }

    /// Appends one entry to the history. No entry is ever changed or removed.
    pub fn add_message(&mut self, author: String, content: String)
        ensures
            final(self).history() == old(self).history().push((author@, content@)),
            final(self).messages@ == old(self).messages@.push(Message { author, content }),
            final(self).running == old(self).running,
            final(self).input_widget == old(self).input_widget,
            final(self).scroll_offset == old(self).scroll_offset,
            final(self).should_auto_scroll == old(self).should_auto_scroll,
            final(self).username == old(self).username,
            final(self).server_ip == old(self).server_ip,
    {
        self.messages.push(Message { author, content });
        assert(self.history() =~= old(self).history().push((author@, content@)));
    }

    /// One message towards the newest, unless the view is at the end.
    pub fn scroll_down(&mut self)
        ensures
            final(self).scroll_offset == minus(old(self).scroll_offset as int, 1),
            final(self).running == old(self).running,
            final(self).input_widget == old(self).input_widget,
            final(self).messages == old(self).messages,
            final(self).should_auto_scroll == old(self).should_auto_scroll,
            final(self).username == old(self).username,
            final(self).server_ip == old(self).server_ip,
    {
        if self.scroll_offset > 0 {
            self.scroll_offset -= 1;
        }
    }

    /// One message towards the oldest, as long as one message stays in view.
    pub fn scroll_up(&mut self)
        ensures
            final(self).scroll_offset == if old(self).scroll_offset < minus(
                old(self).messages@.len() as int,
                1,
            ) {
                old(self).scroll_offset + 1
            } else {
                old(self).scroll_offset as int
            },
            final(self).running == old(self).running,
            final(self).input_widget == old(self).input_widget,
            final(self).messages == old(self).messages,
            final(self).should_auto_scroll == old(self).should_auto_scroll,
            final(self).username == old(self).username,
            final(self).server_ip == old(self).server_ip,
    {
        let n = self.messages.len();
        let last = if n > 0 {
            n - 1
        } else {
            0
        };
        if self.scroll_offset < last {
            self.scroll_offset += 1;
        }
    }

    /// The mouse wheel scrolls; nothing else of the mouse matters.
    pub fn handle_mouse_event(&mut self, kind: MouseKind)
        ensures
            final(self).scroll_offset == match kind {
                MouseKind::ScrollDown => minus(old(self).scroll_offset as int, 1),
                MouseKind::ScrollUp => if old(self).scroll_offset < minus(
                    old(self).messages@.len() as int,
                    1,
                ) {
                    old(self).scroll_offset + 1
                } else {
                    old(self).scroll_offset as int
                },
                MouseKind::Other => old(self).scroll_offset as int,
            },
            final(self).running == old(self).running,
            final(self).input_widget == old(self).input_widget,
            final(self).messages == old(self).messages,
            final(self).should_auto_scroll == old(self).should_auto_scroll,
            final(self).username == old(self).username,
            final(self).server_ip == old(self).server_ip,
    {
        match kind {
            MouseKind::ScrollDown => self.scroll_down(),
            MouseKind::ScrollUp => self.scroll_up(),
            MouseKind::Other => {},
        }
    }

    /// Takes a chunk of text from the server into the history, as
    /// `parse_inbound` reads it. A blank chunk changes nothing.
    pub fn receive(&mut self, chunk: &str)
        ensures
            final(self).history() == match parse_inbound(chunk@) {
                Some(m) => old(self).history().push(m),
                None => old(self).history(),
            },
            final(self).should_auto_scroll == (old(self).should_auto_scroll || !is_blank(
                chunk@,
            )),
            final(self).running == old(self).running,
            final(self).input_widget == old(self).input_widget,
            final(self).scroll_offset == old(self).scroll_offset,
            final(self).username == old(self).username,
            final(self).server_ip == old(self).server_ip,
    {
        proof {
            lemma_blank_chunk_makes_no_entry(chunk@);
        }
        match parse_server_message(chunk) {
            Some(m) => {
                self.messages.push(m);
                self.should_auto_scroll = true;
                assert(self.history() =~= old(self).history().push(parse_inbound(chunk@)->0));
            },
            None => {},
        }
    }

    /// Files a notice of the server that came before the session began: the
    /// trimmed text, under the system's name. A blank text is passed over.
    pub fn add_notice(&mut self, text: &str)
        ensures
            final(self).history() == if is_blank(text@) {
                old(self).history()
            } else {
                old(self).history().push((system_author(), trimmed(text@)))
            },
            final(self).running == old(self).running,
            final(self).input_widget == old(self).input_widget,
            final(self).scroll_offset == old(self).scroll_offset,
            final(self).should_auto_scroll == old(self).should_auto_scroll,
            final(self).username == old(self).username,
            final(self).server_ip == old(self).server_ip,
    {
        proof {
            lemma_trimmed_empty_iff_blank(text@);
        }
        let t = trim(text);
        if !t.as_str().is_empty() {
            self.add_message(String::from_str("System"), t);
        }
    }

    /// Files a notice of the client about its connection, as `notice_entry`
    /// says, and lets the view follow. The text is not searched for a colon.
    pub fn notify(&mut self, text: &str)
        ensures
            final(self).history() == match notice_entry(text@) {
                Some(m) => old(self).history().push(m),
                None => old(self).history(),
            },
            final(self).should_auto_scroll == (old(self).should_auto_scroll || !is_blank(
                text@,
            )),
            final(self).running == old(self).running,
            final(self).input_widget == old(self).input_widget,
            final(self).scroll_offset == old(self).scroll_offset,
            final(self).username == old(self).username,
            final(self).server_ip == old(self).server_ip,
    {
        proof {
            lemma_trimmed_empty_iff_blank(text@);
        }
        let t = trim(text);
        if !t.as_str().is_empty() {
            self.add_message(String::from_str("System"), t);
            self.should_auto_scroll = true;
        }
    }

    /// Files that a message could not be sent: the words for the step that
    /// failed, then the reason. The session goes on.
    pub fn record_send_failure(&mut self, failure: SendFailure, reason: &str)
        ensures
            final(self).history() == old(self).history().push(
                (system_author(), failure_prefix(failure) + reason@),
            ),
            final(self).should_auto_scroll,
            final(self).running == old(self).running,
            final(self).input_widget == old(self).input_widget,
            final(self).scroll_offset == old(self).scroll_offset,
            final(self).username == old(self).username,
            final(self).server_ip == old(self).server_ip,
    {
        let mut text = match failure {
            SendFailure::Lock => String::from_str("Failed to lock stream: "),
            SendFailure::Write => String::from_str("Failed to write to server: "),
            SendFailure::Flush => String::from_str("Failed to send message: "),
        };
        text.append(reason);
        self.add_message(String::from_str("System"), text);
        self.should_auto_scroll = true;
    }

    /// Gives a key to the editor and acts on it. The quitting key stops the
    /// session. The enter key on a text that is not blank enters the text in
    /// the history under the user's name, empties the editor and gives back the
    /// line to send: the text and a line break.
    pub fn handle_key_event(&mut self, key: Key) -> (outbound: Option<String>)
        requires
            old(self).wf(),
        ensures
            final(self).wf(),
            final(self).scroll_offset == old(self).scroll_offset,
            final(self).username == old(self).username,
            final(self).server_ip == old(self).server_ip,
            final(self).input_widget.username == old(self).input_widget.username,
            final(self).input_widget.cursor_visible == old(self).input_widget.cursor_visible,
            !key_is_input(key) ==> final(self).input_widget.last_input_time == old(
                self,
            ).input_widget.last_input_time,
            final(self).running == (old(self).running && !key_quits(key)),
            if submits(old(self).input_widget.text@, key) {
                &&& outbound matches Some(line)
                &&& line@ == old(self).input_widget.text@ + "\n"@
                &&& final(self).history() == old(self).history().push(
                    (old(self).username@, old(self).input_widget.text@),
                )
                &&& final(self).should_auto_scroll
                &&& final(self).input_widget.text@ == Seq::<char>::empty()
                &&& final(self).input_widget.cursor_position == 0
            } else {
                &&& outbound is None
                &&& final(self).messages == old(self).messages
                &&& final(self).should_auto_scroll == old(self).should_auto_scroll
                &&& final(self).input_widget.text@ == edit(
                    old(self).input_widget.text@,
                    old(self).input_widget.cursor_position as int,
                    key,
                ).0
                &&& final(self).input_widget.cursor_position == edit(
                    old(self).input_widget.text@,
                    old(self).input_widget.cursor_position as int,
                    key,
                ).1
            },
    {
        let quit = self.input_widget.handle_key_event(key);
        if quit {
            self.running = false;
            return None;
        }
        let enter = match key.code {
            KeyCode::Enter => true,
            _ => false,
        };
        if enter && !self.input_widget.is_empty() {
            let content = self.input_widget.get_text();
            let mut line = content.clone();
            line.append("\n");
            let author = self.username.clone();
            self.add_message(author, content);
            self.should_auto_scroll = true;
            self.input_widget.clear();
            return Some(line);
        }
        None
    }

    /// Takes one event. A key goes to `handle_key_event`, the mouse to
    /// `handle_mouse_event`, a tick to the editor's cursor, text from the
    /// server to `receive` and a notice to `notify`. What comes back is the
    /// line to send, if there is one.
    pub fn handle_event(&mut self, event: Event) -> (outbound: Option<String>)
        requires
            old(self).wf(),
        ensures
            final(self).wf(),
            final(self).username == old(self).username,
            final(self).server_ip == old(self).server_ip,
            match event {
                Event::Input(key) => {
                    &&& final(self).running == (old(self).running && !key_quits(key))
                    &&& final(self).scroll_offset == old(self).scroll_offset
                    &&& final(self).input_widget.username == old(self).input_widget.username
                    &&& final(self).input_widget.cursor_visible == old(
                        self,
                    ).input_widget.cursor_visible
                    &&& !key_is_input(key) ==> final(self).input_widget.last_input_time == old(
                        self,
                    ).input_widget.last_input_time
                    &&& if submits(old(self).input_widget.text@, key) {
                        &&& outbound matches Some(line)
                        &&& line@ == old(self).input_widget.text@ + "\n"@
                        &&& final(self).history() == old(self).history().push(
                            (old(self).username@, old(self).input_widget.text@),
                        )
                        &&& final(self).should_auto_scroll
                        &&& final(self).input_widget.text@ == Seq::<char>::empty()
                        &&& final(self).input_widget.cursor_position == 0
                    } else {
                        &&& outbound is None
                        &&& final(self).messages == old(self).messages
                        &&& final(self).should_auto_scroll == old(self).should_auto_scroll
                        &&& final(self).input_widget.text@ == edit(
                            old(self).input_widget.text@,
                            old(self).input_widget.cursor_position as int,
                            key,
                        ).0
                        &&& final(self).input_widget.cursor_position == edit(
                            old(self).input_widget.text@,
                            old(self).input_widget.cursor_position as int,
                            key,
                        ).1
                    }
                },
                Event::Mouse(kind) => {
                    &&& outbound is None
                    &&& final(self).running == old(self).running
                    &&& final(self).input_widget == old(self).input_widget
                    &&& final(self).messages == old(self).messages
                    &&& final(self).should_auto_scroll == old(self).should_auto_scroll
                    &&& final(self).scroll_offset == match kind {
                        MouseKind::ScrollDown => minus(old(self).scroll_offset as int, 1),
                        MouseKind::ScrollUp => if old(self).scroll_offset < minus(
                            old(self).messages@.len() as int,
                            1,
                        ) {
                            old(self).scroll_offset + 1
                        } else {
                            old(self).scroll_offset as int
                        },
                        MouseKind::Other => old(self).scroll_offset as int,
                    }
                },
                Event::CursorBlink => {
                    &&& outbound is None
                    &&& final(self).running == old(self).running
                    &&& final(self).same_view_as(old(self))
                    &&& final(self).input_widget.text == old(self).input_widget.text
                    &&& final(self).input_widget.cursor_position == old(
                        self,
                    ).input_widget.cursor_position
                    &&& final(self).input_widget.username == old(self).input_widget.username
                    &&& final(self).input_widget.last_input_time == old(
                        self,
                    ).input_widget.last_input_time
                    &&& exists|idle_secs: u64|
                        final(self).input_widget.cursor_visible == #[trigger] blink(
                            old(self).input_widget.cursor_visible,
                            idle_secs,
                        )
                },
                Event::ServerMessage(chunk) => {
                    &&& outbound is None
                    &&& final(self).running == old(self).running
                    &&& final(self).input_widget == old(self).input_widget
                    &&& final(self).scroll_offset == old(self).scroll_offset
                    &&& final(self).history() == match parse_inbound(chunk@) {
                        Some(m) => old(self).history().push(m),
                        None => old(self).history(),
                    }
                    &&& final(self).should_auto_scroll == (old(self).should_auto_scroll
                        || !is_blank(chunk@))
                },
                Event::Notice(text) => {
                    &&& outbound is None
                    &&& final(self).running == old(self).running
                    &&& final(self).input_widget == old(self).input_widget
                    &&& final(self).scroll_offset == old(self).scroll_offset
                    &&& final(self).history() == match notice_entry(text@) {
                        Some(m) => old(self).history().push(m),
                        None => old(self).history(),
                    }
                    &&& final(self).should_auto_scroll == (old(self).should_auto_scroll
                        || !is_blank(text@))
                },
            },
    {
        match event {
            Event::Input(key) => self.handle_key_event(key),
            Event::Mouse(kind) => {
                self.handle_mouse_event(kind);
                None
            },
            Event::CursorBlink => {
                self.input_widget.update_cursor_blink();
                None
            },
            Event::ServerMessage(chunk) => {
                self.receive(chunk.as_str());
                None
            },
            Event::Notice(text) => {
                self.notify(text.as_str());
                None
            },
        }
    }
    /// The rows that the whole history takes, as `row_count` counts them.
    pub fn rows(&self) -> (n: u128)
        ensures
            n == row_count(self.history()),
    {
        let mut n: u128 = 0;
        let mut i: usize = 0;
        while i < self.messages.len()
            invariant
                i <= self.messages.len(),
                n == row_count(self.history().take(i as int)),
                n <= 2 * i,
            decreases self.messages.len() - i,
        {
            proof {
                let t = self.history().take(i + 1);
                assert(t.drop_last() =~= self.history().take(i as int));
                assert(t.last() == self.history()[i as int]);
            }
            if !self.messages[i].author.as_str().is_empty() {
                if i == 0 {
                    n += 1;
                } else {
                    n += 2;
                }
            }
            i += 1;
        }
        proof {
            assert(self.history().take(i as int) =~= self.history());
        }
        n
    }

    /// Moves the view after new text came, for a screen that shows
    /// `available_height` rows of messages: see `scrolled`. Without new text
    /// the view stays.
    pub fn auto_scroll(&mut self, available_height: usize)
        ensures
            final(self).scroll_offset == if old(self).should_auto_scroll {
                scrolled(old(self).history(), old(self).scroll_offset as int, available_height as int)
            } else {
                old(self).scroll_offset as int
            },
            !final(self).should_auto_scroll,
            final(self).running == old(self).running,
            final(self).input_widget == old(self).input_widget,
            final(self).messages == old(self).messages,
            final(self).username == old(self).username,
            final(self).server_ip == old(self).server_ip,
    {
        if self.should_auto_scroll {
            let rows = self.rows();
            if rows > available_height as u128 {
                let n = self.messages.len();
                let half = available_height / 2;
                let near_end = if n >= half {
                    n - half
                } else {
                    0
                };
                let threshold = if near_end >= 2 {
                    near_end - 2
                } else {
                    0
                };
                if self.scroll_offset >= threshold {
                    self.scroll_offset = if n >= available_height {
                        n - available_height
                    } else {
                        0
                    };
                }
            }
            self.should_auto_scroll = false;
        }
    }

    /// The lines that show the history from where the view stands: see `lines_of`.
    pub fn visible_lines(&self) -> (lines: Vec<String>)
        ensures
            texts(lines@) == lines_of(from_offset(self.history(), self.scroll_offset as int)),
    {
        let mut lines: Vec<String> = Vec::new();
        let n = self.messages.len();
        if self.scroll_offset >= n {
            assert(texts(lines@) =~= Seq::<Seq<char>>::empty());
            return lines;
        }
        let start = self.scroll_offset;
        let ghost shown = from_offset(self.history(), start as int);
        let mut i: usize = start;
        assert(texts(lines@) =~= lines_of(shown.take(0)));
        while i < n
            invariant
                start <= i <= n == self.messages.len(),
                start < n,
                shown == from_offset(self.history(), start as int),
                texts(lines@) == lines_of(shown.take(i - start)),
            decreases n - i,
        {
            proof {
                let t = shown.take(i - start + 1);
                assert(t.drop_last() =~= shown.take(i - start));
                assert(t.last() == self.history()[i as int]);
            }
            let m = &self.messages[i];
            if !m.author.as_str().is_empty() {
                let mut line = m.author.clone();
                line.append(": ");
                line.append(m.content.as_str());
                if lines.len() > 0 {
                    lines.push(String::new());
                }
                lines.push(line);
            }
            assert(texts(lines@) =~= lines_of(shown.take(i - start + 1)));
            i += 1;
        }
        proof {
            assert(shown.take(i - start) =~= shown);
        }
        lines
    }

    /// The label that names the program and its version.
    pub fn version_label() -> (label: String)
        ensures
            label@ == " tcptalk v0.0.1 "@,
    {
        String::from_str(" tcptalk v0.0.1 ")
    }

    /// The label that names the server.
    pub fn connection_label(&self) -> (label: String)
        ensures
            label@ == " Connected to "@ + self.server_ip@ + " "@,
    {
        let mut label = String::from_str(" Connected to ");
        label.append(self.server_ip.as_str());
        label.append(" ");
        label
    }
}

} // verus!
