//! What the server does for one connection: it asks for a username until one
//! is accepted, relays what the peer sends, and cleans up when the peer goes.
//!
//! The handler here decides; its caller reads and writes. The caller hands in
//! what happened on the socket and gets back what to send, and holds the lock
//! on the registry around each call.

use crate::protocol::{
    chat_bytes, chat_line, is_reserved, join_notice, join_text, leave_notice, leave_text,
    lemma_reserved_and_blank_rejected, name_taken, prompt, prompt_text, rejection_text, verdict,
    Rejection,
};
use crate::registry::{names_of, Registry};
use crate::text::{decode_lossy, is_blank, lossy_text, trimmed};
use vstd::prelude::*;
use vstd::string::*;
use vstd::utf8::encode_utf8;

verus! {

/// Where a connection stands.
pub enum ConnState {
    /// Accepted by the listener; the peer is not yet known.
    Connecting,
    /// The peer is asked for a username.
    Handshaking,
    /// The session is registered and its lines are relayed.
    Active { username: String },
    /// The peer is gone; the others are being told.
    Closing { username: String },
    /// Nothing is left to do.
    Closed,
}

/// What happened on the socket.
pub enum ConnEvent {
    /// The peer's identity was obtained.
    Accepted,
    /// A read returned these bytes. No bytes mean that the peer closed.
    Read(Vec<u8>),
    /// A read or a write to this peer failed.
    Failed,
    /// The broadcast that the last step asked for has been written.
    Delivered,
}

/// A message for the sessions of the registry.
pub struct Broadcast {
    /// The bytes to write to each recipient.
    pub payload: Vec<u8>,
    pub include_sender: bool,
}

/// What the caller has to send after a step.
pub struct Outbound {
    /// Text for the peer of this connection alone.
    pub reply: Option<String>,
    /// Text for the registered sessions.
    pub broadcast: Option<Broadcast>,
}

/// The handler of one connection.
pub struct Connection {
    pub id: u64,
    pub state: ConnState,
}

/// Nothing is sent.
pub open spec fn silent(out: Outbound) -> bool {
    out.reply is None && out.broadcast is None
}

/// Only `text` is sent, and only to the peer.
pub open spec fn replies(out: Outbound, text: Seq<char>) -> bool {
    &&& out.reply matches Some(r)
    &&& r@ == text
    &&& out.broadcast is None
}

/// Only `payload` is sent, as a broadcast.
pub open spec fn broadcasts(out: Outbound, payload: Seq<u8>, include_sender: bool) -> bool {
    &&& out.reply is None
    &&& out.broadcast matches Some(b)
    &&& b.payload@ == payload
    &&& b.include_sender == include_sender
}

/// The step that the peer's leaving causes in a session called `username`:
/// the others are told, and the session stays registered until they have been.
pub open spec fn leaves(
    username: String,
    post: ConnState,
    out: Outbound,
    before: Map<u64, Seq<char>>,
    after: Map<u64, Seq<char>>,
) -> bool {
    &&& post == (ConnState::Closing { username })
    &&& broadcasts(out, encode_utf8(leave_text(username@)), false)
    &&& after == before
}

/// One step of the handler of connection `id`: from the state `pre` and the
/// registry `before`, the event `ev` leads to the state `post`, the registry
/// `after` and the messages `out`. A candidate username is the text that the
/// bytes decode to; a chunk of chat is relayed as bytes and never decoded.
pub open spec fn step(
    id: u64,
    pre: ConnState,
    ev: ConnEvent,
    before: Map<u64, Seq<char>>,
    post: ConnState,
    out: Outbound,
    after: Map<u64, Seq<char>>,
) -> bool {
    match (pre, ev) {
        (ConnState::Connecting, ConnEvent::Accepted) => {
            &&& post is Handshaking
            &&& replies(out, prompt_text())
            &&& after == before
        },
        (ConnState::Connecting, ConnEvent::Failed) => {
            &&& post is Closed
            &&& silent(out)
            &&& after == before
        },
        (ConnState::Handshaking, ConnEvent::Read(bytes)) => {
            match verdict(lossy_text(bytes@), names_of(before)) {
                Ok(name) => {
                    &&& post matches ConnState::Active { username }
                    &&& username@ == name
                    &&& broadcasts(out, encode_utf8(join_text(name)), true)
                    &&& after == before.insert(id, name)
                },
                Err(r) => {
                    &&& post is Handshaking
                    &&& replies(out, rejection_text(r) + prompt_text())
                    &&& after == before
                },
            }
        },
        (ConnState::Handshaking, ConnEvent::Failed) => {
            &&& post is Closed
            &&& silent(out)
            &&& after == before
        },
        (ConnState::Active { username }, ConnEvent::Read(bytes)) => {
            if bytes@.len() > 0 {
                &&& post == pre
                &&& broadcasts(out, chat_bytes(username@, bytes@), false)
                &&& after == before
            } else {
                leaves(username, post, out, before, after)
            }
        },
        (ConnState::Active { username }, ConnEvent::Failed) => leaves(
            username,
            post,
            out,
            before,
            after,
        ),
        (ConnState::Closing { username }, ConnEvent::Delivered) => {
            &&& post is Closed
            &&& silent(out)
            &&& after == before.remove(id)
        },
        (ConnState::Closing { username }, ConnEvent::Failed) => {
            &&& post is Closed
            &&& silent(out)
            &&& after == before.remove(id)
        },
        _ => {
            &&& post == pre
            &&& silent(out)
            &&& after == before
        },
    }
}

/// While the peer is asked for its username, a blank candidate and the
/// reserved name are turned down with their line and the prompt again, the
/// handler keeps asking, and the registry stays as it is.
pub proof fn lemma_bad_candidate_is_asked_again(
    id: u64,
    bytes: Vec<u8>,
    before: Map<u64, Seq<char>>,
    post: ConnState,
    out: Outbound,
    after: Map<u64, Seq<char>>,
)
    requires
        step(id, ConnState::Handshaking, ConnEvent::Read(bytes), before, post, out, after),
    ensures
        is_blank(lossy_text(bytes@)) ==> post is Handshaking && after == before && replies(
            out,
            rejection_text(Rejection::Empty) + prompt_text(),
        ),
        is_reserved(trimmed(lossy_text(bytes@))) ==> post is Handshaking && after == before
            && replies(out, rejection_text(Rejection::Reserved) + prompt_text()),
        name_taken(names_of(before), trimmed(lossy_text(bytes@))) ==> post is Handshaking
            && after == before,
{
    lemma_reserved_and_blank_rejected(lossy_text(bytes@), names_of(before));
}

/// A chunk of chat goes out as it came in: behind the sender's name, a colon
/// and a blank stand the very bytes that were read, whatever they are.
pub proof fn lemma_chunk_is_relayed_byte_for_byte(
    id: u64,
    username: String,
    bytes: Vec<u8>,
    before: Map<u64, Seq<char>>,
    post: ConnState,
    out: Outbound,
    after: Map<u64, Seq<char>>,
)
    requires
        bytes@.len() > 0,
        step(
            id,
            ConnState::Active { username },
            ConnEvent::Read(bytes),
            before,
            post,
            out,
            after,
        ),
    ensures
        out.broadcast matches Some(b) && !b.include_sender && b.payload@.len() == encode_utf8(
            username@,
        ).len() + 2 + bytes@.len() && b.payload@.subrange(
            b.payload@.len() - bytes@.len(),
            b.payload@.len() as int,
        ) == bytes@ && b.payload@.subrange(0, encode_utf8(username@).len() as int)
            == encode_utf8(username@),
        post == (ConnState::Active { username }),
        after == before,
{
    let b = out.broadcast->0;
    let name = encode_utf8(username@);
    assert(b.payload@ == name + seq![0x3Au8, 0x20u8] + bytes@);
    assert(b.payload@.subrange(b.payload@.len() - bytes@.len(), b.payload@.len() as int)
        =~= bytes@);
    assert(b.payload@.subrange(0, name.len() as int) =~= name);
}

impl Connection {
    /// The handler of a connection that was just accepted.
    pub fn new(id: u64) -> (c: Self)
        ensures
            c.id == id,
            c.state is Connecting,
    {
        Connection { id, state: ConnState::Connecting }
    }

    /// Whether the handler is done.
    pub fn is_closed(&self) -> (b: bool)
        ensures
            b == (self.state is Closed),
    {
        match self.state {
            ConnState::Closed => true,
            _ => false,
        }
    }

    /// Takes one event and makes the step that `step` describes: it moves to
    /// the next state, enters or removes the session in the registry, and
    /// gives back what is to be sent.
    pub fn on_event(&mut self, registry: &mut Registry, event: ConnEvent) -> (out: Outbound)
        requires
            old(registry).wf(),
        ensures
            final(registry).wf(),
            final(self).id == old(self).id,
            step(
                old(self).id,
                old(self).state,
                event,
                old(registry)@,
                final(self).state,
                out,
                final(registry)@,
            ),
    {
        let id = self.id;
        let silence = Outbound { reply: None, broadcast: None };
        let (next, out) = match (&self.state, event) {
            (ConnState::Connecting, ConnEvent::Accepted) => (
                Some(ConnState::Handshaking),
                Outbound { reply: Some(prompt()), broadcast: None },
            ),
            (ConnState::Connecting, ConnEvent::Failed) => (Some(ConnState::Closed), silence),
            (ConnState::Handshaking, ConnEvent::Read(bytes)) => {
                let candidate = decode_lossy(bytes.as_slice());
                match registry.register(id, candidate.as_str()) {
                    Ok(name) => {
                        let payload = join_notice(name.as_str()).as_str().as_bytes_vec();
                        (
                            Some(ConnState::Active { username: name }),
                            Outbound {
                                reply: None,
                                broadcast: Some(Broadcast { payload, include_sender: true }),
                            },
                        )
                    },
                    Err(r) => (None, Outbound { reply: Some(r.reply()), broadcast: None }),
                }
            },
            (ConnState::Handshaking, ConnEvent::Failed) => (Some(ConnState::Closed), silence),
            (ConnState::Active { username }, ConnEvent::Read(bytes)) => {
                if bytes.len() == 0 {
                    let payload = leave_notice(username.as_str()).as_str().as_bytes_vec();
                    (
                        Some(ConnState::Closing { username: username.clone() }),
                        Outbound {
                            reply: None,
                            broadcast: Some(Broadcast { payload, include_sender: false }),
                        },
                    )
                } else {
                    let payload = chat_line(username.as_str(), bytes.as_slice());
                    (
                        None,
                        Outbound {
                            reply: None,
                            broadcast: Some(Broadcast { payload, include_sender: false }),
                        },
                    )
                }
            },
            (ConnState::Active { username }, ConnEvent::Failed) => {
                let payload = leave_notice(username.as_str()).as_str().as_bytes_vec();
                (
                    Some(ConnState::Closing { username: username.clone() }),
                    Outbound {
                        reply: None,
                        broadcast: Some(Broadcast { payload, include_sender: false }),
                    },
                )
            },
            (ConnState::Closing { .. }, ConnEvent::Delivered) => {
                let _ = registry.remove(id);
                (Some(ConnState::Closed), silence)
            },
            (ConnState::Closing { .. }, ConnEvent::Failed) => {
                let _ = registry.remove(id);
                (Some(ConnState::Closed), silence)
            },
            _ => (None, silence),
        };
        if let Some(state) = next {
            self.state = state;
        }
        out
    }
}

} // verus!
