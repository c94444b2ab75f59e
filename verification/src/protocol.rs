//! The texts that go over the wire and the rules for a username.

use crate::text::{chars_eq_ignore_case, chars_of, eq_ignore_case, trimmed};
use vstd::prelude::*;
use vstd::string::*;
use vstd::utf8::encode_utf8;

verus! {

/// The port that server and client agree on.
pub const PORT: u16 = 2133;

/// The most bytes that the server reads for one candidate username.
pub const USERNAME_READ_LIMIT: usize = 32;

/// The most bytes that either side reads from the socket at once.
pub const CHUNK_LIMIT: usize = 4096;

/// Why a candidate username is turned down.
#[derive(Clone, Copy, Debug, PartialEq, Eq, Structural)]
pub enum Rejection {
    /// Nothing is left of the candidate once it is trimmed.
    Empty,
    /// The candidate is the name under which the server itself speaks.
    Reserved,
    /// A connected session already has the name.
    Taken,
}

/// Whether `name` is the reserved name, in any case of its letters.
pub open spec fn is_reserved(name: Seq<char>) -> bool {
    eq_ignore_case(name, "System"@)
}

/// Whether one of `names` equals `name` up to the case of ASCII letters.
pub open spec fn name_taken(names: Set<Seq<char>>, name: Seq<char>) -> bool {
    exists|other: Seq<char>| #[trigger] names.contains(other) && eq_ignore_case(other, name)
}

/// Whether `name` may be given to a session beside those called `names`: it is
/// trimmed, not empty, not reserved and not taken.
pub open spec fn admissible(name: Seq<char>, names: Set<Seq<char>>) -> bool {
    &&& trimmed(name) == name
    &&& name.len() > 0
    &&& !is_reserved(name)
    &&& !name_taken(names, name)
}

/// What becomes of a candidate beside the sessions called `names`: the trimmed
/// name, or the first of the three reasons that speaks against it.
pub open spec fn verdict(candidate: Seq<char>, names: Set<Seq<char>>) -> Result<
    Seq<char>,
    Rejection,
> {
    let name = trimmed(candidate);
    if name.len() == 0 {
        Err(Rejection::Empty)
    } else if is_reserved(name) {
        Err(Rejection::Reserved)
    } else if name_taken(names, name) {
        Err(Rejection::Taken)
    } else {
        Ok(name)
    }
}

/// The text that asks for a username.
pub open spec fn prompt_text() -> Seq<char> {
    "Enter your username: "@
}

/// The text that tells the peer why its candidate was turned down.
pub open spec fn rejection_text(r: Rejection) -> Seq<char> {
    match r {
        Rejection::Empty => "Username cannot be empty. Please try again.\n"@,
        Rejection::Reserved => "Username 'System' is reserved. Please choose another.\n"@,
        Rejection::Taken => "Username is already taken. Please choose another.\n"@,
    }
}

/// The notice that `username` has come.
pub open spec fn join_text(username: Seq<char>) -> Seq<char> {
    username + " has joined the chat\n"@
}

/// The notice that `username` has gone.
pub open spec fn leave_text(username: Seq<char>) -> Seq<char> {
    username + " has left the chat\n"@
}

/// A chat line on the wire: the bytes of the author's name, a colon and a
/// blank, then the chunk byte for byte as it was received.
pub open spec fn chat_bytes(username: Seq<char>, chunk: Seq<u8>) -> Seq<u8> {
    encode_utf8(username) + seq![0x3Au8, 0x20u8] + chunk
}

/// The prompt for a username. It ends without a line break.
pub fn prompt() -> (s: String)
    ensures
        s@ == prompt_text(),
{
    String::from_str("Enter your username: ")
}

impl Rejection {
    /// The line that is sent to the peer for this rejection.
    pub fn message(&self) -> (s: String)
        ensures
            s@ == rejection_text(*self),
    {
        match self {
            Rejection::Empty => String::from_str("Username cannot be empty. Please try again.\n"),
            Rejection::Reserved => String::from_str(
                "Username 'System' is reserved. Please choose another.\n",
            ),
            Rejection::Taken => String::from_str(
                "Username is already taken. Please choose another.\n",
            ),
        }
    }

    /// What is sent after a rejection: its line, then the prompt again.
    pub fn reply(&self) -> (s: String)
        ensures
            s@ == rejection_text(*self) + prompt_text(),
    {
        let mut s = self.message();
        s.append("Enter your username: ");
        s
    }
}

/// The notice that is broadcast when `username` enters the chat.
pub fn join_notice(username: &str) -> (s: String)
    ensures
        s@ == join_text(username@),
{
    let mut s = String::from_str(username);
    s.append(" has joined the chat\n");
    s
}

/// The notice that is broadcast when `username` leaves the chat.
pub fn leave_notice(username: &str) -> (s: String)
    ensures
        s@ == leave_text(username@),
{
    let mut s = String::from_str(username);
    s.append(" has left the chat\n");
    s
}

/// The bytes that are broadcast for a chunk that `username` sent. The chunk
/// stays as it came: not trimmed, not split, not decoded, with its own line break.
pub fn chat_line(username: &str, chunk: &[u8]) -> (payload: Vec<u8>)
    ensures
        payload@ == chat_bytes(username@, chunk@),
{
    let mut payload = username.as_bytes_vec();
    payload.push(0x3A);
    payload.push(0x20);
    let mut i: usize = 0;
    while i < chunk.len()
        invariant
            i <= chunk.len(),
            payload@ == encode_utf8(username@) + seq![0x3Au8, 0x20u8] + chunk@.take(i as int),
        decreases chunk.len() - i,
    {
        payload.push(chunk[i]);
        assert(chunk@.take(i + 1) =~= chunk@.take(i as int).push(chunk@[i as int]));
        i += 1;
    }
    assert(chunk@.take(i as int) =~= chunk@);
    payload
}

/// Tells whether `name` is the reserved name.
pub fn is_reserved_name(name: &Vec<char>) -> (b: bool)
    ensures
        b == is_reserved(name@),
{
    let reserved = chars_of("System");
    chars_eq_ignore_case(name, &reserved)
}

/// The names `system`, `System` and `SYSTEM` are reserved.
pub proof fn lemma_system_is_reserved()
    ensures
        is_reserved("system"@),
        is_reserved("System"@),
        is_reserved("SYSTEM"@),
{
    reveal_strlit("system");
    reveal_strlit("System");
    reveal_strlit("SYSTEM");
}

/// A reserved name is turned down whoever is connected, and so is a blank candidate.
pub proof fn lemma_reserved_and_blank_rejected(candidate: Seq<char>, names: Set<Seq<char>>)
    ensures
        crate::text::is_blank(candidate) ==> verdict(candidate, names) == Err::<
            Seq<char>,
            Rejection,
        >(Rejection::Empty),
        is_reserved(trimmed(candidate)) ==> verdict(candidate, names) == Err::<
            Seq<char>,
            Rejection,
        >(Rejection::Reserved),
        verdict(candidate, names) is Ok ==> admissible(verdict(candidate, names)->Ok_0, names),
{
    crate::text::lemma_trimmed_empty_iff_blank(candidate);
    crate::text::lemma_trimmed_idempotent(candidate);
    if is_reserved(trimmed(candidate)) {
        reveal_strlit("System");
    }
}

} // verus!
