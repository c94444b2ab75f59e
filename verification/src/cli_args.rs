//! What the client is started with, and what it sends and expects while the
//! server asks for its username.

use crate::protocol::PORT;
use crate::text::{contains, contains_text};
use vstd::prelude::*;
use vstd::string::*;

verus! {

/// The arguments of the client.
pub struct Args {
    /// The name under which the user wants to talk.
    pub username: String,
    /// The address of the server.
    pub ip: String,
    /// The port of the server.
    pub port: u16,
}

/// Whether `response` holds one of the three lines with which the server turns
/// a username down.
pub open spec fn is_rejection(response: Seq<char>) -> bool {
    ||| contains_text(response, "Username cannot be empty"@)
    ||| contains_text(response, "Username 'System' is reserved"@)
    ||| contains_text(response, "Username is already taken"@)
}

impl Args {
    /// The arguments for `username` with the server on all local addresses and
    /// the agreed port.
    pub fn new(username: String) -> (args: Self)
        ensures
            args.username == username,
            args.ip@ == "0.0.0.0"@,
            args.port == PORT,
    {
        Args { username, ip: String::from_str("0.0.0.0"), port: PORT }
    }

    /// The address to connect to: the server's address, a colon and the agreed
    /// port. The port among the arguments is not looked at.
    pub fn server_addr(&self) -> (addr: String)
        ensures
            addr@ == self.ip@ + ":2133"@,
    {
        let mut addr = self.ip.clone();
        addr.append(":2133");
        addr
    }

    /// The line with which the client answers the prompt: its username and a line break.
    pub fn username_line(&self) -> (line: String)
        ensures
            line@ == self.username@ + "\n"@,
    {
        let mut line = self.username.clone();
        line.append("\n");
        line
    }
}

/// Tells whether the server's answer to a username turns it down.
pub fn rejects_username(response: &str) -> (r: bool)
    ensures
        r == is_rejection(response@),
{
    contains(response, "Username cannot be empty") || contains(
        response,
        "Username 'System' is reserved",
    ) || contains(response, "Username is already taken")
}

} // verus!
