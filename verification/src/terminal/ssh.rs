//! What the library keeps of a remote shell: the host, port and user it was
//! opened for, and the key under which its connection is shared.
use vstd::prelude::*;

use crate::text::{dec_spec, push_decimal};

verus! {

/// The host, port and user of a remote shell.
pub struct SshTabInfo {
    pub host: String,
    pub port: u16,
    pub user: String,
}

impl SshTabInfo {
    /// A copy of the connection details.
    pub fn duplicate(&self) -> (r: SshTabInfo)
        ensures
            r.host@ == self.host@,
            r.port == self.port,
            r.user@ == self.user@,
    {
        SshTabInfo { host: self.host.clone(), port: self.port, user: self.user.clone() }
    }
}

/// `user@host:port`, the key under which one connection is shared by all
/// the tabs opened to the same place.
pub open spec fn connection_key_spec(host: Seq<char>, port: u16, user: Seq<char>) -> Seq<char> {
    user + seq!['@'] + host + seq![':'] + dec_spec(port as nat)
}

/// The key of the connection for `user` at `host` and `port`.
pub fn connection_key(host: &str, port: u16, user: &str) -> (r: String)
    ensures
        r@ == connection_key_spec(host@, port, user@),
{
    let mut s = String::new();
    s.push_str(user);
    s.push('@');
    s.push_str(host);
    s.push(':');
    push_decimal(&mut s, port as u64);
    s
}

/// A way of logging in to a remote host, in the order they are tried.
#[derive(Clone, Copy, Debug, PartialEq, Eq, Structural)]
pub enum AuthMethod {
    /// The keys of the SSH agent.
    Agent,
    /// Keyboard-interactive, every prompt answered with the password.
    KeyboardInteractive,
    /// The password.
    Password,
}

/// The method to try after `failed` failed: the agent first, then
/// keyboard-interactive, then the password; none after the password.
pub fn next_auth(failed: Option<AuthMethod>) -> (r: Option<AuthMethod>)
    ensures
        r == match failed {
            None => Some(AuthMethod::Agent),
            Some(AuthMethod::Agent) => Some(AuthMethod::KeyboardInteractive),
            Some(AuthMethod::KeyboardInteractive) => Some(AuthMethod::Password),
            Some(AuthMethod::Password) => None,
        },
{
    match failed {
        None => Some(AuthMethod::Agent),
        Some(AuthMethod::Agent) => Some(AuthMethod::KeyboardInteractive),
        Some(AuthMethod::KeyboardInteractive) => Some(AuthMethod::Password),
        Some(AuthMethod::Password) => None,
    }
}

/// The answers to keyboard-interactive prompts: the password for each.
pub fn prompt_answers(prompts: usize, password: &str) -> (r: Vec<String>)
    ensures
        r@.len() == prompts,
        forall|i: int| 0 <= i < prompts ==> (#[trigger] r@[i])@ == password@,
{
    let mut r: Vec<String> = Vec::new();
    let mut i: usize = 0;
    while i < prompts
        invariant
            i <= prompts,
            r@.len() == i,
            forall|k: int| 0 <= k < i ==> (#[trigger] r@[k])@ == password@,
        decreases prompts - i,
    {
        r.push(password.to_owned());
        i += 1;
    }
    r
}

/// Why a connection could not be made, with the underlying error's text.
pub enum ConnectError {
    Resolve(String),
    NoAddress(String),
    Connect(String),
    Session(String),
    Handshake(String),
    Auth(String),
    Channel(String),
    SocketPair,
}

impl ConnectError {
    /// The message shown for the error.
    pub fn message(&self) -> (r: String)
        ensures
            r@ == match self {
                ConnectError::Resolve(e) => "DNS resolution failed: "@ + e@,
                ConnectError::NoAddress(host) => "No addresses found for "@ + host@,
                ConnectError::Connect(e) => "Connection failed: "@ + e@,
                ConnectError::Session(e) => e@,
                ConnectError::Handshake(e) => "SSH handshake failed: "@ + e@,
                ConnectError::Auth(e) => "Authentication failed: "@ + e@,
                ConnectError::Channel(e) => e@,
                ConnectError::SocketPair => "socketpair failed"@,
            },
    {
        let mut s = String::new();
        match self {
            ConnectError::Resolve(e) => {
                s.push_str("DNS resolution failed: ");
                s.push_str(e.as_str());
            },
            ConnectError::NoAddress(host) => {
                s.push_str("No addresses found for ");
                s.push_str(host.as_str());
            },
            ConnectError::Connect(e) => {
                s.push_str("Connection failed: ");
                s.push_str(e.as_str());
            },
            ConnectError::Session(e) => {
                s.push_str(e.as_str());
            },
            ConnectError::Handshake(e) => {
                s.push_str("SSH handshake failed: ");
                s.push_str(e.as_str());
            },
            ConnectError::Auth(e) => {
                s.push_str("Authentication failed: ");
                s.push_str(e.as_str());
            },
            ConnectError::Channel(e) => {
                s.push_str(e.as_str());
            },
            ConnectError::SocketPair => {
                s.push_str("socketpair failed");
            },
        }
        s
    }
}

} // verus!
