//! The session: what a connected session is to its user, the one slot that
//! holds it, and the names and places that a new session is given.

use crate::control::Host;
use crate::text::{chars_of, decimal, decimal_chars, same_text, string_of, text_of_two};
use crate::token::{fresh_token, is_token};
use vstd::prelude::*;

verus! {

/// What the user is handed when a session is connected.
#[derive(Debug, PartialEq, Eq)]
pub struct SshConnectData {
    /// The identifier of the session.
    pub key: String,
    /// The local address behind which the agent answers.
    pub url: String,
    /// The password of the agent.
    pub password: String,
    /// The destination of the session, for display.
    pub destination: String,
}

/// What an [`SshConnectData`] holds, as sequences of characters.
pub struct SshConnectDataView {
    pub key: Seq<char>,
    pub url: Seq<char>,
    pub password: Seq<char>,
    pub destination: Seq<char>,
}

impl View for SshConnectData {
    type V = SshConnectDataView;

    open spec fn view(&self) -> SshConnectDataView {
        SshConnectDataView {
            key: self.key@,
            url: self.url@,
            password: self.password@,
            destination: self.destination@,
        }
    }
}

impl Clone for SshConnectData {
    fn clone(&self) -> (r: SshConnectData)
        ensures
            r@ == self@,
    {
        SshConnectData {
            key: self.key.clone(),
            url: self.url.clone(),
            password: self.password.clone(),
            destination: self.destination.clone(),
        }
    }
}

/// The path of `name` inside the directory `dir`, written with `/`.
pub open spec fn child_path(dir: Seq<char>, name: Seq<char>) -> Seq<char> {
    if dir.len() == 0 || dir.last() == '/' {
        dir + name
    } else {
        dir + "/"@ + name
    }
}

/// Writes the path of `name` inside the directory `dir`.
pub fn path_in(dir: &str, name: &str) -> (r: String)
    ensures
        r@ == child_path(dir@, name@),
{
    let chars = chars_of(dir);
    if chars.len() == 0 || chars[chars.len() - 1] == '/' {
        text_of_two(dir, name)
    } else {
        text_of_two(dir, "/").concat(name)
    }
}

/// The local address of a session whose forward listens on `port`.
pub open spec fn local_url(port: u16) -> Seq<char> {
    "http://127.0.0.1:"@ + decimal(port as nat)
}

/// The name of the scratch directory of the session `key`.
pub open spec fn dir_name(key: Seq<char>) -> Seq<char> {
    "opencode-ssh-"@ + key
}

/// The directory in which the scratch directories of sessions are made:
/// `/tmp` on a machine with Unix sockets, whose paths must stay short, and
/// the temporary directory of the system elsewhere.
pub open spec fn scratch_root(unix: bool, temp_dir: Seq<char>) -> Seq<char> {
    if unix {
        "/tmp"@
    } else {
        temp_dir
    }
}

/// The names and places of a new session.
#[derive(Debug, PartialEq, Eq)]
pub struct SessionPlan {
    /// The identifier of the session.
    pub key: String,
    /// The password of the agent.
    pub password: String,
    /// The local port that is forwarded to the agent.
    pub local_port: u16,
    /// The local address behind which the agent answers.
    pub url: String,
    /// The scratch directory of the session.
    pub dir: String,
    /// The control socket, on a machine that shares connections.
    pub socket_path: Option<String>,
    /// The socket of the prompt listener, on a machine with Unix sockets.
    pub askpass_socket: Option<String>,
}

/// The view of a string that may be absent.
pub open spec fn optional_view(s: Option<String>) -> Option<Seq<char>> {
    match s {
        Some(s) => Some(s@),
        None => None,
    }
}

impl SessionPlan {
    /// The plan is that of a session on the machine `host` with the local
    /// port `local_port`: key and password have the shape of identifiers,
    /// and address, directory and sockets follow from them.
    pub open spec fn fits(&self, unix: bool, temp_dir: Seq<char>, local_port: u16) -> bool {
        &&& is_token(self.key@)
        &&& is_token(self.password@)
        &&& self.local_port == local_port
        &&& self.url@ == local_url(local_port)
        &&& self.dir@ == child_path(scratch_root(unix, temp_dir), dir_name(self.key@))
        &&& optional_view(self.socket_path) == if unix {
            Some(child_path(self.dir@, "ssh.sock"@))
        } else {
            None
        }
        &&& optional_view(self.askpass_socket) == if unix {
            Some(child_path(self.dir@, "askpass.sock"@))
        } else {
            None
        }
    }
}

/// Writes the local address of a session whose forward listens on `port`.
pub fn url_of(port: u16) -> (r: String)
    ensures
        r@ == local_url(port),
{
    let digits = string_of(decimal_chars(port as u64).as_slice());
    text_of_two("http://127.0.0.1:", digits.as_str())
}

/// Plans a new session: draws its key and its password, and derives its
/// address, its scratch directory and its sockets.
pub fn plan_session(host: &Host, temp_dir: &str, local_port: u16) -> (plan: SessionPlan)
    ensures
        plan.fits(host.unix, temp_dir@, local_port),
{
    let key = fresh_token();
    let password = fresh_token();
    let name = text_of_two("opencode-ssh-", key.as_str());
    let dir = if host.unix {
        path_in("/tmp", name.as_str())
    } else {
        path_in(temp_dir, name.as_str())
    };
    let socket_path = if host.unix {
        Some(path_in(dir.as_str(), "ssh.sock"))
    } else {
        None
    };
    let askpass_socket = if host.unix {
        Some(path_in(dir.as_str(), "askpass.sock"))
    } else {
        None
    };
    SessionPlan {
        key,
        password,
        local_port,
        url: url_of(local_port),
        dir,
        socket_path,
        askpass_socket,
    }
}

/// What the user is handed for the session of `plan` to `destination`.
pub fn connect_data(plan: &SessionPlan, destination: &str) -> (r: SshConnectData)
    ensures
        r@ == (SshConnectDataView {
            key: plan.key@,
            url: plan.url@,
            password: plan.password@,
            destination: destination@,
        }),
{
    SshConnectData {
        key: plan.key.clone(),
        url: plan.url.clone(),
        password: plan.password.clone(),
        destination: destination.to_owned(),
    }
}

/// The one slot for the live session: it holds no session, or one session
/// under its key.
pub struct SessionSlot<S> {
    current: Option<(String, S)>,
}

impl<S> SessionSlot<S> {
    /// The session in the slot, with its key.
    pub closed spec fn view(&self) -> Option<(Seq<char>, S)> {
        match self.current {
            Some((key, session)) => Some((key@, session)),
            None => None,
        }
    }

    /// The session in the slot.
    pub open spec fn session(&self) -> Option<S> {
        match self@ {
            Some((_, session)) => Some(session),
            None => None,
        }
    }

    /// The slot holds the session `key`.
    pub open spec fn holds(&self, key: Seq<char>) -> bool {
        self@ matches Some((held, _)) && held == key
    }

    /// An empty slot.
    pub fn new() -> (r: SessionSlot<S>)
        ensures
            r@ is None,
    {
        SessionSlot { current: None }
    }

    /// Whether the slot holds a session.
    pub fn is_occupied(&self) -> (r: bool)
        ensures
            r == (self@ is Some),
    {
        self.current.is_some()
    }

    /// Empties the slot and returns the session that it held, to be torn
    /// down.
    pub fn take(&mut self) -> (taken: Option<S>)
        ensures
            final(self)@ is None,
            taken == old(self).session(),
    {
        match self.current.take() {
            Some((_, session)) => Some(session),
            None => None,
        }
    }

    /// Empties the slot if it holds the session `key`, and returns that
    /// session, to be torn down; a slot that holds no session, or another
    /// one, is left as it is.
    pub fn take_if(&mut self, key: &str) -> (taken: Option<S>)
        ensures
            old(self).holds(key@) ==> final(self)@ is None && taken == old(self).session(),
            !old(self).holds(key@) ==> final(self)@ == old(self)@ && taken is None,
    {
        let matches = match &self.current {
            Some((held, _)) => {
                let a = chars_of(held.as_str());
                let b = chars_of(key);
                same_text(a.as_slice(), b.as_slice())
            },
            None => false,
        };
        if matches {
            self.take()
        } else {
            None
        }
    }

    /// Puts the session `session` into the slot under `key`, and returns
    /// the session that the slot held before, to be torn down.
    pub fn install(&mut self, key: String, session: S) -> (displaced: Option<S>)
        ensures
            final(self)@ == Some((key@, session)),
            displaced == old(self).session(),
    {
        let displaced = self.take();
        self.current = Some((key, session));
        displaced
    }
}

} // verus!
