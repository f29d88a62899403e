use vstd::prelude::*;
use vstd::string::StringExecFns;
use std::collections::VecDeque;

use crate::error::RconError;
use crate::packet::{byte_len, frame_spec, PacketType, MAX_CLIENT_PAYLOAD_SIZE};
use crate::rcon::{Authenticated, Connected, RconClient};

verus! {

/// A console command for the server.
#[derive(Debug, Clone)]
pub enum Command {
    /// Shut the server down; the connection is closed afterwards.
    Stop,
    /// Any other command line.
    Other(String),
}

impl Command {
    /// The command line that is sent.
    pub open spec fn text_spec(&self) -> Seq<char> {
        match self {
            Command::Stop => "stop"@,
            Command::Other(line) => line@,
        }
    }

    /// Whether the connection is closed after the command succeeds, since the
    /// server is expected to exit.
    pub open spec fn closes_spec(&self) -> bool {
        self is Stop
    }

    /// The command line that is sent.
    pub fn into_text(self) -> (r: String)
        ensures
            r@ == self.text_spec(),
    {
        match self {
            Command::Stop => String::from_str("stop"),
            Command::Other(line) => line,
        }
    }

    /// Whether the connection is closed after the command succeeds.
    pub fn closes_connection(&self) -> (r: bool)
        ensures
            r == self.closes_spec(),
    {
        match self {
            Command::Stop => true,
            Command::Other(_) => false,
        }
    }

    /// Saves all data of the running game.
    pub fn save_all() -> (r: Command)
        ensures
            r.text_spec() == "save-all"@,
            !r.closes_spec(),
    {
        Command::Other(String::from_str("save-all"))
    }

    /// Lists the connected players.
    pub fn list() -> (r: Command)
        ensures
            r.text_spec() == "list"@,
            !r.closes_spec(),
    {
        Command::Other(String::from_str("list"))
    }

    /// Queries the server's tick timings.
    pub fn tick_query() -> (r: Command)
        ensures
            r.text_spec() == "tick query"@,
            !r.closes_spec(),
    {
        Command::Other(String::from_str("tick query"))
    }
}

/// A live transport together with the authenticated client that speaks over
/// it.
pub struct Session<S> {
    pub stream: S,
    pub client: RconClient<Authenticated>,
}

/// Owns zero or one authenticated connection and decides what becomes of it
/// around each command: a cached connection is reused, none means connect and
/// authenticate first; after a success the connection is kept, after a failure
/// or a stop it is closed, so the next command starts clean. The caller runs
/// the commands one at a time, in the order they arrived.
pub struct RconActor<S> {
    password: String,
    client: Option<Session<S>>,
}

impl<S> RconActor<S> {
    /// The password sent when authenticating.
    pub closed spec fn password_spec(&self) -> Seq<char> {
        self.password@
    }

    /// The connection kept for the next command, if any.
    pub closed spec fn cached(&self) -> Option<Session<S>> {
        self.client
    }

    /// An actor with no connection yet.
    pub fn new(password: String) -> (r: Self)
        ensures
            r.password_spec() == password@,
            r.cached() is None,
    {
        RconActor { password, client: None }
    }

    /// Takes the cached connection for the next command; `None` means a new
    /// one must be opened and authenticated.
    pub fn take(&mut self) -> (r: Option<Session<S>>)
        ensures
            r == old(self).cached(),
            final(self).cached() is None,
            final(self).password_spec() == old(self).password_spec(),
    {
        self.client.take()
    }

    /// The frame that authenticates a freshly connected client.
    pub fn login(&self, client: &RconClient<Connected>) -> (r: Result<Vec<u8>, RconError>)
        ensures
            byte_len(self.password_spec()) <= MAX_CLIENT_PAYLOAD_SIZE ==> r is Ok && r->Ok_0@
                == frame_spec(0, PacketType::Authentication, self.password_spec()),
            byte_len(self.password_spec()) > MAX_CLIENT_PAYLOAD_SIZE ==> r == Err::<Vec<u8>, _>(
                RconError::PayloadTooBig(
                    MAX_CLIENT_PAYLOAD_SIZE,
                    byte_len(self.password_spec()) as usize,
                ),
            ),
    {
        client.login(self.password.clone())
    }

    /// Settles the connection after `command` ran over it with `outcome`: it
    /// is kept after a success unless the command stops the server; otherwise
    /// its transport is handed back to be shut down.
    pub fn finish(
        &mut self,
        session: Session<S>,
        command: &Command,
        outcome: &Result<String, RconError>,
    ) -> (r: Option<S>)
        requires
            old(self).cached() is None,
        ensures
            final(self).password_spec() == old(self).password_spec(),
            outcome is Ok && !command.closes_spec() ==> final(self).cached() == Some(session)
                && r is None,
            !(outcome is Ok && !command.closes_spec()) ==> final(self).cached() is None && r
                == Some(session.stream),
    {
        let keep = match outcome {
            Ok(_) => !command.closes_connection(),
            Err(_) => false,
        };
        if keep {
            self.client = Some(session);
            None
        } else {
            Some(session.stream)
        }
    }
}

/// The requests waiting for the connection, in arrival order, and whether
/// one is being served. Requests are served one at a time, in the order they
/// were posted: none is started while another is in flight.
pub struct Mailbox<R> {
    queue: VecDeque<R>,
    busy: bool,
}

impl<R> Mailbox<R> {
    /// The waiting requests, oldest first.
    pub closed spec fn pending(&self) -> Seq<R> {
        self.queue@
    }

    /// Whether a request is being served.
    pub closed spec fn in_flight(&self) -> bool {
        self.busy
    }

    /// An empty, idle mailbox.
    pub fn new() -> (r: Self)
        ensures
            r.pending() == Seq::<R>::empty(),
            !r.in_flight(),
    {
        Mailbox { queue: VecDeque::new(), busy: false }
    }

    /// Queues `request` behind every request posted before it.
    pub fn post(&mut self, request: R)
        ensures
            final(self).pending() == old(self).pending().push(request),
            final(self).in_flight() == old(self).in_flight(),
    {
        self.queue.push_back(request);
    }

    /// Starts the oldest waiting request, unless one is in flight or none
    /// waits.
    pub fn start(&mut self) -> (r: Option<R>)
        ensures
            old(self).in_flight() || old(self).pending().len() == 0 ==> r is None
                && final(self).pending() == old(self).pending() && final(self).in_flight()
                == old(self).in_flight(),
            !old(self).in_flight() && old(self).pending().len() > 0 ==> r == Some(
                old(self).pending()[0],
            ) && final(self).pending() == old(self).pending().drop_first()
                && final(self).in_flight(),
    {
        if self.busy {
            return None;
        }
        match self.queue.pop_front() {
            Some(request) => {
                self.busy = true;
                Some(request)
            },
            None => None,
        }
    }

    /// Marks the request in flight as served.
    pub fn done(&mut self)
        requires
            old(self).in_flight(),
        ensures
            !final(self).in_flight(),
            final(self).pending() == old(self).pending(),
    {
        self.busy = false;
    }
}

} // verus!
