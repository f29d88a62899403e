use vstd::prelude::*;

use crate::error::RconError;
use vstd::string::StrSliceExecFns;

use crate::text::{find, find_pair, split, split_pair, texts, timings, timings_of};

verus! {

/// Why a console operation failed, as its callers see it.
#[derive(Debug, Clone, PartialEq, Eq)]
pub enum Error {
    /// The transport could not be opened.
    Connect(RconError),
    /// The server refused the password.
    Authenticate(RconError),
    /// The command exchange went wrong.
    Command(RconError),
    /// The transport broke during the exchange; the whole operation may be
    /// retried on a new connection.
    BrokenConnection(RconError),
    /// The worker that owns the connection could not be reached.
    Actor(String),
    /// The tick report did not hold five timings; holds the report.
    TickStats(String),
}

/// How an exchange error is reported to callers.
pub open spec fn classify_spec(e: RconError) -> Error {
    match e {
        RconError::Read(_) | RconError::Write(_) => Error::BrokenConnection(e),
        RconError::Connect(_) => Error::Connect(e),
        RconError::AuthFail => Error::Authenticate(e),
        _ => Error::Command(e),
    }
}

impl Error {
    /// Classifies an exchange error: read and write failures mean a broken
    /// connection, a failed connect or a refused password keep their own kind,
    /// everything else is a failed command.
    pub fn from_rcon(e: RconError) -> (r: Error)
        ensures
            r == classify_spec(e),
    {
        match e {
            RconError::Read(_) | RconError::Write(_) => Error::BrokenConnection(e),
            RconError::Connect(_) => Error::Connect(e),
            RconError::AuthFail => Error::Authenticate(e),
            _ => Error::Command(e),
        }
    }
}

/// The server's tick timings, each as reported, with its `ms` suffix.
#[derive(Debug, Clone, PartialEq, Eq)]
pub struct TickStats {
    pub average: String,
    pub target: String,
    pub p50: String,
    pub p95: String,
    pub p99: String,
}

/// The player names in a reply of the shape `<header>: <name>, <name>, ...`:
/// none without the `": "` separator or with nothing after it.
pub open spec fn players_spec(s: Seq<char>) -> Seq<Seq<char>> {
    match find_pair(s, 0, ':', ' ') {
        None => Seq::empty(),
        Some(i) => {
            let rest = s.subrange(i + 2, s.len() as int);
            if rest.len() == 0 {
                Seq::empty()
            } else {
                split_pair(rest, ',', ' ')
            }
        },
    }
}

/// Reads the player names out of the reply to the `list` command.
pub fn parse_player_list(reply: &str) -> (r: Vec<String>)
    ensures
        texts(r@) == players_spec(reply@),
{
    match find(reply, ':', ' ') {
        None => Vec::new(),
        Some(i) => {
            let n = reply.unicode_len();
            let rest = reply.substring_char(i + 2, n);
            if rest.unicode_len() == 0 {
                Vec::new()
            } else {
                split(rest, ',', ' ')
            }
        },
    }
}

/// Reads the tick timings out of the reply to the `tick query` command: the
/// words ending in `ms` (after `:` `,` `(` `)` are taken as spaces) must be
/// exactly five, in the order average, target, p50, p95, p99.
pub fn parse_tick_stats(reply: String) -> (r: Result<TickStats, Error>)
    ensures
        timings_of(reply@).len() == 5 ==> r is Ok && ({
            let t = r->Ok_0;
            let w = timings_of(reply@);
            &&& t.average@ == w[0]
            &&& t.target@ == w[1]
            &&& t.p50@ == w[2]
            &&& t.p95@ == w[3]
            &&& t.p99@ == w[4]
        }),
        timings_of(reply@).len() != 5 ==> r == Err::<TickStats, _>(Error::TickStats(reply)),
{
    let mut words = timings(reply.as_str());
    if words.len() != 5 {
        return Err(Error::TickStats(reply));
    }
    let ghost w = texts(words@);
    assert(w[4] == words@[4]@ && w[3] == words@[3]@ && w[2] == words@[2]@);
    assert(w[1] == words@[1]@ && w[0] == words@[0]@);
    let p99 = words.pop().unwrap();
    let p95 = words.pop().unwrap();
    let p50 = words.pop().unwrap();
    let target = words.pop().unwrap();
    let average = words.pop().unwrap();
    Ok(TickStats { average, target, p50, p95, p99 })
}

} // verus!
