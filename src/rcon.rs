use vstd::prelude::*;
use vstd::string::StringExecFns;

use crate::error::RconError;
use crate::packet::{
    byte_len, frame_spec, PacketType, RconPacket, MAX_CLIENT_PAYLOAD_SIZE, MAX_PACKET_SIZE,
};

verus! {

/// No transport to the server is open.
pub struct Disconnected;

/// A transport is open but the server has not accepted a password yet.
pub struct Connected;

/// The server accepted the password; holds the last sequence id handed out.
pub struct Authenticated {
    id: i32,
}

impl Authenticated {
    #[verifier::type_invariant]
    spec fn inv(self) -> bool {
        self.id >= 0
    }
}

/// A protocol client in one of the states `Disconnected`, `Connected` and
/// `Authenticated`; each state offers only the steps valid in it. The
/// transport itself is held by the caller, who performs the reads and writes
/// that these steps ask for.
pub struct RconClient<T> {
    state: T,
}

/// The sequence id that follows `current`: one more, wrapping from `i32::MAX`
/// to 1, since 0 is reserved for authentication.
pub open spec fn next_sequence_spec(current: i32) -> i32 {
    if current == i32::MAX {
        1
    } else {
        (current + 1) as i32
    }
}

/// The sequence id that follows `current`.
pub fn next_sequence(current: i32) -> (r: i32)
    requires
        current >= 0,
    ensures
        r == next_sequence_spec(current),
        current == i32::MAX ==> r == 1,
        r >= 1,
{
    if current == i32::MAX {
        1
    } else {
        current + 1
    }
}

/// The outcome of the authentication exchange, given the server's reply:
/// the acknowledgement is framed as a command, with id -1 for a refused
/// password and 0 for an accepted one.
pub open spec fn auth_spec(reply: (i32, PacketType, Seq<char>)) -> Result<(), RconError> {
    if reply.1 == PacketType::Command {
        if reply.0 == -1 {
            Err(RconError::AuthFail)
        } else if reply.0 == 0 {
            Ok(())
        } else {
            Err(RconError::IdMismatch(0, reply.0))
        }
    } else {
        Err(RconError::InvalidPacketType(PacketType::Command, reply.1))
    }
}

/// What a frame of a fragmented reply does to the text gathered so far: a
/// frame with the command's id adds its payload (`(false, text)`), the
/// probe's reply with the end marker closes the reply (`(true, text)`).
pub open spec fn fragment_step(
    command_id: i32,
    probe_id: i32,
    text: Seq<char>,
    frame: (i32, PacketType, Seq<char>),
) -> Result<(bool, Seq<char>), RconError> {
    if frame.0 == command_id {
        Ok((false, text + frame.2))
    } else if frame.0 == probe_id {
        if frame.2 == end_marker() {
            Ok((true, text))
        } else {
            Err(RconError::InvalidPacketType(PacketType::Response, frame.1))
        }
    } else {
        Err(RconError::IdMismatch(probe_id, frame.0))
    }
}

/// The reply the server gives to the probe, which it does not know.
pub open spec fn end_marker() -> Seq<char> {
    "Unknown request 0"@
}

impl RconClient<Disconnected> {
    /// A client with no transport.
    pub fn new() -> Self {
        RconClient { state: Disconnected }
    }

    /// Moves on once the caller has opened a transport to the server.
    pub fn connect(self) -> RconClient<Connected> {
        RconClient { state: Connected }
    }
}

impl RconClient<Connected> {
    /// The frame that asks the server to accept `password`; it carries id 0.
    pub fn login(&self, password: String) -> (r: Result<Vec<u8>, RconError>)
        ensures
            byte_len(password@) <= MAX_CLIENT_PAYLOAD_SIZE ==> r is Ok && r->Ok_0@ == frame_spec(
                0,
                PacketType::Authentication,
                password@,
            ),
            byte_len(password@) > MAX_CLIENT_PAYLOAD_SIZE ==> r == Err::<Vec<u8>, _>(
                RconError::PayloadTooBig(MAX_CLIENT_PAYLOAD_SIZE, byte_len(password@) as usize),
            ),
    {
        let request = RconPacket::authentication(0, password)?;
        Ok(request.encode())
    }

    /// Reads the server's answer to the login frame: the authenticated client
    /// starts with sequence id 0.
    pub fn authenticate(self, reply: &RconPacket) -> (r: Result<RconClient<Authenticated>, RconError>)
        ensures
            r is Ok <==> auth_spec(reply.parts()) is Ok,
            r is Ok ==> r->Ok_0.last_id() == 0,
            r is Err ==> r->Err_0 == auth_spec(reply.parts())->Err_0,
    {
        match reply.packet_type {
            PacketType::Command => {
                if reply.id == -1 {
                    Err(RconError::AuthFail)
                } else if reply.id == 0 {
                    Ok(RconClient { state: Authenticated { id: 0 } })
                } else {
                    Err(RconError::IdMismatch(0, reply.id))
                }
            },
            other => Err(RconError::InvalidPacketType(PacketType::Command, other)),
        }
    }
}

/// What the first reply to a command leads to.
pub enum Reply {
    /// The whole response.
    Complete(String),
    /// The response was cut at the largest frame size: send the probe frame,
    /// then feed every following frame to the reassembly.
    Fragmented(Reassembly, Vec<u8>),
}

/// The state of a fragmented reply: the command's id, the probe's id and
/// the text gathered so far.
pub struct Reassembly {
    pub command_id: i32,
    pub probe_id: i32,
    pub text: String,
}

/// What one more frame of a fragmented reply leads to.
pub enum Fragment {
    /// More frames follow.
    More(Reassembly),
    /// The reply is complete.
    Done(String),
}

impl RconClient<Authenticated> {
    /// The last sequence id handed out.
    pub closed spec fn last_id(&self) -> i32 {
        self.state.id
    }

    /// Hands out the next sequence id.
    fn id(&mut self) -> (r: i32)
        ensures
            r == next_sequence_spec(old(self).last_id()),
            final(self).last_id() == r,
            r >= 1,
    {
        proof {
            use_type_invariant(&self.state);
        }
        let next = next_sequence(self.state.id);
        self.state = Authenticated { id: next };
        next
    }

    /// Sends a console command: hands out a new sequence id and returns the
    /// frame to write. The id is used up even when the payload is too large.
    pub fn command(&mut self, data: String) -> (r: Result<Vec<u8>, RconError>)
        ensures
            final(self).last_id() == next_sequence_spec(old(self).last_id()),
            byte_len(data@) <= MAX_CLIENT_PAYLOAD_SIZE ==> r is Ok && r->Ok_0@ == frame_spec(
                final(self).last_id(),
                PacketType::Command,
                data@,
            ),
            byte_len(data@) > MAX_CLIENT_PAYLOAD_SIZE ==> r == Err::<Vec<u8>, _>(
                RconError::PayloadTooBig(MAX_CLIENT_PAYLOAD_SIZE, byte_len(data@) as usize),
            ),
    {
        let id = self.id();
        let request = RconPacket::command(id, data)?;
        Ok(request.encode())
    }

    /// Reads the first reply to the command just sent; `size` is the frame
    /// size its size field announced. A reply with another id or another type
    /// is an error. A reply of exactly the largest frame size may be cut, so a
    /// probe gets the next sequence id and its frame is returned to be sent.
    pub fn reply(&mut self, size: i32, packet: RconPacket) -> (r: Result<Reply, RconError>)
        ensures
            packet.id != old(self).last_id() ==> r == Err::<Reply, _>(
                RconError::IdMismatch(old(self).last_id(), packet.id),
            ) && final(self).last_id() == old(self).last_id(),
            packet.id == old(self).last_id() && packet.packet_type != PacketType::Response ==> r
                == Err::<Reply, _>(RconError::InvalidPacketType(PacketType::Response, packet.packet_type))
                && final(self).last_id() == old(self).last_id(),
            packet.id == old(self).last_id() && packet.packet_type == PacketType::Response && size
                != MAX_PACKET_SIZE ==> r is Ok && r->Ok_0 is Complete && r->Ok_0->Complete_0@
                == packet.payload@ && final(self).last_id() == old(self).last_id(),
            packet.id == old(self).last_id() && packet.packet_type == PacketType::Response && size
                == MAX_PACKET_SIZE ==> r is Ok && r->Ok_0 is Fragmented && ({
                let gather = r->Ok_0->Fragmented_0;
                let probe = r->Ok_0->Fragmented_1;
                &&& final(self).last_id() == next_sequence_spec(old(self).last_id())
                &&& gather.command_id == old(self).last_id()
                &&& gather.probe_id == final(self).last_id()
                &&& gather.text@ == packet.payload@
                &&& probe@ == frame_spec(gather.probe_id, PacketType::Response, Seq::empty())
            }),
    {
        let id = self.state.id;
        if packet.id != id {
            Err(RconError::IdMismatch(id, packet.id))
        } else {
            match packet.packet_type {
                PacketType::Response => {
                    if size == MAX_PACKET_SIZE {
                        let probe_id = self.id();
                        let probe = match RconPacket::check(probe_id) {
                            Ok(p) => p,
                            Err(e) => return Err(e),
                        };
                        let gather = Reassembly { command_id: id, probe_id, text: packet.payload };
                        Ok(Reply::Fragmented(gather, probe.encode()))
                    } else {
                        Ok(Reply::Complete(packet.payload))
                    }
                },
                other => Err(RconError::InvalidPacketType(PacketType::Response, other)),
            }
        }
    }
}

impl Reassembly {
    /// Takes one more frame of a fragmented reply.
    pub fn accept(self, packet: RconPacket) -> (r: Result<Fragment, RconError>)
        ensures
            ({
                let step = fragment_step(self.command_id, self.probe_id, self.text@, packet.parts());
                match r {
                    Ok(Fragment::More(next)) => step == Ok::<_, RconError>((false, next.text@))
                        && next.command_id == self.command_id && next.probe_id == self.probe_id,
                    Ok(Fragment::Done(text)) => step == Ok::<_, RconError>((true, text@)),
                    Err(e) => step == Err::<(bool, Seq<char>), _>(e),
                }
            }),
    {
        if packet.id == self.command_id {
            let mut text = self.text;
            text.append(packet.payload.as_str());
            Ok(Fragment::More(Reassembly { command_id: self.command_id, probe_id: self.probe_id, text }))
        } else if packet.id == self.probe_id {
            let marker = String::from_str("Unknown request 0");
            if packet.payload == marker {
                Ok(Fragment::Done(self.text))
            } else {
                Err(RconError::InvalidPacketType(PacketType::Response, packet.packet_type))
            }
        } else {
            Err(RconError::IdMismatch(self.probe_id, packet.id))
        }
    }
}

/// Feeds `frames` one after another to a reassembly that has gathered
/// `text`: `None` while more frames are needed, else the complete text or the
/// error that ended it.
pub open spec fn reassemble(
    command_id: i32,
    probe_id: i32,
    text: Seq<char>,
    frames: Seq<(i32, PacketType, Seq<char>)>,
) -> Option<Result<Seq<char>, RconError>>
    decreases frames.len(),
{
    if frames.len() == 0 {
        None
    } else {
        match fragment_step(command_id, probe_id, text, frames[0]) {
            Err(e) => Some(Err(e)),
            Ok((true, done)) => Some(Ok(done)),
            Ok((false, more)) => reassemble(command_id, probe_id, more, frames.drop_first()),
        }
    }
}

/// The payloads of `frames`, joined in order.
pub open spec fn joined_payloads(frames: Seq<(i32, PacketType, Seq<char>)>) -> Seq<char>
    decreases frames.len(),
{
    if frames.len() == 0 {
        Seq::empty()
    } else {
        frames[0].2 + joined_payloads(frames.drop_first())
    }
}

/// A fragmented reply is the first payload followed by the payloads of all
/// continuation frames (those carrying the command's id) in the order they
/// arrived, complete once the probe's reply with the end marker comes.
pub proof fn lemma_reassembly(
    command_id: i32,
    probe_id: i32,
    first: Seq<char>,
    continuations: Seq<(i32, PacketType, Seq<char>)>,
    end_kind: PacketType,
)
    requires
        command_id != probe_id,
        forall|i: int| 0 <= i < continuations.len() ==> (#[trigger] continuations[i]).0 == command_id,
    ensures
        reassemble(
            command_id,
            probe_id,
            first,
            continuations.push((probe_id, end_kind, end_marker())),
        ) == Some(Ok::<_, RconError>(first + joined_payloads(continuations))),
    decreases continuations.len(),
{
    let frames = continuations.push((probe_id, end_kind, end_marker()));
    if continuations.len() == 0 {
        assert(first + joined_payloads(continuations) =~= first);
    } else {
        let rest = continuations.drop_first();
        assert(frames.drop_first() =~= rest.push((probe_id, end_kind, end_marker())));
        assert(frames[0] == continuations[0]);
        lemma_reassembly(command_id, probe_id, first + continuations[0].2, rest, end_kind);
        assert(first + continuations[0].2 + joined_payloads(rest) =~= first + joined_payloads(
            continuations,
        ));
    }
}

/// The server's acknowledgement decides alone, whatever its payload: id -1
/// is a refused password, id 0 an accepted one.
pub proof fn lemma_auth_reply(payload: Seq<char>)
    ensures
        auth_spec((-1i32, PacketType::Command, payload)) == Err::<(), _>(RconError::AuthFail),
        auth_spec((0i32, PacketType::Command, payload)) == Ok::<(), RconError>(()),
{
}

} // verus!
