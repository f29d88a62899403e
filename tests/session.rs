use mctrlrs::actor::{Command, Mailbox, RconActor, Session};
use mctrlrs::client::{parse_player_list, parse_tick_stats, Error};
use mctrlrs::error::RconError;
use mctrlrs::packet::{PacketType, RconPacket};
use mctrlrs::rcon::{next_sequence, Authenticated, Fragment, RconClient, Reassembly, Reply};

fn packet(id: i32, kind: PacketType, payload: &str) -> RconPacket {
    RconPacket { id, packet_type: kind, payload: payload.to_string() }
}

fn authenticated() -> RconClient<Authenticated> {
    RconClient::new()
        .connect()
        .authenticate(&packet(0, PacketType::Command, ""))
        .ok()
        .unwrap()
}

#[test]
fn login_frame_carries_password_with_id_zero() {
    let client = RconClient::new().connect();
    let frame = client.login("secret".to_string()).unwrap();
    let expected = RconPacket::authentication(0, "secret".to_string()).unwrap().encode();
    assert_eq!(frame, expected);
    assert!(matches!(
        client.login("x".repeat(2000)),
        Err(RconError::PayloadTooBig(1446, 2000))
    ));
}

#[test]
fn auth_refused_whatever_the_payload() {
    for payload in ["", "anything", "Unknown request 0"] {
        let r = RconClient::new().connect().authenticate(&packet(-1, PacketType::Command, payload));
        assert!(matches!(r, Err(RconError::AuthFail)));
    }
}

#[test]
fn auth_accepted_whatever_the_payload() {
    for payload in ["", "welcome"] {
        let r = RconClient::new().connect().authenticate(&packet(0, PacketType::Command, payload));
        assert!(r.is_ok());
    }
}

#[test]
fn auth_other_id_or_type_fails() {
    let r = RconClient::new().connect().authenticate(&packet(5, PacketType::Command, ""));
    assert!(matches!(r, Err(RconError::IdMismatch(0, 5))));
    let r = RconClient::new().connect().authenticate(&packet(0, PacketType::Response, ""));
    assert!(matches!(
        r,
        Err(RconError::InvalidPacketType(PacketType::Command, PacketType::Response))
    ));
}

#[test]
fn sequence_wraps_to_one() {
    assert_eq!(next_sequence(i32::MAX), 1);
    assert_eq!(next_sequence(0), 1);
    assert_eq!(next_sequence(41), 42);
    assert_eq!(next_sequence(i32::MAX - 1), i32::MAX);
}

#[test]
fn commands_take_increasing_ids() {
    let mut client = authenticated();
    let first = client.command("list".to_string()).unwrap();
    assert_eq!(first, RconPacket::command(1, "list".to_string()).unwrap().encode());
    let second = client.command("save-all".to_string()).unwrap();
    assert_eq!(second, RconPacket::command(2, "save-all".to_string()).unwrap().encode());
}

#[test]
fn oversized_command_still_uses_an_id() {
    let mut client = authenticated();
    assert!(matches!(
        client.command("y".repeat(1447)),
        Err(RconError::PayloadTooBig(1446, 1447))
    ));
    let next = client.command("list".to_string()).unwrap();
    assert_eq!(next, RconPacket::command(2, "list".to_string()).unwrap().encode());
}

#[test]
fn reply_complete() {
    let mut client = authenticated();
    client.command("list".to_string()).unwrap();
    match client.reply(20, packet(1, PacketType::Response, "There are 0")) {
        Ok(Reply::Complete(text)) => assert_eq!(text, "There are 0"),
        _ => panic!("expected a complete reply"),
    }
}

#[test]
fn reply_with_wrong_id_or_type() {
    let mut client = authenticated();
    client.command("list".to_string()).unwrap();
    assert!(matches!(
        client.reply(20, packet(9, PacketType::Response, "")),
        Err(RconError::IdMismatch(1, 9))
    ));
    assert!(matches!(
        client.reply(20, packet(1, PacketType::Command, "")),
        Err(RconError::InvalidPacketType(PacketType::Response, PacketType::Command))
    ));
}

#[test]
fn fragmented_reply_is_reassembled() {
    let mut client = authenticated();
    client.command("help".to_string()).unwrap();
    let (mut gather, probe) = match client.reply(4106, packet(1, PacketType::Response, "part one;")) {
        Ok(Reply::Fragmented(gather, probe)) => (gather, probe),
        _ => panic!("expected a fragmented reply"),
    };
    assert_eq!(probe, RconPacket::check(2).unwrap().encode());
    assert_eq!(gather.command_id, 1);
    assert_eq!(gather.probe_id, 2);
    for part in [" part two;", " part three"] {
        gather = match gather.accept(packet(1, PacketType::Response, part)) {
            Ok(Fragment::More(next)) => next,
            _ => panic!("expected more frames"),
        };
    }
    match gather.accept(packet(2, PacketType::Response, "Unknown request 0")) {
        Ok(Fragment::Done(text)) => assert_eq!(text, "part one; part two; part three"),
        _ => panic!("expected the end of the reply"),
    }
    // The probe took id 2, so the next command gets 3.
    let next = client.command("list".to_string()).unwrap();
    assert_eq!(next, RconPacket::command(3, "list".to_string()).unwrap().encode());
}

#[test]
fn reassembly_errors() {
    let gather = Reassembly { command_id: 4, probe_id: 5, text: "a".to_string() };
    assert!(matches!(
        gather.accept(packet(5, PacketType::Response, "other")),
        Err(RconError::InvalidPacketType(PacketType::Response, PacketType::Response))
    ));
    let gather = Reassembly { command_id: 4, probe_id: 5, text: "a".to_string() };
    assert!(matches!(
        gather.accept(packet(6, PacketType::Response, "")),
        Err(RconError::IdMismatch(5, 6))
    ));
}

#[test]
fn player_list_with_names() {
    let names = parse_player_list("There are 2 of a max of 20 players online: Alice, Bob");
    assert_eq!(names, vec!["Alice".to_string(), "Bob".to_string()]);
}

#[test]
fn player_list_empty_after_separator() {
    let names = parse_player_list("There are 0 of a max of 20 players online: ");
    assert!(names.is_empty());
}

#[test]
fn player_list_without_separator() {
    assert!(parse_player_list("nobody here").is_empty());
    assert_eq!(parse_player_list("online: Steve"), vec!["Steve".to_string()]);
}

#[test]
fn tick_stats_five_timings() {
    let text = "Average time per tick: 13.2ms (Target: 50.0ms) Percentiles: P50: 13.0ms P95: 16.0ms P99: 18.6ms";
    let stats = parse_tick_stats(text.to_string()).unwrap();
    assert_eq!(stats.average, "13.2ms");
    assert_eq!(stats.target, "50.0ms");
    assert_eq!(stats.p50, "13.0ms");
    assert_eq!(stats.p95, "16.0ms");
    assert_eq!(stats.p99, "18.6ms");
}

#[test]
fn tick_stats_full_report() {
    let text = "Target tick rate: 20.0 per second.\nAverage time per tick: 13.2ms (Target: 50.0ms)\nPercentiles: P50: 13.0ms P95: 16.0ms P99: 18.6ms, sample: 100";
    let stats = parse_tick_stats(text.to_string()).unwrap();
    assert_eq!(stats.average, "13.2ms");
    assert_eq!(stats.p99, "18.6ms");
}

#[test]
fn tick_stats_wrong_count_keeps_text() {
    let text = "Average time per tick: 13.2ms (Target: 50.0ms)";
    let r = parse_tick_stats(text.to_string());
    assert_eq!(r, Err(Error::TickStats(text.to_string())));
    let text = "a 1ms 2ms 3ms 4ms 5ms 6ms";
    assert_eq!(parse_tick_stats(text.to_string()), Err(Error::TickStats(text.to_string())));
}

#[test]
fn errors_are_classified() {
    let e = RconError::Read("reset".to_string());
    assert_eq!(Error::from_rcon(e.clone()), Error::BrokenConnection(e));
    let e = RconError::Write("pipe".to_string());
    assert_eq!(Error::from_rcon(e.clone()), Error::BrokenConnection(e));
    let e = RconError::Connect("refused".to_string());
    assert_eq!(Error::from_rcon(e.clone()), Error::Connect(e));
    assert_eq!(Error::from_rcon(RconError::AuthFail), Error::Authenticate(RconError::AuthFail));
    let e = RconError::IdMismatch(1, 2);
    assert_eq!(Error::from_rcon(e.clone()), Error::Command(e));
}

#[test]
fn command_texts() {
    assert_eq!(Command::Stop.into_text(), "stop");
    assert_eq!(Command::save_all().into_text(), "save-all");
    assert_eq!(Command::list().into_text(), "list");
    assert_eq!(Command::tick_query().into_text(), "tick query");
    assert!(Command::Stop.closes_connection());
    assert!(!Command::Other("list".to_string()).closes_connection());
}

fn session(stream: u32) -> Session<u32> {
    Session { stream, client: authenticated() }
}

#[test]
fn actor_keeps_connection_after_success() {
    let mut actor: RconActor<u32> = RconActor::new("pw".to_string());
    assert!(actor.take().is_none());
    let closed = actor.finish(session(7), &Command::list(), &Ok("x".to_string()));
    assert!(closed.is_none());
    let again = actor.take().unwrap();
    assert_eq!(again.stream, 7);
    assert!(actor.take().is_none());
}

#[test]
fn actor_closes_after_failure_or_stop() {
    let mut actor: RconActor<u32> = RconActor::new("pw".to_string());
    let closed = actor.finish(session(3), &Command::list(), &Err(RconError::IdMismatch(1, 2)));
    assert_eq!(closed, Some(3));
    assert!(actor.take().is_none());
    let closed = actor.finish(session(4), &Command::Stop, &Ok(String::new()));
    assert_eq!(closed, Some(4));
    assert!(actor.take().is_none());
}

#[test]
fn actor_login_uses_password() {
    let actor: RconActor<u32> = RconActor::new("pw".to_string());
    let frame = actor.login(&RconClient::new().connect()).unwrap();
    assert_eq!(frame, RconPacket::authentication(0, "pw".to_string()).unwrap().encode());
}

#[test]
fn mailbox_serves_in_order_one_at_a_time() {
    let mut mailbox = Mailbox::new();
    assert_eq!(mailbox.start(), None);
    mailbox.post("first");
    mailbox.post("second");
    assert_eq!(mailbox.start(), Some("first"));
    mailbox.post("third");
    // The first is still in flight: nothing else starts.
    assert_eq!(mailbox.start(), None);
    mailbox.done();
    assert_eq!(mailbox.start(), Some("second"));
    mailbox.done();
    assert_eq!(mailbox.start(), Some("third"));
    mailbox.done();
    assert_eq!(mailbox.start(), None);
}

/// A server on a simulated wire: answers each command frame with its reply
/// frames, and logs every request and reply in the order they pass.
struct MockWire {
    log: Vec<String>,
}

impl MockWire {
    fn serve(&mut self, frame: &[u8]) -> RconPacket {
        let request = RconPacket::decode(frame[4..].to_vec()).ok().unwrap();
        self.log.push(format!("request {}", request.id));
        self.log.push(format!("reply {}", request.id));
        let text = format!("done: {}", request.payload);
        packet(request.id, PacketType::Response, &text)
    }
}

#[test]
fn queued_commands_never_interleave_on_the_wire() {
    let mut mailbox = Mailbox::new();
    for line in ["save-all", "list", "tick query"] {
        mailbox.post(Command::Other(line.to_string()));
    }
    let mut actor: RconActor<u32> = RconActor::new("pw".to_string());
    let mut wire = MockWire { log: Vec::new() };
    let mut replies = Vec::new();
    while let Some(command) = mailbox.start() {
        // Nothing else starts while this command is in flight.
        assert!(mailbox.start().is_none());
        let mut session = match actor.take() {
            Some(s) => s,
            None => session(1),
        };
        let frame = session.client.command(command.clone().into_text()).unwrap();
        let answer = wire.serve(&frame);
        let outcome = match session.client.reply(20, answer) {
            Ok(Reply::Complete(text)) => Ok(text),
            _ => panic!("expected a complete reply"),
        };
        replies.push(outcome.clone().unwrap());
        assert!(actor.finish(session, &command, &outcome).is_none());
        mailbox.done();
    }
    assert_eq!(replies, vec!["done: save-all", "done: list", "done: tick query"]);
    assert_eq!(
        wire.log,
        vec!["request 1", "reply 1", "request 2", "reply 2", "request 3", "reply 3"]
    );
}
