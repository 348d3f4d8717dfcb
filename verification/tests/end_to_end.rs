use proxichat::client::{Client, ClientAction, ClientEvent};
use proxichat::packet::NetPacket;
use proxichat::server::{Server, ServerAction, ServerEvent, UIDState};
use proxichat::shared::{ProxiChatError, SocketErrorKind, AUDIO_BUFFER_SIZE, FRAME_SIZE};
use std::collections::VecDeque;

/// One direction of a connection: whole frames in flight, or a closed end.
struct Pipe {
    frames: VecDeque<[u8; FRAME_SIZE]>,
    closed: bool,
}

impl Pipe {
    fn new() -> Pipe {
        Pipe { frames: VecDeque::new(), closed: false }
    }

    fn read(&mut self) -> Result<Vec<u8>, SocketErrorKind> {
        match self.frames.pop_front() {
            Some(frame) => Ok(frame.to_vec()),
            None if self.closed => Err(SocketErrorKind::ConnectionReset),
            None => Err(SocketErrorKind::WouldBlock),
        }
    }

    fn write(&mut self, frame: [u8; FRAME_SIZE]) -> Result<(), SocketErrorKind> {
        if self.closed {
            Err(SocketErrorKind::BrokenPipe)
        } else {
            self.frames.push_back(frame);
            Ok(())
        }
    }
}

struct Link {
    to_relay: Pipe,
    to_client: Pipe,
}

/// One tick of the client over the link; returns what went to playback.
fn client_tick(client: &mut Client, link: &mut Link, captured: Option<Vec<u32>>) -> Option<Vec<u32>> {
    let frame = match client.run_thread(ClientEvent::Tick(captured)) {
        ClientAction::Write(frame) => frame,
        ClientAction::Idle => return None,
        other => panic!("{other:?}"),
    };
    let written = link.to_relay.write(frame);
    match client.run_thread(ClientEvent::Sent(written)) {
        ClientAction::Read => {}
        ClientAction::Close(_) => return None,
        other => panic!("{other:?}"),
    }
    let read = link.to_client.read();
    match client.run_thread(ClientEvent::Received(read)) {
        ClientAction::Play(audio) => Some(audio),
        ClientAction::Idle | ClientAction::Close(_) => None,
        other => panic!("{other:?}"),
    }
}

/// One tick of the relay over its links; returns the errors that ended sessions.
fn relay_tick(
    server: &mut Server,
    links: &mut Vec<Link>,
    incoming: Option<Link>,
    roster: &[String],
) -> Vec<ProxiChatError> {
    let mut ended = Vec::new();
    let accepted = match incoming {
        Some(link) => {
            links.push(link);
            Ok(())
        }
        None => Err(SocketErrorKind::WouldBlock),
    };
    assert!(matches!(server.run(ServerEvent::Accepted(accepted)), ServerAction::Read { .. }));
    assert_eq!(server.len(), links.len());
    let reads = links.iter_mut().map(|link| link.to_relay.read()).collect();
    let frames = match server.run(ServerEvent::Received { reads, roster: roster.to_vec() }) {
        ServerAction::Write { closed, frames } => {
            let mut verdicts = closed.iter();
            links.retain(|_| verdicts.next().unwrap().is_none());
            ended.extend(closed.into_iter().flatten());
            frames
        }
        other => panic!("{other:?}"),
    };
    assert_eq!(frames.len(), links.len());
    let writes = links.iter_mut().zip(frames).map(|(link, frame)| link.to_client.write(frame)).collect();
    match server.run(ServerEvent::Sent(writes)) {
        ServerAction::Rest { closed } => {
            let mut verdicts = closed.iter();
            links.retain(|_| verdicts.next().unwrap().is_none());
            ended.extend(closed.into_iter().flatten());
        }
        other => panic!("{other:?}"),
    }
    assert_eq!(server.len(), links.len());
    ended
}

fn chunk(seed: u32) -> Vec<u32> {
    (0..AUDIO_BUFFER_SIZE as u32).map(|i| ((seed * 1000 + i) as f32 / 8.0).to_bits()).collect()
}

/// Moves what the relay wrote to the client's end and what the client wrote to the relay's.
fn exchange(client_end: &mut Link, relay_end: &mut Link) {
    relay_end.to_relay.frames.extend(client_end.to_relay.frames.drain(..));
    client_end.to_client.frames.extend(relay_end.to_client.frames.drain(..));
}

#[test]
fn client_and_relay_from_connect_to_disconnect() {
    let roster = vec!["42".to_string()];
    let mut server = Server::new();
    let mut relay_links: Vec<Link> = Vec::new();
    let mut client = Client::new();
    let mut client_link = Link { to_relay: Pipe::new(), to_client: Pipe::new() };

    // The client connects and claims identity 42.
    assert!(client.set_new_connection(42, &Ok(())));
    assert_eq!(client_tick(&mut client, &mut client_link, None), None);
    let sent = *client_link.to_relay.frames.front().unwrap();
    assert_eq!(NetPacket::decode(&sent), Ok(NetPacket::Auth { uid: 42 }));

    // The relay accepts the connection, reads the claim and confirms it.
    let incoming = Link { to_relay: Pipe::new(), to_client: Pipe::new() };
    let ended = relay_tick(&mut server, &mut relay_links, Some(incoming), &roster);
    assert!(ended.is_empty());
    assert_eq!(server.connections[0].player_uid, UIDState::Unauthenticated);
    exchange(&mut client_link, &mut relay_links[0]);
    assert_eq!(client_link.to_client.frames.len(), 1);
    assert_eq!(NetPacket::decode(&client_link.to_client.frames[0]), Ok(NetPacket::Nothing));
    let ended = relay_tick(&mut server, &mut relay_links, None, &roster);
    assert!(ended.is_empty());
    assert_eq!(server.connections[0].player_uid, UIDState::UID(42));
    exchange(&mut client_link, &mut relay_links[0]);
    assert_eq!(NetPacket::decode(&client_link.to_client.frames[1]), Ok(NetPacket::AuthComfirm));

    // The client reads the frame that says nothing, then the confirmation.
    assert_eq!(client_tick(&mut client, &mut client_link, None), None);
    assert!(!client.auth_completed);
    assert_eq!(client_tick(&mut client, &mut client_link, None), None);
    assert!(client.auth_completed);
    client_link.to_relay.frames.clear();

    // Three chunks go up; each comes back as processed audio of the same size.
    for seed in 1..=3 {
        client_tick(&mut client, &mut client_link, Some(chunk(seed)));
        exchange(&mut client_link, &mut relay_links[0]);
        let ended = relay_tick(&mut server, &mut relay_links, None, &roster);
        assert!(ended.is_empty());
        assert_eq!(server.connections[0].audio_buffer.to_vec(), chunk(seed));
        let reply = *relay_links[0].to_client.frames.back().unwrap();
        match NetPacket::decode(&reply) {
            Ok(NetPacket::ProccessedAudio(samples)) => {
                assert_eq!(samples.len(), AUDIO_BUFFER_SIZE);
                assert_eq!(samples.to_vec(), chunk(seed));
            }
            other => panic!("{other:?}"),
        }
        client_link.to_client.frames.clear();
        exchange(&mut client_link, &mut relay_links[0]);
        let played = client_tick(&mut client, &mut client_link, None);
        assert_eq!(played, Some(chunk(seed)));
        client_link.to_relay.frames.clear();
    }

    // The client disconnects; the relay's next read fails and the session is removed.
    client.drop_stream();
    relay_links[0].to_relay.frames.clear();
    relay_links[0].to_relay.closed = true;
    relay_links[0].to_client.closed = true;
    let ended = relay_tick(&mut server, &mut relay_links, None, &roster);
    assert_eq!(ended, vec![ProxiChatError::SocketError(SocketErrorKind::ConnectionReset)]);
    assert_eq!(server.len(), 0);
    assert!(relay_links.is_empty());

    // Both ends go on: the relay ticks without sessions, the client may connect again.
    assert!(relay_tick(&mut server, &mut relay_links, None, &roster).is_empty());
    assert_eq!(client_tick(&mut client, &mut client_link, None), None);
    assert!(client.set_new_connection(42, &Ok(())));
}

#[test]
fn other_sessions_go_on_when_one_ends() {
    let roster: Vec<String> = vec!["1".into(), "2".into(), "3".into()];
    let mut server = Server::new();
    let mut links: Vec<Link> = Vec::new();
    for uid in 1..=3i64 {
        let mut link = Link { to_relay: Pipe::new(), to_client: Pipe::new() };
        link.to_relay.write(NetPacket::Auth { uid }.encode()).unwrap();
        assert!(relay_tick(&mut server, &mut links, Some(link), &roster).is_empty());
    }
    assert!(relay_tick(&mut server, &mut links, None, &roster).is_empty());
    let states: Vec<UIDState> = server.connections.iter().map(|c| c.player_uid).collect();
    assert_eq!(states, vec![UIDState::UID(1), UIDState::UID(2), UIDState::UID(3)]);

    links[1].to_relay.write(NetPacket::ProccessedAudio([0; AUDIO_BUFFER_SIZE]).encode()).unwrap();
    let ended = relay_tick(&mut server, &mut links, None, &roster);
    assert_eq!(ended, vec![ProxiChatError::ImpossibleOnServer]);
    let states: Vec<UIDState> = server.connections.iter().map(|c| c.player_uid).collect();
    assert_eq!(states, vec![UIDState::UID(1), UIDState::UID(3)]);

    links[1].to_relay.write(NetPacket::NewAudio([9; AUDIO_BUFFER_SIZE]).encode()).unwrap();
    assert!(relay_tick(&mut server, &mut links, None, &roster).is_empty());
    let reply = *links[1].to_client.frames.back().unwrap();
    assert_eq!(NetPacket::decode(&reply), Ok(NetPacket::ProccessedAudio([9; AUDIO_BUFFER_SIZE])));
}

#[test]
fn a_player_who_left_the_roster_cannot_claim_again() {
    let mut roster = vec!["42".to_string()];
    let mut server = Server::new();
    let mut links: Vec<Link> = Vec::new();
    let mut link = Link { to_relay: Pipe::new(), to_client: Pipe::new() };
    link.to_relay.write(NetPacket::Auth { uid: 42 }.encode()).unwrap();
    assert!(relay_tick(&mut server, &mut links, Some(link), &roster).is_empty());
    roster.clear();
    links[0].to_relay.write(NetPacket::Auth { uid: 42 }.encode()).unwrap();
    let ended = relay_tick(&mut server, &mut links, None, &roster);
    assert_eq!(ended, vec![ProxiChatError::InvalidUID(42)]);
    assert_eq!(server.len(), 0);
}
