//! The client's side: its one session with the relay.
//!
//! The client owns no socket and no audio device here. Whoever drives it makes the one write
//! and the one read of each tick, polls the capture queue, and hands the outcomes in; the
//! functions of this module decide what they mean.

use crate::packet::{lemma_frame_len, parse_frame, NetPacket, PacketView};
use crate::server::read_view;
use crate::shared::{
    settle, socket_verdict, AudioSampleType, AudioSampleVec, ProxiChatError, SocketErrorKind,
    AUDIO_BUFFER_SIZE, DEFAULT_FILL_SAMPLE, FRAME_SIZE,
};
use vstd::prelude::*;

verus! {

/// The client's session with the relay.
#[derive(Debug)]
pub struct Client {
    /// Whether a session is active: whether there is a connection to the relay.
    pub connected: bool,
    /// The captured audio that is still to be sent.
    pub audio_buffer: AudioSampleVec,
    /// Whether the relay has confirmed the identity.
    pub auth_completed: bool,
    /// The identity that the client claims.
    pub uid: i64,
}

/// The client's session as a mathematical value.
pub ghost struct ClientView {
    pub connected: bool,
    pub audio_buffer: Seq<AudioSampleType>,
    pub auth_completed: bool,
    pub uid: i64,
}

impl View for Client {
    type V = ClientView;

    open spec fn view(&self) -> ClientView {
        ClientView {
            connected: self.connected,
            audio_buffer: self.audio_buffer@,
            auth_completed: self.auth_completed,
            uid: self.uid,
        }
    }
}

/// What the driver of the client reports to it.
#[derive(Debug)]
pub enum ClientEvent {
    /// A tick begins. The capture queue was polled and held this, if anything.
    Tick(Option<AudioSampleVec>),
    /// The frame of this tick was written, with this outcome.
    Sent(Result<(), SocketErrorKind>),
    /// The read of this tick was made, with this outcome.
    Received(Result<Vec<u8>, SocketErrorKind>),
}

/// What the client asks of its driver next.
#[derive(Debug)]
pub enum ClientAction {
    /// Nothing: no session is active, or the tick is over.
    Idle,
    /// Write this frame, once, and report `Sent`.
    Write([u8; FRAME_SIZE]),
    /// Make one read and report `Received`.
    Read,
    /// Hand this chunk to playback. The tick is over.
    Play(AudioSampleVec),
    /// The session has ended for this reason: close the connection and release the audio
    /// devices.
    Close(ProxiChatError),
}

/// What was captured, as a sequence: nothing, if the queue was empty.
pub open spec fn captured_view(captured: Option<AudioSampleVec>) -> Seq<AudioSampleType> {
    match captured {
        Some(samples) => samples@,
        None => Seq::empty(),
    }
}

/// What the receive phase hands to playback, with the chunk as a sequence.
pub open spec fn heard_view(heard: Result<Option<AudioSampleVec>, ProxiChatError>) -> Result<
    Option<Seq<AudioSampleType>>,
    ProxiChatError,
> {
    match heard {
        Ok(Some(samples)) => Ok(Some(samples@)),
        Ok(None) => Ok(None),
        Err(e) => Err(e),
    }
}

/// The chunk that is drained from the audio to send: its first samples, as many as a chunk
/// holds, and silence where there are fewer.
pub open spec fn drained_chunk(audio: Seq<AudioSampleType>) -> Seq<AudioSampleType> {
    Seq::new(
        AUDIO_BUFFER_SIZE as nat,
        |i: int|
            if i < audio.len() {
                audio[i]
            } else {
                DEFAULT_FILL_SAMPLE
            },
    )
}

/// What is left of the audio to send once a chunk is drained from it.
pub open spec fn drained_rest(audio: Seq<AudioSampleType>) -> Seq<AudioSampleType> {
    if audio.len() <= AUDIO_BUFFER_SIZE {
        Seq::empty()
    } else {
        audio.skip(AUDIO_BUFFER_SIZE as int)
    }
}

/// The message that the client sends in a tick: its claim, until the relay has confirmed it;
/// after that, one chunk drained from the audio to send.
pub open spec fn outgoing(audio: Seq<AudioSampleType>, auth_completed: bool, uid: i64) -> (
    Seq<AudioSampleType>,
    PacketView,
) {
    if auth_completed {
        (drained_rest(audio), PacketView::NewAudio(drained_chunk(audio)))
    } else {
        (audio, PacketView::Auth { uid })
    }
}

/// What the client makes of one read: whether the relay has confirmed the identity
/// afterwards, and the chunk to play, if one arrived; or why the session ends.
///
/// - Nothing was ready, what arrived is the frame of no message, or the message says
///   nothing: nothing changes.
/// - `AuthComfirm`: the identity is confirmed.
/// - `ProccessedAudio`: the chunk is to be played.
/// - A message that only a client sends, or a failure of the socket: the session ends.
pub open spec fn incoming(auth_completed: bool, read: Result<Seq<u8>, SocketErrorKind>) -> (
    bool,
    Result<Option<Seq<AudioSampleType>>, ProxiChatError>,
) {
    match read {
        Err(kind) => match socket_verdict(read) {
            Ok(_) => (auth_completed, Ok(None)),
            Err(e) => (auth_completed, Err(e)),
        },
        Ok(bytes) => match parse_frame(bytes) {
            Err(_) => (auth_completed, Ok(None)),
            Ok(PacketView::AuthComfirm) => (true, Ok(None)),
            Ok(PacketView::Nothing) => (auth_completed, Ok(None)),
            Ok(PacketView::ProccessedAudio(samples)) => (auth_completed, Ok(Some(samples))),
            Ok(_) => (auth_completed, Err(ProxiChatError::ImpossibleOnClient)),
        },
    }
}

impl ClientView {
    /// The client with no session: not connected, nothing to send, no identity.
    pub open spec fn idle() -> ClientView {
        ClientView { connected: false, audio_buffer: Seq::empty(), auth_completed: false, uid: 0 }
    }

    /// The client after an attempt to connect under the identity `uid`: a new session if the
    /// attempt succeeded, none if it did not.
    pub open spec fn opened(uid: i64, outcome: Result<(), SocketErrorKind>) -> ClientView {
        if outcome is Ok {
            ClientView { connected: true, uid, ..ClientView::idle() }
        } else {
            ClientView::idle()
        }
    }

    /// The start of a tick: what was captured joins the audio to send, and the message of
    /// this tick is chosen.
    pub open spec fn begin(self, captured: Seq<AudioSampleType>) -> (ClientView, PacketView) {
        let (rest, packet) = outgoing(self.audio_buffer + captured, self.auth_completed, self.uid);
        (ClientView { audio_buffer: rest, ..self }, packet)
    }

    /// What one step of a tick makes of a session: whether this session and this action may
    /// follow on the event.
    ///
    /// - Without a session nothing happens.
    /// - When a tick begins, the frame of its message is to be written.
    /// - After the write, the read is to be made, unless the write failed: then the session
    ///   ends. A write for which there was no room is no failure.
    /// - After the read, the chunk that arrived is to be played, if one did; an error ends
    ///   the session.
    /// - A session that ends leaves nothing behind.
    pub open spec fn step(self, event: ClientEvent, after: ClientView, action: ClientAction) -> bool {
        if !self.connected {
            after == self && action == ClientAction::Idle
        } else {
            match event {
                ClientEvent::Tick(captured) => {
                    &&& after == self.begin(captured_view(captured)).0
                    &&& action matches ClientAction::Write(frame)
                    &&& frame@ == self.begin(captured_view(captured)).1.frame()
                },
                ClientEvent::Sent(write) => match socket_verdict(write) {
                    Ok(_) => after == self && action == ClientAction::Read,
                    Err(e) => after == ClientView::idle() && action == ClientAction::Close(e),
                },
                ClientEvent::Received(read) => match incoming(
                    self.auth_completed,
                    read_view(read),
                ) {
                    (confirmed, Ok(None)) => {
                        &&& after == ClientView { auth_completed: confirmed, ..self }
                        &&& action == ClientAction::Idle
                    },
                    (confirmed, Ok(Some(samples))) => {
                        &&& after == ClientView { auth_completed: confirmed, ..self }
                        &&& action matches ClientAction::Play(chunk)
                        &&& chunk@ == samples
                    },
                    (_, Err(e)) => after == ClientView::idle() && action == ClientAction::Close(e),
                },
            }
        }
    }
}

/// Drains one chunk from the front of the audio to send.
fn drain_chunk(audio_buffer: &mut AudioSampleVec) -> (chunk: [AudioSampleType; AUDIO_BUFFER_SIZE])
    ensures
        chunk@ == drained_chunk(old(audio_buffer)@),
        final(audio_buffer)@ == drained_rest(old(audio_buffer)@),
{
    let mut chunk = [DEFAULT_FILL_SAMPLE; AUDIO_BUFFER_SIZE];
    let taken = if audio_buffer.len() < AUDIO_BUFFER_SIZE {
        audio_buffer.len()
    } else {
        AUDIO_BUFFER_SIZE
    };
    let mut i: usize = 0;
    while i < taken
        invariant
            i <= taken <= AUDIO_BUFFER_SIZE,
            taken <= audio_buffer@.len(),
            audio_buffer@ == old(audio_buffer)@,
            forall|j: int| 0 <= j < i ==> chunk@[j] == audio_buffer@[j],
            forall|j: int| i <= j < AUDIO_BUFFER_SIZE ==> chunk@[j] == DEFAULT_FILL_SAMPLE,
        decreases taken - i,
    {
        chunk[i] = audio_buffer[i];
        i += 1;
    }
    let rest = audio_buffer.split_off(taken);
    *audio_buffer = rest;
    proof {
        assert(chunk@ =~= drained_chunk(old(audio_buffer)@));
        assert(audio_buffer@ =~= drained_rest(old(audio_buffer)@));
    }
    chunk
}

/// Copies a chunk into a run of samples.
fn samples_of(chunk: &[AudioSampleType; AUDIO_BUFFER_SIZE]) -> (samples: AudioSampleVec)
    ensures
        samples@ == chunk@,
{
    let mut samples: AudioSampleVec = Vec::new();
    let mut i: usize = 0;
    while i < AUDIO_BUFFER_SIZE
        invariant
            i <= AUDIO_BUFFER_SIZE,
            samples@.len() == i,
            forall|j: int| 0 <= j < i ==> samples@[j] == chunk@[j],
        decreases AUDIO_BUFFER_SIZE - i,
    {
        samples.push(chunk[i]);
        i += 1;
    }
    proof {
        assert(samples@ =~= chunk@);
    }
    samples
}

/// The send phase of a tick: chooses the message of the tick, drains its chunk from the
/// audio to send if it carries one, and lays out the frame to write.
///
/// The frame is a whole frame whatever the audio to send holds: where it holds less than a
/// chunk, silence fills the chunk; where it holds more, the rest stays for the next tick.
pub fn handle_sending(audio_buffer: &mut AudioSampleVec, auth_completed: bool, uid: i64) -> (frame:
    [u8; FRAME_SIZE])
    ensures
        final(audio_buffer)@ == outgoing(old(audio_buffer)@, auth_completed, uid).0,
        frame@ == outgoing(old(audio_buffer)@, auth_completed, uid).1.frame(),
{
    let packet = if auth_completed {
        NetPacket::NewAudio(drain_chunk(audio_buffer))
    } else {
        NetPacket::Auth { uid }
    };
    packet.encode()
}

/// The receive phase of a tick: takes the outcome of the one read, notes a confirmation, and
/// returns the chunk to play, if one arrived.
///
/// An error ends the session.
pub fn handle_receiving(auth_completed: &mut bool, read: &Result<Vec<u8>, SocketErrorKind>) -> (heard:
    Result<Option<AudioSampleVec>, ProxiChatError>)
    ensures
        (*final(auth_completed), heard_view(heard)) == incoming(
            *old(auth_completed),
            read_view(*read),
        ),
{
    match read {
        Err(_) => match settle(read) {
            Ok(_) => Ok(None),
            Err(e) => Err(e),
        },
        Ok(bytes) => match NetPacket::decode(bytes.as_slice()) {
            Err(_) => Ok(None),
            Ok(NetPacket::AuthComfirm) => {
                *auth_completed = true;
                Ok(None)
            },
            Ok(NetPacket::Nothing) => Ok(None),
            Ok(NetPacket::ProccessedAudio(audio)) => Ok(Some(samples_of(&audio))),
            Ok(_) => Err(ProxiChatError::ImpossibleOnClient),
        },
    }
}

impl Client {
    /// A client with no session.
    pub fn new() -> (client: Client)
        ensures
            client@ == ClientView::idle(),
    {
        Client { connected: false, audio_buffer: Vec::new(), auth_completed: false, uid: 0 }
    }

    /// Starts a session anew: ends the one that there is, if any, and takes the outcome of
    /// one attempt to connect to the relay under the identity `uid`.
    ///
    /// Returns whether a session is active afterwards.
    pub fn set_new_connection(&mut self, uid: i64, outcome: &Result<(), SocketErrorKind>) -> (active:
        bool)
        ensures
            final(self)@ == ClientView::opened(uid, *outcome),
            active == (*outcome is Ok),
    {
        self.drop_stream();
        match outcome {
            Ok(_) => {
                self.uid = uid;
                self.connected = true;
                true
            },
            Err(_) => false,
        }
    }

    /// Ends the session, if there is one: afterwards the client is as one that never had a
    /// session.
    pub fn drop_stream(&mut self)
        ensures
            final(self)@ == ClientView::idle(),
    {
        self.connected = false;
        self.auth_completed = false;
        self.audio_buffer.clear();
        self.uid = 0;
    }

    /// One step of a tick. A tick is three steps: the driver polls the capture queue and
    /// reports `Tick`; it writes the frame that `Write` hands out and reports `Sent`; it
    /// makes the read that `Read` asks for and reports `Received`. Without a session every
    /// step does nothing.
    pub fn run_thread(&mut self, event: ClientEvent) -> (action: ClientAction)
        ensures
            old(self)@.step(event, final(self)@, action),
    {
        if !self.connected {
            return ClientAction::Idle;
        }
        match event {
            ClientEvent::Tick(captured) => {
                if let Some(mut data) = captured {
                    self.audio_buffer.append(&mut data);
                }
                let frame = handle_sending(&mut self.audio_buffer, self.auth_completed, self.uid);
                ClientAction::Write(frame)
            },
            ClientEvent::Sent(write) => match settle(&write) {
                Ok(_) => ClientAction::Read,
                Err(e) => {
                    self.drop_stream();
                    ClientAction::Close(e)
                },
            },
            ClientEvent::Received(read) => match handle_receiving(
                &mut self.auth_completed,
                &read,
            ) {
                Ok(Some(audio)) => ClientAction::Play(audio),
                Ok(None) => ClientAction::Idle,
                Err(e) => {
                    self.drop_stream();
                    ClientAction::Close(e)
                },
            },
        }
    }
}

impl Default for Client {
    fn default() -> (client: Client)
        ensures
            client@ == ClientView::idle(),
    {
        Client::new()
    }
}

/// The chunk that is drained always has the length of a chunk, so that its message fills a
/// frame. Where the audio to send holds less than a chunk, the chunk is that audio and then
/// silence, and nothing is left; where it holds more, the chunk is its first samples and the
/// rest is left for the next tick.
pub proof fn lemma_chunk_shape(audio: Seq<AudioSampleType>, uid: i64)
    ensures
        drained_chunk(audio).len() == AUDIO_BUFFER_SIZE,
        outgoing(audio, true, uid).1 == PacketView::NewAudio(drained_chunk(audio)),
        outgoing(audio, true, uid).1.frame().len() == FRAME_SIZE,
        audio.len() <= AUDIO_BUFFER_SIZE ==> {
            &&& drained_chunk(audio) == audio + Seq::new(
                (AUDIO_BUFFER_SIZE - audio.len()) as nat,
                |i: int| DEFAULT_FILL_SAMPLE,
            )
            &&& drained_rest(audio).len() == 0
        },
        audio.len() > AUDIO_BUFFER_SIZE ==> {
            &&& drained_chunk(audio) == audio.take(AUDIO_BUFFER_SIZE as int)
            &&& drained_rest(audio) == audio.skip(AUDIO_BUFFER_SIZE as int)
            &&& drained_rest(audio).len() == audio.len() - AUDIO_BUFFER_SIZE
        },
        audio.len() >= AUDIO_BUFFER_SIZE ==> drained_chunk(audio) + drained_rest(audio) == audio,
{
    lemma_frame_len(PacketView::NewAudio(drained_chunk(audio)));
    if audio.len() <= AUDIO_BUFFER_SIZE {
        assert(drained_chunk(audio) =~= audio + Seq::new(
            (AUDIO_BUFFER_SIZE - audio.len()) as nat,
            |i: int| DEFAULT_FILL_SAMPLE,
        ));
    } else {
        assert(drained_chunk(audio) =~= audio.take(AUDIO_BUFFER_SIZE as int));
    }
    if audio.len() >= AUDIO_BUFFER_SIZE {
        assert(drained_chunk(audio) + drained_rest(audio) =~= audio);
    }
}

/// A tick in which nothing is ready on the socket leaves an active session active and its
/// confirmation as it was: the tick asks for one write, then for one read, then for nothing.
pub proof fn lemma_would_block_client(
    before: ClientView,
    captured: Option<AudioSampleVec>,
    written: ClientView,
    first: ClientAction,
    read: ClientView,
    second: ClientAction,
    after: ClientView,
    third: ClientAction,
)
    requires
        before.connected,
        before.step(ClientEvent::Tick(captured), written, first),
        written.step(ClientEvent::Sent(Err(SocketErrorKind::WouldBlock)), read, second),
        read.step(ClientEvent::Received(Err(SocketErrorKind::WouldBlock)), after, third),
    ensures
        first is Write,
        second == ClientAction::Read,
        third == ClientAction::Idle,
        after == written,
        after.connected,
        after.auth_completed == before.auth_completed,
        after.uid == before.uid,
{
}

/// The client after ticks in which nothing was ready on its socket, one tick for each entry
/// of `captured`: what the capture queue held at the start of that tick.
pub open spec fn after_quiet_ticks(
    client: ClientView,
    captured: Seq<Seq<AudioSampleType>>,
) -> ClientView
    decreases captured.len(),
{
    if captured.len() == 0 {
        client
    } else {
        after_quiet_ticks(client, captured.drop_last()).begin(captured.last()).0
    }
}

/// A client on whose socket nothing is ever ready keeps its session, tick after tick, and
/// its confirmation stays as it was, whatever is captured meanwhile.
pub proof fn lemma_quiet_ticks(client: ClientView, captured: Seq<Seq<AudioSampleType>>)
    requires
        client.connected,
    ensures
        after_quiet_ticks(client, captured).connected,
        after_quiet_ticks(client, captured).auth_completed == client.auth_completed,
        after_quiet_ticks(client, captured).uid == client.uid,
        socket_verdict(Err::<(), SocketErrorKind>(SocketErrorKind::WouldBlock)) is Ok,
        incoming(client.auth_completed, Err(SocketErrorKind::WouldBlock)) == (
            client.auth_completed,
            Ok::<Option<Seq<AudioSampleType>>, ProxiChatError>(None),
        ),
    decreases captured.len(),
{
    if captured.len() > 0 {
        lemma_quiet_ticks(client, captured.drop_last());
    }
}

/// A buffer that is the frame of no message changes nothing for the client and ends nothing,
/// so that what arrives next is handled as if the buffer had never come.
pub proof fn lemma_garbage_is_dropped(
    auth_completed: bool,
    garbage: Seq<u8>,
    next: Result<Seq<u8>, SocketErrorKind>,
)
    requires
        parse_frame(garbage) is Err,
    ensures
        incoming(auth_completed, Ok(garbage)) == (
            auth_completed,
            Ok::<Option<Seq<AudioSampleType>>, ProxiChatError>(None),
        ),
        incoming(incoming(auth_completed, Ok(garbage)).0, next) == incoming(auth_completed, next),
{
}

/// A session that has ended leaves nothing behind: a client whose session ended is the
/// client that never had one, and connecting anew gives the same session either way.
pub proof fn lemma_fresh_after_teardown(
    before: ClientView,
    event: ClientEvent,
    after: ClientView,
    action: ClientAction,
    uid: i64,
    outcome: Result<(), SocketErrorKind>,
)
    requires
        before.step(event, after, action),
        action is Close,
    ensures
        after == ClientView::idle(),
        !after.connected,
        ClientView::opened(uid, outcome).connected == (outcome is Ok),
        ClientView::opened(uid, outcome).auth_completed == false,
        ClientView::opened(uid, outcome).audio_buffer.len() == 0,
{
}

} // verus!
