//! The relay's side: one session for each connected client, and the listener that drives
//! them all once per tick.
//!
//! The relay owns no socket here. Whoever drives it makes one read and one write per session
//! and tick and hands the outcomes in; the functions of this module decide what they mean.

use crate::identity::{on_roster, uid_exits};
use crate::packet::{lemma_parse_of_frame, parse_frame, NetPacket, PacketView};
use crate::shared::{
    settle, socket_verdict, AudioSampleType, AudioSampleVec, ProxiChatError, SocketErrorKind,
    AUDIO_BUFFER_SIZE, DEFAULT_FILL_SAMPLE, FRAME_SIZE,
};
use crate::sweep::{
    kept, lemma_kept, lemma_kept_all, lemma_kept_push, marked, place, remove_marked,
};
use vstd::prelude::*;

verus! {

/// How far a client has come in proving its identity.
#[derive(Debug, Clone, Copy, PartialEq, Eq, Structural)]
pub enum UIDState {
    /// The identity was accepted and confirmed to the client.
    UID(i64),
    /// The client has claimed no identity yet.
    Unauthenticated,
    /// The identity was accepted; the confirmation is still to be sent.
    AuthReady(i64),
}

/// The relay's session with one client.
#[derive(Debug)]
pub struct ClientConnection {
    /// The chunk that the client sent last.
    pub audio_buffer: [AudioSampleType; AUDIO_BUFFER_SIZE],
    /// The audio that goes out to the client next.
    pub send_audio_buffer: AudioSampleVec,
    /// How far the client has come in proving its identity.
    pub player_uid: UIDState,
}

/// A session as a mathematical value.
pub ghost struct ConnectionView {
    pub audio_buffer: Seq<AudioSampleType>,
    pub send_audio_buffer: Seq<AudioSampleType>,
    pub player_uid: UIDState,
}

impl View for ClientConnection {
    type V = ConnectionView;

    open spec fn view(&self) -> ConnectionView {
        ConnectionView {
            audio_buffer: self.audio_buffer@,
            send_audio_buffer: self.send_audio_buffer@,
            player_uid: self.player_uid,
        }
    }
}

/// The outcome of one read, with the bytes as a sequence.
pub open spec fn read_view(read: Result<Vec<u8>, SocketErrorKind>) -> Result<
    Seq<u8>,
    SocketErrorKind,
> {
    match read {
        Ok(bytes) => Ok(bytes@),
        Err(kind) => Err(kind),
    }
}

/// A chunk of silence.
pub open spec fn silence() -> Seq<AudioSampleType> {
    Seq::new(AUDIO_BUFFER_SIZE as nat, |i: int| DEFAULT_FILL_SAMPLE)
}

impl ConnectionView {
    /// The session of a client that has just connected.
    pub open spec fn fresh() -> ConnectionView {
        ConnectionView {
            audio_buffer: silence(),
            send_audio_buffer: silence(),
            player_uid: UIDState::Unauthenticated,
        }
    }

    /// The receive phase of a tick: the session after one read, and whether it lives on.
    ///
    /// - Nothing was ready, or what arrived is the frame of no message: nothing changes.
    /// - `Auth`: the identity is looked up on the roster, whatever the session's state. If it
    ///   is there, the session is ready to confirm it; if not, the session ends.
    /// - `NewAudio`: the chunk replaces the one held.
    /// - A message that only the relay sends, or a failure of the socket: the session ends.
    pub open spec fn collect(
        self,
        read: Result<Seq<u8>, SocketErrorKind>,
        roster: Seq<String>,
    ) -> (ConnectionView, Result<(), ProxiChatError>) {
        match read {
            Err(kind) => (self, socket_verdict(read)),
            Ok(bytes) => match parse_frame(bytes) {
                Err(_) => (self, Ok(())),
                Ok(PacketView::Auth { uid }) => if on_roster(uid, roster) {
                    (ConnectionView { player_uid: UIDState::AuthReady(uid), ..self }, Ok(()))
                } else {
                    (self, Err(ProxiChatError::InvalidUID(uid)))
                },
                Ok(PacketView::NewAudio(samples)) => (
                    ConnectionView { audio_buffer: samples, ..self },
                    Ok(()),
                ),
                Ok(_) => (self, Err(ProxiChatError::ImpossibleOnServer)),
            },
        }
    }

    /// The send phase of a tick: the session afterwards, and the message that goes out, or
    /// why the session ends.
    ///
    /// - An accepted identity is confirmed, once.
    /// - After that the audio to send goes out, if it has the length of a chunk; if not, the
    ///   session ends.
    /// - Before any identity was accepted, the message that says nothing goes out.
    pub open spec fn send(self) -> (ConnectionView, Result<PacketView, ProxiChatError>) {
        match self.player_uid {
            UIDState::AuthReady(uid) => (
                ConnectionView { player_uid: UIDState::UID(uid), ..self },
                Ok(PacketView::AuthComfirm),
            ),
            UIDState::UID(_) => if self.send_audio_buffer.len() == AUDIO_BUFFER_SIZE {
                (self, Ok(PacketView::ProccessedAudio(self.send_audio_buffer)))
            } else {
                (self, Err(ProxiChatError::VecToArrayError))
            },
            UIDState::Unauthenticated => (self, Ok(PacketView::Nothing)),
        }
    }
}

/// What a frame to send stands for: the bytes as a sequence, the error as it is.
pub open spec fn frame_view(r: Result<[u8; FRAME_SIZE], ProxiChatError>) -> Result<
    Seq<u8>,
    ProxiChatError,
> {
    match r {
        Ok(frame) => Ok(frame@),
        Err(e) => Err(e),
    }
}

/// The frame of the message that goes out, or the error as it is.
pub open spec fn framed(r: Result<PacketView, ProxiChatError>) -> Result<Seq<u8>, ProxiChatError> {
    match r {
        Ok(packet) => Ok(packet.frame()),
        Err(e) => Err(e),
    }
}

impl ClientConnection {
    /// The session of a client that has just connected: silence both ways, no identity.
    pub fn new() -> (client: ClientConnection)
        ensures
            client@ == ConnectionView::fresh(),
    {
        let client = ClientConnection {
            audio_buffer: [DEFAULT_FILL_SAMPLE; AUDIO_BUFFER_SIZE],
            send_audio_buffer: vec![DEFAULT_FILL_SAMPLE; AUDIO_BUFFER_SIZE],
            player_uid: UIDState::Unauthenticated,
        };
        proof {
            assert(client.audio_buffer@ =~= silence());
            assert(client.send_audio_buffer@ =~= silence());
        }
        client
    }
}

/// Copies a chunk out of a run of samples that has the length of one.
fn chunk_of(samples: &AudioSampleVec) -> (chunk: [AudioSampleType; AUDIO_BUFFER_SIZE])
    requires
        samples@.len() == AUDIO_BUFFER_SIZE,
    ensures
        chunk@ == samples@,
{
    let mut chunk = [DEFAULT_FILL_SAMPLE; AUDIO_BUFFER_SIZE];
    let mut i: usize = 0;
    while i < AUDIO_BUFFER_SIZE
        invariant
            i <= AUDIO_BUFFER_SIZE,
            samples@.len() == AUDIO_BUFFER_SIZE,
            forall|j: int| 0 <= j < i ==> chunk@[j] == samples@[j],
        decreases AUDIO_BUFFER_SIZE - i,
    {
        chunk[i] = samples[i];
        i += 1;
    }
    proof {
        assert(chunk@ =~= samples@);
    }
    chunk
}

/// The receive phase of a tick for one session: takes the outcome of the one read and the
/// roster of the moment, and says whether the session lives on.
///
/// An error ends the session; the session itself is then as it was.
pub fn handle_collecting_packets(
    client: &mut ClientConnection,
    read: &Result<Vec<u8>, SocketErrorKind>,
    roster: &Vec<String>,
) -> (verdict: Result<(), ProxiChatError>)
    ensures
        (final(client)@, verdict) == old(client)@.collect(read_view(*read), roster@),
{
    match read {
        Err(_) => settle(read),
        Ok(bytes) => match NetPacket::decode(bytes.as_slice()) {
            Err(_) => Ok(()),
            Ok(NetPacket::Auth { uid }) => {
                if uid_exits(uid, roster) {
                    client.player_uid = UIDState::AuthReady(uid);
                    Ok(())
                } else {
                    Err(ProxiChatError::InvalidUID(uid))
                }
            },
            Ok(NetPacket::NewAudio(audio)) => {
                client.audio_buffer = audio;
                Ok(())
            },
            Ok(_) => Err(ProxiChatError::ImpossibleOnServer),
        },
    }
}

/// The send phase of a tick for one session: moves the session on and lays out the frame to
/// write, or says why the session ends.
pub fn handle_sending_packets(client: &mut ClientConnection) -> (frame: Result<
    [u8; FRAME_SIZE],
    ProxiChatError,
>)
    ensures
        final(client)@ == old(client)@.send().0,
        frame_view(frame) == framed(old(client)@.send().1),
{
    let packet = match client.player_uid {
        UIDState::AuthReady(uid) => {
            client.player_uid = UIDState::UID(uid);
            NetPacket::AuthComfirm
        },
        UIDState::UID(_) => {
            if client.send_audio_buffer.len() != AUDIO_BUFFER_SIZE {
                return Err(ProxiChatError::VecToArrayError);
            }
            NetPacket::ProccessedAudio(chunk_of(&client.send_audio_buffer))
        },
        UIDState::Unauthenticated => NetPacket::Nothing,
    };
    Ok(packet.encode())
}

/// The relay's listener: the sessions of the clients that are connected, in the order in
/// which they connected.
#[derive(Debug)]
pub struct Server {
    pub connections: Vec<ClientConnection>,
}

/// What the driver of the listener reports to it.
#[derive(Debug)]
pub enum ServerEvent {
    /// One attempt was made to accept a connection, with this outcome.
    Accepted(Result<(), SocketErrorKind>),
    /// One read was made for every session, in their order, with these outcomes; and this
    /// is the roster of the moment.
    Received { reads: Vec<Result<Vec<u8>, SocketErrorKind>>, roster: Vec<String> },
    /// The frame of every session was written, in their order, with these outcomes.
    Sent(Vec<Result<(), SocketErrorKind>>),
}

/// What the listener asks of its driver next.
#[derive(Debug)]
pub enum ServerAction {
    /// Make one read for every session. `opened` says whether a session was added, at the
    /// end, for the connection just accepted.
    Read { opened: bool },
    /// Close the connection of every session for which `closed` holds an error: those
    /// sessions are gone. Then write one frame for every session that is left.
    Write { closed: Vec<Option<ProxiChatError>>, frames: Vec<[u8; FRAME_SIZE]> },
    /// Close the connection of every session for which `closed` holds an error: those
    /// sessions are gone. The tick is over.
    Rest { closed: Vec<Option<ProxiChatError>> },
}

/// The sessions as mathematical values.
pub open spec fn views(sessions: Seq<ClientConnection>) -> Seq<ConnectionView> {
    Seq::new(sessions.len(), |i: int| sessions[i]@)
}

/// The outcomes of the reads, with the bytes as sequences.
pub open spec fn read_views(reads: Seq<Result<Vec<u8>, SocketErrorKind>>) -> Seq<
    Result<Seq<u8>, SocketErrorKind>,
> {
    Seq::new(reads.len(), |i: int| read_view(reads[i]))
}

/// The outcome that was reported for the session at index `i`. A session for which none was
/// reported is taken as one on whose socket nothing was ready.
pub open spec fn outcome_at<T>(outcomes: Seq<Result<T, SocketErrorKind>>, i: int) -> Result<
    T,
    SocketErrorKind,
> {
    if 0 <= i < outcomes.len() {
        outcomes[i]
    } else {
        Err(SocketErrorKind::WouldBlock)
    }
}

/// The error that ends a session, if the verdict is one.
pub open spec fn failure(verdict: Result<(), ProxiChatError>) -> Option<ProxiChatError> {
    match verdict {
        Ok(_) => None,
        Err(e) => Some(e),
    }
}

/// For every session, whether an error ends it.
pub open spec fn failed(failures: Seq<Option<ProxiChatError>>) -> Seq<bool> {
    Seq::new(failures.len(), |i: int| failures[i] is Some)
}

impl View for Server {
    type V = Seq<ConnectionView>;

    open spec fn view(&self) -> Seq<ConnectionView> {
        views(self.connections@)
    }
}

impl ConnectionView {
    /// The session with the audio to send set to the chunk that its client sent last.
    pub open spec fn looped_back(self) -> ConnectionView {
        ConnectionView { send_audio_buffer: self.audio_buffer, ..self }
    }

    /// The frame that the send phase lays out for the session once its audio is looped back.
    pub open spec fn reply(self) -> Result<Seq<u8>, ProxiChatError> {
        framed(self.looped_back().send().1)
    }
}

/// The sessions after an attempt to accept a connection: one more, fresh, at the end if a
/// connection was accepted.
pub open spec fn accepted(sessions: Seq<ConnectionView>, outcome: Result<(), SocketErrorKind>) -> Seq<
    ConnectionView,
> {
    if outcome is Ok {
        sessions.push(ConnectionView::fresh())
    } else {
        sessions
    }
}

/// Every session after its receive phase, those that end included.
pub open spec fn collected(
    sessions: Seq<ConnectionView>,
    reads: Seq<Result<Seq<u8>, SocketErrorKind>>,
    roster: Seq<String>,
) -> Seq<ConnectionView> {
    Seq::new(sessions.len(), |i: int| sessions[i].collect(outcome_at(reads, i), roster).0)
}

/// For every session, the error that ends it in its receive phase, if one does.
pub open spec fn collect_failures(
    sessions: Seq<ConnectionView>,
    reads: Seq<Result<Seq<u8>, SocketErrorKind>>,
    roster: Seq<String>,
) -> Seq<Option<ProxiChatError>> {
    Seq::new(
        sessions.len(),
        |i: int| failure(sessions[i].collect(outcome_at(reads, i), roster).1),
    )
}

/// Every session with its audio looped back.
pub open spec fn looped_back(sessions: Seq<ConnectionView>) -> Seq<ConnectionView> {
    Seq::new(sessions.len(), |i: int| sessions[i].looped_back())
}

/// Every session after its send phase, those that end included.
pub open spec fn sent(sessions: Seq<ConnectionView>) -> Seq<ConnectionView> {
    Seq::new(sessions.len(), |i: int| sessions[i].send().0)
}

/// For every session, the frame that its send phase lays out, or the error that ends it.
pub open spec fn frames_sent(sessions: Seq<ConnectionView>) -> Seq<Result<Seq<u8>, ProxiChatError>> {
    Seq::new(sessions.len(), |i: int| framed(sessions[i].send().1))
}

/// For every session, the error that ends it in its send phase, if one does.
pub open spec fn send_failures(sessions: Seq<ConnectionView>) -> Seq<Option<ProxiChatError>> {
    Seq::new(
        sessions.len(),
        |i: int|
            match sessions[i].send().1 {
                Ok(_) => None,
                Err(e) => Some(e),
            },
    )
}

/// The frames as what a send phase lays out: none of them an error.
pub open spec fn laid_out(frames: Seq<[u8; FRAME_SIZE]>) -> Seq<Result<Seq<u8>, ProxiChatError>> {
    Seq::new(frames.len(), |i: int| Ok(frames[i]@))
}

/// Every session after its send phase, with its audio looped back first.
pub open spec fn replied(sessions: Seq<ConnectionView>) -> Seq<ConnectionView> {
    sent(looped_back(sessions))
}

/// For each of `n` sessions, the error that ends it after its write, if one does.
pub open spec fn write_failures(n: nat, writes: Seq<Result<(), SocketErrorKind>>) -> Seq<
    Option<ProxiChatError>,
> {
    Seq::new(n, |i: int| failure(socket_verdict(outcome_at(writes, i))))
}

/// What the listener makes of an event: whether these sessions and this action may follow
/// on those sessions and that event.
///
/// - After an attempt to accept: the sessions with the accepted connection, and one read for
///   each.
/// - After the reads: every session has gone through its receive phase, those that an error
///   ended are gone, and the others have gone through their send phase; one frame for each
///   of them is to be written.
/// - After the writes: the sessions whose write failed are gone.
///
/// The outcomes are taken in the order of the sessions. A session for which none was
/// reported is taken as one on whose socket nothing was ready; an outcome for which there is
/// no session counts for nothing.
pub open spec fn run_spec(
    before: Seq<ConnectionView>,
    event: ServerEvent,
    after: Seq<ConnectionView>,
    action: ServerAction,
) -> bool {
    match event {
        ServerEvent::Accepted(outcome) => {
            &&& action == (ServerAction::Read { opened: outcome is Ok })
            &&& after == accepted(before, outcome)
        },
        ServerEvent::Received { reads, roster } => {
            &&& action matches ServerAction::Write { closed, frames }
            &&& closed@ == collect_failures(before, read_views(reads@), roster@)
            &&& after == replied(
                kept(collected(before, read_views(reads@), roster@), failed(closed@)),
            )
            &&& frames@.len() == after.len()
            &&& forall|i: int|
                0 <= i < frames@.len() ==> kept(
                    collected(before, read_views(reads@), roster@),
                    failed(closed@),
                )[i].reply() == Ok::<Seq<u8>, ProxiChatError>(#[trigger] frames@[i]@)
        },
        ServerEvent::Sent(writes) => {
            &&& action matches ServerAction::Rest { closed }
            &&& closed@ == write_failures(before.len(), writes@)
            &&& after == kept(before, failed(closed@))
        },
    }
}

/// Sweeping the sessions and taking their views comes to the same in either order.
pub proof fn lemma_kept_views(sessions: Seq<ClientConnection>, marks: Seq<bool>)
    requires
        marks.len() == sessions.len(),
    ensures
        views(kept(sessions, marks)) == kept(views(sessions), marks),
    decreases sessions.len(),
{
    if sessions.len() > 0 {
        lemma_kept_views(sessions.skip(1), marks.skip(1));
        assert(views(sessions).skip(1) =~= views(sessions.skip(1)));
    }
    assert(views(kept(sessions, marks)) =~= kept(views(sessions), marks));
}

/// Sets the audio to send to the chunk that the client sent last.
fn loop_back(client: &mut ClientConnection)
    ensures
        final(client)@ == old(client)@.looped_back(),
{
    client.send_audio_buffer.clear();
    client.send_audio_buffer.extend_from_slice(client.audio_buffer.as_slice());
    proof {
        assert(client.send_audio_buffer@ =~= client.audio_buffer@);
    }
}

impl Server {
    /// A listener with no session.
    pub fn new() -> (server: Server)
        ensures
            server@ == Seq::<ConnectionView>::empty(),
    {
        let server = Server { connections: Vec::new() };
        proof {
            assert(server@ =~= Seq::<ConnectionView>::empty());
        }
        server
    }

    /// The number of sessions.
    pub fn len(&self) -> (n: usize)
        ensures
            n == self@.len(),
    {
        self.connections.len()
    }

    /// Takes the outcome of the one attempt of a tick to accept a connection. If a connection
    /// was accepted, a fresh session stands for it at the end; on any other outcome nothing
    /// changes.
    pub fn accept(&mut self, outcome: &Result<(), SocketErrorKind>) -> (opened: bool)
        ensures
            opened == (*outcome is Ok),
            final(self)@ == accepted(old(self)@, *outcome),
    {
        match outcome {
            Ok(_) => {
                self.connections.push(ClientConnection::new());
                proof {
                    assert(self@ =~= old(self)@.push(ConnectionView::fresh()));
                }
                true
            },
            Err(_) => false,
        }
    }

    /// The receive phase of a tick: takes the outcome of one read for every session and the
    /// roster of the moment, drives every session through its receive phase, and removes
    /// exactly the sessions that an error ends.
    ///
    /// The reads are taken in the order of the sessions; a session for which there is none is
    /// taken as one on whose socket nothing was ready. Returns, for every session that there
    /// was, the error that ended it, if one did.
    pub fn collect(
        &mut self,
        reads: &Vec<Result<Vec<u8>, SocketErrorKind>>,
        roster: &Vec<String>,
    ) -> (closed: Vec<Option<ProxiChatError>>)
        ensures
            closed@ == collect_failures(old(self)@, read_views(reads@), roster@),
            final(self)@ == kept(
                collected(old(self)@, read_views(reads@), roster@),
                failed(closed@),
            ),
    {
        let n = self.connections.len();
        let mut closed: Vec<Option<ProxiChatError>> = Vec::new();
        let mut marks: Vec<bool> = Vec::new();
        let mut i: usize = 0;
        while i < n
            invariant
                i <= n,
                n == old(self)@.len(),
                self.connections@.len() == n,
                closed@.len() == i,
                marks@.len() == i,
                forall|j: int|
                    0 <= j < i ==> (#[trigger] self.connections@[j])@ == old(self)@[j].collect(
                        outcome_at(read_views(reads@), j),
                        roster@,
                    ).0,
                forall|j: int|
                    0 <= j < i ==> #[trigger] closed@[j] == failure(
                        old(self)@[j].collect(outcome_at(read_views(reads@), j), roster@).1,
                    ),
                forall|j: int| 0 <= j < i ==> #[trigger] marks@[j] == (closed@[j] is Some),
                forall|j: int|
                    i <= j < n ==> (#[trigger] self.connections@[j])@ == old(self)@[j],
            decreases n - i,
        {
            let verdict = if i < reads.len() {
                handle_collecting_packets(&mut self.connections[i], &reads[i], roster)
            } else {
                handle_collecting_packets(
                    &mut self.connections[i],
                    &Err(SocketErrorKind::WouldBlock),
                    roster,
                )
            };
            match verdict {
                Ok(_) => {
                    closed.push(None);
                    marks.push(false);
                },
                Err(e) => {
                    closed.push(Some(e));
                    marks.push(true);
                },
            }
            i += 1;
        }
        proof {
            lemma_kept_views(self.connections@, marks@);
            assert(views(self.connections@) =~= collected(
                old(self)@,
                read_views(reads@),
                roster@,
            ));
            assert(closed@ =~= collect_failures(old(self)@, read_views(reads@), roster@));
            assert(marks@ =~= failed(closed@));
        }
        remove_marked(&mut self.connections, &marks);
        closed
    }

    /// Sets the audio that goes out to every client to the chunk that the client sent last:
    /// the plainest way to fill it. Whoever mixes the audio of the clients fills
    /// `send_audio_buffer` of every session instead.
    pub fn loop_back(&mut self)
        ensures
            final(self)@ == looped_back(old(self)@),
    {
        let n = self.connections.len();
        let mut i: usize = 0;
        while i < n
            invariant
                i <= n,
                n == old(self)@.len(),
                self.connections@.len() == n,
                forall|j: int|
                    0 <= j < i ==> (#[trigger] self.connections@[j])@
                        == old(self)@[j].looped_back(),
                forall|j: int|
                    i <= j < n ==> (#[trigger] self.connections@[j])@ == old(self)@[j],
            decreases n - i,
        {
            loop_back(&mut self.connections[i]);
            i += 1;
        }
        proof {
            assert(self@ =~= looped_back(old(self)@));
        }
    }

    /// The send phase of a tick: drives every session through its send phase, removes
    /// exactly the sessions that an error ends, and lays out the one frame that is to be
    /// written for each of the others.
    ///
    /// Returns, for every session that there was, the error that ended it, if one did; and
    /// the frames, in the order of the sessions that are left.
    pub fn send(&mut self) -> (out: (Vec<Option<ProxiChatError>>, Vec<[u8; FRAME_SIZE]>))
        ensures
            out.0@ == send_failures(old(self)@),
            final(self)@ == kept(sent(old(self)@), failed(out.0@)),
            laid_out(out.1@) == kept(frames_sent(old(self)@), failed(out.0@)),
    {
        let n = self.connections.len();
        let mut closed: Vec<Option<ProxiChatError>> = Vec::new();
        let mut marks: Vec<bool> = Vec::new();
        let mut frames: Vec<[u8; FRAME_SIZE]> = Vec::new();
        let mut i: usize = 0;
        proof {
            assert(laid_out(frames@) =~= kept(frames_sent(old(self)@).take(0), marks@));
        }
        while i < n
            invariant
                i <= n,
                n == old(self)@.len(),
                self.connections@.len() == n,
                closed@.len() == i,
                marks@.len() == i,
                forall|j: int|
                    0 <= j < i ==> (#[trigger] self.connections@[j])@ == old(self)@[j].send().0,
                forall|j: int| 0 <= j < i ==> #[trigger] closed@[j] == send_failures(old(self)@)[j],
                forall|j: int| 0 <= j < i ==> #[trigger] marks@[j] == (closed@[j] is Some),
                forall|j: int|
                    i <= j < n ==> (#[trigger] self.connections@[j])@ == old(self)@[j],
                laid_out(frames@) == kept(frames_sent(old(self)@).take(i as int), marks@),
            decreases n - i,
        {
            let ghost laid = frames_sent(old(self)@);
            let ghost marks_before = marks@;
            let ghost frames_before = frames@;
            let frame = handle_sending_packets(&mut self.connections[i]);
            proof {
                assert(laid.take(i + 1) =~= laid.take(i as int).push(laid[i as int]));
                lemma_kept_push(laid.take(i as int), marks_before, laid[i as int], frame is Err);
            }
            match frame {
                Ok(frame) => {
                    frames.push(frame);
                    closed.push(None);
                    marks.push(false);
                    proof {
                        assert(laid_out(frames@) =~= laid_out(frames_before).push(Ok(frame@)));
                    }
                },
                Err(e) => {
                    closed.push(Some(e));
                    marks.push(true);
                },
            }
            i += 1;
        }
        proof {
            lemma_kept_views(self.connections@, marks@);
            assert(views(self.connections@) =~= sent(old(self)@));
            assert(closed@ =~= send_failures(old(self)@));
            assert(marks@ =~= failed(closed@));
            assert(frames_sent(old(self)@).take(n as int) =~= frames_sent(old(self)@));
        }
        remove_marked(&mut self.connections, &marks);
        (closed, frames)
    }

    /// The end of a tick: takes the outcome of the one write for every session and removes
    /// exactly the sessions whose write failed. A write for which there was no room fails no
    /// session.
    ///
    /// The writes are taken in the order of the sessions; a session for which there is none
    /// is taken as one on whose socket there was no room. Returns, for every session that
    /// there was, the error that ended it, if one did.
    pub fn conclude(&mut self, writes: &Vec<Result<(), SocketErrorKind>>) -> (closed: Vec<
        Option<ProxiChatError>,
    >)
        ensures
            closed@ == write_failures(old(self)@.len(), writes@),
            final(self)@ == kept(old(self)@, failed(closed@)),
    {
        let n = self.connections.len();
        let mut closed: Vec<Option<ProxiChatError>> = Vec::new();
        let mut marks: Vec<bool> = Vec::new();
        let mut i: usize = 0;
        while i < n
            invariant
                i <= n,
                closed@.len() == i,
                marks@.len() == i,
                forall|j: int|
                    0 <= j < i ==> #[trigger] closed@[j] == failure(
                        socket_verdict(outcome_at(writes@, j)),
                    ),
                forall|j: int| 0 <= j < i ==> #[trigger] marks@[j] == (closed@[j] is Some),
            decreases n - i,
        {
            let verdict = if i < writes.len() {
                settle(&writes[i])
            } else {
                Ok(())
            };
            match verdict {
                Ok(_) => {
                    closed.push(None);
                    marks.push(false);
                },
                Err(e) => {
                    closed.push(Some(e));
                    marks.push(true);
                },
            }
            i += 1;
        }
        proof {
            lemma_kept_views(self.connections@, marks@);
            assert(closed@ =~= write_failures(old(self)@.len(), writes@));
            assert(marks@ =~= failed(closed@));
        }
        remove_marked(&mut self.connections, &marks);
        closed
    }

    /// One step of a tick. A tick is three steps: the driver tries once to accept a
    /// connection and reports `Accepted`; it makes the reads that `Read` asks for and reports
    /// `Received`; it writes the frames that `Write` hands out and reports `Sent`.
    pub fn run(&mut self, event: ServerEvent) -> (action: ServerAction)
        ensures
            run_spec(old(self)@, event, final(self)@, action),
    {
        match event {
            ServerEvent::Accepted(outcome) => {
                let opened = self.accept(&outcome);
                ServerAction::Read { opened }
            },
            ServerEvent::Received { reads, roster } => {
                let closed = self.collect(&reads, &roster);
                let ghost survivors = self@;
                self.loop_back();
                let (ended, frames) = self.send();
                proof {
                    let looped = looped_back(survivors);
                    assert forall|i: int| 0 <= i < ended@.len() implies !failed(ended@)[i] by {
                        assert(looped[i].send_audio_buffer.len() == AUDIO_BUFFER_SIZE);
                    }
                    lemma_kept_all(sent(looped), failed(ended@));
                    lemma_kept_all(frames_sent(looped), failed(ended@));
                    assert forall|i: int| 0 <= i < frames@.len() implies survivors[i].reply()
                        == Ok::<Seq<u8>, ProxiChatError>(#[trigger] frames@[i]@) by {
                        assert(laid_out(frames@)[i] == frames_sent(looped)[i]);
                    }
                }
                ServerAction::Write { closed, frames }
            },
            ServerEvent::Sent(writes) => {
                let closed = self.conclude(&writes);
                ServerAction::Rest { closed }
            },
        }
    }
}

impl Default for Server {
    fn default() -> (server: Server)
        ensures
            server@ == Seq::<ConnectionView>::empty(),
    {
        Server::new()
    }
}

/// A read for which nothing was ready leaves a session as it was and ends nothing. A write
/// for which there was no room ends nothing either, and the send phase before it changes
/// what the relay knows of the client's identity only where a confirmation was still to be
/// sent.
pub proof fn lemma_would_block_session(session: ConnectionView, roster: Seq<String>)
    ensures
        session.collect(Err(SocketErrorKind::WouldBlock), roster) == (
            session,
            Ok::<(), ProxiChatError>(()),
        ),
        !(session.player_uid is AuthReady) ==> session.send().0 == session,
        !(session.player_uid is AuthReady) ==> session.looped_back().send().0.player_uid
            == session.player_uid,
        socket_verdict(Err::<(), SocketErrorKind>(SocketErrorKind::WouldBlock)) == Ok::<
            (),
            ProxiChatError,
        >(()),
{
}

/// A session after one tick in which nothing was ready on its socket: after a read without
/// data, the send phase, and a write without room.
pub open spec fn after_quiet_tick(session: ConnectionView) -> ConnectionView {
    session.collect(Err(SocketErrorKind::WouldBlock), Seq::empty()).0.looped_back().send().0
}

/// A session after `n` ticks in which nothing was ready on its socket.
pub open spec fn after_quiet_ticks(session: ConnectionView, n: nat) -> ConnectionView
    decreases n,
{
    if n == 0 {
        session
    } else {
        after_quiet_tick(after_quiet_ticks(session, (n - 1) as nat))
    }
}

/// A session on whose socket nothing is ever ready lives on, tick after tick: no tick ends
/// it, every tick hands out a frame for it, and what the relay knows of the client's
/// identity stays as it was.
pub proof fn lemma_quiet_ticks(session: ConnectionView, n: nat)
    requires
        session.audio_buffer.len() == AUDIO_BUFFER_SIZE,
        !(session.player_uid is AuthReady),
    ensures
        after_quiet_ticks(session, n).player_uid == session.player_uid,
        after_quiet_ticks(session, n).audio_buffer == session.audio_buffer,
        after_quiet_ticks(session, n).collect(Err(SocketErrorKind::WouldBlock), Seq::empty()).1
            is Ok,
        after_quiet_ticks(session, n).reply() is Ok,
        socket_verdict(Err::<(), SocketErrorKind>(SocketErrorKind::WouldBlock)) is Ok,
    decreases n,
{
    if n > 0 {
        lemma_quiet_ticks(session, (n - 1) as nat);
    }
}

/// A tick in which nothing is ready on any socket ends no session, asks for one write for
/// every session, and leaves what the relay knows of every client's identity as it was;
/// only a confirmation that was still to be sent has gone out.
pub proof fn lemma_would_block_tick(
    before: Seq<ConnectionView>,
    reads: Vec<Result<Vec<u8>, SocketErrorKind>>,
    roster: Vec<String>,
    between: Seq<ConnectionView>,
    first: ServerAction,
    writes: Vec<Result<(), SocketErrorKind>>,
    after: Seq<ConnectionView>,
    second: ServerAction,
)
    requires
        forall|i: int|
            0 <= i < reads@.len() ==> reads@[i] == Err::<Vec<u8>, SocketErrorKind>(
                SocketErrorKind::WouldBlock,
            ),
        run_spec(before, ServerEvent::Received { reads, roster }, between, first),
        forall|i: int|
            0 <= i < writes@.len() ==> writes@[i] == Err::<(), SocketErrorKind>(
                SocketErrorKind::WouldBlock,
            ),
        run_spec(between, ServerEvent::Sent(writes), after, second),
    ensures
        first matches ServerAction::Write { closed, frames } && frames@.len() == before.len()
            && forall|i: int| 0 <= i < closed@.len() ==> closed@[i] is None,
        second matches ServerAction::Rest { closed } && forall|i: int|
            0 <= i < closed@.len() ==> closed@[i] is None,
        after.len() == before.len(),
        forall|i: int|
            0 <= i < before.len() ==> (#[trigger] after[i]).player_uid == (match before[i].player_uid {
                UIDState::AuthReady(uid) => UIDState::UID(uid),
                state => state,
            }),
        forall|i: int|
            0 <= i < before.len() ==> (#[trigger] after[i]).audio_buffer == before[i].audio_buffer,
{
    let stepped = collected(before, read_views(reads@), roster@);
    let failures = collect_failures(before, read_views(reads@), roster@);
    assert(stepped =~= before);
    lemma_kept_all(stepped, failed(failures));
    lemma_kept_all(between, failed(write_failures(between.len(), writes@)));
}

/// The handshake. A claim of an identity that is on the roster makes the session ready to
/// confirm it, whatever its state; the next send phase confirms it and records the identity;
/// the send phase after that confirms nothing. A claim of an identity that is not on the
/// roster ends the session.
pub proof fn lemma_auth_handshake(session: ConnectionView, uid: i64, roster: Seq<String>)
    ensures
        on_roster(uid, roster) ==> {
            let claimed = session.collect(Ok((PacketView::Auth { uid }).frame()), roster);
            let confirmed = claimed.0.send();
            &&& claimed == (
                ConnectionView { player_uid: UIDState::AuthReady(uid), ..session },
                Ok::<(), ProxiChatError>(()),
            )
            &&& confirmed == (
                ConnectionView { player_uid: UIDState::UID(uid), ..session },
                Ok::<PacketView, ProxiChatError>(PacketView::AuthComfirm),
            )
            &&& confirmed.0.send().0 == confirmed.0
            &&& confirmed.0.send().1 != Ok::<PacketView, ProxiChatError>(PacketView::AuthComfirm)
        },
        !on_roster(uid, roster) ==> session.collect(
            Ok((PacketView::Auth { uid }).frame()),
            roster,
        ) == (session, Err::<(), ProxiChatError>(ProxiChatError::InvalidUID(uid))),
{
    lemma_parse_of_frame(PacketView::Auth { uid });
}

/// A message that only the relay sends ends the session that receives it, whatever its
/// state.
pub proof fn lemma_relay_only_messages(
    session: ConnectionView,
    packet: PacketView,
    roster: Seq<String>,
)
    requires
        packet.wf(),
        packet is ProccessedAudio || packet is AuthComfirm || packet is Nothing,
    ensures
        session.collect(Ok(packet.frame()), roster) == (
            session,
            Err::<(), ProxiChatError>(ProxiChatError::ImpossibleOnServer),
        ),
{
    lemma_parse_of_frame(packet);
}

/// A buffer that is the frame of no message leaves a session as it was and ends nothing, so
/// that what arrives next is handled as if the buffer had never come.
pub proof fn lemma_garbage_is_dropped(
    session: ConnectionView,
    garbage: Seq<u8>,
    next: Result<Seq<u8>, SocketErrorKind>,
    roster: Seq<String>,
)
    requires
        parse_frame(garbage) is Err,
    ensures
        session.collect(Ok(garbage), roster) == (session, Ok::<(), ProxiChatError>(())),
        session.collect(Ok(garbage), roster).0.collect(next, roster) == session.collect(
            next,
            roster,
        ),
{
}

/// The chunk that a client sent last is what the relay sends back to it.
pub proof fn lemma_audio_comes_back(
    session: ConnectionView,
    samples: Seq<AudioSampleType>,
    roster: Seq<String>,
)
    requires
        samples.len() == AUDIO_BUFFER_SIZE,
        session.player_uid is UID,
    ensures
        session.collect(Ok(PacketView::NewAudio(samples).frame()), roster).0.reply() == Ok::<
            Seq<u8>,
            ProxiChatError,
        >(PacketView::ProccessedAudio(samples).frame()),
{
    lemma_parse_of_frame(PacketView::NewAudio(samples));
}

/// The sweep after the writes is exact. Of `n` sessions of which `k` had a failed write,
/// `n - k` are left: every session whose write did not fail, once, unchanged, and in the
/// order in which they stood.
pub proof fn lemma_sweep_after_writes(
    before: Seq<ConnectionView>,
    writes: Vec<Result<(), SocketErrorKind>>,
    after: Seq<ConnectionView>,
    action: ServerAction,
)
    requires
        run_spec(before, ServerEvent::Sent(writes), after, action),
    ensures
        action matches ServerAction::Rest { closed } && {
            let marks = failed(closed@);
            &&& closed@.len() == before.len()
            &&& after.len() == before.len() - marked(marks)
            &&& forall|i: int|
                0 <= i < before.len() && closed@[i] is None ==> 0 <= #[trigger] place(marks, i)
                    < after.len() && after[place(marks, i)] == before[i]
            &&& forall|i: int, j: int|
                0 <= i < j < before.len() && closed@[i] is None && closed@[j] is None
                    ==> #[trigger] place(marks, i) < #[trigger] place(marks, j)
        },
{
    lemma_kept(before, failed(write_failures(before.len(), writes@)));
}

/// The sweep after the reads is exact. Of `n` sessions of which `k` ended in their receive
/// phase, `n - k` are left: every session that no error ended, once, as its receive phase and
/// its send phase left it, and in the order in which they stood.
pub proof fn lemma_sweep_after_reads(
    before: Seq<ConnectionView>,
    reads: Vec<Result<Vec<u8>, SocketErrorKind>>,
    roster: Vec<String>,
    after: Seq<ConnectionView>,
    action: ServerAction,
)
    requires
        run_spec(before, ServerEvent::Received { reads, roster }, after, action),
    ensures
        action matches ServerAction::Write { closed, frames } && {
            let marks = failed(closed@);
            &&& closed@.len() == before.len()
            &&& after.len() == before.len() - marked(marks)
            &&& frames@.len() == after.len()
            &&& forall|i: int|
                0 <= i < before.len() && closed@[i] is None ==> 0 <= #[trigger] place(marks, i)
                    < after.len() && after[place(marks, i)] == before[i].collect(
                    outcome_at(read_views(reads@), i),
                    roster@,
                ).0.looped_back().send().0
            &&& forall|i: int, j: int|
                0 <= i < j < before.len() && closed@[i] is None && closed@[j] is None
                    ==> #[trigger] place(marks, i) < #[trigger] place(marks, j)
        },
{
    let stepped = collected(before, read_views(reads@), roster@);
    let failures = collect_failures(before, read_views(reads@), roster@);
    lemma_kept(stepped, failed(failures));
}

} // verus!
