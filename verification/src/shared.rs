//! What both ends of a connection share: the constants of the protocol and the errors of a
//! session.

use crate::client::{Client, ClientAction, ClientEvent, ClientView};
use crate::decimal::{decimal, to_decimal};
use crate::server::{run_spec, ConnectionView, Server, ServerAction, ServerEvent};
use vstd::prelude::*;
use vstd::string::StringExecFns;

verus! {

/// The port on which the relay listens.
pub const PROXICHAT_PORT: usize = 8081;

/// The number of samples in one chunk of audio.
pub const AUDIO_BUFFER_SIZE: usize = 128;

/// The number of bytes in every frame on the wire: a tag word and one chunk of samples.
pub const FRAME_SIZE: usize = 4 + 4 * AUDIO_BUFFER_SIZE;

/// The number of bytes that one read asks for: one frame.
pub const READ_BUFFER_SIZE: usize = FRAME_SIZE;

/// A sample, held as the bit pattern of a single-precision number.
pub type AudioSampleType = u32;

/// A run of samples.
pub type AudioSampleVec = Vec<AudioSampleType>;

/// The sample that fills a chunk where no audio is at hand: silence.
pub const DEFAULT_FILL_SAMPLE: AudioSampleType = 0;

/// Why an operation on a socket did not complete.
#[derive(Debug, Clone, Copy, PartialEq, Eq, Structural)]
pub enum SocketErrorKind {
    /// Nothing is ready: no data to read, no room to write, nobody to accept. No failure.
    WouldBlock,
    /// The peer reset the connection.
    ConnectionReset,
    /// The connection was aborted.
    ConnectionAborted,
    /// The peer no longer reads what is written.
    BrokenPipe,
    /// The stream ended.
    UnexpectedEof,
    /// Any other failure.
    Other,
}

/// What ends a session.
#[derive(Debug, Clone, Copy, PartialEq, Eq, Structural)]
pub enum ProxiChatError {
    /// A message arrived that only a client sends.
    ImpossibleOnClient,
    /// A message arrived that only the relay sends.
    ImpossibleOnServer,
    /// A client claimed an identity that is not on the roster.
    InvalidUID(i64),
    /// The audio to send does not have the length of a chunk.
    VecToArrayError,
    /// An operation on the socket did not complete.
    SocketError(SocketErrorKind),
}

impl SocketErrorKind {
    /// The words for this kind of failure.
    pub open spec fn text(self) -> Seq<char> {
        match self {
            SocketErrorKind::WouldBlock => "operation would block"@,
            SocketErrorKind::ConnectionReset => "connection reset"@,
            SocketErrorKind::ConnectionAborted => "connection aborted"@,
            SocketErrorKind::BrokenPipe => "broken pipe"@,
            SocketErrorKind::UnexpectedEof => "unexpected end of file"@,
            SocketErrorKind::Other => "other error"@,
        }
    }

    /// Whether a session lives on after an operation ended this way: only when nothing was
    /// ready.
    pub open spec fn is_would_block(self) -> bool {
        self == SocketErrorKind::WouldBlock
    }
}

/// What the outcome of an operation on a socket means for the session: nothing, where the
/// operation completed or nothing was ready; its end, on any other outcome.
pub open spec fn socket_verdict<T>(outcome: Result<T, SocketErrorKind>) -> Result<
    (),
    ProxiChatError,
> {
    match outcome {
        Ok(_) => Ok(()),
        Err(kind) => if kind.is_would_block() {
            Ok(())
        } else {
            Err(ProxiChatError::SocketError(kind))
        },
    }
}

impl ProxiChatError {
    /// The words for this error.
    pub open spec fn text(self) -> Seq<char> {
        match self {
            ProxiChatError::ImpossibleOnClient => "a packet shouldn't be received as a client"@,
            ProxiChatError::ImpossibleOnServer => "a packet shouldn't be received as a server"@,
            ProxiChatError::InvalidUID(uid) => "a client tried to connect with a invalid uid: "@
                + decimal(uid as int),
            ProxiChatError::VecToArrayError => "a vec wasn't converted to an array"@,
            ProxiChatError::SocketError(kind) => kind.text(),
        }
    }

    /// Tells whether the error only says that nothing was ready on the socket.
    pub fn is_would_block_error(&self) -> (would_block: bool)
        ensures
            would_block == (*self == ProxiChatError::SocketError(SocketErrorKind::WouldBlock)),
    {
        match self {
            ProxiChatError::SocketError(kind) => match kind {
                SocketErrorKind::WouldBlock => true,
                _ => false,
            },
            _ => false,
        }
    }

    /// Writes the error out in words.
    pub fn message(&self) -> (words: String)
        ensures
            words@ == self.text(),
    {
        match self {
            ProxiChatError::ImpossibleOnClient => String::from_str(
                "a packet shouldn't be received as a client",
            ),
            ProxiChatError::ImpossibleOnServer => String::from_str(
                "a packet shouldn't be received as a server",
            ),
            ProxiChatError::InvalidUID(uid) => {
                let number = to_decimal(*uid);
                String::from_str("a client tried to connect with a invalid uid: ").concat(
                    number.as_str(),
                )
            },
            ProxiChatError::VecToArrayError => String::from_str(
                "a vec wasn't converted to an array",
            ),
            ProxiChatError::SocketError(kind) => match kind {
                SocketErrorKind::WouldBlock => String::from_str("operation would block"),
                SocketErrorKind::ConnectionReset => String::from_str("connection reset"),
                SocketErrorKind::ConnectionAborted => String::from_str("connection aborted"),
                SocketErrorKind::BrokenPipe => String::from_str("broken pipe"),
                SocketErrorKind::UnexpectedEof => String::from_str("unexpected end of file"),
                SocketErrorKind::Other => String::from_str("other error"),
            },
        }
    }
}

/// The role that the program plays: it is the relay, on a dedicated game server, or a client,
/// in a player's game.
#[derive(Debug)]
pub enum ProximityChatType {
    Server(Server),
    Client(Client),
}

/// The role with its state as a mathematical value.
pub ghost enum RoleView {
    Server(Seq<ConnectionView>),
    Client(ClientView),
}

impl View for ProximityChatType {
    type V = RoleView;

    open spec fn view(&self) -> RoleView {
        match self {
            ProximityChatType::Server(server) => RoleView::Server(server@),
            ProximityChatType::Client(client) => RoleView::Client(client@),
        }
    }
}

/// The argument that marks a dedicated game server.
pub open spec fn dedicated_flag() -> Seq<char> {
    "-dedicated"@
}

/// Tells whether the arguments of the program mark a dedicated game server: whether one of
/// them is `-dedicated`.
pub fn is_dedicated(args: &Vec<String>) -> (dedicated: bool)
    ensures
        dedicated == exists|i: int| 0 <= i < args@.len() && (#[trigger] args@[i])@ == dedicated_flag(),
{
    let flag = String::from_str("-dedicated");
    let mut i: usize = 0;
    while i < args.len()
        invariant
            i <= args.len(),
            flag@ == dedicated_flag(),
            forall|j: int| 0 <= j < i ==> (#[trigger] args@[j])@ != dedicated_flag(),
        decreases args.len() - i,
    {
        if args[i] == flag {
            return true;
        }
        i += 1;
    }
    false
}

impl ProximityChatType {
    /// The role at the start: a relay without sessions, or a client without a session.
    pub fn new(is_server: bool) -> (role: ProximityChatType)
        ensures
            role@ == (if is_server {
                RoleView::Server(Seq::empty())
            } else {
                RoleView::Client(ClientView::idle())
            }),
    {
        if is_server {
            ProximityChatType::Server(Server::new())
        } else {
            ProximityChatType::Client(Client::new())
        }
    }

    /// Tells whether the program is the relay.
    pub fn is_server(&self) -> (relay: bool)
        ensures
            relay == (self@ is Server),
    {
        match self {
            ProximityChatType::Server(_) => true,
            ProximityChatType::Client(_) => false,
        }
    }

    /// One step of the relay's tick, if the program is the relay; nothing, if it is a client.
    pub fn run(&mut self, event: ServerEvent) -> (action: Option<ServerAction>)
        ensures
            match old(self)@ {
                RoleView::Server(before) => {
                    &&& final(self)@ matches RoleView::Server(after)
                    &&& action matches Some(step)
                    &&& run_spec(before, event, after, step)
                },
                RoleView::Client(_) => final(self)@ == old(self)@ && action is None,
            },
    {
        match self {
            ProximityChatType::Server(server) => Some(server.run(event)),
            ProximityChatType::Client(_) => None,
        }
    }

    /// One step of the client's tick, if the program is a client; nothing, if it is the
    /// relay.
    pub fn run_thread(&mut self, event: ClientEvent) -> (action: Option<ClientAction>)
        ensures
            match old(self)@ {
                RoleView::Client(before) => {
                    &&& final(self)@ matches RoleView::Client(after)
                    &&& action matches Some(step)
                    &&& before.step(event, after, step)
                },
                RoleView::Server(_) => final(self)@ == old(self)@ && action is None,
            },
    {
        match self {
            ProximityChatType::Client(client) => Some(client.run_thread(event)),
            ProximityChatType::Server(_) => None,
        }
    }
}

/// Tells what the outcome of a write or an accept means for the session.
pub fn settle<T>(outcome: &Result<T, SocketErrorKind>) -> (verdict: Result<(), ProxiChatError>)
    ensures
        verdict == socket_verdict(*outcome),
{
    match outcome {
        Ok(_) => Ok(()),
        Err(kind) => {
            let err = ProxiChatError::SocketError(*kind);
            if err.is_would_block_error() {
                Ok(())
            } else {
                Err(err)
            }
        },
    }
}

/// Words the line that reports `err` under the mark `msg`, and hands `err` on.
pub fn log_mark_error(msg: &str, err: ProxiChatError) -> (marked: (String, ProxiChatError))
    ensures
        marked.0@ == msg@ + ": "@ + err.text(),
        marked.1 == err,
{
    let words = err.message();
    let line = String::from_str(msg).concat(": ").concat(words.as_str());
    (line, err)
}

} // verus!
