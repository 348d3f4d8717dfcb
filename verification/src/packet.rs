//! The messages that the two ends exchange, and their frames.
//!
//! Every message travels as one frame of exactly [`FRAME_SIZE`] bytes: a tag word, the
//! payload of the variant, and zero bytes up to the end. All integers are little-endian.
//!
//! | tag | variant           | payload                                |
//! |-----|-------------------|----------------------------------------|
//! | 0   | `Auth`            | the identity, 8 bytes                  |
//! | 1   | `AuthComfirm`     | none                                   |
//! | 2   | `NewAudio`        | the samples of the chunk, 4 bytes each |
//! | 3   | `ProccessedAudio` | the samples of the chunk, 4 bytes each |
//! | 4   | `Nothing`         | none                                   |
//!
//! A sample is a single-precision number, carried by its bits. A buffer is the frame of at
//! most one message, and every message has exactly one frame.

use crate::shared::{AudioSampleType, AUDIO_BUFFER_SIZE, FRAME_SIZE};
use crate::wire::{
    i64_from_le, i64_from_le_bytes, i64_le, i64_to_le_bytes, lemma_i64_le_bytes,
    lemma_i64_le_value, lemma_u32_le_bytes, lemma_u32_le_value, u32_from_le, u32_from_le_bytes,
    u32_le, u32_to_le_bytes,
};
use vstd::prelude::*;

verus! {

/// A message between a client and the relay.
#[derive(Debug, Clone, Copy, PartialEq, Eq)]
pub enum NetPacket {
    /// Client to relay: the sender claims this identity and asks to be let in.
    Auth { uid: i64 },
    /// Relay to client: the identity was accepted.
    AuthComfirm,
    /// Client to relay: one chunk of captured audio.
    NewAudio([AudioSampleType; AUDIO_BUFFER_SIZE]),
    /// Relay to client: one chunk of audio to play.
    ProccessedAudio([AudioSampleType; AUDIO_BUFFER_SIZE]),
    /// Relay to client: nothing is due.
    Nothing,
}

/// A message as a mathematical value: a chunk is the sequence of its samples.
pub ghost enum PacketView {
    Auth { uid: i64 },
    AuthComfirm,
    NewAudio(Seq<AudioSampleType>),
    ProccessedAudio(Seq<AudioSampleType>),
    Nothing,
}

/// Why a buffer is not the frame of any message.
#[derive(Debug, Clone, Copy, PartialEq, Eq, Structural)]
pub enum DecodeError {
    /// The buffer is shorter than a frame.
    Truncated,
    /// The buffer is longer than a frame.
    Oversized,
    /// The tag word names no variant.
    UnknownTag(u32),
    /// A byte behind the payload is not zero.
    Padding,
}

impl View for NetPacket {
    type V = PacketView;

    open spec fn view(&self) -> PacketView {
        match *self {
            NetPacket::Auth { uid } => PacketView::Auth { uid },
            NetPacket::AuthComfirm => PacketView::AuthComfirm,
            NetPacket::NewAudio(samples) => PacketView::NewAudio(samples@),
            NetPacket::ProccessedAudio(samples) => PacketView::ProccessedAudio(samples@),
            NetPacket::Nothing => PacketView::Nothing,
        }
    }
}

/// The bytes of a run of samples, four for each, in order.
pub open spec fn samples_le(samples: Seq<AudioSampleType>) -> Seq<u8> {
    Seq::new(4 * samples.len(), |i: int| u32_le(samples[i / 4])[i % 4])
}

/// The samples that a run of bytes holds, one for every four bytes.
pub open spec fn samples_from_le(bytes: Seq<u8>) -> Seq<AudioSampleType> {
    Seq::new(bytes.len() / 4, |k: int| u32_from_le(bytes.subrange(4 * k, 4 * k + 4)))
}

/// `n` zero bytes.
pub open spec fn padding(n: nat) -> Seq<u8> {
    Seq::new(n, |i: int| 0u8)
}

/// Whether every byte of `bytes` from index `from` on is zero.
pub open spec fn is_clear(bytes: Seq<u8>, from: int) -> bool {
    forall|i: int| from <= i < bytes.len() ==> bytes[i] == 0
}

impl PacketView {
    /// Whether a chunk, if the message carries one, has the length of a chunk.
    pub open spec fn wf(self) -> bool {
        match self {
            PacketView::NewAudio(samples) => samples.len() == AUDIO_BUFFER_SIZE,
            PacketView::ProccessedAudio(samples) => samples.len() == AUDIO_BUFFER_SIZE,
            _ => true,
        }
    }

    /// The tag word of the variant.
    pub open spec fn tag(self) -> u32 {
        match self {
            PacketView::Auth { .. } => 0,
            PacketView::AuthComfirm => 1,
            PacketView::NewAudio(_) => 2,
            PacketView::ProccessedAudio(_) => 3,
            PacketView::Nothing => 4,
        }
    }

    /// The bytes that follow the tag word.
    pub open spec fn payload(self) -> Seq<u8> {
        match self {
            PacketView::Auth { uid } => i64_le(uid),
            PacketView::NewAudio(samples) => samples_le(samples),
            PacketView::ProccessedAudio(samples) => samples_le(samples),
            _ => Seq::empty(),
        }
    }

    /// The frame of the message: tag word, payload, zero bytes up to [`FRAME_SIZE`].
    pub open spec fn frame(self) -> Seq<u8> {
        u32_le(self.tag()) + self.payload() + padding(
            (FRAME_SIZE - 4 - self.payload().len()) as nat,
        )
    }
}

/// What a buffer decodes to: the one message whose frame it is, or the first reason why it is
/// the frame of none.
pub open spec fn parse_frame(bytes: Seq<u8>) -> Result<PacketView, DecodeError> {
    if bytes.len() < FRAME_SIZE {
        Err(DecodeError::Truncated)
    } else if bytes.len() > FRAME_SIZE {
        Err(DecodeError::Oversized)
    } else {
        let tag = u32_from_le(bytes.subrange(0, 4));
        if tag == 0 {
            if is_clear(bytes, 12) {
                Ok(PacketView::Auth { uid: i64_from_le(bytes.subrange(4, 12)) })
            } else {
                Err(DecodeError::Padding)
            }
        } else if tag == 1 {
            if is_clear(bytes, 4) {
                Ok(PacketView::AuthComfirm)
            } else {
                Err(DecodeError::Padding)
            }
        } else if tag == 2 {
            Ok(PacketView::NewAudio(samples_from_le(bytes.subrange(4, FRAME_SIZE as int))))
        } else if tag == 3 {
            Ok(PacketView::ProccessedAudio(samples_from_le(bytes.subrange(4, FRAME_SIZE as int))))
        } else if tag == 4 {
            if is_clear(bytes, 4) {
                Ok(PacketView::Nothing)
            } else {
                Err(DecodeError::Padding)
            }
        } else {
            Err(DecodeError::UnknownTag(tag))
        }
    }
}

/// What a result of decoding stands for: the message by its view, the error as it is.
pub open spec fn decoded(r: Result<NetPacket, DecodeError>) -> Result<PacketView, DecodeError> {
    match r {
        Ok(packet) => Ok(packet@),
        Err(e) => Err(e),
    }
}

/// Tells whether every byte of `bytes` from index `from` on is zero.
fn all_zero(bytes: &[u8], from: usize) -> (clear: bool)
    ensures
        clear == is_clear(bytes@, from as int),
{
    let mut i: usize = from;
    while i < bytes.len()
        invariant
            from <= i,
            forall|j: int| from <= j < i && j < bytes@.len() ==> bytes@[j] == 0,
        decreases bytes@.len() - i,
    {
        if bytes[i] != 0 {
            return false;
        }
        i += 1;
    }
    true
}

/// Reads the chunk that a frame carries behind its tag word.
fn read_samples(bytes: &[u8]) -> (samples: [AudioSampleType; AUDIO_BUFFER_SIZE])
    requires
        bytes@.len() == FRAME_SIZE,
    ensures
        samples@ == samples_from_le(bytes@.subrange(4, FRAME_SIZE as int)),
{
    let mut samples = [0u32; AUDIO_BUFFER_SIZE];
    let ghost run = bytes@.subrange(4, FRAME_SIZE as int);
    let mut k: usize = 0;
    while k < AUDIO_BUFFER_SIZE
        invariant
            k <= AUDIO_BUFFER_SIZE,
            bytes@.len() == FRAME_SIZE,
            run == bytes@.subrange(4, FRAME_SIZE as int),
            forall|j: int| 0 <= j < k ==> samples@[j] == samples_from_le(run)[j],
        decreases AUDIO_BUFFER_SIZE - k,
    {
        let sample = u32_from_le_bytes(bytes, 4 + 4 * k);
        proof {
            assert(run.subrange(4 * k, 4 * k + 4) =~= bytes@.subrange(4 + 4 * k, 4 + 4 * k + 4));
        }
        samples[k] = sample;
        k += 1;
    }
    proof {
        assert(samples@ =~= samples_from_le(run));
    }
    samples
}

/// Writes a chunk into a frame behind its tag word.
fn write_samples(frame: &mut [u8; FRAME_SIZE], samples: &[AudioSampleType; AUDIO_BUFFER_SIZE])
    ensures
        final(frame)@.subrange(0, 4) == old(frame)@.subrange(0, 4),
        final(frame)@.subrange(4, FRAME_SIZE as int) == samples_le(samples@),
{
    let mut k: usize = 0;
    while k < AUDIO_BUFFER_SIZE
        invariant
            k <= AUDIO_BUFFER_SIZE,
            forall|i: int| 0 <= i < 4 ==> frame@[i] == old(frame)@[i],
            forall|i: int| 0 <= i < 4 * k ==> frame@[4 + i] == samples_le(samples@)[i],
        decreases AUDIO_BUFFER_SIZE - k,
    {
        let b = u32_to_le_bytes(samples[k]);
        frame[4 + 4 * k] = b[0];
        frame[4 + 4 * k + 1] = b[1];
        frame[4 + 4 * k + 2] = b[2];
        frame[4 + 4 * k + 3] = b[3];
        k += 1;
    }
    proof {
        assert(frame@.subrange(0, 4) =~= old(frame)@.subrange(0, 4));
        assert(frame@.subrange(4, FRAME_SIZE as int) =~= samples_le(samples@));
    }
}

impl NetPacket {
    /// The tag word of the variant.
    pub fn tag(&self) -> (tag: u32)
        ensures
            tag == self@.tag(),
    {
        match self {
            NetPacket::Auth { .. } => 0,
            NetPacket::AuthComfirm => 1,
            NetPacket::NewAudio(_) => 2,
            NetPacket::ProccessedAudio(_) => 3,
            NetPacket::Nothing => 4,
        }
    }

    /// Lays the message out as its frame. Every message has one.
    pub fn encode(&self) -> (frame: [u8; FRAME_SIZE])
        ensures
            frame@ == self@.frame(),
    {
        let mut frame = [0u8; FRAME_SIZE];
        let tag = u32_to_le_bytes(self.tag());
        frame[0] = tag[0];
        frame[1] = tag[1];
        frame[2] = tag[2];
        frame[3] = tag[3];
        match self {
            NetPacket::Auth { uid } => {
                let b = i64_to_le_bytes(*uid);
                let mut j: usize = 0;
                while j < 8
                    invariant
                        j <= 8,
                        b@ == i64_le(*uid),
                        frame@.subrange(0, 4) == u32_le(self@.tag()),
                        forall|i: int| 0 <= i < j ==> frame@[4 + i] == b@[i],
                        forall|i: int| 4 + j <= i < FRAME_SIZE ==> frame@[i] == 0,
                    decreases 8 - j,
                {
                    frame[4 + j] = b[j];
                    proof {
                        assert(frame@.subrange(0, 4) =~= u32_le(self@.tag()));
                    }
                    j += 1;
                }
            },
            NetPacket::NewAudio(samples) => {
                write_samples(&mut frame, samples);
            },
            NetPacket::ProccessedAudio(samples) => {
                write_samples(&mut frame, samples);
            },
            _ => {},
        }
        proof {
            lemma_frame_len(self@);
            assert(frame@.subrange(0, 4) =~= u32_le(self@.tag()));
            assert(frame@ =~= self@.frame()) by {
                assert forall|i: int| 0 <= i < FRAME_SIZE implies frame@[i] == self@.frame()[i] by {
                    if i < 4 {
                        assert(frame@[i] == frame@.subrange(0, 4)[i]);
                    } else {
                        match *self {
                            NetPacket::NewAudio(_) | NetPacket::ProccessedAudio(_) => {
                                assert(frame@[i] == frame@.subrange(4, FRAME_SIZE as int)[i - 4]);
                            },
                            _ => {},
                        }
                    }
                }
            }
        }
        frame
    }

    /// Reads a message back from a buffer.
    ///
    /// Succeeds on exactly the frames that [`NetPacket::encode`] produces, and otherwise says
    /// what is wrong with the buffer: its length first, then the tag word, then the bytes
    /// behind the payload.
    pub fn decode(bytes: &[u8]) -> (r: Result<NetPacket, DecodeError>)
        ensures
            decoded(r) == parse_frame(bytes@),
    {
        if bytes.len() < FRAME_SIZE {
            return Err(DecodeError::Truncated);
        }
        if bytes.len() > FRAME_SIZE {
            return Err(DecodeError::Oversized);
        }
        let tag = u32_from_le_bytes(bytes, 0);
        if tag == 0 {
            if all_zero(bytes, 12) {
                Ok(NetPacket::Auth { uid: i64_from_le_bytes(bytes, 4) })
            } else {
                Err(DecodeError::Padding)
            }
        } else if tag == 1 {
            if all_zero(bytes, 4) {
                Ok(NetPacket::AuthComfirm)
            } else {
                Err(DecodeError::Padding)
            }
        } else if tag == 2 {
            Ok(NetPacket::NewAudio(read_samples(bytes)))
        } else if tag == 3 {
            Ok(NetPacket::ProccessedAudio(read_samples(bytes)))
        } else if tag == 4 {
            if all_zero(bytes, 4) {
                Ok(NetPacket::Nothing)
            } else {
                Err(DecodeError::Padding)
            }
        } else {
            Err(DecodeError::UnknownTag(tag))
        }
    }
}

/// Every frame has the one size.
pub proof fn lemma_frame_len(packet: PacketView)
    requires
        packet.wf(),
    ensures
        packet.frame().len() == FRAME_SIZE,
{
    lemma_u32_le_value(packet.tag());
    if let PacketView::Auth { uid } = packet {
        lemma_i64_le_value(uid);
    }
}

/// Reading back the bytes of a run of samples gives the samples.
pub proof fn lemma_samples_le_value(samples: Seq<AudioSampleType>)
    ensures
        samples_from_le(samples_le(samples)) == samples,
{
    let bytes = samples_le(samples);
    assert forall|k: int| 0 <= k < samples.len() implies #[trigger] samples_from_le(bytes)[k]
        == samples[k] by {
        lemma_u32_le_value(samples[k]);
        assert(bytes.subrange(4 * k, 4 * k + 4) =~= u32_le(samples[k]));
    }
    assert(samples_from_le(bytes) =~= samples);
}

/// Writing out the samples that a run of bytes holds gives those bytes.
pub proof fn lemma_samples_le_bytes(bytes: Seq<u8>)
    requires
        bytes.len() % 4 == 0,
    ensures
        samples_le(samples_from_le(bytes)) == bytes,
{
    let samples = samples_from_le(bytes);
    assert forall|i: int| 0 <= i < bytes.len() implies #[trigger] samples_le(samples)[i]
        == bytes[i] by {
        let k = i / 4;
        lemma_u32_le_bytes(bytes.subrange(4 * k, 4 * k + 4));
    }
    assert(samples_le(samples) =~= bytes);
}

/// Decoding the frame of a message gives that message.
pub proof fn lemma_parse_of_frame(packet: PacketView)
    requires
        packet.wf(),
    ensures
        parse_frame(packet.frame()) == Ok::<PacketView, DecodeError>(packet),
{
    let frame = packet.frame();
    lemma_frame_len(packet);
    lemma_u32_le_value(packet.tag());
    assert(frame.subrange(0, 4) =~= u32_le(packet.tag()));
    match packet {
        PacketView::Auth { uid } => {
            lemma_i64_le_value(uid);
            assert(frame.subrange(4, 12) =~= i64_le(uid));
        },
        PacketView::NewAudio(samples) => {
            lemma_samples_le_value(samples);
            assert(frame.subrange(4, FRAME_SIZE as int) =~= samples_le(samples));
        },
        PacketView::ProccessedAudio(samples) => {
            lemma_samples_le_value(samples);
            assert(frame.subrange(4, FRAME_SIZE as int) =~= samples_le(samples));
        },
        _ => {},
    }
}

/// A buffer decodes to a message only if it is the frame of that message.
pub proof fn lemma_frame_of_parse(bytes: Seq<u8>, packet: PacketView)
    requires
        parse_frame(bytes) == Ok::<PacketView, DecodeError>(packet),
    ensures
        packet.wf(),
        packet.frame() == bytes,
{
    lemma_u32_le_bytes(bytes.subrange(0, 4));
    match packet {
        PacketView::Auth { uid } => {
            lemma_i64_le_bytes(bytes.subrange(4, 12));
            lemma_i64_le_value(uid);
        },
        PacketView::NewAudio(_) => {
            lemma_samples_le_bytes(bytes.subrange(4, FRAME_SIZE as int));
        },
        PacketView::ProccessedAudio(_) => {
            lemma_samples_le_bytes(bytes.subrange(4, FRAME_SIZE as int));
        },
        _ => {},
    }
    assert(packet.frame() =~= bytes);
}

/// Two messages with the same view are the same message.
pub proof fn lemma_view_injective(a: NetPacket, b: NetPacket)
    requires
        a@ == b@,
    ensures
        a == b,
{
    match (a, b) {
        (NetPacket::NewAudio(x), NetPacket::NewAudio(y)) => {
            assert(x =~= y);
        },
        (NetPacket::ProccessedAudio(x), NetPacket::ProccessedAudio(y)) => {
            assert(x =~= y);
        },
        _ => {},
    }
}

/// Decoding what encoding gave returns the message that was encoded: whatever decoding
/// returns on the frame of `packet`, by its contract, is `packet`.
pub proof fn lemma_decode_encode(packet: NetPacket, r: Result<NetPacket, DecodeError>)
    requires
        decoded(r) == parse_frame(packet@.frame()),
    ensures
        packet@.frame().len() == FRAME_SIZE,
        r == Ok::<NetPacket, DecodeError>(packet),
{
    lemma_frame_len(packet@);
    lemma_parse_of_frame(packet@);
    lemma_view_injective(r->Ok_0, packet);
}

} // verus!
