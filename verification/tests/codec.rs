use proxichat::packet::{DecodeError, NetPacket};
use proxichat::shared::{AUDIO_BUFFER_SIZE, FRAME_SIZE};

fn ramp() -> [u32; AUDIO_BUFFER_SIZE] {
    let mut chunk = [0u32; AUDIO_BUFFER_SIZE];
    for (i, sample) in chunk.iter_mut().enumerate() {
        *sample = (i as f32 * 0.25 - 3.0).to_bits();
    }
    chunk
}

#[test]
fn frame_size_is_tag_plus_one_chunk() {
    assert_eq!(FRAME_SIZE, 516);
    assert_eq!(AUDIO_BUFFER_SIZE, 128);
}

#[test]
fn every_variant_fills_one_frame() {
    let packets = [
        NetPacket::Auth { uid: 42 },
        NetPacket::AuthComfirm,
        NetPacket::NewAudio(ramp()),
        NetPacket::ProccessedAudio(ramp()),
        NetPacket::Nothing,
    ];
    for packet in packets {
        assert_eq!(packet.encode().len(), FRAME_SIZE);
    }
}

#[test]
fn every_variant_survives_the_round_trip() {
    let packets = [
        NetPacket::Auth { uid: 42 },
        NetPacket::Auth { uid: -1 },
        NetPacket::Auth { uid: i64::MIN },
        NetPacket::Auth { uid: i64::MAX },
        NetPacket::AuthComfirm,
        NetPacket::NewAudio(ramp()),
        NetPacket::ProccessedAudio(ramp()),
        NetPacket::NewAudio([u32::MAX; AUDIO_BUFFER_SIZE]),
        NetPacket::Nothing,
    ];
    for packet in packets {
        assert_eq!(NetPacket::decode(&packet.encode()), Ok(packet));
    }
}

#[test]
fn auth_frame_layout() {
    let frame = NetPacket::Auth { uid: 0x0102_0304_0506_0708 }.encode();
    assert_eq!(&frame[..4], &[0, 0, 0, 0]);
    assert_eq!(&frame[4..12], &[8, 7, 6, 5, 4, 3, 2, 1]);
    assert!(frame[12..].iter().all(|b| *b == 0));
}

#[test]
fn negative_identity_is_twos_complement() {
    let frame = NetPacket::Auth { uid: -2 }.encode();
    assert_eq!(&frame[4..12], &[0xfe, 0xff, 0xff, 0xff, 0xff, 0xff, 0xff, 0xff]);
}

#[test]
fn audio_frame_layout() {
    let mut chunk = [0u32; AUDIO_BUFFER_SIZE];
    chunk[0] = 1.0f32.to_bits();
    chunk[127] = 0xdead_beef;
    let frame = NetPacket::NewAudio(chunk).encode();
    assert_eq!(&frame[..4], &[2, 0, 0, 0]);
    assert_eq!(&frame[4..8], &1.0f32.to_le_bytes());
    assert_eq!(&frame[512..516], &[0xef, 0xbe, 0xad, 0xde]);
    let frame = NetPacket::ProccessedAudio(chunk).encode();
    assert_eq!(&frame[..4], &[3, 0, 0, 0]);
    assert_eq!(&frame[4..8], &1.0f32.to_le_bytes());
}

#[test]
fn empty_variants_are_a_tag_and_zeros() {
    let frame = NetPacket::AuthComfirm.encode();
    assert_eq!(&frame[..4], &[1, 0, 0, 0]);
    assert!(frame[4..].iter().all(|b| *b == 0));
    let frame = NetPacket::Nothing.encode();
    assert_eq!(&frame[..4], &[4, 0, 0, 0]);
    assert!(frame[4..].iter().all(|b| *b == 0));
}

#[test]
fn short_buffer_is_truncated() {
    assert_eq!(NetPacket::decode(&[]), Err(DecodeError::Truncated));
    let frame = NetPacket::AuthComfirm.encode();
    assert_eq!(NetPacket::decode(&frame[..FRAME_SIZE - 1]), Err(DecodeError::Truncated));
}

#[test]
fn long_buffer_is_oversized() {
    let mut bytes = NetPacket::AuthComfirm.encode().to_vec();
    bytes.push(0);
    assert_eq!(NetPacket::decode(&bytes), Err(DecodeError::Oversized));
}

#[test]
fn unknown_tag_is_rejected() {
    let mut frame = NetPacket::Nothing.encode();
    frame[0] = 5;
    assert_eq!(NetPacket::decode(&frame), Err(DecodeError::UnknownTag(5)));
    frame[0] = 4;
    frame[3] = 1;
    assert_eq!(NetPacket::decode(&frame), Err(DecodeError::UnknownTag(0x0100_0004)));
}

#[test]
fn dirty_padding_is_rejected() {
    let mut frame = NetPacket::Auth { uid: 7 }.encode();
    frame[FRAME_SIZE - 1] = 1;
    assert_eq!(NetPacket::decode(&frame), Err(DecodeError::Padding));
    let mut frame = NetPacket::AuthComfirm.encode();
    frame[4] = 9;
    assert_eq!(NetPacket::decode(&frame), Err(DecodeError::Padding));
    let mut frame = NetPacket::Nothing.encode();
    frame[100] = 9;
    assert_eq!(NetPacket::decode(&frame), Err(DecodeError::Padding));
}

#[test]
fn length_is_judged_before_the_tag() {
    let bytes = [9u8; 10];
    assert_eq!(NetPacket::decode(&bytes), Err(DecodeError::Truncated));
}
