use nshell::message::{Message, PAYLOAD_LEN};
use nshell::peer::{drain_next, DrainNext, PeerState, RecvAttempt};
use nshell::seq::{advance_maybe_wrap, next_seq, wrapping_sub};
use nshell::wire::{
    apply_world_updates, compress_world_updates, decompress_world_updates, Placement, ThingKind,
    WirePosition, WireThing, WorldUpdate, NUM_UPDATES_PER_MSG,
};

// Just a flag for when the size of the message changes. Keep in mind this is a
// UDP packet.
#[test]
fn assert_size_limit() {
    let size = std::mem::size_of::<Message>();
    assert!(
        size < 16 + 16 + 32 + PAYLOAD_LEN,
        "Message is too large at {size} bytes."
    );
}

#[test]
fn ack_bits() {
    let mut i: u32 = 0b00000000000000000000000000000001;
    for _ in 0..32 {
        i <<= 1;
        println!("{i}");
    }
}

#[test]
fn bitor() {
    let mut i: u32 = 0b10001000111000000010100000100010;
    i |= 1;
    assert_eq!(i, 0b10001000111000000010100000100011);
}

#[test]
fn shiftoff() {
    let mut i: u32 = 0b10001000111000000010100000100010;
    i <<= 1;
    assert_eq!(i, 0b00010001110000000101000001000100);
    i <<= 1;
    assert_eq!(i, 0b00100011100000001010000010001000);
}

#[test]
fn wrapping_u16s() {
    assert_eq!(wrapping_sub(std::u16::MAX - 5, 5), Some(10));
    assert_eq!(wrapping_sub(std::u16::MAX - 500, 5), Some(505));
    assert_eq!(wrapping_sub(0, std::u16::MAX), Some(std::u16::MAX));
    assert_eq!(
        wrapping_sub(std::u16::MAX / 2, (std::u16::MAX / 2) + 1),
        Some(1)
    );
    assert_eq!(
        wrapping_sub((std::u16::MAX / 2) - 1, (std::u16::MAX / 2) + 1),
        Some(2)
    );
    assert_eq!(wrapping_sub(5, 1), None);
}

#[test]
fn test_compression_roundtrip() {
    let values = (0..NUM_UPDATES_PER_MSG as u32)
        .map(|i| {
            let wt = WireThing::new(1, i as u16, i);
            let wpos = WirePosition(
                (i as f32).to_bits(),
                (i as f32).to_bits(),
                (i as f32).to_bits(),
            );
            WorldUpdate {
                id: i,
                thing: wt,
                position: wpos,
                y_rotation: 0.0f32.to_bits(),
            }
        })
        .collect::<Vec<_>>();

    let compressed_bytes = compress_world_updates(&values).unwrap();
    let decompressed = decompress_world_updates(&compressed_bytes).unwrap();
    assert_eq!(values.len(), decompressed.len());
    assert_eq!(values, decompressed);
}

#[test]
fn sequence_numbers_wrap() {
    assert_eq!(next_seq(0), 1);
    assert_eq!(next_seq(u16::MAX), 0);
    assert_eq!(advance_maybe_wrap(u16::MAX), 0);
    assert_eq!(advance_maybe_wrap(41), 42);
}

#[test]
fn a_number_is_not_ahead_of_itself() {
    assert_eq!(wrapping_sub(7, 7), None);
    assert_eq!(wrapping_sub(u16::MAX, 0), Some(0));
}

#[test]
fn message_bytes_roundtrip() {
    let m = Message::new(3, 2, 0b101, b"hello");
    let bytes = m.to_bytes();
    assert_eq!(bytes.len(), 8 + PAYLOAD_LEN);
    assert_eq!(&bytes[0..2], &[3, 0]);
    assert_eq!(&bytes[4..8], &[5, 0, 0, 0]);
    let back = Message::from_bytes(&bytes).unwrap();
    assert_eq!(back.seq, 3);
    assert_eq!(back.ack, 2);
    assert_eq!(back.ack_bits, 0b101);
    assert_eq!(&back.payload[0..5], b"hello");
    assert!(back.payload[5..].iter().all(|b| *b == 0));
}

#[test]
fn short_message_bytes_are_refused() {
    assert!(Message::from_bytes(&[0u8; 10]).is_err());
}

#[test]
fn sending_steps_the_sequence_and_queues_the_packet() {
    let mut p = PeerState::new();
    let m = p.prepare_send(b"x", 100).unwrap();
    assert_eq!(m.seq, 0);
    assert_eq!(p.seq(), 1);
    assert_eq!(p.send_queue().len(), 1);
    assert_eq!(p.send_queue()[0], (0, 100, false));
}

#[test]
fn oversized_payload_is_refused() {
    let mut p = PeerState::new();
    let big = vec![0u8; PAYLOAD_LEN + 1];
    assert!(p.prepare_send(&big, 0).is_err());
    assert_eq!(p.seq(), 0);
}

#[test]
fn received_packets_are_acknowledged() {
    let mut sender = PeerState::new();
    let mut receiver = PeerState::new();
    for t in 0..3u64 {
        let m = sender.prepare_send(b"tick", t).unwrap();
        receiver.receive(&m, t).unwrap();
    }
    assert_eq!(receiver.remote_seq(), 2);
    let reply = receiver.prepare_send(b"ack", 10).unwrap();
    assert_eq!(reply.ack, 2);
    assert_eq!(reply.ack_bits & 0b111, 0b111);
    sender.receive(&reply, 20).unwrap();
    assert!(sender.rtt_entries() >= 1);
}

#[test]
fn client_keeps_reading_until_nothing_waits() {
    assert_eq!(drain_next(false, RecvAttempt::Packet), DrainNext::KeepReading);
    assert_eq!(drain_next(false, RecvAttempt::TimedOut), DrainNext::KeepReading);
    assert_eq!(drain_next(true, RecvAttempt::TimedOut), DrainNext::UseLatest);
    assert_eq!(drain_next(true, RecvAttempt::Failed), DrainNext::GiveUp);
}

#[test]
fn updates_apply_by_index_and_skip_unknown_ones() {
    let mut things = vec![
        ThingKind::GraphicsObject { phys: 0, model: 0 },
        ThingKind::GraphicsObject { phys: 1, model: 0 },
    ];
    let mut places = vec![Placement::default()];
    let updates = [
        WorldUpdate {
            id: 1,
            thing: WireThing::new(0, 7, 3),
            position: WirePosition(1, 2, 3),
            y_rotation: 4,
        },
        WorldUpdate {
            id: 0,
            thing: WireThing::new(1, 5, 9),
            position: WirePosition(5, 6, 7),
            y_rotation: 8,
        },
        WorldUpdate {
            id: 9,
            thing: WireThing::new(1, 1, 1),
            position: WirePosition(0, 0, 0),
            y_rotation: 0,
        },
    ];
    apply_world_updates(&mut things, &mut places, &updates);
    assert_eq!(
        things,
        vec![
            ThingKind::GraphicsObject { phys: 9, model: 5 },
            ThingKind::Camera { phys: 3, camera: 7 },
        ]
    );
    assert_eq!(
        places,
        vec![Placement { position: WirePosition(5, 6, 7), y_rotation: 8 }]
    );
}
