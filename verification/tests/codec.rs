use base_station_link::base_station_client::serial::{Decoded, ReadStep, Serial, SERIAL_BUF_LEN};
use base_station_link::glue::{
    to_packet, AsBytes, HG_Pose, Radio_Command, Radio_MessageWrapper, Radio_Message_Rust,
    FRAME_START, LEN_MESSAGE_WRAPPER,
};

fn sample_command() -> Radio_Command {
    Radio_Command {
        speed: HG_Pose { x: 0.0f32.to_bits(), y: 0.0f32.to_bits(), z: 0.0f32.to_bits() },
        dribbler_speed: 5.0f32.to_bits(),
        robot_command: b'T',
        _pad: [0, 0, 0],
        kick_time: 2.0f32.to_bits(),
        fan_speed: 3.141f32.to_bits(),
    }
}

fn buffer_with(bytes: &[u8]) -> Serial {
    let mut serial = Serial::new();
    assert_eq!(serial.read(ReadStep::Data(bytes.to_vec())), Ok(()));
    serial
}

#[test]
fn test_to_packet() {
    let mw = Radio_MessageWrapper {
        id: 42,
        _pad: [0, 0, 0],
        msg: Radio_Message_Rust::Command(sample_command()).wrap(),
    };
    let packet = to_packet(mw);
    println!("packet = {packet:02X?}");
    assert_eq!(packet.len(), LEN_MESSAGE_WRAPPER + 3);
    assert_eq!(packet[0], 0xA5);
    assert_eq!(packet[1], 36);
    assert_eq!(packet[2], 42);
    assert_eq!(&packet[2..38], mw.as_bytes().as_slice());
}

#[test]
fn crc_of_nothing_is_zero() {
    let packet = to_packet(Vec::<u8>::new());
    assert_eq!(packet, vec![0xA5, 0x00, 0x00]);
}

#[test]
fn crc_of_check_string_is_f4() {
    let packet = to_packet(b"123456789".to_vec());
    assert_eq!(packet.len(), 12);
    assert_eq!(packet[0], FRAME_START);
    assert_eq!(packet[1], 9);
    assert_eq!(&packet[2..11], b"123456789");
    assert_eq!(packet[11], 0xF4);
}

#[test]
fn crc_of_single_bytes() {
    assert_eq!(to_packet(vec![0x00u8]), vec![0xA5, 1, 0x00, 0x00]);
    assert_eq!(to_packet(vec![0x01u8]), vec![0xA5, 1, 0x01, 0x07]);
    assert_eq!(to_packet(vec![0x80u8]), vec![0xA5, 1, 0x80, 0x89]);
    assert_eq!(to_packet(vec![0xFFu8]), vec![0xA5, 1, 0xFF, 0xF3]);
}

#[test]
fn frame_round_trip_for_every_allowed_length() {
    for len in 0..=50usize {
        let payload: Vec<u8> = (0..len).map(|i| (i * 7 + 3) as u8).collect();
        let mut serial = buffer_with(&to_packet(payload.clone()));
        assert_eq!(serial.decode(), Decoded::Frame(payload));
        assert_eq!(serial.decode(), Decoded::NeedMore);
        assert_eq!(serial.free_space(), SERIAL_BUF_LEN - 1);
    }
}

#[test]
fn frame_of_51_bytes_is_too_large() {
    let payload = vec![1u8; 51];
    let packet = to_packet(payload);
    let mut serial = buffer_with(&packet);
    assert_eq!(serial.decode(), Decoded::TooLarge);
    // only the start byte was given up
    assert_eq!(serial.free_space(), SERIAL_BUF_LEN - 1 - (packet.len() - 1));
}

#[test]
fn too_large_is_seen_before_the_frame_is_complete() {
    let mut serial = buffer_with(&[0xA5, 200, 1, 2]);
    assert_eq!(serial.decode(), Decoded::TooLarge);
    assert_eq!(serial.free_space(), SERIAL_BUF_LEN - 1 - 3);
}

#[test]
fn wrapper_frame_round_trip() {
    let mw = Radio_MessageWrapper {
        id: 7,
        _pad: [0, 0, 0],
        msg: Radio_Message_Rust::Command(sample_command()).wrap(),
    };
    let mut serial = buffer_with(&to_packet(mw));
    let payload = serial.read_packet().expect("a frame");
    assert_eq!(payload, mw.as_bytes());
    assert_eq!(Radio_MessageWrapper::from_bytes(payload), Some(mw));
}

#[test]
fn buffer_without_start_byte_is_drained() {
    let noise: Vec<u8> = (0..=255u8).filter(|b| *b != 0xA5).collect();
    let mut serial = buffer_with(&noise);
    assert_eq!(serial.free_space(), SERIAL_BUF_LEN - 1 - 255);
    assert_eq!(serial.decode(), Decoded::NeedMore);
    assert_eq!(serial.free_space(), SERIAL_BUF_LEN - 1);
}

#[test]
fn empty_buffer_needs_more() {
    let mut serial = Serial::new();
    assert_eq!(serial.decode(), Decoded::NeedMore);
    assert_eq!(serial.read_packet(), None);
}

#[test]
fn every_changed_payload_byte_is_rejected() {
    let payload: Vec<u8> = (0..36u8).map(|i| i.wrapping_mul(11).wrapping_add(5)).collect();
    let packet = to_packet(payload.clone());
    for at in 0..payload.len() {
        for flip in [0x01u8, 0x80, 0xFF, 0x5A] {
            let mut bad = packet.clone();
            bad[2 + at] ^= flip;
            let mut serial = buffer_with(&bad);
            assert_eq!(serial.decode(), Decoded::CrcMismatch);
            assert_eq!(serial.free_space(), SERIAL_BUF_LEN - 1 - (bad.len() - 1));
        }
    }
}

#[test]
fn changed_checksum_is_rejected() {
    let mut packet = to_packet(vec![1u8, 2, 3]);
    let last = packet.len() - 1;
    packet[last] ^= 0x10;
    let mut serial = buffer_with(&packet);
    assert_eq!(serial.read_packet(), None);
}

#[test]
fn incomplete_frame_waits_and_keeps_the_buffer() {
    let packet = to_packet(vec![9u8, 8, 7, 6]);
    let mut serial = Serial::new();
    for (i, byte) in packet.iter().enumerate() {
        assert_eq!(serial.decode(), Decoded::NeedMore);
        if i > 0 {
            assert_eq!(serial.free_space(), SERIAL_BUF_LEN - 1 - i);
        }
        assert_eq!(serial.read(ReadStep::Data(vec![*byte])), Ok(()));
    }
    assert_eq!(serial.decode(), Decoded::Frame(vec![9, 8, 7, 6]));
}

#[test]
fn noise_before_a_frame_leaves_with_it() {
    let mut bytes = vec![0x00u8, 0x11, 0x22];
    bytes.extend(to_packet(vec![0x42u8]));
    bytes.extend([0x77u8, 0x78]);
    let mut serial = buffer_with(&bytes);
    assert_eq!(serial.decode(), Decoded::Frame(vec![0x42]));
    assert_eq!(serial.free_space(), SERIAL_BUF_LEN - 1 - 2);
    assert_eq!(serial.decode(), Decoded::NeedMore);
    assert_eq!(serial.free_space(), SERIAL_BUF_LEN - 1);
}

#[test]
fn two_frames_come_out_in_order() {
    let mut bytes = to_packet(vec![1u8, 2]);
    bytes.extend(to_packet(vec![3u8]));
    let mut serial = buffer_with(&bytes);
    assert_eq!(serial.read_packet(), Some(vec![1, 2]));
    assert_eq!(serial.read_packet(), Some(vec![3]));
    assert_eq!(serial.read_packet(), None);
}

#[test]
fn frame_is_found_again_after_a_false_start() {
    // a start byte whose frame fails, followed by a good frame
    let mut bytes = vec![0xA5u8, 1, 0x10, 0x00];
    bytes.extend(to_packet(vec![0x33u8, 0x44]));
    let mut serial = buffer_with(&bytes);
    assert_eq!(serial.decode(), Decoded::CrcMismatch);
    assert_eq!(serial.decode(), Decoded::Frame(vec![0x33, 0x44]));
}

#[test]
fn payload_may_hold_the_start_byte() {
    let payload = vec![0xA5u8, 0xA5, 0x00, 0xA5];
    let mut serial = buffer_with(&to_packet(payload.clone()));
    assert_eq!(serial.decode(), Decoded::Frame(payload));
}

#[test]
fn read_steps() {
    let mut serial = Serial::new();
    assert_eq!(serial.read(ReadStep::Idle), Ok(()));
    assert_eq!(serial.read(ReadStep::TimedOut), Ok(()));
    assert_eq!(serial.free_space(), SERIAL_BUF_LEN - 1);
    assert_eq!(serial.read(ReadStep::Data(vec![1, 2, 3])), Ok(()));
    assert_eq!(serial.free_space(), SERIAL_BUF_LEN - 4);
    assert_eq!(serial.read(ReadStep::Failed), Err(()));
    assert_eq!(serial.free_space(), SERIAL_BUF_LEN - 4);
}

#[test]
fn outbound_frames() {
    let command = sample_command();
    let by_command = Serial::send_command(3, command);
    let by_message = Serial::send_message(3, Radio_Message_Rust::Command(command));
    assert_eq!(by_command, by_message);
    assert_eq!(by_command.len(), 39);
    assert_eq!(by_command[0], 0xA5);
    assert_eq!(by_command[1], 36);
    assert_eq!(by_command[2], 3);
    assert_eq!(&by_command[3..6], &[0, 0, 0]);
    assert_eq!(by_command[6], 1);
    assert_eq!(&by_command[10..38], command.as_bytes().as_slice());
    let mut serial = buffer_with(&by_command);
    let payload = serial.read_packet().expect("the frame checks");
    let wrapper = Radio_MessageWrapper::from_bytes(payload).expect("a wrapper");
    assert_eq!(wrapper.id, 3);
    assert_eq!(Radio_Message_Rust::unwrap(wrapper.msg), Radio_Message_Rust::Command(command));
}
