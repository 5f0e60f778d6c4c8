use base_station_link::base_station_client::basestation;
use base_station_link::base_station_client::basestation::{
    classify, BaseStation, DebugEntry, DebugLine, Monitor, Pass, Routed,
    COMMANDS_PER_PASS, DEBUG_SCROLLBACK_LIMIT, LOCK_TIMEOUT_MILLIS, MESSAGES_PER_PASS,
    PASS_MILLIS,
};
use base_station_link::base_station_client::robot::Robot;
use base_station_link::base_station_client::serial::{
    PortInfo, PortKind, ReadStep, Serial, BAUD_RATE, READ_TIMEOUT_MS, SERIAL_BUF_LEN,
};
use base_station_link::base_station_client::utils::Stamped;
use base_station_link::glue::{
    to_packet, AsBytes, Base_Information, HG_ConfigOperation, HG_Pose, HG_Status, HG_Version,
    HG_VariableType_VOID, HG_Variable_NONE, HG_Variable_RADIO_CHANNEL, Radio_BaseStation_ID,
    Radio_Broadcast_ID, Radio_Command, Radio_ImuReadings, Radio_MessageWrapper,
    Radio_Message_Rust, Radio_MultiConfigMessage, Radio_OdometryReading,
    Radio_OverrideOdometry, Radio_PrimaryStatusHF, Radio_PrimaryStatusLF, MAX_NUM_ROBOTS,
};

fn command() -> Radio_Command {
    Radio_Command {
        speed: HG_Pose { x: 0, y: 0, z: 0 },
        dribbler_speed: 2.0f32.to_bits(),
        robot_command: 0,
        _pad: [0, 0, 0],
        kick_time: 1.0f32.to_bits(),
        fan_speed: 2.0f32.to_bits(),
    }
}

fn status_hf() -> Radio_PrimaryStatusHF {
    Radio_PrimaryStatusHF {
        _pad0: [0; 4],
        motor_speeds: [1, 2, 3, 4, 5],
        breakbeam_ball_detected: false,
        breakbeam_sensor_ok: true,
        _pad1: [0; 2],
    }
}

fn status_lf() -> Radio_PrimaryStatusLF {
    Radio_PrimaryStatusLF {
        primary_status: HG_Status::OK,
        kicker_status: HG_Status::OK,
        fan_status: HG_Status::OK,
        imu_status: HG_Status::OK,
        power_board_status: HG_Status::OK,
        motor_status: [HG_Status::OK; 5],
        motor_driver_temps: [1, 2, 3, 4, 5],
        pack_voltages: [6, 7],
        cap_voltage: 8,
    }
}

fn imu(seed: u32) -> Radio_ImuReadings {
    Radio_ImuReadings {
        ang_x: seed,
        ang_y: seed + 1,
        ang_z: seed + 2,
        ang_wx: seed + 3,
        ang_wy: seed + 4,
        ang_wz: seed + 5,
    }
}

fn base_info() -> Base_Information {
    Base_Information {
        version: HG_Version { major: 2, minor: 3, patch: 4, protocols_major: 1, protocols_minor: 0 },
    }
}

fn wrapper_bytes(id: u8, msg: Radio_Message_Rust) -> Vec<u8> {
    Radio_MessageWrapper { id, _pad: [0, 0, 0], msg: msg.wrap() }.as_bytes()
}

fn wrapper_frame(id: u8, msg: Radio_Message_Rust) -> Vec<u8> {
    to_packet(wrapper_bytes(id, msg))
}

fn untouched(robot: &Robot) -> bool {
    robot.status_hf().is_none() && robot.status_lf().is_none() && robot.imu_reading().is_none()
}

fn feed(
    station: &mut BaseStation,
    debug: &mut basestation::Debug,
    bytes: Vec<u8>,
) -> Result<(bool, bool), ()> {
    station.read_and_parse(ReadStep::Data(bytes), Some(debug))
}

#[test]
fn empty_buffer_updates_nothing() {
    let mut station = BaseStation::new();
    let mut debug = basestation::Debug::new();
    assert_eq!(station.read_and_parse(ReadStep::Idle, Some(&mut debug)), Ok((false, false)));
    assert_eq!(station.read_and_parse(ReadStep::TimedOut, Some(&mut debug)), Ok((false, false)));
    assert_eq!(station.read_and_parse(ReadStep::Idle, None), Ok((false, false)));
    assert!(station.robots.iter().all(untouched));
    assert!(station.base_info.time_since().is_none());
    assert!(debug.incoming_lines.is_empty());
    assert!(!debug.update);
}

#[test]
fn failed_port_is_the_only_error() {
    let mut station = BaseStation::new();
    let mut debug = basestation::Debug::new();
    // a whole frame waits in the buffer, but the port failed: nothing is routed
    assert_eq!(station.serial.read(ReadStep::Data(to_packet(base_info()))), Ok(()));
    assert_eq!(station.read_and_parse(ReadStep::Failed, Some(&mut debug)), Err(()));
    assert!(station.base_info.time_since().is_none());
    assert!(debug.incoming_lines.is_empty());
    assert_eq!(station.read_and_parse(ReadStep::Failed, None), Err(()));
    // the frame is still there for the next pass
    assert_eq!(station.read_and_parse(ReadStep::TimedOut, Some(&mut debug)), Ok((false, true)));
}

#[test]
fn base_information_frame() {
    let mut station = BaseStation::new();
    let mut debug = basestation::Debug::new();
    let mut bytes = vec![0xA5u8, 5];
    bytes.extend(base_info().as_bytes());
    bytes.push(*to_packet(base_info()).last().unwrap());
    assert_eq!(bytes, to_packet(base_info()));
    assert_eq!(feed(&mut station, &mut debug, bytes), Ok((false, true)));
    match station.base_info {
        Stamped::Have(_, info) => assert_eq!(info, base_info()),
        Stamped::NothingYet => panic!("the report was stored"),
    }
    assert!(station.robots.iter().all(untouched));
    assert_eq!(debug.incoming_lines.len(), 1);
    assert_eq!(debug.incoming_lines[0].label, "B");
    assert_eq!(debug.incoming_lines[0].entry, DebugEntry::BaseInformation(base_info()));
    assert_eq!(debug.incoming_lines[0].entry.note(), None);
    assert!(debug.update);
    // the time of the line is that of the wall clock: later than the year 2020
    assert!(debug.incoming_lines[0].time > 1_577_836_800_000);
    assert_eq!(station.serial.free_space(), SERIAL_BUF_LEN - 1);
}

#[test]
fn status_hf_frame_for_robot_3() {
    let mut station = BaseStation::new();
    let mut debug = basestation::Debug::new();
    let frame = wrapper_frame(3, Radio_Message_Rust::PrimaryStatusHF(status_hf()));
    assert_eq!(frame.len(), 39);
    assert_eq!(feed(&mut station, &mut debug, frame), Ok((true, false)));
    assert_eq!(station.robots[3].status_hf(), Some(status_hf()));
    assert!(station.robots[3].status_lf().is_none());
    assert!(station.robots[3].imu_reading().is_none());
    assert!(station.robots[3].is_online());
    for (i, robot) in station.robots.iter().enumerate() {
        if i != 3 {
            assert!(untouched(robot));
        }
    }
    assert!(station.base_info.time_since().is_none());
    assert_eq!(debug.incoming_lines.len(), 1);
    assert_eq!(debug.incoming_lines[0].label, "3");
    assert_eq!(debug.incoming_lines[0].entry, DebugEntry::PrimaryStatusHF(status_hf()));
    assert!(debug.update);
}

#[test]
fn frame_for_robot_20_changes_nothing() {
    let mut station = BaseStation::new();
    let mut debug = basestation::Debug::new();
    for id in [16u8, 20, 100, 254, 255] {
        for msg in [
            Radio_Message_Rust::PrimaryStatusHF(status_hf()),
            Radio_Message_Rust::PrimaryStatusLF(status_lf()),
            Radio_Message_Rust::ImuReadings(imu(1)),
            Radio_Message_Rust::Empty,
        ] {
            assert_eq!(feed(&mut station, &mut debug, wrapper_frame(id, msg)), Ok((false, false)));
        }
    }
    assert!(station.robots.iter().all(untouched));
    assert!(station.base_info.time_since().is_none());
    assert!(debug.incoming_lines.is_empty());
    assert!(!debug.update);
    assert_eq!(station.serial.free_space(), SERIAL_BUF_LEN - 1);
}

#[test]
fn write_return_is_stored_in_the_table() {
    let mut station = BaseStation::new();
    let mut debug = basestation::Debug::new();
    let mcm = Radio_MultiConfigMessage {
        vars: [
            HG_Variable_RADIO_CHANNEL,
            HG_Variable_NONE,
            HG_Variable_NONE,
            HG_Variable_NONE,
            HG_Variable_NONE,
        ],
        operation: HG_ConfigOperation::WRITE_RETURN,
        type_: HG_VariableType_VOID,
        _pad: 0,
        values: [7, 0, 0, 0, 0],
    };
    let frame = wrapper_frame(0, Radio_Message_Rust::MultiConfigMessage(mcm));
    assert_eq!(feed(&mut station, &mut debug, frame), Ok((false, false)));
    match debug.config_variable_returns[0][HG_Variable_RADIO_CHANNEL as usize] {
        Stamped::Have(_, value) => assert_eq!(value, 7),
        Stamped::NothingYet => panic!("the value was stored"),
    }
    for robot in 0..16 {
        for var in 0..256 {
            if (robot, var) != (0, HG_Variable_RADIO_CHANNEL as usize) {
                assert!(debug.config_variable_returns[robot][var].time_since().is_none());
            }
        }
    }
    assert_eq!(debug.incoming_lines.len(), 1);
    assert_eq!(debug.incoming_lines[0].label, "0");
    assert_eq!(debug.incoming_lines[0].entry, DebugEntry::MultiConfigMessage(mcm));
    assert!(debug.update);
    assert!(station.robots.iter().all(untouched));
}

#[test]
fn only_answers_reach_the_table() {
    let mut debug = basestation::Debug::new();
    let slots = Radio_MultiConfigMessage {
        vars: [10, HG_Variable_NONE, 11, 10, 255],
        operation: HG_ConfigOperation::READ_RETURN,
        type_: 3,
        _pad: 0,
        values: [1, 2, 3, 4, 5],
    };
    for operation in
        [HG_ConfigOperation::READ, HG_ConfigOperation::WRITE, HG_ConfigOperation::SET_DEFAULT]
    {
        debug.note_returns(5, Radio_MultiConfigMessage { operation, ..slots });
    }
    assert!(debug.config_variable_returns.iter().flatten().all(|c| c.time_since().is_none()));
    for (robot, operation) in [
        (5u8, HG_ConfigOperation::READ_RETURN),
        (6, HG_ConfigOperation::WRITE_RETURN),
        (15, HG_ConfigOperation::SET_DEFAULT_RETURN),
    ] {
        debug.note_returns(robot, Radio_MultiConfigMessage { operation, ..slots });
        let row = &debug.config_variable_returns[robot as usize];
        // the later slot of variable 10 wins; the empty slot stores nothing
        assert_eq!(row[10].have(|v| v), Some(4));
        assert_eq!(row[11].have(|v| v), Some(3));
        assert_eq!(row[255].have(|v| v), Some(5));
        assert_eq!(row[0].have(|v| v), None);
        assert_eq!(row.iter().filter(|c| c.time_since().is_some()).count(), 3);
    }
    assert_eq!(
        debug.config_variable_returns.iter().flatten().filter(|c| c.time_since().is_some()).count(),
        9
    );
    assert!(debug.incoming_lines.is_empty());
    assert!(!debug.update);
}

#[test]
fn status_lf_and_imu_frames() {
    let mut station = BaseStation::new();
    let mut debug = basestation::Debug::new();
    let mut bytes = wrapper_frame(15, Radio_Message_Rust::PrimaryStatusLF(status_lf()));
    bytes.extend(wrapper_frame(0, Radio_Message_Rust::ImuReadings(imu(10))));
    bytes.extend(wrapper_frame(0, Radio_Message_Rust::ImuReadings(imu(20))));
    assert_eq!(feed(&mut station, &mut debug, bytes), Ok((true, false)));
    assert_eq!(station.robots[15].status_lf(), Some(status_lf()));
    assert_eq!(station.robots[15].primary_status(), Some(HG_Status::OK));
    assert_eq!(station.robots[0].imu_reading(), Some(imu(20)));
    assert!(station.robots[0].status_lf().is_none());
    // newest first
    let labels: Vec<&str> = debug.incoming_lines.iter().map(|l| l.label.as_str()).collect();
    assert_eq!(labels, vec!["0", "0", "15"]);
    assert_eq!(debug.incoming_lines[0].entry, DebugEntry::ImuReadings(imu(20)));
    assert_eq!(debug.incoming_lines[1].entry, DebugEntry::ImuReadings(imu(10)));
    assert_eq!(debug.incoming_lines[2].entry, DebugEntry::PrimaryStatusLF(status_lf()));
    let ring: Vec<Radio_ImuReadings> = debug.imu_values[0].iter().map(|(_, r)| *r).collect();
    assert_eq!(ring, vec![imu(20), imu(10)]);
    assert!(debug.imu_values[15].is_empty());
    assert!(debug.odo_values.iter().all(|r| r.is_empty()));
}

#[test]
fn odometry_is_recorded_but_not_stored() {
    let mut station = BaseStation::new();
    let mut debug = basestation::Debug::new();
    let reading = Radio_OdometryReading { raw: [7; 28] };
    let order = Radio_OverrideOdometry { raw: [9; 28] };
    let mut bytes = wrapper_frame(4, Radio_Message_Rust::OdometryReading(reading));
    bytes.extend(wrapper_frame(4, Radio_Message_Rust::OverrideOdometry(order)));
    assert_eq!(feed(&mut station, &mut debug, bytes), Ok((false, false)));
    assert!(station.robots.iter().all(untouched));
    assert_eq!(debug.incoming_lines.len(), 2);
    assert_eq!(debug.incoming_lines[0].label, "4");
    assert_eq!(debug.incoming_lines[0].entry, DebugEntry::OverrideOdometry(order));
    assert_eq!(debug.incoming_lines[1].entry, DebugEntry::OdometryReading(reading));
    assert_eq!(debug.odo_values[4].len(), 1);
    assert_eq!(debug.odo_values[4][0].1, reading);
    assert!(debug.update);
}

#[test]
fn what_is_not_valid_leaves_the_robot_as_it_was() {
    let mut station = BaseStation::new();
    let mut debug = basestation::Debug::new();
    let good = wrapper_frame(2, Radio_Message_Rust::PrimaryStatusHF(status_hf()));
    assert_eq!(feed(&mut station, &mut debug, good), Ok((true, false)));
    let mut other = status_hf();
    other.motor_speeds = [9; 5];

    // padding inside the status
    for at in [8usize, 9, 10, 11, 34, 35] {
        let mut bytes = wrapper_bytes(2, Radio_Message_Rust::PrimaryStatusHF(other));
        bytes[at] = 0x01;
        assert_eq!(feed(&mut station, &mut debug, to_packet(bytes)), Ok((false, false)));
        assert_eq!(station.robots[2].status_hf(), Some(status_hf()));
    }
    // padding of the wrapper and of the message
    for at in [1usize, 2, 3, 5, 6, 7] {
        let mut bytes = wrapper_bytes(2, Radio_Message_Rust::PrimaryStatusHF(other));
        bytes[at] = 0x01;
        assert_eq!(feed(&mut station, &mut debug, to_packet(bytes)), Ok((false, false)));
        assert_eq!(station.robots[2].status_hf(), Some(status_hf()));
    }
    // a status outside the enumeration
    for at in 8..18usize {
        let mut bytes = wrapper_bytes(2, Radio_Message_Rust::PrimaryStatusLF(status_lf()));
        bytes[at] = 0x0F;
        assert_eq!(feed(&mut station, &mut debug, to_packet(bytes)), Ok((false, false)));
        assert!(station.robots[2].status_lf().is_none());
    }
    // a tag outside the schema
    let mut bytes = wrapper_bytes(2, Radio_Message_Rust::PrimaryStatusLF(status_lf()));
    bytes[4] = 0x33;
    assert_eq!(feed(&mut station, &mut debug, to_packet(bytes)), Ok((false, false)));
    assert!(station.robots[2].status_lf().is_none());

    // each of them left the same line
    assert_eq!(debug.incoming_lines.len(), 1 + 6 + 6 + 10 + 1);
    for line in debug.incoming_lines.iter().take(23) {
        assert_eq!(line.label, "2");
        assert_eq!(line.entry, DebugEntry::UnknownMessageType);
        assert_eq!(line.entry.note(), Some("Unknown Message Type".to_string()));
    }
}

#[test]
fn command_and_empty_message_are_unknown_to_the_host() {
    let mut station = BaseStation::new();
    let mut debug = basestation::Debug::new();
    let mut bytes = wrapper_frame(12, Radio_Message_Rust::Command(command()));
    bytes.extend(wrapper_frame(13, Radio_Message_Rust::Empty));
    assert_eq!(feed(&mut station, &mut debug, bytes), Ok((false, false)));
    assert!(station.robots.iter().all(untouched));
    assert_eq!(debug.incoming_lines.len(), 2);
    assert_eq!(debug.incoming_lines[0].label, "13");
    assert_eq!(debug.incoming_lines[1].label, "12");
    assert_eq!(debug.incoming_lines[0].entry, DebugEntry::UnknownMessageType);
    assert_eq!(debug.incoming_lines[1].entry, DebugEntry::UnknownMessageType);
    assert!(!debug.update);
}

#[test]
fn payload_of_another_size_is_unknown_data() {
    let mut station = BaseStation::new();
    let mut debug = basestation::Debug::new();
    let mut bytes = to_packet(vec![0xDEu8, 0xAD, 0x00, 0x0F]);
    bytes.extend(to_packet(Vec::<u8>::new()));
    assert_eq!(feed(&mut station, &mut debug, bytes), Ok((false, false)));
    assert_eq!(debug.incoming_lines.len(), 2);
    assert_eq!(debug.incoming_lines[1].label, "?");
    assert_eq!(debug.incoming_lines[1].entry, DebugEntry::UnknownData(vec![0xDE, 0xAD, 0x00, 0x0F]));
    assert_eq!(debug.incoming_lines[1].entry.note(), Some("Unknown Data: DEAD000F".to_string()));
    assert_eq!(debug.incoming_lines[0].entry, DebugEntry::UnknownData(Vec::new()));
    assert_eq!(debug.incoming_lines[0].entry.note(), Some("Unknown Data: ".to_string()));
    assert!(!debug.update);
    assert!(station.robots.iter().all(untouched));
}

#[test]
fn rejected_frames_are_passed_over() {
    let mut station = BaseStation::new();
    let mut debug = basestation::Debug::new();
    let mut bad = wrapper_frame(1, Radio_Message_Rust::PrimaryStatusHF(status_hf()));
    bad[20] ^= 0xFF;
    let mut bytes = vec![0x01u8, 0x02];
    bytes.extend(bad);
    bytes.extend([0xA5u8, 51]);
    bytes.extend(wrapper_frame(9, Radio_Message_Rust::PrimaryStatusLF(status_lf())));
    bytes.extend(to_packet(base_info()));
    bytes.extend([0xA5u8, 36, 1, 2]);
    assert_eq!(feed(&mut station, &mut debug, bytes), Ok((true, true)));
    assert!(untouched(&station.robots[1]));
    assert_eq!(station.robots[9].status_lf(), Some(status_lf()));
    assert!(station.base_info.time_since().is_some());
    // the start of a frame waits for its rest
    assert_eq!(station.serial.free_space(), SERIAL_BUF_LEN - 1 - 4);
}

#[test]
fn frame_that_arrives_in_pieces() {
    let mut station = BaseStation::new();
    let mut debug = basestation::Debug::new();
    let frame = wrapper_frame(6, Radio_Message_Rust::ImuReadings(imu(3)));
    let (head, tail) = frame.split_at(17);
    assert_eq!(feed(&mut station, &mut debug, head.to_vec()), Ok((false, false)));
    assert!(untouched(&station.robots[6]));
    assert_eq!(station.read_and_parse(ReadStep::Idle, Some(&mut debug)), Ok((false, false)));
    assert_eq!(feed(&mut station, &mut debug, tail.to_vec()), Ok((true, false)));
    assert_eq!(station.robots[6].imu_reading(), Some(imu(3)));
}

#[test]
fn trail_keeps_the_newest_500() {
    let mut station = BaseStation::new();
    let mut debug = basestation::Debug::new();
    assert_eq!(DEBUG_SCROLLBACK_LIMIT, 500);
    for i in 0..520u32 {
        let frame = wrapper_frame((i % 16) as u8, Radio_Message_Rust::ImuReadings(imu(i)));
        assert_eq!(feed(&mut station, &mut debug, frame), Ok((true, false)));
    }
    assert_eq!(debug.incoming_lines.len(), 500);
    assert_eq!(debug.incoming_lines[0].entry, DebugEntry::ImuReadings(imu(519)));
    assert_eq!(debug.incoming_lines[499].entry, DebugEntry::ImuReadings(imu(20)));
    assert_eq!(debug.incoming_lines[0].label, "7");
    // unknown data is cut off as well
    for _ in 0..10 {
        assert_eq!(feed(&mut station, &mut debug, to_packet(vec![1u8])), Ok((false, false)));
    }
    assert_eq!(debug.incoming_lines.len(), 500);

    let mut debug = basestation::Debug::new();
    for i in 0..510u32 {
        debug.record(Routed::Robot(5, Radio_Message_Rust::ImuReadings(imu(i))), Vec::new(), i as i64);
        debug.record(
            Routed::Robot(5, Radio_Message_Rust::OdometryReading(Radio_OdometryReading {
                raw: [i as u8; 28],
            })),
            Vec::new(),
            -(i as i64),
        );
    }
    assert_eq!(debug.imu_values[5].len(), 500);
    assert_eq!(debug.imu_values[5][0], (509, imu(509)));
    assert_eq!(debug.imu_values[5][499], (10, imu(10)));
    assert_eq!(debug.odo_values[5].len(), 500);
    assert_eq!(debug.odo_values[5][0].0, -509);
    assert_eq!(debug.incoming_lines.len(), 500);
    assert_eq!(debug.incoming_lines[0].time, -509);
    assert_eq!(debug.incoming_lines[1].time, 509);
}

#[test]
fn read_and_parse_without_a_trail() {
    let mut station = BaseStation::new();
    let mut bytes = wrapper_frame(8, Radio_Message_Rust::PrimaryStatusHF(status_hf()));
    bytes.extend(to_packet(base_info()));
    assert_eq!(station.read_and_parse(ReadStep::Data(bytes), None), Ok((true, true)));
    assert_eq!(station.robots[8].status_hf(), Some(status_hf()));
    assert!(station.base_info.time_since().is_some());
}

#[test]
fn classify_by_size_and_identifier() {
    assert_eq!(classify(&base_info().as_bytes()), Routed::BaseInformation(base_info()));
    let msg = Radio_Message_Rust::PrimaryStatusLF(status_lf());
    assert_eq!(classify(&wrapper_bytes(15, msg)), Routed::Robot(15, msg));
    assert_eq!(classify(&wrapper_bytes(16, msg)), Routed::Elsewhere);
    assert_eq!(classify(&wrapper_bytes(Radio_Broadcast_ID, msg)), Routed::Elsewhere);
    let mut bad = wrapper_bytes(4, msg);
    bad[4] = 200;
    assert_eq!(classify(&bad), Routed::Robot(4, Radio_Message_Rust::Empty));
    bad[0] = 16;
    assert_eq!(classify(&bad), Routed::Elsewhere);
    assert_eq!(classify(&[]), Routed::Unknown);
    assert_eq!(classify(&[0u8; 35]), Routed::Unknown);
    assert_eq!(classify(&[0u8; 37]), Routed::Unknown);
    assert_eq!(classify(&[0u8; 50]), Routed::Unknown);
    assert_eq!(classify(&[0u8; 36]), Routed::Robot(0, Radio_Message_Rust::Empty));
}

#[test]
fn apply_touches_one_cell() {
    let mut station = BaseStation::new();
    assert_eq!(station.apply(Routed::Elsewhere), (false, false));
    assert_eq!(station.apply(Routed::Unknown), (false, false));
    assert_eq!(station.apply(Routed::Robot(1, Radio_Message_Rust::Empty)), (false, false));
    assert_eq!(station.apply(Routed::Robot(1, Radio_Message_Rust::Command(command()))), (false, false));
    assert!(station.robots.iter().all(untouched));
    assert_eq!(
        station.apply(Routed::Robot(1, Radio_Message_Rust::PrimaryStatusLF(status_lf()))),
        (true, false)
    );
    assert_eq!(
        station.apply(Routed::Robot(1, Radio_Message_Rust::PrimaryStatusHF(status_hf()))),
        (true, false)
    );
    assert_eq!(
        station.apply(Routed::Robot(1, Radio_Message_Rust::ImuReadings(imu(0)))),
        (true, false)
    );
    assert_eq!(station.apply(Routed::BaseInformation(base_info())), (false, true));
    assert_eq!(station.robots[1].status_lf(), Some(status_lf()));
    assert_eq!(station.robots[1].status_hf(), Some(status_hf()));
    assert_eq!(station.robots[1].imu_reading(), Some(imu(0)));
    assert!(untouched(&station.robots[0]));
    assert!(untouched(&station.robots[2]));
    assert!(station.connection_time() < std::time::Duration::from_secs(5));
}

#[test]
fn broadcast_goes_out_as_one_frame() {
    let monitor = Monitor::start();
    let item = monitor.send_broadcast(command());
    assert_eq!(item, (Radio_Broadcast_ID, command()));
    let mut station = BaseStation::new();
    let mut debug = basestation::Debug::new();
    let Pass { publish_robots, publish_base_info, disconnect, frames } =
        station.pass(ReadStep::Idle, vec![item], Vec::new(), Some(&mut debug));
    assert!(!publish_robots && !publish_base_info && !disconnect);
    assert_eq!(frames.len(), 1);
    let frame = &frames[0];
    assert_eq!(frame.len(), 36 + 3);
    assert_eq!(frame[0], 0xA5);
    // the checksum checks: the codec takes the frame
    let mut serial = Serial::new();
    assert_eq!(serial.read(ReadStep::Data(frame.clone())), Ok(()));
    let payload = serial.read_packet().expect("a good frame");
    let wrapper = Radio_MessageWrapper::from_bytes(payload).expect("a wrapper");
    assert_eq!(wrapper.id, Radio_Broadcast_ID);
    assert_eq!(Radio_Message_Rust::unwrap(wrapper.msg), Radio_Message_Rust::Command(command()));
}

#[test]
fn pass_routes_and_frames() {
    assert_eq!(COMMANDS_PER_PASS, 2);
    assert_eq!(MESSAGES_PER_PASS, 1);
    assert_eq!(PASS_MILLIS, 15);
    assert_eq!(LOCK_TIMEOUT_MILLIS, 40);
    let monitor = Monitor::start();
    let mut station = BaseStation::new();
    let mut debug = basestation::Debug::new();
    let mut other = command();
    other.robot_command = 9;
    let commands = vec![monitor.send_single(1, command()), monitor.send_single(2, other)];
    let messages = vec![monitor.set_channel(7)];
    let inbound = wrapper_frame(3, Radio_Message_Rust::PrimaryStatusHF(status_hf()));
    let plan = station.pass(ReadStep::Data(inbound), commands, messages, Some(&mut debug));
    assert!(plan.publish_robots);
    assert!(!plan.publish_base_info);
    assert!(!plan.disconnect);
    assert_eq!(
        plan.frames,
        vec![
            Serial::send_command(1, command()),
            Serial::send_command(2, other),
            Serial::send_mcm(
                Radio_BaseStation_ID,
                Radio_MultiConfigMessage::write().add(HG_Variable_RADIO_CHANNEL, 7)
            ),
        ]
    );
    assert_eq!(station.robots[3].status_hf(), Some(status_hf()));

    let plan = station.pass(
        ReadStep::Failed,
        vec![monitor.send_single(1, command())],
        Vec::new(),
        Some(&mut debug),
    );
    assert!(plan.disconnect);
    assert!(!plan.publish_robots && !plan.publish_base_info);
    assert_eq!(plan.frames, vec![Serial::send_command(1, command())]);

    let plan = station.pass(ReadStep::Data(to_packet(base_info())), Vec::new(), Vec::new(), None);
    assert!(plan.publish_base_info && !plan.publish_robots && !plan.disconnect);
    assert!(plan.frames.is_empty());
}

#[test]
fn monitor_queues_the_commands_that_are_present() {
    let monitor = Monitor::start();
    let mut commands = [None; MAX_NUM_ROBOTS];
    assert_eq!(monitor.send(commands), Vec::new());
    let mut second = command();
    second.robot_command = 1;
    let mut third = command();
    third.robot_command = 2;
    commands[15] = Some(third);
    commands[0] = Some(command());
    commands[7] = Some(second);
    assert_eq!(monitor.send(commands), vec![(0, command()), (7, second), (15, third)]);
    let all = [Some(command()); MAX_NUM_ROBOTS];
    let queue = monitor.send(all);
    assert_eq!(queue.len(), 16);
    for (i, item) in queue.iter().enumerate() {
        assert_eq!(*item, (i as u8, command()));
    }
}

#[test]
fn monitor_messages() {
    let monitor = Monitor::start();
    let mcm = Radio_MultiConfigMessage::read().add(3, 0);
    assert_eq!(monitor.send_mcm(4, mcm), (4, Radio_Message_Rust::MultiConfigMessage(mcm)));
    let order = Radio_OverrideOdometry { raw: [1; 28] };
    assert_eq!(monitor.send_over_odo(9, order), (9, Radio_Message_Rust::OverrideOdometry(order)));
    let (id, msg) = monitor.set_channel(200);
    assert_eq!(id, Radio_BaseStation_ID);
    assert_eq!(
        msg,
        Radio_Message_Rust::MultiConfigMessage(Radio_MultiConfigMessage {
            operation: HG_ConfigOperation::WRITE,
            vars: [HG_Variable_RADIO_CHANNEL, 0, 0, 0, 0],
            type_: HG_VariableType_VOID,
            _pad: 0,
            values: [200, 0, 0, 0, 0],
        })
    );
    assert!(id as usize >= MAX_NUM_ROBOTS);
    assert!(Radio_Broadcast_ID as usize >= MAX_NUM_ROBOTS);
    assert_ne!(Radio_Broadcast_ID, Radio_BaseStation_ID);
}

#[test]
fn monitor_remembers_the_latest_values() {
    let mut monitor = Monitor::start();
    assert!(!monitor.is_connected(None));
    assert!(monitor.is_connected(Some(true)));
    assert!(monitor.is_connected(None));
    assert!(!monitor.is_connected(Some(false)));
    assert!(!monitor.is_connected(None));
    assert!(!monitor.is_connected_to_mirror());
    assert!(monitor.base_connection_duration().is_none());

    assert!(monitor.get_base_info(None).time_since().is_none());
    let fresh = Stamped::make_now(base_info());
    assert_eq!(monitor.get_base_info(Some(fresh)).have(|i| i), Some(base_info()));
    assert_eq!(monitor.get_base_info(None).have(|i| i), Some(base_info()));

    let robots = monitor.get_robots(None).expect("always some");
    assert!(robots.iter().all(untouched));
    let mut slots = [Robot::default(); 16];
    slots[4].update_status_lf(status_lf());
    let robots = monitor.get_robots(Some(slots)).expect("always some");
    assert_eq!(robots[4].status_lf(), Some(status_lf()));
    let robots = monitor.get_robots(None).expect("always some");
    assert_eq!(robots[4].status_lf(), Some(status_lf()));
    assert!(untouched(&robots[5]));
}

#[test]
fn serial() {
    let ports = vec![
        PortInfo { port_name: "/dev/ttyACM1".to_string(), kind: PortKind::Usb { vid: 0x0483, pid: 0x5740 } },
        PortInfo { port_name: "/dev/ttyUSB0".to_string(), kind: PortKind::Usb { vid: 0x0483, pid: 0x5741 } },
        PortInfo { port_name: "/dev/ttyS0".to_string(), kind: PortKind::Unknown },
        PortInfo { port_name: "/dev/ttyUSB1".to_string(), kind: PortKind::Usb { vid: 0x0484, pid: 0x5740 } },
        PortInfo { port_name: "/dev/rfcomm0".to_string(), kind: PortKind::Bluetooth },
        PortInfo { port_name: "/dev/ttyACM0".to_string(), kind: PortKind::Usb { vid: 0x0483, pid: 0x5740 } },
        PortInfo { port_name: "/dev/ttyPCI".to_string(), kind: PortKind::Pci },
    ];
    println!("{:?}", Serial::list_ports(&ports, true));
    println!("{:?}", Serial::list_ports(&ports, false));
    assert_eq!(Serial::list_ports(&ports, true), vec!["/dev/ttyACM1", "/dev/ttyACM0"]);
    assert_eq!(
        Serial::list_ports(&ports, false),
        vec![
            "/dev/ttyACM1",
            "/dev/ttyUSB0",
            "/dev/ttyS0",
            "/dev/ttyUSB1",
            "/dev/rfcomm0",
            "/dev/ttyACM0",
            "/dev/ttyPCI"
        ]
    );
    assert_eq!(Serial::list_unknown_ports(&ports), vec!["/dev/ttyS0"]);
    assert!(Serial::list_ports(&Vec::new(), false).is_empty());
    assert!(Serial::is_basestation(&ports[0]));
    assert!(!Serial::is_basestation(&ports[1]));
    assert!(!Serial::is_basestation(&ports[2]));
    assert!(!Serial::is_basestation(&ports[3]));
    assert!(Serial::is_virtual(&ports[2]));
    assert!(!Serial::is_virtual(&ports[0]));
    assert!(!Serial::is_virtual(&ports[4]));
    assert_eq!(BAUD_RATE, 115200);
    assert_eq!(READ_TIMEOUT_MS, 10);
}

#[test]
fn mirror_gets_bytes_only_while_carrier_detect_is_high() {
    assert!(!Serial::check_carrier_detect(false, None));
    assert!(!Serial::check_carrier_detect(false, Some(true)));
    assert!(!Serial::check_carrier_detect(false, Some(false)));
    assert!(Serial::check_carrier_detect(true, None));
    assert!(Serial::check_carrier_detect(true, Some(true)));
    assert!(!Serial::check_carrier_detect(true, Some(false)));
}

#[test]
fn buffer_space() {
    let mut serial = Serial::new();
    assert_eq!(SERIAL_BUF_LEN, 100000);
    assert_eq!(serial.free_space(), 99999);
    // noise that holds a start byte stays until its frame is complete or fails
    let mut noise = vec![0xA5u8, 50];
    noise.extend(vec![0u8; 40]);
    assert_eq!(serial.read(ReadStep::Data(noise)), Ok(()));
    assert_eq!(serial.free_space(), 99999 - 42);
    assert_eq!(serial.read_packet(), None);
    assert_eq!(serial.free_space(), 99999 - 42);
    let mut big = vec![0xA5u8, 0];
    big.extend(vec![0x01u8; 99950]);
    assert_eq!(serial.read(ReadStep::Data(big)), Ok(()));
    assert_eq!(serial.free_space(), 99999 - 42 - 99952);
}

#[test]
fn debug_line_holds_what_it_was_given() {
    let mut debug = basestation::Debug::new();
    debug.record(Routed::Elsewhere, vec![1, 2, 3], 5);
    assert!(debug.incoming_lines.is_empty());
    debug.record(Routed::Unknown, vec![1, 2, 3], 6);
    assert_eq!(
        debug.incoming_lines[0],
        DebugLine { time: 6, label: "?".to_string(), entry: DebugEntry::UnknownData(vec![1, 2, 3]) }
    );
    debug.record(Routed::BaseInformation(base_info()), Vec::new(), 7);
    assert_eq!(
        debug.incoming_lines[0],
        DebugLine {
            time: 7,
            label: "B".to_string(),
            entry: DebugEntry::BaseInformation(base_info())
        }
    );
    for id in 0..16u8 {
        debug.record(Routed::Robot(id, Radio_Message_Rust::Empty), Vec::new(), 8);
        assert_eq!(debug.incoming_lines[0].label, format!("{}", id));
    }
    assert_eq!(debug.incoming_lines.len(), 18);
}

#[test]
fn what_no_frame_renews_keeps_its_moment() {
    let mut station = BaseStation::new();
    let mut debug = basestation::Debug::new();
    let mut first = wrapper_frame(1, Radio_Message_Rust::PrimaryStatusLF(status_lf()));
    first.extend(wrapper_frame(1, Radio_Message_Rust::PrimaryStatusHF(status_hf())));
    first.extend(to_packet(base_info()));
    assert_eq!(feed(&mut station, &mut debug, first), Ok((true, true)));
    let start = std::time::Instant::now();
    while start.elapsed() < std::time::Duration::from_millis(30) {}

    // traffic of others, frames for another host, frames that are not valid, an idle pass
    let mut bad = wrapper_bytes(1, Radio_Message_Rust::PrimaryStatusLF(status_lf()));
    bad[9] = 0x0F;
    let mut later = wrapper_frame(2, Radio_Message_Rust::PrimaryStatusLF(status_lf()));
    later.extend(wrapper_frame(1, Radio_Message_Rust::ImuReadings(imu(4))));
    later.extend(wrapper_frame(20, Radio_Message_Rust::PrimaryStatusLF(status_lf())));
    later.extend(to_packet(bad));
    later.extend(to_packet(vec![1u8, 2, 3]));
    assert_eq!(feed(&mut station, &mut debug, later), Ok((true, false)));
    assert_eq!(station.read_and_parse(ReadStep::Idle, Some(&mut debug)), Ok((false, false)));

    let span = std::time::Duration::from_millis(30);
    assert!(station.robots[1].time_since_status_lf_update().expect("kept") >= span);
    assert!(station.robots[1].time_since_status_hf_update().expect("kept") >= span);
    assert!(station.base_info.time_since().expect("kept") >= span);
    assert!(station.robots[1].time_since_imu_reading_update().expect("new") < span);
    assert!(station.robots[2].time_since_status_lf_update().expect("new") < span);
    assert!(station.robots[2].time_since_status_hf_update().is_none());
    assert_eq!(station.robots[1].status_lf(), Some(status_lf()));
}

#[test]
fn update_of_one_cell_keeps_the_moments_of_the_others() {
    let mut robot = Robot::default();
    robot.update_status_lf(status_lf());
    robot.update_imu_reading(imu(1));
    let start = std::time::Instant::now();
    while start.elapsed() < std::time::Duration::from_millis(20) {}
    robot.update_status_hf(status_hf());
    let span = std::time::Duration::from_millis(20);
    assert!(robot.time_since_status_lf_update().expect("kept") >= span);
    assert!(robot.time_since_imu_reading_update().expect("kept") >= span);
    assert!(robot.time_since_status_hf_update().expect("new") < span);
}
