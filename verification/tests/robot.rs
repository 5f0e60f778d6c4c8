use base_station_link::base_station_client::robot::Robot;
use base_station_link::base_station_client::utils::{
    fresh_enough, freshest, Stamped, Telemetry, ONLINE_NANOS, STALE_NANOS,
};
use base_station_link::glue::{
    HG_Status, Radio_ImuReadings, Radio_PrimaryStatusHF, Radio_PrimaryStatusLF,
};
use std::time::{Duration, Instant};

fn status_hf() -> Radio_PrimaryStatusHF {
    Radio_PrimaryStatusHF {
        _pad0: [0; 4],
        motor_speeds: [
            10.0f32.to_bits(),
            11.0f32.to_bits(),
            12.0f32.to_bits(),
            13.0f32.to_bits(),
            14.0f32.to_bits(),
        ],
        breakbeam_ball_detected: true,
        breakbeam_sensor_ok: true,
        _pad1: [0; 2],
    }
}

fn status_lf() -> Radio_PrimaryStatusLF {
    Radio_PrimaryStatusLF {
        primary_status: HG_Status::OK,
        kicker_status: HG_Status::ARMED,
        fan_status: HG_Status::NOT_INSTALLED,
        imu_status: HG_Status::STARTING,
        power_board_status: HG_Status::SAFE,
        motor_status: [
            HG_Status::OK,
            HG_Status::SAFE,
            HG_Status::OVERTEMP,
            HG_Status::STARTING,
            HG_Status::NO_REPLY,
        ],
        motor_driver_temps: [40, 41, 42, 43, 44],
        pack_voltages: [120, 121],
        cap_voltage: 200,
    }
}

fn imu() -> Radio_ImuReadings {
    Radio_ImuReadings { ang_x: 1, ang_y: 2, ang_z: 3, ang_wx: 4, ang_wy: 5, ang_wz: 6 }
}

fn spin(span: Duration) {
    let start = Instant::now();
    while start.elapsed() < span {}
}

#[test]
#[allow(unused_assignments)]
fn stamped() {
    let mut var = Stamped::<u8>::NothingYet;
    var = Stamped::make_now(75);
    spin(Duration::from_millis(10));
    if let Some(time) = var.time_since() {
        assert!(time > std::time::Duration::from_millis(9));
    } else {
        assert!(false);
    }
}

#[test]
fn stamped_cell() {
    let mut cell = Stamped::<u32>::NothingYet;
    assert!(cell.time_since().is_none());
    assert_eq!(cell.have(|v| v + 1), None);
    cell.update(41);
    assert_eq!(cell.have(|v| v + 1), Some(42));
    assert!(cell.time_since().expect("stamped") < Duration::from_secs(5));
    cell.update(7);
    assert_eq!(cell.have(|v| v), Some(7));
    let copy = cell.clone();
    assert_eq!(copy.have(|v| v), Some(7));
    match Stamped::make_now(3u8) {
        Stamped::Have(at, value) => {
            assert_eq!(value, 3);
            assert!(at.elapsed() < Duration::from_secs(5));
        }
        Stamped::NothingYet => panic!("make_now gives a value"),
    }
}

#[test]
fn stamp_follows_the_clock() {
    let before = Instant::now();
    let cell = Stamped::make_now(1u8);
    spin(Duration::from_millis(3));
    let first = cell.time_since().expect("stamped");
    spin(Duration::from_millis(3));
    let second = cell.time_since().expect("stamped");
    assert!(first >= Duration::from_millis(3));
    assert!(second > first);
    assert!(second <= before.elapsed());
}

#[test]
fn freshest_picks_the_least_age() {
    assert_eq!(freshest(None, None, None), None);
    assert_eq!(freshest(Some(5), None, None), Some(Telemetry::StatusLF));
    assert_eq!(freshest(None, Some(5), None), Some(Telemetry::StatusHF));
    assert_eq!(freshest(None, None, Some(5)), Some(Telemetry::ImuReading));
    assert_eq!(freshest(Some(9), Some(5), Some(7)), Some(Telemetry::StatusHF));
    assert_eq!(freshest(Some(9), Some(8), Some(7)), Some(Telemetry::ImuReading));
    assert_eq!(freshest(Some(1), Some(8), Some(7)), Some(Telemetry::StatusLF));
    // the first of equals
    assert_eq!(freshest(Some(4), Some(4), Some(4)), Some(Telemetry::StatusLF));
    assert_eq!(freshest(Some(5), Some(4), Some(4)), Some(Telemetry::StatusHF));
    // five minutes and more count as never
    assert_eq!(STALE_NANOS, 300_000_000_000);
    assert_eq!(freshest(Some(STALE_NANOS), None, None), None);
    assert_eq!(freshest(Some(STALE_NANOS - 1), None, None), Some(Telemetry::StatusLF));
    assert_eq!(
        freshest(Some(STALE_NANOS), Some(u128::MAX), Some(STALE_NANOS + 1)),
        None
    );
    assert_eq!(
        freshest(Some(STALE_NANOS), Some(STALE_NANOS - 1), None),
        Some(Telemetry::StatusHF)
    );
}

#[test]
fn fresh_enough_is_below_400_ms() {
    assert_eq!(ONLINE_NANOS, 400_000_000);
    assert!(!fresh_enough(None, None, None));
    assert!(fresh_enough(Some(0), None, None));
    assert!(fresh_enough(Some(399_999_999), None, None));
    assert!(!fresh_enough(Some(400_000_000), None, None));
    assert!(fresh_enough(Some(400_000_000), Some(1), None));
    assert!(fresh_enough(None, Some(STALE_NANOS), Some(399_999_999)));
    assert!(!fresh_enough(Some(u128::MAX), Some(STALE_NANOS), Some(400_000_001)));
}

#[test]
fn robot_that_heard_nothing() {
    let robot = Robot::default();
    assert!(robot.time_since_update().is_none());
    assert!(robot.time_since_status_hf_update().is_none());
    assert!(robot.time_since_status_lf_update().is_none());
    assert!(robot.time_since_imu_reading_update().is_none());
    assert!(!robot.is_online());
    assert_eq!(robot.status_hf(), None);
    assert_eq!(robot.status_lf(), None);
    assert_eq!(robot.primary_status(), None);
    assert_eq!(robot.kicker_status(), None);
    assert_eq!(robot.imu_status(), None);
    assert_eq!(robot.fan_status(), None);
    assert_eq!(robot.power_board_status(), None);
    assert_eq!(robot.kicker_cap_voltage(), None);
    assert_eq!(robot.kicker_temperature(), None);
    assert_eq!(robot.motor_statuses(), None);
    assert_eq!(robot.motor_status(0), None);
    assert_eq!(robot.motor_speeds(), None);
    assert_eq!(robot.motor_speed(0), None);
    assert_eq!(robot.motor_temperatures(), None);
    assert_eq!(robot.motor_temperature(0), None);
    assert_eq!(robot.breakbeam_ball_detected(), None);
    assert_eq!(robot.breakbeam_sensor_ok(), None);
    assert_eq!(robot.imu_reading(), None);
    assert_eq!(robot.pack_voltages(), None);
}

#[test]
fn robot_with_low_frequency_status() {
    let mut robot = Robot::default();
    robot.update_status_lf(status_lf());
    assert_eq!(robot.status_lf(), Some(status_lf()));
    assert_eq!(robot.status_hf(), None);
    assert_eq!(robot.imu_reading(), None);
    assert_eq!(robot.primary_status(), Some(HG_Status::OK));
    assert_eq!(robot.kicker_status(), Some(HG_Status::ARMED));
    assert_eq!(robot.fan_status(), Some(HG_Status::NOT_INSTALLED));
    assert_eq!(robot.imu_status(), Some(HG_Status::STARTING));
    assert_eq!(robot.power_board_status(), Some(HG_Status::SAFE));
    assert_eq!(robot.kicker_cap_voltage(), Some(200));
    assert_eq!(robot.kicker_temperature(), None);
    assert_eq!(robot.motor_statuses(), Some(status_lf().motor_status));
    assert_eq!(robot.motor_status(0), Some(HG_Status::OK));
    assert_eq!(robot.motor_status(2), Some(HG_Status::OVERTEMP));
    assert_eq!(robot.motor_status(4), Some(HG_Status::NO_REPLY));
    assert_eq!(robot.motor_status(5), None);
    assert_eq!(robot.motor_status(255), None);
    assert_eq!(robot.motor_temperatures(), Some([40, 41, 42, 43, 44]));
    assert_eq!(robot.motor_temperature(3), Some(43));
    assert_eq!(robot.motor_temperature(5), None);
    assert_eq!(robot.pack_voltages(), Some([120, 121]));
    assert_eq!(robot.motor_speeds(), None);
    assert_eq!(robot.breakbeam_sensor_ok(), None);
    assert!(robot.time_since_status_lf_update().is_some());
    assert!(robot.time_since_status_hf_update().is_none());
    assert!(robot.time_since_imu_reading_update().is_none());
}

#[test]
fn robot_with_high_frequency_status() {
    let mut robot = Robot::default();
    robot.update_status_hf(status_hf());
    assert_eq!(robot.status_hf(), Some(status_hf()));
    assert_eq!(robot.motor_speeds(), Some(status_hf().motor_speeds));
    assert_eq!(robot.motor_speed(0).map(f32::from_bits), Some(10.0));
    assert_eq!(robot.motor_speed(4).map(f32::from_bits), Some(14.0));
    assert_eq!(robot.motor_speed(5), None);
    assert_eq!(robot.breakbeam_ball_detected(), Some(true));
    assert_eq!(robot.breakbeam_sensor_ok(), Some(true));
    assert_eq!(robot.primary_status(), None);

    // a ball is only seen by a sensor that works
    let mut broken = status_hf();
    broken.breakbeam_sensor_ok = false;
    robot.update_status_hf(broken);
    assert_eq!(robot.breakbeam_ball_detected(), Some(false));
    assert_eq!(robot.breakbeam_sensor_ok(), Some(false));
    let mut none = status_hf();
    none.breakbeam_ball_detected = false;
    robot.update_status_hf(none);
    assert_eq!(robot.breakbeam_ball_detected(), Some(false));
    assert_eq!(robot.breakbeam_sensor_ok(), Some(true));
}

#[test]
fn robot_with_imu_reading() {
    let mut robot = Robot::default();
    robot.update_imu_reading(imu());
    assert_eq!(robot.imu_reading(), Some(imu()));
    assert_eq!(robot.status_hf(), None);
    assert_eq!(robot.status_lf(), None);
    assert!(robot.time_since_imu_reading_update().is_some());
}

#[test]
fn robot_goes_offline_after_400_ms() {
    let mut robot = Robot::default();
    robot.update_status_lf(status_lf());
    assert!(robot.is_online());
    let age = robot.time_since_update().expect("just heard");
    assert!(age < Duration::from_millis(400));
    spin(Duration::from_millis(420));
    assert!(!robot.is_online());
    let age = robot.time_since_update().expect("heard 420 ms ago");
    assert!(age >= Duration::from_millis(420));
    assert!(age < Duration::from_secs(5));
    // any fresh telemetry brings it back
    robot.update_imu_reading(imu());
    assert!(robot.is_online());
    let fresh = robot.time_since_update().expect("just heard");
    assert!(fresh < Duration::from_millis(400));
    let old = robot.time_since_status_lf_update().expect("still there");
    assert!(old >= Duration::from_millis(420));
    assert!(robot.time_since_imu_reading_update().expect("fresh") >= fresh);
}
