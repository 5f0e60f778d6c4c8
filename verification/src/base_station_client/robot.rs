//! One robot as the base station sees it: the latest of each kind of
//! telemetry it sent, and what can be read from them.
use vstd::prelude::*;
use std::time::Duration;
use crate::base_station_client::utils::{
    fresh_enough, freshest, span_nanos, Stamped, Telemetry,
};
use crate::glue::{HG_Status, Radio_ImuReadings, Radio_PrimaryStatusHF, Radio_PrimaryStatusLF};

verus! {

/// The age in nanoseconds of a cell, from the time since it was written.
fn age_nanos(age: &Option<Duration>) -> (nanos: Option<u128>)
    ensures
        nanos is Some <==> age is Some,
{
    match age {
        Some(span) => Some(span_nanos(span)),
        None => None,
    }
}

/// What a robot slot holds, without the moments of arrival.
pub ghost struct RobotView {
    pub status_hf: Option<Radio_PrimaryStatusHF>,
    pub status_lf: Option<Radio_PrimaryStatusLF>,
    pub imu_reading: Option<Radio_ImuReadings>,
}

/// The slot of one robot: the latest high-frequency status, low-frequency
/// status and inertial reading, each with the moment it arrived.
#[derive(Debug, Clone, Copy)]
pub struct Robot {
    status_hf: Stamped<Radio_PrimaryStatusHF>,
    status_lf: Stamped<Radio_PrimaryStatusLF>,
    imu_reading: Stamped<Radio_ImuReadings>,
}

impl Default for Robot {
    fn default() -> (robot: Robot)
        ensures
            robot.hf() is None,
            robot.lf() is None,
            robot.imu() is None,
    {
        Robot {
            status_hf: Stamped::NothingYet,
            status_lf: Stamped::NothingYet,
            imu_reading: Stamped::NothingYet,
        }
    }
}

impl Robot {
    /// What this slot holds.
    pub open spec fn view(&self) -> RobotView {
        RobotView { status_hf: self.hf(), status_lf: self.lf(), imu_reading: self.imu() }
    }

    /// The cell of the high-frequency status: the status with the moment it
    /// arrived, or nothing yet.
    pub closed spec fn hf_cell(&self) -> Stamped<Radio_PrimaryStatusHF> {
        self.status_hf
    }

    /// The cell of the low-frequency status: the status with the moment it
    /// arrived, or nothing yet.
    pub closed spec fn lf_cell(&self) -> Stamped<Radio_PrimaryStatusLF> {
        self.status_lf
    }

    /// The cell of the inertial reading: the reading with the moment it
    /// arrived, or nothing yet.
    pub closed spec fn imu_cell(&self) -> Stamped<Radio_ImuReadings> {
        self.imu_reading
    }

    /// The high-frequency status this slot holds, if any arrived.
    pub open spec fn hf(&self) -> Option<Radio_PrimaryStatusHF> {
        self.hf_cell().value()
    }

    /// The low-frequency status this slot holds, if any arrived.
    pub open spec fn lf(&self) -> Option<Radio_PrimaryStatusLF> {
        self.lf_cell().value()
    }

    /// The inertial reading this slot holds, if any arrived.
    pub open spec fn imu(&self) -> Option<Radio_ImuReadings> {
        self.imu_cell().value()
    }

    /// A slot is its three cells: two slots with the same cells are the same.
    pub proof fn lemma_same_cells(self, other: Robot)
        requires
            self.hf_cell() == other.hf_cell(),
            self.lf_cell() == other.lf_cell(),
            self.imu_cell() == other.imu_cell(),
        ensures
            self == other,
    {
    }

    /// Stores a high-frequency status with the present moment; the other two
    /// cells stay as they are, value and moment.
    pub fn update_status_hf(&mut self, status_hf: Radio_PrimaryStatusHF)
        ensures
            final(self).hf() == Some(status_hf),
            final(self).lf_cell() == old(self).lf_cell(),
            final(self).imu_cell() == old(self).imu_cell(),
    {
        self.status_hf.update(status_hf);
    }

    /// Stores a low-frequency status with the present moment; the other two
    /// cells stay as they are, value and moment.
    pub fn update_status_lf(&mut self, status_lf: Radio_PrimaryStatusLF)
        ensures
            final(self).lf() == Some(status_lf),
            final(self).hf_cell() == old(self).hf_cell(),
            final(self).imu_cell() == old(self).imu_cell(),
    {
        self.status_lf.update(status_lf);
    }

    /// Stores an inertial reading with the present moment; the other two
    /// cells stay as they are, value and moment.
    pub fn update_imu_reading(&mut self, imu_reading: Radio_ImuReadings)
        ensures
            final(self).imu() == Some(imu_reading),
            final(self).hf_cell() == old(self).hf_cell(),
            final(self).lf_cell() == old(self).lf_cell(),
    {
        self.imu_reading.update(imu_reading);
    }

    /// The time since the freshest telemetry arrived, as `freshest` picks it
    /// from the ages that the clock gives. `None` where nothing arrived, and
    /// where all that arrived is five minutes old or older.
    pub fn time_since_update(&self) -> (age: Option<Duration>)
        ensures
            age is Some ==> self.hf() is Some || self.lf() is Some || self.imu() is Some,
    {
        let lf = self.status_lf.time_since();
        let hf = self.status_hf.time_since();
        let imu = self.imu_reading.time_since();
        match freshest(age_nanos(&lf), age_nanos(&hf), age_nanos(&imu)) {
            Some(Telemetry::StatusLF) => lf,
            Some(Telemetry::StatusHF) => hf,
            Some(Telemetry::ImuReading) => imu,
            None => None,
        }
    }

    /// The time since the latest high-frequency status arrived; `None`
    /// exactly when none did.
    pub fn time_since_status_hf_update(&self) -> (age: Option<Duration>)
        ensures
            age is Some <==> self.hf() is Some,
    {
        self.status_hf.time_since()
    }

    /// The time since the latest low-frequency status arrived; `None` exactly
    /// when none did.
    pub fn time_since_status_lf_update(&self) -> (age: Option<Duration>)
        ensures
            age is Some <==> self.lf() is Some,
    {
        self.status_lf.time_since()
    }

    /// The time since the latest inertial reading arrived; `None` exactly
    /// when none did.
    pub fn time_since_imu_reading_update(&self) -> (age: Option<Duration>)
        ensures
            age is Some <==> self.imu() is Some,
    {
        self.imu_reading.time_since()
    }

    /// Tells whether the robot is online: whether some telemetry arrived
    /// less than 400 milliseconds ago, as `fresh_enough` decides from the ages
    /// that the clock gives. A robot of which nothing arrived is not online.
    pub fn is_online(&self) -> (online: bool)
        ensures
            online ==> self.hf() is Some || self.lf() is Some || self.imu() is Some,
    {
        let lf = self.status_lf.time_since();
        let hf = self.status_hf.time_since();
        let imu = self.imu_reading.time_since();
        fresh_enough(age_nanos(&lf), age_nanos(&hf), age_nanos(&imu))
    }

    /// The latest high-frequency status, if any arrived.
    pub fn status_hf(&self) -> (status: Option<Radio_PrimaryStatusHF>)
        ensures
            status == self.hf(),
    {
        match self.status_hf {
            Stamped::Have(_, s) => Some(s),
            Stamped::NothingYet => None,
        }
    }

    /// The latest low-frequency status, if any arrived.
    pub fn status_lf(&self) -> (status: Option<Radio_PrimaryStatusLF>)
        ensures
            status == self.lf(),
    {
        match self.status_lf {
            Stamped::Have(_, s) => Some(s),
            Stamped::NothingYet => None,
        }
    }

    /// The status of the main controller.
    pub fn primary_status(&self) -> (status: Option<HG_Status>)
        ensures
            status == (match self.lf() {
                Some(s) => Some(s.primary_status),
                None => None,
            }),
    {
        match self.status_lf() {
            Some(s) => Some(s.primary_status),
            None => None,
        }
    }

    /// The status of the kicker.
    pub fn kicker_status(&self) -> (status: Option<HG_Status>)
        ensures
            status == (match self.lf() {
                Some(s) => Some(s.kicker_status),
                None => None,
            }),
    {
        match self.status_lf() {
            Some(s) => Some(s.kicker_status),
            None => None,
        }
    }

    /// The status of the inertial unit.
    pub fn imu_status(&self) -> (status: Option<HG_Status>)
        ensures
            status == (match self.lf() {
                Some(s) => Some(s.imu_status),
                None => None,
            }),
    {
        match self.status_lf() {
            Some(s) => Some(s.imu_status),
            None => None,
        }
    }

    /// The status of the fan.
    pub fn fan_status(&self) -> (status: Option<HG_Status>)
        ensures
            status == (match self.lf() {
                Some(s) => Some(s.fan_status),
                None => None,
            }),
    {
        match self.status_lf() {
            Some(s) => Some(s.fan_status),
            None => None,
        }
    }

    /// The voltage of the kicker capacitor in raw counts; the schema's scale
    /// turns counts into volts.
    pub fn kicker_cap_voltage(&self) -> (counts: Option<u8>)
        ensures
            counts == (match self.lf() {
                Some(s) => Some(s.cap_voltage),
                None => None,
            }),
    {
        match self.status_lf() {
            Some(s) => Some(s.cap_voltage),
            None => None,
        }
    }

    /// The temperature of the kicker board. The hardware no longer measures
    /// it, so it is never known.
    pub fn kicker_temperature(&self) -> (counts: Option<u8>)
        ensures
            counts is None,
    {
        None
    }

    /// The status of the power board.
    pub fn power_board_status(&self) -> (status: Option<HG_Status>)
        ensures
            status == (match self.lf() {
                Some(s) => Some(s.power_board_status),
                None => None,
            }),
    {
        match self.status_lf() {
            Some(s) => Some(s.power_board_status),
            None => None,
        }
    }

    /// The status of all five motors.
    pub fn motor_statuses(&self) -> (statuses: Option<[HG_Status; 5]>)
        ensures
            statuses == (match self.lf() {
                Some(s) => Some(s.motor_status),
                None => None,
            }),
    {
        match self.status_lf() {
            Some(s) => Some(s.motor_status),
            None => None,
        }
    }

    /// The status of the motor with the given index; `None` for an index of 5
    /// or more, and while no low-frequency status has arrived.
    pub fn motor_status(&self, index: u8) -> (status: Option<HG_Status>)
        ensures
            status == (match self.lf() {
                Some(s) if index < 5 => Some(s.motor_status[index as int]),
                _ => None,
            }),
    {
        if index >= 5 {
            return None;
        }
        match self.status_lf() {
            Some(s) => Some(s.motor_status[index as usize]),
            None => None,
        }
    }

    /// The speed of all five motors, each the bit pattern of a float in
    /// radians per second.
    pub fn motor_speeds(&self) -> (speeds: Option<[u32; 5]>)
        ensures
            speeds == (match self.hf() {
                Some(s) => Some(s.motor_speeds),
                None => None,
            }),
    {
        match self.status_hf() {
            Some(s) => Some(s.motor_speeds),
            None => None,
        }
    }

    /// The speed of the motor with the given index, as the bit pattern of a
    /// float; `None` for an index of 5 or more, and while no high-frequency
    /// status has arrived.
    pub fn motor_speed(&self, index: u8) -> (speed: Option<u32>)
        ensures
            speed == (match self.hf() {
                Some(s) if index < 5 => Some(s.motor_speeds[index as int]),
                _ => None,
            }),
    {
        if index >= 5 {
            return None;
        }
        match self.status_hf() {
            Some(s) => Some(s.motor_speeds[index as usize]),
            None => None,
        }
    }

    /// The temperature of all five motor drivers in raw counts; the schema's
    /// scale turns counts into degrees.
    pub fn motor_temperatures(&self) -> (counts: Option<[u8; 5]>)
        ensures
            counts == (match self.lf() {
                Some(s) => Some(s.motor_driver_temps),
                None => None,
            }),
    {
        match self.status_lf() {
            Some(s) => Some(s.motor_driver_temps),
            None => None,
        }
    }

    /// The temperature of the driver of the motor with the given index in raw
    /// counts; `None` for an index of 5 or more, and while no low-frequency
    /// status has arrived.
    pub fn motor_temperature(&self, index: u8) -> (counts: Option<u8>)
        ensures
            counts == (match self.lf() {
                Some(s) if index < 5 => Some(s.motor_driver_temps[index as int]),
                _ => None,
            }),
    {
        if index >= 5 {
            return None;
        }
        match self.status_lf() {
            Some(s) => Some(s.motor_driver_temps[index as usize]),
            None => None,
        }
    }

    /// Whether the breakbeam sees the ball: its sensor works and reports one.
    pub fn breakbeam_ball_detected(&self) -> (detected: Option<bool>)
        ensures
            detected == (match self.hf() {
                Some(s) => Some(s.breakbeam_ball_detected && s.breakbeam_sensor_ok),
                None => None,
            }),
    {
        match self.status_hf() {
            Some(s) => Some(s.breakbeam_ball_detected && s.breakbeam_sensor_ok),
            None => None,
        }
    }

    /// Whether the sensor of the breakbeam works.
    pub fn breakbeam_sensor_ok(&self) -> (ok: Option<bool>)
        ensures
            ok == (match self.hf() {
                Some(s) => Some(s.breakbeam_sensor_ok),
                None => None,
            }),
    {
        match self.status_hf() {
            Some(s) => Some(s.breakbeam_sensor_ok),
            None => None,
        }
    }

    /// The latest inertial reading, if any arrived.
    pub fn imu_reading(&self) -> (reading: Option<Radio_ImuReadings>)
        ensures
            reading == self.imu(),
    {
        match self.imu_reading {
            Stamped::Have(_, r) => Some(r),
            Stamped::NothingYet => None,
        }
    }

    /// The voltage of the left and of the right battery pack in raw counts;
    /// the schema's scale turns counts into volts.
    pub fn pack_voltages(&self) -> (counts: Option<[u8; 2]>)
        ensures
            counts == (match self.lf() {
                Some(s) => Some(s.pack_voltages),
                None => None,
            }),
    {
        match self.status_lf() {
            Some(s) => Some(s.pack_voltages),
            None => None,
        }
    }
}

} // verus!
