//! The fixed-size records that travel inside a radio message, each with its
//! image in bytes, the rule that says which bytes are a valid image, and the
//! functions that write and read it.
//!
//! Multi-byte fields are little-endian. A field that the firmware holds as a
//! 32-bit float is kept here as its IEEE-754 bit pattern: the link moves such
//! values and never computes with them.
use vstd::prelude::*;
use crate::wire::{
    all_zero, array28, flag_byte, get_word, is_zero_run, le_bytes, lemma_array28,
    lemma_word_covers, lemma_word_in_place, put_word, take, word_at, AsBytes,
};
use crate::schema::{
    HG_ConfigOperation, HG_Status, HG_Variable, HG_VariableType, Radio_RobotCommand,
};

verus! {

/// Size in bytes of the payload of a radio message: that of its largest record.
pub const LEN_PAYLOAD: usize = 28;

/// A planar pose or velocity: x, y and heading, each the bit pattern of a float.
#[derive(Clone, Copy, Debug, PartialEq, Eq)]
pub struct HG_Pose {
    pub x: u32,
    pub y: u32,
    pub z: u32,
}

impl AsBytes for HG_Pose {
    open spec fn wire(&self) -> Seq<u8> {
        le_bytes(self.x) + le_bytes(self.y) + le_bytes(self.z)
    }

    fn as_bytes(&self) -> (bytes: Vec<u8>) {
        let mut bytes: Vec<u8> = Vec::new();
        put_word(&mut bytes, self.x);
        put_word(&mut bytes, self.y);
        put_word(&mut bytes, self.z);
        assert(bytes@ =~= self.wire());
        bytes
    }
}

impl HG_Pose {
    /// The pose whose image is `b`: any twelve bytes are one.
    pub open spec fn parse(b: Seq<u8>) -> Option<HG_Pose> {
        if b.len() == 12 {
            Some(HG_Pose { x: word_at(b, 0), y: word_at(b, 4), z: word_at(b, 8) })
        } else {
            None
        }
    }

    /// Reads a pose from exactly twelve bytes.
    pub fn from_bytes(data: &[u8]) -> (pose: Option<HG_Pose>)
        ensures
            pose == HG_Pose::parse(data@),
    {
        if data.len() != 12 {
            return None;
        }
        Some(HG_Pose { x: get_word(data, 0), y: get_word(data, 4), z: get_word(data, 8) })
    }

    /// A pose that was written out is read back unchanged.
    #[verifier::rlimit(40)]
    pub proof fn lemma_parse_wire(self)
        ensures
            self.wire().len() == 12,
            HG_Pose::parse(self.wire()) == Some(self),
    {
        let e = Seq::<u8>::empty();
        let w = self.wire();
        assert(w.len() == 12);
        assert(word_at(w, 0) == self.x) by {
            lemma_word_in_place(e, self.x, le_bytes(self.y) + le_bytes(self.z));
            assert(e + le_bytes(self.x) + (le_bytes(self.y) + le_bytes(self.z)) =~= w);
        }
        assert(word_at(w, 4) == self.y) by {
            lemma_word_in_place(le_bytes(self.x), self.y, le_bytes(self.z));
        }
        assert(word_at(w, 8) == self.z) by {
            lemma_word_in_place(le_bytes(self.x) + le_bytes(self.y), self.z, e);
            assert(le_bytes(self.x) + le_bytes(self.y) + le_bytes(self.z) + e =~= w);
        }
    }

    /// The image of the pose that was read from `b` is `b`.
    #[verifier::rlimit(40)]
    pub proof fn lemma_wire_parse(b: Seq<u8>)
        requires
            b.len() == 12,
        ensures
            HG_Pose::parse(b).unwrap().wire() == b,
    {
        lemma_word_covers(b, 0);
        lemma_word_covers(b, 4);
        lemma_word_covers(b, 8);
        assert(HG_Pose::parse(b).unwrap().wire() =~= b);
    }
}

/// Command to one robot: the velocity to hold, the dribbler speed, an actuator
/// command with its kick time, and the fan speed. Speeds and times are bit
/// patterns of floats.
#[derive(Clone, Copy, Debug, PartialEq, Eq)]
pub struct Radio_Command {
    pub speed: HG_Pose,
    pub dribbler_speed: u32,
    pub robot_command: Radio_RobotCommand,
    pub _pad: [u8; 3],
    pub kick_time: u32,
    pub fan_speed: u32,
}

impl AsBytes for Radio_Command {
    open spec fn wire(&self) -> Seq<u8> {
        self.speed.wire() + le_bytes(self.dribbler_speed) + seq![self.robot_command] + self._pad@
            + le_bytes(self.kick_time) + le_bytes(self.fan_speed)
    }

    fn as_bytes(&self) -> (bytes: Vec<u8>) {
        let mut bytes: Vec<u8> = self.speed.as_bytes();
        put_word(&mut bytes, self.dribbler_speed);
        bytes.push(self.robot_command);
        bytes.push(self._pad[0]);
        bytes.push(self._pad[1]);
        bytes.push(self._pad[2]);
        put_word(&mut bytes, self.kick_time);
        put_word(&mut bytes, self.fan_speed);
        assert(bytes@ =~= self.wire());
        bytes
    }
}

impl Radio_Command {
    /// The image of a command is 28 bytes long, valid or not.
    pub proof fn lemma_wire_len(self)
        ensures
            self.wire().len() == 28,
    {
    }

    /// The padding of this command is zero, as the wire asks.
    pub open spec fn valid(&self) -> bool {
        all_zero(self._pad@)
    }

    /// The command whose image is `b`, if `b` is the image of one: 28 bytes
    /// with zero padding.
    pub open spec fn parse(b: Seq<u8>) -> Option<Radio_Command> {
        if b.len() == 28 && all_zero(b.subrange(17, 20)) {
            Some(
                Radio_Command {
                    speed: HG_Pose { x: word_at(b, 0), y: word_at(b, 4), z: word_at(b, 8) },
                    dribbler_speed: word_at(b, 12),
                    robot_command: b[16],
                    _pad: [0u8, 0u8, 0u8],
                    kick_time: word_at(b, 20),
                    fan_speed: word_at(b, 24),
                },
            )
        } else {
            None
        }
    }

    /// Reads a command from exactly 28 bytes; `None` where the length is
    /// another or a padding byte is not zero.
    pub fn from_bytes(data: &[u8]) -> (command: Option<Radio_Command>)
        ensures
            command == Radio_Command::parse(data@),
    {
        if data.len() != 28 {
            return None;
        }
        if !is_zero_run(data, 17, 20) {
            return None;
        }
        Some(
            Radio_Command {
                speed: HG_Pose { x: get_word(data, 0), y: get_word(data, 4), z: get_word(data, 8) },
                dribbler_speed: get_word(data, 12),
                robot_command: data[16],
                _pad: [0u8, 0u8, 0u8],
                kick_time: get_word(data, 20),
                fan_speed: get_word(data, 24),
            },
        )
    }

    /// A valid command that was written out is read back unchanged.
    #[verifier::rlimit(40)]
    pub proof fn lemma_parse_wire(self)
        requires
            self.valid(),
        ensures
            self.wire().len() == 28,
            Radio_Command::parse(self.wire()) == Some(self),
    {
        let e = Seq::<u8>::empty();
        let w = self.wire();
        let mid = seq![self.robot_command] + self._pad@;
        let sx = le_bytes(self.speed.x);
        let sy = le_bytes(self.speed.y);
        let sz = le_bytes(self.speed.z);
        let d = le_bytes(self.dribbler_speed);
        let k = le_bytes(self.kick_time);
        let f = le_bytes(self.fan_speed);
        assert(w.len() == 28);
        assert(word_at(w, 0) == self.speed.x) by {
            lemma_word_in_place(e, self.speed.x, sy + sz + d + mid + k + f);
            assert(e + sx + (sy + sz + d + mid + k + f) =~= w);
        }
        assert(word_at(w, 4) == self.speed.y) by {
            lemma_word_in_place(sx, self.speed.y, sz + d + mid + k + f);
            assert(sx + sy + (sz + d + mid + k + f) =~= w);
        }
        assert(word_at(w, 8) == self.speed.z) by {
            lemma_word_in_place(sx + sy, self.speed.z, d + mid + k + f);
            assert(sx + sy + sz + (d + mid + k + f) =~= w);
        }
        assert(word_at(w, 12) == self.dribbler_speed) by {
            lemma_word_in_place(sx + sy + sz, self.dribbler_speed, mid + k + f);
            assert(sx + sy + sz + d + (mid + k + f) =~= w);
        }
        assert(word_at(w, 20) == self.kick_time) by {
            lemma_word_in_place(sx + sy + sz + d + mid, self.kick_time, f);
            assert(sx + sy + sz + d + mid + k + f =~= w);
        }
        assert(word_at(w, 24) == self.fan_speed) by {
            lemma_word_in_place(sx + sy + sz + d + mid + k, self.fan_speed, e);
            assert(sx + sy + sz + d + mid + k + f + e =~= w);
        }
        assert(w.subrange(17, 20) =~= self._pad@);
        assert(w[16] == self.robot_command);
        assert(self._pad =~= [0u8, 0u8, 0u8]);
    }

    /// The command that was read from `b` is valid and its image is `b`.
    #[verifier::rlimit(40)]
    pub proof fn lemma_wire_parse(b: Seq<u8>)
        requires
            Radio_Command::parse(b) is Some,
        ensures
            Radio_Command::parse(b).unwrap().valid(),
            Radio_Command::parse(b).unwrap().wire() == b,
    {
        lemma_word_covers(b, 0);
        lemma_word_covers(b, 4);
        lemma_word_covers(b, 8);
        lemma_word_covers(b, 12);
        lemma_word_covers(b, 20);
        lemma_word_covers(b, 24);
        let c = Radio_Command::parse(b).unwrap();
        assert(b.subrange(17, 20)[0] == 0 && b.subrange(17, 20)[1] == 0 && b.subrange(17, 20)[2]
            == 0);
        assert(c.wire() =~= b);
    }
}

/// One reading of the inertial unit: the angle about each axis, then the
/// angular velocity about each axis, as bit patterns of floats.
#[derive(Clone, Copy, Debug, PartialEq, Eq)]
pub struct Radio_ImuReadings {
    pub ang_x: u32,
    pub ang_y: u32,
    pub ang_z: u32,
    pub ang_wx: u32,
    pub ang_wy: u32,
    pub ang_wz: u32,
}

impl AsBytes for Radio_ImuReadings {
    open spec fn wire(&self) -> Seq<u8> {
        le_bytes(self.ang_x) + le_bytes(self.ang_y) + le_bytes(self.ang_z) + le_bytes(self.ang_wx)
            + le_bytes(self.ang_wy) + le_bytes(self.ang_wz)
    }

    fn as_bytes(&self) -> (bytes: Vec<u8>) {
        let mut bytes: Vec<u8> = Vec::new();
        put_word(&mut bytes, self.ang_x);
        put_word(&mut bytes, self.ang_y);
        put_word(&mut bytes, self.ang_z);
        put_word(&mut bytes, self.ang_wx);
        put_word(&mut bytes, self.ang_wy);
        put_word(&mut bytes, self.ang_wz);
        assert(bytes@ =~= self.wire());
        bytes
    }
}

impl Radio_ImuReadings {
    /// The reading whose image is `b`: any 24 bytes are one.
    pub open spec fn parse(b: Seq<u8>) -> Option<Radio_ImuReadings> {
        if b.len() == 24 {
            Some(
                Radio_ImuReadings {
                    ang_x: word_at(b, 0),
                    ang_y: word_at(b, 4),
                    ang_z: word_at(b, 8),
                    ang_wx: word_at(b, 12),
                    ang_wy: word_at(b, 16),
                    ang_wz: word_at(b, 20),
                },
            )
        } else {
            None
        }
    }

    /// Reads a reading from exactly 24 bytes.
    pub fn from_bytes(data: &[u8]) -> (reading: Option<Radio_ImuReadings>)
        ensures
            reading == Radio_ImuReadings::parse(data@),
    {
        if data.len() != 24 {
            return None;
        }
        Some(
            Radio_ImuReadings {
                ang_x: get_word(data, 0),
                ang_y: get_word(data, 4),
                ang_z: get_word(data, 8),
                ang_wx: get_word(data, 12),
                ang_wy: get_word(data, 16),
                ang_wz: get_word(data, 20),
            },
        )
    }

    /// A reading that was written out is read back unchanged.
    #[verifier::rlimit(40)]
    pub proof fn lemma_parse_wire(self)
        ensures
            self.wire().len() == 24,
            Radio_ImuReadings::parse(self.wire()) == Some(self),
    {
        let e = Seq::<u8>::empty();
        let w = self.wire();
        let a = le_bytes(self.ang_x);
        let b = le_bytes(self.ang_y);
        let c = le_bytes(self.ang_z);
        let d = le_bytes(self.ang_wx);
        let f = le_bytes(self.ang_wy);
        let g = le_bytes(self.ang_wz);
        assert(w.len() == 24);
        assert(word_at(w, 0) == self.ang_x) by {
            lemma_word_in_place(e, self.ang_x, b + c + d + f + g);
            assert(e + a + (b + c + d + f + g) =~= w);
        }
        assert(word_at(w, 4) == self.ang_y) by {
            lemma_word_in_place(a, self.ang_y, c + d + f + g);
            assert(a + b + (c + d + f + g) =~= w);
        }
        assert(word_at(w, 8) == self.ang_z) by {
            lemma_word_in_place(a + b, self.ang_z, d + f + g);
            assert(a + b + c + (d + f + g) =~= w);
        }
        assert(word_at(w, 12) == self.ang_wx) by {
            lemma_word_in_place(a + b + c, self.ang_wx, f + g);
            assert(a + b + c + d + (f + g) =~= w);
        }
        assert(word_at(w, 16) == self.ang_wy) by {
            lemma_word_in_place(a + b + c + d, self.ang_wy, g);
            assert(a + b + c + d + f + g =~= w);
        }
        assert(word_at(w, 20) == self.ang_wz) by {
            lemma_word_in_place(a + b + c + d + f, self.ang_wz, e);
            assert(a + b + c + d + f + g + e =~= w);
        }
    }

    /// The image of the reading that was read from `b` is `b`.
    #[verifier::rlimit(40)]
    pub proof fn lemma_wire_parse(b: Seq<u8>)
        requires
            b.len() == 24,
        ensures
            Radio_ImuReadings::parse(b).unwrap().wire() == b,
    {
        lemma_word_covers(b, 0);
        lemma_word_covers(b, 4);
        lemma_word_covers(b, 8);
        lemma_word_covers(b, 12);
        lemma_word_covers(b, 16);
        lemma_word_covers(b, 20);
        assert(Radio_ImuReadings::parse(b).unwrap().wire() =~= b);
    }
}

/// High-frequency status of one robot: the speed of each of its five motors
/// as bit patterns of floats, and the two flags of the breakbeam. The record
/// opens with four bytes of padding and ends with two.
#[derive(Clone, Copy, Debug, PartialEq, Eq)]
pub struct Radio_PrimaryStatusHF {
    pub _pad0: [u8; 4],
    pub motor_speeds: [u32; 5],
    pub breakbeam_ball_detected: bool,
    pub breakbeam_sensor_ok: bool,
    pub _pad1: [u8; 2],
}

impl AsBytes for Radio_PrimaryStatusHF {
    open spec fn wire(&self) -> Seq<u8> {
        self._pad0@ + le_bytes(self.motor_speeds[0]) + le_bytes(self.motor_speeds[1]) + le_bytes(
            self.motor_speeds[2],
        ) + le_bytes(self.motor_speeds[3]) + le_bytes(self.motor_speeds[4]) + seq![
            flag_byte(self.breakbeam_ball_detected),
            flag_byte(self.breakbeam_sensor_ok),
        ] + self._pad1@
    }

    fn as_bytes(&self) -> (bytes: Vec<u8>) {
        let mut bytes: Vec<u8> = Vec::new();
        bytes.push(self._pad0[0]);
        bytes.push(self._pad0[1]);
        bytes.push(self._pad0[2]);
        bytes.push(self._pad0[3]);
        put_word(&mut bytes, self.motor_speeds[0]);
        put_word(&mut bytes, self.motor_speeds[1]);
        put_word(&mut bytes, self.motor_speeds[2]);
        put_word(&mut bytes, self.motor_speeds[3]);
        put_word(&mut bytes, self.motor_speeds[4]);
        bytes.push(if self.breakbeam_ball_detected { 1 } else { 0 });
        bytes.push(if self.breakbeam_sensor_ok { 1 } else { 0 });
        bytes.push(self._pad1[0]);
        bytes.push(self._pad1[1]);
        assert(bytes@ =~= self.wire());
        bytes
    }
}

impl Radio_PrimaryStatusHF {
    /// The image of a status is 28 bytes long, valid or not.
    pub proof fn lemma_wire_len(self)
        ensures
            self.wire().len() == 28,
    {
    }

    /// The padding of this status is zero, as the wire asks.
    pub open spec fn valid(&self) -> bool {
        all_zero(self._pad0@) && all_zero(self._pad1@)
    }

    /// `b` is the image of a status: 28 bytes, zero at the six padding
    /// offsets, and 0 or 1 at the two flags.
    pub open spec fn accepts(b: Seq<u8>) -> bool {
        b.len() == 28 && all_zero(b.subrange(0, 4)) && b[24] <= 1 && b[25] <= 1 && all_zero(
            b.subrange(26, 28),
        )
    }

    /// The status whose image is `b`, if `b` is the image of one.
    pub open spec fn parse(b: Seq<u8>) -> Option<Radio_PrimaryStatusHF> {
        if Radio_PrimaryStatusHF::accepts(b) {
            Some(
                Radio_PrimaryStatusHF {
                    _pad0: [0u8, 0u8, 0u8, 0u8],
                    motor_speeds: [
                        word_at(b, 4),
                        word_at(b, 8),
                        word_at(b, 12),
                        word_at(b, 16),
                        word_at(b, 20),
                    ],
                    breakbeam_ball_detected: b[24] == 1,
                    breakbeam_sensor_ok: b[25] == 1,
                    _pad1: [0u8, 0u8],
                },
            )
        } else {
            None
        }
    }

    /// Reads a status from exactly 28 bytes; `None` where the length is
    /// another, a padding byte is not zero or a flag is neither 0 nor 1.
    pub fn from_bytes(data: &[u8]) -> (status: Option<Radio_PrimaryStatusHF>)
        ensures
            status == Radio_PrimaryStatusHF::parse(data@),
    {
        if data.len() != 28 {
            return None;
        }
        if !is_zero_run(data, 0, 4) || !is_zero_run(data, 26, 28) {
            return None;
        }
        if data[24] > 1 || data[25] > 1 {
            return None;
        }
        Some(
            Radio_PrimaryStatusHF {
                _pad0: [0u8, 0u8, 0u8, 0u8],
                motor_speeds: [
                    get_word(data, 4),
                    get_word(data, 8),
                    get_word(data, 12),
                    get_word(data, 16),
                    get_word(data, 20),
                ],
                breakbeam_ball_detected: data[24] == 1,
                breakbeam_sensor_ok: data[25] == 1,
                _pad1: [0u8, 0u8],
            },
        )
    }

    /// A valid status that was written out is read back unchanged.
    #[verifier::rlimit(40)]
    pub proof fn lemma_parse_wire(self)
        requires
            self.valid(),
        ensures
            self.wire().len() == 28,
            Radio_PrimaryStatusHF::parse(self.wire()) == Some(self),
    {
        let e = Seq::<u8>::empty();
        let w = self.wire();
        let p = self._pad0@;
        let a = le_bytes(self.motor_speeds[0]);
        let b = le_bytes(self.motor_speeds[1]);
        let c = le_bytes(self.motor_speeds[2]);
        let d = le_bytes(self.motor_speeds[3]);
        let f = le_bytes(self.motor_speeds[4]);
        let t = seq![flag_byte(self.breakbeam_ball_detected), flag_byte(self.breakbeam_sensor_ok)]
            + self._pad1@;
        assert(w.len() == 28);
        assert(word_at(w, 4) == self.motor_speeds[0]) by {
            lemma_word_in_place(p, self.motor_speeds[0], b + c + d + f + t);
            assert(p + a + (b + c + d + f + t) =~= w);
        }
        assert(word_at(w, 8) == self.motor_speeds[1]) by {
            lemma_word_in_place(p + a, self.motor_speeds[1], c + d + f + t);
            assert(p + a + b + (c + d + f + t) =~= w);
        }
        assert(word_at(w, 12) == self.motor_speeds[2]) by {
            lemma_word_in_place(p + a + b, self.motor_speeds[2], d + f + t);
            assert(p + a + b + c + (d + f + t) =~= w);
        }
        assert(word_at(w, 16) == self.motor_speeds[3]) by {
            lemma_word_in_place(p + a + b + c, self.motor_speeds[3], f + t);
            assert(p + a + b + c + d + (f + t) =~= w);
        }
        assert(word_at(w, 20) == self.motor_speeds[4]) by {
            lemma_word_in_place(p + a + b + c + d, self.motor_speeds[4], t);
            assert(p + a + b + c + d + f + t =~= w);
        }
        assert(w.subrange(0, 4) =~= self._pad0@);
        assert(w.subrange(26, 28) =~= self._pad1@);
        assert(w[24] == flag_byte(self.breakbeam_ball_detected));
        assert(w[25] == flag_byte(self.breakbeam_sensor_ok));
        let r = Radio_PrimaryStatusHF::parse(w).unwrap();
        assert(r._pad0 =~= self._pad0);
        assert(r._pad1 =~= self._pad1);
        assert(r.motor_speeds =~= self.motor_speeds);
    }

    /// The status that was read from `b` is valid and its image is `b`.
    #[verifier::rlimit(40)]
    pub proof fn lemma_wire_parse(b: Seq<u8>)
        requires
            Radio_PrimaryStatusHF::parse(b) is Some,
        ensures
            Radio_PrimaryStatusHF::parse(b).unwrap().valid(),
            Radio_PrimaryStatusHF::parse(b).unwrap().wire() == b,
    {
        lemma_word_covers(b, 4);
        lemma_word_covers(b, 8);
        lemma_word_covers(b, 12);
        lemma_word_covers(b, 16);
        lemma_word_covers(b, 20);
        let r = Radio_PrimaryStatusHF::parse(b).unwrap();
        assert(b.subrange(0, 4)[0] == 0 && b.subrange(0, 4)[1] == 0 && b.subrange(0, 4)[2] == 0
            && b.subrange(0, 4)[3] == 0);
        assert(b.subrange(26, 28)[0] == 0 && b.subrange(26, 28)[1] == 0);
        assert(r.wire() =~= b);
    }
}

/// Low-frequency status of one robot: the health of its boards and of each
/// motor, the temperature of each motor driver, the voltage of both battery
/// packs and of the kicker capacitor, the last three in raw counts.
#[derive(Clone, Copy, Debug, PartialEq, Eq)]
pub struct Radio_PrimaryStatusLF {
    pub primary_status: HG_Status,
    pub kicker_status: HG_Status,
    pub fan_status: HG_Status,
    pub imu_status: HG_Status,
    pub power_board_status: HG_Status,
    pub motor_status: [HG_Status; 5],
    pub motor_driver_temps: [u8; 5],
    pub pack_voltages: [u8; 2],
    pub cap_voltage: u8,
}

impl AsBytes for Radio_PrimaryStatusLF {
    open spec fn wire(&self) -> Seq<u8> {
        seq![
            self.primary_status.code(),
            self.kicker_status.code(),
            self.fan_status.code(),
            self.imu_status.code(),
            self.power_board_status.code(),
            self.motor_status[0].code(),
            self.motor_status[1].code(),
            self.motor_status[2].code(),
            self.motor_status[3].code(),
            self.motor_status[4].code(),
            self.motor_driver_temps[0],
            self.motor_driver_temps[1],
            self.motor_driver_temps[2],
            self.motor_driver_temps[3],
            self.motor_driver_temps[4],
            self.pack_voltages[0],
            self.pack_voltages[1],
            self.cap_voltage,
        ]
    }

    fn as_bytes(&self) -> (bytes: Vec<u8>) {
        let mut bytes: Vec<u8> = Vec::new();
        bytes.push(self.primary_status.to_u8());
        bytes.push(self.kicker_status.to_u8());
        bytes.push(self.fan_status.to_u8());
        bytes.push(self.imu_status.to_u8());
        bytes.push(self.power_board_status.to_u8());
        bytes.push(self.motor_status[0].to_u8());
        bytes.push(self.motor_status[1].to_u8());
        bytes.push(self.motor_status[2].to_u8());
        bytes.push(self.motor_status[3].to_u8());
        bytes.push(self.motor_status[4].to_u8());
        bytes.push(self.motor_driver_temps[0]);
        bytes.push(self.motor_driver_temps[1]);
        bytes.push(self.motor_driver_temps[2]);
        bytes.push(self.motor_driver_temps[3]);
        bytes.push(self.motor_driver_temps[4]);
        bytes.push(self.pack_voltages[0]);
        bytes.push(self.pack_voltages[1]);
        bytes.push(self.cap_voltage);
        assert(bytes@ =~= self.wire());
        bytes
    }
}

impl Radio_PrimaryStatusLF {
    /// `b` is the image of a status: 18 bytes of which each of the first ten
    /// is a status code.
    pub open spec fn accepts(b: Seq<u8>) -> bool {
        b.len() == 18 && forall|k: int| 0 <= k < 10 ==> (#[trigger] HG_Status::of_code(b[k])) is Some
    }

    /// The status whose image is `b`, if `b` is the image of one.
    pub open spec fn parse(b: Seq<u8>) -> Option<Radio_PrimaryStatusLF> {
        if Radio_PrimaryStatusLF::accepts(b) {
            Some(
                Radio_PrimaryStatusLF {
                    primary_status: HG_Status::of_code(b[0]).unwrap(),
                    kicker_status: HG_Status::of_code(b[1]).unwrap(),
                    fan_status: HG_Status::of_code(b[2]).unwrap(),
                    imu_status: HG_Status::of_code(b[3]).unwrap(),
                    power_board_status: HG_Status::of_code(b[4]).unwrap(),
                    motor_status: [
                        HG_Status::of_code(b[5]).unwrap(),
                        HG_Status::of_code(b[6]).unwrap(),
                        HG_Status::of_code(b[7]).unwrap(),
                        HG_Status::of_code(b[8]).unwrap(),
                        HG_Status::of_code(b[9]).unwrap(),
                    ],
                    motor_driver_temps: [b[10], b[11], b[12], b[13], b[14]],
                    pack_voltages: [b[15], b[16]],
                    cap_voltage: b[17],
                },
            )
        } else {
            None
        }
    }

    /// Reads a status from exactly 18 bytes; `None` where the length is
    /// another or one of the ten status bytes is no status code.
    pub fn from_bytes(data: &[u8]) -> (status: Option<Radio_PrimaryStatusLF>)
        ensures
            status == Radio_PrimaryStatusLF::parse(data@),
    {
        if data.len() != 18 {
            return None;
        }
        let mut seen: [HG_Status; 10] = [HG_Status::OK; 10];
        let mut i: usize = 0;
        while i < 10
            invariant
                i <= 10,
                data@.len() == 18,
                forall|k: int| 0 <= k < i ==> HG_Status::of_code(#[trigger] data@[k]) == Some(seen[k]),
            decreases 10 - i,
        {
            match HG_Status::from_u8(data[i]) {
                Some(s) => {
                    seen[i] = s;
                },
                None => {
                    return None;
                },
            }
            i += 1;
        }
        Some(
            Radio_PrimaryStatusLF {
                primary_status: seen[0],
                kicker_status: seen[1],
                fan_status: seen[2],
                imu_status: seen[3],
                power_board_status: seen[4],
                motor_status: [seen[5], seen[6], seen[7], seen[8], seen[9]],
                motor_driver_temps: [data[10], data[11], data[12], data[13], data[14]],
                pack_voltages: [data[15], data[16]],
                cap_voltage: data[17],
            },
        )
    }

    /// A status that was written out is read back unchanged.
    #[verifier::rlimit(40)]
    pub proof fn lemma_parse_wire(self)
        ensures
            self.wire().len() == 18,
            Radio_PrimaryStatusLF::parse(self.wire()) == Some(self),
    {
        let w = self.wire();
        assert forall|k: int| 0 <= k < 10 implies (#[trigger] HG_Status::of_code(w[k])) is Some by {
            if k == 0 {
            } else if k == 1 {
            } else if k == 2 {
            } else if k == 3 {
            } else if k == 4 {
            } else if k == 5 {
            } else if k == 6 {
            } else if k == 7 {
            } else if k == 8 {
            } else {
            }
        }
        let r = Radio_PrimaryStatusLF::parse(w).unwrap();
        assert(r.motor_status =~= self.motor_status);
        assert(r.motor_driver_temps =~= self.motor_driver_temps);
        assert(r.pack_voltages =~= self.pack_voltages);
    }

    /// The image of the status that was read from `b` is `b`.
    #[verifier::rlimit(40)]
    pub proof fn lemma_wire_parse(b: Seq<u8>)
        requires
            Radio_PrimaryStatusLF::parse(b) is Some,
        ensures
            Radio_PrimaryStatusLF::parse(b).unwrap().wire() == b,
    {
        let r = Radio_PrimaryStatusLF::parse(b).unwrap();
        let w = r.wire();
        assert(w.len() == b.len());
        assert forall|k: int| 0 <= k < 18 implies w[k] == b[k] by {
            if k < 10 {
                assert(HG_Status::of_code(b[k]) is Some);
                HG_Status::lemma_code_of_code(b[k]);
            }
        }
        assert(w =~= b);
    }
}

/// Dead-reckoning telemetry of one robot. The link stores and forwards the
/// record and reads none of its fields, so it holds the 28 bytes as they are.
#[derive(Clone, Copy, Debug, PartialEq, Eq)]
pub struct Radio_OdometryReading {
    pub raw: [u8; 28],
}

impl AsBytes for Radio_OdometryReading {
    open spec fn wire(&self) -> Seq<u8> {
        self.raw@
    }

    fn as_bytes(&self) -> (bytes: Vec<u8>) {
        let mut bytes: Vec<u8> = Vec::new();
        bytes.extend_from_slice(self.raw.as_slice());
        bytes
    }
}

impl Radio_OdometryReading {
    /// The reading whose image is `b`: any 28 bytes are one.
    pub open spec fn parse(b: Seq<u8>) -> Option<Radio_OdometryReading> {
        if b.len() == 28 {
            Some(Radio_OdometryReading { raw: array28(b) })
        } else {
            None
        }
    }

    /// Reads a reading from exactly 28 bytes.
    pub fn from_bytes(data: &[u8]) -> (reading: Option<Radio_OdometryReading>)
        ensures
            reading == Radio_OdometryReading::parse(data@),
    {
        if data.len() != 28 {
            return None;
        }
        let raw: [u8; 28] = take(data, 0);
        proof {
            assert(data@.subrange(0, 28) =~= data@);
            lemma_array28(data@, raw);
        }
        Some(Radio_OdometryReading { raw })
    }

    /// A reading that was written out is read back unchanged, and the image
    /// of a reading that was read is what it was read from.
    #[verifier::rlimit(40)]
    pub proof fn lemma_parse_wire(self, b: Seq<u8>)
        ensures
            self.wire().len() == 28,
            Radio_OdometryReading::parse(self.wire()) == Some(self),
            b.len() == 28 ==> Radio_OdometryReading::parse(b).unwrap().wire() == b,
    {
        lemma_array28(b, self.raw);
    }
}

/// Order of the host to a robot to take a given state as its odometry. The
/// link forwards the record and reads none of its fields, so it holds the 28
/// bytes as they are.
#[derive(Clone, Copy, Debug, PartialEq, Eq)]
pub struct Radio_OverrideOdometry {
    pub raw: [u8; 28],
}

impl AsBytes for Radio_OverrideOdometry {
    open spec fn wire(&self) -> Seq<u8> {
        self.raw@
    }

    fn as_bytes(&self) -> (bytes: Vec<u8>) {
        let mut bytes: Vec<u8> = Vec::new();
        bytes.extend_from_slice(self.raw.as_slice());
        bytes
    }
}

impl Radio_OverrideOdometry {
    /// The order whose image is `b`: any 28 bytes are one.
    pub open spec fn parse(b: Seq<u8>) -> Option<Radio_OverrideOdometry> {
        if b.len() == 28 {
            Some(Radio_OverrideOdometry { raw: array28(b) })
        } else {
            None
        }
    }

    /// Reads an order from exactly 28 bytes.
    pub fn from_bytes(data: &[u8]) -> (order: Option<Radio_OverrideOdometry>)
        ensures
            order == Radio_OverrideOdometry::parse(data@),
    {
        if data.len() != 28 {
            return None;
        }
        let raw: [u8; 28] = take(data, 0);
        proof {
            assert(data@.subrange(0, 28) =~= data@);
            lemma_array28(data@, raw);
        }
        Some(Radio_OverrideOdometry { raw })
    }

    /// An order that was written out is read back unchanged, and the image of
    /// an order that was read is what it was read from.
    #[verifier::rlimit(40)]
    pub proof fn lemma_parse_wire(self, b: Seq<u8>)
        ensures
            self.wire().len() == 28,
            Radio_OverrideOdometry::parse(self.wire()) == Some(self),
            b.len() == 28 ==> Radio_OverrideOdometry::parse(b).unwrap().wire() == b,
    {
        lemma_array28(b, self.raw);
    }
}

/// Up to five configuration variables with their values, and what is asked
/// or reported of them. A slot whose variable is `HG_Variable_NONE` is empty.
#[derive(Clone, Copy, Debug, PartialEq, Eq)]
pub struct Radio_MultiConfigMessage {
    pub vars: [HG_Variable; 5],
    pub operation: HG_ConfigOperation,
    pub type_: HG_VariableType,
    pub _pad: u8,
    pub values: [u32; 5],
}

impl AsBytes for Radio_MultiConfigMessage {
    open spec fn wire(&self) -> Seq<u8> {
        self.vars@ + seq![self.operation.code(), self.type_, self._pad] + le_bytes(self.values[0])
            + le_bytes(self.values[1]) + le_bytes(self.values[2]) + le_bytes(self.values[3])
            + le_bytes(self.values[4])
    }

    fn as_bytes(&self) -> (bytes: Vec<u8>) {
        let mut bytes: Vec<u8> = Vec::new();
        bytes.push(self.vars[0]);
        bytes.push(self.vars[1]);
        bytes.push(self.vars[2]);
        bytes.push(self.vars[3]);
        bytes.push(self.vars[4]);
        bytes.push(self.operation.to_u8());
        bytes.push(self.type_);
        bytes.push(self._pad);
        put_word(&mut bytes, self.values[0]);
        put_word(&mut bytes, self.values[1]);
        put_word(&mut bytes, self.values[2]);
        put_word(&mut bytes, self.values[3]);
        put_word(&mut bytes, self.values[4]);
        assert(bytes@ =~= self.wire());
        bytes
    }
}

impl Radio_MultiConfigMessage {
    /// The image of a message is 28 bytes long, valid or not.
    pub proof fn lemma_wire_len(self)
        ensures
            self.wire().len() == 28,
    {
    }

    /// The padding of this message is zero, as the wire asks.
    pub open spec fn valid(&self) -> bool {
        self._pad == 0
    }

    /// `b` is the image of a message: 28 bytes with an operation code at
    /// offset 5 and zero padding at offset 7.
    pub open spec fn accepts(b: Seq<u8>) -> bool {
        b.len() == 28 && HG_ConfigOperation::of_code(b[5]) is Some && b[7] == 0
    }

    /// The message whose image is `b`, if `b` is the image of one.
    pub open spec fn parse(b: Seq<u8>) -> Option<Radio_MultiConfigMessage> {
        if Radio_MultiConfigMessage::accepts(b) {
            Some(
                Radio_MultiConfigMessage {
                    vars: [b[0], b[1], b[2], b[3], b[4]],
                    operation: HG_ConfigOperation::of_code(b[5]).unwrap(),
                    type_: b[6],
                    _pad: 0,
                    values: [
                        word_at(b, 8),
                        word_at(b, 12),
                        word_at(b, 16),
                        word_at(b, 20),
                        word_at(b, 24),
                    ],
                },
            )
        } else {
            None
        }
    }

    /// Reads a message from exactly 28 bytes; `None` where the length is
    /// another, the operation is no operation code or the padding is not zero.
    pub fn from_bytes(data: &[u8]) -> (message: Option<Radio_MultiConfigMessage>)
        ensures
            message == Radio_MultiConfigMessage::parse(data@),
    {
        if data.len() != 28 {
            return None;
        }
        if data[7] != 0 {
            return None;
        }
        match HG_ConfigOperation::from_u8(data[5]) {
            None => None,
            Some(operation) => Some(
                Radio_MultiConfigMessage {
                    vars: [data[0], data[1], data[2], data[3], data[4]],
                    operation,
                    type_: data[6],
                    _pad: 0,
                    values: [
                        get_word(data, 8),
                        get_word(data, 12),
                        get_word(data, 16),
                        get_word(data, 20),
                        get_word(data, 24),
                    ],
                },
            ),
        }
    }

    /// A valid message that was written out is read back unchanged.
    #[verifier::rlimit(40)]
    pub proof fn lemma_parse_wire(self)
        requires
            self.valid(),
        ensures
            self.wire().len() == 28,
            Radio_MultiConfigMessage::parse(self.wire()) == Some(self),
    {
        let e = Seq::<u8>::empty();
        let w = self.wire();
        let p = self.vars@ + seq![self.operation.code(), self.type_, self._pad];
        let a = le_bytes(self.values[0]);
        let b = le_bytes(self.values[1]);
        let c = le_bytes(self.values[2]);
        let d = le_bytes(self.values[3]);
        let f = le_bytes(self.values[4]);
        assert(w.len() == 28);
        assert(word_at(w, 8) == self.values[0]) by {
            lemma_word_in_place(p, self.values[0], b + c + d + f);
            assert(p + a + (b + c + d + f) =~= w);
        }
        assert(word_at(w, 12) == self.values[1]) by {
            lemma_word_in_place(p + a, self.values[1], c + d + f);
            assert(p + a + b + (c + d + f) =~= w);
        }
        assert(word_at(w, 16) == self.values[2]) by {
            lemma_word_in_place(p + a + b, self.values[2], d + f);
            assert(p + a + b + c + (d + f) =~= w);
        }
        assert(word_at(w, 20) == self.values[3]) by {
            lemma_word_in_place(p + a + b + c, self.values[3], f);
            assert(p + a + b + c + d + f =~= w);
        }
        assert(word_at(w, 24) == self.values[4]) by {
            lemma_word_in_place(p + a + b + c + d, self.values[4], e);
            assert(p + a + b + c + d + f + e =~= w);
        }
        assert(w[0] == self.vars[0] && w[1] == self.vars[1] && w[2] == self.vars[2] && w[3]
            == self.vars[3] && w[4] == self.vars[4]);
        assert(w[5] == self.operation.code() && w[6] == self.type_ && w[7] == self._pad);
        let r = Radio_MultiConfigMessage::parse(w).unwrap();
        assert(r.vars =~= self.vars);
        assert(r.values =~= self.values);
    }

    /// The message that was read from `b` is valid and its image is `b`.
    #[verifier::rlimit(40)]
    pub proof fn lemma_wire_parse(b: Seq<u8>)
        requires
            Radio_MultiConfigMessage::parse(b) is Some,
        ensures
            Radio_MultiConfigMessage::parse(b).unwrap().valid(),
            Radio_MultiConfigMessage::parse(b).unwrap().wire() == b,
    {
        lemma_word_covers(b, 8);
        lemma_word_covers(b, 12);
        lemma_word_covers(b, 16);
        lemma_word_covers(b, 20);
        lemma_word_covers(b, 24);
        HG_ConfigOperation::lemma_code_of_code(b[5]);
        let r = Radio_MultiConfigMessage::parse(b).unwrap();
        assert(r.wire() =~= b);
    }
}

} // verus!
