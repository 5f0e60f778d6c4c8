//! The base station as the host sees it: sixteen robot slots and the
//! station's own report, the debug trail of what arrived, and the rules that
//! route each received frame into them.
use vstd::prelude::*;
use std::collections::VecDeque;
use std::time::Duration;
use std::time::Instant;
use crate::base_station_client::robot::{Robot, RobotView};
use crate::base_station_client::serial::{
    decode_step, drained, frames_in, lemma_decode_frame, lemma_nothing_to_drain,
    lemma_one_frame_drains, lemma_step_shrinks, lemma_wrapper_round_trip, Decoded, Outcome,
    ReadStep, Serial, Step, SERIAL_BUF_LEN,
};
use crate::base_station_client::utils::{clock_elapsed, clock_now, Stamped, Telemetry};
use crate::glue::{
    frame, AsBytes, FRAME_START, Base_Information, HG_ConfigOperation, HG_Variable_NONE,
    HG_Variable_RADIO_CHANNEL, HG_VariableType_VOID, Radio_BaseStation_ID, Radio_Broadcast_ID,
    Radio_Command, Radio_ImuReadings, Radio_MessageWrapper, Radio_Message_Rust,
    Radio_MultiConfigMessage, Radio_OdometryReading, Radio_OverrideOdometry,
    Radio_MessageType, Radio_PrimaryStatusHF, Radio_PrimaryStatusLF, Radio_SSL_ID, HG_Status,
    LEN_BASE_INFORMATION, LEN_MESSAGE_WRAPPER, MAX_NUM_ROBOTS,
};
use crate::text::{decimal, hex, push_decimal, push_hex};
use crate::wire::{copy_range, lemma_array28};

verus! {

/// Most entries that a ring of the debug trail keeps.
pub const DEBUG_SCROLLBACK_LIMIT: usize = 500;

/// Calls `chrono::Local::now` and takes the milliseconds since the Unix epoch
/// from the result with `timestamp_millis`. The value is what the system
/// clock reads, so the contract claims nothing of it.
#[verifier::external_body]
pub(crate) fn wall_clock_millis() -> i64 {
    chrono::Local::now().timestamp_millis()
}

/// Where the payload of a received frame belongs.
#[derive(Clone, Copy, Debug, PartialEq, Eq)]
pub enum Routed {
    /// The base station's report of itself.
    BaseInformation(Base_Information),
    /// A message of the robot with this identifier, which is below 16. The
    /// message is `Empty` where the wrapper or its record was not valid.
    Robot(Radio_SSL_ID, Radio_Message_Rust),
    /// A wrapper for an identifier of 16 or more: not for this host.
    Elsewhere,
    /// A payload that has the size of no record.
    Unknown,
}

/// Where `payload` belongs. The size alone tells a report from a wrapper; a
/// wrapper is looked at only if its identifier is that of a robot.
pub open spec fn route(payload: Seq<u8>) -> Routed {
    if payload.len() == LEN_BASE_INFORMATION {
        Routed::BaseInformation(Base_Information::parse(payload).unwrap())
    } else if payload.len() == LEN_MESSAGE_WRAPPER {
        if payload[0] >= MAX_NUM_ROBOTS {
            Routed::Elsewhere
        } else {
            match Radio_MessageWrapper::parse(payload) {
                Some(wrapper) => Routed::Robot(
                    payload[0],
                    Radio_Message_Rust::unwrapped(wrapper.msg),
                ),
                None => Routed::Robot(payload[0], Radio_Message_Rust::Empty),
            }
        }
    } else {
        Routed::Unknown
    }
}

/// Finds where the payload of a received frame belongs.
pub fn classify(data: &[u8]) -> (routed: Routed)
    ensures
        routed == route(data@),
{
    let len = data.len();
    if len == LEN_BASE_INFORMATION {
        assert(data@.subrange(0, len as int) =~= data@);
        match Base_Information::from_bytes(copy_range(data, 0, len)) {
            Some(base_info) => Routed::BaseInformation(base_info),
            None => Routed::Unknown,
        }
    } else if len == LEN_MESSAGE_WRAPPER {
        let id = data[0];
        if id as usize >= MAX_NUM_ROBOTS {
            return Routed::Elsewhere;
        }
        assert(data@.subrange(0, len as int) =~= data@);
        match Radio_MessageWrapper::from_bytes(copy_range(data, 0, len)) {
            Some(msg) => Routed::Robot(id, Radio_Message_Rust::unwrap(msg.msg)),
            None => Routed::Robot(id, Radio_Message_Rust::Empty),
        }
    } else {
        Routed::Unknown
    }
}

impl Routed {
    /// This payload renews a cell of a robot: it is a valid status or
    /// inertial reading of one.
    pub open spec fn renews_robot(&self) -> bool {
        self matches Routed::Robot(_, msg) && (msg is PrimaryStatusHF || msg is PrimaryStatusLF
            || msg is ImuReadings)
    }

    /// This payload renews the cell of the given kind in the slot of the
    /// robot `id`: it is a valid record of that kind from that robot.
    pub open spec fn renews(&self, id: int, kind: Telemetry) -> bool {
        match self {
            Routed::Robot(robot, Radio_Message_Rust::PrimaryStatusHF(_)) => robot == id && kind
                == Telemetry::StatusHF,
            Routed::Robot(robot, Radio_Message_Rust::PrimaryStatusLF(_)) => robot == id && kind
                == Telemetry::StatusLF,
            Routed::Robot(robot, Radio_Message_Rust::ImuReadings(_)) => robot == id && kind
                == Telemetry::ImuReading,
            _ => false,
        }
    }

    /// This payload renews some cell in the slot of the robot `id`.
    pub open spec fn renews_slot(&self, id: int) -> bool {
        self matches Routed::Robot(robot, _) && robot == id && self.renews_robot()
    }

    /// This payload is one that the host expects to receive: the station's
    /// report, or a robot's status, inertial reading, odometry or
    /// configuration message.
    pub open spec fn expected(&self) -> bool {
        match self {
            Routed::BaseInformation(_) => true,
            Routed::Robot(_, msg) => !(msg is Command) && !(msg is Empty),
            _ => false,
        }
    }

    /// The label of the debug line of this payload: `B` for the base station,
    /// the identifier in decimal for a robot, `?` for unknown data.
    pub open spec fn label(&self) -> Seq<char> {
        match self {
            Routed::BaseInformation(_) => seq!['B'],
            Routed::Robot(id, _) => decimal(*id as nat),
            _ => seq!['?'],
        }
    }
}

/// What the host knows of the robots and of the station, without the moments
/// of arrival.
pub ghost struct Snapshot {
    pub robots: Seq<RobotView>,
    pub base_info: Option<Base_Information>,
}

impl Snapshot {
    /// The snapshot after a payload was routed into it. A status or reading
    /// of a robot takes its cell in that robot's slot, a report becomes the
    /// station's; everything else leaves the snapshot as it is.
    pub open spec fn after(self, routed: Routed) -> Snapshot {
        match routed {
            Routed::BaseInformation(base_info) => Snapshot {
                base_info: Some(base_info),
                ..self
            },
            Routed::Robot(id, Radio_Message_Rust::PrimaryStatusHF(status_hf)) => Snapshot {
                robots: self.robots.update(
                    id as int,
                    RobotView { status_hf: Some(status_hf), ..self.robots[id as int] },
                ),
                ..self
            },
            Routed::Robot(id, Radio_Message_Rust::PrimaryStatusLF(status_lf)) => Snapshot {
                robots: self.robots.update(
                    id as int,
                    RobotView { status_lf: Some(status_lf), ..self.robots[id as int] },
                ),
                ..self
            },
            Routed::Robot(id, Radio_Message_Rust::ImuReadings(imu_reading)) => Snapshot {
                robots: self.robots.update(
                    id as int,
                    RobotView { imu_reading: Some(imu_reading), ..self.robots[id as int] },
                ),
                ..self
            },
            _ => self,
        }
    }

    /// The snapshot after the payloads of `frames` were routed into it in
    /// their order.
    pub open spec fn after_all(self, frames: Seq<Seq<u8>>) -> Snapshot
        decreases frames.len(),
    {
        if frames.len() == 0 {
            self
        } else {
            self.after_all(frames.drop_last()).after(route(frames.last()))
        }
    }
}

/// Some payload of `frames` renews a cell of a robot.
pub open spec fn any_renews_robot(frames: Seq<Seq<u8>>) -> bool {
    exists|i: int| 0 <= i < frames.len() && (#[trigger] route(frames[i])).renews_robot()
}

/// Some payload of `frames` renews the cell of the given kind in the slot of
/// the robot `id`.
pub open spec fn any_renews(frames: Seq<Seq<u8>>, id: int, kind: Telemetry) -> bool {
    exists|i: int| 0 <= i < frames.len() && (#[trigger] route(frames[i])).renews(id, kind)
}

/// Some payload of `frames` renews some cell in the slot of the robot `id`.
pub open spec fn any_renews_slot(frames: Seq<Seq<u8>>, id: int) -> bool {
    exists|i: int| 0 <= i < frames.len() && (#[trigger] route(frames[i])).renews_slot(id)
}

/// Some payload of `frames` is a report of the station.
pub open spec fn any_base_information(frames: Seq<Seq<u8>>) -> bool {
    exists|i: int| 0 <= i < frames.len() && (#[trigger] route(frames[i])) is BaseInformation
}

/// The base station aggregate: the slots of the sixteen robots, the station's
/// latest report, the buffer of the transport, and the moment of connection.
#[derive(Debug)]
pub struct BaseStation {
    pub robots: [Robot; 16],
    pub base_info: Stamped<Base_Information>,
    pub serial: Serial,
    pub start_time: Instant,
}

impl BaseStation {
    /// What this aggregate knows of the robots and of the station.
    pub open spec fn snapshot(&self) -> Snapshot {
        Snapshot {
            robots: Seq::new(16, |i: int| self.robots[i]@),
            base_info: self.base_info.value(),
        }
    }

    /// What routing the one payload `routed` into `before` leaves as it was
    /// in `after`, value and moment of arrival: every cell that the payload
    /// does not renew, so every slot of another robot and, unless the payload
    /// is a report, the station's report; and the moment of connection.
    pub open spec fn spared_by(before: BaseStation, after: BaseStation, routed: Routed) -> bool {
        &&& forall|i: int|
            #![trigger after.robots[i]]
            0 <= i < 16 && !routed.renews(i, Telemetry::StatusHF) ==> after.robots[i].hf_cell()
                == before.robots[i].hf_cell()
        &&& forall|i: int|
            #![trigger after.robots[i]]
            0 <= i < 16 && !routed.renews(i, Telemetry::StatusLF) ==> after.robots[i].lf_cell()
                == before.robots[i].lf_cell()
        &&& forall|i: int|
            #![trigger after.robots[i]]
            0 <= i < 16 && !routed.renews(i, Telemetry::ImuReading) ==> after.robots[i].imu_cell()
                == before.robots[i].imu_cell()
        &&& forall|i: int|
            #![trigger after.robots[i]]
            0 <= i < 16 && !routed.renews_slot(i) ==> after.robots[i] == before.robots[i]
        &&& !routed.renews_robot() ==> after.robots == before.robots
        &&& !(routed is BaseInformation) ==> after.base_info == before.base_info
        &&& after.start_time == before.start_time
    }

    /// What routing the payloads of `frames` into `before` leaves as it was
    /// in `after`, value and moment of arrival: every cell that none of the
    /// payloads renews, so every slot of which none renews a cell, all slots
    /// if none renews any, and the station's report if none is a report; and
    /// the moment of connection.
    pub open spec fn spared(before: BaseStation, after: BaseStation, frames: Seq<Seq<u8>>) -> bool {
        &&& forall|i: int|
            #![trigger after.robots[i]]
            0 <= i < 16 && !any_renews(frames, i, Telemetry::StatusHF)
                ==> after.robots[i].hf_cell() == before.robots[i].hf_cell()
        &&& forall|i: int|
            #![trigger after.robots[i]]
            0 <= i < 16 && !any_renews(frames, i, Telemetry::StatusLF)
                ==> after.robots[i].lf_cell() == before.robots[i].lf_cell()
        &&& forall|i: int|
            #![trigger after.robots[i]]
            0 <= i < 16 && !any_renews(frames, i, Telemetry::ImuReading)
                ==> after.robots[i].imu_cell() == before.robots[i].imu_cell()
        &&& forall|i: int|
            #![trigger after.robots[i]]
            0 <= i < 16 && !any_renews_slot(frames, i) ==> after.robots[i] == before.robots[i]
        &&& !any_renews_robot(frames) ==> after.robots == before.robots
        &&& !any_base_information(frames) ==> after.base_info == before.base_info
        &&& after.start_time == before.start_time
    }

    /// An aggregate that has heard nothing yet, connected now.
    pub fn new() -> (station: BaseStation)
        ensures
            station.base_info.value() is None,
            station.serial.pending() == Seq::<u8>::empty(),
            forall|i: int|
                0 <= i < 16 ==> (#[trigger] station.robots[i])@ == (RobotView {
                    status_hf: None,
                    status_lf: None,
                    imu_reading: None,
                }),
    {
        let robot = Robot::default();
        BaseStation {
            robots: [robot; 16],
            base_info: Stamped::NothingYet,
            serial: Serial::new(),
            start_time: clock_now(),
        }
    }

    /// The time since this aggregate was made.
    pub fn connection_time(&self) -> Duration {
        clock_elapsed(&self.start_time)
    }

    /// Routes one payload into the aggregate. A valid status or inertial
    /// reading of a robot takes its cell in that robot's slot with the
    /// present moment, a report becomes the station's; every other cell, the
    /// buffer of the transport and the moment of connection stay as they
    /// are. The pair that is returned says whether a robot slot was renewed
    /// and whether the station's report was.
    pub fn apply(&mut self, routed: Routed) -> (updated: (bool, bool))
        requires
            routed matches Routed::Robot(id, _) ==> id < MAX_NUM_ROBOTS,
        ensures
            final(self).snapshot() == old(self).snapshot().after(routed),
            updated.0 == routed.renews_robot(),
            updated.1 == (routed is BaseInformation),
            final(self).serial == old(self).serial,
            BaseStation::spared_by(*old(self), *final(self), routed),
    {
        let mut updated = (false, false);
        match routed {
            Routed::BaseInformation(base_info) => {
                self.base_info.update(base_info);
                updated = (false, true);
            },
            Routed::Robot(id, Radio_Message_Rust::PrimaryStatusHF(status_hf)) => {
                self.robots[id as usize].update_status_hf(status_hf);
                updated = (true, false);
            },
            Routed::Robot(id, Radio_Message_Rust::PrimaryStatusLF(status_lf)) => {
                self.robots[id as usize].update_status_lf(status_lf);
                updated = (true, false);
            },
            Routed::Robot(id, Radio_Message_Rust::ImuReadings(imu_reading)) => {
                self.robots[id as usize].update_imu_reading(imu_reading);
                updated = (true, false);
            },
            _ => {},
        }
        assert(self.snapshot().robots =~= old(self).snapshot().after(routed).robots);
        assert(!routed.renews_robot() ==> self.robots =~= old(self).robots);
        updated
    }

    /// Takes in what a read step on the primary port gave, then routes every
    /// frame that is ready into the aggregate and, where a trail is given,
    /// records it there.
    ///
    /// Only a failed port is an error; it leaves everything as it was. In
    /// every other case the buffer is looked at until it asks for more bytes:
    /// frames that are rejected are passed over, and the payloads of the
    /// others are routed in their order. A cell that none of them renews
    /// keeps its value and its moment of arrival, as `spared` says. The pair
    /// that is returned says whether some robot slot was renewed and whether
    /// the station's report was.
    pub fn read_and_parse(&mut self, read: ReadStep, debug: Option<&mut Debug>) -> (result: Result<
        (bool, bool),
        (),
    >)
        requires
            read matches ReadStep::Data(bytes) ==> old(self).serial.pending().len() + bytes@.len()
                < SERIAL_BUF_LEN,
        ensures
            result is Err <==> read is Failed,
            read is Failed ==> *final(self) == *old(self) && (debug matches Some(trail)
                ==> *final(trail) == *trail),
            result matches Ok(updated) ==> {
                let buf = Serial::after_read(old(self).serial.pending(), read);
                &&& final(self).serial.pending() == drained(buf)
                &&& final(self).snapshot() == old(self).snapshot().after_all(frames_in(buf))
                &&& updated.0 == any_renews_robot(frames_in(buf))
                &&& updated.1 == any_base_information(frames_in(buf))
                &&& BaseStation::spared(*old(self), *final(self), frames_in(buf))
                &&& debug matches Some(trail) ==> Debug::took_all(
                    *trail,
                    *final(trail),
                    frames_in(buf),
                )
            },
    {
        match self.serial.read(read) {
            Err(_) => {
                return Err(());
            },
            Ok(_) => {},
        }
        match debug {
            Some(trail) => Ok(self.drain_recorded(trail)),
            None => Ok(self.drain()),
        }
    }

    /// Routes every frame that is ready into the aggregate.
    fn drain(&mut self) -> (updated: (bool, bool))
        ensures
            final(self).serial.pending() == drained(old(self).serial.pending()),
            final(self).snapshot() == old(self).snapshot().after_all(
                frames_in(old(self).serial.pending()),
            ),
            updated.0 == any_renews_robot(frames_in(old(self).serial.pending())),
            updated.1 == any_base_information(frames_in(old(self).serial.pending())),
            BaseStation::spared(*old(self), *final(self), frames_in(old(self).serial.pending())),
    {
        let mut update_robots = false;
        let mut update_base_info = false;
        let ghost start = self.serial.pending();
        let ghost mut done: Seq<Seq<u8>> = Seq::empty();
        assert(done + frames_in(start) =~= frames_in(start));
        assert(self.snapshot().robots =~= old(self).snapshot().after_all(done).robots);
        loop
            invariant_except_break
                frames_in(start) == done + frames_in(self.serial.pending()),
                drained(start) == drained(self.serial.pending()),
            invariant
                start == old(self).serial.pending(),
                self.snapshot() == old(self).snapshot().after_all(done),
                update_robots == any_renews_robot(done),
                update_base_info == any_base_information(done),
                BaseStation::spared(*old(self), *self, done),
            ensures
                frames_in(start) == done,
                drained(start) == self.serial.pending(),
            decreases self.serial.pending().len(),
        {
            let ghost before = self.serial.pending();
            proof {
                lemma_step_shrinks(before);
            }
            match self.serial.decode() {
                Decoded::Frame(data) => {
                    let routed = classify(data.as_slice());
                    let ghost station_before = *self;
                    let updated = self.apply(routed);
                    update_robots = update_robots || updated.0;
                    update_base_info = update_base_info || updated.1;
                    proof {
                        lemma_one_more(done, data@);
                        lemma_spared_one_more(*old(self), station_before, *self, done, data@);
                        assert(frames_in(before) == seq![data@] + frames_in(self.serial.pending()));
                        assert(done.push(data@) + frames_in(self.serial.pending()) =~= done
                            + frames_in(before));
                        done = done.push(data@);
                    }
                },
                Decoded::NeedMore => {
                    assert(done + frames_in(before) =~= done);
                    break ;
                },
                _ => {},
            }
        }
        (update_robots, update_base_info)
    }

    /// Routes every frame that is ready into the aggregate and records it in
    /// `trail`.
    fn drain_recorded(&mut self, trail: &mut Debug) -> (updated: (bool, bool))
        ensures
            final(self).serial.pending() == drained(old(self).serial.pending()),
            final(self).snapshot() == old(self).snapshot().after_all(
                frames_in(old(self).serial.pending()),
            ),
            updated.0 == any_renews_robot(frames_in(old(self).serial.pending())),
            updated.1 == any_base_information(frames_in(old(self).serial.pending())),
            BaseStation::spared(*old(self), *final(self), frames_in(old(self).serial.pending())),
            Debug::took_all(*old(trail), *final(trail), frames_in(old(self).serial.pending())),
    {
        let mut update_robots = false;
        let mut update_base_info = false;
        let ghost start = self.serial.pending();
        let ghost mut done: Seq<Seq<u8>> = Seq::empty();
        assert(done + frames_in(start) =~= frames_in(start));
        assert(self.snapshot().robots =~= old(self).snapshot().after_all(done).robots);
        loop
            invariant_except_break
                frames_in(start) == done + frames_in(self.serial.pending()),
                drained(start) == drained(self.serial.pending()),
            invariant
                start == old(self).serial.pending(),
                self.snapshot() == old(self).snapshot().after_all(done),
                update_robots == any_renews_robot(done),
                update_base_info == any_base_information(done),
                BaseStation::spared(*old(self), *self, done),
                Debug::took_all(*old(trail), *trail, done),
            ensures
                frames_in(start) == done,
                drained(start) == self.serial.pending(),
            decreases self.serial.pending().len(),
        {
            let ghost before = self.serial.pending();
            let ghost trail_before = *trail;
            proof {
                lemma_step_shrinks(before);
            }
            match self.serial.decode() {
                Decoded::Frame(data) => {
                    let routed = classify(data.as_slice());
                    let ghost station_before = *self;
                    let updated = self.apply(routed);
                    update_robots = update_robots || updated.0;
                    update_base_info = update_base_info || updated.1;
                    let ghost payload = data@;
                    let now = wall_clock_millis();
                    trail.record(routed, data, now);
                    proof {
                        lemma_one_more(done, payload);
                        lemma_spared_one_more(
                            *old(self),
                            station_before,
                            *self,
                            done,
                            payload,
                        );
                        assert(frames_in(before) == seq![payload] + frames_in(
                            self.serial.pending(),
                        ));
                        assert(done.push(payload) + frames_in(self.serial.pending()) =~= done
                            + frames_in(before));
                        assert(done.push(payload).drop_last() =~= done);
                        assert(Debug::took(trail_before, *trail, route(payload), payload, now));
                        done = done.push(payload);
                    }
                },
                Decoded::NeedMore => {
                    assert(done + frames_in(before) =~= done);
                    break ;
                },
                _ => {},
            }
        }
        (update_robots, update_base_info)
    }
}

/// The 28 bytes of payload of the message in a wrapper that was read from
/// `payload` are the last 28 bytes of `payload`.
pub proof fn lemma_wrapped_payload(payload: Seq<u8>)
    requires
        Radio_MessageWrapper::parse(payload) is Some,
    ensures
        Radio_MessageWrapper::parse(payload).unwrap().msg.msg@ == payload.subrange(8, 36),
        Radio_MessageWrapper::parse(payload).unwrap().msg.mt.code() == payload[4],
{
    let inner = payload.subrange(4, 36);
    let wrapper = Radio_MessageWrapper::parse(payload).unwrap();
    lemma_array28(inner.subrange(4, 32), wrapper.msg.msg);
    assert(inner.subrange(4, 32) =~= payload.subrange(8, 36));
    Radio_MessageType::lemma_code_of_code(inner[0]);
}

/// A wrapper for an identifier of 16 or more changes nothing of what the
/// host knows of the robots and of the station.
pub proof fn lemma_foreign_wrapper_ignored(payload: Seq<u8>, snapshot: Snapshot)
    requires
        payload.len() == LEN_MESSAGE_WRAPPER,
        payload[0] >= MAX_NUM_ROBOTS,
    ensures
        route(payload) is Elsewhere,
        snapshot.after(route(payload)) == snapshot,
{
}

/// A wrapper that announces a high-frequency status and has a byte other
/// than zero at one of its padding offsets changes nothing of what the host
/// knows. The padding of such a wrapper is at the offsets 1 to 3 and 5 to 7,
/// and in the status at the offsets 8 to 11 and 34 to 35.
pub proof fn lemma_padded_status_hf_ignored(payload: Seq<u8>, at: int, snapshot: Snapshot)
    requires
        payload.len() == LEN_MESSAGE_WRAPPER,
        payload[4] == Radio_MessageType::PrimaryStatusHF.code(),
        1 <= at < 4 || 5 <= at < 12 || 34 <= at < 36,
        payload[at] != 0,
    ensures
        !route(payload).renews_robot(),
        snapshot.after(route(payload)) == snapshot,
{
    if payload[0] < MAX_NUM_ROBOTS && Radio_MessageWrapper::parse(payload) is Some {
        let wrapper = Radio_MessageWrapper::parse(payload).unwrap();
        lemma_wrapped_payload(payload);
        let p = wrapper.msg.msg@;
        if at < 4 {
            assert(payload.subrange(1, 4)[at - 1] != 0);
        } else if at < 8 {
            assert(payload.subrange(4, 36).subrange(1, 4)[at - 5] != 0);
        } else if at < 12 {
            assert(p.subrange(0, 4)[at - 8] != 0);
        } else {
            assert(p.subrange(26, 28)[at - 34] != 0);
        }
        assert(Radio_PrimaryStatusHF::parse(p) is None);
        assert(wrapper.msg.mt == Radio_MessageType::PrimaryStatusHF);
    }
}

/// A wrapper that announces a low-frequency status and has a byte that is no
/// status code at the offset of one of its ten statuses, 8 to 17, changes
/// nothing of what the host knows.
pub proof fn lemma_bad_status_lf_ignored(payload: Seq<u8>, at: int, snapshot: Snapshot)
    requires
        payload.len() == LEN_MESSAGE_WRAPPER,
        payload[4] == Radio_MessageType::PrimaryStatusLF.code(),
        8 <= at < 18,
        HG_Status::of_code(payload[at]) is None,
    ensures
        !route(payload).renews_robot(),
        snapshot.after(route(payload)) == snapshot,
{
    if payload[0] < MAX_NUM_ROBOTS && Radio_MessageWrapper::parse(payload) is Some {
        let wrapper = Radio_MessageWrapper::parse(payload).unwrap();
        lemma_wrapped_payload(payload);
        let p = wrapper.msg.msg@;
        assert(p.subrange(0, 18)[at - 8] == payload[at]);
        assert(!Radio_PrimaryStatusLF::accepts(p.subrange(0, 18)));
        assert(wrapper.msg.mt == Radio_MessageType::PrimaryStatusLF);
    }
}

/// What is sent comes back as it was: the frame that carries a valid message
/// to a node is decoded to the bytes of its wrapper, and those bytes are
/// routed as that message of that node if the node is a robot, and as meant
/// for another host if it is not.
pub proof fn lemma_sent_is_received(id: Radio_SSL_ID, msg: Radio_Message_Rust)
    requires
        msg.valid(),
    ensures
        frame(Serial::addressed(id, msg).wire()).len() == LEN_MESSAGE_WRAPPER + 3,
        decode_step(frame(Serial::addressed(id, msg).wire())) == (Step {
            outcome: Outcome::Frame(Serial::addressed(id, msg).wire()),
            rest: Seq::empty(),
        }),
        route(Serial::addressed(id, msg).wire()) == if id < MAX_NUM_ROBOTS {
            Routed::Robot(id, msg)
        } else {
            Routed::Elsewhere
        },
{
    let wrapper = Serial::addressed(id, msg);
    msg.lemma_payload();
    msg.lemma_unwrap_wrap();
    wrapper.lemma_parse_wire();
    let e = Seq::<u8>::empty();
    lemma_decode_frame(e, wrapper.wire(), e);
    assert(e + frame(wrapper.wire()) + e =~= frame(wrapper.wire()));
}

/// What a single payload renews is what its route renews, and routing it
/// alone is one step from the snapshot before.
pub proof fn lemma_one_payload(payload: Seq<u8>)
    ensures
        any_renews_robot(seq![payload]) == route(payload).renews_robot(),
        any_base_information(seq![payload]) == (route(payload) is BaseInformation),
        forall|id: int, kind: Telemetry| #[trigger]
            any_renews(seq![payload], id, kind) == route(payload).renews(id, kind),
        forall|id: int| #[trigger]
            any_renews_slot(seq![payload], id) == route(payload).renews_slot(id),
        forall|snapshot: Snapshot| #[trigger]
            snapshot.after_all(seq![payload]) == snapshot.after(route(payload)),
{
    let none = Seq::<Seq<u8>>::empty();
    lemma_no_payload();
    lemma_one_more(none, payload);
    assert(none.push(payload) =~= seq![payload]);
}

/// No payload renews nothing and leaves the snapshot as it is.
pub proof fn lemma_no_payload()
    ensures
        !any_renews_robot(Seq::<Seq<u8>>::empty()),
        !any_base_information(Seq::<Seq<u8>>::empty()),
        forall|id: int, kind: Telemetry| !#[trigger] any_renews(Seq::<Seq<u8>>::empty(), id, kind),
        forall|id: int| !#[trigger] any_renews_slot(Seq::<Seq<u8>>::empty(), id),
        forall|snapshot: Snapshot| #[trigger]
            snapshot.after_all(Seq::<Seq<u8>>::empty()) == snapshot,
{
}

/// What one more payload adds to those that were routed before it.
pub proof fn lemma_one_more(done: Seq<Seq<u8>>, payload: Seq<u8>)
    ensures
        any_renews_robot(done.push(payload)) == (any_renews_robot(done) || route(
            payload,
        ).renews_robot()),
        any_base_information(done.push(payload)) == (any_base_information(done) || route(
            payload,
        ) is BaseInformation),
        forall|id: int, kind: Telemetry| #[trigger]
            any_renews(done.push(payload), id, kind) == (any_renews(done, id, kind) || route(
                payload,
            ).renews(id, kind)),
        forall|id: int| #[trigger]
            any_renews_slot(done.push(payload), id) == (any_renews_slot(done, id) || route(
                payload,
            ).renews_slot(id)),
        forall|snapshot: Snapshot| #[trigger]
            snapshot.after_all(done.push(payload)) == snapshot.after_all(done).after(
                route(payload),
            ),
{
    let more = done.push(payload);
    let last = done.len() as int;
    assert(more.drop_last() =~= done);
    assert(more.last() == payload);
    assert(more[last] == payload);
    assert forall|i: int| 0 <= i < done.len() implies more[i] == done[i] by {}
    if any_renews_robot(done) {
        let i = choose|i: int| 0 <= i < done.len() && (#[trigger] route(done[i])).renews_robot();
        assert(route(more[i]).renews_robot());
    }
    if route(payload).renews_robot() {
        assert(route(more[last]).renews_robot());
    }
    if any_renews_robot(more) {
        let i = choose|i: int| 0 <= i < more.len() && (#[trigger] route(more[i])).renews_robot();
        if i < done.len() {
            assert(route(done[i]).renews_robot());
        }
    }
    if any_base_information(done) {
        let i = choose|i: int| 0 <= i < done.len() && (#[trigger] route(done[i])) is BaseInformation;
        assert(route(more[i]) is BaseInformation);
    }
    if route(payload) is BaseInformation {
        assert(route(more[last]) is BaseInformation);
    }
    if any_base_information(more) {
        let i = choose|i: int| 0 <= i < more.len() && (#[trigger] route(more[i])) is BaseInformation;
        if i < done.len() {
            assert(route(done[i]) is BaseInformation);
        }
    }
    assert forall|id: int, kind: Telemetry| #[trigger]
        any_renews(more, id, kind) == (any_renews(done, id, kind) || route(payload).renews(
            id,
            kind,
        )) by {
        if any_renews(done, id, kind) {
            let i = choose|i: int|
                0 <= i < done.len() && (#[trigger] route(done[i])).renews(id, kind);
            assert(route(more[i]).renews(id, kind));
        }
        if route(payload).renews(id, kind) {
            assert(route(more[last]).renews(id, kind));
        }
        if any_renews(more, id, kind) {
            let i = choose|i: int|
                0 <= i < more.len() && (#[trigger] route(more[i])).renews(id, kind);
            if i < done.len() {
                assert(route(done[i]).renews(id, kind));
            }
        }
    }
    assert forall|id: int| #[trigger]
        any_renews_slot(more, id) == (any_renews_slot(done, id) || route(payload).renews_slot(
            id,
        )) by {
        if any_renews_slot(done, id) {
            let i = choose|i: int|
                0 <= i < done.len() && (#[trigger] route(done[i])).renews_slot(id);
            assert(route(more[i]).renews_slot(id));
        }
        if route(payload).renews_slot(id) {
            assert(route(more[last]).renews_slot(id));
        }
        if any_renews_slot(more, id) {
            let i = choose|i: int|
                0 <= i < more.len() && (#[trigger] route(more[i])).renews_slot(id);
            if i < done.len() {
                assert(route(done[i]).renews_slot(id));
            }
        }
    }
}

/// What stays as it was through the payloads routed so far and through one
/// more stays as it was through all of them.
pub proof fn lemma_spared_one_more(
    before: BaseStation,
    mid: BaseStation,
    after: BaseStation,
    done: Seq<Seq<u8>>,
    payload: Seq<u8>,
)
    requires
        BaseStation::spared(before, mid, done),
        BaseStation::spared_by(mid, after, route(payload)),
    ensures
        BaseStation::spared(before, after, done.push(payload)),
{
    lemma_one_more(done, payload);
    let more = done.push(payload);
    assert forall|i: int|
        0 <= i < 16 && !any_renews(more, i, Telemetry::StatusHF) implies after.robots[i].hf_cell()
        == before.robots[i].hf_cell() by {
        assert(!any_renews(done, i, Telemetry::StatusHF));
        assert(!route(payload).renews(i, Telemetry::StatusHF));
    }
    assert forall|i: int|
        0 <= i < 16 && !any_renews(more, i, Telemetry::StatusLF) implies after.robots[i].lf_cell()
        == before.robots[i].lf_cell() by {
        assert(!any_renews(done, i, Telemetry::StatusLF));
        assert(!route(payload).renews(i, Telemetry::StatusLF));
    }
    assert forall|i: int|
        0 <= i < 16 && !any_renews(more, i, Telemetry::ImuReading) implies after.robots[i].imu_cell()
        == before.robots[i].imu_cell() by {
        assert(!any_renews(done, i, Telemetry::ImuReading));
        assert(!route(payload).renews(i, Telemetry::ImuReading));
    }
    assert forall|i: int| 0 <= i < 16 && !any_renews_slot(more, i) implies after.robots[i]
        == before.robots[i] by {
        assert(!any_renews_slot(done, i));
        assert(!route(payload).renews_slot(i));
    }
}

/// What a line of the debug trail tells of.
#[derive(Debug, PartialEq, Eq)]
pub enum DebugEntry {
    BaseInformation(Base_Information),
    PrimaryStatusHF(Radio_PrimaryStatusHF),
    PrimaryStatusLF(Radio_PrimaryStatusLF),
    ImuReadings(Radio_ImuReadings),
    OdometryReading(Radio_OdometryReading),
    OverrideOdometry(Radio_OverrideOdometry),
    MultiConfigMessage(Radio_MultiConfigMessage),
    /// A wrapper that held nothing the host expects of a robot.
    UnknownMessageType,
    /// A payload of the size of no record; these are its bytes.
    UnknownData(Vec<u8>),
}

impl DebugEntry {
    /// This entry tells of the payload `payload`, which was routed as
    /// `routed`.
    pub open spec fn tells(&self, routed: Routed, payload: Seq<u8>) -> bool {
        match routed {
            Routed::BaseInformation(base_info) => self matches DebugEntry::BaseInformation(b)
                && b == base_info,
            Routed::Robot(_, Radio_Message_Rust::PrimaryStatusHF(status_hf)) => self matches DebugEntry::PrimaryStatusHF(
                s,
            ) && s == status_hf,
            Routed::Robot(_, Radio_Message_Rust::PrimaryStatusLF(status_lf)) => self matches DebugEntry::PrimaryStatusLF(
                s,
            ) && s == status_lf,
            Routed::Robot(_, Radio_Message_Rust::ImuReadings(imu_reading)) => self matches DebugEntry::ImuReadings(
                r,
            ) && r == imu_reading,
            Routed::Robot(_, Radio_Message_Rust::OdometryReading(odo_reading)) => self matches DebugEntry::OdometryReading(
                r,
            ) && r == odo_reading,
            Routed::Robot(_, Radio_Message_Rust::OverrideOdometry(over_odo)) => self matches DebugEntry::OverrideOdometry(
                o,
            ) && o == over_odo,
            Routed::Robot(_, Radio_Message_Rust::MultiConfigMessage(mcm)) => self matches DebugEntry::MultiConfigMessage(
                m,
            ) && m == mcm,
            Routed::Robot(_, _) => self is UnknownMessageType,
            Routed::Unknown => self matches DebugEntry::UnknownData(bytes) && bytes@ == payload,
            Routed::Elsewhere => false,
        }
    }

    /// The text of this entry where it is a remark and no record: `Unknown
    /// Message Type`, or `Unknown Data: ` and the bytes in hexadecimal.
    pub open spec fn note_text(&self) -> Option<Seq<char>> {
        match self {
            DebugEntry::UnknownMessageType => Some("Unknown Message Type"@),
            DebugEntry::UnknownData(bytes) => Some("Unknown Data: "@ + hex(bytes@)),
            _ => None,
        }
    }

    /// Writes the text of this entry where it is a remark; `None` where it
    /// is a record, which has no text of its own.
    pub fn note(&self) -> (text: Option<String>)
        ensures
            match self.note_text() {
                Some(expected) => text matches Some(t) && t@ == expected,
                None => text is None,
            },
    {
        match self {
            DebugEntry::UnknownMessageType => Some("Unknown Message Type".to_owned()),
            DebugEntry::UnknownData(bytes) => {
                let mut text = "Unknown Data: ".to_owned();
                push_hex(&mut text, bytes.as_slice());
                Some(text)
            },
            _ => None,
        }
    }
}

/// One line of the debug trail: when it was written in milliseconds since the
/// Unix epoch, whom it is about, and what it tells of.
#[derive(Debug, PartialEq, Eq)]
pub struct DebugLine {
    pub time: i64,
    pub label: String,
    pub entry: DebugEntry,
}

/// A ring after `item` went in at its front: the newest entries, at most 500.
pub open spec fn pushed<T>(ring: Seq<T>, item: T) -> Seq<T> {
    let all = seq![item] + ring;
    if all.len() > DEBUG_SCROLLBACK_LIMIT {
        all.subrange(0, DEBUG_SCROLLBACK_LIMIT as int)
    } else {
        all
    }
}

/// The value that the first `slots` slots of `mcm` give for the variable
/// `var`: that of the last of them that names it.
pub open spec fn given(mcm: Radio_MultiConfigMessage, var: int, slots: int) -> Option<u32>
    decreases slots,
{
    if slots <= 0 {
        None
    } else if mcm.vars[slots - 1] == var && var != HG_Variable_NONE {
        Some(mcm.values[slots - 1])
    } else {
        given(mcm, var, slots - 1)
    }
}

/// The value that `mcm` returns for the variable `var`, if it is the answer
/// of a node and has a slot for that variable.
pub open spec fn returned(mcm: Radio_MultiConfigMessage, var: int) -> Option<u32> {
    if mcm.operation.is_return() {
        given(mcm, var, 5)
    } else {
        None
    }
}

/// The debug trail: the latest lines of what arrived, the latest inertial
/// and odometry readings of each robot, and the latest value that each robot
/// returned for each configuration variable. Every ring has its newest entry
/// first.
#[derive(Debug)]
pub struct Debug {
    pub incoming_lines: VecDeque<DebugLine>,
    pub imu_values: [VecDeque<(i64, Radio_ImuReadings)>; 16],
    pub odo_values: [VecDeque<(i64, Radio_OdometryReading)>; 16],
    pub config_variable_returns: [[Stamped<u32>; 256]; 16],
    pub update: bool,
}

/// Writes the label of the debug line of a payload.
fn label_text(routed: &Routed) -> (label: String)
    ensures
        label@ == routed.label(),
{
    proof {
        reveal_strlit("B");
        reveal_strlit("?");
    }
    match routed {
        Routed::BaseInformation(_) => {
            let label = "B".to_owned();
            assert(label@ =~= seq!['B']);
            label
        },
        Routed::Robot(id, _) => {
            let mut label = String::new();
            push_decimal(&mut label, *id);
            assert(label@ =~= decimal(*id as nat));
            label
        },
        _ => {
            let label = "?".to_owned();
            assert(label@ =~= seq!['?']);
            label
        },
    }
}

impl Debug {
    /// An empty trail.
    pub fn new() -> (debug: Debug)
        ensures
            debug.incoming_lines@.len() == 0,
            !debug.update,
            forall|i: int| 0 <= i < 16 ==> (#[trigger] debug.imu_values[i])@.len() == 0,
            forall|i: int| 0 <= i < 16 ==> (#[trigger] debug.odo_values[i])@.len() == 0,
            forall|i: int, v: int|
                0 <= i < 16 && 0 <= v < 256 ==> (#[trigger] debug.config_variable_returns[i][v]).value()
                    is None,
    {
        Debug {
            incoming_lines: VecDeque::new(),
            imu_values: [
                VecDeque::new(),
                VecDeque::new(),
                VecDeque::new(),
                VecDeque::new(),
                VecDeque::new(),
                VecDeque::new(),
                VecDeque::new(),
                VecDeque::new(),
                VecDeque::new(),
                VecDeque::new(),
                VecDeque::new(),
                VecDeque::new(),
                VecDeque::new(),
                VecDeque::new(),
                VecDeque::new(),
                VecDeque::new(),
            ],
            odo_values: [
                VecDeque::new(),
                VecDeque::new(),
                VecDeque::new(),
                VecDeque::new(),
                VecDeque::new(),
                VecDeque::new(),
                VecDeque::new(),
                VecDeque::new(),
                VecDeque::new(),
                VecDeque::new(),
                VecDeque::new(),
                VecDeque::new(),
                VecDeque::new(),
                VecDeque::new(),
                VecDeque::new(),
                VecDeque::new(),
            ],
            config_variable_returns: [[Stamped::NothingYet; 256]; 16],
            update: false,
        }
    }

    /// Stores what the configuration message `mcm` of robot `id` returns:
    /// the value of each slot that names a variable becomes the latest of
    /// that variable, a later slot winning over an earlier one. A message
    /// that is no answer, and every other cell, changes nothing.
    pub fn note_returns(&mut self, id: Radio_SSL_ID, mcm: Radio_MultiConfigMessage)
        requires
            id < MAX_NUM_ROBOTS,
        ensures
            final(self).incoming_lines == old(self).incoming_lines,
            final(self).imu_values == old(self).imu_values,
            final(self).odo_values == old(self).odo_values,
            final(self).update == old(self).update,
            forall|k: int|
                0 <= k < 16 && k != id ==> final(self).config_variable_returns[k] == old(self).config_variable_returns[k],
            forall|v: int|
                0 <= v < 256 ==> match returned(mcm, v) {
                    Some(value) => (#[trigger] final(self).config_variable_returns[id as int][v]).value()
                        == Some(value),
                    None => final(self).config_variable_returns[id as int][v] == old(self).config_variable_returns[id as int][v],
                },
    {
        match mcm.operation {
            HG_ConfigOperation::READ_RETURN
            | HG_ConfigOperation::WRITE_RETURN
            | HG_ConfigOperation::SET_DEFAULT_RETURN => {
                let mut i: usize = 0;
                while i < 5
                    invariant
                        i <= 5,
                        id < MAX_NUM_ROBOTS,
                        self.incoming_lines == old(self).incoming_lines,
                        self.imu_values == old(self).imu_values,
                        self.odo_values == old(self).odo_values,
                        self.update == old(self).update,
                        forall|k: int|
                            0 <= k < 16 && k != id ==> self.config_variable_returns[k] == old(self).config_variable_returns[k],
                        forall|v: int|
                            0 <= v < 256 ==> match given(mcm, v, i as int) {
                                Some(value) => (#[trigger] self.config_variable_returns[id as int][v]).value()
                                    == Some(value),
                                None => self.config_variable_returns[id as int][v] == old(self).config_variable_returns[id as int][v],
                            },
                    decreases 5 - i,
                {
                    if mcm.vars[i] != HG_Variable_NONE {
                        self.config_variable_returns[id as usize][mcm.vars[i] as usize] =
                            Stamped::make_now(mcm.values[i]);
                    }
                    i += 1;
                }
            },
            _ => {},
        }
    }

    /// `after` is the trail `before` after it recorded the payload `data`,
    /// which was routed as `routed` and arrived at the time `now`.
    ///
    /// A payload for another host leaves no trace. Every other payload gets
    /// a line at the front of the trail, which keeps its newest 500 lines. An
    /// inertial or odometry reading also goes to the front of the ring of
    /// its robot, and the answers of a configuration message to the table of
    /// returned values. The update flag is raised for payloads that the host
    /// expects, and never lowered.
    pub open spec fn took(
        before: Debug,
        after: Debug,
        routed: Routed,
        data: Seq<u8>,
        now: i64,
    ) -> bool {
        &&& routed is Elsewhere ==> after == before
        &&& !(routed is Elsewhere) ==> {
            &&& after.incoming_lines@ =~= pushed(before.incoming_lines@, after.incoming_lines@[0])
            &&& after.incoming_lines@[0].time == now
            &&& after.incoming_lines@[0].label@ == routed.label()
            &&& after.incoming_lines@[0].entry.tells(routed, data)
        }
        &&& after.update == (before.update || routed.expected())
        &&& forall|k: int|
            0 <= k < 16 ==> (#[trigger] after.imu_values[k])@ =~= (match routed {
                Routed::Robot(id, Radio_Message_Rust::ImuReadings(r)) if id == k => pushed(
                    before.imu_values[k]@,
                    (now, r),
                ),
                _ => before.imu_values[k]@,
            })
        &&& forall|k: int|
            0 <= k < 16 ==> (#[trigger] after.odo_values[k])@ =~= (match routed {
                Routed::Robot(id, Radio_Message_Rust::OdometryReading(r)) if id == k => pushed(
                    before.odo_values[k]@,
                    (now, r),
                ),
                _ => before.odo_values[k]@,
            })
        &&& forall|k: int, v: int|
            0 <= k < 16 && 0 <= v < 256 ==> (match routed {
                Routed::Robot(id, Radio_Message_Rust::MultiConfigMessage(mcm)) if id == k
                    && returned(mcm, v) is Some => (#[trigger] after.config_variable_returns[k][v]).value()
                    == returned(mcm, v),
                _ => after.config_variable_returns[k][v] == before.config_variable_returns[k][v],
            })
    }

    /// `after` is the trail `before` after it recorded the payloads of
    /// `frames` in their order, each at some time.
    pub open spec fn took_all(before: Debug, after: Debug, frames: Seq<Seq<u8>>) -> bool
        decreases frames.len(),
    {
        if frames.len() == 0 {
            after == before
        } else {
            exists|mid: Debug, now: i64|
                Debug::took_all(before, mid, frames.drop_last()) && #[trigger] Debug::took(
                    mid,
                    after,
                    route(frames.last()),
                    frames.last(),
                    now,
                )
        }
    }

    /// Records the payload `data` of a frame that was routed as `routed` and
    /// arrived at the time `now`, as `took` says.
    pub fn record(&mut self, routed: Routed, data: Vec<u8>, now: i64)
        requires
            routed matches Routed::Robot(id, _) ==> id < MAX_NUM_ROBOTS,
        ensures
            Debug::took(*old(self), *final(self), routed, data@, now),
    {
        let label = label_text(&routed);
        let entry = match routed {
            Routed::Elsewhere => {
                return ;
            },
            Routed::BaseInformation(base_info) => DebugEntry::BaseInformation(base_info),
            Routed::Robot(_, Radio_Message_Rust::PrimaryStatusHF(status_hf)) => {
                DebugEntry::PrimaryStatusHF(status_hf)
            },
            Routed::Robot(_, Radio_Message_Rust::PrimaryStatusLF(status_lf)) => {
                DebugEntry::PrimaryStatusLF(status_lf)
            },
            Routed::Robot(id, Radio_Message_Rust::ImuReadings(imu_reading)) => {
                self.imu_values[id as usize].push_front((now, imu_reading));
                self.imu_values[id as usize].truncate(DEBUG_SCROLLBACK_LIMIT);
                DebugEntry::ImuReadings(imu_reading)
            },
            Routed::Robot(id, Radio_Message_Rust::OdometryReading(odo_reading)) => {
                self.odo_values[id as usize].push_front((now, odo_reading));
                self.odo_values[id as usize].truncate(DEBUG_SCROLLBACK_LIMIT);
                DebugEntry::OdometryReading(odo_reading)
            },
            Routed::Robot(_, Radio_Message_Rust::OverrideOdometry(over_odo)) => {
                DebugEntry::OverrideOdometry(over_odo)
            },
            Routed::Robot(id, Radio_Message_Rust::MultiConfigMessage(mcm)) => {
                self.note_returns(id, mcm);
                DebugEntry::MultiConfigMessage(mcm)
            },
            Routed::Robot(_, _) => DebugEntry::UnknownMessageType,
            Routed::Unknown => DebugEntry::UnknownData(data),
        };
        let expected = match routed {
            Routed::BaseInformation(_) => true,
            Routed::Robot(_, Radio_Message_Rust::Command(_)) => false,
            Routed::Robot(_, Radio_Message_Rust::Empty) => false,
            Routed::Robot(_, _) => true,
            _ => false,
        };
        self.incoming_lines.push_front(DebugLine { time: now, label, entry });
        self.incoming_lines.truncate(DEBUG_SCROLLBACK_LIMIT);
        if expected {
            self.update = true;
        }
    }
}

/// Most commands that one pass of the worker sends.
pub const COMMANDS_PER_PASS: usize = 2;

/// Most messages that one pass of the worker sends.
pub const MESSAGES_PER_PASS: usize = 1;

/// Time in milliseconds that one pass of the worker takes while a station is
/// connected.
pub const PASS_MILLIS: u64 = 15;

/// Time in milliseconds after which the foreground gives up waiting for the
/// station or for the debug trail.
pub const LOCK_TIMEOUT_MILLIS: u64 = 40;

/// The commands of `commands` that are present, each with the index of its
/// slot as the identifier of the robot, in the order of the slots.
pub open spec fn queued(commands: Seq<Option<Radio_Command>>) -> Seq<(Radio_SSL_ID, Radio_Command)>
    decreases commands.len(),
{
    if commands.len() == 0 {
        Seq::empty()
    } else {
        let before = queued(commands.drop_last());
        match commands.last() {
            Some(command) => before.push(((commands.len() - 1) as u8, command)),
            None => before,
        }
    }
}

/// The configuration message that sets the radio channel to `chan`.
pub open spec fn channel_request(chan: u8) -> Radio_MultiConfigMessage {
    Radio_MultiConfigMessage {
        vars: [
            HG_Variable_RADIO_CHANNEL,
            HG_Variable_NONE,
            HG_Variable_NONE,
            HG_Variable_NONE,
            HG_Variable_NONE,
        ],
        operation: HG_ConfigOperation::WRITE,
        type_: HG_VariableType_VOID,
        _pad: 0,
        values: [chan as u32, 0u32, 0u32, 0u32, 0u32],
    }
}

/// The frames of one pass: one for each command, then one for each message.
pub open spec fn outbound(
    commands: Seq<(Radio_SSL_ID, Radio_Command)>,
    messages: Seq<(Radio_SSL_ID, Radio_Message_Rust)>,
) -> Seq<Seq<u8>> {
    Seq::new(
        commands.len(),
        |i: int|
            frame(Serial::addressed(commands[i].0, Radio_Message_Rust::Command(commands[i].1)).wire()),
    ) + Seq::new(
        messages.len(),
        |i: int| frame(Serial::addressed(messages[i].0, messages[i].1).wire()),
    )
}

/// The bytes of each frame of `frames`.
pub open spec fn bytes_of(frames: Seq<Vec<u8>>) -> Seq<Seq<u8>> {
    Seq::new(frames.len(), |i: int| frames[i]@)
}

/// What the worker has to do after one pass over a connected station.
#[derive(Debug)]
pub struct Pass {
    /// The robot slots changed: publish them.
    pub publish_robots: bool,
    /// The station's report changed: publish it.
    pub publish_base_info: bool,
    /// The primary port failed: give the station up.
    pub disconnect: bool,
    /// The frames to write to the primary port, in this order.
    pub frames: Vec<Vec<u8>>,
}

impl BaseStation {
    /// One pass of the worker over a connected station: takes in what the
    /// read step gave and routes every frame that is ready, as
    /// `read_and_parse` does, then frames the commands and messages that the
    /// worker took from its queues for this pass. The worker takes at most
    /// two commands and one message for a pass.
    ///
    /// A failed port asks for the disconnect and routes nothing; what was
    /// taken from the queues is framed all the same. The worker publishes
    /// the robot slots and the report exactly where the plan says so.
    pub fn pass(
        &mut self,
        read: ReadStep,
        commands: Vec<(Radio_SSL_ID, Radio_Command)>,
        messages: Vec<(Radio_SSL_ID, Radio_Message_Rust)>,
        debug: Option<&mut Debug>,
    ) -> (plan: Pass)
        requires
            read matches ReadStep::Data(bytes) ==> old(self).serial.pending().len() + bytes@.len()
                < SERIAL_BUF_LEN,
            commands@.len() <= COMMANDS_PER_PASS,
            messages@.len() <= MESSAGES_PER_PASS,
        ensures
            plan.disconnect == (read is Failed),
            bytes_of(plan.frames@) == outbound(commands@, messages@),
            read is Failed ==> *final(self) == *old(self) && !plan.publish_robots
                && !plan.publish_base_info && (debug matches Some(trail) ==> *final(trail)
                == *trail),
            !(read is Failed) ==> {
                let buf = Serial::after_read(old(self).serial.pending(), read);
                &&& final(self).serial.pending() == drained(buf)
                &&& final(self).snapshot() == old(self).snapshot().after_all(frames_in(buf))
                &&& plan.publish_robots == any_renews_robot(frames_in(buf))
                &&& plan.publish_base_info == any_base_information(frames_in(buf))
                &&& BaseStation::spared(*old(self), *final(self), frames_in(buf))
                &&& debug matches Some(trail) ==> Debug::took_all(
                    *trail,
                    *final(trail),
                    frames_in(buf),
                )
            },
    {
        let (publish_robots, publish_base_info, disconnect) = match self.read_and_parse(
            read,
            debug,
        ) {
            Ok((update_robots, update_base_info)) => (update_robots, update_base_info, false),
            Err(_) => (false, false, true),
        };
        let mut frames: Vec<Vec<u8>> = Vec::new();
        let mut i: usize = 0;
        while i < commands.len()
            invariant
                i <= commands@.len(),
                frames@.len() == i,
                forall|k: int|
                    0 <= k < i ==> (#[trigger] frames@[k])@ == frame(
                        Serial::addressed(
                            commands@[k].0,
                            Radio_Message_Rust::Command(commands@[k].1),
                        ).wire(),
                    ),
            decreases commands@.len() - i,
        {
            frames.push(Serial::send_command(commands[i].0, commands[i].1));
            i += 1;
        }
        let mut j: usize = 0;
        while j < messages.len()
            invariant
                j <= messages@.len(),
                frames@.len() == commands@.len() + j,
                forall|k: int|
                    0 <= k < commands@.len() ==> (#[trigger] frames@[k])@ == frame(
                        Serial::addressed(
                            commands@[k].0,
                            Radio_Message_Rust::Command(commands@[k].1),
                        ).wire(),
                    ),
                forall|k: int|
                    0 <= k < j ==> (#[trigger] frames@[commands@.len() + k])@ == frame(
                        Serial::addressed(messages@[k].0, messages@[k].1).wire(),
                    ),
            decreases messages@.len() - j,
        {
            frames.push(Serial::send_message(messages[j].0, messages[j].1));
            j += 1;
        }
        assert(bytes_of(frames@) =~= outbound(commands@, messages@));
        Pass { publish_robots, publish_base_info, disconnect, frames }
    }
}

/// The foreground's memory of what the worker last published. The channels
/// that carry the values belong to the caller: it hands in what a channel
/// gave, if it gave anything, and gets back the latest value known.
#[derive(Debug)]
pub struct Monitor {
    most_recent_robot_status: [Robot; 16],
    most_recent_base_station_info: Stamped<Base_Information>,
    most_recent_bs_connected: bool,
}

impl Monitor {
    /// The robot slots that were published last.
    pub closed spec fn robots(&self) -> [Robot; 16] {
        self.most_recent_robot_status
    }

    /// The station's report that was published last.
    pub closed spec fn base_info(&self) -> Stamped<Base_Information> {
        self.most_recent_base_station_info
    }

    /// Whether a station was connected when the worker last said so.
    pub closed spec fn connected(&self) -> bool {
        self.most_recent_bs_connected
    }

    /// A monitor that has heard nothing yet: empty robot slots, no report,
    /// not connected.
    pub fn start() -> (monitor: Monitor)
        ensures
            monitor.base_info().value() is None,
            !monitor.connected(),
            forall|i: int|
                0 <= i < 16 ==> (#[trigger] monitor.robots()[i])@ == (RobotView {
                    status_hf: None,
                    status_lf: None,
                    imu_reading: None,
                }),
    {
        let robot = Robot::default();
        Monitor {
            most_recent_robot_status: [robot; 16],
            most_recent_base_station_info: Stamped::NothingYet,
            most_recent_bs_connected: false,
        }
    }

    /// The station's latest report: `fresh` where the channel gave one,
    /// which is then remembered, else the one remembered.
    pub fn get_base_info(&mut self, fresh: Option<Stamped<Base_Information>>) -> (info: Stamped<
        Base_Information,
    >)
        ensures
            info == (match fresh {
                Some(fresh_base_info) => fresh_base_info,
                None => old(self).base_info(),
            }),
            final(self).base_info() == info,
            final(self).robots() == old(self).robots(),
            final(self).connected() == old(self).connected(),
    {
        if let Some(fresh_base_info) = fresh {
            self.most_recent_base_station_info = fresh_base_info;
        }
        self.most_recent_base_station_info
    }

    /// How long the station has been connected. The foreground does not know
    /// the moment of connection, so this is never known.
    pub fn base_connection_duration(&self) -> (time: Option<Duration>)
        ensures
            time is None,
    {
        None
    }

    /// The latest robot slots: `fresh` where the channel gave some, which
    /// are then remembered, else those remembered. There always are some.
    pub fn get_robots(&mut self, fresh: Option<[Robot; 16]>) -> (robots: Option<[Robot; 16]>)
        ensures
            robots == Some(
                match fresh {
                    Some(slots) => slots,
                    None => old(self).robots(),
                },
            ),
            Some(final(self).robots()) == robots,
            final(self).base_info() == old(self).base_info(),
            final(self).connected() == old(self).connected(),
    {
        if let Some(slots) = fresh {
            self.most_recent_robot_status = slots;
        }
        Some(self.most_recent_robot_status)
    }

    /// The commands to enqueue for `commands`: each one that is present,
    /// addressed to the robot whose slot it stands in, in the order of the
    /// slots.
    pub fn send(&self, commands: [Option<Radio_Command>; 16]) -> (queue: Vec<
        (Radio_SSL_ID, Radio_Command),
    >)
        ensures
            queue@ == queued(commands@),
    {
        let mut queue: Vec<(Radio_SSL_ID, Radio_Command)> = Vec::new();
        let mut i: usize = 0;
        assert(commands@.subrange(0, 0) =~= Seq::<Option<Radio_Command>>::empty());
        while i < MAX_NUM_ROBOTS
            invariant
                i <= MAX_NUM_ROBOTS,
                queue@ == queued(commands@.subrange(0, i as int)),
            decreases MAX_NUM_ROBOTS - i,
        {
            if let Some(command) = commands[i] {
                queue.push(self.send_single(i as u8, command));
            }
            proof {
                let next = commands@.subrange(0, i + 1);
                assert(next.drop_last() =~= commands@.subrange(0, i as int));
                assert(next.last() == commands@[i as int]);
            }
            i += 1;
        }
        assert(commands@.subrange(0, MAX_NUM_ROBOTS as int) =~= commands@);
        queue
    }

    /// What to enqueue to send `command` to the node `id`.
    pub fn send_single(&self, id: Radio_SSL_ID, command: Radio_Command) -> (item: (
        Radio_SSL_ID,
        Radio_Command,
    ))
        ensures
            item == (id, command),
    {
        (id, command)
    }

    /// What to enqueue to send `command` to every robot: it goes to the
    /// broadcast identifier.
    pub fn send_broadcast(&self, command: Radio_Command) -> (item: (Radio_SSL_ID, Radio_Command))
        ensures
            item == (Radio_Broadcast_ID, command),
    {
        (Radio_Broadcast_ID, command)
    }

    /// What to enqueue to send the configuration message `mcm` to the node
    /// `id`.
    pub fn send_mcm(&self, id: Radio_SSL_ID, mcm: Radio_MultiConfigMessage) -> (item: (
        Radio_SSL_ID,
        Radio_Message_Rust,
    ))
        ensures
            item == (id, Radio_Message_Rust::MultiConfigMessage(mcm)),
    {
        (id, Radio_Message_Rust::MultiConfigMessage(mcm))
    }

    /// What to enqueue to set the radio channel to `chan`: a request to the
    /// base station to write that one variable.
    pub fn set_channel(&self, chan: u8) -> (item: (Radio_SSL_ID, Radio_Message_Rust))
        ensures
            item == (
                Radio_BaseStation_ID,
                Radio_Message_Rust::MultiConfigMessage(channel_request(chan)),
            ),
    {
        let mcm = Radio_MultiConfigMessage {
            operation: HG_ConfigOperation::WRITE,
            vars: [
                HG_Variable_RADIO_CHANNEL,
                HG_Variable_NONE,
                HG_Variable_NONE,
                HG_Variable_NONE,
                HG_Variable_NONE,
            ],
            type_: HG_VariableType_VOID,
            _pad: 0,
            values: [chan as u32, 0, 0, 0, 0],
        };
        self.send_mcm(Radio_BaseStation_ID, mcm)
    }

    /// What to enqueue to send the odometry order `over_odo` to the node
    /// `id`.
    pub fn send_over_odo(&self, id: u8, over_odo: Radio_OverrideOdometry) -> (item: (
        Radio_SSL_ID,
        Radio_Message_Rust,
    ))
        ensures
            item == (id, Radio_Message_Rust::OverrideOdometry(over_odo)),
    {
        (id, Radio_Message_Rust::OverrideOdometry(over_odo))
    }

    /// Whether a station is connected: `fresh` where the channel gave a
    /// value, which is then remembered, else the value remembered.
    pub fn is_connected(&mut self, fresh: Option<bool>) -> (connected: bool)
        ensures
            connected == (match fresh {
                Some(val) => val,
                None => old(self).connected(),
            }),
            final(self).connected() == connected,
            final(self).robots() == old(self).robots(),
            final(self).base_info() == old(self).base_info(),
    {
        match fresh {
            Some(val) => {
                self.most_recent_bs_connected = val;
            },
            None => (),
        }
        self.most_recent_bs_connected
    }

    /// Whether a mirror is attached. The foreground does not ask the
    /// station, so the answer is always no.
    pub fn is_connected_to_mirror(&self) -> (attached: bool)
        ensures
            !attached,
    {
        false
    }
}

/// A pass over an empty buffer and a port that has nothing finds no frame:
/// it renews no cell and no report, so it asks for nothing to be published,
/// and with empty queues it plans no frame.
pub proof fn lemma_idle_pass()
    ensures
        frames_in(Serial::after_read(Seq::<u8>::empty(), ReadStep::Idle)) == Seq::<
            Seq<u8>,
        >::empty(),
        drained(Serial::after_read(Seq::<u8>::empty(), ReadStep::Idle)) == Seq::<u8>::empty(),
        !any_renews_robot(Seq::<Seq<u8>>::empty()),
        !any_base_information(Seq::<Seq<u8>>::empty()),
        outbound(Seq::empty(), Seq::empty()) == Seq::<Seq<u8>>::empty(),
{
    lemma_nothing_to_drain();
    lemma_no_payload();
    assert(outbound(Seq::empty(), Seq::empty()) =~= Seq::<Seq<u8>>::empty());
}

/// A pass whose buffer holds exactly the frame of one report of the station
/// finds that report alone: the report is renewed and no cell of any robot,
/// so the report is to be published and the robot slots are not.
pub proof fn lemma_report_pass(info: Base_Information)
    ensures
        frames_in(frame(info.wire())) == seq![info.wire()],
        drained(frame(info.wire())) == Seq::<u8>::empty(),
        route(info.wire()) == Routed::BaseInformation(info),
        any_base_information(seq![info.wire()]),
        !any_renews_robot(seq![info.wire()]),
        forall|id: int| !#[trigger] any_renews_slot(seq![info.wire()], id),
{
    info.lemma_parse_wire(Seq::empty());
    lemma_one_frame_drains(info.wire());
    lemma_one_payload(info.wire());
}

/// A pass whose buffer holds exactly the frame that carries a valid message
/// to the node `id` finds that message alone. If the node is a robot and
/// the message a status or an inertial reading, the cell of that kind in
/// that slot is renewed and no other, so the robot slots are to be
/// published. In every other case no cell is renewed. The report of the
/// station is never renewed.
pub proof fn lemma_message_pass(id: Radio_SSL_ID, msg: Radio_Message_Rust)
    requires
        msg.valid(),
    ensures
        frames_in(frame(Serial::addressed(id, msg).wire())) == seq![
            Serial::addressed(id, msg).wire(),
        ],
        drained(frame(Serial::addressed(id, msg).wire())) == Seq::<u8>::empty(),
        any_renews_robot(seq![Serial::addressed(id, msg).wire()]) == (id < MAX_NUM_ROBOTS && (msg
            is PrimaryStatusHF || msg is PrimaryStatusLF || msg is ImuReadings)),
        !any_base_information(seq![Serial::addressed(id, msg).wire()]),
        forall|robot: int, kind: Telemetry| #[trigger]
            any_renews(seq![Serial::addressed(id, msg).wire()], robot, kind) == (id
                < MAX_NUM_ROBOTS && Routed::Robot(id, msg).renews(robot, kind)),
        forall|robot: int| #[trigger]
            any_renews_slot(seq![Serial::addressed(id, msg).wire()], robot) == (id
                < MAX_NUM_ROBOTS && Routed::Robot(id, msg).renews_slot(robot)),
        forall|snapshot: Snapshot| #[trigger]
            snapshot.after_all(seq![Serial::addressed(id, msg).wire()]) == if id
                < MAX_NUM_ROBOTS {
                snapshot.after(Routed::Robot(id, msg))
            } else {
                snapshot
            },
{
    let w = Serial::addressed(id, msg).wire();
    lemma_sent_is_received(id, msg);
    assert(w.len() == LEN_MESSAGE_WRAPPER);
    lemma_one_frame_drains(w);
    lemma_one_payload(w);
}

/// A pass that took one command for every robot from the queue plans
/// exactly one frame: that of the command in a wrapper for the broadcast
/// identifier. The frame is three bytes longer than a wrapper, opens with
/// the start byte, and is taken by the codec as the bytes of that wrapper.
pub proof fn lemma_broadcast_pass(command: Radio_Command)
    ensures
        outbound(seq![(Radio_Broadcast_ID, command)], Seq::empty()) == seq![
            frame(
                Serial::addressed(Radio_Broadcast_ID, Radio_Message_Rust::Command(command)).wire(),
            ),
        ],
        frame(
            Serial::addressed(Radio_Broadcast_ID, Radio_Message_Rust::Command(command)).wire(),
        ).len() == LEN_MESSAGE_WRAPPER + 3,
        frame(
            Serial::addressed(Radio_Broadcast_ID, Radio_Message_Rust::Command(command)).wire(),
        )[0] == FRAME_START,
        decode_step(
            frame(
                Serial::addressed(Radio_Broadcast_ID, Radio_Message_Rust::Command(command)).wire(),
            ),
        ) == (Step {
            outcome: Outcome::Frame(
                Serial::addressed(Radio_Broadcast_ID, Radio_Message_Rust::Command(command)).wire(),
            ),
            rest: Seq::empty(),
        }),
{
    let wrapper = Serial::addressed(Radio_Broadcast_ID, Radio_Message_Rust::Command(command));
    lemma_wrapper_round_trip(wrapper);
    assert(outbound(seq![(Radio_Broadcast_ID, command)], Seq::empty()) =~= seq![
        frame(wrapper.wire()),
    ]);
}

} // verus!
