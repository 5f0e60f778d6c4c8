//! The serial transport without its ports: the scratch buffer that collects
//! what was read, the codec that cuts frames out of it, the frames that go
//! out, and the rules on ports and on the mirror.
//!
//! The caller owns the ports. It hands in what a read gave and writes out
//! the frames it is given.
use vstd::prelude::*;
use crate::crc8::{checksum, crc8_smbus, lemma_crc8_detects_changed_byte};
use crate::glue::{
    frame, to_packet, AsBytes, Radio_Command, Radio_MessageWrapper, Radio_Message_Rust,
    Radio_MultiConfigMessage, Radio_OverrideOdometry, Radio_SSL_ID, FRAME_START,
    LEN_MESSAGE_WRAPPER,
};
use crate::wire::copy_range;

verus! {

/// Size of the scratch buffer; the bytes that wait in it are always fewer.
pub const SERIAL_BUF_LEN: usize = 100000;

/// Largest payload that a frame may announce.
pub const MAX_FRAME_PAYLOAD: usize = 50;

/// Speed of the serial line in baud; the line has 8 data bits, no parity and
/// 1 stop bit.
pub const BAUD_RATE: u32 = 115200;

/// Time in milliseconds after which a read gives up.
pub const READ_TIMEOUT_MS: u64 = 10;

/// USB vendor identifier of a base station.
pub const BASE_STATION_VID: u16 = 0x0483;

/// USB product identifier of a base station.
pub const BASE_STATION_PID: u16 = 0x5740;

/// `at` is where the first start byte of `buf` stands.
pub open spec fn starts_at(buf: Seq<u8>, at: int) -> bool {
    &&& 0 <= at < buf.len()
    &&& buf[at] == FRAME_START
    &&& forall|j: int| 0 <= j < at ==> buf[j] != FRAME_START
}

/// Where the first start byte of `buf` stands, if `buf` holds one.
pub open spec fn first_start(buf: Seq<u8>) -> Option<int> {
    if exists|at: int| starts_at(buf, at) {
        Some(choose|at: int| starts_at(buf, at))
    } else {
        None
    }
}

/// How one look at the buffer ends.
pub ghost enum Outcome {
    /// A whole frame with a good checksum stood in the buffer; this is its
    /// payload.
    Frame(Seq<u8>),
    /// No start byte yet, or the frame behind the first one is not complete.
    NeedMore,
    /// The frame behind the first start byte announces more than 50 bytes.
    TooLarge,
    /// The checksum behind the payload is not that of the payload.
    CrcMismatch,
}

/// How one look at the buffer ends, and what the buffer holds after it.
pub ghost struct Step {
    pub outcome: Outcome,
    pub rest: Seq<u8>,
}

/// One look at the buffer `buf`.
///
/// Without a start byte everything is thrown away. A frame that is not yet
/// complete leaves the buffer as it is. A frame that announces too much, or
/// whose checksum fails, costs the buffer everything up to and with its start
/// byte. A good frame leaves with everything before it.
pub open spec fn decode_step(buf: Seq<u8>) -> Step {
    match first_start(buf) {
        None => Step { outcome: Outcome::NeedMore, rest: Seq::empty() },
        Some(at) => {
            if buf.len() < at + 2 {
                Step { outcome: Outcome::NeedMore, rest: buf }
            } else {
                let len = buf[at + 1] as int;
                let payload = buf.subrange(at + 2, at + 2 + len);
                if len > MAX_FRAME_PAYLOAD {
                    Step { outcome: Outcome::TooLarge, rest: buf.skip(at + 1) }
                } else if buf.len() < at + len + 3 {
                    Step { outcome: Outcome::NeedMore, rest: buf }
                } else if buf[at + 2 + len] != crc8_smbus(payload) {
                    Step { outcome: Outcome::CrcMismatch, rest: buf.skip(at + 1) }
                } else {
                    Step { outcome: Outcome::Frame(payload), rest: buf.skip(at + 3 + len) }
                }
            }
        },
    }
}

/// A start byte with none before it is the first.
pub proof fn lemma_first_start(buf: Seq<u8>, at: int)
    requires
        starts_at(buf, at),
    ensures
        first_start(buf) == Some(at),
{
    let found = choose|i: int| starts_at(buf, i);
    assert(starts_at(buf, found));
    if found < at {
        assert(buf[found] != FRAME_START);
    }
    if at < found {
        assert(buf[at] != FRAME_START);
    }
}

/// A buffer without a start byte is thrown away whole, and more is needed.
pub proof fn lemma_no_start_drains(buf: Seq<u8>)
    requires
        forall|i: int| 0 <= i < buf.len() ==> buf[i] != FRAME_START,
    ensures
        decode_step(buf) == (Step { outcome: Outcome::NeedMore, rest: Seq::empty() }),
{
    assert forall|at: int| !starts_at(buf, at) by {
        if 0 <= at < buf.len() {
            assert(buf[at] != FRAME_START);
        }
    }
}

/// A frame comes out as it went in: behind any bytes that hold no start byte,
/// the frame of a payload of at most 50 bytes is decoded to that payload,
/// and what followed the frame stays in the buffer.
pub proof fn lemma_decode_frame(noise: Seq<u8>, payload: Seq<u8>, tail: Seq<u8>)
    requires
        forall|i: int| 0 <= i < noise.len() ==> noise[i] != FRAME_START,
        payload.len() <= MAX_FRAME_PAYLOAD,
    ensures
        decode_step(noise + frame(payload) + tail) == (Step {
            outcome: Outcome::Frame(payload),
            rest: tail,
        }),
{
    let buf = noise + frame(payload) + tail;
    let at = noise.len() as int;
    let len = payload.len() as int;
    assert(buf[at] == FRAME_START);
    assert forall|j: int| 0 <= j < at implies buf[j] != FRAME_START by {
        assert(buf[j] == noise[j]);
    }
    lemma_first_start(buf, at);
    assert(buf[at + 1] == len as u8);
    assert(buf.subrange(at + 2, at + 2 + len) =~= payload);
    assert(buf[at + 2 + len] == crc8_smbus(payload));
    assert(buf.skip(at + 3 + len) =~= tail);
}

/// A frame in which one byte of the payload was replaced by another value is
/// rejected for its checksum, and only its start byte is given up.
pub proof fn lemma_changed_byte_rejected(payload: Seq<u8>, at: int, value: u8)
    requires
        payload.len() <= MAX_FRAME_PAYLOAD,
        0 <= at < payload.len(),
        value != payload[at],
    ensures
        decode_step(frame(payload).update(2 + at, value)) == (Step {
            outcome: Outcome::CrcMismatch,
            rest: frame(payload).update(2 + at, value).skip(1),
        }),
{
    let buf = frame(payload).update(2 + at, value);
    let len = payload.len() as int;
    assert(buf[0] == FRAME_START);
    lemma_first_start(buf, 0);
    assert(buf[1] == len as u8);
    assert(buf.subrange(2, 2 + len) =~= payload.update(at, value));
    assert(buf[2 + len] == crc8_smbus(payload));
    lemma_crc8_detects_changed_byte(payload, at, value);
}

/// A wrapper that was framed is decoded to its own bytes, and those are read
/// back as the wrapper if its padding is zero.
pub proof fn lemma_wrapper_round_trip(wrapper: Radio_MessageWrapper)
    ensures
        frame(wrapper.wire()).len() == LEN_MESSAGE_WRAPPER + 3,
        frame(wrapper.wire())[0] == FRAME_START,
        decode_step(frame(wrapper.wire())) == (Step {
            outcome: Outcome::Frame(wrapper.wire()),
            rest: Seq::empty(),
        }),
        wrapper.valid() ==> Radio_MessageWrapper::parse(wrapper.wire()) == Some(wrapper),
{
    if wrapper.valid() {
        wrapper.lemma_parse_wire();
    }
    assert(wrapper.wire().len() == LEN_MESSAGE_WRAPPER);
    let e = Seq::<u8>::empty();
    lemma_decode_frame(e, wrapper.wire(), e);
    assert(e + frame(wrapper.wire()) + e =~= frame(wrapper.wire()));
}

/// A look that does not ask for more bytes leaves the buffer shorter.
pub proof fn lemma_step_shrinks(buf: Seq<u8>)
    ensures
        decode_step(buf).rest.len() <= buf.len(),
        !(decode_step(buf).outcome is NeedMore) ==> decode_step(buf).rest.len() < buf.len(),
{
    if first_start(buf) is Some {
        let at = first_start(buf).unwrap();
        assert(starts_at(buf, at));
    }
}

/// The payloads of the frames that leave `buf` while it is looked at until
/// more bytes are needed, in their order.
pub open spec fn frames_in(buf: Seq<u8>) -> Seq<Seq<u8>>
    decreases buf.len(),
    via frames_in_decreases
{
    let step = decode_step(buf);
    match step.outcome {
        Outcome::NeedMore => Seq::empty(),
        Outcome::Frame(payload) => seq![payload] + frames_in(step.rest),
        _ => frames_in(step.rest),
    }
}

#[via_fn]
proof fn frames_in_decreases(buf: Seq<u8>) {
    lemma_step_shrinks(buf);
}

/// What is left of `buf` after it was looked at until more bytes are needed.
pub open spec fn drained(buf: Seq<u8>) -> Seq<u8>
    decreases buf.len(),
    via drained_decreases
{
    let step = decode_step(buf);
    match step.outcome {
        Outcome::NeedMore => step.rest,
        _ => drained(step.rest),
    }
}

#[via_fn]
proof fn drained_decreases(buf: Seq<u8>) {
    lemma_step_shrinks(buf);
}

/// An empty buffer holds no frame and stays empty.
pub proof fn lemma_nothing_to_drain()
    ensures
        frames_in(Seq::<u8>::empty()) == Seq::<Seq<u8>>::empty(),
        drained(Seq::<u8>::empty()) == Seq::<u8>::empty(),
{
    lemma_no_start_drains(Seq::<u8>::empty());
}

/// A buffer that holds exactly the frame of one payload of at most 50 bytes
/// gives that payload and nothing else, and is empty afterwards.
pub proof fn lemma_one_frame_drains(payload: Seq<u8>)
    requires
        payload.len() <= MAX_FRAME_PAYLOAD,
    ensures
        frames_in(frame(payload)) == seq![payload],
        drained(frame(payload)) == Seq::<u8>::empty(),
{
    let e = Seq::<u8>::empty();
    lemma_decode_frame(e, payload, e);
    assert(e + frame(payload) + e =~= frame(payload));
    lemma_nothing_to_drain();
    assert(seq![payload] + Seq::<Seq<u8>>::empty() =~= seq![payload]);
}

/// How one look at the buffer ended.
#[derive(Debug, PartialEq, Eq)]
pub enum Decoded {
    /// A frame was taken out; this is its payload.
    Frame(Vec<u8>),
    /// More bytes are needed before anything can be said.
    NeedMore,
    /// A frame that announced more than 50 bytes was given up.
    TooLarge,
    /// A frame whose checksum failed was given up.
    CrcMismatch,
}

impl Decoded {
    /// This result as the codec defines it.
    pub open spec fn outcome(&self) -> Outcome {
        match self {
            Decoded::Frame(payload) => Outcome::Frame(payload@),
            Decoded::NeedMore => Outcome::NeedMore,
            Decoded::TooLarge => Outcome::TooLarge,
            Decoded::CrcMismatch => Outcome::CrcMismatch,
        }
    }
}

/// What one read step on the primary port gave.
#[derive(Debug, PartialEq, Eq)]
pub enum ReadStep {
    /// Nothing was waiting.
    Idle,
    /// These bytes were read.
    Data(Vec<u8>),
    /// The read gave up after its timeout.
    TimedOut,
    /// The port failed in any other way.
    Failed,
}

/// What the operating system tells of a serial port, as far as the link asks.
#[derive(Clone, Copy, Debug, PartialEq, Eq)]
pub enum PortKind {
    /// A USB device with its vendor and product identifier.
    Usb { vid: u16, pid: u16 },
    /// A port on the PCI bus.
    Pci,
    /// A Bluetooth device.
    Bluetooth,
    /// A port of which nothing is known; virtual ports are of this kind.
    Unknown,
}

/// A serial port by name and kind.
#[derive(Debug)]
pub struct PortInfo {
    pub port_name: String,
    pub kind: PortKind,
}

/// The names of the ports of `ports` that `list_ports` keeps, in their order.
pub open spec fn kept_names(ports: Seq<PortInfo>, filter: bool) -> Seq<Seq<char>>
    decreases ports.len(),
{
    if ports.len() == 0 {
        Seq::empty()
    } else {
        let before = kept_names(ports.drop_last(), filter);
        if !filter || Serial::is_basestation_port(ports.last().kind) {
            before.push(ports.last().port_name@)
        } else {
            before
        }
    }
}

/// The names of the ports of `ports` that are of unknown kind, in their order.
pub open spec fn unknown_names(ports: Seq<PortInfo>) -> Seq<Seq<char>>
    decreases ports.len(),
{
    if ports.len() == 0 {
        Seq::empty()
    } else {
        let before = unknown_names(ports.drop_last());
        if ports.last().kind is Unknown {
            before.push(ports.last().port_name@)
        } else {
            before
        }
    }
}

/// The text of each string of `names`.
pub open spec fn texts(names: Seq<String>) -> Seq<Seq<char>> {
    Seq::new(names.len(), |i: int| names[i]@)
}

/// The scratch buffer of the transport: the bytes that were read and have
/// not yet left as a frame or as waste.
#[derive(Debug)]
pub struct Serial {
    serial_buf: Vec<u8>,
}

impl Serial {
    /// The bytes that wait in the buffer, oldest first.
    pub closed spec fn pending(&self) -> Seq<u8> {
        self.serial_buf@
    }

    /// A port of this kind is a base station: a USB device with the vendor
    /// and product identifier of one.
    pub open spec fn is_basestation_port(kind: PortKind) -> bool {
        kind matches PortKind::Usb { vid, pid } && vid == BASE_STATION_VID && pid
            == BASE_STATION_PID
    }

    /// A transport with an empty buffer.
    pub fn new() -> (serial: Serial)
        ensures
            serial.pending() == Seq::<u8>::empty(),
    {
        Serial { serial_buf: Vec::new() }
    }

    /// Tells whether `port` is a base station.
    pub fn is_basestation(port: &PortInfo) -> (yes: bool)
        ensures
            yes == Serial::is_basestation_port(port.kind),
    {
        match port.kind {
            PortKind::Usb { vid, pid } => (vid == BASE_STATION_VID) && (pid == BASE_STATION_PID),
            _ => false,
        }
    }

    /// Tells whether `port` is of unknown kind, as virtual ports are.
    pub fn is_virtual(port: &PortInfo) -> (yes: bool)
        ensures
            yes == (port.kind is Unknown),
    {
        match port.kind {
            PortKind::Unknown => true,
            _ => false,
        }
    }

    /// The names of the ports to offer, in the order of `ports`: with
    /// `filter` the base stations among them, without it all of them.
    pub fn list_ports(ports: &Vec<PortInfo>, filter: bool) -> (names: Vec<String>)
        ensures
            texts(names@) == kept_names(ports@, filter),
    {
        let mut names: Vec<String> = Vec::new();
        let mut i: usize = 0;
        assert(ports@.subrange(0, 0) =~= Seq::<PortInfo>::empty());
        assert(texts(names@) =~= kept_names(ports@.subrange(0, 0), filter));
        while i < ports.len()
            invariant
                i <= ports@.len(),
                texts(names@) == kept_names(ports@.subrange(0, i as int), filter),
            decreases ports@.len() - i,
        {
            if !filter || Serial::is_basestation(&ports[i]) {
                names.push(ports[i].port_name.clone());
            }
            proof {
                let next = ports@.subrange(0, i + 1);
                assert(next.drop_last() =~= ports@.subrange(0, i as int));
                assert(next.last() == ports@[i as int]);
                assert(texts(names@) =~= kept_names(next, filter));
            }
            i += 1;
        }
        assert(ports@.subrange(0, ports@.len() as int) =~= ports@);
        names
    }

    /// The names of the ports of unknown kind, in the order of `ports`.
    pub fn list_unknown_ports(ports: &Vec<PortInfo>) -> (names: Vec<String>)
        ensures
            texts(names@) == unknown_names(ports@),
    {
        let mut names: Vec<String> = Vec::new();
        let mut i: usize = 0;
        assert(ports@.subrange(0, 0) =~= Seq::<PortInfo>::empty());
        assert(texts(names@) =~= unknown_names(ports@.subrange(0, 0)));
        while i < ports.len()
            invariant
                i <= ports@.len(),
                texts(names@) == unknown_names(ports@.subrange(0, i as int)),
            decreases ports@.len() - i,
        {
            if Serial::is_virtual(&ports[i]) {
                names.push(ports[i].port_name.clone());
            }
            proof {
                let next = ports@.subrange(0, i + 1);
                assert(next.drop_last() =~= ports@.subrange(0, i as int));
                assert(next.last() == ports@[i as int]);
                assert(texts(names@) =~= unknown_names(next));
            }
            i += 1;
        }
        assert(ports@.subrange(0, ports@.len() as int) =~= ports@);
        names
    }

    /// Tells whether what was read from the primary port goes on to the
    /// mirror: only while a mirror is attached and its carrier-detect line
    /// is high. `carrier` is `None` where the platform cannot read the line,
    /// which counts as high.
    pub fn check_carrier_detect(mirror_attached: bool, carrier: Option<bool>) -> (forward: bool)
        ensures
            forward == (mirror_attached && carrier != Some(false)),
    {
        if !mirror_attached {
            return false;
        }
        match carrier {
            Some(high) => high,
            None => true,
        }
    }

    /// The number of bytes that a read may bring at most: one less than what
    /// would fill the buffer.
    pub fn free_space(&self) -> (free: usize)
        ensures
            free == if self.pending().len() < SERIAL_BUF_LEN {
                SERIAL_BUF_LEN - self.pending().len() - 1
            } else {
                0
            },
    {
        let used = self.serial_buf.len();
        if used < SERIAL_BUF_LEN {
            SERIAL_BUF_LEN - used - 1
        } else {
            0
        }
    }

    /// Takes in what a read step gave. Bytes that were read join the buffer
    /// at its end; an idle step and a timeout change nothing. Only a failed
    /// port is an error, and it is one always.
    ///
    /// The bytes must leave the buffer short of full: a read that fills it
    /// is a fault of the caller.
    pub fn read(&mut self, step: ReadStep) -> (done: Result<(), ()>)
        requires
            step matches ReadStep::Data(bytes) ==> old(self).pending().len() + bytes@.len()
                < SERIAL_BUF_LEN,
        ensures
            done is Err <==> step is Failed,
            final(self).pending() == Serial::after_read(old(self).pending(), step),
            !(step is Data) ==> *final(self) == *old(self),
    {
        match step {
            ReadStep::Idle => Ok(()),
            ReadStep::Data(bytes) => {
                self.serial_buf.extend_from_slice(bytes.as_slice());
                Ok(())
            },
            ReadStep::TimedOut => Ok(()),
            ReadStep::Failed => Err(()),
        }
    }

    /// The buffer after a read step.
    pub open spec fn after_read(pending: Seq<u8>, step: ReadStep) -> Seq<u8> {
        match step {
            ReadStep::Data(bytes) => pending + bytes@,
            _ => pending,
        }
    }

    /// Looks at the buffer once, as `decode_step` defines it.
    pub fn decode(&mut self) -> (decoded: Decoded)
        ensures
            decoded.outcome() == decode_step(old(self).pending()).outcome,
            final(self).pending() == decode_step(old(self).pending()).rest,
    {
        let glob_index = self.serial_buf.len();
        let mut index: usize = 0;
        while index < glob_index && self.serial_buf[index] != FRAME_START
            invariant
                index <= glob_index,
                glob_index == self.serial_buf@.len(),
                self.serial_buf@ == old(self).serial_buf@,
                forall|j: int| 0 <= j < index ==> self.serial_buf@[j] != FRAME_START,
            decreases glob_index - index,
        {
            index += 1;
        }
        let ghost buf = self.serial_buf@;
        if index == glob_index {
            proof {
                lemma_no_start_drains(buf);
            }
            self.serial_buf.clear();
            return Decoded::NeedMore;
        }
        proof {
            lemma_first_start(buf, index as int);
        }
        if glob_index - index < 2 {
            return Decoded::NeedMore;
        }
        let len: usize = self.serial_buf[index + 1] as usize;
        if len > MAX_FRAME_PAYLOAD {
            let rest = self.serial_buf.split_off(index + 1);
            self.serial_buf = rest;
            return Decoded::TooLarge;
        }
        if glob_index - index < len + 3 {
            return Decoded::NeedMore;
        }
        let data = copy_range(self.serial_buf.as_slice(), index + 2, index + 2 + len);
        let crc = self.serial_buf[index + 2 + len];
        if crc != checksum(data.as_slice()) {
            let rest = self.serial_buf.split_off(index + 1);
            self.serial_buf = rest;
            return Decoded::CrcMismatch;
        }
        let rest = self.serial_buf.split_off(index + 3 + len);
        self.serial_buf = rest;
        Decoded::Frame(data)
    }

    /// Looks at the buffer once and gives the payload of the frame that was
    /// taken out, if one was.
    pub fn read_packet(&mut self) -> (packet: Option<Vec<u8>>)
        ensures
            final(self).pending() == decode_step(old(self).pending()).rest,
            match packet {
                Some(data) => decode_step(old(self).pending()).outcome == Outcome::Frame(data@),
                None => !(decode_step(old(self).pending()).outcome is Frame),
            },
    {
        match self.decode() {
            Decoded::Frame(data) => Some(data),
            _ => None,
        }
    }

    /// The wrapper that carries `msg` to the node `id`.
    pub open spec fn addressed(id: Radio_SSL_ID, msg: Radio_Message_Rust) -> Radio_MessageWrapper {
        Radio_MessageWrapper { id, _pad: [0u8, 0u8, 0u8], msg: msg.wrapped() }
    }

    /// The frame that carries `msg` to the node `id`.
    pub fn send_message(id: Radio_SSL_ID, msg: Radio_Message_Rust) -> (bytes: Vec<u8>)
        ensures
            bytes@ == frame(Serial::addressed(id, msg).wire()),
    {
        let mw = Radio_MessageWrapper { id, _pad: [0u8, 0u8, 0u8], msg: msg.wrap() };
        to_packet(mw)
    }

    /// The frame that carries `command` to the node `id`.
    pub fn send_command(id: Radio_SSL_ID, command: Radio_Command) -> (bytes: Vec<u8>)
        ensures
            bytes@ == frame(Serial::addressed(id, Radio_Message_Rust::Command(command)).wire()),
    {
        Serial::send_message(id, Radio_Message_Rust::Command(command))
    }

    /// The frame that carries the configuration message `mcm` to the node
    /// `id`.
    pub fn send_mcm(id: Radio_SSL_ID, mcm: Radio_MultiConfigMessage) -> (bytes: Vec<u8>)
        ensures
            bytes@ == frame(
                Serial::addressed(id, Radio_Message_Rust::MultiConfigMessage(mcm)).wire(),
            ),
    {
        Serial::send_message(id, Radio_Message_Rust::MultiConfigMessage(mcm))
    }

    /// The frame that carries the odometry order `over_odo` to the node `id`.
    pub fn send_over_odo(id: Radio_SSL_ID, over_odo: Radio_OverrideOdometry) -> (bytes: Vec<u8>)
        ensures
            bytes@ == frame(
                Serial::addressed(id, Radio_Message_Rust::OverrideOdometry(over_odo)).wire(),
            ),
    {
        Serial::send_message(id, Radio_Message_Rust::OverrideOdometry(over_odo))
    }
}

} // verus!
