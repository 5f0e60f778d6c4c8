//! The records that frame radio traffic: the tagged message, the wrapper that
//! addresses it to a node, and the base station's own report; with them the
//! frame that carries a record over the serial line.
use vstd::prelude::*;
use vstd::slice::slice_subrange;
use vstd::string::StringExecFns;
use crate::crc8::{checksum, crc8_smbus};
use crate::text::{decimal, push_decimal};
use crate::wire::{all_zero, array28, is_zero_run, lemma_array28, take, zeros, put_zeros};
pub use crate::wire::AsBytes;
pub use crate::records::{
    HG_Pose, Radio_Command, Radio_ImuReadings, Radio_MultiConfigMessage, Radio_OdometryReading,
    Radio_OverrideOdometry, Radio_PrimaryStatusHF, Radio_PrimaryStatusLF, LEN_PAYLOAD,
};
pub use crate::schema::{
    HG_ConfigOperation, HG_Status, HG_Variable, HG_VariableType, HG_VariableType_VOID,
    HG_Variable_NONE, HG_Variable_RADIO_CHANNEL, Radio_BaseStation_ID, Radio_Broadcast_ID,
    Radio_MessageType, Radio_RobotCommand, Radio_RobotCommand_NONE, Radio_SSL_ID,
    CONST_PROTOCOL_VERSION_MAJOR, CONST_PROTOCOL_VERSION_MINOR, MAX_NUM_ROBOTS,
};

verus! {

/// The byte that opens a frame.
pub const FRAME_START: u8 = 0xA5;

/// Size in bytes of the base station's report.
pub const LEN_BASE_INFORMATION: usize = 5;

/// Size in bytes of a radio message: tag, padding and payload.
pub const LEN_RADIO_MESSAGE: usize = 32;

/// Size in bytes of a wrapped radio message.
pub const LEN_MESSAGE_WRAPPER: usize = 36;

/// The frame that carries `payload`: start byte, length, payload, checksum of
/// the payload. Meant for payloads of at most 255 bytes.
pub open spec fn frame(payload: Seq<u8>) -> Seq<u8> {
    seq![FRAME_START, payload.len() as u8] + payload + seq![crc8_smbus(payload)]
}

/// Frames a record for the serial line. The length byte holds the size of
/// the record, so the record must not be larger than 255 bytes.
pub fn to_packet<T: AsBytes>(data: T) -> (packet: Vec<u8>)
    requires
        data.wire().len() <= 255,
    ensures
        packet@ == frame(data.wire()),
{
    let raw_data = data.as_bytes();
    let mut packet: Vec<u8> = Vec::new();
    packet.push(FRAME_START);
    packet.push(raw_data.len() as u8);
    packet.extend_from_slice(raw_data.as_slice());
    packet.push(checksum(raw_data.as_slice()));
    assert(packet@ =~= frame(data.wire()));
    packet
}

/// Versions of the firmware of a node and of the protocol it speaks.
#[derive(Clone, Copy, Debug, PartialEq, Eq)]
pub struct HG_Version {
    pub major: u8,
    pub minor: u8,
    pub patch: u8,
    pub protocols_major: u8,
    pub protocols_minor: u8,
}

impl HG_Version {
    /// The firmware version as text: `v`, then major, minor and patch number
    /// in decimal with a dot between them.
    pub open spec fn version_text(&self) -> Seq<char> {
        seq!['v'] + decimal(self.major as nat) + seq!['.'] + decimal(self.minor as nat) + seq!['.']
            + decimal(self.patch as nat)
    }

    /// The protocol version as text: `#`, then major and minor number in
    /// decimal with a dot between them.
    pub open spec fn protocol_version_text(&self) -> Seq<char> {
        seq!['#'] + decimal(self.protocols_major as nat) + seq!['.'] + decimal(
            self.protocols_minor as nat,
        )
    }

    /// Writes the firmware version as text, such as `v1.12.0`.
    pub fn version_to_string(&self) -> (text: String)
        ensures
            text@ == self.version_text(),
    {
        proof {
            reveal_strlit("v");
            reveal_strlit(".");
        }
        let mut text = "v".to_owned();
        push_decimal(&mut text, self.major);
        text.append(".");
        push_decimal(&mut text, self.minor);
        text.append(".");
        push_decimal(&mut text, self.patch);
        assert(text@ =~= self.version_text());
        text
    }

    /// Writes the protocol version as text, such as `#1.0`.
    pub fn protocol_version_to_string(&self) -> (text: String)
        ensures
            text@ == self.protocol_version_text(),
    {
        proof {
            reveal_strlit("#");
            reveal_strlit(".");
        }
        let mut text = "#".to_owned();
        push_decimal(&mut text, self.protocols_major);
        text.append(".");
        push_decimal(&mut text, self.protocols_minor);
        assert(text@ =~= self.protocol_version_text());
        text
    }

    /// Tells whether the node speaks the protocol version of this schema.
    pub fn protcol_version_matches(&self) -> (matches: bool)
        ensures
            matches == (self.protocols_major == CONST_PROTOCOL_VERSION_MAJOR
                && self.protocols_minor == CONST_PROTOCOL_VERSION_MINOR),
    {
        (self.protocols_major == CONST_PROTOCOL_VERSION_MAJOR) && (self.protocols_minor
            == CONST_PROTOCOL_VERSION_MINOR)
    }
}

/// What the base station reports of itself.
#[derive(Clone, Copy, Debug, PartialEq, Eq)]
pub struct Base_Information {
    pub version: HG_Version,
}

impl AsBytes for Base_Information {
    open spec fn wire(&self) -> Seq<u8> {
        seq![
            self.version.major,
            self.version.minor,
            self.version.patch,
            self.version.protocols_major,
            self.version.protocols_minor,
        ]
    }

    fn as_bytes(&self) -> (bytes: Vec<u8>) {
        let mut bytes: Vec<u8> = Vec::new();
        bytes.push(self.version.major);
        bytes.push(self.version.minor);
        bytes.push(self.version.patch);
        bytes.push(self.version.protocols_major);
        bytes.push(self.version.protocols_minor);
        assert(bytes@ =~= self.wire());
        bytes
    }
}

impl Base_Information {
    /// The report whose image is `b`: any five bytes are one.
    pub open spec fn parse(b: Seq<u8>) -> Option<Base_Information> {
        if b.len() == LEN_BASE_INFORMATION {
            Some(
                Base_Information {
                    version: HG_Version {
                        major: b[0],
                        minor: b[1],
                        patch: b[2],
                        protocols_major: b[3],
                        protocols_minor: b[4],
                    },
                },
            )
        } else {
            None
        }
    }

    /// Reads a report from bytes; `None` unless they are exactly as many as
    /// a report has.
    pub fn from_bytes(data: Vec<u8>) -> (info: Option<Base_Information>)
        ensures
            info == Base_Information::parse(data@),
    {
        if data.len() != LEN_BASE_INFORMATION {
            return None;
        }
        Some(
            Base_Information {
                version: HG_Version {
                    major: data[0],
                    minor: data[1],
                    patch: data[2],
                    protocols_major: data[3],
                    protocols_minor: data[4],
                },
            },
        )
    }

    /// A report that was written out is read back unchanged, and the image of
    /// a report that was read is what it was read from.
    pub proof fn lemma_parse_wire(self, b: Seq<u8>)
        ensures
            self.wire().len() == LEN_BASE_INFORMATION,
            Base_Information::parse(self.wire()) == Some(self),
            b.len() == LEN_BASE_INFORMATION ==> Base_Information::parse(b).unwrap().wire() == b,
    {
        if b.len() == LEN_BASE_INFORMATION {
            assert(Base_Information::parse(b).unwrap().wire() =~= b);
        }
    }
}

/// A radio message as it lies on the wire: the tag that says which record the
/// payload holds, three bytes of padding, and the payload, which is as large
/// as the largest record.
#[derive(Clone, Copy, Debug, PartialEq, Eq)]
pub struct Radio_Message {
    pub mt: Radio_MessageType,
    pub _pad: [u8; 3],
    pub msg: [u8; 28],
}

impl AsBytes for Radio_Message {
    open spec fn wire(&self) -> Seq<u8> {
        seq![self.mt.code()] + self._pad@ + self.msg@
    }

    fn as_bytes(&self) -> (bytes: Vec<u8>) {
        let mut bytes: Vec<u8> = Vec::new();
        bytes.push(self.mt.to_u8());
        bytes.push(self._pad[0]);
        bytes.push(self._pad[1]);
        bytes.push(self._pad[2]);
        bytes.extend_from_slice(self.msg.as_slice());
        assert(bytes@ =~= self.wire());
        bytes
    }
}

impl Radio_Message {
    /// `b` is the image of a message: 32 bytes that open with a tag and three
    /// zero bytes.
    pub open spec fn accepts(b: Seq<u8>) -> bool {
        b.len() == LEN_RADIO_MESSAGE && Radio_MessageType::of_code(b[0]) is Some && all_zero(
            b.subrange(1, 4),
        )
    }

    /// The message whose image is `b`, if `b` is the image of one.
    pub open spec fn parse(b: Seq<u8>) -> Option<Radio_Message> {
        if Radio_Message::accepts(b) {
            Some(
                Radio_Message {
                    mt: Radio_MessageType::of_code(b[0]).unwrap(),
                    _pad: [0u8, 0u8, 0u8],
                    msg: array28(b.subrange(4, 32)),
                },
            )
        } else {
            None
        }
    }

    /// Reads a message from exactly 32 bytes; `None` where the length is
    /// another, the first byte is no tag or a padding byte is not zero.
    pub fn from_bytes(data: &[u8]) -> (message: Option<Radio_Message>)
        ensures
            message == Radio_Message::parse(data@),
    {
        if data.len() != LEN_RADIO_MESSAGE {
            return None;
        }
        if !is_zero_run(data, 1, 4) {
            return None;
        }
        match Radio_MessageType::from_u8(data[0]) {
            None => None,
            Some(mt) => {
                let msg: [u8; 28] = take(data, 4);
                proof {
                    lemma_array28(data@.subrange(4, 32), msg);
                }
                Some(Radio_Message { mt, _pad: [0u8, 0u8, 0u8], msg })
            },
        }
    }
}

/// A radio message with the identifier of the node it is for, or from: the
/// one record that is sent, and one of the two that are received.
#[derive(Clone, Copy, Debug, PartialEq, Eq)]
pub struct Radio_MessageWrapper {
    pub id: Radio_SSL_ID,
    pub _pad: [u8; 3],
    pub msg: Radio_Message,
}

impl AsBytes for Radio_MessageWrapper {
    open spec fn wire(&self) -> Seq<u8> {
        seq![self.id] + self._pad@ + self.msg.wire()
    }

    fn as_bytes(&self) -> (bytes: Vec<u8>) {
        let mut bytes: Vec<u8> = Vec::new();
        bytes.push(self.id);
        bytes.push(self._pad[0]);
        bytes.push(self._pad[1]);
        bytes.push(self._pad[2]);
        let inner = self.msg.as_bytes();
        bytes.extend_from_slice(inner.as_slice());
        assert(bytes@ =~= self.wire());
        bytes
    }
}

impl Radio_MessageWrapper {
    /// The padding of this wrapper and of its message is zero, as the wire
    /// asks.
    pub open spec fn valid(&self) -> bool {
        all_zero(self._pad@) && all_zero(self.msg._pad@)
    }

    /// `b` is the image of a wrapper: 36 bytes with zero padding after the
    /// identifier, and the image of a message after that.
    pub open spec fn accepts(b: Seq<u8>) -> bool {
        b.len() == LEN_MESSAGE_WRAPPER && all_zero(b.subrange(1, 4)) && Radio_Message::accepts(
            b.subrange(4, 36),
        )
    }

    /// The wrapper whose image is `b`, if `b` is the image of one.
    pub open spec fn parse(b: Seq<u8>) -> Option<Radio_MessageWrapper> {
        if Radio_MessageWrapper::accepts(b) {
            Some(
                Radio_MessageWrapper {
                    id: b[0],
                    _pad: [0u8, 0u8, 0u8],
                    msg: Radio_Message::parse(b.subrange(4, 36)).unwrap(),
                },
            )
        } else {
            None
        }
    }

    /// Reads a wrapper from bytes; `None` unless they are exactly as many as
    /// a wrapper has, every padding byte is zero and the tag of the message
    /// is one of the schema.
    pub fn from_bytes(data: Vec<u8>) -> (wrapper: Option<Radio_MessageWrapper>)
        ensures
            wrapper == Radio_MessageWrapper::parse(data@),
    {
        if data.len() != LEN_MESSAGE_WRAPPER {
            return None;
        }
        if !is_zero_run(data.as_slice(), 1, 4) {
            return None;
        }
        match Radio_Message::from_bytes(slice_subrange(data.as_slice(), 4, 36)) {
            None => None,
            Some(msg) => Some(Radio_MessageWrapper { id: data[0], _pad: [0u8, 0u8, 0u8], msg }),
        }
    }

    /// A valid wrapper that was written out is read back unchanged.
    pub proof fn lemma_parse_wire(self)
        requires
            self.valid(),
        ensures
            self.wire().len() == LEN_MESSAGE_WRAPPER,
            Radio_MessageWrapper::parse(self.wire()) == Some(self),
    {
        let w = self.wire();
        let inner = self.msg.wire();
        assert(w.subrange(1, 4) =~= self._pad@);
        assert(w.subrange(4, 36) =~= inner);
        assert(inner.subrange(1, 4) =~= self.msg._pad@);
        assert(inner.subrange(4, 32) =~= self.msg.msg@);
        lemma_array28(self.msg.msg@, self.msg.msg);
        let r = Radio_MessageWrapper::parse(w).unwrap();
        assert(r._pad =~= self._pad);
        assert(r.msg._pad =~= self.msg._pad);
    }

    /// The wrapper that was read from `b` is valid and its image is `b`.
    pub proof fn lemma_wire_parse(b: Seq<u8>)
        requires
            Radio_MessageWrapper::parse(b) is Some,
        ensures
            Radio_MessageWrapper::parse(b).unwrap().valid(),
            Radio_MessageWrapper::parse(b).unwrap().wire() == b,
    {
        let r = Radio_MessageWrapper::parse(b).unwrap();
        let inner = b.subrange(4, 36);
        lemma_array28(inner.subrange(4, 32), r.msg.msg);
        Radio_MessageType::lemma_code_of_code(inner[0]);
        assert(b.subrange(1, 4)[0] == 0 && b.subrange(1, 4)[1] == 0 && b.subrange(1, 4)[2] == 0);
        assert(inner.subrange(1, 4)[0] == 0 && inner.subrange(1, 4)[1] == 0 && inner.subrange(
            1,
            4,
        )[2] == 0);
        assert(r.msg.wire() =~= inner);
        assert(r.wire() =~= b);
    }
}

/// A radio message by what it holds: one of the seven records, or nothing.
#[derive(Clone, Copy, Debug, PartialEq, Eq)]
pub enum Radio_Message_Rust {
    Command(Radio_Command),
    ImuReadings(Radio_ImuReadings),
    MultiConfigMessage(Radio_MultiConfigMessage),
    PrimaryStatusHF(Radio_PrimaryStatusHF),
    PrimaryStatusLF(Radio_PrimaryStatusLF),
    OdometryReading(Radio_OdometryReading),
    OverrideOdometry(Radio_OverrideOdometry),
    Empty,
}

impl Radio_Message_Rust {
    /// The tag that announces this message.
    pub open spec fn tag(&self) -> Radio_MessageType {
        match self {
            Radio_Message_Rust::Command(_) => Radio_MessageType::Command,
            Radio_Message_Rust::ImuReadings(_) => Radio_MessageType::ImuReadings,
            Radio_Message_Rust::MultiConfigMessage(_) => Radio_MessageType::MultiConfigMessage,
            Radio_Message_Rust::PrimaryStatusHF(_) => Radio_MessageType::PrimaryStatusHF,
            Radio_Message_Rust::PrimaryStatusLF(_) => Radio_MessageType::PrimaryStatusLF,
            Radio_Message_Rust::OdometryReading(_) => Radio_MessageType::OdometryReading,
            Radio_Message_Rust::OverrideOdometry(_) => Radio_MessageType::OverrideOdometry,
            Radio_Message_Rust::Empty => Radio_MessageType::Empty,
        }
    }

    /// The 28 bytes of payload of this message: the image of its record, and
    /// zero in every byte after it.
    pub open spec fn payload(&self) -> Seq<u8> {
        match self {
            Radio_Message_Rust::Command(c) => c.wire(),
            Radio_Message_Rust::ImuReadings(ir) => ir.wire() + zeros(4),
            Radio_Message_Rust::MultiConfigMessage(mcm) => mcm.wire(),
            Radio_Message_Rust::PrimaryStatusHF(ps_hf) => ps_hf.wire(),
            Radio_Message_Rust::PrimaryStatusLF(ps_lf) => ps_lf.wire() + zeros(10),
            Radio_Message_Rust::OdometryReading(odo) => odo.wire(),
            Radio_Message_Rust::OverrideOdometry(over_odo) => over_odo.wire(),
            Radio_Message_Rust::Empty => zeros(28),
        }
    }

    /// The record of this message is valid: its padding is zero.
    pub open spec fn valid(&self) -> bool {
        match self {
            Radio_Message_Rust::Command(c) => c.valid(),
            Radio_Message_Rust::MultiConfigMessage(mcm) => mcm.valid(),
            Radio_Message_Rust::PrimaryStatusHF(ps_hf) => ps_hf.valid(),
            _ => true,
        }
    }

    /// This message as it lies on the wire: its tag, zero padding, and its
    /// payload.
    pub open spec fn wrapped(&self) -> Radio_Message {
        Radio_Message { mt: self.tag(), _pad: [0u8, 0u8, 0u8], msg: array28(self.payload()) }
    }

    /// What `msg` holds. A message whose padding is not zero, whose payload is
    /// no valid image of the record that its tag announces, or that has a
    /// byte other than zero after that record, holds nothing.
    pub open spec fn unwrapped(msg: Radio_Message) -> Radio_Message_Rust {
        let p = msg.msg@;
        if !all_zero(msg._pad@) {
            Radio_Message_Rust::Empty
        } else {
            match msg.mt {
                Radio_MessageType::Empty => Radio_Message_Rust::Empty,
                Radio_MessageType::Command => match Radio_Command::parse(p) {
                    Some(c) => Radio_Message_Rust::Command(c),
                    None => Radio_Message_Rust::Empty,
                },
                Radio_MessageType::ImuReadings => match Radio_ImuReadings::parse(
                    p.subrange(0, 24),
                ) {
                    Some(ir) if all_zero(p.subrange(24, 28)) => Radio_Message_Rust::ImuReadings(ir),
                    _ => Radio_Message_Rust::Empty,
                },
                Radio_MessageType::MultiConfigMessage => match Radio_MultiConfigMessage::parse(p) {
                    Some(mcm) => Radio_Message_Rust::MultiConfigMessage(mcm),
                    None => Radio_Message_Rust::Empty,
                },
                Radio_MessageType::OdometryReading => match Radio_OdometryReading::parse(p) {
                    Some(odo) => Radio_Message_Rust::OdometryReading(odo),
                    None => Radio_Message_Rust::Empty,
                },
                Radio_MessageType::OverrideOdometry => match Radio_OverrideOdometry::parse(p) {
                    Some(over_odo) => Radio_Message_Rust::OverrideOdometry(over_odo),
                    None => Radio_Message_Rust::Empty,
                },
                Radio_MessageType::PrimaryStatusHF => match Radio_PrimaryStatusHF::parse(p) {
                    Some(ps_hf) => Radio_Message_Rust::PrimaryStatusHF(ps_hf),
                    None => Radio_Message_Rust::Empty,
                },
                Radio_MessageType::PrimaryStatusLF => match Radio_PrimaryStatusLF::parse(
                    p.subrange(0, 18),
                ) {
                    Some(ps_lf) if all_zero(p.subrange(18, 28)) => {
                        Radio_Message_Rust::PrimaryStatusLF(ps_lf)
                    },
                    _ => Radio_Message_Rust::Empty,
                },
            }
        }
    }

    /// Lays this message out as it goes on the wire: tag, zero padding, and
    /// the record at the start of a payload that is zero everywhere else.
    pub fn wrap(&self) -> (msg: Radio_Message)
        ensures
            msg == self.wrapped(),
    {
        let mut bytes: Vec<u8>;
        let mt: Radio_MessageType;
        match self {
            Radio_Message_Rust::Command(c) => {
                proof {
                    c.lemma_wire_len();
                }
                mt = Radio_MessageType::Command;
                bytes = c.as_bytes();
            },
            Radio_Message_Rust::ImuReadings(ir) => {
                proof {
                    ir.lemma_parse_wire();
                }
                mt = Radio_MessageType::ImuReadings;
                bytes = ir.as_bytes();
                put_zeros(&mut bytes, 4);
            },
            Radio_Message_Rust::MultiConfigMessage(mcm) => {
                proof {
                    mcm.lemma_wire_len();
                }
                mt = Radio_MessageType::MultiConfigMessage;
                bytes = mcm.as_bytes();
            },
            Radio_Message_Rust::PrimaryStatusHF(ps_hf) => {
                proof {
                    ps_hf.lemma_wire_len();
                }
                mt = Radio_MessageType::PrimaryStatusHF;
                bytes = ps_hf.as_bytes();
            },
            Radio_Message_Rust::PrimaryStatusLF(ps_lf) => {
                proof {
                    ps_lf.lemma_parse_wire();
                }
                mt = Radio_MessageType::PrimaryStatusLF;
                bytes = ps_lf.as_bytes();
                put_zeros(&mut bytes, 10);
            },
            Radio_Message_Rust::OdometryReading(odo) => {
                mt = Radio_MessageType::OdometryReading;
                bytes = odo.as_bytes();
            },
            Radio_Message_Rust::OverrideOdometry(over_odo) => {
                mt = Radio_MessageType::OverrideOdometry;
                bytes = over_odo.as_bytes();
            },
            Radio_Message_Rust::Empty => {
                mt = Radio_MessageType::Empty;
                bytes = Vec::new();
                put_zeros(&mut bytes, 28);
            },
        }
        assert(bytes@ =~= self.payload());
        assert(bytes@.len() == 28);
        let msg: [u8; 28] = take(bytes.as_slice(), 0);
        proof {
            assert(bytes@.subrange(0, 28) =~= bytes@);
            lemma_array28(bytes@, msg);
        }
        Radio_Message { mt, _pad: [0u8, 0u8, 0u8], msg }
    }

    /// Reads what a message holds. The result is `Empty` where the message
    /// holds nothing, and also where it is not valid: padding that is not
    /// zero, a status or operation byte outside its enumeration, a flag that
    /// is neither 0 nor 1, or a byte other than zero after the record.
    pub fn unwrap(msg: Radio_Message) -> (message: Radio_Message_Rust)
        ensures
            message == Radio_Message_Rust::unwrapped(msg),
    {
        if !is_zero_run(msg._pad.as_slice(), 0, 3) {
            assert(msg._pad@.subrange(0, 3) =~= msg._pad@);
            return Radio_Message_Rust::Empty;
        }
        assert(msg._pad@.subrange(0, 3) =~= msg._pad@);
        let p = msg.msg.as_slice();
        match msg.mt {
            Radio_MessageType::Empty => Radio_Message_Rust::Empty,
            Radio_MessageType::Command => match Radio_Command::from_bytes(p) {
                Some(c) => Radio_Message_Rust::Command(c),
                None => Radio_Message_Rust::Empty,
            },
            Radio_MessageType::ImuReadings => {
                if !is_zero_run(p, 24, 28) {
                    return Radio_Message_Rust::Empty;
                }
                match Radio_ImuReadings::from_bytes(slice_subrange(p, 0, 24)) {
                    Some(ir) => Radio_Message_Rust::ImuReadings(ir),
                    None => Radio_Message_Rust::Empty,
                }
            },
            Radio_MessageType::MultiConfigMessage => match Radio_MultiConfigMessage::from_bytes(p) {
                Some(mcm) => Radio_Message_Rust::MultiConfigMessage(mcm),
                None => Radio_Message_Rust::Empty,
            },
            Radio_MessageType::OdometryReading => match Radio_OdometryReading::from_bytes(p) {
                Some(odo) => Radio_Message_Rust::OdometryReading(odo),
                None => Radio_Message_Rust::Empty,
            },
            Radio_MessageType::OverrideOdometry => match Radio_OverrideOdometry::from_bytes(p) {
                Some(over_odo) => Radio_Message_Rust::OverrideOdometry(over_odo),
                None => Radio_Message_Rust::Empty,
            },
            Radio_MessageType::PrimaryStatusHF => match Radio_PrimaryStatusHF::from_bytes(p) {
                Some(ps_hf) => Radio_Message_Rust::PrimaryStatusHF(ps_hf),
                None => Radio_Message_Rust::Empty,
            },
            Radio_MessageType::PrimaryStatusLF => {
                if !is_zero_run(p, 18, 28) {
                    return Radio_Message_Rust::Empty;
                }
                match Radio_PrimaryStatusLF::from_bytes(slice_subrange(p, 0, 18)) {
                    Some(ps_lf) => Radio_Message_Rust::PrimaryStatusLF(ps_lf),
                    None => Radio_Message_Rust::Empty,
                }
            },
        }
    }

    /// The payload of a message is 28 bytes, and every byte of it after the
    /// image of the record is zero.
    pub proof fn lemma_payload(self)
        ensures
            self.payload().len() == LEN_PAYLOAD,
            self.wrapped().msg@ == self.payload(),
            self is ImuReadings ==> all_zero(self.payload().subrange(24, 28)),
            self is PrimaryStatusLF ==> all_zero(self.payload().subrange(18, 28)),
            self is Empty ==> all_zero(self.payload()),
    {
        match self {
            Radio_Message_Rust::Command(c) => {
                c.lemma_wire_len();
            },
            Radio_Message_Rust::ImuReadings(ir) => {
                ir.lemma_parse_wire();
            },
            Radio_Message_Rust::MultiConfigMessage(mcm) => {
                mcm.lemma_wire_len();
            },
            Radio_Message_Rust::PrimaryStatusHF(ps_hf) => {
                ps_hf.lemma_wire_len();
            },
            Radio_Message_Rust::PrimaryStatusLF(ps_lf) => {
                ps_lf.lemma_parse_wire();
            },
            _ => {},
        }
        lemma_array28(self.payload(), self.wrapped().msg);
    }

    /// A valid message that was wrapped is unwrapped unchanged.
    pub proof fn lemma_unwrap_wrap(self)
        requires
            self.valid(),
        ensures
            Radio_Message_Rust::unwrapped(self.wrapped()) == self,
    {
        self.lemma_payload();
        let p = self.payload();
        match self {
            Radio_Message_Rust::Command(c) => {
                c.lemma_parse_wire();
            },
            Radio_Message_Rust::ImuReadings(ir) => {
                ir.lemma_parse_wire();
                assert(p.subrange(0, 24) =~= ir.wire());
            },
            Radio_Message_Rust::MultiConfigMessage(mcm) => {
                mcm.lemma_parse_wire();
            },
            Radio_Message_Rust::PrimaryStatusHF(ps_hf) => {
                ps_hf.lemma_parse_wire();
            },
            Radio_Message_Rust::PrimaryStatusLF(ps_lf) => {
                ps_lf.lemma_parse_wire();
                assert(p.subrange(0, 18) =~= ps_lf.wire());
            },
            Radio_Message_Rust::OdometryReading(odo) => {
                odo.lemma_parse_wire(p);
            },
            Radio_Message_Rust::OverrideOdometry(over_odo) => {
                over_odo.lemma_parse_wire(p);
            },
            Radio_Message_Rust::Empty => {},
        }
    }
}

/// A configuration message with every slot empty, no value type, and the
/// given operation.
pub open spec fn blank_config(operation: HG_ConfigOperation) -> Radio_MultiConfigMessage {
    Radio_MultiConfigMessage {
        vars: [
            HG_Variable_NONE,
            HG_Variable_NONE,
            HG_Variable_NONE,
            HG_Variable_NONE,
            HG_Variable_NONE,
        ],
        operation,
        type_: HG_VariableType_VOID,
        _pad: 0,
        values: [0u32, 0u32, 0u32, 0u32, 0u32],
    }
}

/// The first empty slot among `vars`, if one is empty.
pub open spec fn first_free(vars: Seq<HG_Variable>) -> Option<int> {
    if vars[0] == HG_Variable_NONE {
        Some(0int)
    } else if vars[1] == HG_Variable_NONE {
        Some(1int)
    } else if vars[2] == HG_Variable_NONE {
        Some(2int)
    } else if vars[3] == HG_Variable_NONE {
        Some(3int)
    } else if vars[4] == HG_Variable_NONE {
        Some(4int)
    } else {
        None
    }
}

impl Radio_MultiConfigMessage {
    /// A message that asks to write variables, with every slot still empty.
    pub fn write() -> (message: Radio_MultiConfigMessage)
        ensures
            message == blank_config(HG_ConfigOperation::WRITE),
    {
        Radio_MultiConfigMessage {
            vars: [
                HG_Variable_NONE,
                HG_Variable_NONE,
                HG_Variable_NONE,
                HG_Variable_NONE,
                HG_Variable_NONE,
            ],
            operation: HG_ConfigOperation::WRITE,
            type_: HG_VariableType_VOID,
            _pad: 0,
            values: [0u32, 0u32, 0u32, 0u32, 0u32],
        }
    }

    /// Puts `var` with `value` into the first empty slot and returns the
    /// message as it then is. A message without an empty slot stays as it is.
    pub fn add(&mut self, var: HG_Variable, value: u32) -> (message: Radio_MultiConfigMessage)
        ensures
            message == *final(self),
            final(self).operation == old(self).operation,
            final(self).type_ == old(self).type_,
            final(self)._pad == old(self)._pad,
            match first_free(old(self).vars@) {
                Some(slot) => {
                    &&& final(self).vars@ == old(self).vars@.update(slot, var)
                    &&& final(self).values@ == old(self).values@.update(slot, value)
                },
                None => *final(self) == *old(self),
            },
    {
        let mut i: usize = 0;
        while i < 5
            invariant
                i <= 5,
                *self == *old(self),
                forall|k: int| 0 <= k < i ==> self.vars@[k] != HG_Variable_NONE,
            decreases 5 - i,
        {
            if self.vars[i] == HG_Variable_NONE {
                self.vars[i] = var;
                self.values[i] = value;
                return *self;
            }
            i += 1;
        }
        *self
    }

    /// A message that asks to read variables, with every slot still empty.
    pub fn read() -> (message: Radio_MultiConfigMessage)
        ensures
            message == blank_config(HG_ConfigOperation::READ),
    {
        Radio_MultiConfigMessage {
            vars: [
                HG_Variable_NONE,
                HG_Variable_NONE,
                HG_Variable_NONE,
                HG_Variable_NONE,
                HG_Variable_NONE,
            ],
            operation: HG_ConfigOperation::READ,
            type_: HG_VariableType_VOID,
            _pad: 0,
            values: [0u32, 0u32, 0u32, 0u32, 0u32],
        }
    }
}

} // verus!
