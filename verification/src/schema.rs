//! The enumerations and identifiers of the radio schema, each with its code on
//! the wire.
//!
//! An enumeration that the link inspects is closed: a byte outside it does not
//! decode, and a record that carries such a byte is not valid. Variables,
//! variable types and robot commands belong to the firmware; the link moves
//! them as plain codes and names only the ones it uses itself.
use vstd::prelude::*;

verus! {

/// Identifier of a node on the radio link: 0 to 15 for a robot, or one of the
/// two reserved identifiers below.
pub type Radio_SSL_ID = u8;

/// Number of robot slots; robot identifiers are below this.
pub const MAX_NUM_ROBOTS: usize = 16;

/// Reserved identifier that addresses every robot at once.
pub const Radio_Broadcast_ID: Radio_SSL_ID = 0xFF;

/// Reserved identifier that addresses the base station itself.
pub const Radio_BaseStation_ID: Radio_SSL_ID = 0xFE;

/// Major number of the protocol version this schema implements.
pub const CONST_PROTOCOL_VERSION_MAJOR: u8 = 1;

/// Minor number of the protocol version this schema implements.
pub const CONST_PROTOCOL_VERSION_MINOR: u8 = 0;

/// Code of a configuration variable.
pub type HG_Variable = u8;

/// The empty slot of a configuration message.
pub const HG_Variable_NONE: HG_Variable = 0;

/// The radio channel of the base station.
pub const HG_Variable_RADIO_CHANNEL: HG_Variable = 1;

/// Code of the type of a configuration value.
pub type HG_VariableType = u8;

/// The type of a message whose values are not typed.
pub const HG_VariableType_VOID: HG_VariableType = 0;

/// Code of a command to a robot's actuators.
pub type Radio_RobotCommand = u8;

/// No actuator command.
pub const Radio_RobotCommand_NONE: Radio_RobotCommand = 0;

/// Health of one component of a robot.
#[derive(Clone, Copy, Debug, PartialEq, Eq, Structural)]
pub enum HG_Status {
    EMERGENCY,
    OK,
    STARTING,
    OVERTEMP,
    NO_REPLY,
    ARMED,
    SAFE,
    NOT_INSTALLED,
}

impl HG_Status {
    /// The code of this status on the wire.
    pub open spec fn code(self) -> u8 {
        match self {
            HG_Status::EMERGENCY => 0,
            HG_Status::OK => 1,
            HG_Status::STARTING => 3,
            HG_Status::OVERTEMP => 4,
            HG_Status::NO_REPLY => 5,
            HG_Status::ARMED => 6,
            HG_Status::SAFE => 8,
            HG_Status::NOT_INSTALLED => 9,
        }
    }

    /// The status that `code` stands for, if it stands for one.
    pub open spec fn of_code(code: u8) -> Option<HG_Status> {
        if code == 0 {
            Some(HG_Status::EMERGENCY)
        } else if code == 1 {
            Some(HG_Status::OK)
        } else if code == 3 {
            Some(HG_Status::STARTING)
        } else if code == 4 {
            Some(HG_Status::OVERTEMP)
        } else if code == 5 {
            Some(HG_Status::NO_REPLY)
        } else if code == 6 {
            Some(HG_Status::ARMED)
        } else if code == 8 {
            Some(HG_Status::SAFE)
        } else if code == 9 {
            Some(HG_Status::NOT_INSTALLED)
        } else {
            None
        }
    }

    /// A byte that decodes is the code of the status it decodes to.
    pub proof fn lemma_code_of_code(code: u8)
        requires
            HG_Status::of_code(code) is Some,
        ensures
            HG_Status::of_code(code).unwrap().code() == code,
    {
    }

    /// Encodes this status.
    pub fn to_u8(self) -> (code: u8)
        ensures
            code == self.code(),
            HG_Status::of_code(code) == Some(self),
    {
        match self {
            HG_Status::EMERGENCY => 0,
            HG_Status::OK => 1,
            HG_Status::STARTING => 3,
            HG_Status::OVERTEMP => 4,
            HG_Status::NO_REPLY => 5,
            HG_Status::ARMED => 6,
            HG_Status::SAFE => 8,
            HG_Status::NOT_INSTALLED => 9,
        }
    }

    /// Decodes a status; `None` for a byte that is no status code.
    pub fn from_u8(code: u8) -> (status: Option<HG_Status>)
        ensures
            status == HG_Status::of_code(code),
            status matches Some(s) ==> s.code() == code,
    {
        match code {
            0 => Some(HG_Status::EMERGENCY),
            1 => Some(HG_Status::OK),
            3 => Some(HG_Status::STARTING),
            4 => Some(HG_Status::OVERTEMP),
            5 => Some(HG_Status::NO_REPLY),
            6 => Some(HG_Status::ARMED),
            8 => Some(HG_Status::SAFE),
            9 => Some(HG_Status::NOT_INSTALLED),
            _ => None,
        }
    }
}

/// Tag of a radio message: which record its payload holds.
#[derive(Clone, Copy, Debug, PartialEq, Eq, Structural)]
pub enum Radio_MessageType {
    Empty,
    Command,
    ImuReadings,
    MultiConfigMessage,
    OdometryReading,
    OverrideOdometry,
    PrimaryStatusHF,
    PrimaryStatusLF,
}

impl Radio_MessageType {
    /// The tag byte on the wire.
    pub open spec fn code(self) -> u8 {
        match self {
            Radio_MessageType::Empty => 0,
            Radio_MessageType::Command => 1,
            Radio_MessageType::ImuReadings => 2,
            Radio_MessageType::MultiConfigMessage => 3,
            Radio_MessageType::OdometryReading => 4,
            Radio_MessageType::OverrideOdometry => 5,
            Radio_MessageType::PrimaryStatusHF => 6,
            Radio_MessageType::PrimaryStatusLF => 7,
        }
    }

    /// The message type that `code` stands for, if it stands for one.
    pub open spec fn of_code(code: u8) -> Option<Radio_MessageType> {
        if code == 0 {
            Some(Radio_MessageType::Empty)
        } else if code == 1 {
            Some(Radio_MessageType::Command)
        } else if code == 2 {
            Some(Radio_MessageType::ImuReadings)
        } else if code == 3 {
            Some(Radio_MessageType::MultiConfigMessage)
        } else if code == 4 {
            Some(Radio_MessageType::OdometryReading)
        } else if code == 5 {
            Some(Radio_MessageType::OverrideOdometry)
        } else if code == 6 {
            Some(Radio_MessageType::PrimaryStatusHF)
        } else if code == 7 {
            Some(Radio_MessageType::PrimaryStatusLF)
        } else {
            None
        }
    }

    /// A byte that decodes is the code of the tag it decodes to.
    pub proof fn lemma_code_of_code(code: u8)
        requires
            Radio_MessageType::of_code(code) is Some,
        ensures
            Radio_MessageType::of_code(code).unwrap().code() == code,
    {
    }

    /// Encodes this tag.
    pub fn to_u8(self) -> (code: u8)
        ensures
            code == self.code(),
            Radio_MessageType::of_code(code) == Some(self),
    {
        match self {
            Radio_MessageType::Empty => 0,
            Radio_MessageType::Command => 1,
            Radio_MessageType::ImuReadings => 2,
            Radio_MessageType::MultiConfigMessage => 3,
            Radio_MessageType::OdometryReading => 4,
            Radio_MessageType::OverrideOdometry => 5,
            Radio_MessageType::PrimaryStatusHF => 6,
            Radio_MessageType::PrimaryStatusLF => 7,
        }
    }

    /// Decodes a tag; `None` for a byte that is no tag.
    pub fn from_u8(code: u8) -> (tag: Option<Radio_MessageType>)
        ensures
            tag == Radio_MessageType::of_code(code),
            tag matches Some(t) ==> t.code() == code,
    {
        match code {
            0 => Some(Radio_MessageType::Empty),
            1 => Some(Radio_MessageType::Command),
            2 => Some(Radio_MessageType::ImuReadings),
            3 => Some(Radio_MessageType::MultiConfigMessage),
            4 => Some(Radio_MessageType::OdometryReading),
            5 => Some(Radio_MessageType::OverrideOdometry),
            6 => Some(Radio_MessageType::PrimaryStatusHF),
            7 => Some(Radio_MessageType::PrimaryStatusLF),
            _ => None,
        }
    }
}

/// What a configuration message asks of, or reports from, a node.
#[derive(Clone, Copy, Debug, PartialEq, Eq, Structural)]
pub enum HG_ConfigOperation {
    READ,
    WRITE,
    READ_RETURN,
    WRITE_RETURN,
    SET_DEFAULT,
    SET_DEFAULT_RETURN,
}

impl HG_ConfigOperation {
    /// The code of this operation on the wire.
    pub open spec fn code(self) -> u8 {
        match self {
            HG_ConfigOperation::READ => 0,
            HG_ConfigOperation::WRITE => 1,
            HG_ConfigOperation::READ_RETURN => 2,
            HG_ConfigOperation::WRITE_RETURN => 3,
            HG_ConfigOperation::SET_DEFAULT => 4,
            HG_ConfigOperation::SET_DEFAULT_RETURN => 5,
        }
    }

    /// The operation that `code` stands for, if it stands for one.
    pub open spec fn of_code(code: u8) -> Option<HG_ConfigOperation> {
        if code == 0 {
            Some(HG_ConfigOperation::READ)
        } else if code == 1 {
            Some(HG_ConfigOperation::WRITE)
        } else if code == 2 {
            Some(HG_ConfigOperation::READ_RETURN)
        } else if code == 3 {
            Some(HG_ConfigOperation::WRITE_RETURN)
        } else if code == 4 {
            Some(HG_ConfigOperation::SET_DEFAULT)
        } else if code == 5 {
            Some(HG_ConfigOperation::SET_DEFAULT_RETURN)
        } else {
            None
        }
    }

    /// This operation is the answer of a node to a request.
    pub open spec fn is_return(self) -> bool {
        self == HG_ConfigOperation::READ_RETURN || self == HG_ConfigOperation::WRITE_RETURN
            || self == HG_ConfigOperation::SET_DEFAULT_RETURN
    }

    /// A byte that decodes is the code of the operation it decodes to.
    pub proof fn lemma_code_of_code(code: u8)
        requires
            HG_ConfigOperation::of_code(code) is Some,
        ensures
            HG_ConfigOperation::of_code(code).unwrap().code() == code,
    {
    }

    /// Encodes this operation.
    pub fn to_u8(self) -> (code: u8)
        ensures
            code == self.code(),
            HG_ConfigOperation::of_code(code) == Some(self),
    {
        match self {
            HG_ConfigOperation::READ => 0,
            HG_ConfigOperation::WRITE => 1,
            HG_ConfigOperation::READ_RETURN => 2,
            HG_ConfigOperation::WRITE_RETURN => 3,
            HG_ConfigOperation::SET_DEFAULT => 4,
            HG_ConfigOperation::SET_DEFAULT_RETURN => 5,
        }
    }

    /// Decodes an operation; `None` for a byte that is no operation code.
    pub fn from_u8(code: u8) -> (operation: Option<HG_ConfigOperation>)
        ensures
            operation == HG_ConfigOperation::of_code(code),
            operation matches Some(o) ==> o.code() == code,
    {
        match code {
            0 => Some(HG_ConfigOperation::READ),
            1 => Some(HG_ConfigOperation::WRITE),
            2 => Some(HG_ConfigOperation::READ_RETURN),
            3 => Some(HG_ConfigOperation::WRITE_RETURN),
            4 => Some(HG_ConfigOperation::SET_DEFAULT),
            5 => Some(HG_ConfigOperation::SET_DEFAULT_RETURN),
            _ => None,
        }
    }
}

} // verus!
