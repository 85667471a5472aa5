//! Callback events: what the library asks of its user, and the answers.

use vstd::prelude::*;

verus! {

/// The kind of input a callback expects.
#[derive(Debug, Clone, Copy, PartialEq, Eq, Structural)]
pub enum CallbackDataType {
    NoValue,
    Text,
    Secret,
    Boolean,
    Select,
    Unknown(i32),
}

impl CallbackDataType {
    pub const TYPE_NONE: i32 = 0;
    pub const TYPE_SECRET: i32 = 1;
    pub const TYPE_TEXT: i32 = 2;
    pub const TYPE_BOOLEAN: i32 = 3;

    /// The numeric code of a data type.
    pub open spec fn code_of(self) -> i32 {
        match self {
            CallbackDataType::NoValue => 0,
            CallbackDataType::Secret => 1,
            CallbackDataType::Text => 2,
            CallbackDataType::Select => 2,
            CallbackDataType::Boolean => 3,
            CallbackDataType::Unknown(code) => code,
        }
    }

    /// The data type of a numeric code.
    pub open spec fn of_code(code: i32) -> CallbackDataType {
        if code == 0 {
            CallbackDataType::NoValue
        } else if code == 1 {
            CallbackDataType::Secret
        } else if code == 2 {
            CallbackDataType::Text
        } else if code == 3 {
            CallbackDataType::Boolean
        } else {
            CallbackDataType::Unknown(code)
        }
    }

    pub fn original_code(self) -> (c: i32)
        ensures
            c == self.code_of(),
    {
        match self {
            CallbackDataType::NoValue => Self::TYPE_NONE,
            CallbackDataType::Secret => Self::TYPE_SECRET,
            CallbackDataType::Text => Self::TYPE_TEXT,
            CallbackDataType::Select => Self::TYPE_TEXT,
            CallbackDataType::Boolean => Self::TYPE_BOOLEAN,
            CallbackDataType::Unknown(code) => code,
        }
    }

    pub fn from_original_code(code: i32) -> (t: Self)
        ensures
            t == Self::of_code(code),
    {
        if code == Self::TYPE_NONE {
            CallbackDataType::NoValue
        } else if code == Self::TYPE_SECRET {
            CallbackDataType::Secret
        } else if code == Self::TYPE_TEXT {
            CallbackDataType::Text
        } else if code == Self::TYPE_BOOLEAN {
            CallbackDataType::Boolean
        } else {
            CallbackDataType::Unknown(code)
        }
    }
}

/// Decoding a code and encoding the result gives the code back.
pub proof fn law_data_type_code_roundtrip(code: i32)
    ensures
        CallbackDataType::of_code(code).code_of() == code,
{
}

/// Encoding a data type and decoding the code gives it back, except that
/// `Select` shares its code with `Text` and an `Unknown` code that names a
/// known type decodes to that type.
pub proof fn law_data_type_roundtrip(t: CallbackDataType)
    requires
        t != CallbackDataType::Select,
        t matches CallbackDataType::Unknown(c) ==> !(0 <= c <= 3),
    ensures
        CallbackDataType::of_code(t.code_of()) == t,
{
}

/// Why the library calls back.
#[derive(Debug, Clone, Copy, PartialEq, Eq, Structural)]
pub enum CallbackReason {
    NeedCountry,
    NeedBlz,
    NeedHost,
    NeedPort,
    NeedFilter,
    NeedUserId,
    NeedCustomerId,
    NeedPtPin,
    NeedPtTan,
    NeedPtSecMech,
    NeedPtTanMedia,
    NeedConnection,
    CloseConnection,
    HaveInstMsg,
    HaveCrcError,
    HaveError,
    HaveIbanError,
    Unknown(i32),
}

impl CallbackReason {
    pub const NEED_COUNTRY: i32 = 7;
    pub const NEED_BLZ: i32 = 8;
    pub const NEED_HOST: i32 = 9;
    pub const NEED_PORT: i32 = 10;
    pub const NEED_USERID: i32 = 11;
    pub const HAVE_INST_MSG: i32 = 14;
    pub const NEED_PT_PIN: i32 = 16;
    pub const NEED_PT_TAN: i32 = 17;
    pub const NEED_CUSTOMERID: i32 = 18;
    pub const HAVE_CRC_ERROR: i32 = 19;
    pub const HAVE_ERROR: i32 = 20;
    pub const NEED_CONNECTION: i32 = 24;
    pub const CLOSE_CONNECTION: i32 = 25;
    pub const NEED_FILTER: i32 = 26;
    pub const NEED_PT_SECMECH: i32 = 27;
    pub const HAVE_IBAN_ERROR: i32 = 30;
    pub const NEED_PT_TANMEDIA: i32 = 32;

    /// The numeric code of a reason.
    pub open spec fn code_of(self) -> i32 {
        match self {
            CallbackReason::NeedCountry => 7,
            CallbackReason::NeedBlz => 8,
            CallbackReason::NeedHost => 9,
            CallbackReason::NeedPort => 10,
            CallbackReason::NeedFilter => 26,
            CallbackReason::NeedUserId => 11,
            CallbackReason::NeedCustomerId => 18,
            CallbackReason::NeedPtPin => 16,
            CallbackReason::NeedPtTan => 17,
            CallbackReason::NeedPtSecMech => 27,
            CallbackReason::NeedPtTanMedia => 32,
            CallbackReason::NeedConnection => 24,
            CallbackReason::CloseConnection => 25,
            CallbackReason::HaveInstMsg => 14,
            CallbackReason::HaveCrcError => 19,
            CallbackReason::HaveError => 20,
            CallbackReason::HaveIbanError => 30,
            CallbackReason::Unknown(code) => code,
        }
    }

    /// Whether a numeric code names a known reason.
    pub open spec fn is_known_code(code: i32) -> bool {
        code == 7 || code == 8 || code == 9 || code == 10 || code == 26 || code == 11 || code == 18
            || code == 16 || code == 17 || code == 27 || code == 32 || code == 24 || code == 25
            || code == 14 || code == 19 || code == 20 || code == 30
    }

    pub fn original_code(self) -> (c: i32)
        ensures
            c == self.code_of(),
    {
        match self {
            CallbackReason::NeedCountry => Self::NEED_COUNTRY,
            CallbackReason::NeedBlz => Self::NEED_BLZ,
            CallbackReason::NeedHost => Self::NEED_HOST,
            CallbackReason::NeedPort => Self::NEED_PORT,
            CallbackReason::NeedFilter => Self::NEED_FILTER,
            CallbackReason::NeedUserId => Self::NEED_USERID,
            CallbackReason::NeedCustomerId => Self::NEED_CUSTOMERID,
            CallbackReason::NeedPtPin => Self::NEED_PT_PIN,
            CallbackReason::NeedPtTan => Self::NEED_PT_TAN,
            CallbackReason::NeedPtSecMech => Self::NEED_PT_SECMECH,
            CallbackReason::NeedPtTanMedia => Self::NEED_PT_TANMEDIA,
            CallbackReason::NeedConnection => Self::NEED_CONNECTION,
            CallbackReason::CloseConnection => Self::CLOSE_CONNECTION,
            CallbackReason::HaveInstMsg => Self::HAVE_INST_MSG,
            CallbackReason::HaveCrcError => Self::HAVE_CRC_ERROR,
            CallbackReason::HaveError => Self::HAVE_ERROR,
            CallbackReason::HaveIbanError => Self::HAVE_IBAN_ERROR,
            CallbackReason::Unknown(code) => code,
        }
    }

    /// The reason of a numeric code; codes that name no reason give `Unknown`.
    pub fn from_original_code(code: i32) -> (r: Self)
        ensures
            r.code_of() == code,
            Self::is_known_code(code) <==> !(r is Unknown),
    {
        if code == Self::NEED_COUNTRY {
            CallbackReason::NeedCountry
        } else if code == Self::NEED_BLZ {
            CallbackReason::NeedBlz
        } else if code == Self::NEED_HOST {
            CallbackReason::NeedHost
        } else if code == Self::NEED_PORT {
            CallbackReason::NeedPort
        } else if code == Self::NEED_FILTER {
            CallbackReason::NeedFilter
        } else if code == Self::NEED_USERID {
            CallbackReason::NeedUserId
        } else if code == Self::NEED_CUSTOMERID {
            CallbackReason::NeedCustomerId
        } else if code == Self::NEED_PT_PIN {
            CallbackReason::NeedPtPin
        } else if code == Self::NEED_PT_TAN {
            CallbackReason::NeedPtTan
        } else if code == Self::NEED_PT_SECMECH {
            CallbackReason::NeedPtSecMech
        } else if code == Self::NEED_PT_TANMEDIA {
            CallbackReason::NeedPtTanMedia
        } else if code == Self::NEED_CONNECTION {
            CallbackReason::NeedConnection
        } else if code == Self::CLOSE_CONNECTION {
            CallbackReason::CloseConnection
        } else if code == Self::HAVE_INST_MSG {
            CallbackReason::HaveInstMsg
        } else if code == Self::HAVE_CRC_ERROR {
            CallbackReason::HaveCrcError
        } else if code == Self::HAVE_ERROR {
            CallbackReason::HaveError
        } else if code == Self::HAVE_IBAN_ERROR {
            CallbackReason::HaveIbanError
        } else {
            CallbackReason::Unknown(code)
        }
    }
}

/// A known reason survives encoding and decoding.
pub proof fn law_reason_roundtrip(r: CallbackReason, decoded: CallbackReason)
    requires
        !(r is Unknown),
        decoded.code_of() == r.code_of(),
        !(decoded is Unknown),
    ensures
        decoded == r,
{
}

/// What the library tells its user when it calls back.
#[derive(Debug, Clone)]
pub struct CallbackEvent {
    pub reason: CallbackReason,
    pub message: String,
    pub data_type: CallbackDataType,
    pub current_value: Option<String>,
}

impl CallbackEvent {
    /// An event with an empty message, no data type and no current value.
    pub fn new(reason: CallbackReason) -> (e: Self)
        ensures
            e.reason == reason,
            e.message@ == Seq::<char>::empty(),
            e.data_type == CallbackDataType::NoValue,
            e.current_value is None,
    {
        CallbackEvent {
            reason,
            message: String::new(),
            data_type: CallbackDataType::NoValue,
            current_value: None,
        }
    }
}

/// The user's answer to a callback.
#[derive(Debug, Clone)]
pub struct CallbackResponse {
    pub value: Option<String>,
    pub accepted: bool,
}

impl CallbackResponse {
    /// An accepted answer without a value.
    pub fn empty() -> (r: Self)
        ensures
            r.value is None,
            r.accepted,
    {
        CallbackResponse { value: None, accepted: true }
    }

    /// An accepted answer carrying `value`.
    pub fn value(value: &str) -> (r: Self)
        ensures
            r.value matches Some(v) && v@ == value@,
            r.accepted,
    {
        CallbackResponse { value: Some(value.to_owned()), accepted: true }
    }
}

} // verus!
