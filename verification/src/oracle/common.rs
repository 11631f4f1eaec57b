//! The native driver's handle kinds, modes, attributes and wire data types.
//!
//! Each kind carries the numeric code fixed by the driver's ABI; the codes
//! must be reproduced exactly when defining output columns or binding
//! parameters, so each enum pairs with a verified mapping to its code.

use vstd::prelude::*;

verus! {

/// Kind of driver handle.
#[derive(Clone, Copy, Debug, PartialEq, Eq, Structural)]
pub enum OCIHandleType {
    Environment,
    Error,
    Service,
    Statement,
    Bind,
    Define,
    Describe,
    Server,
    Session,
    Transaction,
}

impl OCIHandleType {
    pub open spec fn spec_code(self) -> u32 {
        match self {
            OCIHandleType::Environment => 1,
            OCIHandleType::Error => 2,
            OCIHandleType::Service => 3,
            OCIHandleType::Statement => 4,
            OCIHandleType::Bind => 5,
            OCIHandleType::Define => 6,
            OCIHandleType::Describe => 7,
            OCIHandleType::Server => 8,
            OCIHandleType::Session => 9,
            OCIHandleType::Transaction => 10,
        }
    }

    /// The handle-type code of the driver's ABI.
    pub fn code(self) -> (r: u32)
        ensures
            r == self.spec_code(),
    {
        match self {
            OCIHandleType::Environment => 1,
            OCIHandleType::Error => 2,
            OCIHandleType::Service => 3,
            OCIHandleType::Statement => 4,
            OCIHandleType::Bind => 5,
            OCIHandleType::Define => 6,
            OCIHandleType::Describe => 7,
            OCIHandleType::Server => 8,
            OCIHandleType::Session => 9,
            OCIHandleType::Transaction => 10,
        }
    }
}

/// Environment creation mode.
#[derive(Clone, Copy, Debug, PartialEq, Eq, Structural)]
pub enum OCIMode {
    Default,
    Threaded,
    Object,
    Events,
    NoUcb,
    NoMutex,
    SuppressNLSValidation,
    NcharLiteralReplaceOn,
    NcharLiteralReplaceOff,
    EnableNLSValidation,
}

impl OCIMode {
    pub open spec fn spec_code(self) -> u32 {
        match self {
            OCIMode::Default => 0x00000000,
            OCIMode::Threaded => 0x00000001,
            OCIMode::Object => 0x00000002,
            OCIMode::Events => 0x00000004,
            OCIMode::NoUcb => 0x00000040,
            OCIMode::NoMutex => 0x00000080,
            OCIMode::SuppressNLSValidation => 0x00100000,
            OCIMode::NcharLiteralReplaceOn => 0x00400000,
            OCIMode::NcharLiteralReplaceOff => 0x00800000,
            OCIMode::EnableNLSValidation => 0x01000000,
        }
    }

    /// The mode bits of the driver's ABI.
    pub fn code(self) -> (r: u32)
        ensures
            r == self.spec_code(),
    {
        match self {
            OCIMode::Default => 0x00000000,
            OCIMode::Threaded => 0x00000001,
            OCIMode::Object => 0x00000002,
            OCIMode::Events => 0x00000004,
            OCIMode::NoUcb => 0x00000040,
            OCIMode::NoMutex => 0x00000080,
            OCIMode::SuppressNLSValidation => 0x00100000,
            OCIMode::NcharLiteralReplaceOn => 0x00400000,
            OCIMode::NcharLiteralReplaceOff => 0x00800000,
            OCIMode::EnableNLSValidation => 0x01000000,
        }
    }
}

/// Kind of session credentials.
#[derive(Clone, Copy, Debug, PartialEq, Eq, Structural)]
pub enum OCICredentialsType {
    Rdbms,
    External,
}

impl OCICredentialsType {
    pub open spec fn spec_code(self) -> u32 {
        match self {
            OCICredentialsType::Rdbms => 1,
            OCICredentialsType::External => 2,
        }
    }

    /// The credentials code of the driver's ABI.
    pub fn code(self) -> (r: u32)
        ensures
            r == self.spec_code(),
    {
        match self {
            OCICredentialsType::Rdbms => 1,
            OCICredentialsType::External => 2,
        }
    }
}

/// Session authentication mode.
#[derive(Clone, Copy, Debug, PartialEq, Eq, Structural)]
pub enum OCIAuthMode {
    Default,
    Migrate,
    Sysdba,
    Sysoper,
    PrelimAuth,
    StmtCache,
}

impl OCIAuthMode {
    pub open spec fn spec_code(self) -> u32 {
        match self {
            OCIAuthMode::Default => 0x00000000,
            OCIAuthMode::Migrate => 0x00000001,
            OCIAuthMode::Sysdba => 0x00000002,
            OCIAuthMode::Sysoper => 0x00000004,
            OCIAuthMode::PrelimAuth => 0x00000008,
            OCIAuthMode::StmtCache => 0x00000040,
        }
    }

    /// The authentication bits of the driver's ABI.
    pub fn code(self) -> (r: u32)
        ensures
            r == self.spec_code(),
    {
        match self {
            OCIAuthMode::Default => 0x00000000,
            OCIAuthMode::Migrate => 0x00000001,
            OCIAuthMode::Sysdba => 0x00000002,
            OCIAuthMode::Sysoper => 0x00000004,
            OCIAuthMode::PrelimAuth => 0x00000008,
            OCIAuthMode::StmtCache => 0x00000040,
        }
    }
}

/// Commit mode: steady-state table batches commit without waiting, the end
/// of the run commits immediately.
#[derive(Clone, Copy, Debug, PartialEq, Eq, Structural)]
pub enum OCICommitMode {
    Default,
    Batch,
    Immediate,
    Wait,
    Nowait,
}

impl OCICommitMode {
    pub open spec fn spec_code(self) -> u32 {
        match self {
            OCICommitMode::Default => 0x00000000,
            OCICommitMode::Batch => 0x00000001,
            OCICommitMode::Immediate => 0x00000002,
            OCICommitMode::Wait => 0x00000004,
            OCICommitMode::Nowait => 0x00000008,
        }
    }

    /// The commit-mode bits of the driver's ABI.
    pub fn code(self) -> (r: u32)
        ensures
            r == self.spec_code(),
    {
        match self {
            OCICommitMode::Default => 0x00000000,
            OCICommitMode::Batch => 0x00000001,
            OCICommitMode::Immediate => 0x00000002,
            OCICommitMode::Wait => 0x00000004,
            OCICommitMode::Nowait => 0x00000008,
        }
    }
}

/// Attribute selector for handle attribute get/set.
#[derive(Clone, Copy, Debug, PartialEq, Eq, Structural)]
pub enum OCIAttribute {
    Server,
    Session,
    PrefetchRows,
    PrefetchMemory,
    Username,
    Password,
    CharsetId,
    RowsFetched,
}

impl OCIAttribute {
    pub open spec fn spec_code(self) -> u32 {
        match self {
            OCIAttribute::Server => 6,
            OCIAttribute::Session => 7,
            OCIAttribute::PrefetchRows => 11,
            OCIAttribute::PrefetchMemory => 13,
            OCIAttribute::Username => 22,
            OCIAttribute::Password => 23,
            OCIAttribute::CharsetId => 31,
            OCIAttribute::RowsFetched => 197,
        }
    }

    /// The attribute code of the driver's ABI.
    pub fn code(self) -> (r: u32)
        ensures
            r == self.spec_code(),
    {
        match self {
            OCIAttribute::Server => 6,
            OCIAttribute::Session => 7,
            OCIAttribute::PrefetchRows => 11,
            OCIAttribute::PrefetchMemory => 13,
            OCIAttribute::Username => 22,
            OCIAttribute::Password => 23,
            OCIAttribute::CharsetId => 31,
            OCIAttribute::RowsFetched => 197,
        }
    }
}

/// Kind of descriptor.
#[derive(Clone, Copy, Debug, PartialEq, Eq, Structural)]
pub enum OCIDescriptorType {
    Lob,
    Parameter,
}

impl OCIDescriptorType {
    pub open spec fn spec_code(self) -> u32 {
        match self {
            OCIDescriptorType::Lob => 50,
            OCIDescriptorType::Parameter => 53,
        }
    }

    /// The descriptor-type code of the driver's ABI.
    pub fn code(self) -> (r: u32)
        ensures
            r == self.spec_code(),
    {
        match self {
            OCIDescriptorType::Lob => 50,
            OCIDescriptorType::Parameter => 53,
        }
    }
}

/// Attribute selector when describing a select-list column.
#[derive(Clone, Copy, Debug, PartialEq, Eq, Structural)]
pub enum OCIDescribeAttribute {
    DataSize,
    DataType,
    DisplaySize,
    Name,
    Precision,
    Scale,
    IsNull,
    CharUsed,
    CharLength,
}

impl OCIDescribeAttribute {
    pub open spec fn spec_code(self) -> u32 {
        match self {
            OCIDescribeAttribute::DataSize => 1,
            OCIDescribeAttribute::DataType => 2,
            OCIDescribeAttribute::DisplaySize => 3,
            OCIDescribeAttribute::Name => 4,
            OCIDescribeAttribute::Precision => 5,
            OCIDescribeAttribute::Scale => 6,
            OCIDescribeAttribute::IsNull => 7,
            OCIDescribeAttribute::CharUsed => 285,
            OCIDescribeAttribute::CharLength => 286,
        }
    }

    /// The describe-attribute code of the driver's ABI.
    pub fn code(self) -> (r: u32)
        ensures
            r == self.spec_code(),
    {
        match self {
            OCIDescribeAttribute::DataSize => 1,
            OCIDescribeAttribute::DataType => 2,
            OCIDescribeAttribute::DisplaySize => 3,
            OCIDescribeAttribute::Name => 4,
            OCIDescribeAttribute::Precision => 5,
            OCIDescribeAttribute::Scale => 6,
            OCIDescribeAttribute::IsNull => 7,
            OCIDescribeAttribute::CharUsed => 285,
            OCIDescribeAttribute::CharLength => 286,
        }
    }
}

/// Statement preparation mode.
#[derive(Clone, Copy, Debug, PartialEq, Eq, Structural)]
pub enum OCIStmtPrepare2Mode {
    Default,
}

impl OCIStmtPrepare2Mode {
    pub open spec fn spec_code(self) -> u32 {
        match self {
            OCIStmtPrepare2Mode::Default => 0x00000000,
        }
    }

    /// The prepare-mode bits of the driver's ABI.
    pub fn code(self) -> (r: u32)
        ensures
            r == self.spec_code(),
    {
        match self {
            OCIStmtPrepare2Mode::Default => 0x00000000,
        }
    }
}

/// Statement text syntax selector.
#[derive(Clone, Copy, Debug, PartialEq, Eq, Structural)]
pub enum OCISyntax {
    NtvSyntax,
}

impl OCISyntax {
    pub open spec fn spec_code(self) -> u32 {
        match self {
            OCISyntax::NtvSyntax => 1,
        }
    }

    /// The syntax code of the driver's ABI.
    pub fn code(self) -> (r: u32)
        ensures
            r == self.spec_code(),
    {
        match self {
            OCISyntax::NtvSyntax => 1,
        }
    }
}

/// Wire data type of a column buffer or bound parameter.
#[derive(Clone, Copy, Debug, PartialEq, Eq, Structural)]
pub enum OCIDataType {
    Unsupported,
    Char,
    Date,
    Timestamp,
    TimestampWithTz,
    TimestampWithLocalTz,
    IntervalYearToMonth,
    IntervalDayToSecond,
    Clob,
    Blob,
    Int,
    Uint,
    Float,
    PackedDecimalNumber,
    Long,
    Binary,
    Numeric,
    NamedObject,
    Ref,
    OCIString,
    NumericWithLength,
}

impl OCIDataType {
    pub open spec fn spec_code(self) -> u16 {
        match self {
            OCIDataType::Unsupported => 0,
            OCIDataType::Char => 1,
            OCIDataType::Date => 12,
            OCIDataType::Timestamp => 180,
            OCIDataType::TimestampWithTz => 188,
            OCIDataType::TimestampWithLocalTz => 232,
            OCIDataType::IntervalYearToMonth => 189,
            OCIDataType::IntervalDayToSecond => 190,
            OCIDataType::Clob => 112,
            OCIDataType::Blob => 113,
            OCIDataType::Int => 3,
            OCIDataType::Uint => 68,
            OCIDataType::Float => 4,
            OCIDataType::PackedDecimalNumber => 7,
            OCIDataType::Long => 8,
            OCIDataType::Binary => 23,
            OCIDataType::Numeric => 2,
            OCIDataType::NamedObject => 108,
            OCIDataType::Ref => 110,
            OCIDataType::OCIString => 155,
            OCIDataType::NumericWithLength => 6,
        }
    }

    /// The wire type code of the driver's ABI; a mismatch when defining an
    /// output column or binding a parameter fails at the native layer.
    pub fn code(self) -> (r: u16)
        ensures
            r == self.spec_code(),
    {
        match self {
            OCIDataType::Unsupported => 0,
            OCIDataType::Char => 1,
            OCIDataType::Date => 12,
            OCIDataType::Timestamp => 180,
            OCIDataType::TimestampWithTz => 188,
            OCIDataType::TimestampWithLocalTz => 232,
            OCIDataType::IntervalYearToMonth => 189,
            OCIDataType::IntervalDayToSecond => 190,
            OCIDataType::Clob => 112,
            OCIDataType::Blob => 113,
            OCIDataType::Int => 3,
            OCIDataType::Uint => 68,
            OCIDataType::Float => 4,
            OCIDataType::PackedDecimalNumber => 7,
            OCIDataType::Long => 8,
            OCIDataType::Binary => 23,
            OCIDataType::Numeric => 2,
            OCIDataType::NamedObject => 108,
            OCIDataType::Ref => 110,
            OCIDataType::OCIString => 155,
            OCIDataType::NumericWithLength => 6,
        }
    }
}

/// Fetch orientation.
#[derive(Clone, Copy, Debug, PartialEq, Eq, Structural)]
pub enum OCIOrientation {
    FetchCurrent,
    FetchNext,
    FetchFirst,
    FetchLast,
    FetchPrior,
    FetchAbsolute,
    FetchRelative,
}

impl OCIOrientation {
    pub open spec fn spec_code(self) -> u16 {
        match self {
            OCIOrientation::FetchCurrent => 0x00000001,
            OCIOrientation::FetchNext => 0x00000002,
            OCIOrientation::FetchFirst => 0x00000004,
            OCIOrientation::FetchLast => 0x00000008,
            OCIOrientation::FetchPrior => 0x00000010,
            OCIOrientation::FetchAbsolute => 0x00000020,
            OCIOrientation::FetchRelative => 0x00000040,
        }
    }

    /// The orientation code of the driver's ABI.
    pub fn code(self) -> (r: u16)
        ensures
            r == self.spec_code(),
    {
        match self {
            OCIOrientation::FetchCurrent => 0x00000001,
            OCIOrientation::FetchNext => 0x00000002,
            OCIOrientation::FetchFirst => 0x00000004,
            OCIOrientation::FetchLast => 0x00000008,
            OCIOrientation::FetchPrior => 0x00000010,
            OCIOrientation::FetchAbsolute => 0x00000020,
            OCIOrientation::FetchRelative => 0x00000040,
        }
    }
}

/// Kind of temporary large object.
#[derive(Clone, Copy, Debug, PartialEq, Eq, Structural)]
pub enum OCITempLobType {
    Default,
    Blob,
    Clob,
}

impl OCITempLobType {
    pub open spec fn spec_code(self) -> u8 {
        match self {
            OCITempLobType::Default => 0,
            OCITempLobType::Blob => 1,
            OCITempLobType::Clob => 2,
        }
    }

    /// The temporary-lob code of the driver's ABI.
    pub fn code(self) -> (r: u8)
        ensures
            r == self.spec_code(),
    {
        match self {
            OCITempLobType::Default => 0,
            OCITempLobType::Blob => 1,
            OCITempLobType::Clob => 2,
        }
    }
}

/// Piece marker on a chunked large-object write: the only, first, middle or
/// last chunk of a value.
#[derive(Clone, Copy, Debug, PartialEq, Eq, Structural)]
pub enum OCILobPiece {
    OnePiece,
    FirstPiece,
    NextPiece,
    LastPiece,
}

impl OCILobPiece {
    pub open spec fn spec_code(self) -> u8 {
        match self {
            OCILobPiece::OnePiece => 0,
            OCILobPiece::FirstPiece => 1,
            OCILobPiece::NextPiece => 2,
            OCILobPiece::LastPiece => 3,
        }
    }

    /// The piece code of the driver's ABI.
    pub fn code(self) -> (r: u8)
        ensures
            r == self.spec_code(),
    {
        match self {
            OCILobPiece::OnePiece => 0,
            OCILobPiece::FirstPiece => 1,
            OCILobPiece::NextPiece => 2,
            OCILobPiece::LastPiece => 3,
        }
    }
}

/// Character set of a connection, source and destination sides differing.
#[derive(Clone, Copy, Debug, PartialEq, Eq, Structural)]
pub enum OCICharset {
    Default,
    WE8ISO8859P1,
    EE8ISO8859P2,
}

impl OCICharset {
    pub open spec fn spec_code(self) -> u16 {
        match self {
            OCICharset::Default => 0,
            OCICharset::WE8ISO8859P1 => 31,
            OCICharset::EE8ISO8859P2 => 32,
        }
    }

    /// The character-set id of the driver's ABI.
    pub fn code(self) -> (r: u16)
        ensures
            r == self.spec_code(),
    {
        match self {
            OCICharset::Default => 0,
            OCICharset::WE8ISO8859P1 => 31,
            OCICharset::EE8ISO8859P2 => 32,
        }
    }
}

} // verus!
