use vstd::prelude::*;

verus! {

/// The rule of the emission-schedule validator that a proposed schedule breaks.
#[derive(Clone, Copy, Debug, PartialEq, Eq, Structural)]
pub enum ScheduleViolation {
    /// A segment that has already begun is missing, or occurs less often than before.
    RemovesStarted,
    /// A segment that would already have begun is new, or occurs more often than before.
    AddsStarted,
}

/// A kind of record that is kept under a key.
#[derive(Clone, Copy, Debug, PartialEq, Eq, Structural)]
pub enum Record {
    /// What is known of a registered strategy.
    StrategyInfo,
    /// The distribution state of a strategy.
    StrategyMetadata,
    /// A staker of the staking pool.
    StakerInfo,
}

/// Every way in which an operation of the contracts can fail.
#[derive(Clone, Copy, Debug, PartialEq, Eq, Structural)]
pub enum ContractError {
    /// The caller is not the address that the operation is reserved for.
    Unauthorized,
    /// A record of this kind is already kept under the key.
    AlreadyExists(Record),
    /// No record of this kind is kept under the key.
    NotFound(Record),
    /// The proposed emission schedule rewrites the past.
    InvalidSchedule(ScheduleViolation),
    /// A subtraction would go below zero.
    Underflow,
    /// A result does not fit in 128 bits.
    Overflow,
    /// A ratio was asked for with a zero denominator.
    DivideByZero,
    /// What came with a message from another contract could not be read.
    SerializationError,
    /// The command has no behaviour yet.
    NotImplemented,
}

impl ContractError {
    /// A sentence for the error, fit for a log line or a response.
    pub fn message(&self) -> (text: &'static str)
        ensures
            text@ == self.message_text(),
    {
        match self {
            ContractError::Unauthorized => "unauthorized",
            ContractError::AlreadyExists(Record::StrategyInfo) => "strategy info already exists",
            ContractError::AlreadyExists(
                Record::StrategyMetadata,
            ) => "strategy metadata already exists",
            ContractError::AlreadyExists(Record::StakerInfo) => "staker info already exists",
            ContractError::NotFound(Record::StrategyInfo) => "strategy info does not exist",
            ContractError::NotFound(Record::StrategyMetadata) => "strategy metadata does not exist",
            ContractError::NotFound(Record::StakerInfo) => "staker info does not exist",
            ContractError::InvalidSchedule(ScheduleViolation::RemovesStarted) => {
                "new schedule removes already started distribution"
            },
            ContractError::InvalidSchedule(ScheduleViolation::AddsStarted) => {
                "new schedule adds an already started distribution"
            },
            ContractError::Underflow => "cannot subtract more than there is",
            ContractError::Overflow => "result exceeds 128 bits",
            ContractError::DivideByZero => "denominator must not be zero",
            ContractError::SerializationError => "data should be given",
            ContractError::NotImplemented => "not implemented",
        }
    }

    /// The text that `message` returns.
    pub open spec fn message_text(&self) -> Seq<char> {
        match self {
            ContractError::Unauthorized => "unauthorized"@,
            ContractError::AlreadyExists(Record::StrategyInfo) => "strategy info already exists"@,
            ContractError::AlreadyExists(
                Record::StrategyMetadata,
            ) => "strategy metadata already exists"@,
            ContractError::AlreadyExists(Record::StakerInfo) => "staker info already exists"@,
            ContractError::NotFound(Record::StrategyInfo) => "strategy info does not exist"@,
            ContractError::NotFound(
                Record::StrategyMetadata,
            ) => "strategy metadata does not exist"@,
            ContractError::NotFound(Record::StakerInfo) => "staker info does not exist"@,
            ContractError::InvalidSchedule(ScheduleViolation::RemovesStarted) => {
                "new schedule removes already started distribution"@
            },
            ContractError::InvalidSchedule(ScheduleViolation::AddsStarted) => {
                "new schedule adds an already started distribution"@
            },
            ContractError::Underflow => "cannot subtract more than there is"@,
            ContractError::Overflow => "result exceeds 128 bits"@,
            ContractError::DivideByZero => "denominator must not be zero"@,
            ContractError::SerializationError => "data should be given"@,
            ContractError::NotImplemented => "not implemented"@,
        }
    }
}

} // verus!
