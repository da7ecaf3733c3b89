//! Error vocabularies of the two engines.
//!
//! Every failure of a ledger or plan operation is reported as a specific
//! condition; no operation panics.

use vstd::prelude::*;

verus! {

/// Failure conditions of the share ledger and the pricing functions.
#[derive(Clone, Copy, Debug, PartialEq, Eq, Structural)]
pub enum BufferError {
    Unauthorized,
    InvalidAmount,
    InsufficientAvailable,
    InsufficientProtected,
    VaultNotConfigured,
    MathOverflow,
    ContractPaused,
    SlippageExceeded,
    InvalidTimestamp,
    DepositTooFrequent,
    ConcurrentModification,
    InvalidVaultResponse,
    AdminNotSet,
    BridgeNotSet,
    ZeroAddress,
    DivisionByZero,
}

/// Failure conditions of the installment plan engine.
#[derive(Clone, Copy, Debug, PartialEq, Eq, Structural)]
pub enum ContractError {
    InvalidAmount,
    InvalidInstallments,
    InsufficientCollateral,
    InsufficientAvailable,
    DatesMismatch,
    InvalidDueDate,
    PlanNotFound,
    InstallmentNotFound,
    AlreadyPaid,
    NotDueYet,
    InsufficientFunds,
    TooManyInstallments,
    BufferContractError,
    InvalidShares,
    ExceedsMaxLTV,
}

impl BufferError {
    /// The stable numeric code a host reports for this condition.
    pub fn code(&self) -> (c: u32)
        ensures
            c == self.spec_code(),
    {
        match self {
            BufferError::Unauthorized => 1,
            BufferError::InvalidAmount => 2,
            BufferError::InsufficientAvailable => 3,
            BufferError::InsufficientProtected => 4,
            BufferError::VaultNotConfigured => 5,
            BufferError::MathOverflow => 6,
            BufferError::ContractPaused => 7,
            BufferError::SlippageExceeded => 8,
            BufferError::InvalidTimestamp => 9,
            BufferError::DepositTooFrequent => 10,
            BufferError::ConcurrentModification => 11,
            BufferError::InvalidVaultResponse => 12,
            BufferError::AdminNotSet => 13,
            BufferError::BridgeNotSet => 14,
            BufferError::ZeroAddress => 15,
            BufferError::DivisionByZero => 16,
        }
    }

    /// The numeric code, for use in contracts.
    pub open spec fn spec_code(self) -> u32 {
        match self {
            BufferError::Unauthorized => 1,
            BufferError::InvalidAmount => 2,
            BufferError::InsufficientAvailable => 3,
            BufferError::InsufficientProtected => 4,
            BufferError::VaultNotConfigured => 5,
            BufferError::MathOverflow => 6,
            BufferError::ContractPaused => 7,
            BufferError::SlippageExceeded => 8,
            BufferError::InvalidTimestamp => 9,
            BufferError::DepositTooFrequent => 10,
            BufferError::ConcurrentModification => 11,
            BufferError::InvalidVaultResponse => 12,
            BufferError::AdminNotSet => 13,
            BufferError::BridgeNotSet => 14,
            BufferError::ZeroAddress => 15,
            BufferError::DivisionByZero => 16,
        }
    }
}

impl ContractError {
    /// The stable numeric code a host reports for this condition.
    pub fn code(&self) -> (c: u32)
        ensures
            c == self.spec_code(),
    {
        match self {
            ContractError::InvalidAmount => 1,
            ContractError::InvalidInstallments => 2,
            ContractError::InsufficientCollateral => 3,
            ContractError::InsufficientAvailable => 4,
            ContractError::DatesMismatch => 5,
            ContractError::InvalidDueDate => 6,
            ContractError::PlanNotFound => 7,
            ContractError::InstallmentNotFound => 8,
            ContractError::AlreadyPaid => 9,
            ContractError::NotDueYet => 10,
            ContractError::InsufficientFunds => 11,
            ContractError::TooManyInstallments => 12,
            ContractError::BufferContractError => 13,
            ContractError::InvalidShares => 14,
            ContractError::ExceedsMaxLTV => 15,
        }
    }

    /// The numeric code, for use in contracts.
    pub open spec fn spec_code(self) -> u32 {
        match self {
            ContractError::InvalidAmount => 1,
            ContractError::InvalidInstallments => 2,
            ContractError::InsufficientCollateral => 3,
            ContractError::InsufficientAvailable => 4,
            ContractError::DatesMismatch => 5,
            ContractError::InvalidDueDate => 6,
            ContractError::PlanNotFound => 7,
            ContractError::InstallmentNotFound => 8,
            ContractError::AlreadyPaid => 9,
            ContractError::NotDueYet => 10,
            ContractError::InsufficientFunds => 11,
            ContractError::TooManyInstallments => 12,
            ContractError::BufferContractError => 13,
            ContractError::InvalidShares => 14,
            ContractError::ExceedsMaxLTV => 15,
        }
    }
}

} // verus!
