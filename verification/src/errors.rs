//! Error codes of the backstop contract.

use vstd::prelude::*;

verus! {

/// Errors of the backstop contract. The common errors match up with the error reporting of the
/// built-in contracts; the backstop specific codes start at 1000.
#[derive(Copy, Clone, Debug, PartialEq, Eq, PartialOrd, Ord, Structural)]
pub enum BackstopError {
    InternalError,
    AlreadyInitializedError,
    UnauthorizedError,
    NegativeAmountError,
    BalanceError,
    OverflowError,
    BadRequest,
    NotExpired,
    InvalidRewardZoneEntry,
    InsufficientFunds,
    NotPool,
    InvalidShareMintAmount,
    InvalidTokenWithdrawAmount,
    TooManyQ4WEntries,
    NotInRewardZone,
    RewardZoneFull,
    MaxBackfillEmissions,
    BadDebtExists,
    InvalidPoolFactoryBinding,
    AssetConfigurationCollision,
    InvalidBackstopValuation,
    InvalidValuation,
    StaleValuation,
    InvalidActivationValue,
    InvalidPoolStatus,
    BadDebtCommitmentExists,
    BadDebtCommitmentNotFound,
    NoBadDebtLossCapacity,
    InterestCommitmentExists,
    InterestCommitmentNotFound,
    InvalidInterestLot,
    InterestTierLocked,
    InvalidTakeRateValue,
    InvalidEmissionValue,
    DistributionCheckpointRequired,
    NoEligibleWeight,
    DistributionTooSoon,
    InvalidOngoingBalance,
    EmitterDidNotMigrate,
    NoOngoingEmissions,
    PoolEmissionGulpTooSoon,
    AlreadyFinalized,
    SwapNotQueued,
    InvalidQueuedSwap,
    EmitterAlreadyMigrated,
    MigrationNotPrepared,
    PreparationOutsideWindow,
    SyncWindowExpired,
    RetryLimitExceeded,
    RecoveryHorizonExceeded,
    QueueNotVerified,
    MigrationNotActive,
    PrefundingWindowExceeded,
    MigrationEpochNotOpen,
    MigrationEpochAlreadyOpen,
    BackfillAlreadyFunded,
    BackfillNotFunded,
    BackfillAlreadyClaimed,
    InvalidBackfillFunding,
}

impl BackstopError {
    /// The number under which the contract reports the error.
    pub open spec fn spec_code(self) -> u32 {
        match self {
            BackstopError::InternalError => 1,
            BackstopError::AlreadyInitializedError => 3,
            BackstopError::UnauthorizedError => 4,
            BackstopError::NegativeAmountError => 8,
            BackstopError::BalanceError => 10,
            BackstopError::OverflowError => 12,
            BackstopError::BadRequest => 1000,
            BackstopError::NotExpired => 1001,
            BackstopError::InvalidRewardZoneEntry => 1002,
            BackstopError::InsufficientFunds => 1003,
            BackstopError::NotPool => 1004,
            BackstopError::InvalidShareMintAmount => 1005,
            BackstopError::InvalidTokenWithdrawAmount => 1006,
            BackstopError::TooManyQ4WEntries => 1007,
            BackstopError::NotInRewardZone => 1008,
            BackstopError::RewardZoneFull => 1009,
            BackstopError::MaxBackfillEmissions => 1010,
            BackstopError::BadDebtExists => 1011,
            BackstopError::InvalidPoolFactoryBinding => 1012,
            BackstopError::AssetConfigurationCollision => 1013,
            BackstopError::InvalidBackstopValuation => 1014,
            BackstopError::InvalidValuation => 1015,
            BackstopError::StaleValuation => 1016,
            BackstopError::InvalidActivationValue => 1017,
            BackstopError::InvalidPoolStatus => 1018,
            BackstopError::BadDebtCommitmentExists => 1019,
            BackstopError::BadDebtCommitmentNotFound => 1020,
            BackstopError::NoBadDebtLossCapacity => 1021,
            BackstopError::InterestCommitmentExists => 1022,
            BackstopError::InterestCommitmentNotFound => 1023,
            BackstopError::InvalidInterestLot => 1024,
            BackstopError::InterestTierLocked => 1025,
            BackstopError::InvalidTakeRateValue => 1026,
            BackstopError::InvalidEmissionValue => 1027,
            BackstopError::DistributionCheckpointRequired => 1028,
            BackstopError::NoEligibleWeight => 1029,
            BackstopError::DistributionTooSoon => 1030,
            BackstopError::InvalidOngoingBalance => 1031,
            BackstopError::EmitterDidNotMigrate => 1032,
            BackstopError::NoOngoingEmissions => 1033,
            BackstopError::PoolEmissionGulpTooSoon => 1034,
            BackstopError::AlreadyFinalized => 1035,
            BackstopError::SwapNotQueued => 1036,
            BackstopError::InvalidQueuedSwap => 1037,
            BackstopError::EmitterAlreadyMigrated => 1038,
            BackstopError::MigrationNotPrepared => 1039,
            BackstopError::PreparationOutsideWindow => 1040,
            BackstopError::SyncWindowExpired => 1041,
            BackstopError::RetryLimitExceeded => 1042,
            BackstopError::RecoveryHorizonExceeded => 1043,
            BackstopError::QueueNotVerified => 1044,
            BackstopError::MigrationNotActive => 1045,
            BackstopError::PrefundingWindowExceeded => 1046,
            BackstopError::MigrationEpochNotOpen => 1047,
            BackstopError::MigrationEpochAlreadyOpen => 1048,
            BackstopError::BackfillAlreadyFunded => 1049,
            BackstopError::BackfillNotFunded => 1050,
            BackstopError::BackfillAlreadyClaimed => 1051,
            BackstopError::InvalidBackfillFunding => 1052,
        }
    }

    /// The number under which the contract reports the error.
    pub fn code(self) -> (r: u32)
        ensures
            r == self.spec_code(),
    {
        match self {
            BackstopError::InternalError => 1,
            BackstopError::AlreadyInitializedError => 3,
            BackstopError::UnauthorizedError => 4,
            BackstopError::NegativeAmountError => 8,
            BackstopError::BalanceError => 10,
            BackstopError::OverflowError => 12,
            BackstopError::BadRequest => 1000,
            BackstopError::NotExpired => 1001,
            BackstopError::InvalidRewardZoneEntry => 1002,
            BackstopError::InsufficientFunds => 1003,
            BackstopError::NotPool => 1004,
            BackstopError::InvalidShareMintAmount => 1005,
            BackstopError::InvalidTokenWithdrawAmount => 1006,
            BackstopError::TooManyQ4WEntries => 1007,
            BackstopError::NotInRewardZone => 1008,
            BackstopError::RewardZoneFull => 1009,
            BackstopError::MaxBackfillEmissions => 1010,
            BackstopError::BadDebtExists => 1011,
            BackstopError::InvalidPoolFactoryBinding => 1012,
            BackstopError::AssetConfigurationCollision => 1013,
            BackstopError::InvalidBackstopValuation => 1014,
            BackstopError::InvalidValuation => 1015,
            BackstopError::StaleValuation => 1016,
            BackstopError::InvalidActivationValue => 1017,
            BackstopError::InvalidPoolStatus => 1018,
            BackstopError::BadDebtCommitmentExists => 1019,
            BackstopError::BadDebtCommitmentNotFound => 1020,
            BackstopError::NoBadDebtLossCapacity => 1021,
            BackstopError::InterestCommitmentExists => 1022,
            BackstopError::InterestCommitmentNotFound => 1023,
            BackstopError::InvalidInterestLot => 1024,
            BackstopError::InterestTierLocked => 1025,
            BackstopError::InvalidTakeRateValue => 1026,
            BackstopError::InvalidEmissionValue => 1027,
            BackstopError::DistributionCheckpointRequired => 1028,
            BackstopError::NoEligibleWeight => 1029,
            BackstopError::DistributionTooSoon => 1030,
            BackstopError::InvalidOngoingBalance => 1031,
            BackstopError::EmitterDidNotMigrate => 1032,
            BackstopError::NoOngoingEmissions => 1033,
            BackstopError::PoolEmissionGulpTooSoon => 1034,
            BackstopError::AlreadyFinalized => 1035,
            BackstopError::SwapNotQueued => 1036,
            BackstopError::InvalidQueuedSwap => 1037,
            BackstopError::EmitterAlreadyMigrated => 1038,
            BackstopError::MigrationNotPrepared => 1039,
            BackstopError::PreparationOutsideWindow => 1040,
            BackstopError::SyncWindowExpired => 1041,
            BackstopError::RetryLimitExceeded => 1042,
            BackstopError::RecoveryHorizonExceeded => 1043,
            BackstopError::QueueNotVerified => 1044,
            BackstopError::MigrationNotActive => 1045,
            BackstopError::PrefundingWindowExceeded => 1046,
            BackstopError::MigrationEpochNotOpen => 1047,
            BackstopError::MigrationEpochAlreadyOpen => 1048,
            BackstopError::BackfillAlreadyFunded => 1049,
            BackstopError::BackfillNotFunded => 1050,
            BackstopError::BackfillAlreadyClaimed => 1051,
            BackstopError::InvalidBackfillFunding => 1052,
        }
    }
}

/// No two errors are reported under the same number.
pub proof fn law_error_codes_are_distinct(a: BackstopError, b: BackstopError)
    requires
        a.spec_code() == b.spec_code(),
    ensures
        a == b,
{
}

} // verus!
