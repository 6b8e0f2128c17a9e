use vstd::prelude::*;

verus! {

/// Why an operation was refused.
#[derive(Debug, Clone, Copy, PartialEq, Eq, Structural)]
pub enum RuleError {
    EmptyWallet,
    EmptyWallets,
    EmptyReferredWallet,
    EmptyUsername,
    EmptyReferredUsername,
    EmptyAchievementId,
    EmptyReason,
    EmptyDateString,
    EmptyTokenBalance,
    InvalidEmail,
    InvalidUsdValue,
    CardIdOutOfRange,
    NonPositiveXp,
    SameReferrer,
    UserExists,
    UserNotFound,
    PulledForDate,
    PulledToday,
    LimitForDate,
    LimitToday,
    AchievementUnlocked,
    FreePullUsed,
    AlreadyInRaffle,
    EmailCaptured,
    NoPendingReferral,
    NoRaffleEntries,
    IdsExhausted,
}

impl RuleError {
    /// The reason as a sentence for the caller.
    pub fn message(&self) -> (r: &'static str) {
        match self {
            RuleError::EmptyWallet => "Wallet address cannot be empty",
            RuleError::EmptyWallets => "Wallet addresses cannot be empty",
            RuleError::EmptyReferredWallet => "Referred wallet cannot be empty",
            RuleError::EmptyUsername => "Username cannot be empty",
            RuleError::EmptyReferredUsername => "Referred username cannot be empty",
            RuleError::EmptyAchievementId => "Achievement ID cannot be empty",
            RuleError::EmptyReason => "Reason cannot be empty",
            RuleError::EmptyDateString => "Date string cannot be empty",
            RuleError::EmptyTokenBalance => "Token balance cannot be empty",
            RuleError::InvalidEmail => "A valid email is required",
            RuleError::InvalidUsdValue => "USD value must be a non-negative finite number",
            RuleError::CardIdOutOfRange => "Card ID must be between 1 and 365",
            RuleError::NonPositiveXp => "XP amount must be positive",
            RuleError::SameReferrer => "Referrer and referred wallet cannot be the same",
            RuleError::UserExists => "User already exists",
            RuleError::UserNotFound => "User not found",
            RuleError::PulledForDate => "Daily pull already recorded for the provided date",
            RuleError::PulledToday => "Daily pull already recorded for today",
            RuleError::LimitForDate => "Daily limit reached for the provided date",
            RuleError::LimitToday => "Daily limit reached for today",
            RuleError::AchievementUnlocked => "Achievement already unlocked",
            RuleError::FreePullUsed => "Free pull already used",
            RuleError::AlreadyInRaffle => "This wallet has already entered the raffle",
            RuleError::EmailCaptured => "Email already captured for this action",
            RuleError::NoPendingReferral => "No pending referral found for this wallet",
            RuleError::NoRaffleEntries => "No raffle entries available",
            RuleError::IdsExhausted => "No row ids are left",
        }
    }
}

} // verus!
