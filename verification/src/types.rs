//! The data model: record identifiers, principals, categories, metadata,
//! reputation rows and the error kinds every operation reports.

use vstd::prelude::*;

verus! {

/// Identifier of an achievement record. Auto-assigned identifiers come from a
/// global counter that starts at 1 and never repeats a value.
pub type TokenId = u64;

/// An authenticated identity that can hold records and initiate operations.
/// Whether a call genuinely originates from a principal is decided by an
/// outside authentication collaborator; the registry only compares identities.
pub type Principal = u64;

/// The fixed classification of a record. It is chosen at issuance, is
/// immutable afterwards, and governs transferability and statistics bucketing.
#[derive(Clone, Copy, Debug, PartialEq, Eq, Structural)]
pub enum AchievementType {
    /// Regular record; can be transferred.
    Standard,
    /// Reputation-based achievement; non-transferable.
    Reputation,
    /// Project-based milestone; non-transferable.
    ProjectMilestone,
    /// Rating-based milestone; non-transferable.
    RatingMilestone,
    /// Custom achievement; transferable.
    CustomAchievement,
}

impl AchievementType {
    /// Only `Standard` and `CustomAchievement` records may change owner.
    pub open spec fn spec_is_transferable(self) -> bool {
        self is Standard || self is CustomAchievement
    }

    /// Executable form of the transfer policy.
    pub fn is_transferable(&self) -> (r: bool)
        ensures
            r == self.spec_is_transferable(),
    {
        matches!(self, AchievementType::Standard | AchievementType::CustomAchievement)
    }
}

/// The error kinds reported to callers. No operation is retried internally and
/// single-record operations are all-or-nothing.
#[derive(Clone, Copy, Debug, PartialEq, Eq, Structural)]
pub enum Error {
    /// The caller lacks the administrator, minter or owner privilege needed.
    Unauthorized,
    /// A lookup targeted an unoccupied record identifier.
    TokenDoesNotExist,
    /// An issuance targeted an occupied record identifier.
    TokenAlreadyExists,
    /// Reserved: adding a minter that is already registered is idempotent
    /// instead of reporting this kind.
    AlreadyMinter,
    /// Reserved: removing an absent minter is idempotent instead of reporting
    /// this kind.
    NotMinter,
    /// A transfer targeted a record whose category forbids transfers.
    NonTransferableToken,
    /// Reserved: unknown achievement tags degrade to a generic description
    /// instead of reporting this kind.
    InvalidAchievementType,
}

/// Descriptive metadata of a record. It exists exactly when the owner entry
/// exists and may be overwritten in place by a repeated issuance call.
#[derive(Clone, Debug, PartialEq, Eq)]
pub struct Metadata {
    /// Display name of the record.
    pub name: String,
    /// Human-readable description.
    pub description: String,
    /// Resource locator for off-chain content.
    pub uri: String,
    /// Category of the record, fixed at issuance.
    pub achievement_type: AchievementType,
}

impl Metadata {
    /// Copies the metadata field by field. The copy is equal to the original,
    /// which a derived clone would not let callers conclude.
    pub fn duplicate(&self) -> (r: Metadata)
        ensures
            r == *self,
    {
        Metadata {
            name: self.name.clone(),
            description: self.description.clone(),
            uri: self.uri.clone(),
            achievement_type: self.achievement_type,
        }
    }
}

/// The latest reputation row of a principal, fully overwritten on each score
/// update.
#[derive(Clone, Copy, Debug, PartialEq, Eq, Structural)]
pub struct ReputationScore {
    /// Average rating scaled by 100: a value of 400 stands for 4.00 stars.
    pub rating_average: u32,
    /// How many ratings the average is over.
    pub total_ratings: u32,
    /// Timestamp supplied by the clock collaborator when the row was written.
    pub last_update_time: u64,
}

} // verus!
