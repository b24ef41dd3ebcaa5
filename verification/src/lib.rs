//! A verified registry of non-fungible achievement records.
//!
//! The registry tracks which principal owns which record, stores descriptive
//! metadata, enforces who may create or destroy records, maintains per-owner
//! indices and an aggregate leaderboard, and automatically issues milestone
//! records when a tracked reputation score crosses fixed thresholds.
//!
//! The durable storage substrate, caller authentication, the clock and event
//! emission are collaborators outside this crate: the registry state is held
//! explicitly in [`ReputationNFTContract`] and every operation is a verified
//! function over that state.

pub mod access;
pub mod alist;
pub mod contract;
pub mod laws;
pub mod metadata;
pub mod model;
pub mod storage;
pub mod types;

pub use crate::storage::ReputationNFTContract;
pub use crate::types::AchievementType;
pub use crate::types::Error;
pub use crate::types::Metadata;
pub use crate::types::Principal;
pub use crate::types::ReputationScore;
pub use crate::types::TokenId;

