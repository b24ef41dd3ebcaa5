//! Writing and reading record metadata.

use vstd::prelude::*;

use crate::model::category_or_standard;
use crate::model::RegistryView;
use crate::storage;
use crate::storage::ReputationNFTContract;
use crate::types::AchievementType;
use crate::types::Error;
use crate::types::Metadata;
use crate::types::TokenId;

verus! {

/// Writes a record's metadata, creating or overwriting it in place; a
/// repeated call against the same identifier refreshes the stored fields.
/// When no category is given the record counts as `Standard`. Ownership is
/// not touched and no existence check is made beyond what the caller has
/// already established.
pub fn store_metadata(
    c: &mut ReputationNFTContract,
    token_id: TokenId,
    name: String,
    description: String,
    uri: String,
    achievement_type: Option<AchievementType>,
) -> (r: Result<(), Error>)
    requires
        old(c).wf(),
    ensures
        final(c).wf(),
        r is Ok,
        final(c)@ == (RegistryView {
            metadata: old(c)@.metadata.insert(token_id, (Metadata {
                name,
                description,
                uri,
                achievement_type: category_or_standard(achievement_type),
            })),
            ..old(c)@
        }),
{
    let t = match achievement_type {
        Some(x) => x,
        None => AchievementType::Standard,
    };
    let m = Metadata { name, description, uri, achievement_type: t };
    storage::save_token_metadata(c, token_id, m);
    Ok(())
}

/// Looks up a record's metadata; an unoccupied identifier reports
/// `TokenDoesNotExist`.
pub fn get_metadata(c: &ReputationNFTContract, token_id: TokenId) -> (r: Result<Metadata, Error>)
    requires
        c.wf(),
    ensures
        match r {
            Ok(m) => c@.metadata.contains_key(token_id) && m == c@.metadata[token_id],
            Err(e) => e == Error::TokenDoesNotExist && !c@.metadata.contains_key(token_id),
        },
{
    storage::get_token_metadata(c, token_id)
}

} // verus!
