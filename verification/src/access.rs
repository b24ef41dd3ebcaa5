//! The authorization gate: who may create or destroy records, and who may
//! manage roles.
//!
//! Whether a call genuinely originates from the named principal is decided
//! by an outside authentication collaborator before these functions run;
//! here only the role rules are enforced.

use vstd::prelude::*;

use crate::model::can_mint;
use crate::model::initialized;
use crate::model::RegistryView;
use crate::storage;
use crate::storage::ReputationNFTContract;
use crate::types::Error;
use crate::types::Principal;

verus! {

/// Succeeds exactly when the caller may create or destroy records: the
/// administrator always may, even when absent from the minter roster;
/// otherwise the caller must be a registered minter.
pub fn check_minter(c: &ReputationNFTContract, caller: Principal) -> (r: Result<(), Error>)
    requires
        c.wf(),
        initialized(c@),
    ensures
        match r {
            Ok(u) => can_mint(c@, caller),
            Err(e) => e == Error::Unauthorized && !can_mint(c@, caller),
        },
{
    if storage::is_admin(c, caller) {
        Ok(())
    } else if storage::is_minter(c, caller) {
        Ok(())
    } else {
        Err(Error::Unauthorized)
    }
}

/// Registers a minter. Only the administrator may; registering a principal
/// twice is not an error and changes nothing.
pub fn add_minter(c: &mut ReputationNFTContract, caller: Principal, minter: Principal) -> (r: Result<(), Error>)
    requires
        old(c).wf(),
        initialized(old(c)@),
    ensures
        final(c).wf(),
        match r {
            Ok(u) => old(c)@.admin == Some(caller) && final(c)@ == (RegistryView {
                minters: old(c)@.minters.insert(minter),
                ..old(c)@
            }),
            Err(e) => e == Error::Unauthorized && old(c)@.admin != Some(caller)
                && final(c)@ == old(c)@,
        },
{
    if storage::is_admin(c, caller) {
        storage::add_minter(c, minter);
        Ok(())
    } else {
        Err(Error::Unauthorized)
    }
}

/// Deregisters a minter. Only the administrator may; removing an absent
/// principal is not an error and changes nothing.
pub fn remove_minter(c: &mut ReputationNFTContract, caller: Principal, minter: Principal) -> (r: Result<(), Error>)
    requires
        old(c).wf(),
        initialized(old(c)@),
    ensures
        final(c).wf(),
        match r {
            Ok(u) => old(c)@.admin == Some(caller) && final(c)@ == (RegistryView {
                minters: old(c)@.minters.remove(minter),
                ..old(c)@
            }),
            Err(e) => e == Error::Unauthorized && old(c)@.admin != Some(caller)
                && final(c)@ == old(c)@,
        },
{
    if storage::is_admin(c, caller) {
        storage::remove_minter(c, minter);
        Ok(())
    } else {
        Err(Error::Unauthorized)
    }
}

/// Replaces the administrator. Only the current administrator may.
pub fn transfer_admin(c: &mut ReputationNFTContract, caller: Principal, new_admin: Principal) -> (r: Result<(), Error>)
    requires
        old(c).wf(),
        initialized(old(c)@),
    ensures
        final(c).wf(),
        match r {
            Ok(u) => old(c)@.admin == Some(caller) && final(c)@ == (RegistryView {
                admin: Some(new_admin),
                ..old(c)@
            }),
            Err(e) => e == Error::Unauthorized && old(c)@.admin != Some(caller)
                && final(c)@ == old(c)@,
        },
{
    if storage::is_admin(c, caller) {
        storage::save_admin(c, new_admin);
        Ok(())
    } else {
        Err(Error::Unauthorized)
    }
}

} // verus!
