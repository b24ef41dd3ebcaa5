//! The registry state and its persistence layer: the tables behind every
//! component, each operation proved against the abstract [`RegistryView`].
//!
//! The durable key/value substrate of a deployment is a collaborator outside
//! this crate; here the state is held explicitly, so that every read and
//! write is a verified function over plain values.

use vstd::prelude::*;

use crate::alist::contains_u64;
use crate::alist::copy_ids;
use crate::alist::distinct_seq;
use crate::alist::find_key;
use crate::alist::has_key;
use crate::alist::keys_distinct;
use crate::alist::lemma_distinct_seq_push;
use crate::alist::lemma_distinct_seq_remove;
use crate::alist::lemma_keys_distinct_push;
use crate::alist::lemma_keys_distinct_remove;
use crate::alist::lemma_map_view_contains;
use crate::alist::lemma_map_view_finite;
use crate::alist::lemma_map_view_index;
use crate::alist::lemma_map_view_len_distinct;
use crate::alist::lemma_remove_key_gone;
use crate::alist::lemma_remove_key_map_view;
use crate::alist::lemma_seq_map_view_contains;
use crate::alist::lemma_seq_map_view_index;
use crate::alist::lemma_to_set_push;
use crate::alist::lemma_to_set_remove_distinct;
use crate::alist::lemma_upsert_map_view;
use crate::alist::lemma_upsert_seq_map_view;
use crate::alist::map_view;
use crate::alist::position_u64;
use crate::alist::remove_key;
use crate::alist::seq_map_view;
use crate::alist::seq_without;
use crate::alist::upsert;
use crate::model::empty_registry;
use crate::model::initialized;
use crate::model::lb_value;
use crate::model::rank_of;
use crate::model::recomputed;
use crate::model::records_of;
use crate::model::outranking;
use crate::model::stat_of;
use crate::model::RegistryView;
use crate::types::AchievementType;
use crate::types::Error;
use crate::types::Metadata;
use crate::types::Principal;
use crate::types::ReputationScore;
use crate::types::TokenId;

verus! {

/// The registry of achievement records: ownership, metadata, roles, indices,
/// statistics, leaderboard and reputation rows, held as explicit state.
///
/// Each table is an association vector with pairwise-distinct keys; the
/// abstract meaning of the whole state is given by [`View`], and
/// [`Self::wf`] is the representation invariant that every operation
/// preserves.
pub struct ReputationNFTContract {
    pub(crate) admin: Option<Principal>,
    pub(crate) minters: Vec<Principal>,
    pub(crate) last_id: u64,
    pub(crate) owners: Vec<(TokenId, Principal)>,
    pub(crate) metadata: Vec<(TokenId, Metadata)>,
    pub(crate) achievements: Vec<(Principal, Vec<TokenId>)>,
    pub(crate) stats: Vec<(AchievementType, u32)>,
    pub(crate) leaderboard: Vec<(Principal, u64)>,
    pub(crate) reputation: Vec<(Principal, ReputationScore)>,
}

impl View for ReputationNFTContract {
    type V = RegistryView;

    closed spec fn view(&self) -> RegistryView {
        RegistryView {
            admin: self.admin,
            minters: self.minters@.to_set(),
            last_id: self.last_id,
            owners: map_view(self.owners@),
            metadata: map_view(self.metadata@),
            achievements: seq_map_view(self.achievements@),
            stats: map_view(self.stats@),
            leaderboard: map_view(self.leaderboard@),
            reputation: map_view(self.reputation@),
        }
    }
}

impl ReputationNFTContract {
    /// Representation invariant: every table keeps its keys pairwise
    /// distinct, and the minter roster holds no duplicates.
    pub closed spec fn wf(&self) -> bool {
        &&& keys_distinct(self.owners@)
        &&& keys_distinct(self.metadata@)
        &&& keys_distinct(self.achievements@)
        &&& keys_distinct(self.stats@)
        &&& keys_distinct(self.leaderboard@)
        &&& keys_distinct(self.reputation@)
        &&& distinct_seq(self.minters@)
    }

    /// Creates an empty registry: no administrator, no minters, no records,
    /// and the identifier counter at zero.
    pub fn new() -> (c: ReputationNFTContract)
        ensures
            c.wf(),
            c@ == empty_registry(),
    {
        let c = ReputationNFTContract {
            admin: None,
            minters: Vec::new(),
            last_id: 0,
            owners: Vec::new(),
            metadata: Vec::new(),
            achievements: Vec::new(),
            stats: Vec::new(),
            leaderboard: Vec::new(),
            reputation: Vec::new(),
        };
        proof {
            assert(c.minters@.to_set() =~= Set::<Principal>::empty());
            assert(c@ =~= empty_registry());
        }
        c
    }
}

/// Writes the owner entry of a record, creating or overwriting it.
pub fn save_token_owner(c: &mut ReputationNFTContract, token_id: TokenId, owner: Principal)
    requires
        old(c).wf(),
    ensures
        final(c).wf(),
        final(c)@ == (RegistryView { owners: old(c)@.owners.insert(token_id, owner), ..old(c)@ }),
{
    let ghost pre = c.owners@;
    upsert(&mut c.owners, token_id, owner);
    proof {
        lemma_upsert_map_view(pre, c.owners@, token_id, owner);
        assert(c@ =~= (RegistryView {
            owners: old(c)@.owners.insert(token_id, owner),
            ..old(c)@
        }));
    }
}

/// Looks up the owner of a record; an unoccupied identifier reports
/// `TokenDoesNotExist`.
pub fn get_token_owner(c: &ReputationNFTContract, token_id: TokenId) -> (r: Result<Principal, Error>)
    requires
        c.wf(),
    ensures
        match r {
            Ok(p) => c@.owners.contains_key(token_id) && p == c@.owners[token_id],
            Err(e) => e == Error::TokenDoesNotExist && !c@.owners.contains_key(token_id),
        },
{
    match find_key(&c.owners, token_id) {
        Some(i) => {
            proof {
                lemma_map_view_index(c.owners@, i as int);
            }
            Ok(c.owners[i].1)
        }
        None => {
            proof {
                lemma_map_view_contains(c.owners@, token_id);
            }
            Err(Error::TokenDoesNotExist)
        }
    }
}

/// Whether a record with this identifier exists (that is, has an owner
/// entry).
pub fn token_exists(c: &ReputationNFTContract, token_id: TokenId) -> (r: bool)
    requires
        c.wf(),
    ensures
        r == c@.owners.contains_key(token_id),
{
    let found = find_key(&c.owners, token_id);
    proof {
        lemma_map_view_contains(c.owners@, token_id);
        if let Some(i) = found {
            assert(has_key(c.owners@, token_id));
        }
    }
    found.is_some()
}

/// Writes the metadata entry of a record, creating or overwriting it.
pub fn save_token_metadata(c: &mut ReputationNFTContract, token_id: TokenId, metadata: Metadata)
    requires
        old(c).wf(),
    ensures
        final(c).wf(),
        final(c)@ == (RegistryView {
            metadata: old(c)@.metadata.insert(token_id, metadata),
            ..old(c)@
        }),
{
    let ghost m = metadata;
    let ghost pre = c.metadata@;
    upsert(&mut c.metadata, token_id, metadata);
    proof {
        lemma_upsert_map_view(pre, c.metadata@, token_id, m);
        assert(c@ =~= (RegistryView {
            metadata: old(c)@.metadata.insert(token_id, m),
            ..old(c)@
        }));
    }
}

/// Looks up the metadata of a record; an unoccupied identifier reports
/// `TokenDoesNotExist`.
pub fn get_token_metadata(c: &ReputationNFTContract, token_id: TokenId) -> (r: Result<Metadata, Error>)
    requires
        c.wf(),
    ensures
        match r {
            Ok(m) => c@.metadata.contains_key(token_id) && m == c@.metadata[token_id],
            Err(e) => e == Error::TokenDoesNotExist && !c@.metadata.contains_key(token_id),
        },
{
    match find_key(&c.metadata, token_id) {
        Some(i) => {
            proof {
                lemma_map_view_index(c.metadata@, i as int);
            }
            Ok(c.metadata[i].1.duplicate())
        }
        None => {
            proof {
                lemma_map_view_contains(c.metadata@, token_id);
            }
            Err(Error::TokenDoesNotExist)
        }
    }
}

/// Removes both the owner and the metadata entry of a record,
/// unconditionally. Category statistics are deliberately left untouched.
pub fn burn_token(c: &mut ReputationNFTContract, token_id: TokenId)
    requires
        old(c).wf(),
    ensures
        final(c).wf(),
        final(c)@ == (RegistryView {
            owners: old(c)@.owners.remove(token_id),
            metadata: old(c)@.metadata.remove(token_id),
            ..old(c)@
        }),
{
    let ghost pre_owners = c.owners@;
    let ghost pre_metadata = c.metadata@;
    remove_key(&mut c.owners, token_id);
    remove_key(&mut c.metadata, token_id);
    proof {
        lemma_remove_key_map_view(pre_owners, c.owners@, token_id);
        lemma_remove_key_map_view(pre_metadata, c.metadata@, token_id);
        assert(c@ =~= (RegistryView {
            owners: old(c)@.owners.remove(token_id),
            metadata: old(c)@.metadata.remove(token_id),
            ..old(c)@
        }));
    }
}

/// Stores the administrator, overwriting any previous one.
pub fn save_admin(c: &mut ReputationNFTContract, admin: Principal)
    requires
        old(c).wf(),
    ensures
        final(c).wf(),
        final(c)@ == (RegistryView { admin: Some(admin), ..old(c)@ }),
{
    c.admin = Some(admin);
    proof {
        assert(c@ =~= (RegistryView { admin: Some(admin), ..old(c)@ }));
    }
}

/// Reads the administrator. The registry must have been initialized.
pub fn get_admin(c: &ReputationNFTContract) -> (r: Principal)
    requires
        initialized(c@),
    ensures
        c@.admin == Some(r),
{
    c.admin.unwrap()
}

/// Whether `address` is the administrator. The registry must have been
/// initialized.
pub fn is_admin(c: &ReputationNFTContract, address: Principal) -> (r: bool)
    requires
        initialized(c@),
    ensures
        r == (c@.admin == Some(address)),
{
    let admin = get_admin(c);
    admin == address
}

/// Registers a principal as a minter; registering one twice is not an error
/// and changes nothing.
pub fn add_minter(c: &mut ReputationNFTContract, minter: Principal)
    requires
        old(c).wf(),
    ensures
        final(c).wf(),
        final(c)@ == (RegistryView { minters: old(c)@.minters.insert(minter), ..old(c)@ }),
{
    let ghost pre = c.minters@;
    if !contains_u64(&c.minters, minter) {
        proof {
            lemma_distinct_seq_push(pre, minter);
            lemma_to_set_push(pre, minter);
        }
        c.minters.push(minter);
        proof {
            assert(c@ =~= (RegistryView {
                minters: old(c)@.minters.insert(minter),
                ..old(c)@
            }));
        }
    } else {
        proof {
            assert(old(c)@.minters.contains(minter));
            assert(old(c)@.minters.insert(minter) =~= old(c)@.minters);
            assert(c@ =~= (RegistryView {
                minters: old(c)@.minters.insert(minter),
                ..old(c)@
            }));
        }
    }
}

/// Deregisters a principal as a minter; removing an absent one is not an
/// error and changes nothing.
pub fn remove_minter(c: &mut ReputationNFTContract, minter: Principal)
    requires
        old(c).wf(),
    ensures
        final(c).wf(),
        final(c)@ == (RegistryView { minters: old(c)@.minters.remove(minter), ..old(c)@ }),
{
    let ghost pre = c.minters@;
    match position_u64(&c.minters, minter) {
        Some(i) => {
            proof {
                lemma_distinct_seq_remove(pre, i as int);
                lemma_to_set_remove_distinct(pre, i as int);
            }
            c.minters.remove(i);
            proof {
                assert(c@ =~= (RegistryView {
                    minters: old(c)@.minters.remove(minter),
                    ..old(c)@
                }));
            }
        }
        None => {
            proof {
                assert(!old(c)@.minters.contains(minter));
                assert(old(c)@.minters.remove(minter) =~= old(c)@.minters);
                assert(c@ =~= (RegistryView {
                    minters: old(c)@.minters.remove(minter),
                    ..old(c)@
                }));
            }
        }
    }
}

/// Whether a principal is registered as a minter. The administrator is not
/// implicitly a member of the roster.
pub fn is_minter(c: &ReputationNFTContract, address: Principal) -> (r: bool)
    ensures
        r == c@.minters.contains(address),
{
    contains_u64(&c.minters, address)
}

/// Draws the next record identifier from the counter: reads, increments,
/// persists and returns it. The first identifier handed out is 1; 0 is never
/// returned.
pub fn next_token_id(c: &mut ReputationNFTContract) -> (r: TokenId)
    requires
        old(c).wf(),
        old(c)@.last_id < u64::MAX,
    ensures
        final(c).wf(),
        r == old(c)@.last_id + 1,
        final(c)@ == (RegistryView { last_id: r, ..old(c)@ }),
{
    c.last_id = c.last_id + 1;
    proof {
        assert(c@ =~= (RegistryView { last_id: c.last_id, ..old(c)@ }));
    }
    c.last_id
}

/// Appends a record to a principal's index list, creating the list if the
/// principal was never indexed.
pub fn index_user_achievement(c: &mut ReputationNFTContract, user: Principal, token_id: TokenId)
    requires
        old(c).wf(),
    ensures
        final(c).wf(),
        final(c)@ == (RegistryView {
            achievements: old(c)@.achievements.insert(
                user,
                records_of(old(c)@, user).push(token_id),
            ),
            ..old(c)@
        }),
{
    let ghost pre = c.achievements@;
    match find_key(&c.achievements, user) {
        Some(i) => {
            let entry = c.achievements.remove(i);
            let key = entry.0;
            let mut list = entry.1;
            list.push(token_id);
            let ghost lv = list;
            proof {
                lemma_keys_distinct_remove(pre, i as int);
                lemma_remove_key_gone(pre, i as int);
                lemma_keys_distinct_push(pre.remove(i as int), key, lv);
                lemma_seq_map_view_index(pre, i as int);
            }
            c.achievements.push((key, list));
            proof {
                assert(pre[i as int].0 == user
                    && c.achievements@ == pre.remove(i as int).push((user, lv)));
                lemma_upsert_seq_map_view(pre, c.achievements@, user, lv);
                assert(c@ =~= (RegistryView {
                    achievements: old(c)@.achievements.insert(
                        user,
                        records_of(old(c)@, user).push(token_id),
                    ),
                    ..old(c)@
                }));
            }
        }
        None => {
            let mut list: Vec<TokenId> = Vec::new();
            list.push(token_id);
            let ghost lv = list;
            proof {
                lemma_seq_map_view_contains(pre, user);
                lemma_keys_distinct_push(pre, user, lv);
            }
            c.achievements.push((user, list));
            proof {
                lemma_upsert_seq_map_view(pre, c.achievements@, user, lv);
                assert(lv@ =~= records_of(old(c)@, user).push(token_id));
                assert(c@ =~= (RegistryView {
                    achievements: old(c)@.achievements.insert(
                        user,
                        records_of(old(c)@, user).push(token_id),
                    ),
                    ..old(c)@
                }));
            }
        }
    }
}

/// Rebuilds a principal's index list without any occurrence of the record.
/// A principal that was never indexed is left untouched.
pub fn remove_user_achievement_index(c: &mut ReputationNFTContract, user: Principal, token_id: TokenId)
    requires
        old(c).wf(),
    ensures
        final(c).wf(),
        old(c)@.achievements.contains_key(user) ==> final(c)@ == (RegistryView {
            achievements: old(c)@.achievements.insert(
                user,
                seq_without(records_of(old(c)@, user), token_id),
            ),
            ..old(c)@
        }),
        !old(c)@.achievements.contains_key(user) ==> final(c)@ == old(c)@,
{
    let ghost pre = c.achievements@;
    match find_key(&c.achievements, user) {
        Some(i) => {
            let entry = c.achievements.remove(i);
            let key = entry.0;
            let list = entry.1;
            let mut new_list: Vec<TokenId> = Vec::new();
            let mut j: usize = 0;
            while j < list.len()
                invariant
                    j <= list@.len(),
                    new_list@ == seq_without(list@.take(j as int), token_id),
                decreases list@.len() - j,
            {
                proof {
                    assert(list@.take(j as int + 1).drop_last() =~= list@.take(j as int));
                    assert(list@.take(j as int + 1).last() == list@[j as int]);
                }
                let v = list[j];
                if v != token_id {
                    new_list.push(v);
                }
                j = j + 1;
            }
            proof {
                assert(list@.take(list@.len() as int) =~= list@);
            }
            let ghost lv = new_list;
            proof {
                lemma_keys_distinct_remove(pre, i as int);
                lemma_remove_key_gone(pre, i as int);
                lemma_keys_distinct_push(pre.remove(i as int), key, lv);
                lemma_seq_map_view_index(pre, i as int);
                lemma_seq_map_view_contains(pre, user);
            }
            c.achievements.push((key, new_list));
            proof {
                assert(pre[i as int].0 == user
                    && c.achievements@ == pre.remove(i as int).push((user, lv)));
                lemma_upsert_seq_map_view(pre, c.achievements@, user, lv);
                assert(c@ =~= (RegistryView {
                    achievements: old(c)@.achievements.insert(
                        user,
                        seq_without(records_of(old(c)@, user), token_id),
                    ),
                    ..old(c)@
                }));
            }
        }
        None => {
            proof {
                lemma_seq_map_view_contains(pre, user);
                assert(c@ =~= old(c)@);
            }
        }
    }
}

/// Returns a principal's index list, or an empty one if the principal was
/// never indexed.
pub fn get_user_achievements(c: &ReputationNFTContract, user: Principal) -> (r: Vec<TokenId>)
    requires
        c.wf(),
    ensures
        r@ == records_of(c@, user),
{
    match find_key(&c.achievements, user) {
        Some(i) => {
            proof {
                lemma_seq_map_view_index(c.achievements@, i as int);
            }
            copy_ids(&c.achievements[i].1)
        }
        None => {
            proof {
                lemma_seq_map_view_contains(c.achievements@, user);
            }
            Vec::new()
        }
    }
}

/// Saves a principal's reputation row, fully overwriting the previous one.
pub fn save_reputation_score(c: &mut ReputationNFTContract, user: Principal, score: ReputationScore)
    requires
        old(c).wf(),
    ensures
        final(c).wf(),
        final(c)@ == (RegistryView {
            reputation: old(c)@.reputation.insert(user, score),
            ..old(c)@
        }),
{
    let ghost pre = c.reputation@;
    upsert(&mut c.reputation, user, score);
    proof {
        lemma_upsert_map_view(pre, c.reputation@, user, score);
        assert(c@ =~= (RegistryView {
            reputation: old(c)@.reputation.insert(user, score),
            ..old(c)@
        }));
    }
}

/// Finds the statistics entry of a category, if any.
fn find_stat(entries: &Vec<(AchievementType, u32)>, t: AchievementType) -> (r: Option<usize>)
    ensures
        match r {
            Some(i) => i < entries@.len() && entries@[i as int].0 == t,
            None => !has_key(entries@, t),
        },
{
    let mut i: usize = 0;
    while i < entries.len()
        invariant
            i <= entries@.len(),
            forall|j: int| 0 <= j < i ==> (#[trigger] entries@[j]).0 != t,
        decreases entries@.len() - i,
    {
        if entries[i].0 == t {
            return Some(i);
        }
        i = i + 1;
    }
    None
}

/// Bumps the issuance counter of a category by one. Counters are never
/// decremented, not even when a record is destroyed.
pub fn update_achievement_stats(c: &mut ReputationNFTContract, achievement_type: AchievementType)
    requires
        old(c).wf(),
        stat_of(old(c)@, achievement_type) < u32::MAX,
    ensures
        final(c).wf(),
        final(c)@ == (RegistryView {
            stats: old(c)@.stats.insert(
                achievement_type,
                ((stat_of(old(c)@, achievement_type) + 1) as u32),
            ),
            ..old(c)@
        }),
{
    let ghost pre = c.stats@;
    match find_stat(&c.stats, achievement_type) {
        Some(i) => {
            proof {
                lemma_map_view_index(pre, i as int);
                lemma_map_view_contains(pre, achievement_type);
            }
            let entry = c.stats.remove(i);
            let count = entry.1;
            proof {
                lemma_keys_distinct_remove(pre, i as int);
                lemma_remove_key_gone(pre, i as int);
                lemma_keys_distinct_push(pre.remove(i as int), achievement_type, (count + 1) as u32);
            }
            c.stats.push((achievement_type, count + 1));
            proof {
                assert(pre[i as int].0 == achievement_type
                    && c.stats@ == pre.remove(i as int).push((achievement_type, (count + 1) as u32)));
                lemma_upsert_map_view(pre, c.stats@, achievement_type, (count + 1) as u32);
                assert(c@ =~= (RegistryView {
                    stats: old(c)@.stats.insert(
                        achievement_type,
                        ((stat_of(old(c)@, achievement_type) + 1) as u32),
                    ),
                    ..old(c)@
                }));
            }
        }
        None => {
            proof {
                lemma_map_view_contains(pre, achievement_type);
                lemma_keys_distinct_push(pre, achievement_type, 1u32);
            }
            c.stats.push((achievement_type, 1));
            proof {
                lemma_upsert_map_view(pre, c.stats@, achievement_type, 1u32);
                assert(c@ =~= (RegistryView {
                    stats: old(c)@.stats.insert(
                        achievement_type,
                        ((stat_of(old(c)@, achievement_type) + 1) as u32),
                    ),
                    ..old(c)@
                }));
            }
        }
    }
}

/// Returns a snapshot of the issuance counters, one entry per category that
/// was ever issued.
pub fn get_achievement_stats(c: &ReputationNFTContract) -> (r: Vec<(AchievementType, u32)>)
    requires
        c.wf(),
    ensures
        keys_distinct(r@),
        map_view(r@) == c@.stats,
{
    let mut out: Vec<(AchievementType, u32)> = Vec::new();
    let mut i: usize = 0;
    while i < c.stats.len()
        invariant
            i <= c.stats@.len(),
            out@ == c.stats@.take(i as int),
        decreases c.stats@.len() - i,
    {
        proof {
            assert(c.stats@.take(i as int + 1) =~= c.stats@.take(i as int).push(c.stats@[i as int]));
        }
        let entry = c.stats[i];
        out.push(entry);
        i = i + 1;
    }
    proof {
        assert(c.stats@.take(c.stats@.len() as int) =~= c.stats@);
    }
    out
}

/// Recomputes a principal's leaderboard entry from the current length of its
/// index list. Nothing else refreshes the leaderboard.
pub fn update_leaderboard(c: &mut ReputationNFTContract, user: Principal)
    requires
        old(c).wf(),
    ensures
        final(c).wf(),
        final(c)@ == recomputed(old(c)@, user),
{
    let count: u64 = match find_key(&c.achievements, user) {
        Some(i) => {
            proof {
                lemma_seq_map_view_index(c.achievements@, i as int);
            }
            c.achievements[i].1.len() as u64
        }
        None => {
            proof {
                lemma_seq_map_view_contains(c.achievements@, user);
            }
            0
        }
    };
    let ghost pre = c.leaderboard@;
    upsert(&mut c.leaderboard, user, count);
    proof {
        lemma_upsert_map_view(pre, c.leaderboard@, user, count);
        assert(c@ =~= recomputed(old(c)@, user));
    }
}

/// Returns a snapshot of the leaderboard, one entry per principal whose
/// value was ever recomputed.
pub fn get_leaderboard(c: &ReputationNFTContract) -> (r: Vec<(Principal, u64)>)
    requires
        c.wf(),
    ensures
        keys_distinct(r@),
        map_view(r@) == c@.leaderboard,
{
    let mut out: Vec<(Principal, u64)> = Vec::new();
    let mut i: usize = 0;
    while i < c.leaderboard.len()
        invariant
            i <= c.leaderboard@.len(),
            out@ == c.leaderboard@.take(i as int),
        decreases c.leaderboard@.len() - i,
    {
        proof {
            assert(c.leaderboard@.take(i as int + 1)
                =~= c.leaderboard@.take(i as int).push(c.leaderboard@[i as int]));
        }
        let entry = c.leaderboard[i];
        out.push(entry);
        i = i + 1;
    }
    proof {
        assert(c.leaderboard@.take(c.leaderboard@.len() as int) =~= c.leaderboard@);
    }
    out
}

/// How many leaderboard entries strictly exceed the threshold, over a prefix
/// of the table.
spec fn count_above(s: Seq<(Principal, u64)>, threshold: u64) -> int
    decreases s.len(),
{
    if s.len() == 0 {
        0
    } else {
        count_above(s.drop_last(), threshold)
            + (if s.last().1 > threshold { 1int } else { 0int })
    }
}

/// Relates the entry count to the cardinality of the set of principals whose
/// value exceeds the threshold.
proof fn lemma_count_above_matches(s: Seq<(Principal, u64)>, threshold: u64)
    requires
        keys_distinct(s),
    ensures
        map_view(s).dom().filter(|q: Principal| map_view(s)[q] > threshold).finite(),
        count_above(s, threshold)
            == map_view(s).dom().filter(|q: Principal| map_view(s)[q] > threshold).len(),
    decreases s.len(),
{
    lemma_map_view_finite(s);
    if s.len() == 0 {
        assert(map_view(s).dom().filter(|q: Principal| map_view(s)[q] > threshold)
            =~= Set::<Principal>::empty());
    } else {
        let t = s.drop_last();
        assert(forall|a: int| 0 <= a < t.len() ==> (#[trigger] t[a]) == s[a]);
        assert(keys_distinct(t));
        lemma_count_above_matches(t, threshold);
        lemma_map_view_contains(t, s.last().0);
        assert(!has_key(t, s.last().0)) by {
            if has_key(t, s.last().0) {
                let a = choose|a: int| 0 <= a < t.len() && (#[trigger] t[a]).0 == s.last().0;
                assert(s[a].0 == s[s.len() - 1].0);
            }
        }
        let big = map_view(s).dom().filter(|q: Principal| map_view(s)[q] > threshold);
        let small = map_view(t).dom().filter(|q: Principal| map_view(t)[q] > threshold);
        if s.last().1 > threshold {
            assert(big =~= small.insert(s.last().0));
            assert(!small.contains(s.last().0));
        } else {
            assert(big =~= small);
        }
    }
}

/// One-based rank of a principal: one more than the number of principals
/// whose leaderboard value strictly exceeds the principal's own; a principal
/// absent from the leaderboard counts as having value zero. Ties share a
/// rank.
pub fn get_user_rank(c: &ReputationNFTContract, user: Principal) -> (r: u64)
    requires
        c.wf(),
        c@.leaderboard.dom().len() < u64::MAX,
    ensures
        r as int == rank_of(c@, user),
{
    let user_score: u64 = match find_key(&c.leaderboard, user) {
        Some(i) => {
            proof {
                lemma_map_view_index(c.leaderboard@, i as int);
            }
            c.leaderboard[i].1
        }
        None => {
            proof {
                lemma_map_view_contains(c.leaderboard@, user);
            }
            0
        }
    };
    proof {
        assert(user_score == lb_value(c@, user));
        lemma_map_view_len_distinct(c.leaderboard@);
    }
    let mut above: usize = 0;
    let mut i: usize = 0;
    while i < c.leaderboard.len()
        invariant
            i <= c.leaderboard@.len(),
            above <= i,
            above as int == count_above(c.leaderboard@.take(i as int), user_score),
        decreases c.leaderboard@.len() - i,
    {
        proof {
            assert(c.leaderboard@.take(i as int + 1).drop_last() =~= c.leaderboard@.take(i as int));
            assert(c.leaderboard@.take(i as int + 1).last() == c.leaderboard@[i as int]);
        }
        let entry = c.leaderboard[i];
        if entry.1 > user_score {
            above = above + 1;
        }
        i = i + 1;
    }
    proof {
        assert(c.leaderboard@.take(c.leaderboard@.len() as int) =~= c.leaderboard@);
        lemma_count_above_matches(c.leaderboard@, user_score);
        assert(map_view(c.leaderboard@).dom().filter(
            |q: Principal| map_view(c.leaderboard@)[q] > user_score,
        ) =~= outranking(c@, user));
    }
    (above as u64) + 1
}

} // verus!
