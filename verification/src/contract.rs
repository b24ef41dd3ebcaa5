//! The caller-facing operations of the registry. Each one consults the
//! authorization gate, mutates the ownership and metadata store, keeps the
//! per-owner index, the category statistics and the leaderboard in step,
//! and reports exactly one error kind per rejected input.

use vstd::prelude::*;

use vstd::pervasive::arbitrary;

use crate::access;
use crate::metadata;
use crate::model::auto_issue_post;
use crate::model::batch_issue_post;
use crate::model::burn_post;
use crate::model::can_mint;
use crate::model::hits_ten_excellent;
use crate::model::hits_top_rated;
use crate::model::hits_veteran;
use crate::model::initialized;
use crate::model::issue_post;
use crate::model::is_milestone_meta;
use crate::model::milestones_hit;
use crate::model::milestones_post;
use crate::model::named_achievement_meta;
use crate::model::rank_of;
use crate::model::rating_achievement_meta;
use crate::model::records_of;
use crate::model::scored;
use crate::model::score_update_post;
use crate::model::stat_of;
use crate::model::ten_excellent_meta;
use crate::model::top_rated_meta;
use crate::model::transfer_post;
use crate::model::veteran_meta;
use crate::model::RegistryView;
use crate::storage;
use crate::storage::ReputationNFTContract;
use crate::types::AchievementType;
use crate::types::Error;
use crate::types::Metadata;
use crate::types::Principal;
use crate::types::ReputationScore;
use crate::types::TokenId;

verus! {

impl ReputationNFTContract {
    /// Sets the administrator. There is deliberately no guard against
    /// re-initialization: a repeated call overwrites the administrator.
    pub fn init(&mut self, admin: Principal) -> (r: Result<(), Error>)
        requires
            old(self).wf(),
        ensures
            final(self).wf(),
            r is Ok,
            final(self)@ == (RegistryView { admin: Some(admin), ..old(self)@ }),
    {
        storage::save_admin(self, admin);
        Ok(())
    }

    /// Issues a record under a caller-chosen identifier, category
    /// `Standard`. The caller must pass the minter gate; an occupied
    /// identifier is rejected with `TokenAlreadyExists` and nothing is
    /// written. The leaderboard is deliberately not refreshed here.
    pub fn mint(
        &mut self,
        caller: Principal,
        to: Principal,
        token_id: TokenId,
        name: String,
        description: String,
        uri: String,
    ) -> (r: Result<(), Error>)
        requires
            old(self).wf(),
            initialized(old(self)@),
            can_mint(old(self)@, caller) && !old(self)@.owners.contains_key(token_id)
                ==> stat_of(old(self)@, AchievementType::Standard) < u32::MAX,
        ensures
            final(self).wf(),
            match r {
                Ok(u) => can_mint(old(self)@, caller)
                    && !old(self)@.owners.contains_key(token_id)
                    && final(self)@ == issue_post(old(self)@, token_id, to, (Metadata {
                        name,
                        description,
                        uri,
                        achievement_type: AchievementType::Standard,
                    })),
                Err(e) => final(self)@ == old(self)@ && ((e == Error::Unauthorized
                    && !can_mint(old(self)@, caller)) || (e == Error::TokenAlreadyExists
                    && can_mint(old(self)@, caller)
                    && old(self)@.owners.contains_key(token_id))),
            },
    {
        match access::check_minter(self, caller) {
            Ok(u) => {}
            Err(e) => {
                return Err(e);
            }
        }
        if storage::token_exists(self, token_id) {
            return Err(Error::TokenAlreadyExists);
        }
        storage::save_token_owner(self, token_id, to);
        let ghost m = Metadata {
            name,
            description,
            uri,
            achievement_type: AchievementType::Standard,
        };
        match metadata::store_metadata(
            self,
            token_id,
            name,
            description,
            uri,
            Some(AchievementType::Standard),
        ) {
            Ok(u) => {}
            Err(e) => {
                return Err(e);
            }
        }
        storage::index_user_achievement(self, to, token_id);
        storage::update_achievement_stats(self, AchievementType::Standard);
        proof {
            assert(self@ =~= issue_post(old(self)@, token_id, to, m));
        }
        Ok(())
    }

    /// Issues a named achievement under the next identifier from the
    /// counter, category `ProjectMilestone`. The type tag picks the stored
    /// name, description and URI; an unknown tag falls back to a generic
    /// description rather than failing.
    pub fn mint_achv(&mut self, caller: Principal, to: Principal, nft_type: String) -> (r: Result<
        (),
        Error,
    >)
        requires
            old(self).wf(),
            initialized(old(self)@),
            can_mint(old(self)@, caller) ==> old(self)@.last_id < u64::MAX && stat_of(old(self)@, AchievementType::ProjectMilestone) < u32::MAX,
        ensures
            final(self).wf(),
            match r {
                Ok(u) => can_mint(old(self)@, caller) && {
                    let id = ((old(self)@.last_id + 1) as u64);
                    &&& final(self)@.metadata.contains_key(id)
                    &&& named_achievement_meta(nft_type@, final(self)@.metadata[id])
                    &&& final(self)@ == auto_issue_post(old(self)@, to, final(self)@.metadata[id])
                },
                Err(e) => e == Error::Unauthorized && !can_mint(old(self)@, caller) && final(self)@ == old(self)@,
            },
    {
        match access::check_minter(self, caller) {
            Ok(u) => {}
            Err(e) => {
                return Err(e);
            }
        }
        let token_id = storage::next_token_id(self);
        let (name, description, uri) = if nft_type == String::from_str("tencontr") {
            (
                String::from_str("10 Completed Contracts"),
                String::from_str("Awarded for completing 10 contracts successfully."),
                String::from_str("ipfs://10-completed-contracts"),
            )
        } else if nft_type == String::from_str("5stars5x") {
            (
                String::from_str("5 Stars 5 Times"),
                String::from_str("Awarded for receiving five 5-star reviews."),
                String::from_str("ipfs://5-stars-5-times"),
            )
        } else if nft_type == String::from_str("toprated") {
            (
                String::from_str("Top Rated Freelancer"),
                String::from_str("Awarded for being a top-rated freelancer."),
                String::from_str("ipfs://top-rated-freelancer"),
            )
        } else {
            (
                String::from_str("Achievement NFT"),
                String::from_str("Awarded for a special achievement."),
                String::from_str("ipfs://achievement-generic"),
            )
        };
        storage::save_token_owner(self, token_id, to);
        let ghost m = Metadata {
            name,
            description,
            uri,
            achievement_type: AchievementType::ProjectMilestone,
        };
        match metadata::store_metadata(
            self,
            token_id,
            name,
            description,
            uri,
            Some(AchievementType::ProjectMilestone),
        ) {
            Ok(u) => {}
            Err(e) => {
                return Err(e);
            }
        }
        storage::index_user_achievement(self, to, token_id);
        storage::update_achievement_stats(self, AchievementType::ProjectMilestone);
        proof {
            assert(self@ =~= auto_issue_post(old(self)@, to, m));
            assert(self@.metadata[token_id] == m);
        }
        Ok(())
    }

    /// Transfers a record to a new owner. The initiator must be the current
    /// owner — a mismatch is reported as `Unauthorized` whether or not the
    /// record was ever theirs — and the record's category must permit
    /// transfers. On success both principals' index lists and leaderboard
    /// entries are brought up to date.
    pub fn transfer(&mut self, from: Principal, to: Principal, token_id: TokenId) -> (r: Result<
        (),
        Error,
    >)
        requires
            old(self).wf(),
        ensures
            final(self).wf(),
            match r {
                Ok(u) => old(self)@.owners.contains_key(token_id)
                    && old(self)@.owners[token_id] == from
                    && old(self)@.metadata.contains_key(token_id)
                    && old(self)@.metadata[token_id].achievement_type.spec_is_transferable()
                    && final(self)@ == transfer_post(old(self)@, from, to, token_id),
                Err(e) => final(self)@ == old(self)@ && ((e == Error::TokenDoesNotExist && (!old(self)@.owners.contains_key(token_id) || (old(self)@.owners[token_id] == from && !old(self)@.metadata.contains_key(token_id)))) || (e == Error::Unauthorized && old(self)@.owners.contains_key(token_id) && old(self)@.owners[token_id] != from) || (e
                    == Error::NonTransferableToken && old(self)@.owners.contains_key(token_id)
                    && old(self)@.owners[token_id] == from && old(self)@.metadata.contains_key(token_id) && !old(self)@.metadata[token_id].achievement_type.spec_is_transferable())),
            },
    {
        let owner = match storage::get_token_owner(self, token_id) {
            Ok(o) => o,
            Err(e) => {
                return Err(e);
            }
        };
        if owner != from {
            return Err(Error::Unauthorized);
        }
        // whether the call genuinely comes from the owner is confirmed by
        // the outside authentication collaborator
        let md = match storage::get_token_metadata(self, token_id) {
            Ok(m) => m,
            Err(e) => {
                return Err(e);
            }
        };
        if !md.achievement_type.is_transferable() {
            return Err(Error::NonTransferableToken);
        }
        storage::save_token_owner(self, token_id, to);
        storage::remove_user_achievement_index(self, from, token_id);
        storage::index_user_achievement(self, to, token_id);
        storage::update_leaderboard(self, from);
        storage::update_leaderboard(self, to);
        proof {
            assert(self@ =~= transfer_post(old(self)@, from, to, token_id));
        }
        Ok(())
    }

    /// Looks up the owner of a record.
    pub fn get_owner(&self, token_id: TokenId) -> (r: Result<Principal, Error>)
        requires
            self.wf(),
        ensures
            match r {
                Ok(p) => self@.owners.contains_key(token_id) && p == self@.owners[token_id],
                Err(e) => e == Error::TokenDoesNotExist && !self@.owners.contains_key(token_id),
            },
    {
        storage::get_token_owner(self, token_id)
    }

    /// Looks up the metadata of a record.
    pub fn get_metadata(&self, token_id: TokenId) -> (r: Result<Metadata, Error>)
        requires
            self.wf(),
        ensures
            match r {
                Ok(m) => self@.metadata.contains_key(token_id) && m == self@.metadata[token_id],
                Err(e) => e == Error::TokenDoesNotExist && !self@.metadata.contains_key(token_id),
            },
    {
        metadata::get_metadata(self, token_id)
    }

    /// Registers a minter; administrator only, idempotent.
    pub fn add_minter(&mut self, caller: Principal, minter: Principal) -> (r: Result<(), Error>)
        requires
            old(self).wf(),
            initialized(old(self)@),
        ensures
            final(self).wf(),
            match r {
                Ok(u) => old(self)@.admin == Some(caller) && final(self)@ == (RegistryView {
                    minters: old(self)@.minters.insert(minter),
                    ..old(self)@
                }),
                Err(e) => e == Error::Unauthorized && old(self)@.admin != Some(caller) && final(self)@ == old(self)@,
            },
    {
        access::add_minter(self, caller, minter)
    }

    /// Deregisters a minter; administrator only, idempotent.
    pub fn remove_minter(&mut self, caller: Principal, minter: Principal) -> (r: Result<(), Error>)
        requires
            old(self).wf(),
            initialized(old(self)@),
        ensures
            final(self).wf(),
            match r {
                Ok(u) => old(self)@.admin == Some(caller) && final(self)@ == (RegistryView {
                    minters: old(self)@.minters.remove(minter),
                    ..old(self)@
                }),
                Err(e) => e == Error::Unauthorized && old(self)@.admin != Some(caller) && final(self)@ == old(self)@,
            },
    {
        access::remove_minter(self, caller, minter)
    }

    /// Whether a principal is registered as a minter. The administrator is
    /// not implicitly one.
    pub fn is_minter(&self, address: Principal) -> (r: Result<bool, Error>)
        ensures
            r == Ok::<bool, Error>(self@.minters.contains(address)),
    {
        Ok(storage::is_minter(self, address))
    }

    /// Reads the administrator; the registry must have been initialized.
    pub fn get_admin(&self) -> (r: Result<Principal, Error>)
        requires
            initialized(self@),
        ensures
            r matches Ok(a) && self@.admin == Some(a),
    {
        Ok(storage::get_admin(self))
    }

    /// Replaces the administrator; the current administrator only.
    pub fn transfer_admin(&mut self, caller: Principal, new_admin: Principal) -> (r: Result<
        (),
        Error,
    >)
        requires
            old(self).wf(),
            initialized(old(self)@),
        ensures
            final(self).wf(),
            match r {
                Ok(u) => old(self)@.admin == Some(caller) && final(self)@ == (RegistryView {
                    admin: Some(new_admin),
                    ..old(self)@
                }),
                Err(e) => e == Error::Unauthorized && old(self)@.admin != Some(caller) && final(self)@ == old(self)@,
            },
    {
        access::transfer_admin(self, caller, new_admin)
    }

    /// Issues a rating achievement under the next identifier from the
    /// counter, category `RatingMilestone`. The type tag picks the stored
    /// name, description and URI; an unknown tag falls back to a generic
    /// description rather than failing. The extra rating payload is
    /// accepted for interface compatibility and not inspected.
    pub fn mint_rating_achievement(
        &mut self,
        caller: Principal,
        to: Principal,
        achievement_type: String,
        _rating_data: String,
    ) -> (r: Result<(), Error>)
        requires
            old(self).wf(),
            initialized(old(self)@),
            can_mint(old(self)@, caller) ==> old(self)@.last_id < u64::MAX && stat_of(old(self)@, AchievementType::RatingMilestone) < u32::MAX,
        ensures
            final(self).wf(),
            match r {
                Ok(u) => can_mint(old(self)@, caller) && {
                    let id = ((old(self)@.last_id + 1) as u64);
                    &&& final(self)@.metadata.contains_key(id)
                    &&& rating_achievement_meta(achievement_type@, final(self)@.metadata[id])
                    &&& final(self)@ == auto_issue_post(old(self)@, to, final(self)@.metadata[id])
                },
                Err(e) => e == Error::Unauthorized && !can_mint(old(self)@, caller) && final(self)@ == old(self)@,
            },
    {
        match access::check_minter(self, caller) {
            Ok(u) => {}
            Err(e) => {
                return Err(e);
            }
        }
        let token_id = storage::next_token_id(self);
        let (name, description, uri) = if achievement_type == String::from_str("first_five_star") {
            (
                String::from_str("First Five Star Rating"),
                String::from_str("Awarded for receiving first 5-star rating"),
                String::from_str("ipfs://first-five-star"),
            )
        } else if achievement_type == String::from_str("ten_ratings") {
            (
                String::from_str("Ten Ratings Milestone"),
                String::from_str("Awarded for receiving 10 ratings"),
                String::from_str("ipfs://ten-ratings"),
            )
        } else if achievement_type == String::from_str("top_rated_professional") {
            (
                String::from_str("Top Rated Professional"),
                String::from_str("Awarded for maintaining excellent ratings"),
                String::from_str("ipfs://top-rated-pro"),
            )
        } else if achievement_type == String::from_str("rating_consistency") {
            (
                String::from_str("Consistency Master"),
                String::from_str("Awarded for consistent high-quality ratings"),
                String::from_str("ipfs://consistency-master"),
            )
        } else {
            (
                String::from_str("Rating Achievement"),
                String::from_str("Special rating-based achievement"),
                String::from_str("ipfs://rating-achievement"),
            )
        };
        storage::save_token_owner(self, token_id, to);
        let ghost m = Metadata {
            name,
            description,
            uri,
            achievement_type: AchievementType::RatingMilestone,
        };
        match metadata::store_metadata(
            self,
            token_id,
            name,
            description,
            uri,
            Some(AchievementType::RatingMilestone),
        ) {
            Ok(u) => {}
            Err(e) => {
                return Err(e);
            }
        }
        storage::index_user_achievement(self, to, token_id);
        storage::update_achievement_stats(self, AchievementType::RatingMilestone);
        proof {
            assert(self@ =~= auto_issue_post(old(self)@, to, m));
            assert(self@.metadata[token_id] == m);
        }
        Ok(())
    }

    /// Destroys a record: the caller must pass the minter gate; the record
    /// is removed from its owner's index and both its entries are removed
    /// as a pair. A destroyed identifier is never handed out again by the
    /// counter, so the record cannot be resurrected through auto-issuance.
    pub fn burn(&mut self, caller: Principal, token_id: TokenId) -> (r: Result<(), Error>)
        requires
            old(self).wf(),
            initialized(old(self)@),
        ensures
            final(self).wf(),
            match r {
                Ok(u) => can_mint(old(self)@, caller) && old(self)@.owners.contains_key(token_id)
                    && final(self)@ == burn_post(old(self)@, token_id),
                Err(e) => final(self)@ == old(self)@ && ((e == Error::Unauthorized && !can_mint(
                    old(self)@,
                    caller,
                )) || (e == Error::TokenDoesNotExist && can_mint(old(self)@, caller) && !old(self)@.owners.contains_key(token_id))),
            },
    {
        match access::check_minter(self, caller) {
            Ok(u) => {}
            Err(e) => {
                return Err(e);
            }
        }
        let owner = match storage::get_token_owner(self, token_id) {
            Ok(o) => o,
            Err(e) => {
                return Err(e);
            }
        };
        storage::remove_user_achievement_index(self, owner, token_id);
        storage::burn_token(self, token_id);
        proof {
            assert(self@ =~= burn_post(old(self)@, token_id));
        }
        Ok(())
    }

    /// Issues one `Standard` record per entry, each under the next
    /// identifier from the counter, strictly in order. A length mismatch
    /// among the inputs is rejected up front as `Unauthorized`, before
    /// anything is written.
    pub fn batch_mint(
        &mut self,
        caller: Principal,
        tos: Vec<Principal>,
        names: Vec<String>,
        descriptions: Vec<String>,
        uris: Vec<String>,
    ) -> (r: Result<(), Error>)
        requires
            old(self).wf(),
            initialized(old(self)@),
            can_mint(old(self)@, caller) && names@.len() == tos@.len() && descriptions@.len()
                == tos@.len() && uris@.len() == tos@.len() ==> old(self)@.last_id + tos@.len()
                <= u64::MAX && stat_of(old(self)@, AchievementType::Standard) + tos@.len()
                <= u32::MAX,
        ensures
            final(self).wf(),
            match r {
                Ok(u) => can_mint(old(self)@, caller) && names@.len() == tos@.len()
                    && descriptions@.len() == tos@.len() && uris@.len() == tos@.len()
                    && final(self)@ == batch_issue_post(old(self)@, tos@, names@, descriptions@, uris@),
                Err(e) => e == Error::Unauthorized && final(self)@ == old(self)@ && !(can_mint(
                    old(self)@,
                    caller,
                ) && names@.len() == tos@.len() && descriptions@.len() == tos@.len()
                    && uris@.len() == tos@.len()),
            },
    {
        match access::check_minter(self, caller) {
            Ok(u) => {}
            Err(e) => {
                return Err(e);
            }
        }
        let len = tos.len();
        if names.len() != len || descriptions.len() != len || uris.len() != len {
            return Err(Error::Unauthorized);
        }
        let mut i: usize = 0;
        while i < len
            invariant
                self.wf(),
                i <= tos@.len(),
                len == tos@.len(),
                names@.len() == tos@.len(),
                descriptions@.len() == tos@.len(),
                uris@.len() == tos@.len(),
                old(self)@.last_id + tos@.len() <= u64::MAX,
                stat_of(old(self)@, AchievementType::Standard) + tos@.len() <= u32::MAX,
                self@.last_id == old(self)@.last_id + i,
                stat_of(self@, AchievementType::Standard) == stat_of(
                    old(self)@,
                    AchievementType::Standard,
                ) + i,
                self@ == batch_issue_post(
                    old(self)@,
                    tos@.take(i as int),
                    names@.take(i as int),
                    descriptions@.take(i as int),
                    uris@.take(i as int),
                ),
            decreases tos@.len() - i,
        {
            let to = tos[i];
            let name = names[i].clone();
            let description = descriptions[i].clone();
            let uri = uris[i].clone();
            let token_id = storage::next_token_id(self);
            storage::save_token_owner(self, token_id, to);
            let ghost m = Metadata {
                name,
                description,
                uri,
                achievement_type: AchievementType::Standard,
            };
            match metadata::store_metadata(
                self,
                token_id,
                name,
                description,
                uri,
                Some(AchievementType::Standard),
            ) {
                Ok(u) => {}
                Err(e) => {
                    return Err(e);
                }
            }
            storage::index_user_achievement(self, to, token_id);
            storage::update_achievement_stats(self, AchievementType::Standard);
            proof {
                assert(tos@.take(i as int + 1).take(i as int) =~= tos@.take(i as int));
                assert(names@.take(i as int + 1).take(i as int) =~= names@.take(i as int));
                assert(descriptions@.take(i as int + 1).take(i as int) =~= descriptions@.take(
                    i as int,
                ));
                assert(uris@.take(i as int + 1).take(i as int) =~= uris@.take(i as int));
                assert(self@ =~= batch_issue_post(
                    old(self)@,
                    tos@.take(i as int + 1),
                    names@.take(i as int + 1),
                    descriptions@.take(i as int + 1),
                    uris@.take(i as int + 1),
                ));
            }
            i = i + 1;
        }
        proof {
            assert(tos@.take(tos@.len() as int) =~= tos@);
            assert(names@.take(names@.len() as int) =~= names@);
            assert(descriptions@.take(descriptions@.len() as int) =~= descriptions@);
            assert(uris@.take(uris@.len() as int) =~= uris@);
        }
        Ok(())
    }

    /// Overwrites the subject's reputation row with the new average, count
    /// and timestamp, auto-issues one `RatingMilestone` record per
    /// threshold rule the new values satisfy — the rules are independent
    /// and re-fire on every call that satisfies them — and recomputes the
    /// subject's leaderboard entry. `now` is the timestamp supplied by the
    /// clock collaborator.
    pub fn update_reputation_score(
        &mut self,
        caller: Principal,
        user: Principal,
        rating_average: u32,
        total_ratings: u32,
        now: u64,
    ) -> (r: Result<(), Error>)
        requires
            old(self).wf(),
            initialized(old(self)@),
            can_mint(old(self)@, caller) ==> old(self)@.last_id + milestones_hit(
                rating_average,
                total_ratings,
            ) <= u64::MAX && stat_of(old(self)@, AchievementType::RatingMilestone)
                + milestones_hit(rating_average, total_ratings) <= u32::MAX,
        ensures
            final(self).wf(),
            match r {
                Ok(u) => can_mint(old(self)@, caller) && (exists|m1: Metadata, m2: Metadata, m3: Metadata|
                    {
                        &&& final(self)@ == #[trigger] score_update_post(
                            old(self)@,
                            user,
                            rating_average,
                            total_ratings,
                            now,
                            m1,
                            m2,
                            m3,
                        )
                        &&& (hits_ten_excellent(rating_average, total_ratings)
                            ==> ten_excellent_meta(m1))
                        &&& (hits_top_rated(rating_average, total_ratings) ==> top_rated_meta(m2))
                        &&& (hits_veteran(rating_average, total_ratings) ==> veteran_meta(m3))
                    }),
                Err(e) => e == Error::Unauthorized && !can_mint(old(self)@, caller) && final(self)@ == old(self)@,
            },
    {
        match access::check_minter(self, caller) {
            Ok(u) => {}
            Err(e) => {
                return Err(e);
            }
        }
        self.store_reputation_score(user, rating_average, total_ratings, now);
        match self.check_rating_achievements(user, rating_average, total_ratings) {
            Ok(u) => {}
            Err(e) => {
                return Err(e);
            }
        }
        let ghost mid = self@;
        storage::update_leaderboard(self, user);
        proof {
            let (gm1, gm2, gm3) = choose|m1: Metadata, m2: Metadata, m3: Metadata|
                {
                    &&& #[trigger] milestones_post(
                        scored(old(self)@, user, rating_average, total_ratings, now),
                        user,
                        rating_average,
                        total_ratings,
                        m1,
                        m2,
                        m3,
                    ) == mid
                    &&& (hits_ten_excellent(rating_average, total_ratings)
                        ==> ten_excellent_meta(m1))
                    &&& (hits_top_rated(rating_average, total_ratings) ==> top_rated_meta(m2))
                    &&& (hits_veteran(rating_average, total_ratings) ==> veteran_meta(m3))
                };
            assert(self@ == score_update_post(
                old(self)@,
                user,
                rating_average,
                total_ratings,
                now,
                gm1,
                gm2,
                gm3,
            ));
        }
        Ok(())
    }

    /// Writes the subject's reputation row.
    fn store_reputation_score(
        &mut self,
        user: Principal,
        rating_average: u32,
        total_ratings: u32,
        now: u64,
    )
        requires
            old(self).wf(),
        ensures
            final(self).wf(),
            final(self)@ == scored(old(self)@, user, rating_average, total_ratings, now),
    {
        storage::save_reputation_score(
            self,
            user,
            ReputationScore { rating_average, total_ratings, last_update_time: now },
        );
    }

    /// Evaluates the three threshold rules against the new values and
    /// issues one milestone per rule that fires, in rule order, each under
    /// a fresh identifier.
    fn check_rating_achievements(
        &mut self,
        user: Principal,
        rating_average: u32,
        total_ratings: u32,
    ) -> (r: Result<(), Error>)
        requires
            old(self).wf(),
            old(self)@.last_id + milestones_hit(rating_average, total_ratings) <= u64::MAX,
            stat_of(old(self)@, AchievementType::RatingMilestone) + milestones_hit(
                rating_average,
                total_ratings,
            ) <= u32::MAX,
        ensures
            final(self).wf(),
            r is Ok,
            exists|m1: Metadata, m2: Metadata, m3: Metadata|
                {
                    &&& #[trigger] milestones_post(
                        old(self)@,
                        user,
                        rating_average,
                        total_ratings,
                        m1,
                        m2,
                        m3,
                    ) == final(self)@
                    &&& (hits_ten_excellent(rating_average, total_ratings)
                        ==> ten_excellent_meta(m1))
                    &&& (hits_top_rated(rating_average, total_ratings) ==> top_rated_meta(m2))
                    &&& (hits_veteran(rating_average, total_ratings) ==> veteran_meta(m3))
                },
    {
        let ghost mut gm1: Metadata = arbitrary();
        let ghost mut gm2: Metadata = arbitrary();
        let ghost mut gm3: Metadata = arbitrary();
        if total_ratings == 10 && rating_average >= 400 {
            let token_id = storage::next_token_id(self);
            match self.mint_milestone_nft(
                user,
                token_id,
                "Excellence Milestone",
                "Awarded for 10+ excellent ratings",
                "ipfs://excellence-milestone",
            ) {
                Ok(u) => {}
                Err(e) => {
                    return Err(e);
                }
            }
            proof {
                gm1 = self@.metadata[token_id];
            }
        }
        let ghost s1 = self@;
        if rating_average >= 480 && total_ratings >= 20 {
            let token_id = storage::next_token_id(self);
            match self.mint_milestone_nft(
                user,
                token_id,
                "Top Rated Professional",
                "Awarded for exceptional rating performance",
                "ipfs://top-rated-professional",
            ) {
                Ok(u) => {}
                Err(e) => {
                    return Err(e);
                }
            }
            proof {
                gm2 = self@.metadata[token_id];
            }
        }
        let ghost s2 = self@;
        if total_ratings >= 50 && rating_average >= 450 {
            let token_id = storage::next_token_id(self);
            match self.mint_milestone_nft(
                user,
                token_id,
                "Veteran Professional",
                "Awarded for long-term excellent performance",
                "ipfs://veteran-professional",
            ) {
                Ok(u) => {}
                Err(e) => {
                    return Err(e);
                }
            }
            proof {
                gm3 = self@.metadata[token_id];
            }
        }
        proof {
            assert(milestones_post(
                old(self)@,
                user,
                rating_average,
                total_ratings,
                gm1,
                gm2,
                gm3,
            ) == self@);
        }
        Ok(())
    }

    /// Issues one milestone record: owner and metadata written as a pair
    /// under the given identifier, the record indexed for its owner and the
    /// `RatingMilestone` counter bumped.
    fn mint_milestone_nft(
        &mut self,
        user: Principal,
        token_id: TokenId,
        name: &str,
        description: &str,
        uri: &str,
    ) -> (r: Result<(), Error>)
        requires
            old(self).wf(),
            stat_of(old(self)@, AchievementType::RatingMilestone) < u32::MAX,
        ensures
            final(self).wf(),
            r is Ok,
            final(self)@.metadata.contains_key(token_id),
            is_milestone_meta(
                final(self)@.metadata[token_id],
                name@,
                description@,
                uri@,
                AchievementType::RatingMilestone,
            ),
            final(self)@ == issue_post(
                old(self)@,
                token_id,
                user,
                final(self)@.metadata[token_id],
            ),
    {
        storage::save_token_owner(self, token_id, user);
        let stored_name = String::from_str(name);
        let stored_description = String::from_str(description);
        let stored_uri = String::from_str(uri);
        let ghost m = Metadata {
            name: stored_name,
            description: stored_description,
            uri: stored_uri,
            achievement_type: AchievementType::RatingMilestone,
        };
        match metadata::store_metadata(
            self,
            token_id,
            stored_name,
            stored_description,
            stored_uri,
            Some(AchievementType::RatingMilestone),
        ) {
            Ok(u) => {}
            Err(e) => {
                return Err(e);
            }
        }
        storage::index_user_achievement(self, user, token_id);
        storage::update_achievement_stats(self, AchievementType::RatingMilestone);
        proof {
            assert(self@ =~= issue_post(old(self)@, token_id, user, m));
            assert(self@.metadata[token_id] == m);
        }
        Ok(())
    }

    /// Returns the records currently attributed to a principal, in
    /// insertion order.
    pub fn get_user_achievements(&self, user: Principal) -> (r: Result<Vec<TokenId>, Error>)
        requires
            self.wf(),
        ensures
            r matches Ok(v) && v@ == records_of(self@, user),
    {
        Ok(storage::get_user_achievements(self, user))
    }

    /// Returns a snapshot of the issuance counters, one entry per category
    /// that was ever issued.
    pub fn get_achievement_statistics(&self) -> (r: Vec<(AchievementType, u32)>)
        requires
            self.wf(),
        ensures
            crate::alist::keys_distinct(r@),
            crate::alist::map_view(r@) == self@.stats,
    {
        storage::get_achievement_stats(self)
    }

    /// Returns a snapshot of the leaderboard, one entry per principal whose
    /// value was ever recomputed.
    pub fn get_achievement_leaderboard(&self) -> (r: Vec<(Principal, u64)>)
        requires
            self.wf(),
        ensures
            crate::alist::keys_distinct(r@),
            crate::alist::map_view(r@) == self@.leaderboard,
    {
        storage::get_leaderboard(self)
    }

    /// One-based rank of a principal on the leaderboard; ties share a rank
    /// and an absent principal counts as having value zero.
    pub fn get_user_achievement_rank(&self, user: Principal) -> (r: u64)
        requires
            self.wf(),
            self@.leaderboard.dom().len() < u64::MAX,
        ensures
            r as int == rank_of(self@, user),
    {
        storage::get_user_rank(self, user)
    }
}

} // verus!
