//! Scenario and edge-case tests: identifier uniqueness, owner/metadata
//! pairing, the transfer policy, index consistency, rank ordering, the
//! administrator bypass, and the exact error kind for each rejected input.

use reputation_nft::metadata::store_metadata;
use reputation_nft::storage;
use reputation_nft::AchievementType;
use reputation_nft::Error;
use reputation_nft::ReputationNFTContract;

fn s(text: &str) -> String {
    text.to_string()
}

fn board_count(board: &[(u64, u64)], p: u64) -> u64 {
    board.iter().find(|e| e.0 == p).map(|e| e.1).unwrap_or(0)
}

fn stat_count(stats: &[(AchievementType, u32)], t: AchievementType) -> u32 {
    stats.iter().find(|e| e.0 == t).map(|e| e.1).unwrap_or(0)
}

#[test]
fn scenario_issue_then_transfer() {
    let admin = 1u64;
    let u1 = 2u64;
    let u2 = 3u64;
    let mut c = ReputationNFTContract::new();
    c.init(admin).unwrap();

    c.mint(admin, u1, 1, s("Badge"), s("A standard badge"), s("ipfs://badge"))
        .unwrap();
    assert_eq!(c.get_owner(1).unwrap(), u1);

    c.transfer(u1, u2, 1).unwrap();
    assert_eq!(c.get_owner(1).unwrap(), u2);
    assert_eq!(c.get_user_achievements(u1).unwrap().len(), 0);
    assert_eq!(c.get_user_achievements(u2).unwrap(), vec![1u64]);
}

#[test]
fn scenario_score_update_reawards_milestone() {
    let admin = 1u64;
    let user = 2u64;
    let mut c = ReputationNFTContract::new();
    c.init(admin).unwrap();

    c.update_reputation_score(admin, user, 400, 10, 100).unwrap();
    let first = c.get_user_achievements(user).unwrap();
    assert_eq!(first, vec![1u64]);
    assert_eq!(
        c.get_metadata(1).unwrap().achievement_type,
        AchievementType::RatingMilestone
    );

    // the threshold rules carry no "already awarded" guard: an identical
    // update issues a second record
    c.update_reputation_score(admin, user, 400, 10, 200).unwrap();
    let second = c.get_user_achievements(user).unwrap();
    assert_eq!(second, vec![1u64, 2u64]);
    assert_eq!(
        c.get_metadata(2).unwrap().achievement_type,
        AchievementType::RatingMilestone
    );
}

#[test]
fn score_update_can_award_several_milestones() {
    let admin = 1u64;
    let user = 2u64;
    let mut c = ReputationNFTContract::new();
    c.init(admin).unwrap();

    // 490 average over 50 ratings satisfies the top-rated and the veteran
    // rule but not the exact-count rule
    c.update_reputation_score(admin, user, 490, 50, 7).unwrap();
    let records = c.get_user_achievements(user).unwrap();
    assert_eq!(records, vec![1u64, 2u64]);
    assert_eq!(c.get_metadata(1).unwrap().name, s("Top Rated Professional"));
    assert_eq!(c.get_metadata(2).unwrap().name, s("Veteran Professional"));

    // below every threshold: no record, but the leaderboard entry is
    // refreshed all the same
    c.update_reputation_score(admin, user, 100, 3, 8).unwrap();
    assert_eq!(c.get_user_achievements(user).unwrap().len(), 2);
    let board = c.get_achievement_leaderboard();
    assert_eq!(board_count(&board, user), 2);
}

#[test]
fn auto_assigned_ids_strictly_increase() {
    let admin = 1u64;
    let user = 2u64;
    let mut c = ReputationNFTContract::new();
    c.init(admin).unwrap();

    c.mint_achv(admin, user, s("tencontr")).unwrap();
    c.mint_rating_achievement(admin, user, s("ten_ratings"), s("payload"))
        .unwrap();
    c.update_reputation_score(admin, user, 400, 10, 5).unwrap();
    c.mint_achv(admin, user, s("toprated")).unwrap();

    assert_eq!(c.get_user_achievements(user).unwrap(), vec![1u64, 2, 3, 4]);
}

#[test]
fn owner_and_metadata_exist_as_a_pair() {
    let admin = 1u64;
    let user = 2u64;
    let mut c = ReputationNFTContract::new();
    c.init(admin).unwrap();

    assert_eq!(c.get_owner(1), Err(Error::TokenDoesNotExist));
    assert_eq!(c.get_metadata(1), Err(Error::TokenDoesNotExist));

    c.mint(admin, user, 1, s("Paired"), s("Entries live together"), s("ipfs://pair"))
        .unwrap();
    assert!(c.get_owner(1).is_ok());
    assert!(c.get_metadata(1).is_ok());

    c.burn(admin, 1).unwrap();
    assert_eq!(c.get_owner(1), Err(Error::TokenDoesNotExist));
    assert_eq!(c.get_metadata(1), Err(Error::TokenDoesNotExist));
}

#[test]
fn non_transferable_categories_always_refuse() {
    let admin = 1u64;
    let owner = 2u64;
    let other = 3u64;
    let mut c = ReputationNFTContract::new();
    c.init(admin).unwrap();

    let categories = [
        AchievementType::Reputation,
        AchievementType::ProjectMilestone,
        AchievementType::RatingMilestone,
    ];
    for (k, t) in categories.iter().enumerate() {
        let id = (k + 1) as u64;
        storage::save_token_owner(&mut c, id, owner);
        store_metadata(&mut c, id, s("Locked"), s("Stays put"), s("ipfs://locked"), Some(*t))
            .unwrap();
        assert_eq!(c.transfer(owner, other, id), Err(Error::NonTransferableToken));
        assert_eq!(c.get_owner(id).unwrap(), owner);
    }

    storage::save_token_owner(&mut c, 9, owner);
    store_metadata(
        &mut c,
        9,
        s("Bespoke"),
        s("May move"),
        s("ipfs://bespoke"),
        Some(AchievementType::CustomAchievement),
    )
    .unwrap();
    assert!(c.transfer(owner, other, 9).is_ok());
    assert_eq!(c.get_owner(9).unwrap(), other);
}

#[test]
fn transfer_moves_exactly_one_index_entry() {
    let admin = 1u64;
    let from = 2u64;
    let to = 3u64;
    let mut c = ReputationNFTContract::new();
    c.init(admin).unwrap();

    c.mint(admin, from, 4, s("First"), s("One of two"), s("ipfs://one"))
        .unwrap();
    c.mint(admin, from, 8, s("Second"), s("Two of two"), s("ipfs://two"))
        .unwrap();
    c.mint(admin, to, 6, s("Theirs"), s("Already owned"), s("ipfs://theirs"))
        .unwrap();

    c.transfer(from, to, 4).unwrap();

    let from_list = c.get_user_achievements(from).unwrap();
    assert_eq!(from_list, vec![8u64]);
    let to_list = c.get_user_achievements(to).unwrap();
    assert_eq!(to_list, vec![6u64, 4u64]);
    assert_eq!(to_list.iter().filter(|id| **id == 4).count(), 1);
}

#[test]
fn ranks_follow_leaderboard_values() {
    let admin = 1u64;
    let heavy = 2u64;
    let light = 3u64;
    let peer = 4u64;
    let absent = 9u64;
    let mut c = ReputationNFTContract::new();
    c.init(admin).unwrap();

    c.mint(admin, heavy, 1, s("A"), s("a"), s("ipfs://a")).unwrap();
    c.mint(admin, heavy, 2, s("B"), s("b"), s("ipfs://b")).unwrap();
    c.mint(admin, light, 3, s("C"), s("c"), s("ipfs://c")).unwrap();
    c.mint(admin, peer, 4, s("D"), s("d"), s("ipfs://d")).unwrap();

    storage::update_leaderboard(&mut c, heavy);
    storage::update_leaderboard(&mut c, light);
    storage::update_leaderboard(&mut c, peer);

    // a strictly larger value gives a strictly better rank; equal values
    // share a rank with no skipping, and an absent principal counts as zero
    assert_eq!(c.get_user_achievement_rank(heavy), 1);
    assert_eq!(c.get_user_achievement_rank(light), 2);
    assert_eq!(c.get_user_achievement_rank(peer), 2);
    assert_eq!(c.get_user_achievement_rank(absent), 4);
}

#[test]
fn leaderboard_is_only_as_fresh_as_its_last_recomputation() {
    let admin = 1u64;
    let user = 2u64;
    let mut c = ReputationNFTContract::new();
    c.init(admin).unwrap();

    c.mint(admin, user, 1, s("Quiet"), s("No refresh"), s("ipfs://quiet"))
        .unwrap();

    // plain issuance does not touch the leaderboard
    let board = c.get_achievement_leaderboard();
    assert!(board.iter().all(|e| e.0 != user));

    // a transfer refreshes both ends
    let other = 3u64;
    c.transfer(user, other, 1).unwrap();
    let board = c.get_achievement_leaderboard();
    assert_eq!(board_count(&board, user), 0);
    assert_eq!(board_count(&board, other), 1);
}

#[test]
fn admin_bypass_and_stranger_rejection() {
    let admin = 1u64;
    let stranger = 5u64;
    let user = 2u64;
    let mut c = ReputationNFTContract::new();
    c.init(admin).unwrap();

    // the administrator passes every minter-gated operation while not
    // being a registered minter
    assert!(!c.is_minter(admin).unwrap());
    assert!(c.mint(admin, user, 1, s("A"), s("a"), s("ipfs://a")).is_ok());
    assert!(c.mint_achv(admin, user, s("5stars5x")).is_ok());
    assert!(c.update_reputation_score(admin, user, 1, 1, 1).is_ok());
    assert!(c.burn(admin, 1).is_ok());

    // a caller that is neither administrator nor minter is always rejected
    assert_eq!(
        c.mint(stranger, user, 7, s("B"), s("b"), s("ipfs://b")),
        Err(Error::Unauthorized)
    );
    assert_eq!(c.mint_achv(stranger, user, s("tencontr")), Err(Error::Unauthorized));
    assert_eq!(
        c.mint_rating_achievement(stranger, user, s("ten_ratings"), s("x")),
        Err(Error::Unauthorized)
    );
    assert_eq!(c.update_reputation_score(stranger, user, 400, 10, 1), Err(Error::Unauthorized));
    assert_eq!(c.burn(stranger, 2), Err(Error::Unauthorized));
    assert_eq!(
        c.batch_mint(stranger, vec![user], vec![s("N")], vec![s("D")], vec![s("U")]),
        Err(Error::Unauthorized)
    );
    assert_eq!(c.add_minter(stranger, stranger), Err(Error::Unauthorized));
    assert_eq!(c.remove_minter(stranger, stranger), Err(Error::Unauthorized));
    assert_eq!(c.transfer_admin(stranger, stranger), Err(Error::Unauthorized));
}

#[test]
fn occupied_identifier_is_rejected() {
    let admin = 1u64;
    let user = 2u64;
    let mut c = ReputationNFTContract::new();
    c.init(admin).unwrap();

    c.mint(admin, user, 5, s("Taken"), s("First write"), s("ipfs://taken"))
        .unwrap();
    assert_eq!(
        c.mint(admin, user, 5, s("Again"), s("Second write"), s("ipfs://again")),
        Err(Error::TokenAlreadyExists)
    );
    // the failed attempt left the stored metadata alone
    assert_eq!(c.get_metadata(5).unwrap().name, s("Taken"));
}

#[test]
fn transfer_error_kinds() {
    let admin = 1u64;
    let owner = 2u64;
    let other = 3u64;
    let mut c = ReputationNFTContract::new();
    c.init(admin).unwrap();

    assert_eq!(c.transfer(owner, other, 1), Err(Error::TokenDoesNotExist));

    c.mint(admin, owner, 1, s("Mine"), s("Owned"), s("ipfs://mine")).unwrap();
    // a mismatched initiator is reported identically whether or not the
    // record was ever theirs
    assert_eq!(c.transfer(other, owner, 1), Err(Error::Unauthorized));
    assert_eq!(c.get_owner(1).unwrap(), owner);
}

#[test]
fn burn_of_missing_record_reports_token_does_not_exist() {
    let admin = 1u64;
    let mut c = ReputationNFTContract::new();
    c.init(admin).unwrap();
    assert_eq!(c.burn(admin, 42), Err(Error::TokenDoesNotExist));
}

#[test]
fn batch_mint_rejects_length_mismatch() {
    let admin = 1u64;
    let user = 2u64;
    let mut c = ReputationNFTContract::new();
    c.init(admin).unwrap();

    let res = c.batch_mint(
        admin,
        vec![user, user],
        vec![s("Only one")],
        vec![s("Only one")],
        vec![s("Only one")],
    );
    assert_eq!(res, Err(Error::Unauthorized));
    // nothing was written
    assert_eq!(c.get_owner(1), Err(Error::TokenDoesNotExist));
}

#[test]
fn minter_roster_updates_are_idempotent() {
    let admin = 1u64;
    let minter = 2u64;
    let mut c = ReputationNFTContract::new();
    c.init(admin).unwrap();

    c.add_minter(admin, minter).unwrap();
    c.add_minter(admin, minter).unwrap();
    assert!(c.is_minter(minter).unwrap());

    c.remove_minter(admin, minter).unwrap();
    assert!(!c.is_minter(minter).unwrap());
    // removing an absent principal is not an error
    c.remove_minter(admin, minter).unwrap();
    assert!(!c.is_minter(minter).unwrap());
}

#[test]
fn reinitialization_overwrites_the_administrator() {
    let first = 1u64;
    let second = 2u64;
    let mut c = ReputationNFTContract::new();
    c.init(first).unwrap();
    c.init(second).unwrap();
    assert_eq!(c.get_admin().unwrap(), second);
    // the former administrator lost the role
    assert_eq!(c.add_minter(first, first), Err(Error::Unauthorized));
}

#[test]
fn category_counters_survive_destruction() {
    let admin = 1u64;
    let user = 2u64;
    let mut c = ReputationNFTContract::new();
    c.init(admin).unwrap();

    c.mint(admin, user, 1, s("Counted"), s("Bumps the counter"), s("ipfs://count"))
        .unwrap();
    c.burn(admin, 1).unwrap();

    let stats = c.get_achievement_statistics();
    assert_eq!(stat_count(&stats, AchievementType::Standard), 1);
}

#[test]
fn named_achievement_tags_pick_their_metadata() {
    let admin = 1u64;
    let user = 2u64;
    let mut c = ReputationNFTContract::new();
    c.init(admin).unwrap();

    c.mint_achv(admin, user, s("tencontr")).unwrap();
    c.mint_achv(admin, user, s("5stars5x")).unwrap();
    c.mint_achv(admin, user, s("toprated")).unwrap();
    c.mint_achv(admin, user, s("somethingelse")).unwrap();

    assert_eq!(c.get_metadata(1).unwrap().name, s("10 Completed Contracts"));
    assert_eq!(c.get_metadata(2).unwrap().name, s("5 Stars 5 Times"));
    assert_eq!(c.get_metadata(3).unwrap().name, s("Top Rated Freelancer"));
    assert_eq!(c.get_metadata(4).unwrap().name, s("Achievement NFT"));
    for id in 1..=4u64 {
        assert_eq!(
            c.get_metadata(id).unwrap().achievement_type,
            AchievementType::ProjectMilestone
        );
    }
}

#[test]
fn rating_achievement_tags_pick_their_metadata() {
    let admin = 1u64;
    let user = 2u64;
    let mut c = ReputationNFTContract::new();
    c.init(admin).unwrap();

    c.mint_rating_achievement(admin, user, s("first_five_star"), s("x")).unwrap();
    c.mint_rating_achievement(admin, user, s("ten_ratings"), s("x")).unwrap();
    c.mint_rating_achievement(admin, user, s("top_rated_professional"), s("x")).unwrap();
    c.mint_rating_achievement(admin, user, s("rating_consistency"), s("x")).unwrap();
    c.mint_rating_achievement(admin, user, s("unknown_tag"), s("x")).unwrap();

    assert_eq!(c.get_metadata(1).unwrap().name, s("First Five Star Rating"));
    assert_eq!(c.get_metadata(2).unwrap().name, s("Ten Ratings Milestone"));
    assert_eq!(c.get_metadata(3).unwrap().name, s("Top Rated Professional"));
    assert_eq!(c.get_metadata(4).unwrap().name, s("Consistency Master"));
    assert_eq!(c.get_metadata(5).unwrap().name, s("Rating Achievement"));
    for id in 1..=5u64 {
        assert_eq!(
            c.get_metadata(id).unwrap().achievement_type,
            AchievementType::RatingMilestone
        );
    }
}

#[test]
fn transfer_between_same_principal_keeps_one_entry() {
    let admin = 1u64;
    let owner = 2u64;
    let mut c = ReputationNFTContract::new();
    c.init(admin).unwrap();

    c.mint(admin, owner, 1, s("Self"), s("Stays home"), s("ipfs://self"))
        .unwrap();
    c.transfer(owner, owner, 1).unwrap();

    assert_eq!(c.get_owner(1).unwrap(), owner);
    assert_eq!(c.get_user_achievements(owner).unwrap(), vec![1u64]);
}
