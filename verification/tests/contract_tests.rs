//! The registry exercised through its caller-facing operations and, where a
//! scenario builds state directly, through the storage layer.

use reputation_nft::metadata::store_metadata;
use reputation_nft::storage;
use reputation_nft::AchievementType;
use reputation_nft::Error;
use reputation_nft::ReputationNFTContract;

fn s(text: &str) -> String {
    text.to_string()
}

fn stat_count(stats: &[(AchievementType, u32)], t: AchievementType) -> u32 {
    stats.iter().find(|e| e.0 == t).map(|e| e.1).unwrap_or(0)
}

fn board_count(board: &[(u64, u64)], p: u64) -> u64 {
    board.iter().find(|e| e.0 == p).map(|e| e.1).unwrap_or(0)
}

#[test]
fn test_init() {
    let admin = 1u64;
    let mut c = ReputationNFTContract::new();

    let result = c.init(admin);
    assert!(result.is_ok());

    let admin_result = c.get_admin().unwrap();
    assert_eq!(admin_result, admin);
}

#[test]
fn test_get_storage_functions() {
    let admin = 1u64;
    let mut c = ReputationNFTContract::new();

    c.init(admin).unwrap();

    let stored_admin = c.get_admin().unwrap();
    assert_eq!(stored_admin, admin);

    // the administrator is not a minter by default, but can mint records
    let is_admin_minter = c.is_minter(admin).unwrap();
    assert!(!is_admin_minter);
}

#[test]
fn test_token_existence_error() {
    let admin = 1u64;
    let mut c = ReputationNFTContract::new();

    c.init(admin).unwrap();

    let result = c.get_owner(999);
    assert_eq!(result, Err(Error::TokenDoesNotExist));
}

#[test]
fn test_mock_mint_and_get_metadata() {
    let admin = 1u64;
    let user = 2u64;
    let mut c = ReputationNFTContract::new();

    c.init(admin).unwrap();

    // simulate the effects of a successful mint directly on the store
    storage::save_token_owner(&mut c, 1, user);

    let name = s("Test NFT");
    let description = s("Test Description");
    let uri = s("ipfs://test");
    store_metadata(
        &mut c,
        1,
        name.clone(),
        description.clone(),
        uri.clone(),
        Some(AchievementType::Standard),
    )
    .unwrap();

    let owner = c.get_owner(1).unwrap();
    assert_eq!(owner, user);

    let metadata = c.get_metadata(1).unwrap();
    assert_eq!(metadata.name, name);
    assert_eq!(metadata.description, description);
    assert_eq!(metadata.uri, uri);
}

#[test]
fn test_mock_transfer() {
    let admin = 1u64;
    let original_owner = 2u64;
    let new_owner = 3u64;
    let mut c = ReputationNFTContract::new();

    c.init(admin).unwrap();

    storage::save_token_owner(&mut c, 1, original_owner);

    // simulate the transfer by overwriting the owner entry
    storage::save_token_owner(&mut c, 1, new_owner);

    let owner = c.get_owner(1).unwrap();
    assert_eq!(owner, new_owner);
}

#[test]
fn test_mock_minter_role() {
    let admin = 1u64;
    let minter = 2u64;
    let mut c = ReputationNFTContract::new();

    c.init(admin).unwrap();

    storage::add_minter(&mut c, minter);

    let is_minter_role = c.is_minter(minter).unwrap();
    assert!(is_minter_role);

    storage::remove_minter(&mut c, minter);

    let is_still_minter = c.is_minter(minter).unwrap();
    assert!(!is_still_minter);
}

#[test]
fn test_admin_can_mint_without_being_minter() {
    let admin = 1u64;
    let user = 2u64;
    let mut c = ReputationNFTContract::new();

    c.init(admin).unwrap();

    let is_admin_minter = c.is_minter(admin).unwrap();
    assert!(!is_admin_minter);

    storage::save_token_owner(&mut c, 1, user);

    let owner = c.get_owner(1).unwrap();
    assert_eq!(owner, user);
}

#[test]
fn test_transfer_admin_role() {
    let admin = 1u64;
    let new_admin = 2u64;
    let mut c = ReputationNFTContract::new();

    c.init(admin).unwrap();

    storage::save_admin(&mut c, new_admin);

    let admin_result = c.get_admin().unwrap();
    assert_eq!(admin_result, new_admin);
}

#[test]
fn test_multiple_tokens() {
    let admin = 1u64;
    let user1 = 2u64;
    let user2 = 3u64;
    let mut c = ReputationNFTContract::new();

    c.init(admin).unwrap();

    storage::save_token_owner(&mut c, 1, user1);
    storage::save_token_owner(&mut c, 2, user2);

    let owner1 = c.get_owner(1).unwrap();
    let owner2 = c.get_owner(2).unwrap();

    assert_eq!(owner1, user1);
    assert_eq!(owner2, user2);
}

#[test]
fn test_metadata_functionality() {
    let admin = 1u64;
    let mut c = ReputationNFTContract::new();

    c.init(admin).unwrap();

    let token_id = 1u64;
    let name = s("Special NFT");
    let description = s("A very special NFT");
    let uri = s("ipfs://special");

    store_metadata(
        &mut c,
        token_id,
        name.clone(),
        description.clone(),
        uri.clone(),
        Some(AchievementType::Standard),
    )
    .unwrap();

    let metadata = c.get_metadata(token_id).unwrap();
    assert_eq!(metadata.name, name);
    assert_eq!(metadata.description, description);
    assert_eq!(metadata.uri, uri);

    let result = c.get_metadata(999);
    assert_eq!(result, Err(Error::TokenDoesNotExist));
}

#[test]
fn test_token_uri_update() {
    let admin = 1u64;
    let token_id = 1u64;
    let mut c = ReputationNFTContract::new();

    c.init(admin).unwrap();

    let name = s("Original NFT");
    let description = s("Original Description");
    let uri = s("ipfs://original");

    storage::save_token_owner(&mut c, token_id, admin);
    store_metadata(
        &mut c,
        token_id,
        name.clone(),
        description.clone(),
        uri.clone(),
        Some(AchievementType::Standard),
    )
    .unwrap();

    let initial_metadata = c.get_metadata(token_id).unwrap();
    assert_eq!(initial_metadata.uri, uri);

    let new_uri = s("ipfs://updated");
    let updated_name = name.clone();
    let updated_description = description.clone();

    store_metadata(
        &mut c,
        token_id,
        updated_name.clone(),
        updated_description.clone(),
        new_uri.clone(),
        Some(AchievementType::Standard),
    )
    .unwrap();

    let updated_metadata = c.get_metadata(token_id).unwrap();
    assert_eq!(updated_metadata.uri, new_uri);
    assert_eq!(updated_metadata.name, updated_name);
    assert_eq!(updated_metadata.description, updated_description);
}

#[test]
fn test_batch_operations() {
    let admin = 1u64;
    let user1 = 2u64;
    let user2 = 3u64;
    let user3 = 4u64;
    let mut c = ReputationNFTContract::new();

    c.init(admin).unwrap();

    let token_ids = [1u64, 2, 3];
    let owners = [user1, user2, user3];

    for i in 0..token_ids.len() {
        storage::save_token_owner(&mut c, token_ids[i], owners[i]);

        let name = match token_ids[i] {
            1 => s("Token 1"),
            2 => s("Token 2"),
            3 => s("Token 3"),
            _ => s("Token"),
        };

        let description = match token_ids[i] {
            1 => s("Description for token 1"),
            2 => s("Description for token 2"),
            3 => s("Description for token 3"),
            _ => s("Description"),
        };

        let uri = match token_ids[i] {
            1 => s("ipfs://token1"),
            2 => s("ipfs://token2"),
            3 => s("ipfs://token3"),
            _ => s("ipfs://token"),
        };

        store_metadata(
            &mut c,
            token_ids[i],
            name.clone(),
            description,
            uri,
            Some(AchievementType::Standard),
        )
        .unwrap();
    }

    for i in 0..token_ids.len() {
        let owner = c.get_owner(token_ids[i]).unwrap();
        assert_eq!(owner, owners[i]);

        let metadata = c.get_metadata(token_ids[i]).unwrap();
        let expected_name = match token_ids[i] {
            1 => s("Token 1"),
            2 => s("Token 2"),
            3 => s("Token 3"),
            _ => s("Token"),
        };
        assert_eq!(metadata.name, expected_name);
    }
}

#[test]
fn test_mint_and_query() {
    let admin = 1u64;
    let user = 2u64;
    let token_id = 1u64;
    let mut c = ReputationNFTContract::new();

    c.init(admin).unwrap();

    let name = s("Test NFT");
    let description = s("Test Description");
    let uri = s("ipfs://test");

    c.mint(admin, user, token_id, name.clone(), description.clone(), uri.clone())
        .unwrap();

    let owner = c.get_owner(token_id).unwrap();
    assert_eq!(owner, user);

    let metadata = c.get_metadata(token_id).unwrap();
    assert_eq!(metadata.name, name);
    assert_eq!(metadata.description, description);
    assert_eq!(metadata.uri, uri);
}

#[test]
fn test_transfer() {
    let admin = 1u64;
    let original_owner = 2u64;
    let new_owner = 3u64;
    let token_id = 1u64;
    let mut c = ReputationNFTContract::new();

    c.init(admin).unwrap();

    let name = s("Test NFT");
    let description = s("Test Description");
    let uri = s("ipfs://test");

    c.mint(admin, original_owner, token_id, name, description, uri)
        .unwrap();

    let owner = c.get_owner(token_id).unwrap();
    assert_eq!(owner, original_owner);

    c.transfer(original_owner, new_owner, token_id).unwrap();

    let new_owner_result = c.get_owner(token_id).unwrap();
    assert_eq!(new_owner_result, new_owner);
}

#[test]
fn test_minter_role() {
    let admin = 1u64;
    let minter = 2u64;
    let user = 3u64;
    let token_id = 1u64;
    let mut c = ReputationNFTContract::new();

    c.init(admin).unwrap();

    c.add_minter(admin, minter).unwrap();

    let is_minter = c.is_minter(minter).unwrap();
    assert!(is_minter);

    let name = s("Minter NFT");
    let description = s("Minted by minter");
    let uri = s("ipfs://minter");

    c.mint(minter, user, token_id, name, description, uri).unwrap();

    let owner = c.get_owner(token_id).unwrap();
    assert_eq!(owner, user);

    c.remove_minter(admin, minter).unwrap();

    let is_still_minter = c.is_minter(minter).unwrap();
    assert!(!is_still_minter);
}

#[test]
fn test_admin_transfer() {
    let admin = 1u64;
    let new_admin = 2u64;
    let mut c = ReputationNFTContract::new();

    c.init(admin).unwrap();

    c.transfer_admin(admin, new_admin).unwrap();

    let current_admin = c.get_admin().unwrap();
    assert_eq!(current_admin, new_admin);
}

#[test]
fn test_mint_for_achievement() {
    let admin = 1u64;
    let user = 2u64;
    let mut c = ReputationNFTContract::new();

    c.init(admin).unwrap();
    c.add_minter(admin, admin).unwrap();

    let result = c.mint_achv(admin, user, s("tencontr"));
    assert!(result.is_ok());

    let owner = c.get_owner(1).unwrap();
    assert_eq!(owner, user);
    let metadata = c.get_metadata(1).unwrap();
    assert_eq!(metadata.name, s("10 Completed Contracts"));
}

#[test]
fn test_batch_mint_via_contract_call() {
    let admin = 1u64;
    let user1 = 2u64;
    let user2 = 3u64;
    let user3 = 4u64;
    let mut c = ReputationNFTContract::new();

    c.init(admin).unwrap();
    storage::add_minter(&mut c, admin);

    let tos = vec![user1, user2, user3];
    let names = vec![s("Token 1"), s("Token 2"), s("Token 3")];
    let descriptions = vec![s("Desc 1"), s("Desc 2"), s("Desc 3")];
    let uris = vec![s("ipfs://t1"), s("ipfs://t2"), s("ipfs://t3")];

    let res = c.batch_mint(admin, tos, names, descriptions, uris);
    assert!(res.is_ok());

    let o1 = c.get_owner(1).unwrap();
    let o2 = c.get_owner(2).unwrap();
    let o3 = c.get_owner(3).unwrap();

    assert_eq!(o1, user1);
    assert_eq!(o2, user2);
    assert_eq!(o3, user3);
}

#[test]
fn test_burn_removes_user_index() {
    let admin = 1u64;
    let user = 2u64;
    let mut c = ReputationNFTContract::new();

    c.init(admin).unwrap();
    storage::add_minter(&mut c, admin);

    let name = s("Burnable");
    let desc = s("To be burned");
    let uri = s("ipfs://burn");
    let mint_res = c.mint(admin, user, 1, name, desc, uri);
    assert!(mint_res.is_ok());

    let achievements = c.get_user_achievements(user).unwrap();
    assert_eq!(achievements.len(), 1);
    assert_eq!(achievements[0], 1);

    let burn_res = c.burn(admin, 1);
    assert!(burn_res.is_ok());

    let after = c.get_user_achievements(user).unwrap();
    assert_eq!(after.len(), 0);
}

#[test]
fn test_achievement_statistics_and_leaderboard() {
    let admin = 1u64;
    let user1 = 2u64;
    let user2 = 3u64;
    let mut c = ReputationNFTContract::new();

    c.init(admin).unwrap();
    storage::add_minter(&mut c, admin);

    storage::save_token_owner(&mut c, 1, user1);
    store_metadata(
        &mut c,
        1,
        s("Excellence Milestone"),
        s("Achievement for excellence"),
        s("ipfs://milestone1"),
        Some(AchievementType::ProjectMilestone),
    )
    .unwrap();
    storage::index_user_achievement(&mut c, user1, 1);
    storage::update_achievement_stats(&mut c, AchievementType::ProjectMilestone);

    storage::save_token_owner(&mut c, 2, user1);
    store_metadata(
        &mut c,
        2,
        s("5-Star Rating"),
        s("Achievement for ratings"),
        s("ipfs://rating1"),
        Some(AchievementType::RatingMilestone),
    )
    .unwrap();
    storage::index_user_achievement(&mut c, user1, 2);
    storage::update_achievement_stats(&mut c, AchievementType::RatingMilestone);

    storage::save_token_owner(&mut c, 3, user2);
    store_metadata(
        &mut c,
        3,
        s("Custom Award"),
        s("Special achievement"),
        s("ipfs://custom1"),
        Some(AchievementType::CustomAchievement),
    )
    .unwrap();
    storage::index_user_achievement(&mut c, user2, 3);
    storage::update_achievement_stats(&mut c, AchievementType::CustomAchievement);

    storage::update_leaderboard(&mut c, user1);
    storage::update_leaderboard(&mut c, user2);

    let stats = c.get_achievement_statistics();

    assert_eq!(
        stat_count(&stats, AchievementType::ProjectMilestone),
        1,
        "Should have 1 project milestone"
    );
    assert_eq!(
        stat_count(&stats, AchievementType::RatingMilestone),
        1,
        "Should have 1 rating milestone"
    );
    assert_eq!(
        stat_count(&stats, AchievementType::CustomAchievement),
        1,
        "Should have 1 custom achievement"
    );

    let user1_achievements = c.get_user_achievements(user1).unwrap();
    assert_eq!(user1_achievements.len(), 2, "User1 should have 2 achievements");

    let user2_achievements = c.get_user_achievements(user2).unwrap();
    assert_eq!(user2_achievements.len(), 1, "User2 should have 1 achievement");

    let leaderboard = c.get_achievement_leaderboard();

    assert_eq!(
        board_count(&leaderboard, user1),
        2,
        "User1 should have 2 achievements in leaderboard"
    );
    assert_eq!(
        board_count(&leaderboard, user2),
        1,
        "User2 should have 1 achievement in leaderboard"
    );
}

#[test]
fn test_achievement_transfer_restrictions() {
    let admin = 1u64;
    let original_owner = 2u64;
    let new_owner = 3u64;
    let mut c = ReputationNFTContract::new();

    c.init(admin).unwrap();
    storage::add_minter(&mut c, admin);

    storage::save_token_owner(&mut c, 1, original_owner);
    store_metadata(
        &mut c,
        1,
        s("Reputation Award"),
        s("Non-transferable reputation achievement"),
        s("ipfs://reputation"),
        Some(AchievementType::Reputation),
    )
    .unwrap();

    storage::save_token_owner(&mut c, 2, original_owner);
    store_metadata(
        &mut c,
        2,
        s("Standard Badge"),
        s("Transferable achievement"),
        s("ipfs://standard"),
        Some(AchievementType::Standard),
    )
    .unwrap();

    let reputation_metadata = c.get_metadata(1).unwrap();
    assert_eq!(
        reputation_metadata.achievement_type,
        AchievementType::Reputation,
        "Reputation achievement should be non-transferable"
    );

    let standard_metadata = c.get_metadata(2).unwrap();
    assert_eq!(
        standard_metadata.achievement_type,
        AchievementType::Standard,
        "Standard achievement should be transferable"
    );

    let standard_transfer = c.transfer(original_owner, new_owner, 2);
    assert!(standard_transfer.is_ok());

    let reputation_owner = c.get_owner(1).unwrap();
    assert_eq!(
        reputation_owner, original_owner,
        "Reputation achievement should not be transferred"
    );

    let standard_owner = c.get_owner(2).unwrap();
    assert_eq!(standard_owner, new_owner, "Standard achievement should be transferred");
}

#[test]
fn test_update_reputation_auto_awards_milestone() {
    let admin = 1u64;
    let user = 2u64;
    let mut c = ReputationNFTContract::new();

    c.init(admin).unwrap();
    storage::add_minter(&mut c, admin);

    let before = c.get_user_achievements(user).unwrap();
    assert_eq!(before.len(), 0, "User should have no achievements initially");

    let upd_res = c.update_reputation_score(admin, user, 400, 10, 0);
    assert!(upd_res.is_ok(), "update_reputation_score failed");

    let owner_result = c.get_owner(1);
    assert!(owner_result.is_ok(), "Token 1 should exist");
    let owner = owner_result.unwrap();
    assert_eq!(owner, user, "Token 1 should belong to user");

    let achievements = c.get_user_achievements(user).unwrap();
    assert_eq!(achievements.len(), 1, "User should have exactly 1 achievement");
    assert_eq!(achievements[0], 1, "Achievement should be token ID 1");

    let metadata = c.get_metadata(1).unwrap();
    assert_eq!(
        metadata.name,
        s("Excellence Milestone"),
        "Achievement should be the Excellence Milestone for 10+ excellent ratings"
    );
}
