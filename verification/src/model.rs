//! The mathematical model of the registry: an abstract view of the whole
//! state, the predicates of the authorization gate and the threshold rules,
//! and the post-state of every mutating operation.

use vstd::prelude::*;

use crate::alist::distinct_seq;
use crate::alist::seq_without;
use crate::types::AchievementType;
use crate::types::Metadata;
use crate::types::Principal;
use crate::types::ReputationScore;
use crate::types::TokenId;

verus! {

/// Abstract state of the registry. Every operation's contract is stated over
/// this view.
#[verifier::ext_equal]
pub ghost struct RegistryView {
    /// The single administrator, once initialization has run.
    pub admin: Option<Principal>,
    /// Principals registered as minters. The administrator may mint even
    /// when absent from this set.
    pub minters: Set<Principal>,
    /// Last auto-assigned record identifier; the counter starts at 0 and the
    /// first assigned identifier is 1.
    pub last_id: u64,
    /// Owner of each existing record.
    pub owners: Map<TokenId, Principal>,
    /// Metadata of each existing record.
    pub metadata: Map<TokenId, Metadata>,
    /// Per-owner index: the records currently attributed to a principal, in
    /// insertion order.
    pub achievements: Map<Principal, Seq<TokenId>>,
    /// How many records of each category were ever issued; never decremented.
    pub stats: Map<AchievementType, u32>,
    /// Snapshot of each principal's index length at its last recomputation.
    pub leaderboard: Map<Principal, u64>,
    /// Latest reputation row per principal.
    pub reputation: Map<Principal, ReputationScore>,
}

/// The state of a freshly created registry: nothing issued, nobody
/// registered, the identifier counter at zero.
pub open spec fn empty_registry() -> RegistryView {
    RegistryView {
        admin: None,
        minters: Set::empty(),
        last_id: 0,
        owners: Map::empty(),
        metadata: Map::empty(),
        achievements: Map::empty(),
        stats: Map::empty(),
        leaderboard: Map::empty(),
        reputation: Map::empty(),
    }
}

/// The administrator has been set.
pub open spec fn initialized(s: RegistryView) -> bool {
    s.admin is Some
}

/// The authorization gate for creating and destroying records: the caller is
/// the administrator or a registered minter.
pub open spec fn can_mint(s: RegistryView, caller: Principal) -> bool {
    s.admin == Some(caller) || s.minters.contains(caller)
}

/// The index list of a principal; empty when the principal was never indexed.
pub open spec fn records_of(s: RegistryView, owner: Principal) -> Seq<TokenId> {
    if s.achievements.contains_key(owner) {
        s.achievements[owner]
    } else {
        Seq::empty()
    }
}

/// The issuance count of a category; zero when the category was never issued.
pub open spec fn stat_of(s: RegistryView, t: AchievementType) -> u32 {
    if s.stats.contains_key(t) {
        s.stats[t]
    } else {
        0u32
    }
}

/// The leaderboard value of a principal; a principal absent from the
/// leaderboard counts as zero.
pub open spec fn lb_value(s: RegistryView, p: Principal) -> u64 {
    if s.leaderboard.contains_key(p) {
        s.leaderboard[p]
    } else {
        0u64
    }
}

/// The principals whose leaderboard value strictly exceeds that of `p`.
pub open spec fn outranking(s: RegistryView, p: Principal) -> Set<Principal> {
    s.leaderboard.dom().filter(|q: Principal| s.leaderboard[q] > lb_value(s, p))
}

/// One-based rank: one more than the number of principals with a strictly
/// larger leaderboard value. Ties share a rank.
pub open spec fn rank_of(s: RegistryView, p: Principal) -> int {
    1 + outranking(s, p).len() as int
}

/// The state after a record is issued: owner and metadata written as a pair,
/// the record appended to the owner's index, the category counter bumped.
/// The leaderboard is deliberately not refreshed here.
pub open spec fn issue_post(s: RegistryView, id: TokenId, owner: Principal, m: Metadata) -> RegistryView {
    RegistryView {
        owners: s.owners.insert(id, owner),
        metadata: s.metadata.insert(id, m),
        achievements: s.achievements.insert(owner, records_of(s, owner).push(id)),
        stats: s.stats.insert(
            m.achievement_type,
            ((stat_of(s, m.achievement_type) + 1) as u32),
        ),
        ..s
    }
}

/// The state after an issuance that draws the next identifier from the
/// counter.
pub open spec fn auto_issue_post(s: RegistryView, owner: Principal, m: Metadata) -> RegistryView {
    let id = ((s.last_id + 1) as u64);
    issue_post(RegistryView { last_id: id, ..s }, id, owner, m)
}

/// The index table after every occurrence of `id` is purged from the list
/// of `p`. A principal that was never indexed stays unindexed.
pub open spec fn purged(s: RegistryView, p: Principal, id: TokenId) -> Map<Principal, Seq<TokenId>> {
    if s.achievements.contains_key(p) {
        s.achievements.insert(p, seq_without(records_of(s, p), id))
    } else {
        s.achievements
    }
}

/// The state after the leaderboard entry of `p` is recomputed from the
/// current length of its index list.
pub open spec fn recomputed(s: RegistryView, p: Principal) -> RegistryView {
    RegistryView {
        leaderboard: s.leaderboard.insert(p, (records_of(s, p).len() as u64)),
        ..s
    }
}

/// The state after a successful transfer: new owner written, the record
/// moved from the old owner's index to the new owner's, and both leaderboard
/// entries recomputed.
pub open spec fn transfer_post(s: RegistryView, from: Principal, to: Principal, id: TokenId) -> RegistryView {
    let removed = RegistryView {
        owners: s.owners.insert(id, to),
        achievements: purged(s, from, id),
        ..s
    };
    let added = RegistryView {
        achievements: removed.achievements.insert(to, records_of(removed, to).push(id)),
        ..removed
    };
    recomputed(recomputed(added, from), to)
}

/// The state after a record is destroyed: owner and metadata removed as a
/// pair and the record purged from the previous owner's index. Category
/// counters and the leaderboard are deliberately left as they were.
pub open spec fn burn_post(s: RegistryView, id: TokenId) -> RegistryView {
    let owner = s.owners[id];
    RegistryView {
        owners: s.owners.remove(id),
        metadata: s.metadata.remove(id),
        achievements: purged(s, owner, id),
        ..s
    }
}

/// The state after a principal's reputation row is overwritten.
pub open spec fn scored(s: RegistryView, user: Principal, rating_average: u32, total_ratings: u32, now: u64) -> RegistryView {
    RegistryView {
        reputation: s.reputation.insert(
            user,
            ReputationScore { rating_average, total_ratings, last_update_time: now },
        ),
        ..s
    }
}

/// Threshold rule for the "ten excellent ratings" milestone. The count is
/// compared exactly, so the rule re-fires on every update reporting exactly
/// ten ratings.
pub open spec fn hits_ten_excellent(rating_average: u32, total_ratings: u32) -> bool {
    total_ratings == 10 && rating_average >= 400
}

/// Threshold rule for the "top rated professional" milestone.
pub open spec fn hits_top_rated(rating_average: u32, total_ratings: u32) -> bool {
    rating_average >= 480 && total_ratings >= 20
}

/// Threshold rule for the "veteran professional" milestone.
pub open spec fn hits_veteran(rating_average: u32, total_ratings: u32) -> bool {
    total_ratings >= 50 && rating_average >= 450
}

/// How many of the three independent threshold rules fire on these values.
pub open spec fn milestones_hit(rating_average: u32, total_ratings: u32) -> int {
    (if hits_ten_excellent(rating_average, total_ratings) { 1int } else { 0int })
        + (if hits_top_rated(rating_average, total_ratings) { 1int } else { 0int })
        + (if hits_veteran(rating_average, total_ratings) { 1int } else { 0int })
}

/// The state after the three threshold rules are evaluated against the new
/// values: one milestone auto-issued per rule that fires, in rule order,
/// with consecutive fresh identifiers. `m1`, `m2`, `m3` are the metadata
/// values of the milestones that were issued; a rule that does not fire
/// ignores its argument.
pub open spec fn milestones_post(
    s: RegistryView,
    user: Principal,
    rating_average: u32,
    total_ratings: u32,
    m1: Metadata,
    m2: Metadata,
    m3: Metadata,
) -> RegistryView {
    let s1 = if hits_ten_excellent(rating_average, total_ratings) {
        auto_issue_post(s, user, m1)
    } else {
        s
    };
    let s2 = if hits_top_rated(rating_average, total_ratings) {
        auto_issue_post(s1, user, m2)
    } else {
        s1
    };
    if hits_veteran(rating_average, total_ratings) {
        auto_issue_post(s2, user, m3)
    } else {
        s2
    }
}

/// The state after a score update: the reputation row overwritten, one
/// milestone auto-issued per threshold rule that the new values satisfy,
/// and the subject's leaderboard entry recomputed last.
pub open spec fn score_update_post(
    s: RegistryView,
    user: Principal,
    rating_average: u32,
    total_ratings: u32,
    now: u64,
    m1: Metadata,
    m2: Metadata,
    m3: Metadata,
) -> RegistryView {
    recomputed(
        milestones_post(
            scored(s, user, rating_average, total_ratings, now),
            user,
            rating_average,
            total_ratings,
            m1,
            m2,
            m3,
        ),
        user,
    )
}

/// The state after a batch issuance: entry `k` is issued to `tos[k]` with the
/// `k`-th name, description and URI, category `Standard`, under the next
/// identifier from the counter, strictly in order.
pub open spec fn batch_issue_post(
    s: RegistryView,
    tos: Seq<Principal>,
    names: Seq<String>,
    descriptions: Seq<String>,
    uris: Seq<String>,
) -> RegistryView
    decreases tos.len(),
{
    if tos.len() == 0 {
        s
    } else {
        let k = tos.len() - 1;
        let s1 = batch_issue_post(s, tos.take(k), names.take(k), descriptions.take(k), uris.take(k));
        auto_issue_post(
            s1,
            tos[k],
            Metadata {
                name: names[k],
                description: descriptions[k],
                uri: uris[k],
                achievement_type: AchievementType::Standard,
            },
        )
    }
}

/// The category stored for an issuance that named one, or `Standard` when
/// none was named.
pub open spec fn category_or_standard(t: Option<AchievementType>) -> AchievementType {
    match t {
        Some(x) => x,
        None => AchievementType::Standard,
    }
}

/// The given metadata fields, field by field over the string views.
pub open spec fn is_milestone_meta(
    m: Metadata,
    name: Seq<char>,
    description: Seq<char>,
    uri: Seq<char>,
    t: AchievementType,
) -> bool {
    m.name@ == name && m.description@ == description && m.uri@ == uri && m.achievement_type == t
}

/// Metadata of the "ten excellent ratings" milestone.
pub open spec fn ten_excellent_meta(m: Metadata) -> bool {
    is_milestone_meta(
        m,
        "Excellence Milestone"@,
        "Awarded for 10+ excellent ratings"@,
        "ipfs://excellence-milestone"@,
        AchievementType::RatingMilestone,
    )
}

/// Metadata of the "top rated professional" milestone.
pub open spec fn top_rated_meta(m: Metadata) -> bool {
    is_milestone_meta(
        m,
        "Top Rated Professional"@,
        "Awarded for exceptional rating performance"@,
        "ipfs://top-rated-professional"@,
        AchievementType::RatingMilestone,
    )
}

/// Metadata of the "veteran professional" milestone.
pub open spec fn veteran_meta(m: Metadata) -> bool {
    is_milestone_meta(
        m,
        "Veteran Professional"@,
        "Awarded for long-term excellent performance"@,
        "ipfs://veteran-professional"@,
        AchievementType::RatingMilestone,
    )
}

/// The metadata a named achievement issuance writes for a type tag. An
/// unknown tag degrades to a generic description rather than failing.
pub open spec fn named_achievement_meta(tag: Seq<char>, m: Metadata) -> bool {
    if tag == "tencontr"@ {
        is_milestone_meta(
            m,
            "10 Completed Contracts"@,
            "Awarded for completing 10 contracts successfully."@,
            "ipfs://10-completed-contracts"@,
            AchievementType::ProjectMilestone,
        )
    } else if tag == "5stars5x"@ {
        is_milestone_meta(
            m,
            "5 Stars 5 Times"@,
            "Awarded for receiving five 5-star reviews."@,
            "ipfs://5-stars-5-times"@,
            AchievementType::ProjectMilestone,
        )
    } else if tag == "toprated"@ {
        is_milestone_meta(
            m,
            "Top Rated Freelancer"@,
            "Awarded for being a top-rated freelancer."@,
            "ipfs://top-rated-freelancer"@,
            AchievementType::ProjectMilestone,
        )
    } else {
        is_milestone_meta(
            m,
            "Achievement NFT"@,
            "Awarded for a special achievement."@,
            "ipfs://achievement-generic"@,
            AchievementType::ProjectMilestone,
        )
    }
}

/// The metadata a rating achievement issuance writes for a type tag. An
/// unknown tag degrades to a generic description rather than failing.
pub open spec fn rating_achievement_meta(tag: Seq<char>, m: Metadata) -> bool {
    if tag == "first_five_star"@ {
        is_milestone_meta(
            m,
            "First Five Star Rating"@,
            "Awarded for receiving first 5-star rating"@,
            "ipfs://first-five-star"@,
            AchievementType::RatingMilestone,
        )
    } else if tag == "ten_ratings"@ {
        is_milestone_meta(
            m,
            "Ten Ratings Milestone"@,
            "Awarded for receiving 10 ratings"@,
            "ipfs://ten-ratings"@,
            AchievementType::RatingMilestone,
        )
    } else if tag == "top_rated_professional"@ {
        is_milestone_meta(
            m,
            "Top Rated Professional"@,
            "Awarded for maintaining excellent ratings"@,
            "ipfs://top-rated-pro"@,
            AchievementType::RatingMilestone,
        )
    } else if tag == "rating_consistency"@ {
        is_milestone_meta(
            m,
            "Consistency Master"@,
            "Awarded for consistent high-quality ratings"@,
            "ipfs://consistency-master"@,
            AchievementType::RatingMilestone,
        )
    } else {
        is_milestone_meta(
            m,
            "Rating Achievement"@,
            "Special rating-based achievement"@,
            "ipfs://rating-achievement"@,
            AchievementType::RatingMilestone,
        )
    }
}

/// The denormalized views agree: a record exists exactly when both its owner
/// and metadata entries exist, the per-owner index lists are exactly the
/// inverse of the owner map, no list repeats a record, and the leaderboard
/// domain is finite.
pub open spec fn consistent(s: RegistryView) -> bool {
    &&& forall|id: TokenId|
        #![trigger s.owners.contains_key(id)]
        #![trigger s.metadata.contains_key(id)]
        s.owners.contains_key(id) <==> s.metadata.contains_key(id)
    &&& forall|id: TokenId| #[trigger]
        s.owners.contains_key(id) ==> records_of(s, s.owners[id]).contains(id)
    &&& forall|p: Principal, id: TokenId| #[trigger]
        records_of(s, p).contains(id) ==> s.owners.contains_key(id) && s.owners[id] == p
    &&& forall|p: Principal| distinct_seq(#[trigger] records_of(s, p))
    &&& s.leaderboard.dom().finite()
}

} // verus!
