//! System-wide laws of the registry, proved over the abstract model: the
//! consistency invariant is established empty and preserved by every
//! mutation, auto-assigned identifiers strictly increase, transfers and
//! burns keep the per-owner index exact, and leaderboard ranks order as the
//! values do.

use vstd::prelude::*;

use crate::alist::distinct_seq;
use crate::alist::lemma_contains_push;
use crate::alist::lemma_distinct_seq_push;
use crate::alist::lemma_seq_without_props;
use crate::alist::seq_without;
use crate::model::auto_issue_post;
use crate::model::batch_issue_post;
use crate::model::burn_post;
use crate::model::can_mint;
use crate::model::consistent;
use crate::model::empty_registry;
use crate::model::hits_ten_excellent;
use crate::model::hits_top_rated;
use crate::model::hits_veteran;
use crate::model::issue_post;
use crate::model::lb_value;
use crate::model::milestones_hit;
use crate::model::milestones_post;
use crate::model::outranking;
use crate::model::rank_of;
use crate::model::recomputed;
use crate::model::records_of;
use crate::model::scored;
use crate::model::score_update_post;
use crate::model::transfer_post;
use crate::model::RegistryView;
use crate::types::Metadata;
use crate::types::Principal;
use crate::types::TokenId;

verus! {

/// A freshly created registry is consistent.
pub proof fn lemma_empty_registry_consistent()
    ensures
        consistent(empty_registry()),
{
    let s = empty_registry();
    assert(forall|p: Principal| records_of(s, p) =~= Seq::<TokenId>::empty());
}

/// The administrator bypass: the administrator always passes the minter
/// gate, even when absent from the minter roster, and a caller that is
/// neither administrator nor minter never does.
pub proof fn lemma_admin_bypass(s: RegistryView, caller: Principal)
    ensures
        s.admin == Some(caller) ==> can_mint(s, caller),
        s.admin != Some(caller) && !s.minters.contains(caller) ==> !can_mint(s, caller),
{
}

/// Record pairing: in a consistent state, a record has an owner entry
/// exactly when it has a metadata entry.
pub proof fn lemma_record_pairing(s: RegistryView)
    requires
        consistent(s),
    ensures
        forall|id: TokenId|
            #![trigger s.owners.contains_key(id)]
            #![trigger s.metadata.contains_key(id)]
            s.owners.contains_key(id) <==> s.metadata.contains_key(id),
{
}

/// Two states with the same index table attribute the same records.
proof fn lemma_records_of_same(s1: RegistryView, s2: RegistryView)
    requires
        s1.achievements == s2.achievements,
    ensures
        forall|p: Principal| records_of(s1, p) == records_of(s2, p),
{
}

/// A state that shares the ownership, metadata and index views of a
/// consistent one, and whose leaderboard domain is finite, is consistent
/// too.
proof fn lemma_consistent_same_core(s1: RegistryView, s2: RegistryView)
    requires
        consistent(s1),
        s2.owners == s1.owners,
        s2.metadata == s1.metadata,
        s2.achievements == s1.achievements,
        s2.leaderboard.dom().finite(),
    ensures
        consistent(s2),
{
    lemma_records_of_same(s1, s2);
    assert forall|id: TokenId| #[trigger]
        s2.owners.contains_key(id) implies records_of(s2, s2.owners[id]).contains(id) by {
        assert(records_of(s1, s1.owners[id]).contains(id));
    }
    assert forall|p: Principal, id: TokenId| #[trigger]
        records_of(s2, p).contains(id) implies s2.owners.contains_key(id) && s2.owners[id]
        == p by {
        assert(records_of(s1, p).contains(id));
    }
    assert forall|p: Principal| distinct_seq(#[trigger] records_of(s2, p)) by {
        assert(distinct_seq(records_of(s1, p)));
    }
}

/// Recomputing a leaderboard entry preserves consistency.
pub proof fn lemma_recomputed_consistent(s: RegistryView, p: Principal)
    requires
        consistent(s),
    ensures
        consistent(recomputed(s, p)),
{
    lemma_consistent_same_core(s, recomputed(s, p));
}

/// Overwriting a reputation row preserves consistency.
pub proof fn lemma_scored_consistent(
    s: RegistryView,
    user: Principal,
    rating_average: u32,
    total_ratings: u32,
    now: u64,
)
    requires
        consistent(s),
    ensures
        consistent(scored(s, user, rating_average, total_ratings, now)),
{
    lemma_consistent_same_core(s, scored(s, user, rating_average, total_ratings, now));
}

/// Issuing a record under a fresh identifier preserves consistency: the
/// owner and metadata entries appear as a pair and the record lands exactly
/// once, at the end of its owner's index list.
pub proof fn lemma_issue_post_consistent(s: RegistryView, id: TokenId, owner: Principal, m: Metadata)
    requires
        consistent(s),
        !s.owners.contains_key(id),
    ensures
        consistent(issue_post(s, id, owner, m)),
        records_of(issue_post(s, id, owner, m), owner) == records_of(s, owner).push(id),
{
    let p = issue_post(s, id, owner, m);
    let base = records_of(s, owner);
    assert(records_of(p, owner) == base.push(id));
    assert(forall|q: Principal| q != owner ==> records_of(p, q) == records_of(s, q));
    assert(!base.contains(id)) by {
        if records_of(s, owner).contains(id) {
            assert(s.owners.contains_key(id));
        }
    }
    lemma_distinct_seq_push(base, id);
    assert forall|tid: TokenId| #[trigger]
        p.owners.contains_key(tid) implies records_of(p, p.owners[tid]).contains(tid) by {
        if tid == id {
            lemma_contains_push(base, id, tid);
        } else {
            assert(s.owners.contains_key(tid));
            let q = s.owners[tid];
            assert(records_of(s, q).contains(tid));
            if q == owner {
                lemma_contains_push(base, id, tid);
            }
        }
    }
    assert forall|q: Principal, tid: TokenId| #[trigger]
        records_of(p, q).contains(tid) implies p.owners.contains_key(tid) && p.owners[tid]
        == q by {
        if q == owner {
            lemma_contains_push(base, id, tid);
            if tid != id {
                assert(records_of(s, owner).contains(tid));
            }
        } else {
            assert(records_of(s, q).contains(tid));
        }
    }
    assert forall|q: Principal| distinct_seq(#[trigger] records_of(p, q)) by {
        if q != owner {
            assert(distinct_seq(records_of(s, q)));
        }
    }
    assert forall|tid: TokenId|
        #![trigger p.owners.contains_key(tid)]
        #![trigger p.metadata.contains_key(tid)]
        p.owners.contains_key(tid) <==> p.metadata.contains_key(tid) by {
        assert(s.owners.contains_key(tid) <==> s.metadata.contains_key(tid));
    }
}

/// Issuing under the next counter value preserves consistency when that
/// identifier is unoccupied.
pub proof fn lemma_auto_issue_post_consistent(s: RegistryView, owner: Principal, m: Metadata)
    requires
        consistent(s),
        !s.owners.contains_key(((s.last_id + 1) as u64)),
    ensures
        consistent(auto_issue_post(s, owner, m)),
{
    let id = ((s.last_id + 1) as u64);
    let bumped = RegistryView { last_id: id, ..s };
    lemma_consistent_same_core(s, bumped);
    lemma_issue_post_consistent(bumped, id, owner, m);
    lemma_consistent_same_core(issue_post(bumped, id, owner, m), auto_issue_post(s, owner, m));
}

/// A successful transfer preserves consistency and keeps the index exact:
/// the record leaves the old owner's list entirely and appears exactly once
/// in the new owner's list.
pub proof fn lemma_transfer_post_consistent(s: RegistryView, from: Principal, to: Principal, id: TokenId)
    requires
        consistent(s),
        s.owners.contains_key(id),
        s.owners[id] == from,
    ensures
        consistent(transfer_post(s, from, to, id)),
        records_of(transfer_post(s, from, to, id), to).contains(id),
        distinct_seq(records_of(transfer_post(s, from, to, id), to)),
        from != to ==> !records_of(transfer_post(s, from, to, id), from).contains(id),
{
    let t = transfer_post(s, from, to, id);
    let base_from = records_of(s, from);
    assert(records_of(s, from).contains(id));
    assert(s.achievements.contains_key(from));
    lemma_seq_without_props(base_from, id);
    let lt = if to == from {
        seq_without(base_from, id)
    } else {
        records_of(s, to)
    };
    assert(t.owners == s.owners.insert(id, to));
    assert(t.metadata == s.metadata);
    assert(records_of(t, to) == lt.push(id));
    assert(from != to ==> records_of(t, from) == seq_without(base_from, id));
    assert(forall|q: Principal|
        q != from && q != to ==> records_of(t, q) == records_of(s, q));
    assert(!lt.contains(id)) by {
        if to != from && records_of(s, to).contains(id) {
            assert(s.owners[id] == to);
        }
    }
    lemma_contains_push(lt, id, id);
    assert(records_of(t, to).contains(id));
    assert(distinct_seq(lt)) by {
        if to != from {
            assert(distinct_seq(records_of(s, to)));
        }
    }
    lemma_distinct_seq_push(lt, id);
    assert forall|tid: TokenId| #[trigger]
        t.owners.contains_key(tid) implies records_of(t, t.owners[tid]).contains(tid) by {
        if tid == id {
        } else {
            assert(s.owners.contains_key(tid));
            let q = s.owners[tid];
            assert(records_of(s, q).contains(tid));
            assert(t.owners[tid] == q);
            if q == to {
                lemma_contains_push(lt, id, tid);
                if to != from {
                    assert(lt.contains(tid));
                }
            } else if q == from {
                assert(seq_without(base_from, id).contains(tid));
            }
        }
    }
    assert forall|q: Principal, tid: TokenId| #[trigger]
        records_of(t, q).contains(tid) implies t.owners.contains_key(tid) && t.owners[tid]
        == q by {
        if q == to {
            lemma_contains_push(lt, id, tid);
            if tid != id {
                assert(lt.contains(tid));
                if to == from {
                    assert(base_from.contains(tid));
                    assert(records_of(s, from).contains(tid));
                } else {
                    assert(records_of(s, to).contains(tid));
                }
                assert(s.owners[tid] == q);
            }
        } else if q == from {
            assert(seq_without(base_from, id).contains(tid));
            assert(records_of(s, from).contains(tid));
            assert(tid != id);
        } else {
            assert(records_of(s, q).contains(tid));
            assert(tid != id);
        }
    }
    assert forall|q: Principal| distinct_seq(#[trigger] records_of(t, q)) by {
        if q == to {
        } else if q == from {
        } else {
            assert(distinct_seq(records_of(s, q)));
        }
    }
    assert forall|tid: TokenId|
        #![trigger t.owners.contains_key(tid)]
        #![trigger t.metadata.contains_key(tid)]
        t.owners.contains_key(tid) <==> t.metadata.contains_key(tid) by {
        assert(s.owners.contains_key(tid) <==> s.metadata.contains_key(tid));
    }
}

/// Destroying a record preserves consistency and cleans the index: both
/// entries disappear as a pair and no index list keeps any occurrence of
/// the destroyed identifier.
pub proof fn lemma_burn_post_consistent(s: RegistryView, id: TokenId)
    requires
        consistent(s),
        s.owners.contains_key(id),
    ensures
        consistent(burn_post(s, id)),
        !burn_post(s, id).owners.contains_key(id),
        !burn_post(s, id).metadata.contains_key(id),
        forall|p: Principal| !records_of(burn_post(s, id), p).contains(id),
{
    let b = burn_post(s, id);
    let owner = s.owners[id];
    let base = records_of(s, owner);
    assert(records_of(s, owner).contains(id));
    assert(s.achievements.contains_key(owner));
    lemma_seq_without_props(base, id);
    assert(records_of(b, owner) == seq_without(base, id));
    assert(forall|q: Principal| q != owner ==> records_of(b, q) == records_of(s, q));
    assert forall|p: Principal| !(#[trigger] records_of(b, p).contains(id)) by {
        if p != owner && records_of(s, p).contains(id) {
            assert(s.owners[id] == p);
        }
    }
    assert forall|tid: TokenId| #[trigger]
        b.owners.contains_key(tid) implies records_of(b, b.owners[tid]).contains(tid) by {
        assert(s.owners.contains_key(tid));
        let q = s.owners[tid];
        assert(records_of(s, q).contains(tid));
        assert(tid != id);
    }
    assert forall|q: Principal, tid: TokenId| #[trigger]
        records_of(b, q).contains(tid) implies b.owners.contains_key(tid) && b.owners[tid]
        == q by {
        if q == owner {
            assert(seq_without(base, id).contains(tid));
            assert(records_of(s, owner).contains(tid));
        } else {
            assert(records_of(s, q).contains(tid));
        }
        assert(tid != id);
    }
    assert forall|q: Principal| distinct_seq(#[trigger] records_of(b, q)) by {
        if q != owner {
            assert(distinct_seq(records_of(s, q)));
        }
    }
    assert forall|tid: TokenId|
        #![trigger b.owners.contains_key(tid)]
        #![trigger b.metadata.contains_key(tid)]
        b.owners.contains_key(tid) <==> b.metadata.contains_key(tid) by {
        assert(s.owners.contains_key(tid) <==> s.metadata.contains_key(tid));
    }
}

/// A score update preserves consistency when the identifiers it may assign
/// — one past the counter, one per threshold rule that fires — are
/// unoccupied.
pub proof fn lemma_score_update_post_consistent(
    s: RegistryView,
    user: Principal,
    rating_average: u32,
    total_ratings: u32,
    now: u64,
    m1: Metadata,
    m2: Metadata,
    m3: Metadata,
)
    requires
        consistent(s),
        s.last_id + milestones_hit(rating_average, total_ratings) <= u64::MAX,
        forall|k: int|
            s.last_id < k <= s.last_id + milestones_hit(rating_average, total_ratings)
                ==> !s.owners.contains_key(#[trigger] (k as u64)),
    ensures
        consistent(score_update_post(s, user, rating_average, total_ratings, now, m1, m2, m3)),
{
    let hit = milestones_hit(rating_average, total_ratings);
    let s0 = scored(s, user, rating_average, total_ratings, now);
    lemma_scored_consistent(s, user, rating_average, total_ratings, now);
    let s1 = if hits_ten_excellent(rating_average, total_ratings) {
        auto_issue_post(s0, user, m1)
    } else {
        s0
    };
    if hits_ten_excellent(rating_average, total_ratings) {
        assert(!s0.owners.contains_key(((s0.last_id + 1) as u64)));
        lemma_auto_issue_post_consistent(s0, user, m1);
        assert(s1.owners == s0.owners.insert(((s0.last_id + 1) as u64), user));
    }
    let s2 = if hits_top_rated(rating_average, total_ratings) {
        auto_issue_post(s1, user, m2)
    } else {
        s1
    };
    if hits_top_rated(rating_average, total_ratings) {
        assert(!s1.owners.contains_key(((s1.last_id + 1) as u64)));
        lemma_auto_issue_post_consistent(s1, user, m2);
        assert(s2.owners == s1.owners.insert(((s1.last_id + 1) as u64), user));
    }
    let s3 = if hits_veteran(rating_average, total_ratings) {
        auto_issue_post(s2, user, m3)
    } else {
        s2
    };
    if hits_veteran(rating_average, total_ratings) {
        assert(!s2.owners.contains_key(((s2.last_id + 1) as u64)));
        lemma_auto_issue_post_consistent(s2, user, m3);
    }
    lemma_recomputed_consistent(s3, user);
    assert(score_update_post(s, user, rating_average, total_ratings, now, m1, m2, m3)
        == recomputed(milestones_post(s0, user, rating_average, total_ratings, m1, m2, m3), user));
}

/// A batch issuance preserves consistency when the identifiers it will
/// assign — the next `tos.len()` counter values — are unoccupied; the
/// counter ends exactly `tos.len()` past where it started, and precisely
/// the assigned identifiers join the ownership table.
pub proof fn lemma_batch_issue_post_consistent(
    s: RegistryView,
    tos: Seq<Principal>,
    names: Seq<String>,
    descriptions: Seq<String>,
    uris: Seq<String>,
)
    requires
        consistent(s),
        s.last_id + tos.len() <= u64::MAX,
        forall|k: int|
            s.last_id < k <= s.last_id + tos.len() ==> !s.owners.contains_key(
                #[trigger] (k as u64),
            ),
    ensures
        consistent(batch_issue_post(s, tos, names, descriptions, uris)),
        batch_issue_post(s, tos, names, descriptions, uris).last_id == s.last_id + tos.len(),
        forall|tid: TokenId| #[trigger]
            batch_issue_post(s, tos, names, descriptions, uris).owners.contains_key(tid)
                <==> (s.owners.contains_key(tid) || s.last_id < tid <= s.last_id + tos.len()),
    decreases tos.len(),
{
    if tos.len() == 0 {
    } else {
        let k = tos.len() - 1;
        lemma_batch_issue_post_consistent(
            s,
            tos.take(k as int),
            names.take(k as int),
            descriptions.take(k as int),
            uris.take(k as int),
        );
        let b = batch_issue_post(
            s,
            tos.take(k as int),
            names.take(k as int),
            descriptions.take(k as int),
            uris.take(k as int),
        );
        let id = ((b.last_id + 1) as u64);
        assert(id == s.last_id + tos.len());
        assert(!b.owners.contains_key(id));
        let m = Metadata {
            name: names[k as int],
            description: descriptions[k as int],
            uri: uris[k as int],
            achievement_type: crate::types::AchievementType::Standard,
        };
        lemma_auto_issue_post_consistent(b, tos[k as int], m);
        assert(auto_issue_post(b, tos[k as int], m).owners == b.owners.insert(id, tos[k as int]));
    }
}

/// Auto-assigned identifiers strictly increase and never repeat: an
/// issuance in state `s` assigns exactly `s.last_id + 1` and leaves the
/// counter at that value, so an issuance in any state whose counter is no
/// older assigns a strictly greater identifier.
pub proof fn lemma_auto_ids_strictly_increase(
    s: RegistryView,
    t: RegistryView,
    owner_s: Principal,
    owner_t: Principal,
    m_s: Metadata,
    m_t: Metadata,
)
    requires
        s.last_id < u64::MAX,
        t.last_id < u64::MAX,
        auto_issue_post(s, owner_s, m_s).last_id <= t.last_id,
    ensures
        auto_issue_post(s, owner_s, m_s).owners.contains_key(((s.last_id + 1) as u64)),
        auto_issue_post(s, owner_s, m_s).last_id == s.last_id + 1,
        ((t.last_id + 1) as u64) > ((s.last_id + 1) as u64),
{
}

/// No operation ever lowers the identifier counter, so the identifier
/// assigned by a later auto-issuance exceeds every earlier one.
pub proof fn lemma_counter_never_decreases(
    s: RegistryView,
    id: TokenId,
    p: Principal,
    q: Principal,
    m: Metadata,
    rating_average: u32,
    total_ratings: u32,
    now: u64,
)
    requires
        s.last_id < u64::MAX,
    ensures
        issue_post(s, id, p, m).last_id == s.last_id,
        auto_issue_post(s, p, m).last_id == s.last_id + 1,
        transfer_post(s, p, q, id).last_id == s.last_id,
        burn_post(s, id).last_id == s.last_id,
        scored(s, p, rating_average, total_ratings, now).last_id == s.last_id,
        recomputed(s, p).last_id == s.last_id,
{
}

/// Rank ordering, strict part: a strictly larger leaderboard value gives a
/// strictly smaller (better) rank.
pub proof fn lemma_rank_strict(s: RegistryView, a: Principal, b: Principal)
    requires
        s.leaderboard.dom().finite(),
        lb_value(s, a) > lb_value(s, b),
    ensures
        rank_of(s, a) < rank_of(s, b),
{
    let oa = outranking(s, a);
    let ob = outranking(s, b);
    assert forall|x: Principal| oa.contains(x) implies ob.contains(x) by {
        assert(s.leaderboard.dom().contains(x));
        assert(s.leaderboard[x] > lb_value(s, a));
    }
    assert(s.leaderboard.dom().contains(a));
    assert(ob.contains(a));
    assert(!oa.contains(a));
    assert(ob.finite());
    oa.lemma_subset_not_in_lt(ob, a);
}

/// Rank ordering, tie part: equal leaderboard values share a rank.
pub proof fn lemma_rank_ties(s: RegistryView, a: Principal, b: Principal)
    requires
        lb_value(s, a) == lb_value(s, b),
    ensures
        rank_of(s, a) == rank_of(s, b),
{
    assert(outranking(s, a) =~= outranking(s, b));
}

} // verus!
