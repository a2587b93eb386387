//! What holds of the escrow whatever is done with it: each operation keeps a
//! campaign well formed, and the properties that the backers rely on follow.

use crate::escrow::model::{
    all_positive, new_campaign, new_milestone, sum_amounts, sum_given, sum_requested,
};
use crate::escrow::types::{
    CampaignStatus, CampaignView, ContractError, ContractView, MilestoneSpecView, MilestoneStatus,
    MilestoneView, VerificationStatus,
};
use crate::math::fee_of;
use vstd::prelude::*;

verus! {

/// Two schedules that ask for the same amounts up to `n` sum to the same.
pub proof fn lemma_sum_amounts_agree(a: Seq<MilestoneView>, b: Seq<MilestoneView>, n: int)
    requires
        n <= a.len(),
        n <= b.len(),
        forall|i: int| 0 <= i < n ==> (#[trigger] a[i]).amount == (#[trigger] b[i]).amount,
    ensures
        sum_amounts(a, n) == sum_amounts(b, n),
    decreases n,
{
    if n > 0 {
        lemma_sum_amounts_agree(a, b, n - 1);
    }
}

/// A schedule of positive amounts sums to more, the more of it is summed.
pub proof fn lemma_sum_amounts_grows(ms: Seq<MilestoneView>, i: int, j: int)
    requires
        0 <= i <= j <= ms.len(),
        forall|k: int| 0 <= k < ms.len() ==> (#[trigger] ms[k]).amount > 0,
    ensures
        0 <= sum_amounts(ms, i) <= sum_amounts(ms, j),
        i < j ==> sum_amounts(ms, i) < sum_amounts(ms, j),
    decreases j,
{
    if i < j {
        lemma_sum_amounts_grows(ms, i, j - 1);
    } else if i > 0 {
        lemma_sum_amounts_grows(ms, i - 1, i - 1);
    }
}

/// Requests of positive amounts sum to more, the more of them are summed.
pub proof fn lemma_sum_requested_grows(specs: Seq<MilestoneSpecView>, i: int, j: int)
    requires
        0 <= i <= j <= specs.len(),
        forall|k: int| 0 <= k < j ==> (#[trigger] specs[k]).amount > 0,
    ensures
        0 <= sum_requested(specs, i) <= sum_requested(specs, j),
        i < j ==> sum_requested(specs, i) < sum_requested(specs, j),
    decreases j,
{
    if i < j {
        lemma_sum_requested_grows(specs, i, j - 1);
    } else if i > 0 {
        lemma_sum_requested_grows(specs, i - 1, i - 1);
    }
}

/// The milestones of a new campaign ask for what was requested.
pub proof fn lemma_new_milestones_sum(specs: Seq<MilestoneSpecView>, n: int)
    requires
        0 <= n <= specs.len(),
    ensures
        sum_amounts(Seq::new(specs.len(), |i: int| new_milestone(i, specs[i])), n) == sum_requested(
            specs,
            n,
        ),
    decreases n,
{
    if n > 0 {
        lemma_new_milestones_sum(specs, n - 1);
    }
}

/// A campaign is created well formed, with milestones that sum to its goal:
/// whoever asks for at least one milestone, for positive amounts only, and
/// for the goal in all, gets such a campaign.
pub proof fn lemma_new_campaign_wf(
    id: nat,
    creator: Seq<char>,
    title: Seq<char>,
    description: Seq<char>,
    ipfs_metadata: Seq<u8>,
    total_goal: int,
    specs: Seq<MilestoneSpecView>,
    token_address: Seq<char>,
    now: nat,
)
    requires
        specs.len() >= 1,
        all_positive(specs),
        sum_requested(specs, specs.len() as int) == total_goal,
    ensures
        new_campaign(
            id,
            creator,
            title,
            description,
            ipfs_metadata,
            total_goal,
            specs,
            token_address,
            now,
        ).wf(),
        sum_amounts(
            new_campaign(
                id,
                creator,
                title,
                description,
                ipfs_metadata,
                total_goal,
                specs,
                token_address,
                now,
            ).milestones,
            specs.len() as int,
        ) == total_goal,
{
    let c = new_campaign(
        id,
        creator,
        title,
        description,
        ipfs_metadata,
        total_goal,
        specs,
        token_address,
        now,
    );
    lemma_new_milestones_sum(specs, specs.len() as int);
    lemma_sum_requested_grows(specs, 0, specs.len() as int);
    assert(sum_amounts(c.milestones, 0) == 0);
    assert forall|i: int| 0 <= i < c.milestones.len() implies (#[trigger] c.milestones[i]).wf(i) by {
        assert(specs[i].amount > 0);
    }
}

/// The goal of a campaign is the sum of what its milestones ask for.
pub proof fn lemma_goal_is_sum_of_milestones(c: CampaignView)
    requires
        c.wf(),
    ensures
        sum_amounts(c.milestones, c.milestones.len() as int) == c.total_goal,
{
}

/// Unless the backers were refunded, what is locked is what was raised and
/// not yet released; and none of the three is negative.
pub proof fn lemma_locked_is_raised_less_released(c: CampaignView)
    requires
        c.wf(),
        c.status != CampaignStatus::Failed,
    ensures
        c.funds_locked == c.funds_raised - c.funds_released,
        c.funds_locked >= 0,
        c.funds_raised >= 0,
        c.funds_released >= 0,
{
}

/// Two books that agree on the first `n` of `order` give the same sum.
pub proof fn lemma_sum_given_agrees(
    a: Map<Seq<char>, int>,
    b: Map<Seq<char>, int>,
    order: Seq<Seq<char>>,
    n: int,
)
    requires
        n <= order.len(),
        forall|i: int| 0 <= i < n ==> a[#[trigger] order[i]] == b[order[i]],
    ensures
        sum_given(a, order, n) == sum_given(b, order, n),
    decreases n,
{
    if n > 0 {
        lemma_sum_given_agrees(a, b, order, n - 1);
    }
}

/// The sum over the first `n` of `order` does not depend on what follows
/// them.
pub proof fn lemma_sum_given_prefix(
    backers: Map<Seq<char>, int>,
    order: Seq<Seq<char>>,
    more: Seq<Seq<char>>,
    n: int,
)
    requires
        0 <= n <= order.len(),
        order.len() <= more.len(),
        forall|i: int| 0 <= i < order.len() ==> #[trigger] more[i] == order[i],
    ensures
        sum_given(backers, more, n) == sum_given(backers, order, n),
    decreases n,
{
    if n > 0 {
        lemma_sum_given_prefix(backers, order, more, n - 1);
    }
}

/// Where everybody listed gave something, the sum grows with the number of
/// those summed.
pub proof fn lemma_sum_given_grows(
    backers: Map<Seq<char>, int>,
    order: Seq<Seq<char>>,
    i: int,
    j: int,
)
    requires
        0 <= i <= j <= order.len(),
        forall|k: int| 0 <= k < order.len() ==> backers[#[trigger] order[k]] > 0,
    ensures
        0 <= sum_given(backers, order, i) <= sum_given(backers, order, j),
    decreases j,
{
    if i < j {
        lemma_sum_given_grows(backers, order, i, j - 1);
    } else if i > 0 {
        lemma_sum_given_grows(backers, order, i - 1, i - 1);
    }
}

/// Where one backer, listed once, is given `amount` more, the sum over the
/// first `n` grows by `amount` if the backer is among them, and stays as it
/// is if not.
pub proof fn lemma_sum_given_raise(
    backers: Map<Seq<char>, int>,
    order: Seq<Seq<char>>,
    j: int,
    amount: int,
    n: int,
)
    requires
        0 <= j < order.len(),
        0 <= n <= order.len(),
        order.no_duplicates(),
    ensures
        sum_given(backers.insert(order[j], backers[order[j]] + amount), order, n) == sum_given(
            backers,
            order,
            n,
        ) + (if j < n {
            amount
        } else {
            0
        }),
    decreases n,
{
    if n > 0 {
        lemma_sum_given_raise(backers, order, j, amount, n - 1);
        if n - 1 != j {
            assert(order[n - 1] != order[j]);
        }
    }
}

/// Funding keeps a campaign well formed, and never takes it past its goal.
pub proof fn lemma_fund_keeps_wf(c: CampaignView, backer: Seq<char>, amount: int, now: nat)
    requires
        c.wf(),
        amount > 0,
        c.fund_error(amount) is None,
    ensures
        c.after_fund(backer, amount, now).wf(),
        c.after_fund(backer, amount, now).funds_raised == c.funds_raised + amount,
        c.after_fund(backer, amount, now).funds_raised <= c.total_goal,
{
    let d = c.after_fund(backer, amount, now);
    assert(d.milestones == c.milestones);
    assert(d.paid_out() == c.paid_out());
    assert forall|k: Seq<char>| #[trigger] d.backers.contains_key(k) implies 0 < d.backers[k]
        <= d.funds_raised by {
        if k != backer {
            assert(c.backers.contains_key(k));
        } else if c.backers.contains_key(backer) {
        }
    }
    let n = c.backer_order.len() as int;
    if c.backers.contains_key(backer) {
        assert(c.backer_order.contains(backer));
        let j = choose|j: int| 0 <= j < n && c.backer_order[j] == backer;
        lemma_sum_given_raise(c.backers, c.backer_order, j, amount, n);
        assert forall|k: Seq<char>| #[trigger] d.backers.contains_key(k) implies d.backer_order.contains(
            k,
        ) by {
            if k != backer {
                assert(c.backers.contains_key(k));
            }
        }
    } else {
        assert forall|i: int| 0 <= i < n implies c.backers[#[trigger] c.backer_order[i]]
            == d.backers[c.backer_order[i]] by {
            assert(c.backers.contains_key(c.backer_order[i]));
        }
        lemma_sum_given_agrees(c.backers, d.backers, c.backer_order, n);
        lemma_sum_given_prefix(d.backers, c.backer_order, d.backer_order, n);
        assert(d.backer_order[n] == backer);
        assert(d.backer_order.no_duplicates()) by {
            assert forall|a: int, b: int|
                0 <= a < d.backer_order.len() && 0 <= b < d.backer_order.len() && a
                    != b implies d.backer_order[a] != d.backer_order[b] by {
                if a < n {
                    assert(c.backers.contains_key(c.backer_order[a]));
                }
                if b < n {
                    assert(c.backers.contains_key(c.backer_order[b]));
                }
            }
        }
        assert forall|i: int| 0 <= i < d.backer_order.len() implies d.backers.contains_key(
            #[trigger] d.backer_order[i],
        ) by {
            if i < n {
                assert(c.backers.contains_key(c.backer_order[i]));
            }
        }
        assert forall|k: Seq<char>| #[trigger] d.backers.contains_key(k) implies d.backer_order.contains(
            k,
        ) by {
            if k != backer {
                assert(c.backers.contains_key(k));
                let i = choose|i: int| 0 <= i < n && c.backer_order[i] == k;
                assert(d.backer_order[i] == k);
            } else {
                assert(d.backer_order[n] == k);
            }
        }
    }
}

/// While a campaign is active or funded, what its backers gave adds up to
/// what was raised, and the count of backers is the number of backers.
pub proof fn lemma_contributions_add_up(c: CampaignView)
    requires
        c.wf(),
        c.takes_or_holds_funds(),
    ensures
        sum_given(c.backers, c.backer_order, c.backer_order.len() as int) == c.funds_raised,
        c.backer_count == c.backer_order.len(),
        c.backer_order.no_duplicates(),
{
}

/// Only the current milestone can be released.
pub proof fn lemma_release_is_of_current(c: CampaignView, id: nat)
    requires
        c.wf(),
        c.release_error(id) is None,
    ensures
        id == c.current_milestone,
{
    let i = id as int;
    let cur = c.current_milestone as int;
    if i < cur {
        assert(c.milestones[i].status == MilestoneStatus::Released);
    } else if i > cur {
        assert(c.milestones[i].status == MilestoneStatus::Pending);
        assert(c.milestones[i].wf(i));
    }
}

/// A release keeps a campaign well formed.
pub proof fn lemma_release_keeps_wf(c: CampaignView, id: nat, now: nat)
    requires
        c.wf(),
        c.release_error(id) is None,
    ensures
        c.after_release(id, now).wf(),
{
    lemma_release_is_of_current(c, id);
    let d = c.after_release(id, now);
    let n = c.milestones.len() as int;
    let i = id as int;
    assert(d.milestones.len() == n);
    assert forall|k: int| 0 <= k < n implies (#[trigger] d.milestones[k]).amount
        == c.milestones[k].amount by {}
    assert forall|k: int| 0 <= k < n implies (#[trigger] d.milestones[k]).wf(k) by {
        assert(c.milestones[k].wf(k));
        if k == i + 1 {
            assert(c.milestones[k].status == MilestoneStatus::Pending);
        }
    }
    lemma_sum_amounts_agree(d.milestones, c.milestones, n);
    lemma_sum_amounts_agree(d.milestones, c.milestones, i);
    assert(c.milestones[i].wf(i));
    if i + 1 < n {
        assert(d.current_milestone == i + 1);
        lemma_sum_amounts_agree(d.milestones, c.milestones, i + 1);
        assert(sum_amounts(c.milestones, i + 1) == sum_amounts(c.milestones, i)
            + c.milestones[i].amount);
        assert(c.milestones[i + 1].status == MilestoneStatus::Pending);
        assert forall|k: int| 0 <= k < i + 1 implies (#[trigger] d.milestones[k]).status
            == MilestoneStatus::Released by {
            if k < i {
                assert(c.milestones[k].status == MilestoneStatus::Released);
            }
        }
        assert forall|k: int| i + 1 < k < n implies (#[trigger] d.milestones[k]).status
            == MilestoneStatus::Pending by {
            assert(c.milestones[k].status == MilestoneStatus::Pending);
        }
    } else {
        assert forall|k: int| 0 <= k < i implies (#[trigger] d.milestones[k]).status
            == MilestoneStatus::Released by {
            assert(c.milestones[k].status == MilestoneStatus::Released);
        }
    }
    assert forall|k: Seq<char>| #[trigger] d.backers.contains_key(k) implies 0 < d.backers[k]
        <= d.funds_raised by {
        assert(c.backers.contains_key(k));
    }
}

/// After a release, a second release of the same milestone is refused as
/// already released.
pub proof fn lemma_no_double_release(c: CampaignView, id: nat, now: nat)
    requires
        c.wf(),
        c.release_error(id) is None,
    ensures
        c.after_release(id, now).release_error(id) == Some(
            ContractError::MilestoneAlreadyReleased,
        ),
{
}

/// The fee and the creator's share of a released amount make up the amount,
/// and neither is negative, whenever the fee rate is at most the whole.
pub proof fn lemma_fee_splits_amount(amount: int, bps: nat)
    requires
        amount >= 0,
        bps <= 10000,
    ensures
        0 <= fee_of(amount, bps) <= amount,
        fee_of(amount, bps) + (amount - fee_of(amount, bps)) == amount,
{
    assert(0 <= amount * bps <= amount * 10000) by (nonlinear_arith)
        requires
            amount >= 0,
            0 <= bps <= 10000,
    ;
}

/// A refund keeps a campaign well formed, whatever its status was: it is
/// failed afterwards, with nothing locked and no backer left.
pub proof fn lemma_refund_keeps_wf(c: CampaignView)
    requires
        c.wf(),
    ensures
        c.after_refund().wf(),
        c.after_refund().status == CampaignStatus::Failed,
        c.after_refund().funds_locked == 0,
        c.after_refund().backers == Map::<Seq<char>, int>::empty(),
{
    let d = c.after_refund();
    assert(d.milestones == c.milestones);
    assert(d.paid_out() == c.paid_out());
}

/// Handing in a proof keeps a campaign well formed.
pub proof fn lemma_proof_keeps_wf(
    c: CampaignView,
    id: nat,
    creator: Seq<char>,
    proof: Seq<u8>,
    now: nat,
)
    requires
        c.wf(),
        proof.len() == 32,
        c.proof_error(id, creator) is None,
    ensures
        c.after_proof(id, proof, now).wf(),
{
    let d = c.after_proof(id, proof, now);
    lemma_step_on_current_keeps_wf(c, d, id);
}

/// Recording a verdict keeps a campaign well formed.
pub proof fn lemma_verdict_keeps_wf(
    c: CampaignView,
    id: nat,
    verdict: VerificationStatus,
    confidence: nat,
    now: nat,
)
    requires
        c.wf(),
        c.verdict_error(id) is None,
    ensures
        c.after_verdict(id, verdict, confidence, now).wf(),
{
    let d = c.after_verdict(id, verdict, confidence, now);
    lemma_step_on_current_keeps_wf(c, d, id);
}

/// A vote keeps a campaign well formed.
pub proof fn lemma_vote_keeps_wf_of_campaign(c: CampaignView, id: nat, voter: Seq<char>, approve: bool)
    requires
        c.wf(),
        c.vote_error(id, voter) is None,
    ensures
        c.after_vote(id, voter, approve).wf(),
{
    let d = c.after_vote(id, voter, approve);
    lemma_step_on_current_keeps_wf(c, d, id);
}

/// A step that changes one milestone only, which was neither pending nor
/// released and is neither afterwards, and keeps what it asks for, keeps
/// the campaign well formed.
proof fn lemma_step_on_current_keeps_wf(c: CampaignView, d: CampaignView, id: nat)
    requires
        c.wf(),
        id < c.milestones.len(),
        d == (CampaignView { milestones: c.milestones.update(id as int, d.milestones[id as int]), ..c }),
        d.milestones.len() == c.milestones.len(),
        d.milestones[id as int].id == c.milestones[id as int].id,
        d.milestones[id as int].amount == c.milestones[id as int].amount,
        d.milestones[id as int].ipfs_proof.len() == 32,
        c.milestones[id as int].status != MilestoneStatus::Pending,
        c.milestones[id as int].status != MilestoneStatus::Released,
        d.milestones[id as int].status != MilestoneStatus::Pending,
        d.milestones[id as int].status != MilestoneStatus::Released,
    ensures
        d.wf(),
        id == c.current_milestone,
{
    let n = c.milestones.len() as int;
    let i = id as int;
    let cur = c.current_milestone as int;
    if i < cur {
        assert(c.milestones[i].status == MilestoneStatus::Released);
    } else if i > cur {
        assert(c.milestones[i].status == MilestoneStatus::Pending);
    }
    assert forall|k: int| 0 <= k < n implies (#[trigger] d.milestones[k]).amount
        == c.milestones[k].amount by {}
    assert forall|k: int| 0 <= k < n implies (#[trigger] d.milestones[k]).wf(k) by {
        assert(c.milestones[k].wf(k));
    }
    lemma_sum_amounts_agree(d.milestones, c.milestones, n);
    lemma_sum_amounts_agree(d.milestones, c.milestones, cur);
    assert forall|k: int| 0 <= k < cur implies (#[trigger] d.milestones[k]).status
        == MilestoneStatus::Released by {
        assert(c.milestones[k].status == MilestoneStatus::Released);
    }
    assert forall|k: int| cur < k < n implies (#[trigger] d.milestones[k]).status
        == MilestoneStatus::Pending by {
        assert(c.milestones[k].status == MilestoneStatus::Pending);
    }
    assert forall|k: Seq<char>| #[trigger] d.backers.contains_key(k) implies 0 < d.backers[k]
        <= d.funds_raised by {
        assert(c.backers.contains_key(k));
    }
}

/// Once every milestone is released, everything raised was released, and
/// the goal was reached.
pub proof fn lemma_all_released_pays_goal(c: CampaignView)
    requires
        c.wf(),
        c.all_released(),
    ensures
        c.funds_released == c.total_goal,
        c.funds_raised == c.total_goal,
        c.current_milestone + 1 == c.milestones.len(),
{
    let n = c.milestones.len() as int;
    let cur = c.current_milestone as int;
    if cur + 1 < n {
        assert(c.milestones[cur + 1].status == MilestoneStatus::Pending);
        assert(c.milestones[cur + 1].status == MilestoneStatus::Released);
    }
    assert(c.milestones[cur].status == MilestoneStatus::Released);
    assert(sum_amounts(c.milestones, n) == sum_amounts(c.milestones, cur) + c.milestones[cur].amount);
}

/// Closing keeps a campaign well formed, provided every milestone is
/// released.
pub proof fn lemma_close_keeps_wf(c: CampaignView, now: nat)
    requires
        c.wf(),
        c.all_released(),
    ensures
        c.after_close(now).wf(),
{
    lemma_all_released_pays_goal(c);
    let d = c.after_close(now);
    assert(d.milestones == c.milestones);
    assert(d.paid_out() == c.paid_out());
}

/// Whoever voted on a milestone cannot vote on it again: the second attempt
/// is refused, as a repeated vote while votes are still taken, and as closed
/// once the first vote approved the milestone.
pub proof fn lemma_one_vote_each(c: CampaignView, id: nat, voter: Seq<char>, first: bool)
    requires
        c.wf(),
        c.vote_error(id, voter) is None,
    ensures
        c.after_vote(id, voter, first).vote_error(id, voter) == Some(
            if c.after_vote(id, voter, first).milestones[id as int].voting_open() {
                ContractError::AlreadyVoted
            } else {
                ContractError::VotingNotOpen
            },
        ),
{
}

/// What a backer gave never shrinks when somebody funds the campaign, and
/// it grows by the amount for the one who gave.
pub proof fn lemma_contributions_grow(
    c: CampaignView,
    backer: Seq<char>,
    amount: int,
    now: nat,
    who: Seq<char>,
)
    requires
        amount > 0,
    ensures
        c.after_fund(backer, amount, now).contribution(who) >= c.contribution(who),
        c.after_fund(backer, amount, now).contribution(backer) == c.contribution(backer) + amount,
{
}

/// The schedule of a campaign is fixed at its creation: no operation adds
/// or removes a milestone, or changes what a milestone asks for or where it
/// stands in the schedule.
pub proof fn lemma_schedule_is_fixed(
    c: CampaignView,
    id: nat,
    who: Seq<char>,
    amount: int,
    proof: Seq<u8>,
    verdict: VerificationStatus,
    confidence: nat,
    approve: bool,
    now: nat,
)
    requires
        id < c.milestones.len(),
    ensures
        same_schedule(c, c.after_fund(who, amount, now)),
        same_schedule(c, c.after_release(id, now)),
        same_schedule(c, c.after_refund()),
        same_schedule(c, c.after_proof(id, proof, now)),
        same_schedule(c, c.after_verdict(id, verdict, confidence, now)),
        same_schedule(c, c.after_vote(id, who, approve)),
        same_schedule(c, c.after_close(now)),
{
}

/// The campaigns `c` and `d` have the same goal and the same schedule: as
/// many milestones, each with the same id and the same amount.
pub open spec fn same_schedule(c: CampaignView, d: CampaignView) -> bool {
    &&& d.id == c.id
    &&& d.creator == c.creator
    &&& d.total_goal == c.total_goal
    &&& d.milestones.len() == c.milestones.len()
    &&& forall|i: int|
        0 <= i < c.milestones.len() ==> (#[trigger] d.milestones[i]).id == c.milestones[i].id
            && d.milestones[i].amount == c.milestones[i].amount
}

/// Replacing a campaign by a well-formed one of the same id keeps the escrow
/// well formed, whatever is ordered besides.
proof fn lemma_with_campaign_keeps_wf(s: ContractView, id: u32, c: CampaignView)
    requires
        s.wf(),
        s.campaigns.contains_key(id),
        c.wf(),
        c.id == id,
    ensures
        s.with_campaign(c).wf(),
        forall|orders: Seq<crate::escrow::types::TransferView>, e: crate::escrow::types::EventView|
            #![all_triggers]
            s.with_campaign(c).with_orders(orders).wf() && s.with_campaign(c).with_event(e).wf()
                && s.with_campaign(c).with_orders(orders).with_event(e).wf(),
{
    let t = s.with_campaign(c);
    assert(t.campaigns.contains_key(id));
    assert forall|k: u32| #[trigger] t.campaigns.contains_key(k) implies t.campaigns[k].wf()
        && t.campaigns[k].id == k && k < t.next_id by {
        if k != id {
            assert(s.campaigns.contains_key(k));
        }
    }
    assert(t.config is None ==> t.campaigns == Map::<u32, CampaignView>::empty()) by {
        if t.config is None {
            assert(s.campaigns.contains_key(id));
        }
    }
    assert forall|orders: Seq<crate::escrow::types::TransferView>, e: crate::escrow::types::EventView|
        #![all_triggers]
        t.with_orders(orders).wf() && t.with_event(e).wf() && t.with_orders(orders).with_event(
            e,
        ).wf() by {
        assert(t.with_orders(orders).campaigns == t.campaigns);
        assert(t.with_event(e).campaigns == t.campaigns);
        assert(t.with_orders(orders).with_event(e).campaigns == t.campaigns);
    }
}

/// The creation of a campaign keeps the escrow well formed; the new campaign
/// is stored under the id that is answered, and its milestones sum to its
/// goal. Where they would not, no campaign is created.
pub proof fn lemma_create_campaign_keeps_wf(
    s: ContractView,
    creator: Seq<char>,
    title: Seq<char>,
    description: Seq<char>,
    ipfs_metadata: Seq<u8>,
    total_goal: int,
    specs: Seq<MilestoneSpecView>,
    now: nat,
)
    requires
        s.wf(),
        s.next_id < u32::MAX,
    ensures
        sum_requested(specs, specs.len() as int) != total_goal ==> s.create_campaign_result(
            total_goal,
            specs,
        ) is Err,
        s.create_campaign_result(total_goal, specs) is Ok ==> {
            let t = s.after_create_campaign(
                creator,
                title,
                description,
                ipfs_metadata,
                total_goal,
                specs,
                now,
            );
            let id = s.create_campaign_result(total_goal, specs)->Ok_0;
            &&& t.wf()
            &&& t.campaigns.contains_key(id)
            &&& t.campaigns[id].total_goal == total_goal
            &&& sum_amounts(t.campaigns[id].milestones, t.campaigns[id].milestones.len() as int)
                == total_goal
            &&& forall|k: u32| #[trigger] s.campaigns.contains_key(k) ==> t.campaigns[k] == s.campaigns[k]
        },
{
    if s.create_campaign_result(total_goal, specs) is Ok {
        let t = s.after_create_campaign(
            creator,
            title,
            description,
            ipfs_metadata,
            total_goal,
            specs,
            now,
        );
        let id = s.next_id as u32;
        lemma_new_campaign_wf(
            s.next_id,
            creator,
            title,
            description,
            ipfs_metadata,
            total_goal,
            specs,
            s.token->0,
            now,
        );
        assert(!s.campaigns.contains_key(id));
        assert forall|k: u32| #[trigger] t.campaigns.contains_key(k) implies t.campaigns[k].wf()
            && t.campaigns[k].id == k && k < t.next_id by {
            if k != id {
                assert(s.campaigns.contains_key(k));
            }
        }
    }
}

/// Funding keeps the escrow well formed and never takes a campaign past its
/// goal: an amount that would is refused as exceeding the goal.
pub proof fn lemma_fund_campaign_keeps_wf(
    s: ContractView,
    id: u32,
    backer: Seq<char>,
    amount: int,
    now: nat,
)
    requires
        s.wf(),
    ensures
        s.fund_campaign_result(id, amount) is Ok ==> {
            let t = s.after_fund_campaign(id, backer, amount, now);
            &&& t.wf()
            &&& t.campaigns[id].funds_raised == s.campaigns[id].funds_raised + amount
            &&& t.campaigns[id].funds_locked == s.campaigns[id].funds_locked + amount
            &&& t.campaigns[id].funds_raised <= t.campaigns[id].total_goal
        },
        s.campaigns.contains_key(id) && amount > 0 && s.campaigns[id].status
            == CampaignStatus::Active && s.campaigns[id].funds_raised + amount
            > s.campaigns[id].total_goal ==> s.fund_campaign_result(id, amount) == Err::<
            (),
            ContractError,
        >(ContractError::FundingGoalExceeded),
{
    if s.fund_campaign_result(id, amount) is Ok {
        let c = s.campaigns[id];
        lemma_fund_keeps_wf(c, backer, amount, now);
        lemma_with_campaign_keeps_wf(s, id, c.after_fund(backer, amount, now));
    }
}

/// A release keeps the escrow well formed. It happens only on its
/// conditions: the verdict is Completed or Partial, the for-side outweighs
/// the against-side, and the escrow holds the milestone's amount. The fee is
/// the share at the fee rate, rounded down, and with the creator's share it
/// makes up the amount. The milestone cannot be released a second time.
pub proof fn lemma_release_funds_keeps_wf(s: ContractView, id: u32, milestone: u32, now: nat)
    requires
        s.wf(),
        s.release_funds_result(id, milestone) is Ok,
        s.campaigns[id].total_goal <= i128::MAX,
    ensures
        ({
            let c = s.campaigns[id];
            let m = c.milestones[milestone as int];
            let t = s.after_release_funds(id, milestone, now);
            &&& milestone < c.milestones.len()
            &&& m.ai_verdict == VerificationStatus::Completed || m.ai_verdict
                == VerificationStatus::Partial
            &&& m.votes_for > m.votes_against
            &&& c.funds_locked >= m.amount
            &&& s.release_fee(id, milestone) == fee_of(m.amount, s.config->0.platform_fee_bps)
            &&& s.release_fee(id, milestone) + s.release_funds_result(id, milestone)->Ok_0
                == m.amount
            &&& 0 <= s.release_fee(id, milestone) <= m.amount
            &&& t.wf()
            &&& t.campaigns[id].funds_locked == c.funds_locked - m.amount
            &&& t.campaigns[id].funds_released == c.funds_released + m.amount
            &&& t.release_funds_result(id, milestone) == Err::<i128, ContractError>(
                ContractError::MilestoneAlreadyReleased,
            )
        }),
{
    let c = s.campaigns[id];
    let m = c.milestones[milestone as int];
    assert(m.wf(milestone as int));
    lemma_fee_splits_amount(m.amount, s.config->0.platform_fee_bps);
    lemma_release_keeps_wf(c, milestone as nat, now);
    lemma_with_campaign_keeps_wf(s, id, c.after_release(milestone as nat, now));
    lemma_goal_bound(c, milestone as int);
    lemma_no_double_release(c, milestone as nat, now);
}

/// No milestone asks for more than the goal.
proof fn lemma_goal_bound(c: CampaignView, i: int)
    requires
        c.wf(),
        0 <= i < c.milestones.len(),
    ensures
        c.milestones[i].amount <= c.total_goal,
{
    assert forall|k: int| 0 <= k < c.milestones.len() implies (#[trigger] c.milestones[k]).amount
        > 0 by {
        assert(c.milestones[k].wf(k));
    }
    lemma_sum_amounts_grows(c.milestones, 0, i);
    lemma_sum_amounts_grows(c.milestones, i + 1, c.milestones.len() as int);
}

/// A milestone that is released is not released again, and nothing is
/// ordered: every further attempt is refused as already released.
pub proof fn lemma_released_milestone_stays_released(s: ContractView, id: u32, milestone: u32)
    requires
        s.campaigns.contains_key(id),
        milestone < s.campaigns[id].milestones.len(),
        s.campaigns[id].milestones[milestone as int].status == MilestoneStatus::Released,
    ensures
        s.release_funds_result(id, milestone) == Err::<i128, ContractError>(
            ContractError::MilestoneAlreadyReleased,
        ),
{
}

/// A refund keeps the escrow well formed, and whatever the campaign's status
/// was, the campaign is failed afterwards, with nothing locked and no backer
/// left.
pub proof fn lemma_refund_backers_keeps_wf(s: ContractView, id: u32, admin: Seq<char>)
    requires
        s.wf(),
        s.refund_backers_result(id, admin) is Ok,
    ensures
        s.after_refund_backers(id).wf(),
        s.after_refund_backers(id).campaigns[id].status == CampaignStatus::Failed,
        s.after_refund_backers(id).campaigns[id].funds_locked == 0,
        s.after_refund_backers(id).campaigns[id].backers == Map::<Seq<char>, int>::empty(),
{
    let c = s.campaigns[id];
    lemma_refund_keeps_wf(c);
    lemma_with_campaign_keeps_wf(s, id, c.after_refund());
}

/// A campaign is closed only once every milestone is released, and closing
/// keeps the escrow well formed.
pub proof fn lemma_close_campaign_keeps_wf(s: ContractView, id: u32, caller: Seq<char>, now: nat)
    requires
        s.wf(),
    ensures
        s.campaigns.contains_key(id) && !s.campaigns[id].all_released()
            ==> s.close_campaign_result(id, caller) is Err,
        s.close_campaign_result(id, caller) is Ok ==> {
            &&& s.campaigns[id].all_released()
            &&& s.after_close_campaign(id, now).wf()
            &&& s.after_close_campaign(id, now).campaigns[id].status == CampaignStatus::Completed
        },
{
    if s.close_campaign_result(id, caller) is Ok {
        let c = s.campaigns[id];
        lemma_close_keeps_wf(c, now);
        lemma_with_campaign_keeps_wf(s, id, c.after_close(now));
    }
}

/// Handing in a proof keeps the escrow well formed.
pub proof fn lemma_submit_proof_keeps_wf(
    s: ContractView,
    id: u32,
    milestone: u32,
    creator: Seq<char>,
    proof: Seq<u8>,
    now: nat,
)
    requires
        s.wf(),
        proof.len() == 32,
        s.submit_proof_result(id, milestone, creator) is Ok,
    ensures
        s.after_submit_proof(id, milestone, proof, now).wf(),
{
    let c = s.campaigns[id];
    lemma_proof_keeps_wf(c, milestone as nat, creator, proof, now);
    lemma_with_campaign_keeps_wf(s, id, c.after_proof(milestone as nat, proof, now));
}

/// Recording a verdict keeps the escrow well formed.
pub proof fn lemma_submit_ai_verdict_keeps_wf(
    s: ContractView,
    id: u32,
    milestone: u32,
    oracle: Seq<char>,
    verdict: VerificationStatus,
    confidence: nat,
    now: nat,
)
    requires
        s.wf(),
        s.submit_ai_verdict_result(id, milestone, oracle) is Ok,
    ensures
        s.after_submit_ai_verdict(id, milestone, verdict, confidence, now).wf(),
{
    let c = s.campaigns[id];
    lemma_verdict_keeps_wf(c, milestone as nat, verdict, confidence, now);
    lemma_with_campaign_keeps_wf(
        s,
        id,
        c.after_verdict(milestone as nat, verdict, confidence, now),
    );
}

/// A vote keeps the escrow well formed, and it is the only one of its voter
/// on its milestone: a second attempt is refused and changes no tally. It is
/// refused as a repeated vote while votes are still taken, and as closed
/// once the milestone is approved.
pub proof fn lemma_vote_keeps_wf(
    s: ContractView,
    id: u32,
    milestone: u32,
    voter: Seq<char>,
    approve: bool,
    again: bool,
)
    requires
        s.wf(),
        s.vote_result(id, milestone, voter) is Ok,
    ensures
        ({
            let t = s.after_vote(id, milestone, voter, approve);
            &&& t.wf()
            &&& t.campaigns[id].milestones[milestone as int].voters.contains_key(voter)
            &&& t.vote_result(id, milestone, voter) == Err::<u64, ContractError>(
                if t.campaigns[id].milestones[milestone as int].voting_open() {
                    ContractError::AlreadyVoted
                } else {
                    ContractError::VotingNotOpen
                },
            )
        }),
{
    let c = s.campaigns[id];
    lemma_vote_keeps_wf_of_campaign(c, milestone as nat, voter, approve);
    lemma_with_campaign_keeps_wf(s, id, c.after_vote(milestone as nat, voter, approve));
    lemma_one_vote_each(c, milestone as nat, voter, approve);
}

/// In an escrow that is well formed, every campaign that was not refunded
/// locks exactly what it raised and did not release, and none of the three
/// amounts is negative.
pub proof fn lemma_escrow_locks_what_is_owed(s: ContractView, id: u32)
    requires
        s.wf(),
        s.campaigns.contains_key(id),
        s.campaigns[id].status != CampaignStatus::Failed,
    ensures
        s.campaigns[id].funds_locked == s.campaigns[id].funds_raised
            - s.campaigns[id].funds_released,
        s.campaigns[id].funds_locked >= 0,
        s.campaigns[id].funds_raised >= 0,
        s.campaigns[id].funds_released >= 0,
{
}

} // verus!
