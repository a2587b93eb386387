use chainfund::address::Address;
use chainfund::escrow::types::{
    CampaignStatus, ChainFundContract, ContractError, Event, MilestoneStatus, Party, SbtRole,
    VerificationStatus,
};

const NOW: u64 = 1_700_000_000;

fn who(name: &str) -> Address {
    Address::new(name)
}

fn digest(byte: u8) -> [u8; 32] {
    [byte; 32]
}

/// An initialized escrow whose smallest goal is `min_funding`.
fn escrow(min_funding: i128) -> ChainFundContract {
    let mut c = ChainFundContract::new();
    c.initialize(who("admin"), who("oracle"), who("sbt"), who("token"), NOW).unwrap();
    c.config.as_mut().unwrap().min_funding = min_funding;
    c.take_events();
    c
}

fn schedule(amounts: &[i128]) -> Vec<(String, String, i128)> {
    amounts
        .iter()
        .enumerate()
        .map(|(i, a)| (format!("milestone {}", i), format!("work {}", i), *a))
        .collect()
}

/// An escrow with one campaign of `creator`, with these milestone amounts.
fn campaign(amounts: &[i128]) -> (ChainFundContract, u32) {
    let mut c = escrow(1);
    let goal: i128 = amounts.iter().sum();
    let id = c
        .create_campaign(
            who("creator"),
            "title".to_string(),
            "description".to_string(),
            digest(7),
            goal,
            schedule(amounts),
            NOW,
        )
        .unwrap();
    (c, id)
}

/// Takes the first milestone of the campaign to the vote.
fn open_vote(c: &mut ChainFundContract, id: u32, milestone: u32) {
    c.submit_proof(id, milestone, who("creator"), digest(1), NOW).unwrap();
    c.submit_ai_verdict(id, milestone, who("oracle"), VerificationStatus::Completed, 90, NOW)
        .unwrap();
}

#[test]
fn test_integer_sqrt() {
    assert_eq!(ChainFundContract::integer_sqrt(0), 0);
    assert_eq!(ChainFundContract::integer_sqrt(1), 1);
    assert_eq!(ChainFundContract::integer_sqrt(4), 2);
    assert_eq!(ChainFundContract::integer_sqrt(9), 3);
    assert_eq!(ChainFundContract::integer_sqrt(16), 4);
    assert_eq!(ChainFundContract::integer_sqrt(100), 10);
    assert_eq!(ChainFundContract::integer_sqrt(10000), 100);
    assert_eq!(ChainFundContract::integer_sqrt(1000), 31);
}

#[test]
fn integer_sqrt_rounds_down_at_the_edges() {
    assert_eq!(ChainFundContract::integer_sqrt(2), 1);
    assert_eq!(ChainFundContract::integer_sqrt(3), 1);
    assert_eq!(ChainFundContract::integer_sqrt(8), 2);
    assert_eq!(ChainFundContract::integer_sqrt(15), 3);
    assert_eq!(ChainFundContract::integer_sqrt(99), 9);
    assert_eq!(ChainFundContract::integer_sqrt(u64::MAX), 4_294_967_295);
    assert_eq!(ChainFundContract::integer_sqrt(4_294_967_295 * 4_294_967_295), 4_294_967_295);
    assert_eq!(ChainFundContract::integer_sqrt(4_294_967_295 * 4_294_967_295 - 1), 4_294_967_294);
}

#[test]
fn initialize_sets_the_initial_settings_once() {
    let mut c = ChainFundContract::new();
    assert_eq!(c.get_config().err(), Some(ContractError::InvalidInput));
    assert_eq!(c.initialize(who("admin"), who("oracle"), who("sbt"), who("token"), NOW), Ok(()));
    assert_eq!(c.events, vec![Event::Initialized { admin: who("admin"), at: NOW }]);
    let config = c.get_config().unwrap();
    assert_eq!(config.admin, who("admin"));
    assert_eq!(config.ai_oracle, who("oracle"));
    assert_eq!(config.sbt_contract, who("sbt"));
    assert_eq!(config.min_funding, 10_000_000_000);
    assert_eq!(config.platform_fee_bps, 250);
    assert_eq!(config.voting_period, 604_800);
    assert_eq!(config.ai_timeout, 86_400);
    assert!(!config.is_paused);
    assert_eq!(c.next_id, 1);
    assert_eq!(c.token, Some(who("token")));
    assert_eq!(
        c.initialize(who("other"), who("oracle"), who("sbt"), who("token"), NOW + 1),
        Err(ContractError::CampaignAlreadyExists)
    );
    assert_eq!(c.get_config().unwrap().admin, who("admin"));
    assert_eq!(c.events.len(), 1);
}

#[test]
fn create_campaign_assigns_ids_in_sequence() {
    let mut c = escrow(1000);
    let first = c.create_campaign(
        who("creator"),
        "a".to_string(),
        "b".to_string(),
        digest(1),
        1000,
        schedule(&[500, 500]),
        NOW,
    );
    assert_eq!(first, Ok(1));
    let second = c.create_campaign(
        who("creator"),
        "a".to_string(),
        "b".to_string(),
        digest(1),
        3000,
        schedule(&[1000, 2000]),
        NOW + 1,
    );
    assert_eq!(second, Ok(2));
    assert_eq!(c.next_id, 3);
    let campaign = c.get_campaign(1).unwrap();
    assert_eq!(campaign.id, 1);
    assert_eq!(campaign.creator, who("creator"));
    assert_eq!(campaign.total_goal, 1000);
    assert_eq!(campaign.funds_raised, 0);
    assert_eq!(campaign.funds_released, 0);
    assert_eq!(campaign.funds_locked, 0);
    assert_eq!(campaign.token_address, who("token"));
    assert_eq!(campaign.status, CampaignStatus::Active);
    assert_eq!(campaign.created_at, NOW);
    assert_eq!(campaign.current_milestone, 0);
    assert_eq!(campaign.backer_count, 0);
    assert_eq!(campaign.milestones.len(), 2);
    assert_eq!(campaign.milestones[0].id, 0);
    assert_eq!(campaign.milestones[0].status, MilestoneStatus::InProgress);
    assert_eq!(campaign.milestones[0].amount, 500);
    assert_eq!(campaign.milestones[0].title, "milestone 0");
    assert_eq!(campaign.milestones[0].ipfs_proof, [0u8; 32]);
    assert_eq!(campaign.milestones[0].ai_verdict, VerificationStatus::NotSubmitted);
    assert_eq!(campaign.milestones[1].id, 1);
    assert_eq!(campaign.milestones[1].status, MilestoneStatus::Pending);
    assert_eq!(c.get_campaign(3).err(), Some(ContractError::CampaignNotFound));
}

#[test]
fn create_campaign_fails_unless_the_milestones_sum_to_the_goal() {
    let mut c = escrow(1000);
    let create = |c: &mut ChainFundContract, goal: i128, amounts: &[i128]| {
        c.create_campaign(
            who("creator"),
            "a".to_string(),
            "b".to_string(),
            digest(1),
            goal,
            schedule(amounts),
            NOW,
        )
    };
    assert_eq!(create(&mut c, 1000, &[500, 499]), Err(ContractError::InvalidAmount));
    assert_eq!(create(&mut c, 1000, &[500, 501]), Err(ContractError::InvalidAmount));
    assert_eq!(create(&mut c, 1000, &[1001]), Err(ContractError::InvalidAmount));
    assert_eq!(create(&mut c, 1000, &[1500, -500]), Err(ContractError::InvalidAmount));
    assert_eq!(create(&mut c, 1000, &[1000, 0]), Err(ContractError::InvalidAmount));
    assert_eq!(create(&mut c, 1000, &[i128::MAX, i128::MAX]), Err(ContractError::InvalidAmount));
    assert_eq!(create(&mut c, 999, &[999]), Err(ContractError::InvalidAmount));
    assert_eq!(create(&mut c, 1000, &[]), Err(ContractError::InvalidInput));
    assert_eq!(c.next_id, 1);
    assert!(c.campaigns.is_empty());
    assert_eq!(create(&mut c, 1000, &[1, 999]), Ok(1));
}

#[test]
fn create_campaign_needs_settings_and_no_pause() {
    let mut raw = ChainFundContract::new();
    let r = raw.create_campaign(
        who("creator"),
        "a".to_string(),
        "b".to_string(),
        digest(1),
        1000,
        schedule(&[1000]),
        NOW,
    );
    assert_eq!(r, Err(ContractError::InvalidInput));
    let mut c = escrow(1000);
    assert_eq!(c.set_paused(who("creator"), true), Err(ContractError::Unauthorized));
    assert_eq!(c.set_paused(who("admin"), true), Ok(()));
    let r = c.create_campaign(
        who("creator"),
        "a".to_string(),
        "b".to_string(),
        digest(1),
        1000,
        schedule(&[1000]),
        NOW,
    );
    assert_eq!(r, Err(ContractError::ContractPaused));
    assert_eq!(c.set_paused(who("admin"), false), Ok(()));
    let r = c.create_campaign(
        who("creator"),
        "a".to_string(),
        "b".to_string(),
        digest(1),
        1000,
        schedule(&[1000]),
        NOW,
    );
    assert_eq!(r, Ok(1));
}

#[test]
fn two_contributions_of_half_the_goal_fund_the_campaign() {
    let (mut c, id) = campaign(&[500, 500]);
    assert_eq!(c.fund_campaign(id, who("a"), 500, NOW + 1), Ok(()));
    {
        let campaign = c.get_campaign(id).unwrap();
        assert_eq!(campaign.status, CampaignStatus::Active);
        assert_eq!(campaign.funds_raised, 500);
        assert_eq!(campaign.funds_locked, 500);
        assert_eq!(campaign.funded_at, 0);
    }
    assert_eq!(c.fund_campaign(id, who("b"), 500, NOW + 2), Ok(()));
    let campaign = c.get_campaign(id).unwrap();
    assert_eq!(campaign.status, CampaignStatus::Funded);
    assert_eq!(campaign.funds_raised, 1000);
    assert_eq!(campaign.funds_locked, 1000);
    assert_eq!(campaign.funds_released, 0);
    assert_eq!(campaign.funded_at, NOW + 2);
    assert_eq!(campaign.backer_count, 2);
    assert_eq!(c.transfers.len(), 2);
    assert_eq!(c.transfers[0].from, Party::Account(who("a")));
    assert_eq!(c.transfers[0].to, Party::Escrow);
    assert_eq!(c.transfers[0].amount, 500);
    assert_eq!(c.transfers[0].token, who("token"));
    assert_eq!(c.transfers[1].from, Party::Account(who("b")));
    assert_eq!(c.fund_campaign(id, who("c"), 1, NOW + 3), Err(ContractError::CampaignNotActive));
}

#[test]
fn fund_campaign_refuses_to_overshoot_the_goal() {
    let (mut c, id) = campaign(&[500, 500]);
    assert_eq!(c.fund_campaign(id, who("a"), 600, NOW), Ok(()));
    assert_eq!(c.fund_campaign(id, who("b"), 401, NOW), Err(ContractError::FundingGoalExceeded));
    assert_eq!(c.fund_campaign(id, who("b"), i128::MAX, NOW), Err(ContractError::FundingGoalExceeded));
    let campaign = c.get_campaign(id).unwrap();
    assert_eq!(campaign.funds_raised, 600);
    assert_eq!(campaign.funds_locked, 600);
    assert_eq!(campaign.backer_count, 1);
    assert_eq!(campaign.backers.get(&who("b")), None);
    assert_eq!(campaign.status, CampaignStatus::Active);
    assert_eq!(c.transfers.len(), 1);
    assert_eq!(c.fund_campaign(id, who("b"), 0, NOW), Err(ContractError::InvalidAmount));
    assert_eq!(c.fund_campaign(id, who("b"), -5, NOW), Err(ContractError::InvalidAmount));
    assert_eq!(c.fund_campaign(99, who("b"), 5, NOW), Err(ContractError::CampaignNotFound));
    assert_eq!(c.fund_campaign(99, who("b"), 0, NOW), Err(ContractError::InvalidAmount));
}

#[test]
fn fund_campaign_adds_up_what_a_backer_gives() {
    let (mut c, id) = campaign(&[500, 500]);
    c.fund_campaign(id, who("a"), 100, NOW).unwrap();
    c.fund_campaign(id, who("a"), 125, NOW).unwrap();
    c.fund_campaign(id, who("b"), 1, NOW).unwrap();
    let campaign = c.get_campaign(id).unwrap();
    assert_eq!(campaign.backers.get(&who("a")), Some(225));
    assert_eq!(campaign.backers.get(&who("b")), Some(1));
    assert_eq!(campaign.backer_count, 2);
    assert_eq!(campaign.funds_raised, 226);
    assert_eq!(c.get_backer(id, &who("a")), Ok((225, 15)));
    assert_eq!(c.get_backer(id, &who("b")), Ok((1, 1)));
    assert_eq!(c.get_backer(id, &who("nobody")), Ok((0, 0)));
    assert_eq!(c.get_backer(9, &who("a")), Err(ContractError::CampaignNotFound));
}

/// Three backers give 100, 225 and 900 to a campaign of two milestones of
/// 500 and 725, and the first milestone goes to the vote.
fn three_backers() -> (ChainFundContract, u32) {
    let (mut c, id) = campaign(&[500, 725]);
    c.fund_campaign(id, who("a"), 100, NOW).unwrap();
    c.fund_campaign(id, who("b"), 225, NOW).unwrap();
    c.fund_campaign(id, who("c"), 900, NOW).unwrap();
    open_vote(&mut c, id, 0);
    c.take_transfers();
    c.take_events();
    (c, id)
}

#[test]
fn release_fails_when_thirty_outweigh_twenty_five() {
    let (mut c, id) = three_backers();
    assert_eq!(c.vote(id, 0, who("c"), false), Ok(30));
    assert_eq!(c.vote(id, 0, who("a"), true), Ok(10));
    assert_eq!(c.vote(id, 0, who("b"), true), Ok(15));
    assert_eq!(c.get_vote_status(id, 0), Ok((25, 30, 3)));
    assert_eq!(c.get_milestone(id, 0).unwrap().ai_verdict, VerificationStatus::Completed);
    assert_eq!(c.get_milestone(id, 0).unwrap().status, MilestoneStatus::VotingOpen);
    assert_eq!(c.release_funds(id, 0, NOW), Err(ContractError::VotingNotOpen));
    let campaign = c.get_campaign(id).unwrap();
    assert_eq!(campaign.funds_locked, 1225);
    assert_eq!(campaign.funds_released, 0);
    assert_eq!(campaign.milestones[0].status, MilestoneStatus::VotingOpen);
    assert!(c.transfers.is_empty());
}

#[test]
fn first_vote_in_favour_approves_and_release_pays_488_and_12() {
    let (mut c, id) = three_backers();
    assert_eq!(c.get_config().unwrap().platform_fee_bps, 250);
    assert_eq!(c.vote(id, 0, who("a"), true), Ok(10));
    assert_eq!(c.get_vote_status(id, 0), Ok((10, 0, 1)));
    assert_eq!(c.get_milestone(id, 0).unwrap().status, MilestoneStatus::Approved);
    // Once the milestone is approved the vote is closed to the other backers.
    assert_eq!(c.vote(id, 0, who("b"), true), Err(ContractError::VotingNotOpen));
    assert_eq!(c.vote(id, 0, who("c"), true), Err(ContractError::VotingNotOpen));
    assert_eq!(c.release_funds(id, 0, NOW + 9), Ok(488));
    let campaign = c.get_campaign(id).unwrap();
    assert_eq!(campaign.milestones[0].status, MilestoneStatus::Released);
    assert_eq!(campaign.milestones[0].released_at, NOW + 9);
    assert_eq!(campaign.milestones[1].status, MilestoneStatus::InProgress);
    assert_eq!(campaign.current_milestone, 1);
    assert_eq!(campaign.funds_released, 500);
    assert_eq!(campaign.funds_locked, 725);
    assert_eq!(campaign.funds_raised, 1225);
    assert_eq!(c.transfers.len(), 2);
    assert_eq!(c.transfers[0].token, who("token"));
    assert_eq!(c.transfers[0].from, Party::Escrow);
    assert_eq!(c.transfers[0].to, Party::Account(who("creator")));
    assert_eq!(c.transfers[0].amount, 488);
    assert_eq!(c.transfers[1].from, Party::Escrow);
    assert_eq!(c.transfers[1].to, Party::Account(who("admin")));
    assert_eq!(c.transfers[1].amount, 12);
}

#[test]
fn all_three_in_favour_tally_fifty_five() {
    let (mut c, id) = three_backers();
    // The vote is held open by hand, as a dispute process outside the escrow might.
    let reopen = |c: &mut ChainFundContract| {
        c.campaigns.get_mut(&id).unwrap().milestones[0].status = MilestoneStatus::VotingOpen;
    };
    assert_eq!(c.vote(id, 0, who("a"), true), Ok(10));
    reopen(&mut c);
    assert_eq!(c.vote(id, 0, who("b"), true), Ok(15));
    reopen(&mut c);
    assert_eq!(c.vote(id, 0, who("c"), true), Ok(30));
    assert_eq!(c.get_vote_status(id, 0), Ok((55, 0, 3)));
    assert_eq!(c.get_milestone(id, 0).unwrap().status, MilestoneStatus::Approved);
    assert!(c.get_campaign(id).unwrap().is_valid());
    assert_eq!(c.release_funds(id, 0, NOW), Ok(488));
    assert_eq!(c.transfers[1].amount, 12);
    assert_eq!(c.get_milestone(id, 1).unwrap().status, MilestoneStatus::InProgress);
    let voters = &c.get_milestone(id, 0).unwrap().voters;
    assert_eq!(voters.get(&who("a")), Some(10));
    assert_eq!(voters.get(&who("b")), Some(15));
    assert_eq!(voters.get(&who("c")), Some(30));
}

#[test]
fn vote_records_a_signed_weight_and_approves_on_more_than_two_to_one() {
    let (mut c, id) = three_backers();
    assert_eq!(c.vote(id, 0, who("b"), false), Ok(15));
    assert_eq!(c.get_milestone(id, 0).unwrap().voters.get(&who("b")), Some(-15));
    assert_eq!(c.get_milestone(id, 0).unwrap().status, MilestoneStatus::VotingOpen);
    // 30 for and 15 against: exactly two to one is not enough.
    assert_eq!(c.vote(id, 0, who("c"), true), Ok(30));
    assert_eq!(c.get_milestone(id, 0).unwrap().status, MilestoneStatus::VotingOpen);
    assert_eq!(c.get_vote_status(id, 0), Ok((30, 15, 2)));
    // The simple majority that a release asks for is there all the same.
    assert_eq!(c.release_funds(id, 0, NOW), Ok(488));
    let (mut c, id) = three_backers();
    assert_eq!(c.vote(id, 0, who("a"), false), Ok(10));
    assert_eq!(c.vote(id, 0, who("c"), true), Ok(30));
    assert_eq!(c.get_milestone(id, 0).unwrap().status, MilestoneStatus::Approved);
}

#[test]
fn vote_is_counted_once_for_each_backer() {
    let (mut c, id) = three_backers();
    assert_eq!(c.vote(id, 0, who("c"), false), Ok(30));
    assert_eq!(c.vote(id, 0, who("c"), false), Err(ContractError::AlreadyVoted));
    assert_eq!(c.vote(id, 0, who("c"), true), Err(ContractError::AlreadyVoted));
    assert_eq!(c.get_vote_status(id, 0), Ok((0, 30, 1)));
    assert_eq!(c.get_milestone(id, 0).unwrap().voters.get(&who("c")), Some(-30));
}

#[test]
fn vote_is_refused_to_strangers_and_on_closed_votes() {
    let (mut c, id) = three_backers();
    assert_eq!(c.vote(id, 0, who("stranger"), true), Err(ContractError::NotABacker));
    assert_eq!(c.vote(id, 1, who("a"), true), Err(ContractError::VotingNotOpen));
    assert_eq!(c.vote(id, 2, who("a"), true), Err(ContractError::MilestoneNotFound));
    assert_eq!(c.vote(77, 0, who("a"), true), Err(ContractError::CampaignNotFound));
    assert_eq!(c.get_vote_status(id, 0), Ok((0, 0, 0)));
    assert_eq!(c.get_vote_status(id, 2), Err(ContractError::MilestoneNotFound));
    assert_eq!(c.get_vote_status(77, 0), Err(ContractError::CampaignNotFound));
}

#[test]
fn submit_proof_is_for_the_creator_on_the_milestone_in_progress() {
    let (mut c, id) = campaign(&[500, 500]);
    assert_eq!(
        c.submit_proof(id, 0, who("mallory"), digest(1), NOW),
        Err(ContractError::NotCreator)
    );
    assert_eq!(
        c.submit_proof(id, 1, who("creator"), digest(1), NOW),
        Err(ContractError::MilestoneNotReady)
    );
    assert_eq!(
        c.submit_proof(id, 2, who("creator"), digest(1), NOW),
        Err(ContractError::MilestoneNotFound)
    );
    assert_eq!(
        c.submit_proof(9, 0, who("creator"), digest(1), NOW),
        Err(ContractError::CampaignNotFound)
    );
    assert_eq!(c.submit_proof(id, 0, who("creator"), digest(1), NOW + 4), Ok(()));
    let m = c.get_milestone(id, 0).unwrap();
    assert_eq!(m.ipfs_proof, digest(1));
    assert_eq!(m.status, MilestoneStatus::ProofSubmitted);
    assert_eq!(m.ai_verdict, VerificationStatus::Pending);
    assert_eq!(m.proof_submitted_at, NOW + 4);
    assert_eq!(
        c.submit_proof(id, 0, who("creator"), digest(2), NOW),
        Err(ContractError::MilestoneNotReady)
    );
    assert_eq!(c.get_milestone(id, 0).unwrap().ipfs_proof, digest(1));
}

#[test]
fn submit_proof_refuses_a_second_proof() {
    let (mut c, id) = campaign(&[500, 500]);
    let m = &mut c.campaigns.get_mut(&id).unwrap().milestones[0];
    m.ipfs_proof = digest(5);
    assert_eq!(
        c.submit_proof(id, 0, who("creator"), digest(2), NOW),
        Err(ContractError::ProofAlreadySubmitted)
    );
    assert_eq!(c.get_milestone(id, 0).unwrap().ipfs_proof, digest(5));
    assert_eq!(c.get_milestone(id, 0).unwrap().status, MilestoneStatus::InProgress);
}

#[test]
fn submit_ai_verdict_maps_the_verdict_to_the_status() {
    let cases = [
        (VerificationStatus::Completed, MilestoneStatus::VotingOpen),
        (VerificationStatus::Partial, MilestoneStatus::VotingOpen),
        (VerificationStatus::Suspicious, MilestoneStatus::Disputed),
        (VerificationStatus::Rejected, MilestoneStatus::Rejected),
        (VerificationStatus::Pending, MilestoneStatus::Rejected),
        (VerificationStatus::NotSubmitted, MilestoneStatus::Rejected),
    ];
    for (verdict, status) in cases {
        let (mut c, id) = campaign(&[500, 500]);
        c.submit_proof(id, 0, who("creator"), digest(1), NOW).unwrap();
        assert_eq!(c.submit_ai_verdict(id, 0, who("oracle"), verdict, 77, NOW + 5), Ok(()));
        let m = c.get_milestone(id, 0).unwrap();
        assert_eq!(m.status, status);
        assert_eq!(m.ai_verdict, verdict);
        assert_eq!(m.ai_confidence, 77);
        assert_eq!(m.verified_at, NOW + 5);
    }
}

#[test]
fn submit_ai_verdict_is_for_the_oracle_or_the_administrator() {
    let (mut c, id) = campaign(&[500, 500]);
    let done = VerificationStatus::Completed;
    assert_eq!(
        c.submit_ai_verdict(id, 0, who("oracle"), done, 90, NOW),
        Err(ContractError::MilestoneNotReady)
    );
    c.submit_proof(id, 0, who("creator"), digest(1), NOW).unwrap();
    assert_eq!(
        c.submit_ai_verdict(id, 0, who("creator"), done, 90, NOW),
        Err(ContractError::UnauthorizedAIOracle)
    );
    assert_eq!(
        c.submit_ai_verdict(9, 0, who("oracle"), done, 90, NOW),
        Err(ContractError::CampaignNotFound)
    );
    assert_eq!(
        c.submit_ai_verdict(id, 5, who("oracle"), done, 90, NOW),
        Err(ContractError::MilestoneNotFound)
    );
    assert_eq!(c.get_milestone(id, 0).unwrap().status, MilestoneStatus::ProofSubmitted);
    assert_eq!(c.submit_ai_verdict(id, 0, who("admin"), done, 90, NOW), Ok(()));
    assert_eq!(
        c.submit_ai_verdict(id, 0, who("oracle"), done, 90, NOW),
        Err(ContractError::MilestoneNotReady)
    );
    let mut raw = ChainFundContract::new();
    assert_eq!(
        raw.submit_ai_verdict(1, 0, who("oracle"), done, 90, NOW),
        Err(ContractError::InvalidInput)
    );
}

#[test]
fn set_ai_oracle_replaces_the_oracle() {
    let (mut c, id) = campaign(&[500, 500]);
    assert_eq!(c.set_ai_oracle(who("oracle"), who("next")), Err(ContractError::Unauthorized));
    assert_eq!(c.set_ai_oracle(who("admin"), who("next")), Ok(()));
    assert_eq!(c.get_config().unwrap().ai_oracle, who("next"));
    c.submit_proof(id, 0, who("creator"), digest(1), NOW).unwrap();
    let done = VerificationStatus::Completed;
    assert_eq!(
        c.submit_ai_verdict(id, 0, who("oracle"), done, 90, NOW),
        Err(ContractError::UnauthorizedAIOracle)
    );
    assert_eq!(c.submit_ai_verdict(id, 0, who("next"), done, 90, NOW), Ok(()));
    let mut raw = ChainFundContract::new();
    assert_eq!(raw.set_ai_oracle(who("admin"), who("next")), Err(ContractError::InvalidInput));
    assert_eq!(raw.set_paused(who("admin"), true), Err(ContractError::InvalidInput));
}

#[test]
fn release_funds_checks_its_conditions_in_order() {
    let (mut c, id) = campaign(&[500, 725]);
    assert_eq!(c.release_funds(9, 0, NOW), Err(ContractError::CampaignNotFound));
    assert_eq!(c.release_funds(id, 2, NOW), Err(ContractError::MilestoneNotFound));
    assert_eq!(c.release_funds(id, 0, NOW), Err(ContractError::AIVerificationPending));
    assert_eq!(c.release_funds(id, 1, NOW), Err(ContractError::AIVerificationPending));
    c.fund_campaign(id, who("a"), 400, NOW).unwrap();
    c.submit_proof(id, 0, who("creator"), digest(1), NOW).unwrap();
    assert_eq!(c.release_funds(id, 0, NOW), Err(ContractError::AIVerificationPending));
    c.submit_ai_verdict(id, 0, who("oracle"), VerificationStatus::Partial, 60, NOW).unwrap();
    assert_eq!(c.release_funds(id, 0, NOW), Err(ContractError::VotingNotOpen));
    assert_eq!(c.vote(id, 0, who("a"), true), Ok(20));
    // 400 are locked, and the milestone asks for 500.
    assert_eq!(c.release_funds(id, 0, NOW), Err(ContractError::InsufficientFunds));
    let before = c.get_campaign(id).unwrap().funds_locked;
    assert_eq!(before, 400);
    assert_eq!(c.transfers.len(), 1);
    c.fund_campaign(id, who("b"), 100, NOW).unwrap();
    assert_eq!(c.release_funds(id, 0, NOW), Ok(488));
    assert_eq!(c.get_campaign(id).unwrap().funds_locked, 0);
}

#[test]
fn release_funds_fails_on_a_released_milestone_and_orders_nothing() {
    let (mut c, id) = three_backers();
    c.vote(id, 0, who("a"), true).unwrap();
    assert_eq!(c.release_funds(id, 0, NOW), Ok(488));
    let orders = c.take_transfers();
    assert_eq!(orders.len(), 2);
    assert!(c.transfers.is_empty());
    assert_eq!(c.release_funds(id, 0, NOW + 1), Err(ContractError::MilestoneAlreadyReleased));
    assert_eq!(c.release_funds(id, 0, NOW + 2), Err(ContractError::MilestoneAlreadyReleased));
    assert!(c.transfers.is_empty());
    let campaign = c.get_campaign(id).unwrap();
    assert_eq!(campaign.funds_released, 500);
    assert_eq!(campaign.funds_locked, 725);
    assert_eq!(campaign.milestones[0].released_at, NOW);
}

#[test]
fn release_funds_splits_the_amount_exactly() {
    for (amount, bps, fee) in [
        (500i128, 250u32, 12i128),
        (1, 250, 0),
        (39, 250, 0),
        (40, 250, 1),
        (10_000, 1, 1),
        (9_999, 1, 0),
        (1_000, 0, 0),
        (1_000, 10_000, 1_000),
        (i128::MAX, 10_000, i128::MAX),
        (i128::MAX, 250, i128::MAX / 40),
    ] {
        let (mut c, id) = campaign(&[amount]);
        c.config.as_mut().unwrap().platform_fee_bps = bps;
        c.fund_campaign(id, who("a"), amount, NOW).unwrap();
        open_vote(&mut c, id, 0);
        c.vote(id, 0, who("a"), true).unwrap();
        c.take_transfers();
        assert_eq!(c.release_funds(id, 0, NOW), Ok(amount - fee));
        assert_eq!(c.transfers[0].amount + fee, amount);
        if fee > 0 {
            assert_eq!(c.transfers.len(), 2);
            assert_eq!(c.transfers[1].amount, fee);
        } else {
            assert_eq!(c.transfers.len(), 1);
        }
        let campaign = c.get_campaign(id).unwrap();
        assert_eq!(campaign.funds_released, amount);
        assert_eq!(campaign.funds_locked, 0);
        assert_eq!(campaign.current_milestone, 0);
        assert!(campaign.is_valid());
    }
}

#[test]
fn release_funds_is_open_to_anybody() {
    let (mut c, id) = three_backers();
    c.vote(id, 0, who("a"), true).unwrap();
    // No caller is named: whoever runs the escrow asks for no authorization here.
    assert_eq!(c.release_funds(id, 0, NOW), Ok(488));
}

#[test]
fn refund_backers_fails_the_campaign_whatever_its_status() {
    let (mut c, id) = three_backers();
    assert_eq!(c.refund_backers(id, who("creator")), Err(ContractError::Unauthorized));
    assert_eq!(c.refund_backers(9, who("admin")), Err(ContractError::CampaignNotFound));
    assert_eq!(c.refund_backers(9, who("creator")), Err(ContractError::Unauthorized));
    assert_eq!(c.get_campaign(id).unwrap().status, CampaignStatus::Funded);
    assert_eq!(c.refund_backers(id, who("admin")), Ok(3));
    let campaign = c.get_campaign(id).unwrap();
    assert_eq!(campaign.status, CampaignStatus::Failed);
    assert_eq!(campaign.funds_locked, 0);
    assert_eq!(campaign.funds_raised, 1225);
    assert_eq!(campaign.backers.entries.len(), 0);
    assert_eq!(campaign.backer_count, 3);
    assert!(campaign.is_valid());
    assert_eq!(c.transfers.len(), 3);
    for (i, (name, amount)) in [("a", 100), ("b", 225), ("c", 900)].iter().enumerate() {
        assert_eq!(c.transfers[i].token, who("token"));
        assert_eq!(c.transfers[i].from, Party::Escrow);
        assert_eq!(c.transfers[i].to, Party::Account(who(name)));
        assert_eq!(c.transfers[i].amount, *amount);
    }
    // A second refund finds no backer, and the campaign stays failed.
    assert_eq!(c.refund_backers(id, who("admin")), Ok(0));
    assert_eq!(c.get_campaign(id).unwrap().status, CampaignStatus::Failed);
    assert_eq!(c.transfers.len(), 3);
    assert_eq!(c.fund_campaign(id, who("a"), 1, NOW), Err(ContractError::CampaignNotActive));
    assert_eq!(c.vote(id, 0, who("a"), true), Err(ContractError::NotABacker));
    let mut raw = ChainFundContract::new();
    assert_eq!(raw.refund_backers(1, who("admin")), Err(ContractError::InvalidInput));
}

#[test]
fn refund_backers_applies_to_active_and_completed_campaigns_too() {
    let (mut c, id) = campaign(&[500]);
    c.fund_campaign(id, who("a"), 100, NOW).unwrap();
    assert_eq!(c.get_campaign(id).unwrap().status, CampaignStatus::Active);
    assert_eq!(c.refund_backers(id, who("admin")), Ok(1));
    assert_eq!(c.get_campaign(id).unwrap().status, CampaignStatus::Failed);
    assert_eq!(c.get_campaign(id).unwrap().funds_locked, 0);
    let (mut c, id) = campaign(&[500]);
    c.fund_campaign(id, who("a"), 500, NOW).unwrap();
    open_vote(&mut c, id, 0);
    c.vote(id, 0, who("a"), true).unwrap();
    c.release_funds(id, 0, NOW).unwrap();
    c.close_campaign(id, who("creator"), NOW).unwrap();
    assert_eq!(c.get_campaign(id).unwrap().status, CampaignStatus::Completed);
    assert_eq!(c.refund_backers(id, who("admin")), Ok(1));
    let campaign = c.get_campaign(id).unwrap();
    assert_eq!(campaign.status, CampaignStatus::Failed);
    assert_eq!(campaign.funds_locked, 0);
    assert_eq!(campaign.backers.entries.len(), 0);
    assert!(campaign.is_valid());
}

#[test]
fn close_campaign_fails_unless_every_milestone_is_released() {
    let (mut c, id) = three_backers();
    assert_eq!(c.close_campaign(9, who("creator"), NOW), Err(ContractError::CampaignNotFound));
    assert_eq!(c.close_campaign(id, who("a"), NOW), Err(ContractError::Unauthorized));
    assert_eq!(c.close_campaign(id, who("creator"), NOW), Err(ContractError::MilestoneNotReady));
    c.vote(id, 0, who("a"), true).unwrap();
    c.release_funds(id, 0, NOW).unwrap();
    assert_eq!(c.close_campaign(id, who("admin"), NOW), Err(ContractError::MilestoneNotReady));
    assert_eq!(c.get_campaign(id).unwrap().status, CampaignStatus::Funded);
    open_vote(&mut c, id, 1);
    c.vote(id, 1, who("c"), true).unwrap();
    c.release_funds(id, 1, NOW).unwrap();
    assert_eq!(c.award_sbt(id, who("a"), SbtRole::Backer, who("creator")), Err(ContractError::CampaignNotActive));
    assert_eq!(c.close_campaign(id, who("admin"), NOW + 50), Ok(()));
    let campaign = c.get_campaign(id).unwrap();
    assert_eq!(campaign.status, CampaignStatus::Completed);
    assert_eq!(campaign.completed_at, NOW + 50);
    assert_eq!(campaign.funds_released, 1225);
    assert_eq!(campaign.funds_locked, 0);
    assert_eq!(campaign.current_milestone, 1);
    c.take_events();
    assert_eq!(c.award_sbt(id, who("a"), SbtRole::Backer, who("creator")), Ok(()));
    assert_eq!(c.award_sbt(id, who("b"), SbtRole::Validator, who("admin")), Ok(()));
    assert_eq!(c.award_sbt(id, who("a"), SbtRole::Backer, who("a")), Err(ContractError::Unauthorized));
    assert_eq!(c.award_sbt(9, who("a"), SbtRole::Backer, who("admin")), Err(ContractError::CampaignNotFound));
    assert_eq!(
        c.take_events(),
        vec![
            Event::SbtAwarded { campaign_id: id, recipient: who("a"), role: SbtRole::Backer },
            Event::SbtAwarded { campaign_id: id, recipient: who("b"), role: SbtRole::Validator },
        ]
    );
    assert_eq!(c.get_campaign(id).unwrap().status, CampaignStatus::Completed);
}

#[test]
fn locked_is_raised_less_released_along_a_campaign() {
    let (mut c, id) = campaign(&[300, 200, 500]);
    let check = |c: &ChainFundContract| {
        let campaign = c.get_campaign(id).unwrap();
        assert!(campaign.is_valid());
        assert_eq!(campaign.funds_locked, campaign.funds_raised - campaign.funds_released);
        assert!(campaign.funds_locked >= 0 && campaign.funds_released >= 0);
        assert!(campaign.funds_raised <= campaign.total_goal);
    };
    check(&c);
    c.fund_campaign(id, who("a"), 400, NOW).unwrap();
    check(&c);
    for m in 0..3u32 {
        open_vote(&mut c, id, m);
        check(&c);
        c.vote(id, m, who("a"), true).unwrap();
        check(&c);
        if m == 1 {
            assert_eq!(c.release_funds(id, m, NOW), Err(ContractError::InsufficientFunds));
            c.fund_campaign(id, who("b"), 600, NOW).unwrap();
            check(&c);
        }
        c.release_funds(id, m, NOW).unwrap();
        check(&c);
    }
    c.close_campaign(id, who("creator"), NOW).unwrap();
    check(&c);
    assert_eq!(c.get_campaign(id).unwrap().funds_released, 1000);
}

#[test]
fn restore_takes_what_an_escrow_left_and_nothing_else() {
    let (mut c, id) = three_backers();
    c.vote(id, 0, who("a"), true).unwrap();
    c.release_funds(id, 0, NOW).unwrap();
    let config = c.config.take();
    let token = c.token.take();
    let kept = c.campaigns.remove(&id).unwrap();
    let restored = ChainFundContract::restore(config, token, c.next_id, vec![kept]).unwrap();
    assert_eq!(restored.get_campaign(id).unwrap().funds_released, 500);
    assert_eq!(restored.next_id, 2);
    assert!(restored.transfers.is_empty());

    let (mut c, id) = three_backers();
    let mut broken = c.campaigns.remove(&id).unwrap();
    broken.funds_locked += 1;
    assert!(!broken.is_valid());
    assert!(ChainFundContract::restore(c.config.take(), c.token.take(), 2, vec![broken]).is_none());

    let (mut c, id) = three_backers();
    let kept = c.campaigns.remove(&id).unwrap();
    // The id of a campaign is below the next id.
    assert!(ChainFundContract::restore(c.config.take(), c.token.take(), 1, vec![kept]).is_none());
    assert!(ChainFundContract::restore(None, Some(who("token")), 1, vec![]).is_none());
    assert!(ChainFundContract::restore(None, None, 2, vec![]).is_none());
    assert!(ChainFundContract::restore(None, None, 1, vec![]).is_some());
    let (mut c, _) = campaign(&[500]);
    c.config.as_mut().unwrap().platform_fee_bps = 10_001;
    assert!(ChainFundContract::restore(c.config.take(), c.token.take(), 2, vec![]).is_none());
}

#[test]
fn is_valid_tells_the_states_that_the_escrow_can_leave() {
    let (c, id) = three_backers();
    assert!(c.get_campaign(id).unwrap().is_valid());
    let edits: Vec<fn(&mut chainfund::escrow::types::Campaign)> = vec![
        |c| c.total_goal += 1,
        |c| c.funds_raised = c.total_goal + 1,
        |c| c.funds_released = 1,
        |c| c.funds_locked -= 1,
        |c| c.current_milestone = 1,
        |c| c.current_milestone = 2,
        |c| c.milestones[0].id = 1,
        |c| c.milestones[0].amount = 0,
        |c| c.milestones[0].status = MilestoneStatus::Pending,
        |c| c.milestones[0].status = MilestoneStatus::Released,
        |c| c.milestones[1].status = MilestoneStatus::InProgress,
        |c| c.milestones[1].ai_verdict = VerificationStatus::Completed,
        |c| c.status = CampaignStatus::Active,
        |c| c.backer_count = 2,
        |c| c.backer_count = 4,
        |c| c.backers.entries[0].value = 99,
        |c| c.backers.entries[2].value = 901,
        |c| c.backers.entries[0].value = 0,
        |c| c.backers.entries[0].value = 1226,
        |c| c.backers.entries[1].who = Address::new("a"),
        |c| c.milestones.clear(),
    ];
    for edit in edits {
        let (mut c, id) = three_backers();
        let campaign = c.campaigns.get_mut(&id).unwrap();
        edit(campaign);
        assert!(!campaign.is_valid());
    }
}

#[test]
fn every_operation_leaves_its_notification() {
    let mut c = escrow(1);
    let id = c
        .create_campaign(
            who("creator"),
            "t".to_string(),
            "d".to_string(),
            digest(7),
            500,
            schedule(&[500]),
            NOW,
        )
        .unwrap();
    c.fund_campaign(id, who("a"), 100, NOW).unwrap();
    c.fund_campaign(id, who("b"), 400, NOW).unwrap();
    c.submit_proof(id, 0, who("creator"), digest(3), NOW).unwrap();
    c.submit_ai_verdict(id, 0, who("oracle"), VerificationStatus::Partial, 61, NOW).unwrap();
    c.vote(id, 0, who("b"), true).unwrap();
    c.release_funds(id, 0, NOW).unwrap();
    c.close_campaign(id, who("creator"), NOW + 7).unwrap();
    c.set_ai_oracle(who("admin"), who("next")).unwrap();
    c.set_paused(who("admin"), true).unwrap();
    c.refund_backers(id, who("admin")).unwrap();
    // What is refused leaves none.
    assert!(c.fund_campaign(id, who("a"), 1, NOW).is_err());
    assert!(c.vote(id, 0, who("a"), true).is_err());
    assert!(c.release_funds(id, 0, NOW).is_err());
    assert!(c.set_paused(who("a"), false).is_err());
    let id_of = id;
    assert_eq!(
        c.take_events(),
        vec![
            Event::CampaignCreated { campaign_id: id_of, creator: who("creator"), total_goal: 500 },
            Event::Funded { campaign_id: id_of, backer: who("a"), amount: 100, funds_raised: 100 },
            Event::Funded { campaign_id: id_of, backer: who("b"), amount: 400, funds_raised: 500 },
            Event::ProofSubmitted { campaign_id: id_of, milestone_id: 0, ipfs_hash: digest(3) },
            Event::VerdictSubmitted {
                campaign_id: id_of,
                milestone_id: 0,
                status: VerificationStatus::Partial,
                confidence: 61,
            },
            Event::Voted {
                campaign_id: id_of,
                milestone_id: 0,
                voter: who("b"),
                approve: true,
                voting_power: 20,
            },
            Event::Released { campaign_id: id_of, milestone_id: 0, creator_amount: 488, fee: 12 },
            Event::CampaignClosed { campaign_id: id_of, at: NOW + 7 },
            Event::OracleChanged { new_oracle: who("next") },
            Event::PauseChanged { paused: true },
            Event::Refunded { campaign_id: id_of, refund_count: 2 },
        ]
    );
    assert!(c.events.is_empty());
}

#[test]
fn the_operations_say_when_their_counters_are_full() {
    let (mut c, id) = three_backers();
    assert!(c.fund_campaign_fits(id, &who("d"), 1));
    assert!(c.vote_fits(id, 0, &who("a"), true));
    assert!(c.create_campaign_fits(500, &schedule(&[500])));
    c.next_id = u32::MAX;
    // A creation that is refused anyway can be asked for; one that would succeed cannot.
    assert!(c.create_campaign_fits(500, &schedule(&[499])));
    assert!(!c.create_campaign_fits(500, &schedule(&[500])));
    c.next_id = 2;
    let m = &mut c.campaigns.get_mut(&id).unwrap().milestones[0];
    m.votes_for = u64::MAX - 9;
    assert!(!c.vote_fits(id, 0, &who("a"), true));
    assert!(c.vote_fits(id, 0, &who("a"), false));
    assert!(c.vote_fits(id, 0, &who("stranger"), true));
    assert!(c.vote_fits(id, 1, &who("a"), true));
    let m = &mut c.campaigns.get_mut(&id).unwrap().milestones[0];
    m.votes_for = u64::MAX - 10;
    assert!(c.vote_fits(id, 0, &who("a"), true));
    assert_eq!(c.vote(id, 0, who("a"), true), Ok(10));
    assert_eq!(c.get_vote_status(id, 0), Ok((u64::MAX, 0, 1)));

    let (mut c, id) = campaign(&[500, 500]);
    c.fund_campaign(id, who("a"), 1, NOW).unwrap();
    assert!(c.fund_campaign_fits(id, &who("b"), 1));
    assert!(c.fund_campaign_fits(id, &who("a"), 1));
    assert!(c.fund_campaign_fits(id, &who("b"), 1000));
    assert!(c.fund_campaign_fits(id, &who("b"), 0));
    assert!(c.fund_campaign_fits(9, &who("b"), 1));
}

#[test]
fn voting_power_is_the_square_root_of_large_contributions_too() {
    let goal = 1i128 << 100;
    let (mut c, id) = campaign(&[goal]);
    c.fund_campaign(id, who("whale"), goal, NOW).unwrap();
    assert_eq!(c.get_backer(id, &who("whale")), Ok((goal, 1u64 << 50)));
    open_vote(&mut c, id, 0);
    assert!(c.vote_fits(id, 0, &who("whale"), true));
    assert_eq!(c.vote(id, 0, who("whale"), true), Ok(1u64 << 50));
}

#[test]
fn votes_are_taken_on_a_milestone_marked_as_verified() {
    let (mut c, id) = three_backers();
    // No operation leaves a milestone in this status; where one is found in it, votes are taken.
    c.campaigns.get_mut(&id).unwrap().milestones[0].status = MilestoneStatus::AIVerified;
    assert!(c.get_campaign(id).unwrap().is_valid());
    assert_eq!(c.vote(id, 0, who("c"), false), Ok(30));
    assert_eq!(c.get_milestone(id, 0).unwrap().status, MilestoneStatus::AIVerified);
    assert_eq!(c.vote(id, 0, who("a"), true), Ok(10));
    assert_eq!(c.get_vote_status(id, 0), Ok((10, 30, 2)));
    for status in [
        MilestoneStatus::InProgress,
        MilestoneStatus::ProofSubmitted,
        MilestoneStatus::Approved,
        MilestoneStatus::Disputed,
        MilestoneStatus::Rejected,
    ] {
        let (mut c, id) = three_backers();
        c.campaigns.get_mut(&id).unwrap().milestones[0].status = status;
        assert!(c.get_campaign(id).unwrap().is_valid());
        assert_eq!(c.vote(id, 0, who("a"), true), Err(ContractError::VotingNotOpen));
    }
    let (mut c, id) = three_backers();
    assert_eq!(c.get_milestone(id, 1).unwrap().status, MilestoneStatus::Pending);
    assert_eq!(c.vote(id, 1, who("a"), true), Err(ContractError::VotingNotOpen));
    c.vote(id, 0, who("a"), true).unwrap();
    c.release_funds(id, 0, NOW).unwrap();
    assert_eq!(c.get_milestone(id, 0).unwrap().status, MilestoneStatus::Released);
    assert_eq!(c.vote(id, 0, who("b"), true), Err(ContractError::VotingNotOpen));
}
