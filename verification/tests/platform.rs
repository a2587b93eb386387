use chainfund::address::Address;
use chainfund::escrow::types::Party;
use chainfund::platform::types::{
    CampaignContractImpl, CampaignStatus, ChainFundContract, ChainFundError, Milestone,
    MilestoneStatus, NFTContractImpl, VotingContractImpl,
};

fn who(name: &str) -> Address {
    Address::new(name)
}

fn milestone(id: u32, title: &str, description: &str, amount: i128) -> Milestone {
    Milestone {
        id,
        title: title.to_string(),
        description: description.to_string(),
        amount,
        status: MilestoneStatus::Pending,
        votes_for: 0,
        votes_against: 0,
        created_at: 0,
    }
}

#[test]
fn test_create_campaign() {
    let mut client = ChainFundContract::new();
    let admin = who("admin");
    client.initialize(admin).unwrap();

    let creator = who("creator");
    let title = "Test Campaign".to_string();
    let description = "A test crowdfunding campaign".to_string();
    let goal_amount = 1000;
    let duration_days = 30;

    let milestones = vec![milestone(1, "Prototype", "Build initial prototype", 500)];

    let campaign_id = client
        .create_campaign(
            creator.clone(),
            title.clone(),
            description,
            goal_amount,
            milestones,
            duration_days,
            0,
        )
        .unwrap();

    assert_eq!(campaign_id, 1);

    let campaign = client.get_campaign(campaign_id).unwrap();
    assert_eq!(campaign.title, title);
    assert_eq!(campaign.creator, creator);
    assert_eq!(campaign.goal_amount, goal_amount);
    assert_eq!(campaign.status, CampaignStatus::Active);
}

#[test]
fn test_back_campaign() {
    let mut client = ChainFundContract::new();
    let admin = who("admin");
    client.initialize(admin).unwrap();

    let creator = who("creator");
    let campaign_id = client
        .create_campaign(
            creator,
            "Test Campaign".to_string(),
            "Description".to_string(),
            1000,
            vec![],
            30,
            0,
        )
        .unwrap();

    let backer = who("backer");
    let amount = 500;

    client.back_campaign(backer.clone(), campaign_id, amount, 0).unwrap();

    let campaign = client.get_campaign(campaign_id).unwrap();
    assert_eq!(campaign.total_backed, amount);
    assert!(campaign.backers.contains_key(&backer));
}

#[test]
fn test_vote_milestone() {
    let mut client = ChainFundContract::new();
    let admin = who("admin");
    client.initialize(admin).unwrap();

    let creator = who("creator");
    let milestones = vec![milestone(1, "Milestone 1", "First milestone", 500)];

    let campaign_id = client
        .create_campaign(
            creator,
            "Test Campaign".to_string(),
            "Description".to_string(),
            1000,
            milestones,
            30,
            0,
        )
        .unwrap();

    let backer = who("backer");
    client.back_campaign(backer.clone(), campaign_id, 100, 0).unwrap();

    client.vote_milestone(backer, campaign_id, 1, true, 0).unwrap();

    let campaign = client.get_campaign(campaign_id).unwrap();
    let milestone = &campaign.milestones[0];
    assert_eq!(milestone.votes_for, 1);
}

#[test]
fn test_mint_skill_nft() {
    let mut client = ChainFundContract::new();
    let admin = who("admin");
    client.initialize(admin).unwrap();

    let recipient = who("recipient");
    let skill_score = 250;
    let skill_level = "Intermediate".to_string();

    let token_id = client.mint_skill_nft(recipient.clone(), skill_score, skill_level.clone(), 0).unwrap();

    assert_eq!(token_id, 1);

    let nft = client.get_skill_nft(token_id).unwrap();
    assert_eq!(nft.owner, recipient);
    assert_eq!(nft.skill_score, skill_score);
    assert_eq!(nft.skill_level, skill_level);
}

fn platform() -> (ChainFundContract, u64) {
    let mut p = ChainFundContract::new();
    p.initialize(who("admin")).unwrap();
    let id = p
        .create_campaign(
            who("creator"),
            "t".to_string(),
            "d".to_string(),
            1000,
            vec![milestone(1, "a", "b", 400), milestone(2, "c", "d", 600)],
            30,
            1_000,
        )
        .unwrap();
    (p, id)
}

#[test]
fn platform_initialize_once_and_count_campaigns() {
    let mut p = ChainFundContract::new();
    assert_eq!(p.get_campaign_count(), 0);
    assert_eq!(p.get_nft_count(), 0);
    assert_eq!(p.initialize(who("admin")), Ok(()));
    assert_eq!(p.initialize(who("other")), Err(ChainFundError::Unauthorized));
    assert_eq!(p.admin, Some(who("admin")));
    let create = |p: &mut ChainFundContract, goal: i128| {
        p.create_campaign(who("c"), "t".to_string(), "d".to_string(), goal, vec![], 2, 100)
    };
    assert_eq!(create(&mut p, 0), Err(ChainFundError::InvalidAmount));
    assert_eq!(create(&mut p, -1), Err(ChainFundError::InvalidAmount));
    assert_eq!(p.get_campaign_count(), 0);
    assert_eq!(create(&mut p, 1), Ok(1));
    assert_eq!(create(&mut p, 1), Ok(2));
    assert_eq!(p.get_campaign_count(), 2);
    let c = p.get_campaign(2).unwrap();
    assert_eq!(c.id, 2);
    assert_eq!(c.created_at, 100);
    assert_eq!(c.end_date, 100 + 2 * 86_400);
    assert_eq!(c.total_backed, 0);
    assert_eq!(p.get_campaign(3).err(), Some(ChainFundError::CampaignNotFound));
    assert_eq!(CampaignContractImpl::get_campaign_count(&p), 2);
}

#[test]
fn platform_back_campaign_until_funded_or_ended() {
    let (mut p, id) = platform();
    let end = 1_000 + 30 * 86_400;
    assert_eq!(p.back_campaign(who("a"), id, 0, 2_000), Err(ChainFundError::InvalidAmount));
    assert_eq!(p.back_campaign(who("a"), 9, 5, 2_000), Err(ChainFundError::CampaignNotFound));
    assert_eq!(p.back_campaign(who("a"), id, 5, end + 1), Err(ChainFundError::CampaignEnded));
    assert_eq!(p.back_campaign(who("a"), id, 300, 2_000), Ok(()));
    assert_eq!(p.back_campaign(who("a"), id, 200, end), Ok(()));
    let c = p.get_campaign(id).unwrap();
    assert_eq!(c.total_backed, 500);
    assert_eq!(c.status, CampaignStatus::Active);
    let info = c.backers.get(&who("a")).unwrap();
    assert_eq!(info.amount, 500);
    assert_eq!(info.timestamp, end);
    // The last backer may overshoot the goal.
    assert_eq!(p.back_campaign(who("b"), id, 700, 3_000), Ok(()));
    let c = p.get_campaign(id).unwrap();
    assert_eq!(c.total_backed, 1200);
    assert_eq!(c.status, CampaignStatus::Funded);
    assert_eq!(p.back_campaign(who("b"), id, 1, 3_000), Err(ChainFundError::CampaignNotActive));
    assert_eq!(p.payments.len(), 3);
    assert_eq!(p.payments[2].from, Party::Account(who("b")));
    assert_eq!(p.payments[2].to, Party::Escrow);
    assert_eq!(p.payments[2].amount, 700);
}

#[test]
fn platform_votes_decide_a_milestone_at_three() {
    let (mut p, id) = platform();
    for name in ["a", "b", "c", "d"] {
        p.back_campaign(who(name), id, 10, 2_000).unwrap();
    }
    assert_eq!(p.vote_milestone(who("x"), id, 1, true, 0), Err(ChainFundError::Unauthorized));
    assert_eq!(p.vote_milestone(who("a"), 9, 1, true, 0), Err(ChainFundError::CampaignNotFound));
    assert_eq!(p.vote_milestone(who("a"), id, 3, true, 0), Err(ChainFundError::MilestoneNotFound));
    assert_eq!(p.vote_milestone(who("a"), id, 1, true, 5), Ok(()));
    assert_eq!(p.vote_milestone(who("a"), id, 1, false, 5), Err(ChainFundError::AlreadyVoted));
    assert_eq!(p.vote_milestone(who("a"), id, 2, false, 5), Ok(()));
    assert_eq!(p.vote_milestone(who("b"), id, 1, false, 5), Ok(()));
    assert_eq!(p.get_campaign(id).unwrap().milestones[0].status, MilestoneStatus::Pending);
    assert_eq!(p.vote_milestone(who("c"), id, 1, true, 6), Ok(()));
    let m = &p.get_campaign(id).unwrap().milestones[0];
    assert_eq!((m.votes_for, m.votes_against), (2, 1));
    assert_eq!(m.status, MilestoneStatus::Active);
    assert_eq!(p.vote_milestone(who("d"), id, 1, true, 6), Err(ChainFundError::MilestoneNotPending));
    assert_eq!(p.vote_milestone(who("b"), id, 2, false, 7), Ok(()));
    assert_eq!(VotingContractImpl::vote_milestone(&mut p, who("c"), id, 2, true, 7), Ok(()));
    let m = &p.get_campaign(id).unwrap().milestones[1];
    assert_eq!((m.votes_for, m.votes_against), (1, 2));
    assert_eq!(m.status, MilestoneStatus::Rejected);
    assert_eq!(p.votes.len(), 6);
    assert_eq!(p.votes[0].vote.voter, who("a"));
    assert_eq!(p.votes[0].vote.timestamp, 5);
    assert!(p.has_voted(id, 2, &who("c")));
    assert!(!p.has_voted(id, 2, &who("d")));
}

#[test]
fn platform_complete_milestone_pays_the_creator() {
    let (mut p, id) = platform();
    assert_eq!(p.complete_milestone(9, 1), Err(ChainFundError::CampaignNotFound));
    assert_eq!(p.complete_milestone(id, 7), Err(ChainFundError::MilestoneNotFound));
    assert_eq!(p.complete_milestone(id, 1), Err(ChainFundError::MilestoneNotPending));
    for name in ["a", "b", "c"] {
        p.back_campaign(who(name), id, 10, 2_000).unwrap();
        p.vote_milestone(who(name), id, 1, true, 0).unwrap();
    }
    let before = p.payments.len();
    assert_eq!(p.complete_milestone(id, 1), Ok(()));
    assert_eq!(p.get_campaign(id).unwrap().milestones[0].status, MilestoneStatus::Completed);
    assert_eq!(p.payments.len(), before + 1);
    assert_eq!(p.payments[before].from, Party::Escrow);
    assert_eq!(p.payments[before].to, Party::Account(who("creator")));
    assert_eq!(p.payments[before].amount, 400);
    assert_eq!(p.complete_milestone(id, 1), Err(ChainFundError::MilestoneNotPending));
    let mut raw = ChainFundContract::new();
    assert_eq!(raw.complete_milestone(1, 1), Err(ChainFundError::Unauthorized));
}

#[test]
fn platform_skill_tokens_need_an_administrator() {
    let mut p = ChainFundContract::new();
    assert_eq!(
        p.mint_skill_nft(who("r"), 1, "Novice".to_string(), 0),
        Err(ChainFundError::Unauthorized)
    );
    p.initialize(who("admin")).unwrap();
    assert_eq!(p.mint_skill_nft(who("r"), 1, "Novice".to_string(), 10), Ok(1));
    assert_eq!(NFTContractImpl::mint_skill_nft(&mut p, who("s"), 900, "Expert".to_string(), 20), Ok(2));
    assert_eq!(p.get_nft_count(), 2);
    let nft = p.get_skill_nft(2).unwrap();
    assert_eq!(nft.token_id, 2);
    assert_eq!(nft.owner, who("s"));
    assert_eq!(nft.minted_at, 20);
    assert_eq!(p.get_skill_nft(3).err(), Some(ChainFundError::CampaignNotFound));
}

#[test]
fn platform_restore_and_room() {
    let (mut p, id) = platform();
    p.back_campaign(who("a"), id, 10, 2_000).unwrap();
    p.vote_milestone(who("a"), id, 1, true, 0).unwrap();
    p.mint_skill_nft(who("r"), 1, "Novice".to_string(), 0).unwrap();
    assert!(p.create_campaign_fits(1000, 30, 0));
    assert!(!p.create_campaign_fits(1000, 30, u64::MAX));
    assert!(p.create_campaign_fits(0, 30, u64::MAX));
    assert!(p.back_campaign_fits(id, 5, 2_000));
    assert!(!p.back_campaign_fits(id, i128::MAX, 2_000));
    assert!(p.back_campaign_fits(9, i128::MAX, 2_000));
    assert!(p.vote_milestone_fits(&who("a"), id, 2));
    assert!(p.mint_skill_nft_fits());
    p.payments.clear();
    let campaign = p.campaigns.remove(&id).unwrap();
    assert!(campaign.is_valid());
    let nft = p.nfts.remove(&1).unwrap();
    let votes = std::mem::take(&mut p.votes);
    let restored = ChainFundContract::restore(
        p.admin.take(),
        p.campaign_count,
        vec![campaign],
        votes,
        p.nft_count,
        vec![nft],
    )
    .unwrap();
    assert_eq!(restored.get_campaign(id).unwrap().total_backed, 10);
    assert!(restored.has_voted(id, 1, &who("a")));
    assert_eq!(restored.get_skill_nft(1).unwrap().owner, who("r"));
    let (mut p, id) = platform();
    let mut broken = p.campaigns.remove(&id).unwrap();
    broken.total_backed = -1;
    assert!(!broken.is_valid());
    assert!(ChainFundContract::restore(None, 1, vec![broken], vec![], 0, vec![]).is_none());
    let (mut p, id) = platform();
    p.campaigns.get_mut(&id).unwrap().milestones[0].votes_for = u32::MAX;
    p.back_campaign(who("a"), id, 10, 2_000).unwrap();
    assert!(!p.vote_milestone_fits(&who("a"), id, 1));
    assert!(p.vote_milestone_fits(&who("a"), id, 2));
    assert!(p.vote_milestone_fits(&who("b"), id, 1));
    p.nft_count = u64::MAX;
    assert!(!p.mint_skill_nft_fits());
}
