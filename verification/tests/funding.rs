use chainfund::address::Address;
use chainfund::funding::contract::NATIVE_TOKEN;
use chainfund::funding::types::{Error, ProjectFunding, ProjectStatus, StageStatus};

fn who(name: &str) -> Address {
    Address::new(name)
}

fn stages(list: &[(i128, u32)]) -> Vec<(String, String, i128, u32)> {
    list.iter().map(|(amt, req)| ("stage".to_string(), "work".to_string(), *amt, *req)).collect()
}

fn project(list: &[(i128, u32)]) -> (ProjectFunding, u32) {
    let mut f = ProjectFunding::new();
    let target = list.iter().map(|s| s.0).sum();
    let id = f
        .create_project(who("owner"), "title".to_string(), "desc".to_string(), target, stages(list))
        .unwrap();
    (f, id)
}

#[test]
fn create_project_checks_target_and_stages() {
    let mut f = ProjectFunding::new();
    let create = |f: &mut ProjectFunding, target: i128, list: &[(i128, u32)]| {
        assert!(ProjectFunding::amounts_fit(&stages(list)));
        f.create_project(who("owner"), "t".to_string(), "d".to_string(), target, stages(list))
    };
    assert_eq!(create(&mut f, 0, &[(1, 1)]), Err(Error::Invalid));
    assert_eq!(create(&mut f, -5, &[(1, 1)]), Err(Error::Invalid));
    assert_eq!(create(&mut f, 10, &[]), Err(Error::NoMStone));
    assert_eq!(create(&mut f, 0, &[]), Err(Error::Invalid));
    assert_eq!(create(&mut f, 10, &[(4, 1), (5, 1)]), Err(Error::Invalid));
    assert_eq!(f.next_id, 1);
    assert_eq!(create(&mut f, 10, &[(4, 1), (6, 2)]), Ok(1));
    // Amounts are only asked to sum to the target.
    assert_eq!(create(&mut f, 10, &[(15, 1), (-5, 2)]), Ok(2));
    let p = f.get_project(1).unwrap();
    assert_eq!(p.id, 1);
    assert_eq!(p.owner, who("owner"));
    assert_eq!(p.title, "t");
    assert_eq!(p.desc, "d");
    assert_eq!(p.target, 10);
    assert_eq!(p.current, 0);
    assert_eq!(p.balance, 0);
    assert_eq!(p.token, Address::new(NATIVE_TOKEN));
    assert_eq!(p.token.key, "CB2BI5XCTQC2Y7V63JZO2FAC7S5IX5QL2EHCHF44UDG5E3VNUHVTGOVV");
    assert_eq!(p.status, ProjectStatus::Active);
    assert_eq!(p.mstones.len(), 2);
    assert_eq!(p.mstones[0].status, StageStatus::Pending);
    assert_eq!(p.mstones[1].status, StageStatus::Pending);
    assert_eq!(p.mstones[1].amt, 6);
    assert_eq!(p.mstones[1].req_votes, 2);
    assert_eq!(f.get_project(3).err(), Some(Error::NotFound));
    assert_eq!(f.get_milestone(1, 1).unwrap().amt, 6);
    assert_eq!(f.get_milestone(1, 2).err(), Some(Error::NoMStone));
    assert_eq!(f.get_milestone(3, 0).err(), Some(Error::NotFound));
}

#[test]
fn amounts_fit_tells_sums_that_overflow() {
    assert!(ProjectFunding::amounts_fit(&stages(&[])));
    assert!(ProjectFunding::amounts_fit(&stages(&[(i128::MAX, 1)])));
    assert!(ProjectFunding::amounts_fit(&stages(&[(i128::MAX, 1), (-1, 1), (1, 1)])));
    assert!(!ProjectFunding::amounts_fit(&stages(&[(i128::MAX, 1), (1, 1), (-1, 1)])));
    assert!(!ProjectFunding::amounts_fit(&stages(&[(i128::MIN, 1), (-1, 1)])));
}

#[test]
fn fund_project_counts_up_to_the_target() {
    let (mut f, id) = project(&[(60, 1), (40, 1)]);
    assert_eq!(f.fund_project(9, who("a"), 10, 5), Err(Error::NotFound));
    assert_eq!(f.fund_project(id, who("a"), 0, 5), Err(Error::Invalid));
    assert_eq!(f.fund_project(id, who("a"), -1, 5), Err(Error::Invalid));
    assert_eq!(f.fund_project(id, who("a"), 101, 5), Err(Error::Invalid));
    assert_eq!(f.fund_project(id, who("a"), 30, 1000), Ok(()));
    assert_eq!(f.get_project_balance(id), Ok(1030));
    assert_eq!(f.fund_project(id, who("a"), 20, 2000), Ok(()));
    assert_eq!(f.fund_project(id, who("b"), 50, 3000), Ok(()));
    let p = f.get_project(id).unwrap();
    assert_eq!(p.current, 100);
    // The balance is the ledger sequence and the last amount.
    assert_eq!(p.balance, 3050);
    assert_eq!(p.backers.get(&who("a")), Some(50));
    assert_eq!(p.backers.get(&who("b")), Some(50));
    assert_eq!(p.status, ProjectStatus::Active);
    assert_eq!(f.fund_project(id, who("b"), 1, 3000), Err(Error::Invalid));
    assert_eq!(f.get_project_balance(9), Err(Error::NotFound));
}

#[test]
fn vote_on_milestone_decides_the_only_stage() {
    let (mut f, id) = project(&[(100, 3)]);
    assert_eq!(f.required_votes(id), Some(3));
    assert_eq!(f.required_votes(9), None);
    // Two thirds of three required votes, rounded down, is one.
    let threshold = 1;
    assert_eq!(f.vote_on_milestone(9, who("a"), true, threshold), Err(Error::NotFound));
    assert_eq!(f.vote_on_milestone(id, who("a"), false, threshold), Ok(false));
    assert_eq!(f.vote_on_milestone(id, who("a"), true, threshold), Err(Error::Voted));
    assert_eq!(f.vote_on_milestone(id, who("b"), false, threshold), Ok(false));
    assert_eq!(f.get_project(id).unwrap().status, ProjectStatus::Active);
    // Three votes, none in favour: the stage is not decided.
    assert_eq!(f.vote_on_milestone(id, who("c"), false, threshold), Ok(false));
    assert_eq!(f.get_project(id).unwrap().status, ProjectStatus::Active);
    assert_eq!(f.vote_on_milestone(id, who("d"), true, threshold), Ok(true));
    let p = f.get_project(id).unwrap();
    assert_eq!(p.status, ProjectStatus::Done);
    assert_eq!(p.mstones[0].votes.get(&who("a")), Some(false));
    assert_eq!(p.mstones[0].votes.get(&who("d")), Some(true));
    assert_eq!(p.mstones[0].votes.entries.len(), 4);
    assert_eq!(p.mstones[0].votes_for(), 1);
    // The stage itself stays pending, and open to further votes.
    assert_eq!(p.mstones[0].status, StageStatus::Pending);
    assert_eq!(f.vote_on_milestone(id, who("e"), true, threshold), Ok(true));
    assert_eq!(f.fund_project(id, who("a"), 1, 5), Err(Error::Inactive));
}

#[test]
fn vote_on_milestone_with_more_stages_leaves_the_project_active() {
    let (mut f, id) = project(&[(60, 1), (40, 1)]);
    assert_eq!(f.vote_on_milestone(id, who("a"), true, 0), Ok(true));
    let p = f.get_project(id).unwrap();
    assert_eq!(p.status, ProjectStatus::Active);
    assert_eq!(p.mstones[0].votes.entries.len(), 1);
    assert_eq!(p.mstones[1].votes.entries.len(), 0);
    assert_eq!(p.mstones[1].status, StageStatus::Pending);
}

#[test]
fn vote_on_milestone_needs_a_pending_stage() {
    let (mut f, id) = project(&[(60, 1), (40, 2)]);
    f.projects.get_mut(&id).unwrap().mstones[0].status = StageStatus::Done;
    assert_eq!(f.required_votes(id), Some(2));
    assert_eq!(f.vote_on_milestone(id, who("a"), true, 1), Ok(false));
    assert_eq!(f.vote_on_milestone(id, who("b"), true, 1), Ok(true));
    let p = f.get_project(id).unwrap();
    assert_eq!(p.mstones[0].votes.entries.len(), 0);
    assert_eq!(p.mstones[1].votes.entries.len(), 2);
    assert_eq!(p.status, ProjectStatus::Done);
    f.projects.get_mut(&id).unwrap().mstones[1].status = StageStatus::Done;
    assert_eq!(f.required_votes(id), None);
    assert_eq!(f.vote_on_milestone(id, who("c"), true, 1), Err(Error::NoMStone));
}

#[test]
fn funding_restore_and_room() {
    let (mut f, id) = project(&[(60, 1), (40, 1)]);
    f.fund_project(id, who("a"), 30, 7).unwrap();
    assert!(f.get_project(id).unwrap().is_valid());
    assert!(f.fund_project_fits(id, 1, u32::MAX));
    assert!(f.create_project_fits(10, &stages(&[(10, 1)])));
    assert!(!f.create_project_fits(10, &stages(&[(i128::MAX, 1), (1, 1)])));
    assert!(f.create_project_fits(0, &stages(&[(i128::MAX, 1), (1, 1)])));
    let kept = f.projects.remove(&id).unwrap();
    let restored = ProjectFunding::restore(2, vec![kept]).unwrap();
    assert_eq!(restored.get_project(id).unwrap().current, 30);
    let (mut f, id) = project(&[(60, 1)]);
    let mut broken = f.projects.remove(&id).unwrap();
    broken.current = 61;
    assert!(!broken.is_valid());
    assert!(ProjectFunding::restore(2, vec![broken]).is_none());
    let (mut f, id) = project(&[(60, 1)]);
    let kept = f.projects.remove(&id).unwrap();
    assert!(ProjectFunding::restore(1, vec![kept]).is_none());
    assert!(ProjectFunding::restore(0, vec![]).is_none());
    let mut full = ProjectFunding::new();
    full.next_id = u32::MAX;
    assert!(!full.create_project_fits(10, &stages(&[(10, 1)])));
    assert!(full.create_project_fits(10, &stages(&[(9, 1)])));
}
