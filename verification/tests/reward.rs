use chainfund::address::Address;
use chainfund::reward::RewardToken;

fn who(name: &str) -> Address {
    Address::new(name)
}

fn token() -> RewardToken {
    let mut t = RewardToken::new();
    t.initialize(who("admin"), "Reward".to_string(), "RWD".to_string());
    t
}

#[test]
fn reward_metadata_before_and_after_initialize() {
    let mut t = RewardToken::new();
    assert_eq!(t.get_metadata(), (String::new(), String::new(), 0));
    assert_eq!(t.get_total_supply(), 0);
    assert_eq!(t.get_balance(&who("a")), 0);
    t.initialize(who("admin"), "Reward".to_string(), "RWD".to_string());
    assert_eq!(t.get_metadata(), ("Reward".to_string(), "RWD".to_string(), 0));
}

#[test]
fn reward_mint_is_for_administrators() {
    let mut t = token();
    assert!(!t.mint_reward(&who("mallory"), who("a"), 50));
    assert_eq!(t.get_balance(&who("a")), 0);
    assert_eq!(t.get_total_supply(), 0);
    assert!(t.mint_reward(&who("admin"), who("a"), 50));
    assert!(t.mint_reward(&who("admin"), who("a"), 25));
    assert!(t.mint_reward(&who("admin"), who("b"), 5));
    assert_eq!(t.get_balance(&who("a")), 75);
    assert_eq!(t.get_balance(&who("b")), 5);
    assert_eq!(t.get_total_supply(), 80);
    assert_eq!(t.get_metadata().2, 80);
    // A second initialization adds an administrator and counts the supply from zero again.
    t.initialize(who("second"), "Other".to_string(), "OTH".to_string());
    assert_eq!(t.get_total_supply(), 0);
    assert_eq!(t.get_balance(&who("a")), 75);
    assert!(t.mint_reward(&who("second"), who("a"), 1));
    assert!(t.mint_reward(&who("admin"), who("a"), 1));
    assert_eq!(t.get_metadata(), ("Other".to_string(), "OTH".to_string(), 2));
}

#[test]
fn reward_transfer_moves_what_the_sender_holds() {
    let mut t = token();
    t.mint_reward(&who("admin"), who("a"), 100);
    assert!(!t.transfer(who("a"), who("b"), 101));
    assert_eq!(t.get_balance(&who("a")), 100);
    assert_eq!(t.get_balance(&who("b")), 0);
    assert!(t.transfer(who("a"), who("b"), 40));
    assert_eq!(t.get_balance(&who("a")), 60);
    assert_eq!(t.get_balance(&who("b")), 40);
    assert!(t.transfer(who("a"), who("b"), 60));
    assert_eq!(t.get_balance(&who("a")), 0);
    assert_eq!(t.get_balance(&who("b")), 100);
    assert!(t.transfer(who("nobody"), who("b"), 0));
    assert_eq!(t.get_total_supply(), 100);
}

#[test]
fn reward_transfer_to_oneself_and_of_negative_amounts() {
    let mut t = token();
    t.mint_reward(&who("admin"), who("a"), 100);
    // The receiver's balance is written last, from what it was before.
    assert!(t.transfer(who("a"), who("a"), 30));
    assert_eq!(t.get_balance(&who("a")), 130);
    assert!(t.transfer(who("b"), who("a"), -10));
    assert_eq!(t.get_balance(&who("b")), 10);
    assert_eq!(t.get_balance(&who("a")), 120);
}

#[test]
fn reward_says_when_a_balance_would_overflow() {
    let mut t = token();
    assert!(t.is_valid());
    t.mint_reward(&who("admin"), who("a"), i128::MAX - 5);
    assert!(t.mint_reward_fits(&who("admin"), &who("b"), 5));
    assert!(!t.mint_reward_fits(&who("admin"), &who("b"), 6));
    assert!(!t.mint_reward_fits(&who("admin"), &who("a"), 6));
    assert!(t.mint_reward_fits(&who("mallory"), &who("a"), 6));
    assert!(t.mint_reward(&who("admin"), who("b"), 5));
    assert!(t.transfer_fits(&who("a"), &who("b"), i128::MAX - 5));
    assert!(t.transfer_fits(&who("b"), &who("a"), 6));
    assert!(!t.transfer_fits(&who("a"), &who("b"), i128::MIN));
    // The supply is counted from zero again, so that both can hold much.
    t.initialize(who("admin"), "Reward".to_string(), "RWD".to_string());
    assert!(t.mint_reward(&who("admin"), who("b"), i128::MAX - 10));
    assert!(!t.transfer_fits(&who("a"), &who("b"), 6));
    assert!(t.transfer_fits(&who("a"), &who("b"), 5));
    assert!(t.transfer(who("a"), who("b"), 5));
    assert_eq!(t.get_balance(&who("b")), i128::MAX);
}
