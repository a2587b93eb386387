use chainfund::address::Address;
use chainfund::bridge::{ChainId, CrossChainBridge, RequestStatus, TokenConfig};

fn who(name: &str) -> Address {
    Address::new(name)
}

fn usdc(min: i128, max: i128) -> TokenConfig {
    TokenConfig {
        name: "USD Coin".to_string(),
        symbol: "USDC".to_string(),
        decimals: 6,
        native_chain: ChainId::Ethereum,
        native_address: vec![0xa0, 0xb8],
        wrapped_address: who("wrapped"),
        min_transfer: min,
        max_transfer: max,
    }
}

fn bridge() -> CrossChainBridge {
    let mut b = CrossChainBridge::new();
    b.initialize(who("admin"), vec![who("v1"), who("v2"), who("v3")], 2);
    assert!(b.may_register(&who("admin")));
    assert!(register(&mut b, 10, 1000));
    b
}

fn register(b: &mut CrossChainBridge, min: i128, max: i128) -> bool {
    let t = usdc(min, max);
    b.register_token(
        &who("admin"),
        t.name,
        t.symbol,
        t.decimals,
        t.native_chain,
        t.native_address,
        t.wrapped_address,
        t.min_transfer,
        t.max_transfer,
    )
}

#[test]
fn bridge_registers_tokens_for_the_administrator() {
    let mut b = CrossChainBridge::new();
    assert!(!b.may_register(&who("admin")));
    assert_eq!(b.is_validator(&who("v1")), None);
    assert!(b.get_token_config(&"USDC".to_string()).is_none());
    b.initialize(who("admin"), vec![who("v1")], 1);
    assert!(!b.may_register(&who("v1")));
    assert!(b.may_register(&who("admin")));
    assert_eq!(b.is_validator(&who("v1")), Some(true));
    assert_eq!(b.is_validator(&who("admin")), Some(false));
    assert!(register(&mut b, 10, 1000));
    assert_eq!(b.get_token_config(&"USDC".to_string()), Some(&usdc(10, 1000)));
    assert!(b.get_token_config(&"XLM".to_string()).is_none());
    // A token of the same symbol takes the place of the first.
    assert!(register(&mut b, 5, 50));
    assert_eq!(b.config.as_ref().unwrap().supported_tokens.len(), 1);
    assert_eq!(b.get_token_config(&"USDC".to_string()).unwrap().max_transfer, 50);
}

#[test]
fn bridge_transfer_goes_from_pending_to_executed() {
    let mut b = bridge();
    let symbol = "USDC".to_string();
    assert_eq!(b.may_initiate(&symbol, 9, ChainId::Ethereum), None);
    assert_eq!(b.may_initiate(&symbol, 1001, ChainId::Ethereum), None);
    assert_eq!(b.may_initiate(&"XLM".to_string(), 100, ChainId::Ethereum), None);
    assert_eq!(b.may_initiate(&symbol, 10, ChainId::Ethereum), Some(0));
    assert_eq!(b.may_initiate(&symbol, 1000, ChainId::Ethereum), Some(0));
    let id = b.initiate_transfer(who("alice"), symbol.clone(), 500, ChainId::Ethereum, vec![1, 2]);
    assert_eq!(id, 1);
    let second = b.initiate_transfer(who("bob"), symbol.clone(), 10, ChainId::Ethereum, vec![3]);
    assert_eq!(second, 2);
    let third = b.initiate_transfer(who("bob"), symbol.clone(), 10, ChainId::Stellar, vec![3]);
    assert_eq!(third, 3);
    let r = b.get_request(1).unwrap();
    assert_eq!(r.request_id, 1);
    assert_eq!(r.from_chain, ChainId::Stellar);
    assert_eq!(r.to_chain, ChainId::Ethereum);
    assert_eq!(r.token_symbol, "USDC");
    assert_eq!(r.amount, 500);
    assert_eq!(r.sender, who("alice"));
    assert_eq!(r.recipient, vec![1, 2]);
    assert_eq!(r.status, RequestStatus::Pending);
    assert!(r.confirmations.is_empty());
    assert_eq!(r.nonce, 0);
    assert_eq!(b.get_request(2).unwrap().nonce, 1);
    assert_eq!(b.get_request(3).unwrap().nonce, 0);
    assert_eq!(b.config.as_ref().unwrap().ethereum_nonce, 2);
    assert_eq!(b.config.as_ref().unwrap().stellar_nonce, 1);
    assert!(b.get_request(4).is_none());

    assert!(!b.may_execute(1));
    assert!(!b.may_confirm(&who("mallory"), 1));
    assert!(!b.may_confirm(&who("v1"), 9));
    assert!(b.may_confirm(&who("v1"), 1));
    assert!(b.confirm_transfer(who("v1"), 1));
    assert_eq!(b.get_request(1).unwrap().status, RequestStatus::Pending);
    assert!(!b.may_confirm(&who("v1"), 1));
    assert!(b.may_confirm(&who("v2"), 1));
    assert!(b.confirm_transfer(who("v2"), 1));
    let r = b.get_request(1).unwrap();
    assert_eq!(r.status, RequestStatus::Confirmed);
    assert_eq!(r.confirmations, vec![who("v1"), who("v2")]);
    // A confirmed request takes no further confirmation.
    assert!(!b.may_confirm(&who("v3"), 1));
    assert!(!b.may_execute(2));
    assert!(b.may_execute(1));
    assert!(b.execute_transfer(&who("anyone"), 1));
    assert_eq!(b.get_request(1).unwrap().status, RequestStatus::Executed);
    assert!(!b.may_execute(1));
    assert_eq!(b.get_request(2).unwrap().status, RequestStatus::Pending);
}

#[test]
fn bridge_initialize_forgets_tokens_and_counters() {
    let mut b = bridge();
    b.initiate_transfer(who("a"), "USDC".to_string(), 10, ChainId::Ethereum, vec![]);
    b.initialize(who("boss"), vec![], 0);
    assert!(b.get_token_config(&"USDC".to_string()).is_none());
    assert_eq!(b.config.as_ref().unwrap().ethereum_nonce, 0);
    assert_eq!(b.is_validator(&who("v1")), Some(false));
    assert!(b.get_request(1).is_some());
    assert_eq!(b.next_request_id, 2);
    assert!(!b.may_register(&who("admin")));
    assert!(b.may_register(&who("boss")));
}

#[test]
fn bridge_restore_takes_requests_with_ids_of_their_own() {
    let mut b = bridge();
    b.initiate_transfer(who("a"), "USDC".to_string(), 10, ChainId::Ethereum, vec![]);
    b.initiate_transfer(who("a"), "USDC".to_string(), 10, ChainId::Ethereum, vec![]);
    let first = b.requests.remove(&1).unwrap();
    let second = b.requests.remove(&2).unwrap();
    let config = b.config.take();
    let restored = CrossChainBridge::restore(config, 3, vec![first, second]).unwrap();
    assert_eq!(restored.get_request(2).unwrap().nonce, 1);
    assert_eq!(restored.is_validator(&who("v2")), Some(true));
    let mut b = bridge();
    b.initiate_transfer(who("a"), "USDC".to_string(), 10, ChainId::Ethereum, vec![]);
    let only = b.requests.remove(&1).unwrap();
    assert!(CrossChainBridge::restore(None, 1, vec![only]).is_none());
    assert!(CrossChainBridge::restore(None, 0, vec![]).is_none());
    assert!(CrossChainBridge::restore(None, 1, vec![]).is_some());
}

#[test]
fn bridge_counters_have_an_end() {
    let mut b = bridge();
    b.next_request_id = u64::MAX;
    assert_eq!(b.may_initiate(&"USDC".to_string(), 10, ChainId::Ethereum), None);
    b.next_request_id = 5;
    b.config.as_mut().unwrap().ethereum_nonce = u64::MAX;
    assert_eq!(b.may_initiate(&"USDC".to_string(), 10, ChainId::Ethereum), None);
    assert_eq!(b.may_initiate(&"USDC".to_string(), 10, ChainId::Stellar), Some(0));
}
