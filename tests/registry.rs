use feem_nft::ident::decimal_string;
use feem_nft::metadata::generate_metadata;
use feem_nft::registry::{Contract, ContractMetadata, DEFAULT_BASE_URI, DEFAULT_PRICE};
use feem_nft::settlement::{check_payment, refund_deposit, IssueError, Settlement};

const MINT_STORAGE_COST: u128 = 9_000_000_000_000_000_000_000;
const BYTE_COST: u128 = 10_000_000_000_000_000_000;
const RECORD_BYTES: u64 = 500;

fn metadata_with(base_uri: Option<&str>) -> ContractMetadata {
    ContractMetadata {
        spec: "nft-1.0.0".to_string(),
        name: "Test".to_string(),
        symbol: "T".to_string(),
        icon: None,
        base_uri: base_uri.map(|s| s.to_string()),
        reference: None,
        reference_hash: None,
    }
}

fn small_registry() -> Contract {
    Contract::new_with_price("owner".to_string(), metadata_with(Some("https://x/")), 5).unwrap()
}

#[test]
fn test_new() {
    let contract = Contract::new_default_meta("bob".to_string());
    assert!(contract.nft_token(1).is_none());
}

#[test]
fn test_mint() {
    let mut contract = Contract::new_default_meta("alice".to_string());
    let price: u128 = 5_000_000_000_000_000_000_000_000;
    let attached = MINT_STORAGE_COST + price;
    let token1 = contract
        .buy_nft_one("bob".to_string(), attached, RECORD_BYTES, BYTE_COST, 0)
        .unwrap()
        .token;
    let token2 = contract
        .buy_nft_one("bob".to_string(), attached, RECORD_BYTES, BYTE_COST, 0)
        .unwrap()
        .token;
    assert_eq!(token1.token_id, "1");
    assert_eq!(token1.owner_id, "bob");
    assert_eq!(token2.token_id, "2");
    assert_eq!(token2.owner_id, "bob");
    for (token, id) in [(&token1, "1"), (&token2, "2")] {
        let m = token.metadata.as_ref().unwrap();
        assert_eq!(m.title.as_deref(), Some(format!("Feem NFT #{}", id).as_str()));
        assert_eq!(m.description.as_deref(), Some("My FIRST NFT"));
        assert_eq!(m.media, Some(format!("{}{}.png", DEFAULT_BASE_URI, id)));
        assert_eq!(m.media_hash, None);
        assert_eq!(m.copies, Some(1));
        assert_eq!(m.issued_at.as_deref(), Some("0"));
        assert_eq!(m.expires_at, None);
        assert_eq!(m.starts_at, None);
        assert_eq!(m.updated_at, None);
        assert_eq!(m.extra, None);
        assert_eq!(m.reference, None);
        assert_eq!(m.reference_hash, None);
        assert!(token.approved_account_ids.as_ref().unwrap().is_empty());
    }
    assert_eq!(contract.nft_total_supply(), 2);
}

#[test]
fn default_registry_configuration() {
    let contract = Contract::new_default_meta("alice".to_string());
    assert_eq!(contract.get_owner(), "alice");
    assert_eq!(contract.price(), DEFAULT_PRICE);
    assert_eq!(contract.price(), 5_000_000_000_000_000_000_000_000);
    assert_eq!(contract.current_token_id(), 0);
    assert_eq!(contract.base_uri(), DEFAULT_BASE_URI);
    let m = contract.nft_metadata();
    assert_eq!(m.spec, "nft-1.0.0");
    assert_eq!(m.name, "FEEEEM NFT V1");
    assert_eq!(m.symbol, "FEEM");
    assert_eq!(m.icon, None);
    assert_eq!(m.base_uri.as_deref(), Some(DEFAULT_BASE_URI));
    assert_eq!(m.reference, None);
    assert_eq!(m.reference_hash, None);
}

#[test]
fn new_uses_default_price() {
    let c = Contract::new("o".to_string(), metadata_with(Some("u/"))).unwrap();
    assert_eq!(c.price(), DEFAULT_PRICE);
    assert_eq!(c.base_uri(), "u/");
    assert_eq!(c.get_owner(), "o");
}

#[test]
fn missing_base_uri_is_configuration_error() {
    let r = Contract::new("o".to_string(), metadata_with(None));
    assert_eq!(r.err(), Some(IssueError::ConfigurationError));
    let r = Contract::new_with_price("o".to_string(), metadata_with(None), 5);
    assert_eq!(r.err(), Some(IssueError::ConfigurationError));
}

#[test]
fn first_purchase_scenario() {
    let mut c = small_registry();
    let rent = 3 * 7;
    let p = c.buy_nft_one("A".to_string(), 5 + rent, 3, 7, 42).unwrap();
    assert_eq!(p.token.token_id, "1");
    assert_eq!(p.token.owner_id, "A");
    let m = p.token.metadata.unwrap();
    assert_eq!(m.title.as_deref(), Some("Feem NFT #1"));
    assert_eq!(m.media.as_deref(), Some("https://x/1.png"));
    assert_eq!(m.issued_at.as_deref(), Some("42"));
    assert_eq!(p.settlement, Settlement { to_beneficiary: 5, storage_rent: 21, refund: 0 });
    assert_eq!(c.current_token_id(), 1);
}

#[test]
fn second_purchase_scenario() {
    let mut c = small_registry();
    c.buy_nft_one("A".to_string(), 100, 3, 7, 1).unwrap();
    let p = c.buy_nft_one("B".to_string(), 100, 3, 7, 2).unwrap();
    assert_eq!(p.token.token_id, "2");
    assert_eq!(p.token.owner_id, "B");
    assert_eq!(c.nft_token(1).unwrap().owner_id, "A");
    assert_eq!(c.nft_token(1).unwrap().token_id, "1");
    assert_eq!(c.nft_token(2).unwrap().owner_id, "B");
    assert!(c.nft_token(3).is_none());
    assert!(c.nft_token(0).is_none());
}

#[test]
fn insufficient_payment_scenario() {
    let mut c = small_registry();
    let r = c.buy_nft_one("A".to_string(), 4, 0, 0, 0);
    assert_eq!(r.unwrap_err(), IssueError::InsufficientPayment { price: 5 });
    assert_eq!(c.current_token_id(), 0);
    assert!(c.nft_token(1).is_none());
    let p = c.buy_nft_one("A".to_string(), 5, 0, 0, 0).unwrap();
    assert_eq!(p.token.token_id, "1");
}

#[test]
fn insufficient_storage_deposit_rolls_back() {
    let mut c = small_registry();
    let r = c.buy_nft_one("A".to_string(), 25, 3, 7, 0);
    assert_eq!(r.unwrap_err(), IssueError::InsufficientStorageDeposit { required: 21 });
    assert_eq!(c.current_token_id(), 0);
    assert!(c.nft_token(1).is_none());
    assert_eq!(c.nft_total_supply(), 0);
}

#[test]
fn identifiers_increase_by_one() {
    let mut c = small_registry();
    for k in 1..=20u64 {
        let p = c.buy_nft_one(format!("acct{}", k % 3), 5, 0, 0, k).unwrap();
        assert_eq!(p.token.token_id, k.to_string());
        assert_eq!(c.current_token_id() as u64, k);
    }
    assert_eq!(c.nft_total_supply(), 20);
}

#[test]
fn owner_recorded_after_purchase() {
    let mut c = small_registry();
    let p = c.buy_nft_one("carol".to_string(), 9, 1, 1, 0).unwrap();
    assert_eq!(p.settlement.refund, 3);
    let stored = c.nft_token(1).unwrap();
    assert_eq!(stored.owner_id, "carol");
    assert_eq!(stored.token_id, p.token.token_id);
    assert_eq!(stored.metadata.as_ref().unwrap().title, p.token.metadata.unwrap().title);
}

#[test]
fn allocator_exhausted_after_last_identifier() {
    let mut c = small_registry();
    for _ in 0..u16::MAX {
        c.buy_nft_one("A".to_string(), 5, 0, 0, 0).unwrap();
    }
    assert_eq!(c.current_token_id(), u16::MAX);
    assert_eq!(c.nft_token(65535).unwrap().token_id, "65535");
    let r = c.buy_nft_one("A".to_string(), 5, 0, 0, 0);
    assert_eq!(r.unwrap_err(), IssueError::AllocatorExhausted);
    assert_eq!(c.current_token_id(), u16::MAX);
    let r = c.buy_nft_one("A".to_string(), 4, 0, 0, 0);
    assert_eq!(r.unwrap_err(), IssueError::InsufficientPayment { price: 5 });
}

#[test]
fn refund_amounts() {
    assert_eq!(
        refund_deposit(100, 5, 10, 3),
        Ok(Settlement { to_beneficiary: 5, storage_rent: 30, refund: 65 })
    );
    assert_eq!(
        refund_deposit(37, 5, 10, 3),
        Ok(Settlement { to_beneficiary: 5, storage_rent: 30, refund: 2 })
    );
    assert_eq!(
        refund_deposit(36, 5, 10, 3),
        Ok(Settlement { to_beneficiary: 5, storage_rent: 30, refund: 0 })
    );
    assert_eq!(
        refund_deposit(35, 5, 10, 3),
        Ok(Settlement { to_beneficiary: 5, storage_rent: 30, refund: 0 })
    );
}

#[test]
fn refund_errors() {
    assert_eq!(refund_deposit(4, 5, 0, 0), Err(IssueError::InsufficientPayment { price: 5 }));
    assert_eq!(
        refund_deposit(34, 5, 10, 3),
        Err(IssueError::InsufficientStorageDeposit { required: 30 })
    );
    assert_eq!(
        refund_deposit(u128::MAX, 0, u64::MAX, u128::MAX),
        Err(IssueError::InsufficientStorageDeposit { required: u128::MAX })
    );
    let r = refund_deposit(u128::MAX, 0, 1, u128::MAX);
    assert_eq!(r, Ok(Settlement { to_beneficiary: 0, storage_rent: u128::MAX, refund: 0 }));
}

#[test]
fn payment_gate() {
    assert_eq!(check_payment(5, 5), Ok(()));
    assert_eq!(check_payment(6, 5), Ok(()));
    assert_eq!(check_payment(4, 5), Err(IssueError::InsufficientPayment { price: 5 }));
    assert_eq!(check_payment(0, 0), Ok(()));
}

#[test]
fn metadata_is_deterministic() {
    let a = generate_metadata("7", "https://x/", 99);
    let b = generate_metadata("7", "https://x/", 99);
    assert_eq!(a.title, b.title);
    assert_eq!(a.media, b.media);
    assert_eq!(a.issued_at, b.issued_at);
    assert_eq!(a.description, b.description);
    let c = generate_metadata("7", "https://x/", 12345);
    assert_eq!(a.title, c.title);
    assert_eq!(a.media, c.media);
    assert_eq!(c.title.as_deref(), Some("Feem NFT #7"));
    assert_eq!(c.media.as_deref(), Some("https://x/7.png"));
    assert_eq!(c.issued_at.as_deref(), Some("12345"));
    assert_eq!(c.copies, Some(1));
}

#[test]
fn decimal_rendering() {
    assert_eq!(decimal_string(0), "0");
    assert_eq!(decimal_string(9), "9");
    assert_eq!(decimal_string(10), "10");
    assert_eq!(decimal_string(1234567890), "1234567890");
    assert_eq!(decimal_string(u64::MAX), u64::MAX.to_string());
}

#[test]
fn owner_index_after_purchases() {
    let mut c = small_registry();
    c.buy_nft_one("A".to_string(), 5, 0, 0, 0).unwrap();
    c.buy_nft_one("B".to_string(), 5, 0, 0, 0).unwrap();
    c.buy_nft_one("A".to_string(), 5, 0, 0, 0).unwrap();
    assert_eq!(c.nft_tokens_for_owner(&"A".to_string()), vec![1, 3]);
    assert_eq!(c.nft_tokens_for_owner(&"B".to_string()), vec![2]);
    assert!(c.nft_tokens_for_owner(&"C".to_string()).is_empty());
    let r = c.buy_nft_one("C".to_string(), 1, 0, 0, 0);
    assert!(r.is_err());
    assert!(c.nft_tokens_for_owner(&"C".to_string()).is_empty());
    let p = c.buy_nft_one("C".to_string(), 5, 0, 0, 0).unwrap();
    assert_eq!(p.token.token_id, "4");
    assert_eq!(c.nft_tokens_for_owner(&"C".to_string()), vec![4]);
}

#[test]
fn invalid_metadata_is_configuration_error() {
    let mut m = metadata_with(Some("u/"));
    m.spec = "not-a-spec".to_string();
    assert_eq!(Contract::new("o".to_string(), m).err(), Some(IssueError::ConfigurationError));

    let mut m = metadata_with(Some("u/"));
    m.reference = Some("https://ref".to_string());
    assert_eq!(Contract::new("o".to_string(), m).err(), Some(IssueError::ConfigurationError));

    let mut m = metadata_with(Some("u/"));
    m.reference_hash = Some(vec![0u8; 32]);
    assert_eq!(Contract::new("o".to_string(), m).err(), Some(IssueError::ConfigurationError));

    let mut m = metadata_with(Some("u/"));
    m.reference = Some("https://ref".to_string());
    m.reference_hash = Some(vec![0u8; 31]);
    let r = Contract::new_with_price("o".to_string(), m, 5);
    assert_eq!(r.err(), Some(IssueError::ConfigurationError));

    let mut m = metadata_with(Some("u/"));
    m.reference = Some("https://ref".to_string());
    m.reference_hash = Some(vec![7u8; 32]);
    assert!(Contract::new("o".to_string(), m).is_ok());
}
