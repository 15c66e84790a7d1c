use sumeragi::permission::{PermissionToken, PermissionTokenDefinition};
use sumeragi::validator::{validate, AccountId, SignedTransaction, Verdict};

fn tx_of(name: &str, domain: &str) -> SignedTransaction {
    SignedTransaction { account_id: AccountId { name: name.to_string(), domain_id: domain.to_string() } }
}

#[test]
fn bob_is_denied() {
    match validate(&tx_of("bob", "wonderland")) {
        Verdict::Deny(reason) => assert_eq!(reason, "Bob from Wonderland is not allowed to do anything"),
        Verdict::Pass => panic!("bob must be denied"),
    }
}

#[test]
fn others_pass() {
    assert!(matches!(validate(&tx_of("alice", "wonderland")), Verdict::Pass));
    assert!(matches!(validate(&tx_of("bob", "garden")), Verdict::Pass));
}

#[test]
fn permission_token_fields() {
    let token = PermissionToken::new("can_transfer".to_string(), vec![1, 2]);
    assert_eq!(token.definition_id(), "can_transfer");
    assert_eq!(token.payload(), &vec![1, 2]);
    assert_eq!(token.to_display_string(), "can_transfer");
    let other = PermissionToken::new("can_transfer".to_string(), vec![1, 3]);
    assert!(token < other);
}

#[test]
fn definitions_equal_by_id() {
    let a = PermissionTokenDefinition::new("can_mint".to_string(), "{}".to_string());
    let b = PermissionTokenDefinition::new("can_mint".to_string(), "{\"x\":1}".to_string());
    let c = PermissionTokenDefinition::new("can_burn".to_string(), "{}".to_string());
    assert!(a == b);
    assert!(a != c);
    assert_eq!(a.id(), "can_mint");
    assert_eq!(b.metadata(), "{\"x\":1}");
    assert_eq!(a.to_display_string(), "can_mint");
}
