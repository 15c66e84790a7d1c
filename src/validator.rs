//! A runtime validator that forbids one account, `bob@wonderland`, to do
//! anything.

use vstd::prelude::*;

verus! {

/// An account: its name within its domain.
#[derive(Debug)]
pub struct AccountId {
    pub name: String,
    pub domain_id: String,
}

/// A transaction as the validator sees it: the account that signed it.
#[derive(Debug)]
pub struct SignedTransaction {
    pub account_id: AccountId,
}

/// A validator's decision on a transaction.
#[derive(Debug)]
pub enum Verdict {
    /// The transaction may go on.
    Pass,
    /// The transaction is refused, for the reason given.
    Deny(String),
}

/// `account` is `bob@wonderland`.
pub open spec fn is_forbidden(account: AccountId) -> bool {
    account.name@ == "bob"@ && account.domain_id@ == "wonderland"@
}

/// Denies every transaction of `bob@wonderland` and passes the others.
pub fn validate(tx: &SignedTransaction) -> (r: Verdict)
    ensures
        is_forbidden(tx.account_id) <==> r is Deny,
        r matches Verdict::Deny(reason) ==> reason@
            == "Bob from Wonderland is not allowed to do anything"@,
{
    let name = "bob".to_owned();
    let domain = "wonderland".to_owned();
    proof {
        reveal_strlit("bob");
        reveal_strlit("wonderland");
    }
    if tx.account_id.name == name && tx.account_id.domain_id == domain {
        let reason = "Bob from Wonderland is not allowed to do anything".to_owned();
        Verdict::Deny(reason)
    } else {
        Verdict::Pass
    }
}

} // verus!
