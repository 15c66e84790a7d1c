//! Core of a permissioned BFT consensus engine: peer topology and roles,
//! view-change proof chains, block quorum rules, the transaction cache and
//! the role-dispatched state machine that drives a consensus round.

pub mod peer;
pub mod topology;
pub mod view_change;
pub mod transaction;

pub mod block;
pub mod sumeragi;
pub mod permission;
pub mod validator;
