//! The plain types that the ledger's parts share.

use vstd::prelude::*;

verus! {

/// Balance of an account.
pub type Balance = u128;

/// An index to a block.
pub type BlockNumber = u32;

/// Identifier of an account.
pub type AccountId = u64;

/// A point on the ledger clock.
pub type Moment = u64;

/// The four letters under which a node's key store files the oracle's keys.
pub const ORACLE: [u8; 4] = [111, 114, 97, 99];

} // verus!
