//! Payment channels settled against an escrow, and a multi-authority oracle
//! whose submissions are admitted by signature.

pub mod primitives;
pub mod signature;
pub mod codec;
pub mod oracle;
pub mod escrow;
pub mod channel;
pub mod chain_spec;
