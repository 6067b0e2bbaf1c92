//! Identifiers and digests as plain values.
use vstd::prelude::*;

verus! {

/// A SHA-256 digest, as the two halves of its big-endian value.
#[derive(Clone, Copy, Debug, PartialEq, Eq, Structural)]
pub struct Sha256Digest {
    pub hi: u128,
    pub lo: u128,
}

/// A turn that reserved settlement capacity.
#[derive(Clone, Copy, Debug, PartialEq, Eq, Structural)]
pub struct TurnId(pub u128);

/// One admitted round's settlement, equal to its reservation.
#[derive(Clone, Copy, Debug, PartialEq, Eq, Structural)]
pub struct SettlementId(pub u128);

/// A signed receipt.
#[derive(Clone, Copy, Debug, PartialEq, Eq, Structural)]
pub struct ReceiptId(pub u128);

/// A chat session or the session that owns a journal.
#[derive(Clone, Copy, Debug, PartialEq, Eq, Structural)]
pub struct SessionId(pub u128);

/// A capability token's identifier, never the bearer token.
#[derive(Clone, Copy, Debug, PartialEq, Eq, Structural)]
pub struct TokenId(pub u128);

/// One process's budget lifetime.
#[derive(Clone, Copy, Debug, PartialEq, Eq, Structural)]
pub struct BudgetEpoch(pub u128);

/// Milliseconds since the Unix epoch.
#[derive(Clone, Copy, Debug, PartialEq, Eq, Structural)]
pub struct UnixTsMillis(pub u64);

} // verus!
