use vstd::prelude::*;

verus! {

/// An opaque, comparable account identifier.
///
/// The host environment identifies accounts by 32-byte values; here such a
/// value is held as two 128-bit words so that equality is plain structural
/// equality on integers.
#[derive(Clone, Copy, PartialEq, Eq, Structural, Debug, Hash)]
pub struct AccountId {
    pub hi: u128,
    pub lo: u128,
}

/// The unsigned fixed-precision quantity of value an escrow holds.
pub type Balance = u128;

} // verus!
