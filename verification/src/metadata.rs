//! The immutable token metadata record.
//!
//! Set once at initialization and never mutated by any operation.

use vstd::prelude::*;

verus! {

/// The metadata specification identifier this record must carry.
pub const METADATA_SPEC: &'static str = "ft-1.0.0";

/// Decimal precision of the default metadata.
pub const DEFAULT_DECIMALS: u8 = 24;

/// An immutable record describing the token: specification identifier,
/// display name, ticker symbol, optional icon, optional external
/// reference with its content hash, and decimal precision.
pub struct TokenMetadata {
    pub spec_id: String,
    pub name: String,
    pub symbol: String,
    pub icon: Option<String>,
    pub reference: Option<String>,
    pub reference_hash: Option<Vec<u8>>,
    pub decimals: u8,
}

impl TokenMetadata {
    /// A metadata record is valid when it carries the expected
    /// specification identifier and its external reference and the
    /// reference's 32-byte content hash are either both present or both
    /// absent.
    pub open spec fn valid(self) -> bool {
        &&& self.spec_id@ == METADATA_SPEC@
        &&& self.reference is Some <==> self.reference_hash is Some
        &&& self.reference_hash is Some ==> self.reference_hash->0@.len() == 32
    }

    /// Decides validity of a metadata record.
    pub fn is_valid(&self) -> (r: bool)
        ensures
            r == self.valid(),
    {
        let spec_ok = self.spec_id == METADATA_SPEC.to_owned();
        let reference_ok = match (&self.reference, &self.reference_hash) {
            (Some(_), Some(h)) => h.len() == 32,
            (None, None) => true,
            _ => false,
        };
        spec_ok && reference_ok
    }
}

} // verus!
