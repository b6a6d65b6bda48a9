//! The decoded domain event.
//!
//! On chain the event is emitted with two 32-byte object identifiers for the
//! registry and the user's DID object, a 32-byte account address, a one-byte
//! DID-type discriminant, and a 32-byte NFT object identifier. The decoded
//! form keeps each identifier as its raw bytes; rendering to text happens
//! when a stored record is built.

use vstd::prelude::*;

verus! {

/// Length in bytes of an object identifier or account address.
pub const ID_LENGTH: usize = 32;

/// A DID-claim event decoded from an event payload.
pub struct DIDClaimed {
    pub registry_id: Vec<u8>,
    pub user_address: Vec<u8>,
    pub did_type: u8,
    pub user_did_id: Vec<u8>,
    pub nft_id: Vec<u8>,
}

/// The mathematical shape of a decoded event: byte strings and a discriminant.
#[verifier::ext_equal]
pub ghost struct DIDClaimedView {
    pub registry_id: Seq<u8>,
    pub user_address: Seq<u8>,
    pub did_type: u8,
    pub user_did_id: Seq<u8>,
    pub nft_id: Seq<u8>,
}

impl DIDClaimedView {
    /// Every identifier field carries exactly 32 bytes.
    pub open spec fn well_formed(self) -> bool {
        &&& self.registry_id.len() == ID_LENGTH
        &&& self.user_address.len() == ID_LENGTH
        &&& self.user_did_id.len() == ID_LENGTH
        &&& self.nft_id.len() == ID_LENGTH
    }
}

impl View for DIDClaimed {
    type V = DIDClaimedView;

    open spec fn view(&self) -> DIDClaimedView {
        DIDClaimedView {
            registry_id: self.registry_id@,
            user_address: self.user_address@,
            did_type: self.did_type,
            user_did_id: self.user_did_id@,
            nft_id: self.nft_id@,
        }
    }
}

impl DIDClaimed {
    pub open spec fn well_formed(&self) -> bool {
        self@.well_formed()
    }
}

} // verus!
