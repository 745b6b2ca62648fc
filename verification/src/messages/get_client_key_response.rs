//! The announcement of a public key.

use vstd::prelude::*;
use crate::types::Address;

verus! {

/// A key announcement as mathematical values.
pub struct GetClientKeyResponseView {
    pub address: Seq<u8>,
    pub public_key: Seq<u8>,
}

/// The announcement of a public key: the address that the key belongs to, and the key.
#[derive(Debug)]
pub struct GetClientKeyResponse {
    pub address: Address,
    pub public_key: Vec<u8>,
}

impl View for GetClientKeyResponse {
    type V = GetClientKeyResponseView;

    open spec fn view(&self) -> GetClientKeyResponseView {
        GetClientKeyResponseView { address: self.address@, public_key: self.public_key@ }
    }
}

impl DeepView for GetClientKeyResponse {
    type V = GetClientKeyResponseView;

    open spec fn deep_view(&self) -> GetClientKeyResponseView {
        self@
    }
}

impl Clone for GetClientKeyResponse {
    fn clone(&self) -> (copy: GetClientKeyResponse)
        ensures
            copy@ == self@,
    {
        GetClientKeyResponse { address: self.address.clone(), public_key: self.public_key.clone() }
    }
}

} // verus!
