//! Client identifiers.
//!
//! A client identifier names one device of a user (desktop, mobile, ...)
//! and is carried as raw bytes. For display it is rendered as lowercase
//! hex; parsing accepts hex text and falls back to the raw bytes of the
//! text when it is not hex.

use vstd::prelude::*;

use crate::hexcode::{hex_decode, hex_encode, hex_of, hex_val, is_hex_str};
use crate::store::copy_bytes;
use vstd::utf8::encode_utf8;

verus! {

/// A unique identifier for one client (one device of one user).
#[derive(Debug, Clone, PartialEq, Eq, Hash)]
pub struct ClientId(pub Vec<u8>);

impl View for ClientId {
    type V = Seq<u8>;

    open spec fn view(&self) -> Seq<u8> {
        self.0@
    }
}

impl From<Vec<u8>> for ClientId {
    fn from(value: Vec<u8>) -> (r: Self) {
        ClientId(value)
    }
}

impl vstd::std_specs::convert::FromSpecImpl<Vec<u8>> for ClientId {
    open spec fn obeys_from_spec() -> bool {
        true
    }

    open spec fn from_spec(value: Vec<u8>) -> Self {
        ClientId(value)
    }
}

impl From<ClientId> for Vec<u8> {
    fn from(value: ClientId) -> (r: Self) {
        value.0
    }
}

impl vstd::std_specs::convert::FromSpecImpl<ClientId> for Vec<u8> {
    open spec fn obeys_from_spec() -> bool {
        true
    }

    open spec fn from_spec(value: ClientId) -> Self {
        value.0
    }
}

impl ClientId {
    /// The identifier built from a borrowed byte slice.
    pub fn from_bytes(value: &[u8]) -> (r: Self)
        ensures
            r@ == value@,
    {
        ClientId(vstd::slice::slice_to_vec(value))
    }

    /// The raw identifier bytes.
    pub fn as_bytes(&self) -> (r: &Vec<u8>)
        ensures
            r@ == self@,
    {
        &self.0
    }

    /// An owned copy of the identifier.
    pub fn duplicate(&self) -> (r: Self)
        ensures
            r@ == self@,
    {
        ClientId(copy_bytes(&self.0))
    }

    /// The identifier rendered as lowercase hex, as it is displayed.
    pub fn hex_string(&self) -> (r: String)
        ensures
            r@ == hex_of(self@),
    {
        hex_encode(&self.0)
    }

    /// Parse an identifier from text: hex text denotes its bytes; anything
    /// else denotes itself, as its UTF-8 bytes. Parsing never fails.
    pub fn from_str(s: &str) -> (r: Self)
        ensures
            is_hex_str(s@) ==> r@ == hex_val(s@),
            !is_hex_str(s@) ==> r@ == encode_utf8(s@),
    {
        match hex_decode(s) {
            Some(v) => ClientId(v),
            None => ClientId(s.as_bytes_vec()),
        }
    }
}

} // verus!
