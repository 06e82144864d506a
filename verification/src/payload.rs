//! The body of a message: a cheaply shared, immutable run of bytes.

use vstd::prelude::*;
use bytes::Bytes;

verus! {

#[verifier::external_type_specification]
#[verifier::external_body]
pub struct ExBytes(bytes::Bytes);

/// The bytes that a buffer holds.
pub uninterp spec fn payload(buffer: Bytes) -> Seq<u8>;

/// `Bytes::len` of the crate `bytes`: the number of bytes that the buffer
/// holds.
pub assume_specification[ Bytes::len ](buffer: &Bytes) -> (n: usize)
    ensures
        n == payload(*buffer).len(),
;

/// `AsRef<[u8]>::as_ref` of `Bytes`: the held bytes as a slice.
pub assume_specification[ <Bytes as AsRef<[u8]>>::as_ref ](buffer: &Bytes) -> (held: &[u8])
    ensures
        held@ == payload(*buffer),
;

/// `Clone::clone` of `Bytes`: a second handle on the same bytes.
pub assume_specification[ <Bytes as Clone>::clone ](buffer: &Bytes) -> (copy: Bytes)
    ensures
        payload(copy) == payload(*buffer),
;

} // verus!
