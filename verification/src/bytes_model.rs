//! The contents of a `bytes::Bytes` handle, as contracts see them.
//!
//! `Bytes` is a reference-counted view of a byte slice. Nothing in this
//! crate looks inside the handle: every fact about one goes through
//! [`bytes_seq`], and the items below say what the few `Bytes` operations
//! used here do to that sequence. None of these statements is proved.

use bytes::Bytes;
use vstd::prelude::*;

verus! {

/// `bytes::Bytes`: the handle itself, carried through as it is.
#[verifier::external_type_specification]
#[verifier::external_body]
pub struct ExBytes(bytes::Bytes);

/// The bytes that a `Bytes` handle currently refers to, in order.
pub uninterp spec fn bytes_seq(b: Bytes) -> Seq<u8>;

/// `Bytes::new`: the empty handle.
pub assume_specification[ Bytes::new ]() -> (b: Bytes)
    ensures
        bytes_seq(b) == Seq::<u8>::empty(),
;

/// `Bytes::len`: the number of bytes the handle refers to.
pub assume_specification[ Bytes::len ](b: &Bytes) -> (n: usize)
    ensures
        n == bytes_seq(*b).len(),
;

/// `Bytes::clone`: a second handle to the same bytes.
pub assume_specification[ <Bytes as Clone>::clone ](b: &Bytes) -> (r: Bytes)
    ensures
        bytes_seq(r) == bytes_seq(*b),
;

/// `Bytes::from(Vec<u8>)`: takes the vector over; the contents are unchanged.
#[verifier::external_body]
pub(crate) fn bytes_from_vec(v: Vec<u8>) -> (b: Bytes)
    ensures
        bytes_seq(b) == v@,
{
    Bytes::from(v)
}

/// `Bytes::slice(begin..end)`: a handle to the given part. The outside
/// function panics unless `begin <= end <= len`, hence the precondition.
#[verifier::external_body]
pub(crate) fn bytes_slice(b: &Bytes, begin: usize, end: usize) -> (r: Bytes)
    requires
        begin <= end <= bytes_seq(*b).len(),
    ensures
        bytes_seq(r) == bytes_seq(*b).subrange(begin as int, end as int),
{
    b.slice(begin..end)
}

/// `Deref for Bytes`: the referred bytes as a slice.
#[verifier::external_body]
pub(crate) fn bytes_as_slice(b: &Bytes) -> (r: &[u8])
    ensures
        r@ == bytes_seq(*b),
{
    &b[..]
}

} // verus!
