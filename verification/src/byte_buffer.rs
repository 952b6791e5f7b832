//! The `bytes::Bytes` buffer type, as the rest of the library sees it: a
//! sequence of bytes, reached through a handful of trusted calls.
use bytes::Bytes;
use vstd::prelude::*;

verus! {

#[verifier::external_type_specification]
#[verifier::external_body]
pub struct ExBytes(bytes::Bytes);

/// The bytes that a `Bytes` value holds, in order.
pub uninterp spec fn bytes_view(b: Bytes) -> Seq<u8>;

/// Calls `Bytes::from(Vec<u8>)`; the contract claims the result holds exactly
/// the bytes of the vector.
#[verifier::external_body]
pub fn bytes_from_vec(v: Vec<u8>) -> (r: Bytes)
    ensures
        bytes_view(r) == v@,
{
    Bytes::from(v)
}

/// Calls `Bytes::copy_from_slice`; the contract claims the result holds a copy
/// of the slice.
#[verifier::external_body]
pub fn bytes_copy_from_slice(s: &[u8]) -> (r: Bytes)
    ensures
        bytes_view(r) == s@,
{
    Bytes::copy_from_slice(s)
}

/// Calls `Bytes::from_static`; the contract claims the result holds the
/// bytes of the static slice.
#[verifier::external_body]
pub fn bytes_from_static(s: &'static [u8]) -> (r: Bytes)
    ensures
        bytes_view(r) == s@,
{
    Bytes::from_static(s)
}

/// Calls `Bytes::len`; the contract claims it is the number of bytes held.
#[verifier::external_body]
pub fn bytes_len(b: &Bytes) -> (n: usize)
    ensures
        n == bytes_view(*b).len(),
{
    b.len()
}

/// Calls `<Bytes as AsRef<[u8]>>::as_ref`; the contract claims the slice shows
/// the bytes held, in order.
#[verifier::external_body]
pub fn bytes_as_slice(b: &Bytes) -> (s: &[u8])
    ensures
        s@ == bytes_view(*b),
{
    b.as_ref()
}

/// Calls `Bytes::split_to`; the contract claims the result holds the first
/// `at` bytes and the buffer keeps the rest.  `Bytes::split_to` panics when
/// `at` exceeds the length, which the precondition rules out.
#[verifier::external_body]
pub fn bytes_split_to(b: &mut Bytes, at: usize) -> (r: Bytes)
    requires
        at <= bytes_view(*old(b)).len(),
    ensures
        bytes_view(r) == bytes_view(*old(b)).take(at as int),
        bytes_view(*final(b)) == bytes_view(*old(b)).skip(at as int),
{
    b.split_to(at)
}

/// Specifies `<Bytes as Clone>::clone`: the clone holds the same bytes.
pub assume_specification[ <bytes::Bytes as core::clone::Clone>::clone ](b: &Bytes) -> (r: Bytes)
    ensures
        bytes_view(r) == bytes_view(*b),
;

/// Compares the contents of two `Bytes` values byte by byte.
pub fn bytes_equal(a: &Bytes, b: &Bytes) -> (r: bool)
    ensures
        r == (bytes_view(*a) == bytes_view(*b)),
{
    slices_equal(bytes_as_slice(a), bytes_as_slice(b))
}

/// Compares two byte slices byte by byte.
pub fn slices_equal(a: &[u8], b: &[u8]) -> (r: bool)
    ensures
        r == (a@ == b@),
{
    if a.len() != b.len() {
        return false;
    }
    let n = a.len();
    let mut i: usize = 0;
    while i < n
        invariant
            n == a@.len() == b@.len(),
            i <= n,
            forall|j: int| 0 <= j < i ==> a@[j] == b@[j],
        decreases n - i,
    {
        if a[i] != b[i] {
            return false;
        }
        i = i + 1;
    }
    assert(a@ =~= b@);
    true
}

} // verus!
