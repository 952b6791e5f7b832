//! ASCII text as strings.
use vstd::prelude::*;

verus! {

/// The characters of an ASCII byte sequence.
pub open spec fn ascii_view(s: Seq<u8>) -> Seq<char> {
    s.map_values(|b: u8| b as char)
}

/// Whether every byte is ASCII.
pub open spec fn is_ascii_bytes(s: Seq<u8>) -> bool {
    forall|i: int| 0 <= i < s.len() ==> #[trigger] s[i] < 128
}

/// Calls `String::from_utf8_lossy`; the contract claims that ASCII bytes
/// become the same characters.  What becomes of other bytes is not stated.
#[verifier::external_body]
fn utf8_lossy(bytes: &[u8]) -> (r: String)
    ensures
        is_ascii_bytes(bytes@) ==> r@ == ascii_view(bytes@),
{
    String::from_utf8_lossy(bytes).into_owned()
}

/// The characters of two byte sequences joined are theirs joined, and two
/// ASCII sequences joined are ASCII.
pub proof fn lemma_ascii_concat(a: Seq<u8>, b: Seq<u8>)
    ensures
        ascii_view(a + b) == ascii_view(a) + ascii_view(b),
        is_ascii_bytes(a) && is_ascii_bytes(b) ==> is_ascii_bytes(a + b),
{
    assert(ascii_view(a + b) =~= ascii_view(a) + ascii_view(b));
    if is_ascii_bytes(a) && is_ascii_bytes(b) {
        assert forall|i: int| 0 <= i < (a + b).len() implies #[trigger] (a + b)[i] < 128 by {
            if i >= a.len() {
                assert((a + b)[i] == b[i - a.len()]);
            }
        }
    }
}

/// A string of the given ASCII bytes.
pub fn ascii_string(bytes: &Vec<u8>) -> (r: String)
    requires
        is_ascii_bytes(bytes@),
    ensures
        r@ == ascii_view(bytes@),
{
    utf8_lossy(bytes.as_slice())
}

} // verus!
