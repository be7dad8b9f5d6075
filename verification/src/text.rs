use vstd::prelude::*;
use vstd::utf8::{decode_utf8, encode_utf8};

verus! {

broadcast use vstd::utf8::encode_utf8_decode_utf8;

/// Character-for-character equality of two string slices, proved through
/// their UTF-8 bytes (equal encodings decode to equal character sequences).
pub fn str_eq(a: &str, b: &str) -> (r: bool)
    ensures
        r == (a@ == b@),
{
    let x = a.as_bytes();
    let y = b.as_bytes();
    if x.len() != y.len() {
        assert(encode_utf8(a@) != encode_utf8(b@));
        assert(a@ != b@);
        return false;
    }
    let n = x.len();
    let mut i: usize = 0;
    while i < n
        invariant
            n == x@.len() == y@.len(),
            x@ == encode_utf8(a@),
            y@ == encode_utf8(b@),
            i <= n,
            forall|j: int| 0 <= j < i ==> x@[j] == y@[j],
        decreases n - i,
    {
        if x[i] != y[i] {
            assert(encode_utf8(a@) != encode_utf8(b@));
            assert(a@ != b@);
            return false;
        }
        i += 1;
    }
    assert(x@ =~= y@);
    assert(decode_utf8(encode_utf8(a@)) == decode_utf8(encode_utf8(b@)));
    true
}

/// The leading eight characters of a message id, or the whole id when it is
/// shorter; used to label events without printing the full identifier.
pub fn safe_message_id_display(id: &str) -> (r: &str)
    ensures
        id@.len() >= 8 ==> r@ == id@.subrange(0, 8),
        id@.len() < 8 ==> r@ == id@,
{
    let n = id.unicode_len();
    if n >= 8 {
        id.substring_char(0, 8)
    } else {
        id
    }
}

} // verus!
