use vstd::prelude::*;
use crate::endpoint::has_prefix;

verus! {

/// Index of the first occurrence of `c`, if any.
pub open spec fn first_index_of_char(s: Seq<char>, c: char) -> Option<int>
    decreases s.len(),
{
    if s.len() == 0 {
        None
    } else if s[0] == c {
        Some(0)
    } else {
        match first_index_of_char(s.drop_first(), c) {
            Some(k) => Some(k + 1),
            None => None,
        }
    }
}

/// The routing-engine node identifier inside a Bundle-Protocol address: for
/// an `ipn:<node>.<service>` address the node part between the scheme and the
/// first dot, and for anything else the address itself.
pub open spec fn ion_id_of(s: Seq<char>) -> Seq<char> {
    if has_prefix(s, "ipn:"@) {
        match first_index_of_char(s.skip(4), '.') {
            Some(d) => s.skip(4).take(d),
            None => s,
        }
    } else {
        s
    }
}

/// First occurrence of `c` in `s` at or after character `i`.
fn find_char_from(s: &str, i: usize, n: usize, c: char) -> (r: Option<usize>)
    requires
        i <= n,
        n == s@.len(),
    ensures
        match r {
            Some(j) => i <= j < n && first_index_of_char(s@.skip(i as int), c) == Some(
                j - i as int,
            ),
            None => first_index_of_char(s@.skip(i as int), c) is None,
        },
    decreases n - i,
{
    let ghost sub = s@.skip(i as int);
    if i == n {
        return None;
    }
    assert(sub[0] == s@[i as int]);
    if s.get_char(i) == c {
        Some(i)
    } else {
        assert(sub.drop_first() =~= s@.skip(i as int + 1));
        find_char_from(s, i + 1, n, c)
    }
}

/// Strips the Bundle-Protocol scheme and service number off an address,
/// leaving the node identifier the routing engine's topology is keyed by.
pub fn extract_ion_id_from_bp_address(bp_address: &str) -> (r: String)
    ensures
        r@ == ion_id_of(bp_address@),
{
    proof {
        reveal_strlit("ipn:");
    }
    let n = bp_address.unicode_len();
    if n >= 4 && bp_address.get_char(0) == 'i' && bp_address.get_char(1) == 'p'
        && bp_address.get_char(2) == 'n' && bp_address.get_char(3) == ':' {
        proof {
            assert(bp_address@.subrange(0, 4) =~= "ipn:"@);
        }
        match find_char_from(bp_address, 4, n, '.') {
            Some(d) => {
                let part = bp_address.substring_char(4, d);
                proof {
                    assert(bp_address@.subrange(4, d as int) =~= bp_address@.skip(4).take(
                        d - 4,
                    ));
                }
                String::from_str(part)
            },
            None => {
                proof {
                    assert(bp_address@.skip(4).skip(0) =~= bp_address@.skip(4));
                }
                String::from_str(bp_address)
            },
        }
    } else {
        proof {
            assert(!has_prefix(bp_address@, "ipn:"@)) by {
                if has_prefix(bp_address@, "ipn:"@) {
                    assert(forall|j: int|
                        0 <= j < 4 ==> bp_address@.subrange(0, 4)[j] == bp_address@[j]);
                }
            }
        }
        String::from_str(bp_address)
    }
}

} // verus!
