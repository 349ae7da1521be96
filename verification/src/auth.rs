//! The connection handshake's check: the first message a client sends must
//! equal the shared token.

use vstd::prelude::*;
use vstd::string::StringSliceAdditionalSpecFns;

verus! {

/// Compares two byte slices without an early-out, so a timing side channel
/// cannot reveal how much of the token matched.
pub fn constant_time_eq(a: &[u8], b: &[u8]) -> (r: bool)
    ensures
        r == (a@ == b@),
{
    if a.len() != b.len() {
        return false;
    }
    let mut diff: u8 = 0;
    let mut i: usize = 0;
    while i < a.len()
        invariant
            i <= a.len() == b.len(),
            (diff == 0) <==> (forall|k: int| 0 <= k < i ==> a@[k] == b@[k]),
        decreases a.len() - i,
    {
        let x = a[i];
        let y = b[i];
        let old_diff = diff;
        diff = diff | (x ^ y);
        assert((old_diff | (x ^ y)) == 0 <==> (old_diff == 0 && x == y)) by (bit_vector);
        proof {
            if diff == 0 {
                assert forall|k: int| 0 <= k < i + 1 implies a@[k] == b@[k] by {
                    if k < i {
                    } else {
                        assert(a@[k] == x && b@[k] == y);
                    }
                }
            }
        }
        i += 1;
    }
    if diff == 0 {
        assert(a@ =~= b@);
    }
    diff == 0
}

/// Whether a client's first message authorizes it: its text equals the
/// token, compared in constant time.
pub fn authorized(first_message: &str, token: &str) -> (r: bool)
    ensures
        r == (first_message.spec_bytes() == token.spec_bytes()),
{
    constant_time_eq(first_message.as_bytes(), token.as_bytes())
}

} // verus!
