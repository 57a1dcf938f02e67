//! Unix endpoints: socket paths.

use vstd::prelude::*;

verus! {

/// A Unix endpoint path: any bytes but NUL.
pub open spec fn valid_unix_endpoint(path: Seq<u8>) -> bool {
    forall|i: int| 0 <= i < path.len() ==> #[trigger] path[i] != 0
}

/// Whether `path` is a valid Unix endpoint.
pub fn validate_endpoint(path: &[u8]) -> (r: bool)
    ensures
        r == valid_unix_endpoint(path@),
{
    let mut i: usize = 0;
    while i < path.len()
        invariant
            i <= path@.len(),
            forall|k: int| 0 <= k < i ==> #[trigger] path@[k] != 0,
        decreases path@.len() - i,
    {
        if path[i] == 0 {
            return false;
        }
        i = i + 1;
    }
    true
}

} // verus!
