//! Windows endpoints: named-pipe paths.

use vstd::prelude::*;
use super::unix::valid_unix_endpoint;

verus! {

/// Position of the first `\` at or after `i` (`None` when absent).
pub open spec fn find_backslash(path: Seq<u8>, i: int) -> Option<int>
    decreases path.len() - i,
{
    if i < 0 || i >= path.len() {
        None
    } else if path[i] == 0x5c {
        Some(i)
    } else {
        find_backslash(path, i + 1)
    }
}

/// A Windows named-pipe path `\\HOST\pipe\NAME`: it starts with `\\`, the
/// first `\` after that opens `\pipe\`, the name after it is non-empty, and
/// no byte is NUL.
pub open spec fn valid_pipe_endpoint(path: Seq<u8>) -> bool {
    &&& path.len() >= 2
    &&& path[0] == 0x5c && path[1] == 0x5c
    &&& match find_backslash(path, 2) {
        Some(p) => {
            &&& p + 6 < path.len()
            &&& path.subrange(p, p + 6) == seq![0x5cu8, 0x70, 0x69, 0x70, 0x65, 0x5c]
        },
        None => false,
    }
    &&& valid_unix_endpoint(path)
}

proof fn lemma_find_backslash(path: Seq<u8>, i: int)
    requires
        0 <= i,
    ensures
        find_backslash(path, i) matches Some(p) ==> i <= p < path.len() && path[p] == 0x5c,
    decreases path.len() - i,
{
    if i < path.len() && path[i] != 0x5c {
        lemma_find_backslash(path, i + 1);
    }
}

/// Whether `path` is a valid Windows named-pipe endpoint.
pub fn validate_endpoint(path: &[u8]) -> (r: bool)
    ensures
        r == valid_pipe_endpoint(path@),
{
    if path.len() < 2 {
        return false;
    }
    let mut i: usize = 2;
    while i < path.len() && path[i] != 0x5c
        invariant
            2 <= i <= path@.len(),
            find_backslash(path@, i as int) == find_backslash(path@, 2),
        decreases path@.len() - i,
    {
        i = i + 1;
    }
    if i >= path.len() {
        return false;
    }
    proof {
        lemma_find_backslash(path@, 2);
    }
    if !(path[0] == 0x5c && path[1] == 0x5c) {
        return false;
    }
    if path.len() < 7 || i >= path.len() - 6 {
        return false;
    }
    let ok = path[i] == 0x5c && path[i + 1] == 0x70 && path[i + 2] == 0x69 && path[i + 3] == 0x70
        && path[i + 4] == 0x65 && path[i + 5] == 0x5c;
    if !ok {
        assert(path@.subrange(i as int, i + 6) != seq![0x5cu8, 0x70, 0x69, 0x70, 0x65, 0x5c]) by {
            if path@.subrange(i as int, i + 6) == seq![0x5cu8, 0x70, 0x69, 0x70, 0x65, 0x5c] {
                assert(path@.subrange(i as int, i + 6)[1] == path@[i + 1]);
                assert(path@.subrange(i as int, i + 6)[2] == path@[i + 2]);
                assert(path@.subrange(i as int, i + 6)[3] == path@[i + 3]);
                assert(path@.subrange(i as int, i + 6)[4] == path@[i + 4]);
                assert(path@.subrange(i as int, i + 6)[5] == path@[i + 5]);
            }
        }
        return false;
    }
    assert(path@.subrange(i as int, i + 6) =~= seq![0x5cu8, 0x70, 0x69, 0x70, 0x65, 0x5c]);
    super::unix::validate_endpoint(path)
}

} // verus!
