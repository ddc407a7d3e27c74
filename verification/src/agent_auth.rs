//! The agent's authentication gate: every inbound request must carry a
//! credential equal to the agent's configured shared secret. The comparison
//! examines every position and keeps no early exit on a mismatching
//! character, so unauthorized callers learn nothing from timing beyond the
//! length; its outcome is exactly string equality.

use vstd::prelude::*;
use vstd::string::*;

verus! {

/// Whether the provided credential equals the expected secret, compared
/// position by position without an early exit.
pub fn token_matches(provided: &str, expected: &str) -> (r: bool)
    ensures
        r == (provided@ == expected@),
{
    let plen = provided.unicode_len();
    let elen = expected.unicode_len();
    if plen != elen {
        return false;
    }
    let mut diff = false;
    let mut i: usize = 0;
    while i < plen
        invariant
            0 <= i <= plen,
            plen == provided@.len(),
            plen == expected@.len(),
            diff == exists|j: int| 0 <= j < i && provided@[j] != #[trigger] expected@[j],
        decreases plen - i,
    {
        if provided.get_char(i) != expected.get_char(i) {
            diff = true;
        }
        i = i + 1;
    }
    if diff {
        false
    } else {
        proof {
            assert(provided@ =~= expected@);
        }
        true
    }
}

/// Admits a request exactly when a credential header is present and equals
/// the configured secret; absence and mismatch are both refused, before
/// any handler runs.
pub fn authorize_agent_request(header: Option<&String>, secret: &str) -> (r: bool)
    ensures
        r == (header is Some && header.unwrap()@ == secret@),
{
    match header {
        Some(h) => token_matches(h.as_str(), secret),
        None => false,
    }
}

} // verus!
