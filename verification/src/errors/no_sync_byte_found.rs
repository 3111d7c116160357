//! The error for a byte source in which no packet boundary can be found.
use vstd::prelude::*;
use vstd::string::StringExecFns;

verus! {

/// A byte source holds no sync byte that is followed, one packet length
/// later, by another sync byte.
#[derive(Debug, Clone, Copy, PartialEq, Eq, Structural)]
pub struct NoSyncByteFound;

impl NoSyncByteFound {
    /// What went wrong, in words.
    pub open spec fn message_text(self) -> Seq<char> {
        "no sync byte found in reader"@
    }

    /// Says in words what went wrong.
    pub fn message(&self) -> (r: String)
        ensures
            r@ == self.message_text(),
    {
        String::from_str("no sync byte found in reader")
    }
}

} // verus!
