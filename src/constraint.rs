use crate::error::ForumError;
use vstd::prelude::*;

verus! {

/// Bounds on the byte length of a piece of user text.
///
/// The upper bound is stored as a difference to the lower one, so that a
/// maximum below the minimum cannot be expressed.
#[derive(Debug, Clone, Copy, PartialEq, Eq, Structural)]
pub struct InputValidationLengthConstraint {
    /// Minimum length.
    pub min: u16,
    /// Difference between the maximum and the minimum length.
    pub max_min_diff: u16,
}

impl InputValidationLengthConstraint {
    /// The greatest accepted length.
    pub open spec fn max_spec(self) -> int {
        self.min + self.max_min_diff
    }

    /// What validating a text of `len` bytes yields.
    pub open spec fn validation(
        self,
        len: int,
        too_short: ForumError,
        too_long: ForumError,
    ) -> Result<(), ForumError> {
        if len < self.min {
            Err(too_short)
        } else if len > self.max_spec() {
            Err(too_long)
        } else {
            Ok(())
        }
    }

    /// The greatest accepted length.
    pub fn max(&self) -> (r: u16)
        requires
            self.max_spec() <= u16::MAX,
        ensures
            r == self.max_spec(),
    {
        self.min + self.max_min_diff
    }

    /// Accepts a length within `[min, min + max_min_diff]`, and otherwise
    /// returns the error that names the violated bound.
    pub fn ensure_valid(&self, len: usize, too_short: ForumError, too_long: ForumError) -> (r: Result<
        (),
        ForumError,
    >)
        ensures
            r == self.validation(len as int, too_short, too_long),
    {
        let max: u32 = self.min as u32 + self.max_min_diff as u32;
        if len < self.min as usize {
            Err(too_short)
        } else if len > max as usize {
            Err(too_long)
        } else {
            Ok(())
        }
    }
}

} // verus!
