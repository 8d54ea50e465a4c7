use vstd::prelude::*;
use vstd::string::StringExecFns;

use crate::utils::{decimal, u64_to_decimal};

verus! {

/// A snapshot of a scheduler.
pub struct SchedulerStats {
    /// Requests waiting in the scheduler.
    pub items_count: u64,
}

impl SchedulerStats {
    /// The report line: "Queue Items: " and the count, ending the line.
    pub fn to_string(&self) -> (s: String)
        ensures
            s@ == "Queue Items: "@ + decimal(self.items_count as nat) + "\n"@,
    {
        let digits = u64_to_decimal(self.items_count);
        String::from_str("Queue Items: ").concat(digits.as_str()).concat("\n")
    }
}

} // verus!
