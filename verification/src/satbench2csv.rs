//! Turning the answer files of a SAT Competition benchmark run into a CSV table.
use vstd::prelude::*;
use crate::text::chars_of;

verus! {

/// Configuration built from command line options.
pub struct Config {
    /// directory to scan
    pub from: String,
    /// solver name (use 'from' if this is empty)
    pub solver: String,
    /// value for instances timed out
    pub timeout: usize,
    /// name for the target set, ending with a delimiter
    pub target: String,
}

/// The solver's name in the table: the given solver, or else the scanned directory without
/// one trailing slash.
pub open spec fn tag_of(from: Seq<char>, solver: Seq<char>) -> Seq<char> {
    if solver.len() > 0 {
        solver
    } else if from.len() > 0 && from.last() == '/' {
        from.drop_last()
    } else {
        from
    }
}

impl Config {
    /// The solver's name in the table.
    pub fn tag(&self) -> (t: String)
        ensures
            t@ == tag_of(self.from@, self.solver@),
    {
        if self.solver.as_str().unicode_len() > 0 {
            return self.solver.clone();
        }
        let cs = chars_of(self.from.as_str());
        let n = cs.len();
        if n > 0 && cs[n - 1] == '/' {
            let t = String::from_str(self.from.as_str().substring_char(0, n - 1));
            assert(t@ =~= tag_of(self.from@, self.solver@));
            t
        } else {
            self.from.clone()
        }
    }
}

} // verus!
