//! The criterion that selects which trace components similarity is judged by.

use vstd::prelude::*;

use crate::error::RosaError;
use crate::text::str_eq;

verus! {

/// Which trace components (edges, syscalls or a combination of both) a
/// comparison takes into account.
#[derive(Clone, Copy, Debug, PartialEq, Eq, Structural)]
pub enum Criterion {
    /// Only compare edge vectors.
    EdgesOnly,
    /// Only compare syscall vectors.
    SyscallsOnly,
    /// Compare edge vectors or syscall vectors (whichever is closest in
    /// proportion when selecting, either predicate when deciding).
    EdgesOrSyscalls,
    /// Compare edge vectors and syscall vectors together.
    EdgesAndSyscalls,
}

impl Criterion {
    /// The stable tag of the criterion, as used in configuration files.
    pub open spec fn spec_name(self) -> Seq<char> {
        match self {
            Criterion::EdgesOnly => "edges-only"@,
            Criterion::SyscallsOnly => "syscalls-only"@,
            Criterion::EdgesOrSyscalls => "edges-or-syscalls"@,
            Criterion::EdgesAndSyscalls => "edges-and-syscalls"@,
        }
    }

    /// The stable tag of the criterion.
    pub fn name(&self) -> (r: &str)
        ensures
            r@ == self.spec_name(),
    {
        match self {
            Criterion::EdgesOnly => "edges-only",
            Criterion::SyscallsOnly => "syscalls-only",
            Criterion::EdgesOrSyscalls => "edges-or-syscalls",
            Criterion::EdgesAndSyscalls => "edges-and-syscalls",
        }
    }

    /// Parses a criterion tag; fails exactly on the strings that name no
    /// criterion.
    pub fn from_name(s: &str) -> (r: Result<Criterion, RosaError>)
        ensures
            r matches Ok(c) ==> c.spec_name() == s@,
            r is Err ==> forall|c: Criterion| c.spec_name() != s@,
    {
        if str_eq(s, "edges-only") {
            Ok(Criterion::EdgesOnly)
        } else if str_eq(s, "syscalls-only") {
            Ok(Criterion::SyscallsOnly)
        } else if str_eq(s, "edges-or-syscalls") {
            Ok(Criterion::EdgesOrSyscalls)
        } else if str_eq(s, "edges-and-syscalls") {
            Ok(Criterion::EdgesAndSyscalls)
        } else {
            proof {
                assert forall|c: Criterion| c.spec_name() != s@ by {
                    match c {
                        Criterion::EdgesOnly => {
                            assert(c.spec_name() == "edges-only"@);
                        },
                        Criterion::SyscallsOnly => {
                            assert(c.spec_name() == "syscalls-only"@);
                        },
                        Criterion::EdgesOrSyscalls => {
                            assert(c.spec_name() == "edges-or-syscalls"@);
                        },
                        Criterion::EdgesAndSyscalls => {
                            assert(c.spec_name() == "edges-and-syscalls"@);
                        },
                    }
                }
            }
            Err(
                RosaError::new(
                    "rosa::criterion",
                    0,
                    "criterion.rs",
                    "invalid criterion.",
                ),
            )
        }
    }
}

} // verus!
