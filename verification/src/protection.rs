//! Access protection of a mapped range.

use vstd::prelude::*;

verus! {

/// A combination of the three kinds of access that a mapped range can allow.
///
/// Every combination of the three flags is a valid protection, from no access
/// at all to read, write and execute together.
#[derive(Clone, Copy, Debug, PartialEq, Eq, Structural)]
pub struct Protection {
    pub read: bool,
    pub write: bool,
    pub execute: bool,
}

impl Protection {
    /// The protection that has a flag exactly where `self` or `other` has it.
    pub open spec fn spec_union(self, other: Protection) -> Protection {
        Protection {
            read: self.read || other.read,
            write: self.write || other.write,
            execute: self.execute || other.execute,
        }
    }

    /// No access at all.
    pub fn none() -> (p: Protection)
        ensures
            p == (Protection { read: false, write: false, execute: false }),
    {
        Protection { read: false, write: false, execute: false }
    }

    /// Read access only: the protection of every new mapping.
    pub fn read_only() -> (p: Protection)
        ensures
            p == (Protection { read: true, write: false, execute: false }),
    {
        Protection { read: true, write: false, execute: false }
    }

    /// Write access only.
    pub fn write_only() -> (p: Protection)
        ensures
            p == (Protection { read: false, write: true, execute: false }),
    {
        Protection { read: false, write: true, execute: false }
    }

    /// Execute access only.
    pub fn execute_only() -> (p: Protection)
        ensures
            p == (Protection { read: false, write: false, execute: true }),
    {
        Protection { read: false, write: false, execute: true }
    }

    /// Combines two protections: the result allows what either of them allows.
    #[verifier::when_used_as_spec(spec_union)]
    pub fn union(self, other: Protection) -> (p: Protection)
        ensures
            p == self.spec_union(other),
    {
        Protection {
            read: self.read || other.read,
            write: self.write || other.write,
            execute: self.execute || other.execute,
        }
    }
}

} // verus!
