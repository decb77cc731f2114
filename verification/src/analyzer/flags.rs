//! Small flag sets produced by the analysis.

use std::ops::BitOr;
use vstd::prelude::*;
use vstd::std_specs::ops::BitOrSpecImpl;

verus! {

/// Indicates how a global variable is used.
///
/// A value is a subset of {read, write, query}; the empty subset means the
/// variable is not used at all.
#[derive(Clone, Copy, Debug, Hash, PartialEq, Eq, Structural)]
pub struct GlobalUse {
    /// Data will be read from the variable.
    pub read: bool,
    /// Data will be written to the variable.
    pub write: bool,
    /// The information about the data is queried.
    pub query: bool,
}

impl GlobalUse {
    /// The empty set of uses.
    pub open spec fn spec_empty() -> Self {
        GlobalUse { read: false, write: false, query: false }
    }

    /// The set holding only the read use.
    pub open spec fn spec_read() -> Self {
        GlobalUse { read: true, write: false, query: false }
    }

    /// The set holding only the write use.
    pub open spec fn spec_write() -> Self {
        GlobalUse { read: false, write: true, query: false }
    }

    /// The set holding only the query use.
    pub open spec fn spec_query() -> Self {
        GlobalUse { read: false, write: false, query: true }
    }

    /// The uses present in either operand.
    pub open spec fn union(self, other: Self) -> Self {
        GlobalUse {
            read: self.read || other.read,
            write: self.write || other.write,
            query: self.query || other.query,
        }
    }

    /// Whether every use in `other` is also in `self`.
    pub open spec fn includes(self, other: Self) -> bool {
        &&& other.read ==> self.read
        &&& other.write ==> self.write
        &&& other.query ==> self.query
    }

    /// The encoding of the set as a bit mask: read is bit 0, write is bit 1
    /// and query is bit 2.
    pub open spec fn spec_bits(self) -> int {
        (if self.read { 1int } else { 0 }) + (if self.write { 2int } else { 0 }) + (if self.query {
            4int
        } else {
            0
        })
    }

    /// Returns the empty set of uses.
    #[verifier::when_used_as_spec(spec_empty)]
    pub fn empty() -> (uses: Self)
        ensures
            uses == Self::spec_empty(),
    {
        GlobalUse { read: false, write: false, query: false }
    }

    /// Data will be read from the variable.
    #[verifier::when_used_as_spec(spec_read)]
    pub fn read() -> (uses: Self)
        ensures
            uses == Self::spec_read(),
    {
        GlobalUse { read: true, write: false, query: false }
    }

    /// Data will be written to the variable.
    #[verifier::when_used_as_spec(spec_write)]
    pub fn write() -> (uses: Self)
        ensures
            uses == Self::spec_write(),
    {
        GlobalUse { read: false, write: true, query: false }
    }

    /// The information about the data is queried.
    #[verifier::when_used_as_spec(spec_query)]
    pub fn query() -> (uses: Self)
        ensures
            uses == Self::spec_query(),
    {
        GlobalUse { read: false, write: false, query: true }
    }

    /// Returns `true` if no use is recorded.
    pub fn is_empty(self) -> (none: bool)
        ensures
            none == (self == Self::spec_empty()),
    {
        !self.read && !self.write && !self.query
    }

    /// Returns `true` if all the uses in `other` are recorded in `self`.
    pub fn contains(self, other: Self) -> (all: bool)
        ensures
            all == self.includes(other),
    {
        (!other.read || self.read) && (!other.write || self.write) && (!other.query || self.query)
    }

    /// Returns the bit mask of the recorded uses.
    pub fn bits(self) -> (mask: u8)
        ensures
            mask == self.spec_bits(),
    {
        let r: u8 = if self.read { 1 } else { 0 };
        let w: u8 = if self.write { 2 } else { 0 };
        let q: u8 = if self.query { 4 } else { 0 };
        r + w + q
    }
}

impl BitOr for GlobalUse {
    type Output = GlobalUse;

    fn bitor(self, other: GlobalUse) -> (uses: GlobalUse) {
        GlobalUse {
            read: self.read || other.read,
            write: self.write || other.write,
            query: self.query || other.query,
        }
    }
}

impl BitOrSpecImpl for GlobalUse {
    open spec fn obeys_bitor_spec() -> bool {
        true
    }

    open spec fn bitor_req(self, other: GlobalUse) -> bool {
        true
    }

    open spec fn bitor_spec(self, other: GlobalUse) -> GlobalUse {
        self.union(other)
    }
}

/// The ways in which control flow may leave a block early.
///
/// A value is a subset of {may return, may kill}.
#[derive(Clone, Copy, Debug, Hash, PartialEq, Eq, Structural)]
pub struct ExitFlags {
    /// Control flow may return from the function, which makes all the
    /// subsequent statements within the current function (only!)
    /// to be executed in a non-uniform control flow.
    pub may_return: bool,
    /// Control flow may be killed. Anything after a kill statement is
    /// considered inside non-uniform context.
    pub may_kill: bool,
}

impl ExitFlags {
    /// The empty set of exits.
    pub open spec fn spec_empty() -> Self {
        ExitFlags { may_return: false, may_kill: false }
    }

    /// The set holding only the possible return.
    pub open spec fn spec_may_return() -> Self {
        ExitFlags { may_return: true, may_kill: false }
    }

    /// The set holding only the possible kill.
    pub open spec fn spec_may_kill() -> Self {
        ExitFlags { may_return: false, may_kill: true }
    }

    /// The exits present in either operand.
    pub open spec fn union(self, other: Self) -> Self {
        ExitFlags {
            may_return: self.may_return || other.may_return,
            may_kill: self.may_kill || other.may_kill,
        }
    }

    /// Whether every exit in `other` is also in `self`.
    pub open spec fn includes(self, other: Self) -> bool {
        &&& other.may_return ==> self.may_return
        &&& other.may_kill ==> self.may_kill
    }

    /// Returns the empty set of exits.
    #[verifier::when_used_as_spec(spec_empty)]
    pub fn empty() -> (flags: Self)
        ensures
            flags == Self::spec_empty(),
    {
        ExitFlags { may_return: false, may_kill: false }
    }

    /// Control flow may return from the function.
    #[verifier::when_used_as_spec(spec_may_return)]
    pub fn may_return() -> (flags: Self)
        ensures
            flags == Self::spec_may_return(),
    {
        ExitFlags { may_return: true, may_kill: false }
    }

    /// Control flow may be killed.
    #[verifier::when_used_as_spec(spec_may_kill)]
    pub fn may_kill() -> (flags: Self)
        ensures
            flags == Self::spec_may_kill(),
    {
        ExitFlags { may_return: false, may_kill: true }
    }

    /// Returns `true` if all the exits in `other` are present in `self`.
    pub fn contains(self, other: Self) -> (all: bool)
        ensures
            all == self.includes(other),
    {
        (!other.may_return || self.may_return) && (!other.may_kill || self.may_kill)
    }
}

impl BitOr for ExitFlags {
    type Output = ExitFlags;

    fn bitor(self, other: ExitFlags) -> (flags: ExitFlags) {
        ExitFlags {
            may_return: self.may_return || other.may_return,
            may_kill: self.may_kill || other.may_kill,
        }
    }
}

impl BitOrSpecImpl for ExitFlags {
    open spec fn obeys_bitor_spec() -> bool {
        true
    }

    open spec fn bitor_req(self, other: ExitFlags) -> bool {
        true
    }

    open spec fn bitor_spec(self, other: ExitFlags) -> ExitFlags {
        self.union(other)
    }
}

} // verus!
