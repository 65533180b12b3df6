//! Small configuration-state types: the working mode of the process and
//! the bit-flag assertions the REPL uses to guard its commands.

use vstd::prelude::*;

verus! {

/// Mode the process runs in: one-shot command, API server, or interactive REPL.
#[derive(Clone, Copy, Debug, PartialEq, Eq, Structural)]
pub enum WorkingMode {
    Cmd,
    Serve,
    Repl,
}

impl WorkingMode {
    pub fn is_serve(&self) -> (r: bool)
        ensures
            r == (*self == WorkingMode::Serve),
    {
        matches!(self, WorkingMode::Serve)
    }

    pub fn is_repl(&self) -> (r: bool)
        ensures
            r == (*self == WorkingMode::Repl),
    {
        matches!(self, WorkingMode::Repl)
    }

    pub fn is_cmd(&self) -> (r: bool)
        ensures
            r == (*self == WorkingMode::Cmd),
    {
        matches!(self, WorkingMode::Cmd)
    }
}

/// Bit for a session with no messages in it yet.
pub const SESSION_EMPTY: u32 = 0x01;

/// Bit for an active session.
pub const SESSION: u32 = 0x02;

/// Bit for an active role.
pub const ROLE: u32 = 0x04;

/// Bit for an active agent.
pub const AGENT: u32 = 0x08;

/// Bit for an active RAG.
pub const RAG: u32 = 0x10;

/// A set of state bits, as a plain bit mask over the constants above.
#[derive(Clone, Copy, Debug, PartialEq, Eq, Structural)]
pub struct StateFlags {
    pub bits: u32,
}

impl StateFlags {
    /// The empty set of flags.
    pub fn empty() -> (r: StateFlags)
        ensures
            r.bits == 0,
    {
        StateFlags { bits: 0 }
    }

    pub fn from_bits(bits: u32) -> (r: StateFlags)
        ensures
            r.bits == bits,
    {
        StateFlags { bits }
    }

    pub fn is_empty(&self) -> (r: bool)
        ensures
            r == (self.bits == 0),
    {
        self.bits == 0
    }

    /// All bits of `other` are set in `self`.
    pub fn contains(&self, other: StateFlags) -> (r: bool)
        ensures
            r == (self.bits & other.bits == other.bits),
    {
        self.bits & other.bits == other.bits
    }

    /// At least one bit of `other` is set in `self`.
    pub fn intersects(&self, other: StateFlags) -> (r: bool)
        ensures
            r == (self.bits & other.bits != 0),
    {
        self.bits & other.bits != 0
    }
}

/// A guard on the current state bits: which combinations a command accepts.
#[derive(Clone, Copy, Debug)]
pub enum AssertState {
    Pass,
    Bare,
    False(StateFlags),
    True(StateFlags),
    TrueFalse(StateFlags, StateFlags),
}

impl AssertState {
    /// What the guard means, over the raw bits.
    pub open spec fn holds_for(self, flags: StateFlags) -> bool {
        match self {
            AssertState::Pass => true,
            AssertState::Bare => flags.bits == 0,
            AssertState::False(f) => flags.bits & f.bits == 0,
            AssertState::True(t) => flags.bits & t.bits == t.bits,
            AssertState::TrueFalse(t, f) => flags.bits & t.bits == t.bits && flags.bits & f.bits
                == 0,
        }
    }

    pub fn pass() -> (r: Self)
        ensures
            r == AssertState::Pass,
    {
        Self::Pass
    }

    pub fn bare() -> (r: Self)
        ensures
            r == AssertState::Bare,
    {
        Self::Bare
    }

    /// Evaluate the guard against the current flags.
    pub fn check(&self, flags: StateFlags) -> (r: bool)
        ensures
            r == self.holds_for(flags),
    {
        match self {
            AssertState::Pass => true,
            AssertState::Bare => flags.is_empty(),
            AssertState::False(f) => !flags.intersects(*f),
            AssertState::True(t) => flags.contains(*t),
            AssertState::TrueFalse(t, f) => flags.contains(*t) && !flags.intersects(*f),
        }
    }
}

} // verus!
