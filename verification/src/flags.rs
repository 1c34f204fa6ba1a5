//! The readiness-flag vocabulary: a fixed set of named bits and an immutable
//! bitmask value type over them.
//!
//! The bit values are the ones the Linux kernel's epoll interface documents,
//! so a set's raw pattern can be handed to the kernel (and decoded from it)
//! verbatim.

use vstd::prelude::*;

verus! {

/// The file is available for read operations.
pub const EPOLLIN: u32 = 0x001;
/// There is urgent data available for read operations.
pub const EPOLLPRI: u32 = 0x002;
/// The file is available for write operations.
pub const EPOLLOUT: u32 = 0x004;
/// An error condition happened on the file descriptor.
/// The kernel always reports this condition, whether requested or not.
pub const EPOLLERR: u32 = 0x008;
/// A hangup happened on the file descriptor.
/// The kernel always reports this condition, whether requested or not.
pub const EPOLLHUP: u32 = 0x010;
/// The stream peer closed its connection, or shut down its writing half.
pub const EPOLLRDHUP: u32 = 0x2000;
/// Wake only some of the epoll instances watching the descriptor;
/// valid only when the interest is first added.
pub const EPOLLEXCLUSIVE: u32 = 0x1000_0000;
/// Keep the system from suspending while the event is pending.
pub const EPOLLWAKEUP: u32 = 0x2000_0000;
/// Disable the descriptor after one event has been delivered.
pub const EPOLLONESHOT: u32 = 0x4000_0000;
/// Edge-triggered mode: report a condition only when it transitions to
/// true, not for as long as it stays true.
pub const EPOLLET: u32 = 0x8000_0000;

/// Every documented bit. A decoded set holds no bit outside this mask:
/// unknown bits the kernel may set are dropped, never rejected.
pub const ALL_EVENT_BITS: u32 = EPOLLIN | EPOLLPRI | EPOLLOUT | EPOLLERR | EPOLLHUP
    | EPOLLRDHUP | EPOLLEXCLUSIVE | EPOLLWAKEUP | EPOLLONESHOT | EPOLLET;

/// The conditions the kernel reports regardless of what was requested.
pub const ALWAYS_REPORTED_BITS: u32 = EPOLLERR | EPOLLHUP;

/// Whether the pattern `flags` holds every bit of `bits`.
pub open spec fn has_bits(flags: u32, bits: u32) -> bool {
    flags & bits == bits
}

/// An immutable set of readiness/control conditions, stored as a bit
/// pattern over the named bits above.
///
/// Two sets are equal exactly when their bit patterns are equal.
#[derive(Clone, Copy, PartialEq, Eq, Structural, Debug, Hash)]
pub struct EventFlags {
    pub bits: u32,
}

impl EventFlags {
    /// The empty set of conditions.
    pub fn empty() -> (r: EventFlags)
        ensures
            r.bits == 0,
    {
        EventFlags { bits: 0 }
    }

    /// Builds a set holding exactly the bits of `bits`.
    pub fn from_bits(bits: u32) -> (r: EventFlags)
        ensures
            r.bits == bits,
    {
        EventFlags { bits }
    }

    /// Decodes a raw kernel pattern: keeps exactly the documented bits and
    /// drops any the vocabulary does not name.
    pub fn from_bits_truncate(bits: u32) -> (r: EventFlags)
        ensures
            r.bits == bits & ALL_EVENT_BITS,
    {
        EventFlags { bits: bits & ALL_EVENT_BITS }
    }

    /// The raw bit pattern, as handed to the kernel.
    pub fn bits(self) -> (r: u32)
        ensures
            r == self.bits,
    {
        self.bits
    }

    /// The union of two sets.
    pub fn union(self, other: EventFlags) -> (r: EventFlags)
        ensures
            r.bits == self.bits | other.bits,
    {
        EventFlags { bits: self.bits | other.bits }
    }

    /// The intersection of two sets.
    pub fn intersection(self, other: EventFlags) -> (r: EventFlags)
        ensures
            r.bits == self.bits & other.bits,
    {
        EventFlags { bits: self.bits & other.bits }
    }

    /// Whether every condition in `other` is also in `self`.
    pub fn contains(self, other: EventFlags) -> (r: bool)
        ensures
            r == has_bits(self.bits, other.bits),
    {
        self.bits & other.bits == other.bits
    }

    /// Whether some condition is in both sets.
    pub fn intersects(self, other: EventFlags) -> (r: bool)
        ensures
            r == (self.bits & other.bits != 0),
    {
        self.bits & other.bits != 0
    }

    /// Whether no condition is in the set.
    pub fn is_empty(self) -> (r: bool)
        ensures
            r == (self.bits == 0),
    {
        self.bits == 0
    }
}

/// Decoding keeps only documented bits: whatever raw pattern the kernel
/// reports, the decoded set is a subset of the vocabulary.
pub proof fn lemma_decode_keeps_only_documented(raw: u32)
    ensures
        has_bits(ALL_EVENT_BITS, raw & ALL_EVENT_BITS),
{
    assert(ALL_EVENT_BITS & (raw & ALL_EVENT_BITS) == (raw & ALL_EVENT_BITS)) by (bit_vector);
}

/// Decoding loses no documented bit: a documented condition the kernel
/// reports is in the decoded set, and one it does not report is not.
pub proof fn lemma_decode_keeps_documented(raw: u32, bit: u32)
    requires
        has_bits(ALL_EVENT_BITS, bit),
    ensures
        has_bits(raw & ALL_EVENT_BITS, bit) == has_bits(raw, bit),
{
    assert((ALL_EVENT_BITS & bit == bit) ==> (((raw & ALL_EVENT_BITS) & bit == bit) == (raw & bit
        == bit))) by (bit_vector);
}

/// Requesting an interest set never hides the always-reported conditions:
/// joining them to any requested set yields a set that holds them.
pub proof fn lemma_always_reported_in_union(requested: u32)
    ensures
        has_bits(requested | ALWAYS_REPORTED_BITS, ALWAYS_REPORTED_BITS),
{
    assert((requested | ALWAYS_REPORTED_BITS) & ALWAYS_REPORTED_BITS == ALWAYS_REPORTED_BITS)
        by (bit_vector);
}

} // verus!
