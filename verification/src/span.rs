//! Lengths of time, counted in whole nanoseconds.

use vstd::prelude::*;

verus! {

/// Nanoseconds in one second.
pub const NANOS_PER_SEC: u128 = 1_000_000_000;

/// A length of time, held as a count of nanoseconds.
#[derive(Clone, Copy, Debug, PartialEq, Eq)]
pub struct Span {
    nanos: u128,
}

impl View for Span {
    type V = nat;

    /// The length in nanoseconds.
    closed spec fn view(&self) -> nat {
        self.nanos as nat
    }
}

impl Span {
    /// No span is longer than the largest count the machine type holds.
    pub proof fn lemma_bounded(self)
        ensures
            self@ <= u128::MAX,
    {
    }

    /// Two spans of the same length are the same span.
    pub proof fn lemma_same_length(self, other: Span)
        requires
            self@ == other@,
        ensures
            self == other,
    {
    }

    /// The empty span.
    pub fn zero() -> (out: Span)
        ensures
            out@ == 0,
    {
        Span { nanos: 0 }
    }

    /// A span of `secs` whole seconds.
    pub fn from_secs(secs: u64) -> (out: Span)
        ensures
            out@ == secs as nat * 1_000_000_000,
    {
        Span { nanos: (secs as u128) * NANOS_PER_SEC }
    }

    /// A span of `millis` thousandths of a second.
    pub fn from_millis(millis: u64) -> (out: Span)
        ensures
            out@ == millis as nat * 1_000_000,
    {
        Span { nanos: (millis as u128) * 1_000_000 }
    }

    /// A span of `secs` seconds and `nanos` nanoseconds.
    pub fn new(secs: u64, nanos: u32) -> (out: Span)
        ensures
            out@ == secs as nat * 1_000_000_000 + nanos as nat,
    {
        Span { nanos: (secs as u128) * NANOS_PER_SEC + (nanos as u128) }
    }

    /// The whole seconds of the span.
    pub fn as_secs(&self) -> (out: u128)
        ensures
            out as nat == self@ / 1_000_000_000,
    {
        self.nanos / NANOS_PER_SEC
    }

    /// The nanoseconds beyond the whole seconds.
    pub fn subsec_nanos(&self) -> (out: u32)
        ensures
            out as nat == self@ % 1_000_000_000,
    {
        (self.nanos % NANOS_PER_SEC) as u32
    }

    /// The sum of two spans, where the machine type holds it.
    pub fn checked_add(self, other: Span) -> (out: Option<Span>)
        ensures
            out is Some <==> self@ + other@ <= u128::MAX,
            out is Some ==> out->0@ == self@ + other@,
    {
        if self.nanos > u128::MAX - other.nanos {
            None
        } else {
            Some(Span { nanos: self.nanos + other.nanos })
        }
    }

    /// The sum of two spans that the machine type holds.
    pub fn plus(self, other: Span) -> (out: Span)
        requires
            self@ + other@ <= u128::MAX,
        ensures
            out@ == self@ + other@,
    {
        Span { nanos: self.nanos + other.nanos }
    }
}

} // verus!
