//! Spans of time, to the nanosecond.

use vstd::prelude::*;
use vstd::string::*;

verus! {

/// How `std::time::Duration` prints a span of so many nanoseconds with `{:?}`.
pub uninterp spec fn duration_shown(nanos: nat) -> Seq<char>;

/// The `Debug` form of a `std::time::Duration` made by `Duration::new`. How it
/// is spelled is named, not described.
#[verifier::external_body]
fn debug_text(secs: u64, nanos: u32) -> (out: String)
    requires
        nanos < 1_000_000_000,
    ensures
        out@ == duration_shown((secs * 1_000_000_000 + nanos) as nat),
{
    format!("{:?}", std::time::Duration::new(secs, nanos))
}

/// A span of time: whole seconds, and nanoseconds that do not make up another.
#[derive(Clone, Copy, Debug, PartialEq, Eq, Structural)]
pub struct Span {
    secs: u64,
    nanos: u32,
}

impl View for Span {
    type V = nat;

    /// The span in nanoseconds.
    closed spec fn view(&self) -> nat {
        (self.secs * 1_000_000_000 + self.nanos) as nat
    }
}

impl Span {
    #[verifier::type_invariant]
    closed spec fn wf(self) -> bool {
        self.nanos < 1_000_000_000
    }

    /// Whole seconds and the nanoseconds after them.
    pub fn new(secs: u64, nanos: u32) -> (span: Self)
        requires
            nanos < 1_000_000_000,
        ensures
            span@ == secs * 1_000_000_000 + nanos,
    {
        Span { secs, nanos }
    }

    pub fn from_secs(secs: u64) -> (span: Self)
        ensures
            span@ == secs * 1_000_000_000,
    {
        Span { secs, nanos: 0 }
    }

    pub fn from_millis(millis: u64) -> (span: Self)
        ensures
            span@ == millis * 1_000_000,
    {
        Span { secs: millis / 1000, nanos: (millis % 1000) as u32 * 1_000_000 }
    }

    /// The whole seconds in the span.
    pub fn as_secs(&self) -> (secs: u64)
        ensures
            secs == self@ / 1_000_000_000,
    {
        proof {
            use_type_invariant(self);
        }
        self.secs
    }

    /// The nanoseconds after the whole seconds.
    pub fn subsec_nanos(&self) -> (nanos: u32)
        ensures
            nanos == self@ % 1_000_000_000,
    {
        proof {
            use_type_invariant(self);
        }
        self.nanos
    }

    /// The whole milliseconds in the span.
    pub fn as_millis(&self) -> (millis: u128)
        ensures
            millis == self@ / 1_000_000,
    {
        proof {
            use_type_invariant(self);
        }
        self.secs as u128 * 1000 + (self.nanos / 1_000_000) as u128
    }

    /// The span in words.
    pub fn shown(&self) -> (out: String)
        ensures
            out@ == duration_shown(self@),
    {
        proof {
            use_type_invariant(self);
        }
        debug_text(self.secs, self.nanos)
    }
}

} // verus!
