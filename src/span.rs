use vstd::prelude::*;

verus! {

/// Nanoseconds in one second.
pub open spec fn nanos_per_sec() -> nat {
    1_000_000_000
}

/// A non-negative span of time, as whole seconds and the nanoseconds beyond
/// them.
#[derive(Clone, Copy, Debug, PartialEq, Eq, Structural)]
pub struct Span {
    pub secs: u64,
    pub nanos: u32,
}

impl Span {
    /// The nanosecond part stays below one second.
    pub open spec fn wf(self) -> bool {
        self.nanos < nanos_per_sec()
    }

    /// The span's length in nanoseconds.
    pub open spec fn total_nanos(self) -> nat {
        self.secs as nat * nanos_per_sec() + self.nanos as nat
    }

    /// A span of `secs` seconds and `nanos` nanoseconds.
    pub fn new(secs: u64, nanos: u32) -> (r: Span)
        requires
            nanos < 1_000_000_000,
        ensures
            r.wf(),
            r.secs == secs,
            r.nanos == nanos,
            r.total_nanos() == secs * nanos_per_sec() + nanos,
    {
        Span { secs, nanos }
    }

    /// The empty span.
    pub fn zero() -> (r: Span)
        ensures
            r.wf(),
            r.total_nanos() == 0,
    {
        Span { secs: 0, nanos: 0 }
    }

    /// A span of whole seconds.
    pub fn from_secs(secs: u64) -> (r: Span)
        ensures
            r.wf(),
            r.total_nanos() == secs * nanos_per_sec(),
    {
        Span { secs, nanos: 0 }
    }

    /// A span of whole milliseconds.
    pub fn from_millis(millis: u64) -> (r: Span)
        ensures
            r.wf(),
            r.total_nanos() == millis * 1_000_000,
    {
        let secs = millis / 1000;
        let rest = millis % 1000;
        let nanos = (rest * 1_000_000) as u32;
        let r = Span { secs, nanos };
        assert(r.total_nanos() == millis * 1_000_000) by (nonlinear_arith)
            requires
                secs == millis / 1000,
                rest == millis % 1000,
                nanos == rest * 1_000_000,
                r.total_nanos() == secs * 1_000_000_000 + nanos,
        ;
        r
    }

    /// Whole seconds in the span.
    pub fn as_secs(&self) -> (r: u64)
        ensures
            r == self.secs,
    {
        self.secs
    }

    /// Nanoseconds beyond the whole seconds.
    pub fn subsec_nanos(&self) -> (r: u32)
        ensures
            r == self.nanos,
    {
        self.nanos
    }

    /// Whether this span is strictly shorter than `other`.
    pub fn is_shorter_than(&self, other: &Span) -> (r: bool)
        requires
            self.wf(),
            other.wf(),
        ensures
            r == (self.total_nanos() < other.total_nanos()),
    {
        let a = *self;
        let b = *other;
        assert(a.secs < b.secs ==> a.total_nanos() < b.total_nanos()) by (nonlinear_arith)
            requires
                a.nanos < 1_000_000_000,
                a.total_nanos() == a.secs * 1_000_000_000 + a.nanos,
                b.total_nanos() == b.secs * 1_000_000_000 + b.nanos,
        ;
        assert(b.secs < a.secs ==> b.total_nanos() < a.total_nanos()) by (nonlinear_arith)
            requires
                b.nanos < 1_000_000_000,
                a.total_nanos() == a.secs * 1_000_000_000 + a.nanos,
                b.total_nanos() == b.secs * 1_000_000_000 + b.nanos,
        ;
        if self.secs != other.secs {
            self.secs < other.secs
        } else {
            self.nanos < other.nanos
        }
    }
}

} // verus!
