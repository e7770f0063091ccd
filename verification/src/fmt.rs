//! The formatting capability and the default strategy.

use vstd::prelude::*;
use vstd::string::StrSliceExecFns;
use crate::sink::Write;
use crate::sink::WriteError;

verus! {

/// The default strategy: render values as plain text.
#[derive(Clone, Copy, Debug)]
pub struct Plain;

/// A length capped at what a `usize` can hold; size estimates saturate there.
pub open spec fn cap_usize(n: nat) -> nat {
    if n > (usize::MAX as nat) {
        usize::MAX as nat
    } else {
        n
    }
}

/// Multiplication that saturates at `usize::MAX`.
pub(crate) fn sat_mul_usize(a: usize, b: usize) -> (r: usize)
    ensures
        r as nat == cap_usize((a as nat) * (b as nat)),
{
    match a.checked_mul(b) {
        Some(p) => p,
        None => usize::MAX,
    }
}

/// A value that can render itself as text into a [`Write`] destination,
/// under a caller-supplied strategy, and estimate its rendered length.
///
/// The strategy is borrowed, never mutated, and is the single mechanism for
/// customizing how leaf values render; [`Plain`] is the default policy.
pub trait Fmt<S> {
    /// The text this value renders as under the given strategy.
    spec fn rendering(&self, strategy: &S) -> Seq<char>;

    /// The advisory estimate of the rendered length under the given strategy.
    /// It need not equal the true rendered length; a mismatch is never an
    /// error and only affects buffer pre-sizing.
    spec fn estimate(&self, strategy: &S) -> nat;

    /// Render this value into `writer`. A failed write stops the rendering
    /// and is handed back; a destination that never fails receives exactly
    /// `rendering(strategy)`, appended to what it already held.
    fn fmt<W: Write>(&self, writer: &mut W, strategy: &S) -> (r: Result<(), WriteError>)
        ensures
            final(writer).never_fails() == old(writer).never_fails(),
            r is Ok ==> final(writer).out() == old(writer).out() + self.rendering(strategy),
            old(writer).never_fails() ==> r is Ok,
    ;

    /// The advisory size estimate, saturated at `usize::MAX`.
    fn size_hint(&self, strategy: &S) -> (n: usize)
        ensures
            n as nat == cap_usize(self.estimate(strategy)),
    ;
}

impl Fmt<Plain> for char {
    open spec fn rendering(&self, strategy: &Plain) -> Seq<char> {
        seq![*self]
    }

    open spec fn estimate(&self, strategy: &Plain) -> nat {
        1
    }

    fn fmt<W: Write>(&self, writer: &mut W, strategy: &Plain) -> (r: Result<(), WriteError>) {
        writer.write_char(*self)
    }

    fn size_hint(&self, strategy: &Plain) -> (n: usize) {
        1
    }
}

impl<'a> Fmt<Plain> for &'a str {
    open spec fn rendering(&self, strategy: &Plain) -> Seq<char> {
        self@
    }

    open spec fn estimate(&self, strategy: &Plain) -> nat {
        self@.len()
    }

    fn fmt<W: Write>(&self, writer: &mut W, strategy: &Plain) -> (r: Result<(), WriteError>) {
        writer.write_str(*self)
    }

    fn size_hint(&self, strategy: &Plain) -> (n: usize) {
        self.unicode_len()
    }
}

impl Fmt<Plain> for String {
    open spec fn rendering(&self, strategy: &Plain) -> Seq<char> {
        self@
    }

    open spec fn estimate(&self, strategy: &Plain) -> nat {
        self@.len()
    }

    fn fmt<W: Write>(&self, writer: &mut W, strategy: &Plain) -> (r: Result<(), WriteError>) {
        writer.write_str(self.as_str())
    }

    fn size_hint(&self, strategy: &Plain) -> (n: usize) {
        self.as_str().unicode_len()
    }
}

} // verus!
