//! Text destinations for the streaming-write backend.

use vstd::prelude::*;
use vstd::string::StringExecFns;

verus! {

/// Error returned by a destination that refused a write.
///
/// The combinators never inspect it; they stop writing and hand it back
/// unchanged. In-memory destinations never produce it.
#[derive(Clone, Copy, Debug)]
pub struct WriteError;

/// A growable text destination.
///
/// The model of a destination is the sequence of characters written to it so
/// far, `out()`. A destination that is statically known not to refuse writes
/// says so through `never_fails()`; rendering into such a destination is
/// guaranteed to succeed.
pub trait Write {
    /// The characters this destination holds.
    spec fn out(&self) -> Seq<char>;

    /// Whether this destination can never refuse a write.
    spec fn never_fails(&self) -> bool;

    /// Append one character.
    fn write_char(&mut self, c: char) -> (r: Result<(), WriteError>)
        ensures
            final(self).never_fails() == old(self).never_fails(),
            r is Ok ==> final(self).out() == old(self).out() + seq![c],
            old(self).never_fails() ==> r is Ok,
    ;

    /// Append a string slice.
    fn write_str(&mut self, s: &str) -> (r: Result<(), WriteError>)
        ensures
            final(self).never_fails() == old(self).never_fails(),
            r is Ok ==> final(self).out() == old(self).out() + s@,
            old(self).never_fails() ==> r is Ok,
    ;
}

/// Relies on `String::push`: appends exactly the one character.
#[verifier::external_body]
fn push_char(s: &mut String, c: char)
    ensures
        final(s)@ == old(s)@ + seq![c],
{
    s.push(c);
}

impl Write for String {
    open spec fn out(&self) -> Seq<char> {
        self@
    }

    open spec fn never_fails(&self) -> bool {
        true
    }

    fn write_char(&mut self, c: char) -> (r: Result<(), WriteError>) {
        push_char(self, c);
        Ok(())
    }

    fn write_str(&mut self, s: &str) -> (r: Result<(), WriteError>) {
        self.append(s);
        Ok(())
    }
}

} // verus!
