//! Convenience entry points that render into a `String` buffer.

use vstd::prelude::*;
use vstd::pervasive::unreached;
use crate::fmt::Fmt;
use crate::sink::Write;

verus! {

/// Relies on `String::clear`: removes all characters.
#[verifier::external_body]
fn clear_string(s: &mut String)
    ensures
        final(s)@ == Seq::<char>::empty(),
{
    s.clear()
}

/// Renders `value` into a fresh `String` and returns it.
///
/// A `String` never refuses a write, so the rendering cannot fail. Do not
/// use this if you already have a buffer you can reuse; see
/// [`fmt_to_cleared_string`].
pub fn fmt_to_new_string<V: Fmt<S>, S>(value: V, strategy: &S) -> (r: String)
    ensures
        r@ == value.rendering(strategy),
{
    let mut buf = String::new();
    proof {
        assert(Seq::<char>::empty() + value.rendering(strategy) =~= value.rendering(strategy));
    }
    match value.fmt(&mut buf, strategy) {
        Ok(()) => buf,
        Err(_) => unreached(),
    }
}

/// Clears `buf`, renders `value` into it, and returns the rendered text,
/// borrowed from the buffer.
///
/// Whatever the buffer held before is discarded: afterwards it holds exactly
/// the rendering of `value`, nothing more. Reusing one buffer across calls
/// avoids reallocation, which makes this the preferred entry point on hot
/// paths. A `String` never refuses a write, so the rendering cannot fail.
pub fn fmt_to_cleared_string<'a, V: Fmt<S>, S>(buf: &'a mut String, value: V, strategy: &S) -> (r:
    &'a str)
    ensures
        final(buf)@ == value.rendering(strategy),
        r@ == value.rendering(strategy),
{
    clear_string(buf);
    proof {
        assert(Seq::<char>::empty() + value.rendering(strategy) =~= value.rendering(strategy));
    }
    match value.fmt(buf, strategy) {
        Ok(()) => {},
        Err(_) => {
            return unreached();
        },
    }
    buf.as_str()
}

} // verus!
