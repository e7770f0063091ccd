//! The two combinators: separated sequences and repeated values.

use vstd::prelude::*;
use crate::fmt::{Fmt, cap_usize, sat_mul_usize};
use crate::sink::{Write, WriteError};

verus! {

/// The texts in `parts`, concatenated with `sep` between consecutive ones:
/// `parts[0] + sep + parts[1] + sep + ... + parts[n - 1]`, and the empty
/// text when `parts` is empty.
pub open spec fn join_with(sep: Seq<char>, parts: Seq<Seq<char>>) -> Seq<char>
    decreases parts.len(),
{
    if parts.len() == 0 {
        Seq::empty()
    } else if parts.len() == 1 {
        parts[0]
    } else {
        join_with(sep, parts.drop_last()) + sep + parts.last()
    }
}

/// The text `v` repeated `count` times, concatenated; empty when `count` is 0.
pub open spec fn repeat_text(v: Seq<char>, count: nat) -> Seq<char>
    decreases count,
{
    if count == 0 {
        Seq::empty()
    } else {
        repeat_text(v, (count - 1) as nat) + v
    }
}

/// The sum of a sequence of estimates.
pub open spec fn sum_of(es: Seq<nat>) -> nat
    decreases es.len(),
{
    if es.len() == 0 {
        0
    } else {
        sum_of(es.drop_last()) + es.last()
    }
}

/// The size estimate of a separated sequence: the sum of the item estimates,
/// plus the separator's estimate once for each of the `n - 1` gaps.
pub open spec fn separated_estimate(sep_e: nat, item_es: Seq<nat>) -> nat {
    if item_es.len() == 0 {
        0
    } else {
        sum_of(item_es) + sep_e * ((item_es.len() - 1) as nat)
    }
}

/// The size estimate of a repeated value: zero when `count` is 0, without
/// consulting the value's own estimate; otherwise that estimate times `count`.
pub open spec fn repeated_estimate(value_e: nat, count: nat) -> nat {
    if count == 0 {
        0
    } else {
        value_e * count
    }
}

/// The renderings of the items of `items`, in order.
pub open spec fn renderings<T: Fmt<S>, S>(items: Seq<T>, strategy: &S) -> Seq<Seq<char>> {
    Seq::new(items.len(), |i: int| items[i].rendering(strategy))
}

/// The size estimates of the items of `items`, in order.
pub open spec fn estimates<T: Fmt<S>, S>(items: Seq<T>, strategy: &S) -> Seq<nat> {
    Seq::new(items.len(), |i: int| items[i].estimate(strategy))
}

/// Renders the items of a slice with a separator between consecutive items:
/// not before the first, not after the last. An empty slice renders as empty
/// text; a single item renders without any separator.
///
/// The slice is a copyable view, so rendering and size estimation can each
/// walk the items without consuming anything.
#[derive(Clone, Copy, Debug)]
pub struct Separated<'a, Sep, T> {
    /// Rendered between consecutive items.
    pub sep: Sep,
    /// The items, rendered in order.
    pub iter: &'a [T],
}

/// Renders one value a fixed number of times, with nothing in between.
#[derive(Clone, Copy, Debug)]
pub struct Repeated<T> {
    /// The value to render.
    pub value: T,
    /// How many times it is rendered; zero renders as empty text.
    pub count: usize,
}

impl<'a, Sep: Fmt<S>, T: Fmt<S>, S> Fmt<S> for Separated<'a, Sep, T> {
    open spec fn rendering(&self, strategy: &S) -> Seq<char> {
        join_with(self.sep.rendering(strategy), renderings(self.iter@, strategy))
    }

    open spec fn estimate(&self, strategy: &S) -> nat {
        separated_estimate(self.sep.estimate(strategy), estimates(self.iter@, strategy))
    }

    #[verifier::loop_isolation(false)]
    fn fmt<W: Write>(&self, writer: &mut W, strategy: &S) -> (r: Result<(), WriteError>) {
        let ghost sep_r = self.sep.rendering(strategy);
        let ghost parts = renderings(self.iter@, strategy);
        let ghost start = writer.out();
        if self.iter.len() == 0 {
            proof {
                assert(start + join_with(sep_r, parts) =~= start);
            }
            return Ok(());
        }
        match self.iter[0].fmt(writer, strategy) {
            Ok(()) => {},
            Err(e) => {
                return Err(e);
            },
        }
        proof {
            assert(parts.take(1)[0] == parts[0]);
        }
        let mut i: usize = 1;
        while i < self.iter.len()
            invariant
                1 <= i <= self.iter.len(),
                writer.never_fails() == old(writer).never_fails(),
                writer.out() == start + join_with(sep_r, parts.take(i as int)),
            decreases self.iter.len() - i,
        {
            match self.sep.fmt(writer, strategy) {
                Ok(()) => {},
                Err(e) => {
                    return Err(e);
                },
            }
            match self.iter[i].fmt(writer, strategy) {
                Ok(()) => {},
                Err(e) => {
                    return Err(e);
                },
            }
            proof {
                lemma_join_with_step(sep_r, parts, i as int);
                assert(start + join_with(sep_r, parts.take(i + 1)) =~= ((start + join_with(
                    sep_r,
                    parts.take(i as int),
                )) + sep_r) + parts[i as int]);
            }
            i = i + 1;
        }
        proof {
            assert(parts.take(parts.len() as int) =~= parts);
        }
        Ok(())
    }

    #[verifier::loop_isolation(false)]
    fn size_hint(&self, strategy: &S) -> (n: usize) {
        let ghost es = estimates(self.iter@, strategy);
        if self.iter.len() == 0 {
            return 0;
        }
        let mut result = self.iter[0].size_hint(strategy);
        proof {
            assert(es[0] == self.iter@[0].estimate(strategy));
            assert(es.take(0) =~= Seq::<nat>::empty());
            assert(sum_of(es.take(0)) == 0);
            lemma_sum_of_step(es, 0);
        }
        let mut num_seps: usize = 0;
        let mut i: usize = 1;
        while i < self.iter.len()
            invariant
                1 <= i <= self.iter.len(),
                num_seps == i - 1,
                result as nat == cap_usize(sum_of(es.take(i as int))),
            decreases self.iter.len() - i,
        {
            let e = self.iter[i].size_hint(strategy);
            proof {
                assert(es[i as int] == self.iter@[i as int].estimate(strategy));
                lemma_sum_of_step(es, i as int);
                lemma_cap_usize_add(sum_of(es.take(i as int)), es[i as int]);
            }
            result = result.saturating_add(e);
            num_seps = num_seps + 1;
            i = i + 1;
        }
        proof {
            assert(es.take(es.len() as int) =~= es);
        }
        if num_seps > 0 {
            let sep_e = self.sep.size_hint(strategy);
            proof {
                lemma_cap_usize_mul(self.sep.estimate(strategy), num_seps as nat);
                lemma_cap_usize_add(sum_of(es), self.sep.estimate(strategy) * (num_seps as nat));
            }
            result = result.saturating_add(sat_mul_usize(sep_e, num_seps));
        } else {
            proof {
                assert(self.sep.estimate(strategy) * (num_seps as nat) == 0) by (nonlinear_arith)
                    requires
                        num_seps == 0,
                ;
            }
        }
        result
    }
}

/// One step of `sum_of` from the front: one more addend adds its estimate.
proof fn lemma_sum_of_step(es: Seq<nat>, i: int)
    requires
        0 <= i < es.len(),
    ensures
        sum_of(es.take(i + 1)) == sum_of(es.take(i)) + es[i],
{
    assert(es.take(i + 1).drop_last() =~= es.take(i));
    assert(es.take(i + 1).last() == es[i]);
}

/// One step of `join_with` from the front: joining one more part appends the
/// separator and that part.
proof fn lemma_join_with_step(sep: Seq<char>, parts: Seq<Seq<char>>, i: int)
    requires
        1 <= i < parts.len(),
    ensures
        join_with(sep, parts.take(i + 1)) == join_with(sep, parts.take(i)) + sep + parts[i],
{
    assert(parts.take(i + 1).drop_last() =~= parts.take(i));
    assert(parts.take(i + 1).last() == parts[i]);
}

/// Capping two addends at `usize::MAX` before an addition moves the cap
/// outside: both sides saturate together.
proof fn lemma_cap_usize_add(a: nat, b: nat)
    ensures
        cap_usize(cap_usize(a) + cap_usize(b)) == cap_usize(a + b),
{
}

impl<T: Fmt<S>, S> Fmt<S> for Repeated<T> {
    open spec fn rendering(&self, strategy: &S) -> Seq<char> {
        repeat_text(self.value.rendering(strategy), self.count as nat)
    }

    open spec fn estimate(&self, strategy: &S) -> nat {
        repeated_estimate(self.value.estimate(strategy), self.count as nat)
    }

    #[verifier::loop_isolation(false)]
    fn fmt<W: Write>(&self, writer: &mut W, strategy: &S) -> (r: Result<(), WriteError>) {
        let ghost v = self.value.rendering(strategy);
        let ghost start = writer.out();
        proof {
            assert(start + repeat_text(v, 0) =~= start);
        }
        let mut i: usize = 0;
        while i < self.count
            invariant
                i <= self.count,
                writer.never_fails() == old(writer).never_fails(),
                writer.out() == start + repeat_text(v, i as nat),
            decreases self.count - i,
        {
            match self.value.fmt(writer, strategy) {
                Ok(()) => {},
                Err(e) => {
                    return Err(e);
                },
            }
            proof {
                assert(writer.out() == (start + repeat_text(v, i as nat)) + v);
                assert(start + repeat_text(v, (i + 1) as nat) =~= (start + repeat_text(
                    v,
                    i as nat,
                )) + v);
            }
            i = i + 1;
        }
        Ok(())
    }

    fn size_hint(&self, strategy: &S) -> (n: usize) {
        if self.count == 0 {
            0
        } else {
            let e = self.value.size_hint(strategy);
            proof {
                lemma_cap_usize_mul(self.value.estimate(strategy), self.count as nat);
            }
            sat_mul_usize(e, self.count)
        }
    }
}

/// Capping a factor at `usize::MAX` before a multiplication by a positive
/// count moves the cap outside: both sides saturate together.
proof fn lemma_cap_usize_mul(a: nat, n: nat)
    requires
        n >= 1,
    ensures
        cap_usize(cap_usize(a) * n) == cap_usize(a * n),
{
    if a > (usize::MAX as nat) {
        assert((usize::MAX as nat) * n >= (usize::MAX as nat) * 1) by (nonlinear_arith)
            requires
                n >= 1,
        ;
        assert(a * n >= a * 1) by (nonlinear_arith)
            requires
                n >= 1,
        ;
    }
}

/// Law: the `Separated` size estimate is compositional. Whenever every
/// item's estimate equals the true length of that item's rendering, and the
/// separator's estimate equals the true length of its rendering, the
/// combined estimate equals the true length of the joined rendering.
pub proof fn lemma_separated_estimate_exact(
    sep: Seq<char>,
    sep_e: nat,
    parts: Seq<Seq<char>>,
    item_es: Seq<nat>,
)
    requires
        sep_e == sep.len(),
        item_es.len() == parts.len(),
        forall|i: int| 0 <= i < parts.len() ==> item_es[i] == parts[i].len(),
    ensures
        separated_estimate(sep_e, item_es) == join_with(sep, parts).len(),
    decreases parts.len(),
{
    let n = parts.len();
    if n == 0 {
    } else if n == 1 {
        assert(item_es.drop_last().len() == 0);
        assert(sum_of(item_es.drop_last()) == 0);
        assert(sep_e * ((n - 1) as nat) == 0) by (nonlinear_arith)
            requires
                n == 1,
        ;
    } else {
        assert forall|i: int|
            0 <= i < parts.drop_last().len() implies item_es.drop_last()[i]
            == parts.drop_last()[i].len() by {
            assert(item_es.drop_last()[i] == item_es[i]);
            assert(parts.drop_last()[i] == parts[i]);
        }
        lemma_separated_estimate_exact(sep, sep_e, parts.drop_last(), item_es.drop_last());
        assert(sep_e * ((n - 1) as nat) == sep_e * ((n - 2) as nat) + sep_e) by (nonlinear_arith)
            requires
                n >= 2,
        ;
    }
}

/// Law: the `Repeated` size estimate with count zero is zero, whatever the
/// value's own estimate says; it does not consult that estimate at all, so
/// any two estimates give the same answer there.
pub proof fn lemma_repeated_estimate_zero_count(value_e: nat, other_e: nat)
    ensures
        repeated_estimate(value_e, 0) == 0,
        repeated_estimate(value_e, 0) == repeated_estimate(other_e, 0),
{
}

} // verus!
