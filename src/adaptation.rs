use vstd::prelude::*;

verus! {

/// Where the feedback signal stands against an elastic bank's adaptation
/// threshold. A signal that compares with nothing (not a number) is `Level`.
#[derive(Clone, Copy, Debug, PartialEq, Eq, Structural)]
pub enum Feedback {
    Above,
    Below,
    Level,
}

/// What one adaptation step does to the size of an elastic bank.
#[derive(Clone, Copy, Debug, PartialEq, Eq, Structural)]
pub enum Resize {
    Grow,
    Shrink,
    Keep,
}

/// A bank grows by one unit when the feedback is above the threshold and it is
/// below its maximum, and shrinks by one when the feedback is below the
/// threshold and it is above its minimum; otherwise it keeps its size.
pub open spec fn resize_spec(feedback: Feedback, size: nat, min_units: nat, max_units: nat) -> Resize {
    if feedback == Feedback::Above && size < max_units {
        Resize::Grow
    } else if feedback == Feedback::Below && size > min_units {
        Resize::Shrink
    } else {
        Resize::Keep
    }
}

/// The size that a bank of `size` units has after one step with `action`.
pub open spec fn resized(size: nat, action: Resize) -> nat {
    match action {
        Resize::Grow => size + 1,
        Resize::Shrink => (size - 1) as nat,
        Resize::Keep => size,
    }
}

/// The size of a bank of `size` units after one adaptation step for each
/// feedback of `steps`, in order.
pub open spec fn size_after(size: nat, min_units: nat, max_units: nat, steps: Seq<Feedback>) -> nat
    decreases steps.len(),
{
    if steps.len() == 0 {
        size
    } else {
        let prev = size_after(size, min_units, max_units, steps.drop_last());
        resized(prev, resize_spec(steps.last(), prev, min_units, max_units))
    }
}

/// The resize that one adaptation step makes.
pub fn resize_action(feedback: Feedback, size: usize, min_units: usize, max_units: usize) -> (r: Resize)
    ensures
        r == resize_spec(feedback, size as nat, min_units as nat, max_units as nat),
{
    if feedback == Feedback::Above && size < max_units {
        Resize::Grow
    } else if feedback == Feedback::Below && size > min_units {
        Resize::Shrink
    } else {
        Resize::Keep
    }
}

/// One adaptation step on the units of an elastic bank, ranked from most to
/// least important: `fresh` is appended when the bank grows, and the last
/// (least important) unit is removed when it shrinks. Never both.
pub fn adapt_units<U>(units: &mut Vec<U>, feedback: Feedback, min_units: usize, max_units: usize, fresh: U) -> (r: Resize)
    ensures
        r == resize_spec(feedback, old(units)@.len(), min_units as nat, max_units as nat),
        final(units)@.len() == resized(old(units)@.len(), r),
        r == Resize::Grow ==> final(units)@ == old(units)@.push(fresh),
        r == Resize::Shrink ==> final(units)@ == old(units)@.drop_last(),
        r == Resize::Keep ==> final(units)@ == old(units)@,
        min_units <= old(units)@.len() <= max_units ==> min_units <= final(units)@.len() <= max_units,
{
    let r = resize_action(feedback, units.len(), min_units, max_units);
    match r {
        Resize::Grow => {
            units.push(fresh);
        },
        Resize::Shrink => {
            units.pop();
        },
        Resize::Keep => {},
    }
    r
}

/// Whatever the feedback, a bank whose size is within its bounds stays within
/// them after any number of adaptation steps.
pub proof fn lemma_size_stays_bounded(size: nat, min_units: nat, max_units: nat, steps: Seq<Feedback>)
    requires
        min_units <= size <= max_units,
    ensures
        min_units <= size_after(size, min_units, max_units, steps) <= max_units,
    decreases steps.len(),
{
    if steps.len() > 0 {
        lemma_size_stays_bounded(size, min_units, max_units, steps.drop_last());
    }
}

/// Each adaptation step changes a bank's size by at most one unit.
pub proof fn lemma_one_unit_per_step(size: nat, min_units: nat, max_units: nat, feedback: Feedback)
    ensures
        resized(size, resize_spec(feedback, size, min_units, max_units)) <= size + 1,
        resized(size, resize_spec(feedback, size, min_units, max_units)) + 1 >= size,
        feedback == Feedback::Level ==> resized(size, resize_spec(feedback, size, min_units, max_units)) == size,
{
}

} // verus!
