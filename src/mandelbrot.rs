use vstd::prelude::*;

verus! {

/// The default cap on the number of escape-test steps.
pub const MAX_ITERATIONS: u16 = 1024;

/// What to do after one step of the escape test `z <- z^2 + c`.
#[derive(Clone, Copy, Debug, PartialEq, Eq, Structural)]
pub enum Verdict {
    /// The iterate left the radius-2 disk at this step (counted from 0).
    Escaped(u16),
    /// The point is taken to be in the set: the iterate stopped moving, or
    /// the step cap was reached.
    Bounded,
    /// Undecided: take another step, which carries this step number.
    Continue(u16),
}

/// The decision taken at step `iteration`, given whether the new iterate is
/// indistinguishable from the previous one and whether its squared magnitude
/// reached 4.
pub open spec fn verdict(iteration: u16, max_iterations: u16, stationary: bool, escaped: bool) -> Verdict {
    if iteration >= max_iterations {
        Verdict::Bounded
    } else if escaped {
        Verdict::Escaped(iteration)
    } else if stationary {
        Verdict::Bounded
    } else {
        Verdict::Continue((iteration + 1) as u16)
    }
}

/// The outcome of the escape test over a recorded orbit, starting at step
/// `from`: entry `k` of `orbit` says whether step `k` left the iterate where
/// it was and whether it escaped. `Some(k)` is an escape at step `k`; `None`
/// means the point stayed bounded within `max_iterations` steps.
pub open spec fn escape_outcome(orbit: Seq<(bool, bool)>, from: nat, max_iterations: nat) -> Option<nat>
    decreases max_iterations - from,
{
    if from >= max_iterations {
        None
    } else if orbit[from as int].1 {
        Some(from)
    } else if orbit[from as int].0 {
        None
    } else {
        escape_outcome(orbit, from + 1, max_iterations)
    }
}

/// Decides one step of the escape test. The caller computes the next iterate
/// `z' = z^2 + c` and reports whether `z'` equals `z` within tolerance
/// (`stationary`) and whether `|z'|^2 >= 4` (`escaped`). A reached cap ends
/// the test as bounded; otherwise an escape ends it with the step, even when
/// the iterate is also stationary; a stationary iterate ends it as bounded;
/// and otherwise the test continues with the next step.
pub fn find_converges(iteration: u16, max_iterations: u16, stationary: bool, escaped: bool) -> (r: Verdict)
    ensures
        r == verdict(iteration, max_iterations, stationary, escaped),
{
    if iteration >= max_iterations {
        return Verdict::Bounded;
    }
    if escaped {
        return Verdict::Escaped(iteration);
    }
    if stationary {
        return Verdict::Bounded;
    }
    Verdict::Continue(iteration + 1)
}

/// Driving `find_converges` step by step along an orbit computes
/// `escape_outcome`: each verdict either is the outcome or hands over to the
/// outcome from the next step.
pub proof fn lemma_verdict_follows_orbit(orbit: Seq<(bool, bool)>, iteration: u16, max_iterations: u16)
    ensures
        match verdict(iteration, max_iterations, orbit[iteration as int].0, orbit[iteration as int].1) {
            Verdict::Escaped(k) => escape_outcome(orbit, iteration as nat, max_iterations as nat)
                == Some(k as nat),
            Verdict::Bounded => escape_outcome(orbit, iteration as nat, max_iterations as nat)
                is None,
            Verdict::Continue(n) => n == iteration + 1 && escape_outcome(
                orbit,
                iteration as nat,
                max_iterations as nat,
            ) == escape_outcome(orbit, n as nat, max_iterations as nat),
        },
{
}

/// Raising the step cap never changes an escape found under the lower cap,
/// and an escape found under the higher cap shows under the lower one exactly
/// when its step is below that cap.
pub proof fn lemma_escape_monotone_in_cap(
    orbit: Seq<(bool, bool)>,
    from: nat,
    low_cap: nat,
    high_cap: nat,
)
    requires
        low_cap <= high_cap,
    ensures
        escape_outcome(orbit, from, low_cap) == (match escape_outcome(orbit, from, high_cap) {
            Some(k) => if k < low_cap {
                Some(k)
            } else {
                None
            },
            None => None,
        }),
    decreases high_cap - from,
{
    if from < high_cap && !orbit[from as int].0 && !orbit[from as int].1 {
        lemma_escape_monotone_in_cap(orbit, from + 1, low_cap, high_cap);
    }
}

/// A point whose first iterate (which is `c` itself) already has squared
/// magnitude at least 4 escapes at step 0.
pub proof fn lemma_immediate_escape(orbit: Seq<(bool, bool)>, max_iterations: nat)
    requires
        max_iterations > 0,
        orbit[0].1,
    ensures
        escape_outcome(orbit, 0, max_iterations) == Some(0nat),
{
}

} // verus!
