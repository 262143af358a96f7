//! Work that goes step by step, where what follows a step depends on whether it went well.

use vstd::prelude::*;

verus! {

/// The steps of such work.
pub trait Steps: Sized {
    /// The step that follows this one, which went well or not.
    spec fn after(self, ok: bool) -> Self;

    /// How many steps can still follow: none where the work ends.
    spec fn left(self) -> nat;

    /// The work comes to an end.
    proof fn steps_run_out(self, ok: bool)
        requires
            self.left() > 0,
        ensures
            self.after(ok).left() < self.left(),
    ;
}

/// The steps that are taken from `step` on, where `ok` says which of them go well.
#[verifier::opaque]
pub open spec fn steps_from<S: Steps>(step: S, ok: spec_fn(S) -> bool) -> Seq<S>
    decreases step.left(),
{
    let next = step.after(ok(step));
    if next.left() < step.left() {
        seq![step] + steps_from(next, ok)
    } else {
        seq![step]
    }
}

/// `wanted` is among the steps from `step` on if it is `step` or one that follows it, and they end
/// where those that follow it end.
pub proof fn lemma_steps_from<S: Steps>(step: S, ok: spec_fn(S) -> bool, wanted: S)
    requires
        step.left() == 0 ==> step.after(ok(step)).left() == 0,
    ensures
        ({
            let steps = steps_from(step, ok);
            let next = steps_from(step.after(ok(step)), ok);
            &&& step.left() == 0 ==> steps.last() == step
            &&& step.left() > 0 ==> steps.last() == next.last()
            &&& steps.contains(wanted) <==> step == wanted || (step.left() > 0 && next.contains(
                wanted,
            ))
        }),
{
    reveal_with_fuel(steps_from, 2);
    let steps = steps_from(step, ok);
    let next = steps_from(step.after(ok(step)), ok);
    lemma_no_step_twice(step, ok);
    assert(steps[0] == step);
    if step.left() > 0 {
        step.steps_run_out(ok(step));
        lemma_no_step_twice(step.after(ok(step)), ok);
        assert(steps == seq![step] + next);
        if next.contains(wanted) {
            let i = next.index_of(wanted);
            assert(steps[i + 1] == wanted);
        }
        if steps.contains(wanted) {
            let i = steps.index_of(wanted);
            if i > 0 {
                assert(next[i - 1] == wanted);
            }
        }
    }
}

/// No step is taken twice.
pub proof fn lemma_no_step_twice<S: Steps>(step: S, ok: spec_fn(S) -> bool)
    ensures
        0 < steps_from(step, ok).len() <= step.left() + 1,
        steps_from(step, ok).no_duplicates(),
        forall|i: int|
            0 <= i < steps_from(step, ok).len() ==> (#[trigger] steps_from(step, ok)[i]).left()
                <= step.left(),
    decreases step.left(),
{
    reveal_with_fuel(steps_from, 2);
    let steps = steps_from(step, ok);
    let after = step.after(ok(step));
    if after.left() < step.left() {
        let next = steps_from(after, ok);
        lemma_no_step_twice(after, ok);
        assert(steps == seq![step] + next);
        assert forall|i: int| 0 <= i < steps.len() implies (#[trigger] steps[i]).left()
            <= step.left() by {
            if i > 0 {
                assert(steps[i] == next[i - 1]);
            }
        }
        assert forall|i: int, j: int|
            0 <= i < steps.len() && 0 <= j < steps.len() && i != j implies steps[i]
            != steps[j] by {
            if i == 0 {
                assert(steps[j] == next[j - 1]);
            } else if j == 0 {
                assert(steps[i] == next[i - 1]);
            } else {
                assert(steps[i] == next[i - 1] && steps[j] == next[j - 1]);
            }
        }
    }
}

/// The step behind which the work ends: the last but one, where there is more than one.
pub open spec fn last_work_of<S>(steps: Seq<S>) -> S {
    steps[steps.len() - 2]
}

/// The work ends behind `step` if nothing can follow the step that follows it, or else where it
/// ends from there on.
pub proof fn lemma_last_work<S: Steps>(step: S, ok: spec_fn(S) -> bool)
    requires
        step.left() > 0,
    ensures
        ({
            let steps = steps_from(step, ok);
            let after = step.after(ok(step));
            &&& steps.len() > 1
            &&& last_work_of(steps) == if after.left() == 0 {
                step
            } else {
                last_work_of(steps_from(after, ok))
            }
        }),
    decreases step.left(),
{
    reveal_with_fuel(steps_from, 2);
    let steps = steps_from(step, ok);
    let after = step.after(ok(step));
    let next = steps_from(after, ok);
    step.steps_run_out(ok(step));
    assert(steps == seq![step] + next);
    if after.left() > 0 {
        lemma_last_work(after, ok);
    }
}

/// A run goes on from `step` with the step that follows it, or ends there.
pub proof fn lemma_run<S: Steps>(step: S, ok: spec_fn(S) -> bool)
    ensures
        step.left() > 0 ==> steps_from(step, ok) == seq![step] + steps_from(
            step.after(ok(step)),
            ok,
        ),
        step.left() == 0 ==> steps_from(step, ok) == seq![step],
{
    reveal_with_fuel(steps_from, 1);
    if step.left() > 0 {
        step.steps_run_out(ok(step));
    }
}

} // verus!
