//! How a color channel is divided into steps: which step numbers are drawn
//! and what the channel's span is divided by.

use vstd::prelude::*;

verus! {

/// How the steps of a channel are placed between its start and its end.
#[derive(Debug, Clone, Copy, PartialEq, Eq, Structural)]
pub enum StepType {
    /// From the start, not reaching the end.
    Forward,
    /// Towards the end, not touching the start.
    Reverse,
    /// From the start up to and including the end.
    Inclusive,
}

/// The number of values a channel of `steps` steps yields: one more when the
/// values are corners of edges, faces or volumes rather than vertices.
pub open spec fn value_count(steps: usize, not_vertex: bool) -> int {
    if not_vertex { steps + 1 } else { steps as int }
}

/// The first step number drawn: the reverse direction skips step 0.
pub open spec fn first_step(step_type: StepType) -> int {
    if step_type == StepType::Reverse { 1 } else { 0 }
}

/// What the channel's span is divided by to get one step.
pub open spec fn divisor_spec(steps: usize, step_type: StepType, not_vertex: bool) -> int {
    if step_type == StepType::Inclusive {
        value_count(steps, not_vertex) - 1
    } else {
        value_count(steps, not_vertex)
    }
}

/// The step numbers of a channel's values, in order; value number `t` lies
/// at `start + step_numbers[t] * (end - start) / divisor`.
pub fn step_numbers(steps: usize, step_type: StepType, not_vertex: bool) -> (r: Vec<usize>)
    requires
        not_vertex ==> steps < usize::MAX,
        step_type == StepType::Reverse ==> value_count(steps, not_vertex) < usize::MAX,
    ensures
        r@ == Seq::new(value_count(steps, not_vertex) as nat, |t: int| (first_step(step_type) + t) as usize),
{
    let count = if not_vertex { steps + 1 } else { steps };
    let (first, past_last) = match step_type {
        StepType::Forward => (0, count),
        StepType::Reverse => (1, count + 1),
        StepType::Inclusive => (0, count),
    };
    let mut values: Vec<usize> = Vec::new();
    let mut step: usize = first;
    while step < past_last
        invariant
            first == first_step(step_type),
            past_last == first + count,
            count == value_count(steps, not_vertex),
            first <= step <= past_last,
            values@ == Seq::new((step - first) as nat, |t: int| (first_step(step_type) + t) as usize),
        decreases past_last - step,
    {
        values.push(step);
        assert(values@ =~= Seq::new((step + 1 - first) as nat, |t: int| (first_step(step_type) + t) as usize));
        step = step + 1;
    }
    values
}

/// What the channel's span is divided by: the number of values, or one less
/// when both ends are included. It is -1 for an inclusive channel with no
/// values, where the division gives no value anyway.
pub fn step_divisor(steps: usize, step_type: StepType, not_vertex: bool) -> (r: i128)
    requires
        not_vertex ==> steps < usize::MAX,
    ensures
        r == divisor_spec(steps, step_type, not_vertex),
{
    let count: usize = if not_vertex { steps + 1 } else { steps };
    if step_type == StepType::Inclusive {
        count as i128 - 1
    } else {
        count as i128
    }
}

/// Law: a forward channel starts at its start and stops one step short of
/// its end; a reverse one starts one step after its start and ends at its
/// end; an inclusive one runs from start to end. With at least two values,
/// the last step number equals the divisor exactly when the end is reached.
pub proof fn lemma_step_endpoints(steps: usize, step_type: StepType, not_vertex: bool)
    requires
        value_count(steps, not_vertex) >= 2,
    ensures
        ({
            let n = value_count(steps, not_vertex);
            let d = divisor_spec(steps, step_type, not_vertex);
            let last = first_step(step_type) + n - 1;
            &&& d > 0
            &&& (step_type == StepType::Forward ==> first_step(step_type) == 0 && last == d - 1)
            &&& (step_type == StepType::Reverse ==> first_step(step_type) == 1 && last == d)
            &&& (step_type == StepType::Inclusive ==> first_step(step_type) == 0 && last == d)
        }),
{
}

/// Law: for every channel with at least one value, the divisor is the
/// number of values `n` (`steps`, plus one for edges, faces and volumes), or
/// `n - 1` when both ends are included, so that the step numbers place the
/// values as the step type says: a forward channel's values lie in
/// `[start, end)` with the first at the start, a reverse channel's in
/// `(start, end]` with the last at the end, and an inclusive channel with at
/// least two values runs from the start exactly to the end.
pub proof fn lemma_divisor_places_values(steps: usize, step_type: StepType, not_vertex: bool)
    requires
        (if not_vertex { steps + 1 } else { steps as int }) >= 1,
    ensures
        ({
            let n: int = if not_vertex { steps + 1 } else { steps as int };
            let d = divisor_spec(steps, step_type, not_vertex);
            let first = first_step(step_type);
            let last = first + n - 1;
            &&& value_count(steps, not_vertex) == n
            &&& (step_type == StepType::Forward ==> d == n && first == 0 && 0 <= last < d)
            &&& (step_type == StepType::Reverse ==> d == n && 0 < first && last == d)
            &&& (step_type == StepType::Inclusive && n >= 2 ==> d == n - 1 && first == 0 && last == d)
        }),
{
}

/// What the step-type choice becomes after the number of steps changed, and
/// whether the inclusive choice is offered: a single step cannot include both
/// ends, so an inclusive single-step channel falls back to forward.
pub fn step_type_for_steps(steps: usize, step_type: StepType) -> (r: (StepType, bool))
    ensures
        r.1 == !(steps == 1 && step_type == StepType::Inclusive),
        r.0 == (if r.1 { step_type } else { StepType::Forward }),
{
    if steps == 1 && step_type == StepType::Inclusive {
        (StepType::Forward, false)
    } else {
        (step_type, true)
    }
}

/// Law: once the step type has been fitted to a nonzero number of steps, the
/// divisor of the channel's values is positive, for vertices and for the
/// other kinds alike.
pub proof fn lemma_fitted_divisor_positive(steps: usize, step_type: StepType, not_vertex: bool)
    requires
        steps >= 1,
        !(steps == 1 && step_type == StepType::Inclusive),
    ensures
        divisor_spec(steps, step_type, not_vertex) >= 1,
{
}

/// Where a channel range starts and how many steps it takes.
#[derive(Debug, Clone, Copy, PartialEq, Eq, Structural)]
pub struct RangePlan {
    /// The range starts at the channel's end (reverse channels) rather than
    /// at its start.
    pub starts_at_end: bool,
    /// The number of steps.
    pub steps: usize,
}

/// The integer part of a channel's range: reverse channels start at the
/// end, inclusive ones take one step more, and a range along the grain one
/// step fewer. The step size is the span over the channel's own `steps`.
pub fn generate_range_plan(steps: usize, step_type: StepType, along_grain: bool) -> (r: RangePlan)
    requires
        step_type == StepType::Inclusive ==> steps < usize::MAX,
        along_grain ==> (if step_type == StepType::Inclusive { steps + 1 } else { steps as int }) >= 1,
    ensures
        r.starts_at_end == (step_type == StepType::Reverse),
        r.steps == (if step_type == StepType::Inclusive { steps + 1 } else { steps as int })
            - (if along_grain { 1int } else { 0 }),
{
    let wrap = step_type == StepType::Inclusive;
    let starts_at_end = step_type == StepType::Reverse;
    let count = if wrap { steps + 1 } else { steps };
    let count = if along_grain { count - 1 } else { count };
    RangePlan { starts_at_end, steps: count }
}

} // verus!
