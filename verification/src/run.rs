//! Runs: what a plan of bus operations leaves in the record when it is
//! carried out one operation at a time and given up at the first failure.

use vstd::prelude::*;
use crate::bus::{BusOp, Event};

verus! {

/// The events of a plan in which every operation succeeded.
pub open spec fn succeeded<E>(plan: Seq<BusOp>) -> Seq<Event<E>> {
    Seq::new(plan.len(), |i: int| Event { op: plan[i], failure: None })
}

/// The operations that a record asked for, in order.
pub open spec fn asked<E>(events: Seq<Event<E>>) -> Seq<BusOp> {
    Seq::new(events.len(), |i: int| events[i].op)
}

/// Whether `events` is what running `plan` from its first operation leaves
/// behind, given how the run ended.
///
/// A run that ends without failure has asked for every operation of the plan,
/// in order, and each succeeded. A run that ends with failure `e` has stopped
/// at the first operation that failed: that operation drives a line, it was
/// answered with `e`, everything before it succeeded, and nothing after it was
/// asked for.
pub open spec fn is_run<E>(plan: Seq<BusOp>, events: Seq<Event<E>>, failure: Option<E>) -> bool {
    match failure {
        None => events =~= succeeded::<E>(plan),
        Some(e) => {
            let k = events.len() - 1;
            &&& 0 <= k < plan.len()
            &&& plan[k] is Drive
            &&& events =~= succeeded::<E>(plan.take(k)).push(
                Event { op: plan[k], failure: Some(e) },
            )
        },
    }
}

/// Whether the record `after` is the record `before` followed by a run of
/// `plan` that ended as `failure` says.
pub open spec fn ran<E>(
    before: Seq<Event<E>>,
    after: Seq<Event<E>>,
    plan: Seq<BusOp>,
    failure: Option<E>,
) -> bool {
    &&& before.is_prefix_of(after)
    &&& is_run(plan, after.skip(before.len() as int), failure)
}

/// A record that has not changed has run the empty plan.
pub proof fn lemma_ran_nothing<E>(record: Seq<Event<E>>)
    ensures
        ran(record, record, Seq::<BusOp>::empty(), None::<E>),
{
}

/// A successful run of `first` followed by a run of `second` is a run of
/// `first + second` that ends as the second one did.
pub proof fn lemma_ran_then<E>(
    start: Seq<Event<E>>,
    middle: Seq<Event<E>>,
    end: Seq<Event<E>>,
    first: Seq<BusOp>,
    second: Seq<BusOp>,
    failure: Option<E>,
)
    requires
        ran(start, middle, first, None::<E>),
        ran(middle, end, second, failure),
    ensures
        ran(start, end, first + second, failure),
{
    let plan = first + second;
    let head = middle.skip(start.len() as int);
    let tail = end.skip(middle.len() as int);
    let events = end.skip(start.len() as int);
    assert(events =~= head + tail);
    match failure {
        None => {
            assert(events =~= succeeded::<E>(plan));
        },
        Some(e) => {
            let k = tail.len() - 1;
            let done = first.len() + k;
            assert(plan.take(done) =~= first + second.take(k));
            assert(plan[done] == second[k]);
            assert(events =~= succeeded::<E>(plan.take(done)).push(
                Event { op: plan[done], failure: Some(e) },
            ));
        },
    }
}

/// A run that failed is a run, failed in the same way, of every plan that
/// begins as its own plan does: nothing beyond the failure was asked for.
pub proof fn lemma_ran_failed<E>(
    start: Seq<Event<E>>,
    end: Seq<Event<E>>,
    first: Seq<BusOp>,
    plan: Seq<BusOp>,
    failure: Option<E>,
)
    requires
        failure is Some,
        ran(start, end, first, failure),
        first.is_prefix_of(plan),
    ensures
        ran(start, end, plan, failure),
{
    let events = end.skip(start.len() as int);
    let k = events.len() - 1;
    assert(plan.take(k) =~= first.take(k));
    assert(plan[k] == first[k]);
}

/// A run asks for the operations of its plan, in order, and stops at the
/// first failure: an event that reports a failure is the last of the run, it
/// drove a line, and the run ended with that very failure. A run that ended
/// without failure asked for the whole plan.
pub proof fn lemma_run_stops_at_failure<E>(
    plan: Seq<BusOp>,
    events: Seq<Event<E>>,
    failure: Option<E>,
)
    requires
        is_run(plan, events, failure),
    ensures
        asked(events).is_prefix_of(plan),
        forall|i: int|
            0 <= i < events.len() && (#[trigger] events[i]).failure is Some ==> {
                &&& i == events.len() - 1
                &&& events[i].op is Drive
                &&& events[i].failure == failure
            },
        failure is None ==> asked(events) == plan,
        failure is Some ==> events.len() > 0 && events.last().failure == failure,
{
    assert(asked(events) =~= plan.take(events.len() as int));
    if failure is None {
        assert(plan.take(events.len() as int) =~= plan);
    }
}

/// Two runs of one plan that both ended without failure left the same
/// events.
pub proof fn lemma_runs_agree<E>(plan: Seq<BusOp>, first: Seq<Event<E>>, second: Seq<Event<E>>)
    requires
        is_run(plan, first, None::<E>),
        is_run(plan, second, None::<E>),
    ensures
        first == second,
{
}

} // verus!
