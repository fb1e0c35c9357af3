//! Whole runs of the dispatcher: what it asks for, from the start to the
//! end, when the caller answers each request with what its collaborators
//! gave.

use vstd::prelude::*;
use crate::batch::progress_of;
use crate::batch::status_sent;
use crate::batch::Batch;
use crate::batch::Progress;
use crate::dispatch::delivery_of;
use crate::dispatch::initial;
use crate::dispatch::step_spec;
use crate::dispatch::Action;
use crate::dispatch::DispatchState;
use crate::dispatch::Event;
use crate::dispatch::Failure;
use crate::dispatch::Phase;

verus! {

/// What the collaborators of one run do: `delivery(i)` is how the delivery
/// to the recipient at position `i` ends, and `sink(k)` is what the progress
/// sink answers to the event number `k`, counted from zero. In a batch of
/// `n` recipients the report on the recipient at position `i` is event
/// number `i`, and the completion event is number `n`.
pub ghost struct World {
    pub delivery: spec_fn(int) -> Result<(), Seq<char>>,
    pub sink: spec_fn(int) -> Result<(), Seq<char>>,
}

/// The event with which the caller answers action `a`, asked for in state
/// `s`; none after the end.
pub open spec fn reply(world: World, s: DispatchState, a: Action) -> Option<Event> {
    match a {
        Action::Deliver { .. } => Some(Event::Delivered((world.delivery)(s.cursor as int))),
        Action::EmitProgress(_) => Some(Event::Emitted((world.sink)(s.cursor as int))),
        Action::EmitComplete => Some(
            Event::Emitted((world.sink)(s.batch.recipients.len() as int)),
        ),
        Action::Pause { .. } => Some(Event::Paused),
        Action::Finish(_) => None,
    }
}

/// How many steps a dispatch in state `s` can still take, at most.
pub open spec fn steps_left(s: DispatchState) -> nat {
    let n = s.batch.recipients.len();
    let ahead = if s.cursor < n {
        (n - s.cursor) as nat
    } else {
        0
    };
    match s.phase {
        Phase::Ready => 4 * n + 4,
        Phase::Delivering => 4 * ahead + 3,
        Phase::Reporting => 4 * ahead + 2,
        Phase::Pacing => 4 * ahead + 1,
        Phase::Completing => 1,
        Phase::Done => 0,
    }
}

/// The actions of the run that goes on from state `s` with event `e`, in
/// order: the dispatcher takes a step, the caller answers, and so on until
/// the dispatcher ends the run or does not take the event.
pub open spec fn run_from(connected: bool, world: World, s: DispatchState, e: Event) -> Seq<Action>
    decreases steps_left(s),
{
    match step_spec(connected, s, e) {
        None => Seq::empty(),
        Some((next, a)) => match reply(world, next, a) {
            Some(answer) => seq![a] + run_from(connected, world, next, answer),
            None => seq![a],
        },
    }
}

/// The actions of a whole dispatch of `batch`.
pub open spec fn run(connected: bool, world: World, batch: Batch) -> Seq<Action> {
    run_from(connected, world, initial(batch), Event::Start)
}

/// Every step brings the end nearer.
pub proof fn lemma_step_decreases(connected: bool, s: DispatchState, e: Event)
    ensures
        step_spec(connected, s, e) matches Some((next, _)) ==> steps_left(next) < steps_left(s),
{
}

/// What reaches the progress sink.
pub ghost enum Emission {
    Progress(Progress),
    Complete,
}

/// The events that a sequence of actions hands to the progress sink, in
/// order.
pub open spec fn emissions(actions: Seq<Action>) -> Seq<Emission>
    decreases actions.len(),
{
    if actions.len() == 0 {
        Seq::empty()
    } else {
        let rest = emissions(actions.drop_first());
        match actions.first() {
            Action::EmitProgress(report) => seq![Emission::Progress(report)] + rest,
            Action::EmitComplete => seq![Emission::Complete] + rest,
            _ => rest,
        }
    }
}

/// The deliveries that a sequence of actions asks for, in order.
pub open spec fn deliveries(actions: Seq<Action>) -> Seq<Action>
    decreases actions.len(),
{
    if actions.len() == 0 {
        Seq::empty()
    } else {
        let rest = deliveries(actions.drop_first());
        match actions.first() {
            Action::Deliver { .. } => seq![actions.first()] + rest,
            _ => rest,
        }
    }
}

/// The deliveries to the recipients at the positions from `from` up to, and
/// without, `to`.
pub open spec fn deliveries_between(batch: Batch, from: int, to: int) -> Seq<Action> {
    Seq::new((to - from) as nat, |k: int| delivery_of(batch, from + k))
}

/// The reports on the recipients at the positions from `from` up to, and
/// without, `to`, each with the outcome that its delivery has in `world`.
pub open spec fn reports_between(world: World, batch: Batch, from: int, to: int) -> Seq<Emission> {
    Seq::new(
        (to - from) as nat,
        |k: int| Emission::Progress(progress_of(batch, from + k, (world.delivery)(from + k))),
    )
}

/// The reports on the recipients from position `from` on, each with the
/// outcome that its delivery has in `world`.
pub open spec fn reports_from(world: World, batch: Batch, from: int) -> Seq<Emission> {
    reports_between(world, batch, from, batch.recipients.len() as int)
}

/// The sink takes every event of a batch of `n` recipients.
pub open spec fn sink_accepts_all(world: World, n: nat) -> bool {
    forall|k: int| 0 <= k <= n ==> #[trigger] (world.sink)(k) is Ok
}

proof fn lemma_emissions_cons(a: Action, rest: Seq<Action>)
    ensures
        emissions(seq![a] + rest) == match a {
            Action::EmitProgress(report) => seq![Emission::Progress(report)] + emissions(rest),
            Action::EmitComplete => seq![Emission::Complete] + emissions(rest),
            _ => emissions(rest),
        },
{
    assert((seq![a] + rest).drop_first() == rest);
}

proof fn lemma_deliveries_cons(a: Action, rest: Seq<Action>)
    ensures
        deliveries(seq![a] + rest) == match a {
            Action::Deliver { .. } => seq![a] + deliveries(rest),
            _ => deliveries(rest),
        },
{
    assert((seq![a] + rest).drop_first() == rest);
}

proof fn lemma_deliveries_one(a: Action)
    ensures
        deliveries(seq![a]) == match a {
            Action::Deliver { .. } => seq![a],
            _ => Seq::<Action>::empty(),
        },
{
    assert(seq![a] + Seq::<Action>::empty() == seq![a]);
    lemma_deliveries_cons(a, Seq::empty());
    assert(deliveries(Seq::<Action>::empty()) == Seq::<Action>::empty());
}

proof fn lemma_emissions_one(a: Action)
    ensures
        emissions(seq![a]) == match a {
            Action::EmitProgress(report) => seq![Emission::Progress(report)],
            Action::EmitComplete => seq![Emission::Complete],
            _ => Seq::<Emission>::empty(),
        },
{
    assert(seq![a] + Seq::<Action>::empty() == seq![a]);
    lemma_emissions_cons(a, Seq::empty());
    assert(emissions(Seq::<Action>::empty()) == Seq::<Emission>::empty());
}

/// From the delivery to the recipient at position `i` on, a run whose sink
/// takes every event reports on each remaining recipient, in order, and then
/// completes.
proof fn lemma_run_from_delivery(world: World, batch: Batch, i: int)
    requires
        0 <= i < batch.recipients.len(),
        sink_accepts_all(world, batch.recipients.len()),
    ensures
        ({
            let s = DispatchState { batch, cursor: i as nat, phase: Phase::Delivering };
            let actions = run_from(true, world, s, Event::Delivered((world.delivery)(i)));
            &&& emissions(actions) == reports_from(world, batch, i).push(Emission::Complete)
            &&& deliveries(actions) == deliveries_between(
                batch,
                i + 1,
                batch.recipients.len() as int,
            )
            &&& actions.len() > 0
            &&& actions.last() == Action::Finish(Ok(()))
        }),
    decreases batch.recipients.len() - i,
{
    let n = batch.recipients.len();
    let outcome = (world.delivery)(i);
    let report = progress_of(batch, i, outcome);
    let s0 = DispatchState { batch, cursor: i as nat, phase: Phase::Delivering };
    let s1 = DispatchState { batch, cursor: i as nat, phase: Phase::Reporting };
    assert(step_spec(true, s0, Event::Delivered(outcome)) == Some(
        (s1, Action::EmitProgress(report)),
    ));
    assert((world.sink)(i) is Ok);
    let e1 = Event::Emitted((world.sink)(i));
    let tail1 = run_from(true, world, s1, e1);
    assert(run_from(true, world, s0, Event::Delivered(outcome)) == seq![
        Action::EmitProgress(report),
    ] + tail1);
    lemma_emissions_cons(Action::EmitProgress(report), tail1);
    lemma_deliveries_cons(Action::EmitProgress(report), tail1);
    if i + 1 < n {
        let s3 = DispatchState { batch, cursor: (i + 1) as nat, phase: Phase::Delivering };
        let next = delivery_of(batch, i + 1);
        let tail3 = run_from(true, world, s3, Event::Delivered((world.delivery)(i + 1)));
        lemma_run_from_delivery(world, batch, i + 1);
        assert(run_from(true, world, s3, reply(world, s3, next)->0) == tail3);
        if batch.interval_seconds > 0 {
            let s2 = DispatchState { batch, cursor: i as nat, phase: Phase::Pacing };
            let pause = Action::Pause { seconds: batch.interval_seconds };
            assert(step_spec(true, s1, e1) == Some((s2, pause)));
            let tail2 = run_from(true, world, s2, Event::Paused);
            assert(tail1 == seq![pause] + tail2);
            assert(step_spec(true, s2, Event::Paused) == Some((s3, next)));
            assert(tail2 == seq![next] + tail3);
            lemma_emissions_cons(pause, tail2);
            lemma_emissions_cons(next, tail3);
            lemma_deliveries_cons(pause, tail2);
            lemma_deliveries_cons(next, tail3);
            assert(tail1.last() == tail3.last());
        } else {
            assert(step_spec(true, s1, e1) == Some((s3, next)));
            assert(tail1 == seq![next] + tail3);
            lemma_emissions_cons(next, tail3);
            lemma_deliveries_cons(next, tail3);
            assert(tail1.last() == tail3.last());
        }
        assert(deliveries(tail1) == seq![next] + deliveries_between(batch, i + 2, n as int));
        assert(seq![next] + deliveries_between(batch, i + 2, n as int) == deliveries_between(
            batch,
            i + 1,
            n as int,
        ));
        assert(emissions(tail1) == reports_from(world, batch, i + 1).push(Emission::Complete));
        assert(seq![Emission::Progress(report)] + reports_from(world, batch, i + 1).push(
            Emission::Complete,
        ) == reports_from(world, batch, i).push(Emission::Complete));
    } else {
        let s2 = DispatchState { batch, cursor: i as nat, phase: Phase::Completing };
        let s3 = DispatchState { batch, cursor: i as nat, phase: Phase::Done };
        assert(step_spec(true, s1, e1) == Some((s2, Action::EmitComplete)));
        assert((world.sink)(n as int) is Ok);
        let e2 = Event::Emitted((world.sink)(n as int));
        let tail2 = run_from(true, world, s2, e2);
        assert(tail1 == seq![Action::EmitComplete] + tail2);
        assert(step_spec(true, s2, e2) == Some((s3, Action::Finish(Ok(())))));
        assert(tail2 == seq![Action::Finish(Ok(()))]);
        lemma_emissions_cons(Action::EmitComplete, tail2);
        lemma_emissions_one(Action::Finish(Ok(())));
        lemma_deliveries_cons(Action::EmitComplete, tail2);
        lemma_deliveries_one(Action::Finish(Ok(())));
        assert(seq![Emission::Progress(report)] + (seq![Emission::Complete]
            + Seq::<Emission>::empty()) == reports_from(world, batch, i).push(
            Emission::Complete,
        ));
        assert(deliveries(tail1) == deliveries_between(batch, i + 1, n as int));
    }
}

/// With a session, and a sink that takes every event, a dispatch of a batch
/// of `n` recipients hands the sink exactly `n` reports and then exactly one
/// completion event, and ends well. The reports come in the order of the
/// recipients; each says how the delivery to its recipient ended, counts the
/// recipients up to and with its own, and names `n` as the total.
///
/// No delivery has to succeed for this: a failed one shows in its own report
/// and nowhere else.
pub proof fn lemma_run_reports_every_recipient(world: World, batch: Batch)
    requires
        sink_accepts_all(world, batch.recipients.len()),
    ensures
        emissions(run(true, world, batch)) == reports_from(world, batch, 0).push(
            Emission::Complete,
        ),
        deliveries(run(true, world, batch)) == deliveries_between(
            batch,
            0,
            batch.recipients.len() as int,
        ),
        run(true, world, batch).len() > 0,
        run(true, world, batch).last() == Action::Finish(Ok(())),
{
    let n = batch.recipients.len();
    let s = initial(batch);
    if n == 0 {
        let s1 = DispatchState { phase: Phase::Completing, ..s };
        let s2 = DispatchState { phase: Phase::Done, ..s };
        assert(step_spec(true, s, Event::Start) == Some((s1, Action::EmitComplete)));
        assert((world.sink)(0) is Ok);
        let e1 = Event::Emitted((world.sink)(0));
        let tail1 = run_from(true, world, s1, e1);
        assert(run(true, world, batch) == seq![Action::EmitComplete] + tail1);
        assert(step_spec(true, s1, e1) == Some((s2, Action::Finish(Ok(())))));
        assert(tail1 == seq![Action::Finish(Ok(()))]);
        lemma_emissions_cons(Action::EmitComplete, tail1);
        lemma_emissions_one(Action::Finish(Ok(())));
        lemma_deliveries_cons(Action::EmitComplete, tail1);
        lemma_deliveries_one(Action::Finish(Ok(())));
        assert(seq![Emission::Complete] + Seq::<Emission>::empty() == reports_from(
            world,
            batch,
            0,
        ).push(Emission::Complete));
        assert(deliveries(run(true, world, batch)) == deliveries_between(batch, 0, 0));
    } else {
        let s1 = DispatchState { batch, cursor: 0, phase: Phase::Delivering };
        let first = delivery_of(batch, 0);
        assert(step_spec(true, s, Event::Start) == Some((s1, first)));
        let tail1 = run_from(true, world, s1, Event::Delivered((world.delivery)(0)));
        assert(run(true, world, batch) == seq![first] + tail1);
        lemma_run_from_delivery(world, batch, 0);
        lemma_emissions_cons(first, tail1);
        lemma_deliveries_cons(first, tail1);
        assert(run(true, world, batch).last() == tail1.last());
        assert(seq![first] + deliveries_between(batch, 1, n as int) == deliveries_between(
            batch,
            0,
            n as int,
        ));
    }
}

/// Where every delivery succeeds too, every report says `sent` and carries
/// no error.
pub proof fn lemma_run_all_sent(world: World, batch: Batch, i: int)
    requires
        sink_accepts_all(world, batch.recipients.len()),
        forall|k: int| 0 <= k < batch.recipients.len() ==> #[trigger] (world.delivery)(k) is Ok,
        0 <= i < batch.recipients.len(),
    ensures
        emissions(run(true, world, batch)).len() == batch.recipients.len() + 1,
        emissions(run(true, world, batch))[i] matches Emission::Progress(report) && report.status
            == status_sent() && report.error is None && report.processed == i + 1 && report.total
            == batch.recipients.len(),
        emissions(run(true, world, batch))[batch.recipients.len() as int] == Emission::Complete,
{
    lemma_run_reports_every_recipient(world, batch);
    assert((world.delivery)(i) is Ok);
}

/// A failed delivery takes nothing from the recipients after it: each of
/// them is still reported on, at its own place, with its own count and the
/// full total.
pub proof fn lemma_run_goes_on_after_failure(world: World, batch: Batch, failed: int, later: int)
    requires
        sink_accepts_all(world, batch.recipients.len()),
        0 <= failed < later < batch.recipients.len(),
        (world.delivery)(failed) is Err,
    ensures
        emissions(run(true, world, batch)).len() == batch.recipients.len() + 1,
        emissions(run(true, world, batch))[failed] == Emission::Progress(
            progress_of(batch, failed, (world.delivery)(failed)),
        ),
        emissions(run(true, world, batch))[later] == Emission::Progress(
            progress_of(batch, later, (world.delivery)(later)),
        ),
        progress_of(batch, later, (world.delivery)(later)).processed == later + 1,
        progress_of(batch, later, (world.delivery)(later)).total == batch.recipients.len(),
{
    lemma_run_reports_every_recipient(world, batch);
}

/// Without a session a dispatch ends at once with `NotConnected`: nothing is
/// delivered and nothing reaches the sink.
pub proof fn lemma_run_without_session(world: World, batch: Batch)
    ensures
        run(false, world, batch) == seq![Action::Finish(Err(Failure::NotConnected))],
        emissions(run(false, world, batch)) == Seq::<Emission>::empty(),
        deliveries(run(false, world, batch)) == Seq::<Action>::empty(),
{
    lemma_emissions_one(Action::Finish(Err(Failure::NotConnected)));
    lemma_deliveries_one(Action::Finish(Err(Failure::NotConnected)));
}

/// The sink takes the events before number `k` and refuses that one with
/// `description`.
pub open spec fn sink_refuses_at(world: World, k: int, description: Seq<char>) -> bool {
    &&& forall|j: int| 0 <= j < k ==> #[trigger] (world.sink)(j) is Ok
    &&& (world.sink)(k) == Err::<(), Seq<char>>(description)
}

/// What reaches a sink that refuses event number `k`, from the report on the
/// recipient at position `from` on: the reports up to and with the refused
/// one, or all reports and the completion event where that is the one
/// refused.
pub open spec fn emissions_until(world: World, batch: Batch, from: int, k: int) -> Seq<Emission> {
    if k < batch.recipients.len() {
        reports_between(world, batch, from, k + 1)
    } else {
        reports_from(world, batch, from).push(Emission::Complete)
    }
}

/// The position after the last recipient that a delivery is attempted to
/// where the sink refuses event number `k`.
pub open spec fn attempts_until(batch: Batch, k: int) -> int {
    if k < batch.recipients.len() {
        k + 1
    } else {
        batch.recipients.len() as int
    }
}

proof fn lemma_refused_from_delivery(
    world: World,
    batch: Batch,
    i: int,
    k: int,
    description: Seq<char>,
)
    requires
        0 <= i <= k <= batch.recipients.len(),
        i < batch.recipients.len(),
        sink_refuses_at(world, k, description),
    ensures
        ({
            let s = DispatchState { batch, cursor: i as nat, phase: Phase::Delivering };
            let actions = run_from(true, world, s, Event::Delivered((world.delivery)(i)));
            &&& emissions(actions) == emissions_until(world, batch, i, k)
            &&& deliveries(actions) == deliveries_between(batch, i + 1, attempts_until(batch, k))
            &&& actions.len() > 0
            &&& actions.last() == Action::Finish(Err(Failure::SinkError(description)))
        }),
    decreases batch.recipients.len() - i,
{
    let n = batch.recipients.len();
    let outcome = (world.delivery)(i);
    let report = progress_of(batch, i, outcome);
    let failure = Action::Finish(Err(Failure::SinkError(description)));
    let s0 = DispatchState { batch, cursor: i as nat, phase: Phase::Delivering };
    let s1 = DispatchState { batch, cursor: i as nat, phase: Phase::Reporting };
    let done = DispatchState { batch, cursor: i as nat, phase: Phase::Done };
    assert(step_spec(true, s0, Event::Delivered(outcome)) == Some(
        (s1, Action::EmitProgress(report)),
    ));
    let e1 = Event::Emitted((world.sink)(i));
    let tail1 = run_from(true, world, s1, e1);
    assert(run_from(true, world, s0, Event::Delivered(outcome)) == seq![
        Action::EmitProgress(report),
    ] + tail1);
    lemma_emissions_cons(Action::EmitProgress(report), tail1);
    lemma_deliveries_cons(Action::EmitProgress(report), tail1);
    if i == k {
        assert(step_spec(true, s1, e1) == Some((done, failure)));
        assert(tail1 == seq![failure]);
        lemma_emissions_one(failure);
        lemma_deliveries_one(failure);
        assert(seq![Emission::Progress(report)] + Seq::<Emission>::empty() == reports_between(
            world,
            batch,
            i,
            k + 1,
        ));
        assert(deliveries(tail1) == deliveries_between(batch, i + 1, k + 1));
    } else if i + 1 < n {
        assert((world.sink)(i) is Ok);
        let s3 = DispatchState { batch, cursor: (i + 1) as nat, phase: Phase::Delivering };
        let next = delivery_of(batch, i + 1);
        let tail3 = run_from(true, world, s3, Event::Delivered((world.delivery)(i + 1)));
        lemma_refused_from_delivery(world, batch, i + 1, k, description);
        assert(run_from(true, world, s3, reply(world, s3, next)->0) == tail3);
        if batch.interval_seconds > 0 {
            let s2 = DispatchState { batch, cursor: i as nat, phase: Phase::Pacing };
            let pause = Action::Pause { seconds: batch.interval_seconds };
            assert(step_spec(true, s1, e1) == Some((s2, pause)));
            let tail2 = run_from(true, world, s2, Event::Paused);
            assert(tail1 == seq![pause] + tail2);
            assert(step_spec(true, s2, Event::Paused) == Some((s3, next)));
            assert(tail2 == seq![next] + tail3);
            lemma_emissions_cons(pause, tail2);
            lemma_emissions_cons(next, tail3);
            lemma_deliveries_cons(pause, tail2);
            lemma_deliveries_cons(next, tail3);
            assert(tail1.last() == tail3.last());
        } else {
            assert(step_spec(true, s1, e1) == Some((s3, next)));
            assert(tail1 == seq![next] + tail3);
            lemma_emissions_cons(next, tail3);
            lemma_deliveries_cons(next, tail3);
            assert(tail1.last() == tail3.last());
        }
        let to = attempts_until(batch, k);
        assert(deliveries(tail1) == seq![next] + deliveries_between(batch, i + 2, to));
        assert(seq![next] + deliveries_between(batch, i + 2, to) == deliveries_between(
            batch,
            i + 1,
            to,
        ));
        if k < n {
            assert(seq![Emission::Progress(report)] + reports_between(world, batch, i + 1, k + 1)
                == reports_between(world, batch, i, k + 1));
        } else {
            assert(seq![Emission::Progress(report)] + reports_from(world, batch, i + 1).push(
                Emission::Complete,
            ) == reports_from(world, batch, i).push(Emission::Complete));
        }
    } else {
        assert((world.sink)(i) is Ok);
        let s2 = DispatchState { batch, cursor: i as nat, phase: Phase::Completing };
        assert(step_spec(true, s1, e1) == Some((s2, Action::EmitComplete)));
        let e2 = Event::Emitted((world.sink)(n as int));
        let tail2 = run_from(true, world, s2, e2);
        assert(tail1 == seq![Action::EmitComplete] + tail2);
        assert(step_spec(true, s2, e2) == Some((done, failure)));
        assert(tail2 == seq![failure]);
        lemma_emissions_cons(Action::EmitComplete, tail2);
        lemma_emissions_one(failure);
        lemma_deliveries_cons(Action::EmitComplete, tail2);
        lemma_deliveries_one(failure);
        assert(seq![Emission::Progress(report)] + (seq![Emission::Complete]
            + Seq::<Emission>::empty()) == reports_from(world, batch, i).push(
            Emission::Complete,
        ));
        assert(deliveries(tail1) == deliveries_between(batch, i + 1, n as int));
    }
}

/// Where the sink refuses an event, the dispatch ends there with the sink's
/// description as a `SinkError`. What came before is as in a run without a
/// refusal: the reports up to and with the refused one were handed over, in
/// order. Nothing comes after: no delivery to a later recipient is
/// attempted, and no further event reaches the sink.
pub proof fn lemma_run_stops_at_refusal(
    world: World,
    batch: Batch,
    k: int,
    description: Seq<char>,
)
    requires
        0 <= k <= batch.recipients.len(),
        sink_refuses_at(world, k, description),
    ensures
        emissions(run(true, world, batch)) == emissions_until(world, batch, 0, k),
        deliveries(run(true, world, batch)) == deliveries_between(
            batch,
            0,
            attempts_until(batch, k),
        ),
        run(true, world, batch).len() > 0,
        run(true, world, batch).last() == Action::Finish(Err(Failure::SinkError(description))),
{
    let n = batch.recipients.len();
    let s = initial(batch);
    let failure = Action::Finish(Err(Failure::SinkError(description)));
    if n == 0 {
        let s1 = DispatchState { phase: Phase::Completing, ..s };
        let s2 = DispatchState { phase: Phase::Done, ..s };
        assert(step_spec(true, s, Event::Start) == Some((s1, Action::EmitComplete)));
        let e1 = Event::Emitted((world.sink)(0));
        let tail1 = run_from(true, world, s1, e1);
        assert(run(true, world, batch) == seq![Action::EmitComplete] + tail1);
        assert(step_spec(true, s1, e1) == Some((s2, failure)));
        assert(tail1 == seq![failure]);
        lemma_emissions_cons(Action::EmitComplete, tail1);
        lemma_emissions_one(failure);
        lemma_deliveries_cons(Action::EmitComplete, tail1);
        lemma_deliveries_one(failure);
        assert(seq![Emission::Complete] + Seq::<Emission>::empty() == reports_from(
            world,
            batch,
            0,
        ).push(Emission::Complete));
        assert(deliveries(run(true, world, batch)) == deliveries_between(batch, 0, 0));
    } else {
        let s1 = DispatchState { batch, cursor: 0, phase: Phase::Delivering };
        let first = delivery_of(batch, 0);
        assert(step_spec(true, s, Event::Start) == Some((s1, first)));
        let tail1 = run_from(true, world, s1, Event::Delivered((world.delivery)(0)));
        assert(run(true, world, batch) == seq![first] + tail1);
        lemma_refused_from_delivery(world, batch, 0, k, description);
        lemma_emissions_cons(first, tail1);
        lemma_deliveries_cons(first, tail1);
        assert(run(true, world, batch).last() == tail1.last());
        assert(seq![first] + deliveries_between(batch, 1, attempts_until(batch, k))
            == deliveries_between(batch, 0, attempts_until(batch, k)));
    }
}

} // verus!
