//! What the runtime guarantees across calls, proved over the state of a
//! connection. Every operation of the runtime returns a state that
//! `follows` the one it was given, and says in its contract which step of
//! the model it took; these proofs are about any run of such steps.

use crate::dispatch::{course, run, turn_at, Handler, Situation};
use crate::interface::{ArgKind, InterfaceTable};
use crate::journal::{Journal, ReceivedView};
use crate::model::{DeliveryView, EventView, FatalError, ProxyView, State};
use crate::request::RequestResult;
use crate::wire::{decode, lemma_decode_inverts_encode, ArgValue};
use vstd::prelude::*;

verus! {

/// Destruction is final. Once the object behind a proxy was destroyed, no
/// proxy of the same record sees it alive again, whatever the connection
/// has done since; and a request made through any of them is dropped:
/// the result is `Destroyed`, and nothing is written or changed.
pub proof fn lemma_destruction_is_final(
    before: State,
    later: State,
    table: InterfaceTable,
    destroyed: ProxyView,
    other: ProxyView,
    opcode: u32,
    args: Seq<ArgValue>,
)
    requires
        destroyed.serial < before.next_serial,
        other.serial == destroyed.serial,
        later.follows(before.destroyed(destroyed.serial)),
    ensures
        !later.alive(other.serial),
        later.after_request(table, other.serial, opcode, args) == (
            later,
            Ok::<RequestResult<Option<ProxyView>>, FatalError>(RequestResult::Destroyed),
        ),
{
}

/// A message as the wire delivers it.
pub struct Incoming {
    /// The id of the object that the message is for.
    pub id: u32,
    /// The opcode of the event.
    pub opcode: u32,
    /// The encoded arguments.
    pub payload: Seq<u8>,
    /// The file descriptors that came with the message.
    pub fds: Seq<i32>,
}

/// The state after `route` took in the message `m`.
pub open spec fn routed(s: State, table: InterfaceTable, m: Incoming) -> State {
    s.after_route(table, m.id, m.opcode, m.payload, m.fds).0
}

/// The state after `route` took in the messages `msgs`, one after another.
pub open spec fn routed_all(s: State, table: InterfaceTable, msgs: Seq<Incoming>) -> State
    decreases msgs.len(),
{
    if msgs.len() == 0 {
        s
    } else {
        routed_all(routed(s, table, msgs[0]), table, msgs.skip(1))
    }
}

/// Whether `m` is an event of an object that is assigned to `queue`.
pub open spec fn bound_for(s: State, table: InterfaceTable, m: Incoming, queue: usize) -> bool {
    &&& s.id_in_use(m.id)
    &&& s.objects[s.serial_of(m.id)].queue == queue
    &&& table.event(s.objects[s.serial_of(m.id)].interface, m.opcode) is Some
}

/// The event that `m` waits as.
pub open spec fn as_event(s: State, m: Incoming) -> EventView {
    EventView { target: s.serial_of(m.id), opcode: m.opcode, payload: m.payload, fds: m.fds }
}

/// Events keep the order of their arrival. When the wire delivers the
/// messages `msgs`, all for objects assigned to the queue `queue`, they
/// wait in that queue behind what waited there, in the order they came,
/// each with its own target, opcode and arguments. A dispatch takes them
/// in that order, and what is done with each is what `delivery` says of
/// it; no other queue and no object has changed.
pub proof fn lemma_arrival_order(s: State, table: InterfaceTable, msgs: Seq<Incoming>, queue: usize)
    requires
        s.wf(table),
        !s.broken,
        forall|i: int| 0 <= i < msgs.len() ==> bound_for(s, table, #[trigger] msgs[i], queue),
    ensures
        routed_all(s, table, msgs).batch(queue) == s.batch(queue) + msgs.map_values(
            |m: Incoming| as_event(s, m),
        ),
        routed_all(s, table, msgs).objects == s.objects,
        routed_all(s, table, msgs).outbox == s.outbox,
        routed_all(s, table, msgs).next_serial == s.next_serial,
        !routed_all(s, table, msgs).broken,
        routed_all(s, table, msgs).pending.len() == s.pending.len(),
        forall|other: usize|
            other != queue ==> #[trigger] routed_all(s, table, msgs).batch(other) == s.batch(other),
        forall|e: EventView| #[trigger]
            routed_all(s, table, msgs).delivery(table, e) == s.delivery(table, e),
    decreases msgs.len(),
{
    if msgs.len() > 0 {
        let next = routed(s, table, msgs[0]);
        lemma_arrival_order(next, table, msgs.skip(1), queue);
    }
}

/// An event goes to its handler as it is. When the turn of an event
/// comes whose target lives and has a handler, and whose payload holds
/// arguments for its signature, the handler is called with a proxy of
/// that target, with that opcode and with those arguments.
pub proof fn lemma_delivery_names_the_event(
    s: State,
    table: InterfaceTable,
    e: EventView,
    handler: usize,
    args: Seq<ArgValue>,
)
    requires
        !s.broken,
        s.alive(e.target),
        s.objects[e.target].handler == Some(handler),
        table.event(s.objects[e.target].interface, e.opcode) matches Some(sig) && decode(
            sig.args@,
            e.payload,
            e.fds,
        ) == Some(args),
    ensures
        s.delivery(table, e) == Ok::<DeliveryView, FatalError>(
            DeliveryView::Invoke {
                handler,
                opcode: e.opcode,
                proxy: ProxyView {
                    serial: e.target,
                    id: s.objects[e.target].id,
                    interface: s.objects[e.target].interface,
                    version: s.objects[e.target].version,
                },
                args,
            },
        ),
        s.after_delivery(table, e) == s,
{
}

/// Every object is assigned to exactly one queue, and a new assignment
/// moves the object without moving any event that waits.
pub proof fn lemma_one_queue_each(s: State, serial: u64, one: usize, other: usize, target: usize)
    requires
        s.objects.contains_key(serial),
    ensures
        s.members(s.objects[serial].queue).contains(serial),
        s.members(one).contains(serial) && s.members(other).contains(serial) ==> one == other,
        s.alive(serial) && target < s.pending.len() ==> s.assigned(serial, target).members(
            target,
        ).contains(serial),
        s.assigned(serial, target).pending == s.pending,
{
}

/// Whether the event `e` reaches no handler of a queue that has
/// `handlers` of them: its target is gone, dead or without a handler, or
/// has a handler that the queue does not hold.
pub open spec fn passes_quietly(s: State, table: InterfaceTable, handlers: nat, e: EventView) -> bool {
    match s.delivery(table, e) {
        Ok(DeliveryView::Discarded) => true,
        Ok(DeliveryView::Unhandled) => true,
        Ok(DeliveryView::Invoke { handler, .. }) => handler >= handlers,
        Err(_) => false,
    }
}

/// Whether the event at place `k` of `events` is the first that does not
/// pass quietly, and is one that cannot be delivered.
pub open spec fn fails_first(
    s: State,
    table: InterfaceTable,
    handlers: nat,
    events: Seq<EventView>,
    k: int,
) -> bool {
    &&& 0 <= k < events.len()
    &&& forall|j: int| 0 <= j < k ==> passes_quietly(s, table, handlers, #[trigger] events[j])
    &&& s.delivery(table, events[k]) is Err
}

/// In the course of a dispatch, nothing has changed before the turn of
/// the first event that does not pass quietly.
pub proof fn lemma_quiet_turns_change_nothing<H: Handler>(
    table: InterfaceTable,
    events: Seq<EventView>,
    trace: Seq<Situation<H>>,
    k: int,
)
    requires
        course(table, events, trace),
        trace[0].result == Ok::<nat, FatalError>(0),
        0 <= k <= events.len(),
        forall|j: int|
            0 <= j < k ==> passes_quietly(
                trace[0].state,
                table,
                trace[0].handlers.len(),
                #[trigger] events[j],
            ),
    ensures
        trace[k] == trace[0],
    decreases k,
{
    if k > 0 {
        lemma_quiet_turns_change_nothing(table, events, trace, k - 1);
        assert(turn_at(table, events, trace, k - 1));
    }
}

/// In the course of a dispatch, nothing changes behind a failure.
pub proof fn lemma_failure_ends_the_course<H: Handler>(
    table: InterfaceTable,
    events: Seq<EventView>,
    trace: Seq<Situation<H>>,
    k: int,
    at: int,
)
    requires
        course(table, events, trace),
        0 <= k <= at <= events.len(),
        trace[k].result is Err,
    ensures
        trace[at] == trace[k],
    decreases at - k,
{
    if k < at {
        lemma_failure_ends_the_course(table, events, trace, k, at - 1);
        assert(turn_at(table, events, trace, at - 1));
    }
}

/// A dispatch of events that reach no handler changes nothing but the
/// queue, which it leaves empty: no handler is called, and the result is
/// a count of zero.
pub proof fn lemma_quiet_dispatch<H: Handler>(
    hs: Seq<H>,
    s: State,
    table: InterfaceTable,
    events: Seq<EventView>,
    hs2: Seq<H>,
    s2: State,
    r: Result<nat, FatalError>,
)
    requires
        run(hs, s, table, events, hs2, s2, r),
        forall|j: int|
            0 <= j < events.len() ==> passes_quietly(s, table, hs.len(), #[trigger] events[j]),
    ensures
        hs2 == hs,
        s2 == s,
        r == Ok::<nat, FatalError>(0),
{
    let trace = choose|trace: Seq<Situation<H>>|
        {
            &&& #[trigger] course(table, events, trace)
            &&& trace[0] == (Situation { handlers: hs, state: s, result: Ok(0) })
            &&& trace.last() == (Situation { handlers: hs2, state: s2, result: r })
        };
    lemma_quiet_turns_change_nothing(table, events, trace, events.len() as int);
}

/// A dispatch ends at the first event that cannot be delivered, where no
/// event before it reaches a handler: no handler is called, the result
/// is the failure that `delivery` names, and the connection is left as
/// that delivery leaves it.
pub proof fn lemma_dispatch_fails_first<H: Handler>(
    hs: Seq<H>,
    s: State,
    table: InterfaceTable,
    events: Seq<EventView>,
    hs2: Seq<H>,
    s2: State,
    r: Result<nat, FatalError>,
    k: int,
)
    requires
        run(hs, s, table, events, hs2, s2, r),
        fails_first(s, table, hs.len(), events, k),
    ensures
        hs2 == hs,
        s2 == s.after_delivery(table, events[k]),
        s.delivery(table, events[k]) matches Err(failure) && r == Err::<nat, FatalError>(failure),
{
    let trace = choose|trace: Seq<Situation<H>>|
        {
            &&& #[trigger] course(table, events, trace)
            &&& trace[0] == (Situation { handlers: hs, state: s, result: Ok(0) })
            &&& trace.last() == (Situation { handlers: hs2, state: s2, result: r })
        };
    lemma_quiet_turns_change_nothing(table, events, trace, k);
    assert(turn_at(table, events, trace, k));
    lemma_failure_ends_the_course(table, events, trace, k + 1, events.len() as int);
}

/// Whether the event `e`, when its turn comes, goes to the handler of
/// number `handler`.
pub open spec fn reaches(s: State, table: InterfaceTable, e: EventView, handler: usize) -> bool {
    s.delivery(table, e) matches Ok(DeliveryView::Invoke { handler: h, .. }) && h == handler
}

/// What a handler is handed for the event `e`.
pub open spec fn received_of(s: State, table: InterfaceTable, e: EventView) -> ReceivedView {
    match s.delivery(table, e) {
        Ok(DeliveryView::Invoke { opcode, proxy, args, .. }) => ReceivedView { proxy, opcode, args },
        _ => arbitrary(),
    }
}

/// What a journal holds at each point in the course of a dispatch of
/// events that all go to it.
pub proof fn lemma_journal_in_course(
    journal: Journal,
    s: State,
    table: InterfaceTable,
    events: Seq<EventView>,
    trace: Seq<Situation<Journal>>,
    k: int,
)
    requires
        !s.broken,
        course(table, events, trace),
        trace[0] == (Situation { handlers: seq![journal], state: s, result: Ok(0) }),
        forall|j: int| 0 <= j < events.len() ==> reaches(s, table, #[trigger] events[j], 0),
        0 <= k <= events.len(),
    ensures
        trace[k].state == s,
        trace[k].result == Ok::<nat, FatalError>(k as nat),
        trace[k].handlers.len() == 1,
        trace[k].handlers[0]@ == journal@ + events.take(k).map_values(
            |e: EventView| received_of(s, table, e),
        ),
    decreases k,
{
    if k > 0 {
        lemma_journal_in_course(journal, s, table, events, trace, k - 1);
        assert(turn_at(table, events, trace, k - 1));
        let sooner = events.take(k - 1).map_values(|e: EventView| received_of(s, table, e));
        let later = events.take(k).map_values(|e: EventView| received_of(s, table, e));
        assert(later =~= sooner.push(received_of(s, table, events[k - 1])));
    }
}

/// Handlers are called in the order of arrival. A dispatch of events
/// that all go to one journal hands it every event, each with its own
/// target, opcode and arguments, in the order in which the events wait;
/// the journal then holds them in that order behind what it held, the
/// connection is as the dispatch found it, and the result counts them
/// all.
pub proof fn lemma_journal_receives_in_order(
    journal: Journal,
    s: State,
    table: InterfaceTable,
    events: Seq<EventView>,
    hs2: Seq<Journal>,
    s2: State,
    r: Result<nat, FatalError>,
)
    requires
        !s.broken,
        run(seq![journal], s, table, events, hs2, s2, r),
        forall|j: int| 0 <= j < events.len() ==> reaches(s, table, #[trigger] events[j], 0),
    ensures
        r == Ok::<nat, FatalError>(events.len()),
        s2 == s,
        hs2.len() == 1,
        hs2[0]@ == journal@ + events.map_values(|e: EventView| received_of(s, table, e)),
{
    let trace = choose|trace: Seq<Situation<Journal>>|
        {
            &&& #[trigger] course(table, events, trace)
            &&& trace[0] == (Situation { handlers: seq![journal], state: s, result: Ok(0) })
            &&& trace.last() == (Situation { handlers: hs2, state: s2, result: r })
        };
    lemma_journal_in_course(journal, s, table, events, trace, events.len() as int);
}

/// Queues do not disturb one another. Taking the events of one queue
/// leaves those of every other queue where they are, and two queues can
/// be emptied in either order to the same effect; what is done with an
/// event depends on no queue's content.
pub proof fn lemma_queues_are_independent(
    s: State,
    table: InterfaceTable,
    one: usize,
    other: usize,
    e: EventView,
)
    requires
        one != other,
    ensures
        s.drained(one).batch(other) == s.batch(other),
        s.drained(other).batch(one) == s.batch(one),
        s.drained(one).drained(other) == s.drained(other).drained(one),
        s.drained(one).delivery(table, e) == s.delivery(table, e),
        s.drained(one).objects == s.objects,
{
}

/// A request reads back as it was made. The request that `send_request`
/// queues for a living object carries that object's id and the opcode,
/// and a receiver that decodes its payload and file descriptors by the
/// signature of the request gets the arguments it was made with, behind
/// the id of the object that the request creates, if it creates one.
pub proof fn lemma_request_reads_back(
    s: State,
    table: InterfaceTable,
    serial: u64,
    opcode: u32,
    args: Seq<ArgValue>,
)
    requires
        s.after_request(table, serial, opcode, args).1 matches Ok(RequestResult::Sent(_)),
    ensures
        ({
            let after = s.after_request(table, serial, opcode, args).0;
            let target = s.objects[serial];
            let sig = table.request(target.interface, opcode)->0;
            let request = after.outbox.last();
            &&& after.outbox.len() == s.outbox.len() + 1
            &&& after.outbox.drop_last() == s.outbox
            &&& request.object == target.id
            &&& request.opcode == opcode
            &&& match s.after_request(table, serial, opcode, args).1 {
                Ok(RequestResult::Sent(Some(created))) => decode(
                    seq![ArgKind::Object] + sig.args@,
                    request.payload,
                    request.fds,
                ) == Some(seq![ArgValue::Object(created.id)] + args),
                _ => decode(sig.args@, request.payload, request.fds) == Some(args),
            }
        }),
{
    let sig = table.request(s.objects[serial].interface, opcode)->0;
    match sig.creates {
        None => {
            lemma_decode_inverts_encode(sig.args@, args);
        },
        Some(_) => {
            let all = seq![ArgValue::Object(s.fresh_id())] + args;
            assert(all.skip(1) =~= args);
            lemma_decode_inverts_encode(seq![ArgKind::Object] + sig.args@, all);
        },
    }
}

} // verus!
