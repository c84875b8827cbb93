//! Event queues and the dispatch of the events that wait in them.

use crate::connection::{events_view, Connection, Delivery, Proxy};
use crate::interface::InterfaceTable;
use crate::model::{
    lemma_follows_transitive, DeliveryView, EventView, FatalError, ProxyView, State,
};
use crate::wire::{values, ArgValue, Argument};
use vstd::prelude::*;

verus! {

/// The ability to handle the events of protocol objects.
///
/// A handler is called with the connection in its hands, so that it can
/// register and destroy objects, assign them to queues and make requests
/// while it handles an event. It works on the connection through the
/// connection's own operations and leaves it in place. The proxy it is
/// given is lent for the call; a handler that keeps one asks the
/// connection for another.
pub trait Handler: Sized {
    /// What the handler says of one call of `message`: whether the call,
    /// made on the handler `self` with the connection in the state
    /// `conn`, can leave the handler as `after` and the connection as
    /// `conn_after` and return `outcome`. Each handler states this for
    /// itself, as exactly as it cares to; what a dispatch does is stated
    /// in these terms. A handler that states nothing admits every call.
    open spec fn handles(
        &self,
        after: &Self,
        conn: State,
        conn_after: State,
        proxy: ProxyView,
        opcode: u32,
        args: Seq<ArgValue>,
        outcome: Result<(), ()>,
    ) -> bool {
        true
    }

    /// Handles the event `opcode` of the object behind `proxy`, with the
    /// decoded arguments `args`. An error ends the connection.
    fn message(
        &mut self,
        conn: &mut Connection,
        proxy: &Proxy,
        opcode: u32,
        args: &Vec<Argument>,
    ) -> (outcome: Result<(), ()>)
        requires
            old(conn).wf(),
            !old(conn)@.broken,
            old(conn)@.alive(proxy@.serial),
            old(conn)@.holds(proxy@),
        ensures
            final(conn).wf(),
            final(conn).table() == old(conn).table(),
            final(conn)@.follows(old(conn)@),
            old(self).handles(
                final(self),
                old(conn)@,
                final(conn)@,
                proxy@,
                opcode,
                values(args@),
                outcome,
            ),
    ;
}

/// The turn of one event in a dispatch that has handed `n` events to
/// handlers so far: whether it can lead from the handlers `hs` and the
/// state `s` to the handlers `hs2` and the state `s2`, with the result
/// `r`, the new count or the failure that ends the dispatch.
///
/// The event is decided as `delivery` says. Where it goes to a handler
/// that the queue holds, that handler is called with what the delivery
/// names, and `conclude` takes note of what it returns; nothing else
/// changes.
pub open spec fn turn<H: Handler>(
    hs: Seq<H>,
    s: State,
    table: InterfaceTable,
    e: EventView,
    n: nat,
    hs2: Seq<H>,
    s2: State,
    r: Result<nat, FatalError>,
) -> bool {
    match s.delivery(table, e) {
        Err(failure) => hs2 == hs && s2 == s.after_delivery(table, e) && r == Err::<
            nat,
            FatalError,
        >(failure),
        Ok(DeliveryView::Invoke { handler, opcode, proxy, args }) => if handler < hs.len() {
            exists|mid: State, outcome: Result<(), ()>|
                {
                    &&& hs2 == hs.update(handler as int, hs2[handler as int])
                    &&& hs[handler as int].handles(
                        &hs2[handler as int],
                        s,
                        mid,
                        proxy,
                        opcode,
                        args,
                        outcome,
                    )
                    &&& s2 == (#[trigger] mid.after_handler(outcome)).0
                    &&& r == match mid.after_handler(outcome).1 {
                        Ok(_) => Ok::<nat, FatalError>(n + 1),
                        Err(failure) => Err(failure),
                    }
                }
        } else {
            hs2 == hs && s2 == s && r == Ok::<nat, FatalError>(n)
        },
        Ok(_) => hs2 == hs && s2 == s && r == Ok::<nat, FatalError>(n),
    }
}

/// Where a dispatch stands between two turns: the handlers, the state
/// of the connection, and the count of events handed to handlers so far,
/// or the failure that has ended the dispatch.
#[verifier::ext_equal]
pub struct Situation<H> {
    pub handlers: Seq<H>,
    pub state: State,
    pub result: Result<nat, FatalError>,
}

/// Whether the turn of the event at place `k` leads from the situation
/// at place `k` of `trace` to the next. After a failure nothing changes.
pub open spec fn turn_at<H: Handler>(
    table: InterfaceTable,
    events: Seq<EventView>,
    trace: Seq<Situation<H>>,
    k: int,
) -> bool {
    let before = trace[k];
    let after = trace[k + 1];
    match before.result {
        Err(_) => after == before,
        Ok(n) => turn(
            before.handlers,
            before.state,
            table,
            events[k],
            n,
            after.handlers,
            after.state,
            after.result,
        ),
    }
}

/// Whether `trace` is the course of a dispatch of `events`: one
/// situation before each turn and one after the last, each turn leading
/// from one to the next, in the order of `events`.
pub open spec fn course<H: Handler>(
    table: InterfaceTable,
    events: Seq<EventView>,
    trace: Seq<Situation<H>>,
) -> bool {
    &&& trace.len() == events.len() + 1
    &&& forall|k: int| 0 <= k < events.len() ==> #[trigger] turn_at(table, events, trace, k)
}

/// A dispatch of the events `events`: whether it can lead from the
/// handlers `hs` and the state `s` to the handlers `hs2` and the state
/// `s2`, with the result `r`. The events have their turns one after
/// another, in the order of `events`; the first failure ends the
/// dispatch, and the result is else the number of events that were
/// handed to handlers.
pub open spec fn run<H: Handler>(
    hs: Seq<H>,
    s: State,
    table: InterfaceTable,
    events: Seq<EventView>,
    hs2: Seq<H>,
    s2: State,
    r: Result<nat, FatalError>,
) -> bool {
    exists|trace: Seq<Situation<H>>|
        {
            &&& #[trigger] course(table, events, trace)
            &&& trace[0] == (Situation { handlers: hs, state: s, result: Ok(0) })
            &&& trace.last() == (Situation { handlers: hs2, state: s2, result: r })
        }
}

/// What `dispatch` returned, as a mathematical value.
pub open spec fn dispatch_result(r: Result<usize, FatalError>) -> Result<nat, FatalError> {
    match r {
        Ok(n) => Ok(n as nat),
        Err(failure) => Err(failure),
    }
}

/// A handle on one queue of a connection, with the handlers that the
/// events of the queue go to. A handler is referred to by its number,
/// the place it was added at.
pub struct EventQueue<H> {
    queue: usize,
    handlers: Vec<H>,
}

impl<H: Handler> EventQueue<H> {
    /// The number of the queue in its connection.
    pub closed spec fn queue(&self) -> usize {
        self.queue
    }

    /// The handlers, by their number.
    pub closed spec fn handlers(&self) -> Seq<H> {
        self.handlers@
    }

    /// A handle on the main queue, which every connection has.
    pub fn main() -> (q: Self)
        ensures
            q.queue() == 0,
            q.handlers() == Seq::<H>::empty(),
    {
        EventQueue { queue: 0, handlers: Vec::new() }
    }

    /// A handle on a new queue of `conn`.
    pub fn new(conn: &mut Connection) -> (q: Self)
        requires
            old(conn).wf(),
        ensures
            final(conn).wf(),
            final(conn).table() == old(conn).table(),
            final(conn)@.follows(old(conn)@),
            final(conn)@ == old(conn)@.with_queue(),
            q.queue() == old(conn)@.pending.len(),
            q.handlers() == Seq::<H>::empty(),
    {
        let queue = conn.create_queue();
        EventQueue { queue, handlers: Vec::new() }
    }

    /// The number of the queue in its connection.
    pub fn id(&self) -> (queue: usize)
        ensures
            queue == self.queue(),
    {
        self.queue
    }

    /// Adds a handler and returns its number.
    pub fn add_handler(&mut self, handler: H) -> (number: usize)
        ensures
            number == old(self).handlers().len(),
            final(self).handlers() == old(self).handlers().push(handler),
            final(self).queue() == old(self).queue(),
    {
        let number = self.handlers.len();
        self.handlers.push(handler);
        number
    }

    /// The handler of number `number`, if the queue holds it.
    pub fn handler(&self, number: usize) -> (h: Option<&H>)
        ensures
            h is Some <==> number < self.handlers().len(),
            h matches Some(found) ==> *found == self.handlers()[number as int],
    {
        if number < self.handlers.len() {
            Some(&self.handlers[number])
        } else {
            None
        }
    }

    /// Dispatches the events that wait in the queue: takes them all at
    /// once, then gives each its turn, in the order they arrived. An
    /// event that `deliver` sends to a handler of this queue is handed
    /// to that handler, and `conclude` is told what the handler
    /// returned. Returns how many events were handed to handlers.
    ///
    /// On a broken connection nothing is done. A malformed event or a
    /// handler's failure is fatal and ends the dispatch; so does a
    /// handler that leaves the connection broken.
    pub fn dispatch(&mut self, conn: &mut Connection) -> (r: Result<usize, FatalError>)
        requires
            old(conn).wf(),
        ensures
            final(conn).wf(),
            final(conn).table() == old(conn).table(),
            final(conn)@.follows(old(conn)@),
            final(self).queue() == old(self).queue(),
            final(self).handlers().len() == old(self).handlers().len(),
            r is Ok <==> !final(conn)@.broken,
            old(conn)@.broken ==> r == Err::<usize, FatalError>(FatalError::Broken) && final(conn)@
                == old(conn)@ && final(self).handlers() == old(self).handlers(),
            r matches Ok(n) ==> n <= old(conn)@.batch(old(self).queue()).len(),
            !old(conn)@.broken ==> run(
                old(self).handlers(),
                old(conn)@.drained(old(self).queue()),
                old(conn).table(),
                old(conn)@.batch(old(self).queue()),
                final(self).handlers(),
                final(conn)@,
                dispatch_result(r),
            ),
    {
        let batch = match conn.take_pending(self.queue) {
            Ok(batch) => batch,
            Err(e) => {
                return Err(e);
            },
        };
        let ghost table = conn.table();
        let ghost hs = self.handlers@;
        let ghost s = conn@;
        let ghost events = events_view(batch@);
        let ghost mut trace: Seq<Situation<H>> = seq![
            Situation { handlers: hs, state: s, result: Ok(0) },
        ];
        let mut invoked: usize = 0;
        let mut i: usize = 0;
        while i < batch.len()
            invariant
                conn.wf(),
                conn.table() == table,
                table == old(conn).table(),
                s.follows(old(conn)@),
                conn@.follows(s),
                !conn@.broken,
                invoked <= i <= batch@.len(),
                events == events_view(batch@),
                events == old(conn)@.batch(old(self).queue()),
                s == old(conn)@.drained(old(self).queue()),
                hs == old(self).handlers(),
                self.queue() == old(self).queue(),
                self.handlers().len() == hs.len(),
                trace.len() == i + 1,
                trace[0] == (Situation { handlers: hs, state: s, result: Ok(0) }),
                trace[i as int] == (Situation {
                    handlers: self.handlers(),
                    state: conn@,
                    result: Ok(invoked as nat),
                }),
                forall|k: int| 0 <= k < i ==> #[trigger] turn_at(table, events, trace, k),
            decreases batch@.len() - i,
        {
            let ghost hm = self.handlers@;
            let ghost sm = conn@;
            let mut reached: bool = false;
            let mut failed: Option<FatalError> = None;
            match conn.deliver(&batch[i]) {
                Err(failure) => {
                    failed = Some(failure);
                },
                Ok(Delivery::Invoke { handler, opcode, proxy, args }) => {
                    if handler < self.handlers.len() {
                        let outcome = self.handlers[handler].message(conn, &proxy, opcode, &args);
                        let ghost mid = conn@;
                        match conn.conclude(outcome) {
                            Err(failure) => {
                                failed = Some(failure);
                            },
                            Ok(_) => {
                                reached = true;
                            },
                        }
                        proof {
                            lemma_follows_transitive(sm, mid, conn@);
                            assert(self.handlers@ =~= hm.update(
                                handler as int,
                                self.handlers@[handler as int],
                            ));
                            assert(conn@ == mid.after_handler(outcome).0);
                        }
                    }
                },
                Ok(_) => {},
            }
            let ghost turned: Result<nat, FatalError> = match failed {
                Some(failure) => Err(failure),
                None => Ok(
                    if reached {
                        (invoked + 1) as nat
                    } else {
                        invoked as nat
                    },
                ),
            };
            proof {
                lemma_follows_transitive(s, sm, conn@);
                let earlier = trace;
                trace = trace.push(
                    Situation { handlers: self.handlers@, state: conn@, result: turned },
                );
                assert(turn_at(table, events, trace, i as int));
                assert forall|k: int| 0 <= k < i implies #[trigger] turn_at(
                    table,
                    events,
                    trace,
                    k,
                ) by {
                    assert(turn_at(table, events, earlier, k));
                }
            }
            match failed {
                Some(failure) => {
                    proof {
                        let stopped = trace.last();
                        let tail = Seq::new((events.len() - i - 1) as nat, |k: int| stopped);
                        let whole = trace + tail;
                        assert forall|k: int| 0 <= k < events.len() implies #[trigger] turn_at(
                            table,
                            events,
                            whole,
                            k,
                        ) by {
                            if k <= i {
                                assert(turn_at(table, events, trace, k));
                            }
                        }
                        assert(course(table, events, whole));
                        lemma_follows_transitive(old(conn)@, s, conn@);
                    }
                    return Err(failure);
                },
                None => {},
            }
            if reached {
                invoked = invoked + 1;
            }
            i = i + 1;
        }
        proof {
            assert(course(table, events, trace));
            lemma_follows_transitive(old(conn)@, s, conn@);
        }
        Ok(invoked)
    }
}

} // verus!
