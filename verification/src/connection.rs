//! The connection runtime: the table of protocol objects, the event
//! queues, and the requests waiting to be written.
//!
//! A fatal error breaks the connection for good. A broken connection
//! refuses whatever depends on the wire or on the ids that client and
//! server share: it takes no message in, hands no event or request out,
//! makes no proxy of a wire reference and encodes no request. What a
//! client does with the proxies it holds (giving them up, destroying
//! their objects, assigning queues and handlers) goes on as before, so
//! that a client can wind down.

use crate::interface::{InterfaceDescriptor, InterfaceTable};
use crate::model::{
    DeliveryView, EventView, FatalError, OutgoingView, ProxyView, Record, State, SERVER_ID_START,
};
use crate::request::RequestResult;
use crate::wire::{decode_args, encode_args, push_word, values, Argument};
use std::collections::HashMap;
use vstd::prelude::*;

verus! {

/// A handle to one protocol object. Several proxies may hold the same
/// record; the record lasts as long as the object lives or a proxy holds it.
#[derive(Debug, PartialEq, Eq)]
pub struct Proxy {
    serial: u64,
    id: u32,
    interface: usize,
    version: u32,
}

impl View for Proxy {
    type V = ProxyView;

    closed spec fn view(&self) -> ProxyView {
        ProxyView {
            serial: self.serial,
            id: self.id,
            interface: self.interface,
            version: self.version,
        }
    }
}

/// An event that waits in a queue, bound to the record of its target.
#[derive(Debug, PartialEq, Eq)]
pub struct Event {
    /// The key of the target's record.
    pub target: u64,
    /// The opcode of the event in the target's interface.
    pub opcode: u32,
    /// The encoded arguments.
    pub payload: Vec<u8>,
    /// The file descriptors that came with the message.
    pub fds: Vec<i32>,
}

impl View for Event {
    type V = EventView;

    open spec fn view(&self) -> EventView {
        EventView {
            target: self.target,
            opcode: self.opcode,
            payload: self.payload@,
            fds: self.fds@,
        }
    }
}

/// A request that waits to be written to the wire.
#[derive(Debug, PartialEq, Eq)]
pub struct Outgoing {
    /// The id of the object that the request is made on.
    pub object: u32,
    /// The opcode of the request in the object's interface.
    pub opcode: u32,
    /// The encoded arguments, after the id of the object that the
    /// request creates, if it creates one.
    pub payload: Vec<u8>,
    /// The file descriptors to pass beside the payload.
    pub fds: Vec<i32>,
}

impl View for Outgoing {
    type V = OutgoingView;

    open spec fn view(&self) -> OutgoingView {
        OutgoingView {
            object: self.object,
            opcode: self.opcode,
            payload: self.payload@,
            fds: self.fds@,
        }
    }
}

/// The events of a queue as mathematical values.
pub open spec fn events_view(events: Seq<Event>) -> Seq<EventView> {
    events.map_values(|e: Event| e@)
}

/// The requests of an outbox as mathematical values.
pub open spec fn outgoing_view(requests: Seq<Outgoing>) -> Seq<OutgoingView> {
    requests.map_values(|m: Outgoing| m@)
}

/// What a call that makes a proxy returned, as a mathematical value.
pub open spec fn proxy_result(r: Result<Proxy, FatalError>) -> Result<ProxyView, FatalError> {
    match r {
        Ok(p) => Ok(p@),
        Err(e) => Err(e),
    }
}

/// What is to be done with an event when its turn comes.
#[derive(Debug)]
pub enum Delivery {
    /// The target is gone or dead: the event is discarded.
    Discarded,
    /// The target lives but has no handler: the event is dropped.
    Unhandled,
    /// The event goes to a handler.
    Invoke {
        /// The number of the handler.
        handler: usize,
        /// The opcode of the event.
        opcode: u32,
        /// A proxy of the target, not counted among those that hold its
        /// record.
        proxy: Proxy,
        /// The decoded arguments.
        args: Vec<Argument>,
    },
}

impl View for Delivery {
    type V = DeliveryView;

    open spec fn view(&self) -> DeliveryView {
        match *self {
            Delivery::Discarded => DeliveryView::Discarded,
            Delivery::Unhandled => DeliveryView::Unhandled,
            Delivery::Invoke { handler, opcode, proxy, args } => DeliveryView::Invoke {
                handler,
                opcode,
                proxy: proxy@,
                args: values(args@),
            },
        }
    }
}

/// What `deliver` returned, as a mathematical value.
pub open spec fn delivery_result(r: Result<Delivery, FatalError>) -> Result<
    DeliveryView,
    FatalError,
> {
    match r {
        Ok(d) => Ok(d@),
        Err(e) => Err(e),
    }
}

/// What `send_request` returned, as a mathematical value.
pub open spec fn request_result(r: Result<RequestResult<Option<Proxy>>, FatalError>) -> Result<
    RequestResult<Option<ProxyView>>,
    FatalError,
> {
    match r {
        Ok(RequestResult::Sent(Some(p))) => Ok(RequestResult::Sent(Some(p@))),
        Ok(RequestResult::Sent(None)) => Ok(RequestResult::Sent(None)),
        Ok(RequestResult::Destroyed) => Ok(RequestResult::Destroyed),
        Err(e) => Err(e),
    }
}

/// The connection runtime.
pub struct Connection {
    table: InterfaceTable,
    objects: HashMap<u64, Record>,
    by_id: HashMap<u32, u64>,
    queues: Vec<Vec<Event>>,
    outbox: Vec<Outgoing>,
    broken: bool,
    next_serial: u64,
    id_limit: u32,
}

impl View for Connection {
    type V = State;

    closed spec fn view(&self) -> State {
        State {
            objects: self.objects@,
            pending: Seq::new(self.queues@.len(), |q: int| events_view(self.queues@[q]@)),
            outbox: outgoing_view(self.outbox@),
            broken: self.broken,
            next_serial: self.next_serial,
            id_limit: self.id_limit,
        }
    }
}

impl Connection {
    /// The interfaces that the connection knows.
    pub closed spec fn table(&self) -> InterfaceTable {
        self.table
    }

    /// Whether the index of object ids agrees with the records.
    spec fn indexed(&self) -> bool {
        &&& forall|id: u32| #[trigger]
            self.by_id@.contains_key(id) ==> self.objects@.contains_key(self.by_id@[id])
                && self.objects@[self.by_id@[id]].id == id
        &&& forall|s: u64| #[trigger]
            self.objects@.contains_key(s) ==> self.by_id@.contains_key(self.objects@[s].id)
                && self.by_id@[self.objects@[s].id] == s
    }

    /// Whether the connection is well formed. Every connection that `new`
    /// made is, and every function here keeps it so.
    pub closed spec fn wf(&self) -> bool {
        &&& self@.wf(self.table)
        &&& self.indexed()
    }

    /// What `wf` says of the state.
    pub proof fn lemma_wf_state(&self)
        requires
            self.wf(),
        ensures
            self@.wf(self.table()),
    {
    }

    /// A connection over the interfaces of `table`, with no object, one
    /// empty queue (the main queue, number 0) and nothing to write. The
    /// objects it creates get ids below the server's.
    pub fn new(table: InterfaceTable) -> (conn: Connection)
        ensures
            conn.wf(),
            conn.table() == table,
            conn@ == State::initial(SERVER_ID_START),
    {
        Connection::with_id_limit(table, SERVER_ID_START)
    }

    /// A connection like that of `new`, whose created objects get ids
    /// below `id_limit`.
    pub fn with_id_limit(table: InterfaceTable, id_limit: u32) -> (conn: Connection)
        ensures
            conn.wf(),
            conn.table() == table,
            conn@ == State::initial(id_limit),
    {
        proof {
            use_type_invariant(&table);
        }
        let mut queues: Vec<Vec<Event>> = Vec::new();
        queues.push(Vec::new());
        let conn = Connection {
            table,
            objects: HashMap::new(),
            by_id: HashMap::new(),
            queues,
            outbox: Vec::new(),
            broken: false,
            next_serial: 0,
            id_limit,
        };
        assert(conn@.pending =~~= seq![Seq::empty()]);
        conn
    }

    /// The interfaces that the connection knows.
    pub fn interfaces(&self) -> (table: &InterfaceTable)
        ensures
            *table == self.table(),
    {
        &self.table
    }

    /// Whether a fatal error has ended the connection.
    pub fn is_broken(&self) -> (b: bool)
        ensures
            b == self@.broken,
    {
        self.broken
    }

    /// The number of queues.
    pub fn queue_count(&self) -> (n: usize)
        ensures
            n == self@.pending.len(),
    {
        self.queues.len()
    }

    /// The key of the record that has the object id `id`, if one has.
    fn lookup(&self, id: u32) -> (found: Option<u64>)
        requires
            self.wf(),
        ensures
            match found {
                Some(s) => self@.id_in_use(id) && s == self@.serial_of(id)
                    && self@.objects.contains_key(s) && self@.objects[s].id == id,
                None => !self@.id_in_use(id),
            },
    {
        match self.by_id.get(&id) {
            Some(s) => {
                Some(*s)
            },
            None => None,
        }
    }

    /// Puts `record` in the place of the record of key `serial`, which
    /// has the same object id.
    fn store(&mut self, serial: u64, record: Record)
        requires
            old(self).wf(),
            old(self)@.objects.contains_key(serial),
            old(self)@.objects[serial].id == record.id,
            record.interface < old(self).table()@.len(),
            1 <= record.version <= old(self).table()@[record.interface as int].max_version,
            record.queue < old(self)@.pending.len(),
            record.alive || record.handles > 0,
        ensures
            final(self).wf(),
            final(self).table() == old(self).table(),
            final(self)@ == old(self)@.with_record(serial, record),
    {
        self.objects.insert(serial, record);
    }

    /// Takes the record of key `serial` out of the table.
    fn discard(&mut self, serial: u64)
        requires
            old(self).wf(),
            old(self)@.objects.contains_key(serial),
        ensures
            final(self).wf(),
            final(self).table() == old(self).table(),
            final(self)@ == old(self)@.without_record(serial),
    {
        match self.objects.remove(&serial) {
            Some(r) => {
                self.by_id.remove(&r.id);
            },
            None => {},
        }
    }

    /// Registers the object `id` under the next key, and returns the key.
    fn enter(&mut self, id: u32, interface: usize, version: u32) -> (serial: u64)
        requires
            old(self).wf(),
            old(self)@.admits(old(self).table(), id, interface, version),
            old(self)@.next_serial < u64::MAX,
        ensures
            final(self).wf(),
            final(self).table() == old(self).table(),
            serial == old(self)@.next_serial,
            final(self)@ == old(self)@.registered(id, interface, version),
    {
        let serial = self.next_serial;
        let record = Record {
            id,
            interface,
            version,
            alive: true,
            queue: 0,
            handler: None,
            handles: 1,
        };
        self.objects.insert(serial, record);
        self.by_id.insert(id, serial);
        self.next_serial = serial + 1;
        serial
    }

    /// Marks the connection broken.
    fn fail(&mut self)
        requires
            old(self).wf(),
        ensures
            final(self).wf(),
            final(self).table() == old(self).table(),
            final(self)@ == old(self)@.failed(),
    {
        self.broken = true;
    }

    /// Adds a queue and returns its number.
    pub fn create_queue(&mut self) -> (queue: usize)
        requires
            old(self).wf(),
        ensures
            final(self).wf(),
            final(self).table() == old(self).table(),
            final(self)@.follows(old(self)@),
            queue == old(self)@.pending.len(),
            final(self)@ == old(self)@.with_queue(),
    {
        let queue = self.queues.len();
        self.queues.push(Vec::new());
        assert(self@.pending =~~= old(self)@.pending.push(Seq::empty()));
        queue
    }

    /// The record of key `serial`.
    fn record(&self, serial: u64) -> (r: Record)
        requires
            self@.objects.contains_key(serial),
        ensures
            r == self@.objects[serial],
    {
        match self.objects.get(&serial) {
            Some(r) => *r,
            None => vstd::pervasive::unreached(),
        }
    }

    /// Counts one more proxy on the record of key `serial`, if it is there.
    fn hold(&mut self, serial: u64)
        requires
            old(self).wf(),
        ensures
            final(self).wf(),
            final(self).table() == old(self).table(),
            final(self)@ == old(self)@.held_again(serial),
    {
        if self.objects.contains_key(&serial) {
            let r = self.record(serial);
            let handles = if r.handles < u64::MAX {
                r.handles + 1
            } else {
                r.handles
            };
            self.store(serial, Record { handles, ..r });
        }
    }

    /// Another proxy of the object behind `proxy`.
    pub fn clone_proxy(&mut self, proxy: &Proxy) -> (twin: Proxy)
        requires
            old(self).wf(),
        ensures
            final(self).wf(),
            final(self).table() == old(self).table(),
            final(self)@.follows(old(self)@),
            twin@ == proxy@,
            final(self)@ == old(self)@.held_again(proxy@.serial),
    {
        self.hold(proxy.serial);
        Proxy {
            serial: proxy.serial,
            id: proxy.id,
            interface: proxy.interface,
            version: proxy.version,
        }
    }

    /// Gives `proxy` up. The record of a dead object leaves the table
    /// with its last proxy, and its id is free again.
    pub fn release(&mut self, proxy: Proxy)
        requires
            old(self).wf(),
        ensures
            final(self).wf(),
            final(self).table() == old(self).table(),
            final(self)@.follows(old(self)@),
            final(self)@ == old(self)@.released(proxy@.serial),
    {
        let serial = proxy.serial;
        if self.objects.contains_key(&serial) {
            let r = self.record(serial);
            let left = if r.handles > 0 {
                r.handles - 1
            } else {
                0
            };
            if !r.alive && left == 0 {
                self.discard(serial);
            } else {
                self.store(serial, Record { handles: left, ..r });
            }
        }
    }

    /// Destroys the object behind `proxy`: its record is marked dead, and
    /// every proxy of it sees that. Returns whether the object was alive.
    pub fn destroy(&mut self, proxy: &Proxy) -> (was_alive: bool)
        requires
            old(self).wf(),
        ensures
            final(self).wf(),
            final(self).table() == old(self).table(),
            final(self)@.follows(old(self)@),
            was_alive == old(self)@.alive(proxy@.serial),
            final(self)@ == old(self)@.destroyed(proxy@.serial),
            !final(self)@.alive(proxy@.serial),
    {
        let serial = proxy.serial;
        if !self.lives(proxy.serial) {
            return false;
        }
        let r = self.record(serial);
        if r.handles == 0 {
            self.discard(serial);
        } else {
            self.store(serial, Record { alive: false, ..r });
        }
        true
    }

    /// Assigns the object behind `proxy` to the queue `queue`, for the
    /// events that arrive from now on. Returns whether it did: not for a
    /// dead object, nor for a queue that is not there.
    pub fn assign_queue(&mut self, proxy: &Proxy, queue: usize) -> (done: bool)
        requires
            old(self).wf(),
        ensures
            final(self).wf(),
            final(self).table() == old(self).table(),
            final(self)@.follows(old(self)@),
            done == (old(self)@.alive(proxy@.serial) && queue < old(self)@.pending.len()),
            final(self)@ == old(self)@.assigned(proxy@.serial, queue),
    {
        if self.lives(proxy.serial) && queue < self.queues.len() {
            let r = self.record(proxy.serial);
            self.store(proxy.serial, Record { queue, ..r });
            true
        } else {
            false
        }
    }

    /// Associates the handler number `handler` with the object behind
    /// `proxy`, in place of any handler it had. Returns whether it did:
    /// not for a dead object.
    pub fn register(&mut self, proxy: &Proxy, handler: usize) -> (done: bool)
        requires
            old(self).wf(),
        ensures
            final(self).wf(),
            final(self).table() == old(self).table(),
            final(self)@.follows(old(self)@),
            done == old(self)@.alive(proxy@.serial),
            final(self)@ == old(self)@.handled_by(proxy@.serial, handler),
    {
        if self.lives(proxy.serial) {
            let r = self.record(proxy.serial);
            self.store(proxy.serial, Record { handler: Some(handler), ..r });
            true
        } else {
            false
        }
    }

    /// Takes in a message that the wire delivered for the object `id`:
    /// it joins, behind all that wait there, the queue that the object is
    /// assigned to.
    ///
    /// A message for an id that no record has, or with an opcode that the
    /// object's interface has no event for, is fatal.
    pub fn route(&mut self, id: u32, opcode: u32, payload: Vec<u8>, fds: Vec<i32>) -> (r: Result<
        (),
        FatalError,
    >)
        requires
            old(self).wf(),
        ensures
            final(self).wf(),
            final(self).table() == old(self).table(),
            final(self)@.follows(old(self)@),
            (final(self)@, r) == old(self)@.after_route(
                old(self).table(),
                id,
                opcode,
                payload@,
                fds@,
            ),
    {
        if self.broken {
            return Err(FatalError::Broken);
        }
        match self.lookup(id) {
            None => {
                self.fail();
                Err(FatalError::UnknownObject)
            },
            Some(serial) => {
                let r = self.record(serial);
                if self.table.event_signature(r.interface, opcode).is_none() {
                    self.fail();
                    return Err(FatalError::Malformed);
                }
                let event = Event { target: serial, opcode, payload, fds };
                self.queues[r.queue].push(event);
                assert(self@.pending =~~= old(self)@.pending.update(
                    r.queue as int,
                    old(self)@.pending[r.queue as int].push(event@),
                ));
                Ok(())
            },
        }
    }

    /// Takes the events that wait in queue `queue`, in the order they
    /// arrived, and leaves the queue empty for those that arrive later.
    pub fn take_pending(&mut self, queue: usize) -> (r: Result<Vec<Event>, FatalError>)
        requires
            old(self).wf(),
        ensures
            final(self).wf(),
            final(self).table() == old(self).table(),
            final(self)@.follows(old(self)@),
            match r {
                Ok(batch) => !old(self)@.broken && events_view(batch@) == old(self)@.batch(queue)
                    && final(self)@ == old(self)@.drained(queue),
                Err(e) => old(self)@.broken && e == FatalError::Broken && final(self)@ == old(
                    self,
                )@,
            },
    {
        if self.broken {
            return Err(FatalError::Broken);
        }
        let mut batch: Vec<Event> = Vec::new();
        if queue < self.queues.len() {
            std::mem::swap(&mut batch, &mut self.queues[queue]);
            assert(self@.pending =~~= old(self)@.pending.update(queue as int, Seq::empty()));
        }
        Ok(batch)
    }

    /// Decides what is to be done with `event`, whose turn has come: an
    /// event for an object that is gone or dead is discarded; the
    /// arguments of any other are decoded, and it goes to the handler of
    /// its target, if that has one.
    ///
    /// Arguments that do not fit the event's signature are fatal.
    pub fn deliver(&mut self, event: &Event) -> (r: Result<Delivery, FatalError>)
        requires
            old(self).wf(),
        ensures
            final(self).wf(),
            final(self).table() == old(self).table(),
            final(self)@.follows(old(self)@),
            delivery_result(r) == old(self)@.delivery(old(self).table(), event@),
            final(self)@ == old(self)@.after_delivery(old(self).table(), event@),
    {
        if self.broken {
            return Err(FatalError::Broken);
        }
        let serial = event.target;
        let r = match self.objects.get(&serial) {
            Some(r) => *r,
            None => {
                return Ok(Delivery::Discarded);
            },
        };
        if !r.alive {
            return Ok(Delivery::Discarded);
        }
        let decoded = match self.table.event_signature(r.interface, event.opcode) {
            Some(sig) => decode_args(&sig.args, &event.payload, &event.fds),
            None => None,
        };
        match decoded {
            None => {
                self.fail();
                Err(FatalError::Malformed)
            },
            Some(args) => match r.handler {
                None => Ok(Delivery::Unhandled),
                Some(handler) => Ok(
                    Delivery::Invoke {
                        handler,
                        opcode: event.opcode,
                        proxy: Proxy {
                            serial,
                            id: r.id,
                            interface: r.interface,
                            version: r.version,
                        },
                        args,
                    },
                ),
            },
        }
    }

    /// Takes note of what a handler returned: a failure is fatal.
    pub fn conclude(&mut self, outcome: Result<(), ()>) -> (r: Result<(), FatalError>)
        requires
            old(self).wf(),
        ensures
            final(self).wf(),
            final(self).table() == old(self).table(),
            final(self)@.follows(old(self)@),
            (final(self)@, r) == old(self)@.after_handler(outcome),
    {
        match outcome {
            Err(_) => {
                self.fail();
                Err(FatalError::HandlerFailed)
            },
            Ok(_) => {
                if self.broken {
                    Err(FatalError::Broken)
                } else {
                    Ok(())
                }
            },
        }
    }

    /// The id that the next created object gets, if one is left.
    fn allocate_id(&self) -> (found: Option<u32>)
        requires
            self.wf(),
        ensures
            match found {
                Some(id) => self@.is_fresh_id(id) && id == self@.fresh_id(),
                None => self@.ids_exhausted(),
            },
    {
        let mut candidate: u32 = 1;
        while candidate < self.id_limit
            invariant
                self.wf(),
                1 <= candidate,
                forall|j: u32| 1 <= j < candidate ==> #[trigger] self@.id_in_use(j),
            decreases self@.id_limit - candidate,
        {
            if self.lookup(candidate).is_none() {
                return Some(candidate);
            }
            candidate = candidate + 1;
        }
        None
    }

    /// Makes the request `opcode` on the object behind `proxy`, with the
    /// arguments `args`.
    ///
    /// On a dead object nothing is done and nothing is written: the
    /// result is `Destroyed`. Otherwise the request is encoded by its
    /// signature and joins the requests that wait to be written. Where
    /// the signature says that the request creates an object, that
    /// object gets the next free id, which leads the payload, and is
    /// registered before the call returns its first proxy.
    ///
    /// An opcode that the interface has no request for, or arguments
    /// that do not conform to the signature, are fatal; so is a request
    /// that creates an object when no id is left.
    pub fn send_request(&mut self, proxy: &Proxy, opcode: u32, args: &Vec<Argument>) -> (r: Result<
        RequestResult<Option<Proxy>>,
        FatalError,
    >)
        requires
            old(self).wf(),
        ensures
            final(self).wf(),
            final(self).table() == old(self).table(),
            final(self)@.follows(old(self)@),
            (final(self)@, request_result(r)) == old(self)@.after_request(
                old(self).table(),
                proxy@.serial,
                opcode,
                values(args@),
            ),
    {
        if !self.lives(proxy.serial) {
            return Ok(RequestResult::Destroyed);
        }
        if self.broken {
            return Err(FatalError::Broken);
        }
        let target = self.record(proxy.serial);
        let (encoded, creates) = match self.table.request_signature(target.interface, opcode) {
            Some(sig) => (encode_args(&sig.args, args), sig.creates),
            None => (None, None),
        };
        let (body, fds) = match encoded {
            Some(pair) => pair,
            None => {
                self.fail();
                return Err(FatalError::Malformed);
            },
        };
        match creates {
            None => {
                let request = Outgoing { object: target.id, opcode, payload: body, fds };
                self.outbox.push(request);
                Ok(RequestResult::Sent(None))
            },
            Some(interface) => {
                let id = match self.allocate_id() {
                    Some(id) => id,
                    None => {
                        self.fail();
                        return Err(FatalError::Exhausted);
                    },
                };
                if self.next_serial == u64::MAX {
                    self.fail();
                    return Err(FatalError::Exhausted);
                }
                let limit = match self.table.get(interface) {
                    Some(d) => d.max_version,
                    None => vstd::pervasive::unreached(),
                };
                let version = if target.version <= limit {
                    target.version
                } else {
                    limit
                };
                let mut payload: Vec<u8> = Vec::new();
                push_word(&mut payload, id);
                let mut body = body;
                payload.append(&mut body);
                let request = Outgoing { object: target.id, opcode, payload, fds };
                let serial = self.enter(id, interface, version);
                self.outbox.push(request);
                Ok(RequestResult::Sent(Some(Proxy { serial, id, interface, version })))
            },
        }
    }

    /// Takes the requests that wait to be written, in the order they
    /// were made, and leaves none.
    pub fn take_outgoing(&mut self) -> (r: Result<Vec<Outgoing>, FatalError>)
        requires
            old(self).wf(),
        ensures
            final(self).wf(),
            final(self).table() == old(self).table(),
            final(self)@.follows(old(self)@),
            match r {
                Ok(requests) => !old(self)@.broken && outgoing_view(requests@) == old(self)@.outbox
                    && final(self)@ == (State { outbox: Seq::empty(), ..old(self)@ }),
                Err(e) => old(self)@.broken && e == FatalError::Broken && final(self)@ == old(
                    self,
                )@,
            },
    {
        if self.broken {
            return Err(FatalError::Broken);
        }
        let mut requests: Vec<Outgoing> = Vec::new();
        std::mem::swap(&mut requests, &mut self.outbox);
        Ok(requests)
    }

    /// Whether the record of key `serial` is there and its object lives.
    fn lives(&self, serial: u64) -> (b: bool)
        ensures
            b == self@.alive(serial),
    {
        match self.objects.get(&serial) {
            Some(r) => r.alive,
            None => false,
        }
    }
}

impl Proxy {
    /// Registers the object that the wire named `id`, of interface
    /// `interface` at version `version`, with `conn`, and returns the
    /// first proxy of it. The object goes to the main queue and has no
    /// handler.
    ///
    /// A reference that cannot be a new object (a null id, an id that a
    /// record has, an interface that is not in the table or does not have
    /// the version) is fatal.
    pub fn from_wire_new(conn: &mut Connection, id: u32, interface: usize, version: u32) -> (r:
        Result<Proxy, FatalError>)
        requires
            old(conn).wf(),
        ensures
            final(conn).wf(),
            final(conn).table() == old(conn).table(),
            final(conn)@.follows(old(conn)@),
            (final(conn)@, proxy_result(r)) == old(conn)@.after_new(
                old(conn).table(),
                id,
                interface,
                version,
            ),
    {
        if conn.broken {
            return Err(FatalError::Broken);
        }
        let admitted = id != 0 && conn.lookup(id).is_none() && match conn.table.get(interface) {
            Some(d) => 1 <= version && version <= d.max_version,
            None => false,
        };
        if !admitted {
            conn.fail();
            return Err(FatalError::InvalidReference);
        }
        if conn.next_serial == u64::MAX {
            conn.fail();
            return Err(FatalError::Exhausted);
        }
        let serial = conn.enter(id, interface, version);
        Ok(Proxy { serial, id, interface, version })
    }

    /// Returns a proxy of the object that the wire named `id`, which
    /// `conn` has registered with the interface `interface`. Nothing of
    /// the object's record changes but the count of its proxies.
    ///
    /// An id that no record has, or one of another interface, is fatal.
    pub fn from_wire_initialized(conn: &mut Connection, id: u32, interface: usize) -> (r: Result<
        Proxy,
        FatalError,
    >)
        requires
            old(conn).wf(),
        ensures
            final(conn).wf(),
            final(conn).table() == old(conn).table(),
            final(conn)@.follows(old(conn)@),
            (final(conn)@, proxy_result(r)) == old(conn)@.after_initialized(id, interface),
    {
        if conn.broken {
            return Err(FatalError::Broken);
        }
        match conn.lookup(id) {
            Some(serial) => {
                let record = conn.record(serial);
                if record.interface != interface {
                    conn.fail();
                    return Err(FatalError::InvalidReference);
                }
                conn.hold(serial);
                Ok(Proxy { serial, id, interface, version: record.version })
            },
            None => {
                conn.fail();
                Err(FatalError::InvalidReference)
            },
        }
    }

    /// The key of the record behind the proxy: what tells the object
    /// apart from every other that the connection has known.
    pub fn serial(&self) -> (serial: u64)
        ensures
            serial == self@.serial,
    {
        self.serial
    }

    /// The id of the object on the wire.
    pub fn id(&self) -> (id: u32)
        ensures
            id == self@.id,
    {
        self.id
    }

    /// The place of the object's interface in the table.
    pub fn interface(&self) -> (interface: usize)
        ensures
            interface == self@.interface,
    {
        self.interface
    }

    /// The version of the interface that the object was created with.
    pub fn version(&self) -> (version: u32)
        ensures
            version == self@.version,
    {
        self.version
    }

    /// The descriptor of the object's interface in `table`.
    pub fn interface_descriptor<'a>(&self, table: &'a InterfaceTable) -> (d: Option<
        &'a InterfaceDescriptor,
    >)
        ensures
            d is Some <==> self@.interface < table@.len(),
            d matches Some(found) ==> *found == table@[self@.interface as int],
    {
        table.get(self.interface)
    }

    /// The name of the object's interface in `table`.
    pub fn interface_name<'a>(&self, table: &'a InterfaceTable) -> (name: Option<&'a str>)
        ensures
            name is Some <==> self@.interface < table@.len(),
            name matches Some(found) ==> found@ == table@[self@.interface as int].name@,
    {
        match table.get(self.interface) {
            Some(d) => Some(d.name.as_str()),
            None => None,
        }
    }

    /// The highest version of the object's interface that `table` has.
    pub fn supported_version(&self, table: &InterfaceTable) -> (version: Option<u32>)
        ensures
            version is Some <==> self@.interface < table@.len(),
            version matches Some(found) ==> found == table@[self@.interface as int].max_version,
    {
        match table.get(self.interface) {
            Some(d) => Some(d.max_version),
            None => None,
        }
    }

    /// Whether the object behind the proxy still lives. Every proxy of
    /// the same record gives the same answer.
    pub fn is_alive(&self, conn: &Connection) -> (b: bool)
        ensures
            b == conn@.alive(self@.serial),
    {
        conn.lives(self.serial)
    }
}

} // verus!
