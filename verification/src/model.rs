//! The state of a connection as a mathematical value, and what each
//! operation of the runtime makes of it.

use crate::interface::InterfaceTable;
use crate::request::RequestResult;
use crate::wire::{conforms, decode, fds_of, payload_of, word_bytes, ArgValue};
use vstd::prelude::*;

verus! {

/// The first object id that the server allocates. Unless it is told
/// otherwise, a connection gives the objects it creates ids below it.
pub const SERVER_ID_START: u32 = 0xff00_0000;

/// Why the connection cannot go on.
#[derive(Clone, Copy, Debug, PartialEq, Eq, Structural)]
pub enum FatalError {
    /// The connection was broken before the call.
    Broken,
    /// A message came for an object id that the connection does not know.
    UnknownObject,
    /// A message has no opcode that its interface knows, or arguments
    /// that do not fit its signature.
    Malformed,
    /// A handler reported a failure.
    HandlerFailed,
    /// A proxy was asked for a reference that is no object of the
    /// interface named.
    InvalidReference,
    /// No object id or no record is left to give out.
    Exhausted,
}

/// What the connection keeps of one protocol object.
#[derive(Clone, Copy, Debug)]
pub struct Record {
    /// The id of the object on the wire.
    pub id: u32,
    /// The place of the object's interface in the table.
    pub interface: usize,
    /// The version of the interface that the object was created with.
    pub version: u32,
    /// Whether the object still exists for the server.
    pub alive: bool,
    /// The queue that receives the object's events.
    pub queue: usize,
    /// The handler that the object's events go to, if any.
    pub handler: Option<usize>,
    /// How many proxies hold the record.
    pub handles: u64,
}

/// What a proxy holds.
pub struct ProxyView {
    /// The key of the record in the connection, never given twice.
    pub serial: u64,
    /// The id of the object on the wire.
    pub id: u32,
    /// The place of the object's interface in the table.
    pub interface: usize,
    /// The version that the object was created with.
    pub version: u32,
}

/// An event as a mathematical value.
pub struct EventView {
    pub target: u64,
    pub opcode: u32,
    pub payload: Seq<u8>,
    pub fds: Seq<i32>,
}

/// A request as a mathematical value.
pub struct OutgoingView {
    pub object: u32,
    pub opcode: u32,
    pub payload: Seq<u8>,
    pub fds: Seq<i32>,
}

/// A delivery as a mathematical value.
pub enum DeliveryView {
    Discarded,
    Unhandled,
    Invoke { handler: usize, opcode: u32, proxy: ProxyView, args: Seq<ArgValue> },
}

/// The state of a connection.
#[verifier::ext_equal]
pub struct State {
    /// The records, by their key.
    pub objects: Map<u64, Record>,
    /// The events that wait in each queue, in the order they arrived.
    pub pending: Seq<Seq<EventView>>,
    /// The requests that wait to be written, in the order they were made.
    pub outbox: Seq<OutgoingView>,
    /// Whether a fatal error has ended the connection.
    pub broken: bool,
    /// The key that the next record gets.
    pub next_serial: u64,
    /// The bound of the ids that the connection gives to the objects it
    /// creates: they are below it.
    pub id_limit: u32,
}

impl State {
    /// Whether the record with key `serial` is there and its object lives.
    pub open spec fn alive(self, serial: u64) -> bool {
        self.objects.contains_key(serial) && self.objects[serial].alive
    }

    /// Whether some record has the object id `id`.
    pub open spec fn id_in_use(self, id: u32) -> bool {
        exists|s: u64| self.objects.contains_key(s) && #[trigger] self.objects[s].id == id
    }

    /// The key of the record that has the object id `id`.
    pub open spec fn serial_of(self, id: u32) -> u64 {
        choose|s: u64| self.objects.contains_key(s) && #[trigger] self.objects[s].id == id
    }

    /// Whether `proxy` holds a record of this state as it stands there.
    pub open spec fn holds(self, proxy: ProxyView) -> bool {
        &&& self.objects.contains_key(proxy.serial)
        &&& self.objects[proxy.serial].id == proxy.id
        &&& self.objects[proxy.serial].interface == proxy.interface
        &&& self.objects[proxy.serial].version == proxy.version
    }

    /// The state after a fatal error.
    pub open spec fn failed(self) -> State {
        State { broken: true, ..self }
    }

    /// The state with `record` under the key `serial`.
    pub open spec fn with_record(self, serial: u64, record: Record) -> State {
        State { objects: self.objects.insert(serial, record), ..self }
    }

    /// The state without the record of key `serial`.
    pub open spec fn without_record(self, serial: u64) -> State {
        State { objects: self.objects.remove(serial), ..self }
    }

    /// The objects that are assigned to queue `queue`, by the key of
    /// their record. Every object is assigned to the one queue that its
    /// record names.
    pub open spec fn members(self, queue: usize) -> Set<u64> {
        Set::new(|s: u64| self.objects.contains_key(s) && self.objects[s].queue == queue)
    }

    /// The state with one more queue, empty.
    pub open spec fn with_queue(self) -> State {
        State { pending: self.pending.push(Seq::empty()), ..self }
    }

    /// Whether a new object can be registered under the reference given:
    /// the id is not null and no record has it, the interface is in the
    /// table, and it has the version.
    pub open spec fn admits(self, table: InterfaceTable, id: u32, interface: usize, version: u32) -> bool {
        &&& id != 0
        &&& !self.id_in_use(id)
        &&& interface < table@.len()
        &&& 1 <= version <= table@[interface as int].max_version
    }

    /// The record of an object that was just registered: alive, on the
    /// main queue, without a handler, held by one proxy.
    pub open spec fn fresh_record(id: u32, interface: usize, version: u32) -> Record {
        Record { id, interface, version, alive: true, queue: 0, handler: None, handles: 1 }
    }

    /// The state after the object `id` was registered under the next key.
    pub open spec fn registered(self, id: u32, interface: usize, version: u32) -> State {
        State {
            next_serial: (self.next_serial + 1) as u64,
            ..self.with_record(self.next_serial, Self::fresh_record(id, interface, version))
        }
    }

    /// The proxy that `registered` hands out.
    pub open spec fn next_proxy(self, id: u32, interface: usize, version: u32) -> ProxyView {
        ProxyView { serial: self.next_serial, id, interface, version }
    }

    /// What `from_wire_new` does: the state after it and what it returns.
    pub open spec fn after_new(
        self,
        table: InterfaceTable,
        id: u32,
        interface: usize,
        version: u32,
    ) -> (State, Result<ProxyView, FatalError>) {
        if self.broken {
            (self, Err(FatalError::Broken))
        } else if !self.admits(table, id, interface, version) {
            (self.failed(), Err(FatalError::InvalidReference))
        } else if self.next_serial == u64::MAX {
            (self.failed(), Err(FatalError::Exhausted))
        } else {
            (self.registered(id, interface, version), Ok(self.next_proxy(id, interface, version)))
        }
    }

    /// One more than `n`, where that fits.
    pub open spec fn one_more(n: u64) -> u64 {
        if n < u64::MAX {
            (n + 1) as u64
        } else {
            n
        }
    }

    /// The state after one more proxy took hold of the record `serial`.
    pub open spec fn held_again(self, serial: u64) -> State {
        if self.objects.contains_key(serial) {
            let r = self.objects[serial];
            self.with_record(serial, Record { handles: Self::one_more(r.handles), ..r })
        } else {
            self
        }
    }

    /// What `from_wire_initialized` does: the state after it and what it
    /// returns.
    pub open spec fn after_initialized(self, id: u32, interface: usize) -> (
        State,
        Result<ProxyView, FatalError>,
    ) {
        if self.broken {
            (self, Err(FatalError::Broken))
        } else if !self.id_in_use(id) || self.objects[self.serial_of(id)].interface != interface {
            (self.failed(), Err(FatalError::InvalidReference))
        } else {
            let serial = self.serial_of(id);
            (
                self.held_again(serial),
                Ok(
                    ProxyView {
                        serial,
                        id,
                        interface,
                        version: self.objects[serial].version,
                    },
                ),
            )
        }
    }

    /// The state after a proxy let go of the record `serial`: the record
    /// leaves with the last proxy of a dead object.
    pub open spec fn released(self, serial: u64) -> State {
        if self.objects.contains_key(serial) {
            let r = self.objects[serial];
            let left = if r.handles > 0 {
                (r.handles - 1) as u64
            } else {
                0
            };
            if !r.alive && left == 0 {
                self.without_record(serial)
            } else {
                self.with_record(serial, Record { handles: left, ..r })
            }
        } else {
            self
        }
    }

    /// The state after the object of record `serial` was destroyed: the
    /// record is marked dead, and leaves at once if no proxy holds it.
    pub open spec fn destroyed(self, serial: u64) -> State {
        if self.alive(serial) {
            let r = self.objects[serial];
            if r.handles == 0 {
                self.without_record(serial)
            } else {
                self.with_record(serial, Record { alive: false, ..r })
            }
        } else {
            self
        }
    }

    /// The state after the object of record `serial` was assigned to
    /// `queue`: nothing changes for a dead object or a queue that is not
    /// there, and nothing that waits in a queue moves.
    pub open spec fn assigned(self, serial: u64, queue: usize) -> State {
        if self.alive(serial) && queue < self.pending.len() {
            self.with_record(serial, Record { queue, ..self.objects[serial] })
        } else {
            self
        }
    }

    /// The state after `handler` was associated with the object of
    /// record `serial`, in place of any handler it had.
    pub open spec fn handled_by(self, serial: u64, handler: usize) -> State {
        if self.alive(serial) {
            self.with_record(serial, Record { handler: Some(handler), ..self.objects[serial] })
        } else {
            self
        }
    }

    /// The state with the event `e` at the end of queue `queue`.
    pub open spec fn enqueued(self, queue: int, e: EventView) -> State {
        State { pending: self.pending.update(queue, self.pending[queue].push(e)), ..self }
    }

    /// What `route` does: the state after it and what it returns.
    pub open spec fn after_route(
        self,
        table: InterfaceTable,
        id: u32,
        opcode: u32,
        payload: Seq<u8>,
        fds: Seq<i32>,
    ) -> (State, Result<(), FatalError>) {
        if self.broken {
            (self, Err(FatalError::Broken))
        } else if !self.id_in_use(id) {
            (self.failed(), Err(FatalError::UnknownObject))
        } else {
            let serial = self.serial_of(id);
            let r = self.objects[serial];
            if table.event(r.interface, opcode) is None {
                (self.failed(), Err(FatalError::Malformed))
            } else {
                (
                    self.enqueued(r.queue as int, EventView { target: serial, opcode, payload, fds }),
                    Ok(()),
                )
            }
        }
    }

    /// The events that wait in queue `queue`; none where it is not there.
    pub open spec fn batch(self, queue: usize) -> Seq<EventView> {
        if queue < self.pending.len() {
            self.pending[queue as int]
        } else {
            Seq::empty()
        }
    }

    /// The state after the events of queue `queue` were taken.
    pub open spec fn drained(self, queue: usize) -> State {
        if queue < self.pending.len() {
            State { pending: self.pending.update(queue as int, Seq::empty()), ..self }
        } else {
            self
        }
    }

    /// What is to be done with the event `e` when its turn comes.
    pub open spec fn delivery(self, table: InterfaceTable, e: EventView) -> Result<
        DeliveryView,
        FatalError,
    > {
        if self.broken {
            Err(FatalError::Broken)
        } else if !self.alive(e.target) {
            Ok(DeliveryView::Discarded)
        } else {
            let r = self.objects[e.target];
            match table.event(r.interface, e.opcode) {
                None => Err(FatalError::Malformed),
                Some(sig) => match decode(sig.args@, e.payload, e.fds) {
                    None => Err(FatalError::Malformed),
                    Some(args) => match r.handler {
                        None => Ok(DeliveryView::Unhandled),
                        Some(handler) => Ok(
                            DeliveryView::Invoke {
                                handler,
                                opcode: e.opcode,
                                proxy: ProxyView {
                                    serial: e.target,
                                    id: r.id,
                                    interface: r.interface,
                                    version: r.version,
                                },
                                args,
                            },
                        ),
                    },
                },
            }
        }
    }

    /// The state after `delivery`: a malformed event breaks the connection.
    pub open spec fn after_delivery(self, table: InterfaceTable, e: EventView) -> State {
        if self.delivery(table, e) == Err::<DeliveryView, FatalError>(FatalError::Malformed) {
            self.failed()
        } else {
            self
        }
    }

    /// What `conclude` does with what a handler returned: the state after
    /// it and what it returns.
    pub open spec fn after_handler(self, outcome: Result<(), ()>) -> (State, Result<(), FatalError>) {
        if outcome is Err {
            (self.failed(), Err(FatalError::HandlerFailed))
        } else if self.broken {
            (self, Err(FatalError::Broken))
        } else {
            (self, Ok(()))
        }
    }

    /// Whether `id` is the id that the next created object gets: the
    /// smallest id from 1 on, below the bound, that no record has.
    pub open spec fn is_fresh_id(self, id: u32) -> bool {
        &&& 1 <= id < self.id_limit
        &&& !self.id_in_use(id)
        &&& forall|j: u32| 1 <= j < id ==> #[trigger] self.id_in_use(j)
    }

    /// Whether every id that the connection could give out is in use.
    pub open spec fn ids_exhausted(self) -> bool {
        forall|j: u32| 1 <= j < self.id_limit ==> #[trigger] self.id_in_use(j)
    }

    /// The id that the next created object gets.
    pub open spec fn fresh_id(self) -> u32 {
        choose|id: u32| self.is_fresh_id(id)
    }

    /// The state with `request` at the end of the outbox.
    pub open spec fn sent(self, request: OutgoingView) -> State {
        State { outbox: self.outbox.push(request), ..self }
    }

    /// The version of an object of interface `interface` that a request
    /// on an object of version `parent` creates: the parent's, as far as
    /// the interface has it.
    pub open spec fn child_version(table: InterfaceTable, parent: u32, interface: usize) -> u32 {
        if parent <= table@[interface as int].max_version {
            parent
        } else {
            table@[interface as int].max_version
        }
    }

    /// What `send_request` does: the state after it and what it returns.
    pub open spec fn after_request(
        self,
        table: InterfaceTable,
        serial: u64,
        opcode: u32,
        args: Seq<ArgValue>,
    ) -> (State, Result<RequestResult<Option<ProxyView>>, FatalError>) {
        if !self.alive(serial) {
            (self, Ok(RequestResult::Destroyed))
        } else if self.broken {
            (self, Err(FatalError::Broken))
        } else {
            let r = self.objects[serial];
            match table.request(r.interface, opcode) {
                None => (self.failed(), Err(FatalError::Malformed)),
                Some(sig) => if !conforms(args, sig.args@) {
                    (self.failed(), Err(FatalError::Malformed))
                } else {
                    match sig.creates {
                        None => (
                            self.sent(
                                OutgoingView {
                                    object: r.id,
                                    opcode,
                                    payload: payload_of(args),
                                    fds: fds_of(args),
                                },
                            ),
                            Ok(RequestResult::Sent(None)),
                        ),
                        Some(interface) => if self.ids_exhausted() || self.next_serial
                            == u64::MAX {
                            (self.failed(), Err(FatalError::Exhausted))
                        } else {
                            let id = self.fresh_id();
                            let version = Self::child_version(table, r.version, interface);
                            (
                                self.registered(id, interface, version).sent(
                                    OutgoingView {
                                        object: r.id,
                                        opcode,
                                        payload: word_bytes(id) + payload_of(args),
                                        fds: fds_of(args),
                                    },
                                ),
                                Ok(
                                    RequestResult::Sent(
                                        Some(self.next_proxy(id, interface, version)),
                                    ),
                                ),
                            )
                        },
                    }
                },
            }
        }
    }

    /// The state of a new connection that gives out ids below `id_limit`:
    /// no object, one empty queue, nothing to write.
    pub open spec fn initial(id_limit: u32) -> State {
        State {
            objects: Map::empty(),
            pending: seq![Seq::empty()],
            outbox: Seq::empty(),
            broken: false,
            next_serial: 0,
            id_limit,
        }
    }

    /// The state that a later moment of the same connection can be in:
    /// keys are never given twice, an object that is gone or dead does not
    /// come back, and a broken connection stays broken.
    pub open spec fn follows(self, earlier: State) -> bool {
        &&& earlier.next_serial <= self.next_serial
        &&& earlier.broken ==> self.broken
        &&& forall|s: u64| s < earlier.next_serial && #[trigger] self.alive(s) ==> earlier.alive(s)
    }

    /// Whether the state is well formed over the interfaces of `table`.
    pub open spec fn wf(self, table: InterfaceTable) -> bool {
        &&& table.wf()
        &&& self.pending.len() >= 1
        &&& forall|s: u64| #[trigger]
            self.objects.contains_key(s) ==> {
                let r = self.objects[s];
                &&& s < self.next_serial
                &&& r.id != 0
                &&& r.interface < table@.len()
                &&& 1 <= r.version <= table@[r.interface as int].max_version
                &&& r.queue < self.pending.len()
                &&& (r.alive || r.handles > 0)
            }
        &&& forall|s: u64, t: u64|
            self.objects.contains_key(s) && self.objects.contains_key(t) && #[trigger] self.objects[s].id
                == #[trigger] self.objects[t].id ==> s == t
    }
}

/// What follows a state that follows another follows that one too.
pub proof fn lemma_follows_transitive(a: State, b: State, c: State)
    requires
        b.follows(a),
        c.follows(b),
    ensures
        c.follows(a),
{
}

} // verus!
