use vstd::prelude::*;

verus! {

/// The kind of one argument in a message signature.
#[derive(Clone, Copy, Debug, PartialEq, Eq, Structural)]
pub enum ArgKind {
    /// A signed 32-bit integer.
    Int,
    /// An unsigned 32-bit integer.
    Uint,
    /// A signed 24.8 fixed-point number, carried as its raw 32 bits.
    Fixed,
    /// A byte string, sent with a terminating zero byte.
    Str,
    /// The id of a protocol object.
    Object,
    /// An opaque byte array.
    Array,
    /// A file descriptor, passed beside the byte payload.
    Fd,
}

/// The signature of a request: the kinds of its arguments, and the
/// interface of the object that the request creates, if it creates one.
#[derive(Debug)]
pub struct RequestSignature {
    /// The kinds of the arguments, in order.
    pub args: Vec<ArgKind>,
    /// Where the request creates an object, the place of that object's
    /// interface in the table.
    pub creates: Option<usize>,
}

/// The signature of an event: the kinds of its arguments.
#[derive(Debug)]
pub struct EventSignature {
    /// The kinds of the arguments, in order.
    pub args: Vec<ArgKind>,
}

/// What is known of one protocol object type.
#[derive(Debug)]
pub struct InterfaceDescriptor {
    /// The name of the interface in the protocol.
    pub name: String,
    /// The highest version of the interface that this client supports.
    pub max_version: u32,
    /// The requests of the interface; a request's opcode is its place here.
    pub requests: Vec<RequestSignature>,
    /// The events of the interface; an event's opcode is its place here.
    pub events: Vec<EventSignature>,
}

/// Whether a descriptor can stand in a table of `count` interfaces: it
/// supports some version, and each object that one of its requests
/// creates has its interface in the table.
pub open spec fn valid_descriptor(d: InterfaceDescriptor, count: nat) -> bool {
    &&& d.max_version >= 1
    &&& forall|r: int|
        0 <= r < d.requests@.len() ==> match (#[trigger] d.requests@[r]).creates {
            Some(c) => c < count,
            None => true,
        }
}

/// Whether every descriptor of `all` can stand in the table that `all` makes.
pub open spec fn valid_interfaces(all: Seq<InterfaceDescriptor>) -> bool {
    forall|i: int| 0 <= i < all.len() ==> valid_descriptor(#[trigger] all[i], all.len())
}

/// The read-only table of the interfaces that a connection knows. An
/// interface is referred to by its place in the table.
#[derive(Debug)]
pub struct InterfaceTable {
    interfaces: Vec<InterfaceDescriptor>,
}

impl View for InterfaceTable {
    type V = Seq<InterfaceDescriptor>;

    closed spec fn view(&self) -> Seq<InterfaceDescriptor> {
        self.interfaces@
    }
}

/// Whether one descriptor can stand in a table of `count` interfaces.
fn check_descriptor(d: &InterfaceDescriptor, count: usize) -> (ok: bool)
    ensures
        ok == valid_descriptor(*d, count as nat),
{
    if d.max_version < 1 {
        return false;
    }
    let mut r: usize = 0;
    while r < d.requests.len()
        invariant
            r <= d.requests@.len(),
            d.max_version >= 1,
            forall|k: int|
                0 <= k < r ==> match (#[trigger] d.requests@[k]).creates {
                    Some(c) => c < count,
                    None => true,
                },
        decreases d.requests@.len() - r,
    {
        match d.requests[r].creates {
            Some(c) => {
                if c >= count {
                    return false;
                }
            },
            None => {},
        }
        r = r + 1;
    }
    true
}

impl InterfaceTable {
    /// Whether the table is well formed. Every table is: `new` makes no other.
    #[verifier::type_invariant]
    pub open spec fn wf(&self) -> bool {
        valid_interfaces(self@)
    }

    /// The signature of request `opcode` of interface `interface`, where
    /// there is one.
    pub open spec fn request(&self, interface: usize, opcode: u32) -> Option<RequestSignature> {
        if interface < self@.len() && opcode < self@[interface as int].requests@.len() {
            Some(self@[interface as int].requests@[opcode as int])
        } else {
            None
        }
    }

    /// The signature of event `opcode` of interface `interface`, where
    /// there is one.
    pub open spec fn event(&self, interface: usize, opcode: u32) -> Option<EventSignature> {
        if interface < self@.len() && opcode < self@[interface as int].events@.len() {
            Some(self@[interface as int].events@[opcode as int])
        } else {
            None
        }
    }

    /// Makes a table of `interfaces`, or `None` where some descriptor
    /// supports no version or names an interface that is not among them.
    pub fn new(interfaces: Vec<InterfaceDescriptor>) -> (table: Option<InterfaceTable>)
        ensures
            table is Some <==> valid_interfaces(interfaces@),
            table matches Some(t) ==> t@ == interfaces@ && t.wf(),
    {
        let count: usize = interfaces.len();
        let mut i: usize = 0;
        while i < count
            invariant
                i <= count == interfaces@.len(),
                forall|k: int| 0 <= k < i ==> valid_descriptor(#[trigger] interfaces@[k], count as nat),
            decreases count - i,
        {
            if !check_descriptor(&interfaces[i], count) {
                return None;
            }
            i = i + 1;
        }
        Some(InterfaceTable { interfaces })
    }

    /// The number of interfaces in the table.
    pub fn len(&self) -> (n: usize)
        ensures
            n == self@.len(),
    {
        self.interfaces.len()
    }

    /// The descriptor of interface `interface`, where the table has it.
    pub fn get(&self, interface: usize) -> (d: Option<&InterfaceDescriptor>)
        ensures
            d is Some <==> interface < self@.len(),
            d matches Some(found) ==> *found == self@[interface as int],
    {
        if interface < self.interfaces.len() {
            Some(&self.interfaces[interface])
        } else {
            None
        }
    }

    /// The signature of request `opcode` of interface `interface`.
    pub fn request_signature(&self, interface: usize, opcode: u32) -> (sig: Option<
        &RequestSignature,
    >)
        ensures
            match sig {
                Some(found) => self.request(interface, opcode) == Some(*found),
                None => self.request(interface, opcode) is None,
            },
    {
        if interface < self.interfaces.len() {
            let d = &self.interfaces[interface];
            if (opcode as usize) < d.requests.len() {
                return Some(&d.requests[opcode as usize]);
            }
        }
        None
    }

    /// The signature of event `opcode` of interface `interface`.
    pub fn event_signature(&self, interface: usize, opcode: u32) -> (sig: Option<&EventSignature>)
        ensures
            match sig {
                Some(found) => self.event(interface, opcode) == Some(*found),
                None => self.event(interface, opcode) is None,
            },
    {
        if interface < self.interfaces.len() {
            let d = &self.interfaces[interface];
            if (opcode as usize) < d.events.len() {
                return Some(&d.events[opcode as usize]);
            }
        }
        None
    }
}

} // verus!
