//! A handler that keeps the events it is handed, for clients that would
//! rather look at events after a dispatch than act on them during it.

use crate::connection::{Connection, Proxy};
use crate::dispatch::Handler;
use crate::model::{ProxyView, State};
use crate::wire::{values, ArgValue, Argument};
use vstd::prelude::*;

verus! {

/// One event as a handler was handed it.
#[derive(Debug, PartialEq, Eq)]
pub struct Received {
    /// The key of the target's record.
    pub serial: u64,
    /// The id of the target on the wire.
    pub id: u32,
    /// The place of the target's interface in the table.
    pub interface: usize,
    /// The version that the target was created with.
    pub version: u32,
    /// The opcode of the event.
    pub opcode: u32,
    /// The decoded arguments.
    pub args: Vec<Argument>,
}

/// A received event as a mathematical value.
pub struct ReceivedView {
    pub proxy: ProxyView,
    pub opcode: u32,
    pub args: Seq<ArgValue>,
}

impl View for Received {
    type V = ReceivedView;

    open spec fn view(&self) -> ReceivedView {
        ReceivedView {
            proxy: ProxyView {
                serial: self.serial,
                id: self.id,
                interface: self.interface,
                version: self.version,
            },
            opcode: self.opcode,
            args: values(self.args@),
        }
    }
}

/// A copy of `args`.
fn copy_arguments(args: &Vec<Argument>) -> (copy: Vec<Argument>)
    ensures
        values(copy@) == values(args@),
{
    let mut copy: Vec<Argument> = Vec::new();
    let mut i: usize = 0;
    while i < args.len()
        invariant
            i <= args@.len(),
            values(copy@) == values(args@).take(i as int),
        decreases args@.len() - i,
    {
        let one = args[i].clone();
        let ghost before = values(copy@);
        copy.push(one);
        i = i + 1;
        assert(values(args@).take(i as int) =~= before.push(values(args@)[i - 1]));
    }
    copy
}

/// A handler that keeps what it is handed, in the order it is handed it,
/// and does nothing else.
#[derive(Debug)]
pub struct Journal {
    entries: Vec<Received>,
}

impl View for Journal {
    type V = Seq<ReceivedView>;

    closed spec fn view(&self) -> Seq<ReceivedView> {
        self.entries@.map_values(|r: Received| r@)
    }
}

impl Journal {
    /// An empty journal.
    pub fn new() -> (journal: Journal)
        ensures
            journal@ == Seq::<ReceivedView>::empty(),
    {
        Journal { entries: Vec::new() }
    }

    /// The events that were received, oldest first.
    pub fn entries(&self) -> (entries: &Vec<Received>)
        ensures
            entries@.map_values(|r: Received| r@) == self@,
    {
        &self.entries
    }

    /// Takes the events that were received, oldest first, and leaves the
    /// journal empty.
    pub fn take(&mut self) -> (entries: Vec<Received>)
        ensures
            entries@.map_values(|r: Received| r@) == old(self)@,
            final(self)@ == Seq::<ReceivedView>::empty(),
    {
        let mut entries: Vec<Received> = Vec::new();
        std::mem::swap(&mut entries, &mut self.entries);
        entries
    }
}

impl Handler for Journal {
    /// A call adds the event to the journal, leaves the connection as it
    /// is, and succeeds.
    open spec fn handles(
        &self,
        after: &Self,
        conn: State,
        conn_after: State,
        proxy: ProxyView,
        opcode: u32,
        args: Seq<ArgValue>,
        outcome: Result<(), ()>,
    ) -> bool {
        &&& after@ == self@.push(ReceivedView { proxy, opcode, args })
        &&& conn_after == conn
        &&& outcome is Ok
    }

    fn message(
        &mut self,
        conn: &mut Connection,
        proxy: &Proxy,
        opcode: u32,
        args: &Vec<Argument>,
    ) -> (outcome: Result<(), ()>) {
        let received = Received {
            serial: proxy.serial(),
            id: proxy.id(),
            interface: proxy.interface(),
            version: proxy.version(),
            opcode,
            args: copy_arguments(args),
        };
        self.entries.push(received);
        assert(self@ =~= old(self)@.push(received@));
        Ok(())
    }
}

} // verus!
