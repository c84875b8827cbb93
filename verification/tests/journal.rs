use wayland_client::connection::{Connection, Proxy};
use wayland_client::dispatch::{EventQueue, Handler};
use wayland_client::interface::{
    ArgKind, EventSignature, InterfaceDescriptor, InterfaceTable,
};
use wayland_client::journal::{Journal, Received};
use wayland_client::model::FatalError;
use wayland_client::wire::Argument;

fn table() -> InterfaceTable {
    let surface = InterfaceDescriptor {
        name: "wl_surface".to_string(),
        max_version: 3,
        requests: vec![],
        events: vec![
            EventSignature { args: vec![ArgKind::Uint] },
            EventSignature { args: vec![ArgKind::Str, ArgKind::Fd] },
        ],
    };
    InterfaceTable::new(vec![surface]).unwrap()
}

fn received(proxy: &Proxy, opcode: u32, args: Vec<Argument>) -> Received {
    Received {
        serial: proxy.serial(),
        id: proxy.id(),
        interface: proxy.interface(),
        version: proxy.version(),
        opcode,
        args,
    }
}

#[test]
fn a_new_journal_is_empty() {
    let mut journal = Journal::new();
    assert!(journal.entries().is_empty());
    assert!(journal.take().is_empty());
}

#[test]
fn a_journal_holds_the_events_in_the_order_they_arrived() {
    let mut conn = Connection::new(table());
    let mut queue: EventQueue<Journal> = EventQueue::main();
    let number = queue.add_handler(Journal::new());
    let a = Proxy::from_wire_new(&mut conn, 3, 0, 1).unwrap();
    let b = Proxy::from_wire_new(&mut conn, 4, 0, 3).unwrap();
    conn.register(&a, number);
    conn.register(&b, number);
    conn.route(4, 0, vec![1, 0, 0, 0], vec![]).unwrap();
    conn.route(3, 1, vec![3, 0, 0, 0, b'h', b'i', 0, 0], vec![5]).unwrap();
    conn.route(4, 0, vec![2, 0, 0, 0], vec![]).unwrap();
    assert_eq!(queue.dispatch(&mut conn), Ok(3));
    let journal = queue.handler(number).unwrap();
    assert_eq!(
        *journal.entries(),
        vec![
            received(&b, 0, vec![Argument::Uint(1)]),
            received(&a, 1, vec![Argument::Str(b"hi".to_vec()), Argument::Fd(5)]),
            received(&b, 0, vec![Argument::Uint(2)]),
        ]
    );
    assert!(a.is_alive(&conn));
    assert!(!conn.is_broken());
    assert!(conn.take_outgoing().unwrap().is_empty());
}

#[test]
fn a_journal_grows_from_dispatch_to_dispatch() {
    let mut conn = Connection::new(table());
    let mut queue: EventQueue<Journal> = EventQueue::main();
    let number = queue.add_handler(Journal::new());
    let a = Proxy::from_wire_new(&mut conn, 3, 0, 1).unwrap();
    conn.register(&a, number);
    conn.route(3, 0, vec![1, 0, 0, 0], vec![]).unwrap();
    assert_eq!(queue.dispatch(&mut conn), Ok(1));
    conn.route(3, 0, vec![2, 0, 0, 0], vec![]).unwrap();
    conn.route(3, 0, vec![3, 0, 0, 0], vec![]).unwrap();
    assert_eq!(queue.dispatch(&mut conn), Ok(2));
    let seen: Vec<&Vec<Argument>> =
        queue.handler(number).unwrap().entries().iter().map(|r| &r.args).collect();
    assert_eq!(
        seen,
        vec![&vec![Argument::Uint(1)], &vec![Argument::Uint(2)], &vec![Argument::Uint(3)]]
    );
}

#[test]
fn taking_the_entries_empties_the_journal() {
    let mut conn = Connection::new(table());
    let a = Proxy::from_wire_new(&mut conn, 3, 0, 2).unwrap();
    let mut journal = Journal::new();
    assert_eq!(journal.message(&mut conn, &a, 0, &vec![Argument::Uint(9)]), Ok(()));
    assert_eq!(journal.message(&mut conn, &a, 1, &vec![]), Ok(()));
    let taken = journal.take();
    assert_eq!(
        taken,
        vec![received(&a, 0, vec![Argument::Uint(9)]), received(&a, 1, vec![])]
    );
    assert!(journal.entries().is_empty());
    assert!(journal.take().is_empty());
}

#[test]
fn a_journal_stops_where_the_dispatch_fails() {
    let mut conn = Connection::new(table());
    let mut queue: EventQueue<Journal> = EventQueue::main();
    let number = queue.add_handler(Journal::new());
    let a = Proxy::from_wire_new(&mut conn, 3, 0, 1).unwrap();
    conn.register(&a, number);
    conn.route(3, 0, vec![1, 0, 0, 0], vec![]).unwrap();
    conn.route(3, 0, vec![2, 0], vec![]).unwrap();
    conn.route(3, 0, vec![3, 0, 0, 0], vec![]).unwrap();
    assert_eq!(queue.dispatch(&mut conn), Err(FatalError::Malformed));
    assert_eq!(
        *queue.handler(number).unwrap().entries(),
        vec![received(&a, 0, vec![Argument::Uint(1)])]
    );
}
