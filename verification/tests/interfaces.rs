use wayland_client::interface::{
    ArgKind, EventSignature, InterfaceDescriptor, InterfaceTable, RequestSignature,
};

fn descriptor(
    name: &str,
    max_version: u32,
    requests: Vec<RequestSignature>,
    events: Vec<EventSignature>,
) -> InterfaceDescriptor {
    InterfaceDescriptor { name: name.to_string(), max_version, requests, events }
}

fn request(args: Vec<ArgKind>, creates: Option<usize>) -> RequestSignature {
    RequestSignature { args, creates }
}

fn event(args: Vec<ArgKind>) -> EventSignature {
    EventSignature { args }
}

fn sample() -> Vec<InterfaceDescriptor> {
    vec![
        descriptor(
            "wl_display",
            1,
            vec![request(vec![], Some(1))],
            vec![event(vec![ArgKind::Object, ArgKind::Uint, ArgKind::Str])],
        ),
        descriptor("wl_callback", 1, vec![], vec![event(vec![ArgKind::Uint])]),
    ]
}

#[test]
fn a_table_of_valid_descriptors_is_made() {
    let table = InterfaceTable::new(sample()).unwrap();
    assert_eq!(table.len(), 2);
    assert_eq!(table.get(0).unwrap().name, "wl_display");
    assert_eq!(table.get(1).unwrap().max_version, 1);
    assert!(table.get(2).is_none());
}

#[test]
fn an_empty_table_is_valid() {
    let table = InterfaceTable::new(Vec::new()).unwrap();
    assert_eq!(table.len(), 0);
    assert!(table.get(0).is_none());
    assert!(table.request_signature(0, 0).is_none());
    assert!(table.event_signature(0, 0).is_none());
}

#[test]
fn an_interface_without_a_version_is_refused() {
    let mut all = sample();
    all[1].max_version = 0;
    assert!(InterfaceTable::new(all).is_none());
}

#[test]
fn a_request_that_creates_an_unknown_interface_is_refused() {
    let mut all = sample();
    all[0].requests.push(request(vec![ArgKind::Uint], Some(2)));
    assert!(InterfaceTable::new(all).is_none());
    let mut all = sample();
    all[0].requests.push(request(vec![ArgKind::Uint], Some(usize::MAX)));
    assert!(InterfaceTable::new(all).is_none());
}

#[test]
fn a_request_may_create_an_object_of_its_own_interface() {
    let mut all = sample();
    all[1].requests.push(request(vec![], Some(1)));
    all[1].requests.push(request(vec![], Some(0)));
    assert!(InterfaceTable::new(all).is_some());
}

#[test]
fn signatures_are_found_by_interface_and_opcode() {
    let table = InterfaceTable::new(sample()).unwrap();
    let sync = table.request_signature(0, 0).unwrap();
    assert!(sync.args.is_empty());
    assert_eq!(sync.creates, Some(1));
    let error = table.event_signature(0, 0).unwrap();
    assert_eq!(error.args, vec![ArgKind::Object, ArgKind::Uint, ArgKind::Str]);
    let done = table.event_signature(1, 0).unwrap();
    assert_eq!(done.args, vec![ArgKind::Uint]);
}

#[test]
fn an_opcode_or_interface_out_of_range_has_no_signature() {
    let table = InterfaceTable::new(sample()).unwrap();
    assert!(table.request_signature(0, 1).is_none());
    assert!(table.request_signature(1, 0).is_none());
    assert!(table.request_signature(2, 0).is_none());
    assert!(table.event_signature(0, 1).is_none());
    assert!(table.event_signature(1, 1).is_none());
    assert!(table.event_signature(7, 0).is_none());
    assert!(table.event_signature(0, u32::MAX).is_none());
}
