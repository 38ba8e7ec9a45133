use ntpuvpn_rs::addr::{Ipv4Address, Ipv4Prefix, MacAddress};
use ntpuvpn_rs::controller::StartupError;
use ntpuvpn_rs::interface::NetworkInterface;
use ntpuvpn_rs::packet::{Link, PacketError};
use ntpuvpn_rs::route::{OpOutcome, Route, RouteOp, RouteTable};
use ntpuvpn_rs::reroute_server::{Action, Event, Phase, RerouteServer};

const PHYSICAL_MAC: [u8; 6] = [0x02, 0x11, 0x22, 0x33, 0x44, 0x55];
const GATEWAY_MAC: [u8; 6] = [0xaa, 0xbb, 0xcc, 0xdd, 0xee, 0xff];
const CAPTURE_INDEX: u32 = 12;

fn route(dest: [u8; 4], prefix_len: u8, ifindex: u32) -> Route {
    Route {
        destination: Ipv4Address::new(dest[0], dest[1], dest[2], dest[3]),
        prefix_len,
        gateway: None,
        ifindex,
        metric: None,
    }
}

fn original_default() -> Route {
    Route {
        destination: Ipv4Address::new(0, 0, 0, 0),
        prefix_len: 0,
        gateway: Some(Ipv4Address::new(192, 168, 1, 1)),
        ifindex: 2,
        metric: Some(100),
    }
}

fn physical() -> NetworkInterface {
    NetworkInterface {
        name: "eth0".to_string(),
        index: 2,
        mac: Some(MacAddress { octets: PHYSICAL_MAC }),
        is_up: true,
        is_loopback: false,
        addresses: vec![Ipv4Address::new(192, 168, 1, 20)],
    }
}

fn tunnel() -> NetworkInterface {
    NetworkInterface {
        name: "utun3".to_string(),
        index: 7,
        mac: None,
        is_up: true,
        is_loopback: false,
        addresses: vec![Ipv4Address::new(10, 8, 0, 2)],
    }
}

fn vpn_prefix() -> Ipv4Prefix {
    Ipv4Prefix { network: Ipv4Address::new(10, 0, 0, 0), mask: Ipv4Address::new(255, 0, 0, 0) }
}

fn home_table() -> RouteTable {
    let mut table = RouteTable::new();
    table.add(route([192, 168, 1, 0], 24, 2));
    table.add(original_default());
    table
}

fn entries(table: &RouteTable) -> Vec<Route> {
    let mut all: Vec<Route> = (0..table.len()).map(|i| table.get(i).unwrap()).collect();
    all.sort_by_key(|r| (r.destination.bits, r.prefix_len, r.ifindex));
    all
}

fn packet_to(destination: [u8; 4], len: usize) -> Vec<u8> {
    let mut bytes = vec![0x5au8; len];
    bytes[0] = 0x45;
    bytes[16..20].copy_from_slice(&destination);
    bytes
}

fn start(table: &mut RouteTable) -> RerouteServer {
    let mut server =
        RerouteServer::new(physical(), tunnel(), table.default_route(), CAPTURE_INDEX, vpn_prefix())
            .unwrap();
    let mut op = server.next_route_op().unwrap();
    loop {
        let outcome = table.apply(&op);
        match server.run(Event::RouteAnswer(outcome)) {
            Action::Route(next) => op = next,
            Action::Receive { dropped: None } => break,
            other => panic!("unexpected action during startup: {:?}", other),
        }
    }
    assert_eq!(server.phase(), Phase::Running);
    server
}

fn stop(server: &mut RerouteServer, table: &mut RouteTable) {
    match server.run(Event::StopRequested) {
        Action::Teardown { ops, error } => {
            assert_eq!(error, None);
            for op in &ops {
                table.apply(op);
            }
        }
        other => panic!("unexpected action on stop: {:?}", other),
    }
    assert_eq!(server.phase(), Phase::Stopping);
    assert_eq!(server.run(Event::TeardownDone), Action::Halt);
    assert_eq!(server.phase(), Phase::Stopped);
}

#[test]
fn new_server_hands_out_the_takeover() {
    let server =
        RerouteServer::new(physical(), tunnel(), Some(original_default()), CAPTURE_INDEX, vpn_prefix())
            .unwrap();
    assert_eq!(server.phase(), Phase::Starting);
    assert_eq!(server.next_route_op(), Some(RouteOp::Delete(original_default())));
    assert_eq!(server.original_default_route(), Some(original_default()));
    assert_eq!(server.installed_routes(), Vec::<Route>::new());
}

#[test]
fn new_server_refuses_gapped_mask() {
    let prefix = Ipv4Prefix {
        network: Ipv4Address::new(10, 0, 0, 0),
        mask: Ipv4Address::new(255, 0, 0, 255),
    };
    let refused = RerouteServer::new(physical(), tunnel(), None, CAPTURE_INDEX, prefix);
    assert_eq!(refused.err(), Some(StartupError::RouteInstallFailed));
}

#[test]
fn startup_walks_the_plan_in_order() {
    let mut server =
        RerouteServer::new(physical(), tunnel(), Some(original_default()), CAPTURE_INDEX, vpn_prefix())
            .unwrap();
    assert_eq!(
        server.run(Event::RouteAnswer(OpOutcome::Done)),
        Action::Route(RouteOp::Add(route([0, 0, 0, 0], 0, CAPTURE_INDEX)))
    );
    assert_eq!(server.phase(), Phase::Starting);
    assert_eq!(
        server.run(Event::RouteAnswer(OpOutcome::Done)),
        Action::Route(RouteOp::Add(route([10, 0, 0, 0], 8, 7)))
    );
    assert_eq!(server.installed_routes(), vec![route([0, 0, 0, 0], 0, CAPTURE_INDEX)]);
    assert_eq!(server.next_route_op(), Some(RouteOp::Add(route([10, 0, 0, 0], 8, 7))));
    assert_eq!(
        server.run(Event::RouteAnswer(OpOutcome::AlreadyExists)),
        Action::Receive { dropped: None }
    );
    assert_eq!(server.phase(), Phase::Running);
    assert_eq!(server.next_route_op(), None);
    assert_eq!(server.installed_routes(), vec![route([0, 0, 0, 0], 0, CAPTURE_INDEX)]);
}

#[test]
fn packets_are_ignored_while_starting() {
    let mut server =
        RerouteServer::new(physical(), tunnel(), None, CAPTURE_INDEX, vpn_prefix()).unwrap();
    assert_eq!(server.run(Event::Packet(packet_to([10, 1, 2, 3], 40))), Action::Nothing);
    assert_eq!(server.run(Event::Resolved(None)), Action::Nothing);
    assert_eq!(server.run(Event::TeardownDone), Action::Nothing);
    assert_eq!(server.phase(), Phase::Starting);
    assert_eq!(server.next_route_op(), Some(RouteOp::Add(route([0, 0, 0, 0], 0, CAPTURE_INDEX))));
}

#[test]
fn failed_install_aborts_and_unwinds() {
    let mut table = home_table();
    let before = entries(&table);
    let mut server =
        RerouteServer::new(physical(), tunnel(), table.default_route(), CAPTURE_INDEX, vpn_prefix())
            .unwrap();
    let first = server.next_route_op().unwrap();
    let outcome = table.apply(&first);
    let second = match server.run(Event::RouteAnswer(outcome)) {
        Action::Route(op) => op,
        other => panic!("unexpected action: {:?}", other),
    };
    let outcome = table.apply(&second);
    assert_eq!(outcome, OpOutcome::Done);
    assert!(matches!(server.run(Event::RouteAnswer(outcome)), Action::Route(_)));
    match server.run(Event::RouteAnswer(OpOutcome::Failed)) {
        Action::Teardown { ops, error } => {
            assert_eq!(error, Some(StartupError::RouteInstallFailed));
            assert_eq!(
                ops,
                vec![
                    RouteOp::Delete(route([0, 0, 0, 0], 0, CAPTURE_INDEX)),
                    RouteOp::Add(original_default()),
                ]
            );
            for op in &ops {
                table.apply(op);
            }
        }
        other => panic!("unexpected action: {:?}", other),
    }
    assert_eq!(server.phase(), Phase::Stopping);
    assert_eq!(entries(&table), before);
}

#[test]
fn failed_delete_of_the_original_aborts() {
    let mut server =
        RerouteServer::new(physical(), tunnel(), Some(original_default()), CAPTURE_INDEX, vpn_prefix())
            .unwrap();
    assert_eq!(
        server.run(Event::RouteAnswer(OpOutcome::NotFound)),
        Action::Teardown {
            ops: vec![RouteOp::Add(original_default())],
            error: Some(StartupError::RouteInstallFailed)
        }
    );
    assert_eq!(server.phase(), Phase::Stopping);
}

#[test]
fn vpn_packet_is_forwarded_on_the_tunnel() {
    let mut table = home_table();
    let mut server = start(&mut table);
    let packet = packet_to([10, 1, 2, 3], 40);
    assert_eq!(
        server.run(Event::Packet(packet.clone())),
        Action::Resolve { link: Link::Tunnel, destination: Ipv4Address::new(10, 1, 2, 3) }
    );
    let mut expected = GATEWAY_MAC.to_vec();
    expected.extend_from_slice(&[0u8; 6]);
    expected.extend_from_slice(&[0x08, 0x00]);
    expected.extend_from_slice(&packet);
    assert_eq!(
        server.run(Event::Resolved(Some(MacAddress { octets: GATEWAY_MAC }))),
        Action::Transmit { link: Link::Tunnel, frame: expected }
    );
    assert_eq!(server.run(Event::Transmitted(true)), Action::Receive { dropped: None });
}

#[test]
fn other_packet_is_forwarded_on_the_physical_link() {
    let mut table = home_table();
    let mut server = start(&mut table);
    let packet = packet_to([8, 8, 8, 8], 84);
    assert_eq!(
        server.run(Event::Packet(packet.clone())),
        Action::Resolve { link: Link::Physical, destination: Ipv4Address::new(8, 8, 8, 8) }
    );
    let mut expected = GATEWAY_MAC.to_vec();
    expected.extend_from_slice(&PHYSICAL_MAC);
    expected.extend_from_slice(&[0x08, 0x00]);
    expected.extend_from_slice(&packet);
    assert_eq!(
        server.run(Event::Resolved(Some(MacAddress { octets: GATEWAY_MAC }))),
        Action::Transmit { link: Link::Physical, frame: expected }
    );
}

#[test]
fn short_packets_are_dropped_silently() {
    let mut table = home_table();
    let mut server = start(&mut table);
    for len in [0usize, 1, 19] {
        assert_eq!(
            server.run(Event::Packet(vec![0x45u8; len])),
            Action::Receive { dropped: None }
        );
        assert_eq!(server.run(Event::Resolved(Some(MacAddress::zero()))), Action::Nothing);
        assert_eq!(server.phase(), Phase::Running);
    }
    assert!(matches!(
        server.run(Event::Packet(packet_to([8, 8, 8, 8], 20))),
        Action::Resolve { .. }
    ));
}

#[test]
fn oversized_packet_is_dropped() {
    let mut table = home_table();
    let mut server = start(&mut table);
    assert_eq!(
        server.run(Event::Packet(packet_to([8, 8, 8, 8], 1501))),
        Action::Receive { dropped: Some(PacketError::TooLong) }
    );
    assert!(matches!(
        server.run(Event::Packet(packet_to([8, 8, 8, 8], 1500))),
        Action::Resolve { link: Link::Physical, .. }
    ));
}

#[test]
fn resolver_timeout_does_not_stop_the_next_packet() {
    let mut table = home_table();
    let mut server = start(&mut table);
    assert!(matches!(
        server.run(Event::Packet(packet_to([8, 8, 8, 8], 60))),
        Action::Resolve { link: Link::Physical, .. }
    ));
    assert_eq!(
        server.run(Event::Resolved(None)),
        Action::Receive { dropped: Some(PacketError::ResolutionTimeout) }
    );
    assert_eq!(server.phase(), Phase::Running);

    let next = packet_to([10, 9, 8, 7], 60);
    assert_eq!(
        server.run(Event::Packet(next.clone())),
        Action::Resolve { link: Link::Tunnel, destination: Ipv4Address::new(10, 9, 8, 7) }
    );
    match server.run(Event::Resolved(Some(MacAddress { octets: GATEWAY_MAC }))) {
        Action::Transmit { link, frame } => {
            assert_eq!(link, Link::Tunnel);
            assert_eq!(&frame[14..], &next[..]);
        }
        other => panic!("unexpected action: {:?}", other),
    }
}

#[test]
fn transmit_failure_is_contained() {
    let mut table = home_table();
    let mut server = start(&mut table);
    server.run(Event::Packet(packet_to([8, 8, 8, 8], 60)));
    server.run(Event::Resolved(Some(MacAddress { octets: GATEWAY_MAC })));
    assert_eq!(
        server.run(Event::Transmitted(false)),
        Action::Receive { dropped: Some(PacketError::TransmitFailed) }
    );
    assert_eq!(server.phase(), Phase::Running);
    assert!(matches!(
        server.run(Event::Packet(packet_to([8, 8, 4, 4], 60))),
        Action::Resolve { link: Link::Physical, .. }
    ));
}

#[test]
fn one_packet_at_a_time() {
    let mut table = home_table();
    let mut server = start(&mut table);
    server.run(Event::Packet(packet_to([8, 8, 8, 8], 60)));
    assert_eq!(server.run(Event::Packet(packet_to([10, 1, 1, 1], 60))), Action::Nothing);
    assert_eq!(server.run(Event::Transmitted(true)), Action::Nothing);
    match server.run(Event::Resolved(Some(MacAddress { octets: GATEWAY_MAC }))) {
        Action::Transmit { link, frame } => {
            assert_eq!(link, Link::Physical);
            assert_eq!(&frame[30..34], &[8, 8, 8, 8]);
        }
        other => panic!("unexpected action: {:?}", other),
    }
    assert_eq!(server.run(Event::Resolved(None)), Action::Nothing);
}

#[test]
fn full_cycle_restores_the_routes() {
    let mut table = home_table();
    let before = entries(&table);
    let mut server = start(&mut table);
    assert_eq!(table.default_route(), Some(route([0, 0, 0, 0], 0, CAPTURE_INDEX)));
    assert!(table.contains(&route([10, 0, 0, 0], 8, 7)));
    assert_eq!(
        server.installed_routes(),
        vec![route([0, 0, 0, 0], 0, CAPTURE_INDEX), route([10, 0, 0, 0], 8, 7)]
    );
    stop(&mut server, &mut table);
    assert_eq!(entries(&table), before);
    assert_eq!(table.default_route(), Some(original_default()));
}

#[test]
fn full_cycle_without_default_route() {
    let mut table = RouteTable::new();
    table.add(route([192, 168, 1, 0], 24, 2));
    let before = entries(&table);
    let mut server = start(&mut table);
    assert_eq!(server.original_default_route(), None);
    stop(&mut server, &mut table);
    assert_eq!(entries(&table), before);
    assert_eq!(table.default_route(), None);
}

#[test]
fn stop_twice_is_a_no_op() {
    let mut table = home_table();
    let mut server = start(&mut table);
    let teardown = server.run(Event::StopRequested);
    if let Action::Teardown { ops, .. } = &teardown {
        for op in ops {
            table.apply(op);
        }
    } else {
        panic!("unexpected action: {:?}", teardown);
    }
    let once = entries(&table);
    assert_eq!(server.run(Event::StopRequested), Action::Nothing);
    assert_eq!(server.phase(), Phase::Stopping);
    assert_eq!(server.run(Event::TeardownDone), Action::Halt);
    assert_eq!(server.run(Event::StopRequested), Action::Nothing);
    assert_eq!(server.run(Event::TeardownDone), Action::Nothing);
    assert_eq!(server.phase(), Phase::Stopped);
    assert_eq!(entries(&table), once);
    assert_eq!(server.installed_routes(), Vec::<Route>::new());
    assert_eq!(server.original_default_route(), None);
}

#[test]
fn stop_drops_the_packet_in_hand() {
    let mut table = home_table();
    let mut server = start(&mut table);
    server.run(Event::Packet(packet_to([8, 8, 8, 8], 60)));
    assert!(matches!(server.run(Event::StopRequested), Action::Teardown { error: None, .. }));
    assert_eq!(
        server.run(Event::Resolved(Some(MacAddress { octets: GATEWAY_MAC }))),
        Action::Nothing
    );
    assert_eq!(server.run(Event::Packet(packet_to([8, 8, 8, 8], 60))), Action::Nothing);
}

#[test]
fn stop_while_starting_unwinds_what_was_installed() {
    let mut table = home_table();
    let before = entries(&table);
    let mut server =
        RerouteServer::new(physical(), tunnel(), table.default_route(), CAPTURE_INDEX, vpn_prefix())
            .unwrap();
    let first = server.next_route_op().unwrap();
    let outcome = table.apply(&first);
    let second = match server.run(Event::RouteAnswer(outcome)) {
        Action::Route(op) => op,
        other => panic!("unexpected action: {:?}", other),
    };
    let outcome = table.apply(&second);
    server.run(Event::RouteAnswer(outcome));
    match server.run(Event::StopRequested) {
        Action::Teardown { ops, error } => {
            assert_eq!(error, None);
            for op in &ops {
                table.apply(op);
            }
        }
        other => panic!("unexpected action: {:?}", other),
    }
    assert_eq!(entries(&table), before);
}
