use xbtunnel::frame::Frame;
use xbtunnel::frame::HwAddr;
use xbtunnel::poll::Polled;
use xbtunnel::relay::host_inbound;
use xbtunnel::relay::host_outbound;
use xbtunnel::relay::host_outbound_turn;
use xbtunnel::relay::host_table_turn;
use xbtunnel::relay::Inbound;
use xbtunnel::relay::OutboundTurn;
use xbtunnel::table::AddressTable;
use xbtunnel::table::PeerAddr;
use xbtunnel::table::PeerIp;
use xbtunnel::table::Route;
use xbtunnel::tunnel::encode_tunnel_payload;

fn peer(last: u8) -> PeerAddr {
    PeerAddr { ip: PeerIp::V4(0x0a00_0000 + last as u32), port: 8602 }
}

fn hw(b: u8) -> HwAddr {
    HwAddr { octets: [b; 6] }
}

fn frame(source: HwAddr, dest: HwAddr, payload: Vec<u8>) -> Frame {
    Frame { source_hw_addr: source, dest_hw_addr: dest, payload }
}

fn datagram(source: HwAddr, dest: HwAddr, fill: u8) -> Vec<u8> {
    encode_tunnel_payload(&frame(source, dest, vec![fill; 40]))
}

#[test]
fn host_learns_a_new_peer_from_its_first_datagram() {
    let mut table = AddressTable::new();
    let payload = vec![0x50u8; 64];
    let from_a = encode_tunnel_payload(&frame(hw(0xaa), HwAddr::broadcast(), payload.clone()));
    let got = host_inbound(&mut table, &from_a, peer(1));
    assert_eq!(table.len(), 1);
    assert_eq!(table.lookup(&hw(0xaa)), Some(peer(1)));
    assert_eq!(
        got,
        Inbound {
            inject: Some(frame(hw(0xaa), HwAddr::broadcast(), payload)),
            table_update: Some(Route { hw: hw(0xaa), addr: peer(1) }),
            exclude: Some(hw(0xaa)),
        }
    );
}

#[test]
fn host_fans_a_broadcast_out_to_both_peers() {
    let mut table = AddressTable::new();
    table.learn(hw(0xaa), peer(1));
    table.learn(hw(0xbb), peer(2));
    let captured = frame(hw(0x11), HwAddr::broadcast(), vec![3u8; 50]);
    let out = host_outbound(&table, &captured);
    assert_eq!(out.payload, encode_tunnel_payload(&captured));
    let mut routes = out.routes;
    routes.sort_by_key(|r| r.hw.key());
    assert_eq!(
        routes,
        vec![Route { hw: hw(0xaa), addr: peer(1) }, Route { hw: hw(0xbb), addr: peer(2) }]
    );
}

#[test]
fn host_broadcast_sends_once_per_entry() {
    let mut table = AddressTable::new();
    let captured = frame(hw(0x11), HwAddr::broadcast(), vec![1u8; 40]);
    assert_eq!(host_outbound(&table, &captured).routes.len(), 0);
    for n in 1..=20u8 {
        table.learn(hw(n), peer(n));
        let out = host_outbound(&table, &captured);
        assert_eq!(out.routes.len(), n as usize);
        for k in 1..=n {
            let hits = out.routes.iter().filter(|r| r.hw == hw(k) && r.addr == peer(k)).count();
            assert_eq!(hits, 1);
        }
    }
}

#[test]
fn host_drops_a_frame_for_an_unknown_destination() {
    let mut table = AddressTable::new();
    table.learn(hw(0xaa), peer(1));
    let captured = frame(hw(0x11), hw(0xcc), vec![1u8; 40]);
    let out = host_outbound(&table, &captured);
    assert_eq!(out.routes, Vec::<Route>::new());
    assert_eq!(out.payload, encode_tunnel_payload(&captured));
}

#[test]
fn host_sends_a_unicast_frame_to_its_one_peer() {
    let mut table = AddressTable::new();
    table.learn(hw(0xaa), peer(1));
    table.learn(hw(0xbb), peer(2));
    let captured = frame(hw(0x11), hw(0xbb), vec![1u8; 40]);
    let out = host_outbound(&table, &captured);
    assert_eq!(out.routes, vec![Route { hw: hw(0xbb), addr: peer(2) }]);
}

#[test]
fn host_skips_a_malformed_datagram() {
    let mut table = AddressTable::new();
    table.learn(hw(0xaa), peer(1));
    let got = host_inbound(&mut table, &[0u8; 49], peer(7));
    assert_eq!(got, Inbound { inject: None, table_update: None, exclude: None });
    assert_eq!(table.len(), 1);
    assert_eq!(table.lookup(&hw(0xaa)), Some(peer(1)));
}

#[test]
fn host_keeps_the_most_recent_address_of_each_peer() {
    let mut table = AddressTable::new();
    let first = host_inbound(&mut table, &datagram(hw(0xaa), hw(0x11), 1), peer(1));
    assert_eq!(first.exclude, Some(hw(0xaa)));
    let second = host_inbound(&mut table, &datagram(hw(0xbb), hw(0x11), 2), peer(2));
    assert_eq!(second.exclude, Some(hw(0xbb)));
    let again = host_inbound(&mut table, &datagram(hw(0xaa), hw(0x11), 3), peer(1));
    assert_eq!(again.exclude, None);
    assert_eq!(again.table_update, None);
    assert_eq!(again.inject, Some(frame(hw(0xaa), hw(0x11), vec![3u8; 40])));
    let moved = host_inbound(&mut table, &datagram(hw(0xaa), hw(0x11), 4), peer(3));
    assert_eq!(moved.exclude, None);
    assert_eq!(moved.table_update, Some(Route { hw: hw(0xaa), addr: peer(3) }));
    assert_eq!(table.len(), 2);
    assert_eq!(table.lookup(&hw(0xaa)), Some(peer(3)));
    assert_eq!(table.lookup(&hw(0xbb)), Some(peer(2)));
}

#[test]
fn host_outbound_loop_turns() {
    let mut table = AddressTable::new();
    assert!(host_table_turn(&mut table, Polled::Empty));
    assert_eq!(table.len(), 0);
    assert!(host_table_turn(&mut table, Polled::Item(Route { hw: hw(0xaa), addr: peer(1) })));
    assert_eq!(table.lookup(&hw(0xaa)), Some(peer(1)));
    assert!(!host_table_turn(&mut table, Polled::Disconnected));
    assert_eq!(table.len(), 1);

    assert_eq!(host_outbound_turn(&table, Polled::Empty), OutboundTurn::Idle);
    assert_eq!(host_outbound_turn(&table, Polled::Disconnected), OutboundTurn::Stop);
    let captured = frame(hw(0x11), hw(0xaa), vec![1u8; 40]);
    let stray = frame(hw(0x11), hw(0xcc), vec![1u8; 40]);
    assert_eq!(host_outbound_turn(&table, Polled::Item(stray)), OutboundTurn::Drop);
    let to_all = frame(hw(0x11), HwAddr::broadcast(), vec![1u8; 40]);
    let nobody = AddressTable::new();
    match host_outbound_turn(&nobody, Polled::Item(to_all.clone())) {
        OutboundTurn::Send(out) => {
            assert_eq!(out.routes, Vec::<Route>::new());
            assert_eq!(out.payload, encode_tunnel_payload(&to_all));
        }
        other => panic!("{:?}", other),
    }
    match host_outbound_turn(&table, Polled::Item(captured.clone())) {
        OutboundTurn::Send(out) => {
            assert_eq!(out, host_outbound(&table, &captured));
            assert_eq!(out.routes.len(), 1);
        }
        other => panic!("{:?}", other),
    }
}
