use xbtunnel::frame::HwAddr;
use xbtunnel::table::AddressTable;
use xbtunnel::table::Learned;
use xbtunnel::table::PeerAddr;
use xbtunnel::table::PeerIp;
use xbtunnel::table::Route;

fn peer(last: u8, port: u16) -> PeerAddr {
    PeerAddr { ip: PeerIp::V4(0xc0a8_0000 + last as u32), port }
}

fn hw(b: u8) -> HwAddr {
    HwAddr { octets: [b; 6] }
}

#[test]
fn table_starts_empty() {
    let table = AddressTable::new();
    assert_eq!(table.len(), 0);
    assert_eq!(table.lookup(&hw(0xaa)), None);
    assert_eq!(table.routes(), Vec::<Route>::new());
}

#[test]
fn table_learns_and_overwrites() {
    let mut table = AddressTable::new();
    assert_eq!(table.learn(hw(0xaa), peer(1, 5000)), Learned::New);
    assert_eq!(table.learn(hw(0xbb), peer(2, 5000)), Learned::New);
    assert_eq!(table.len(), 2);
    assert_eq!(table.lookup(&hw(0xaa)), Some(peer(1, 5000)));
    assert_eq!(table.lookup(&hw(0xbb)), Some(peer(2, 5000)));
    assert_eq!(table.learn(hw(0xaa), peer(1, 5000)), Learned::Known);
    assert_eq!(table.learn(hw(0xaa), peer(1, 5001)), Learned::Moved);
    assert_eq!(table.len(), 2);
    assert_eq!(table.lookup(&hw(0xaa)), Some(peer(1, 5001)));
    assert_eq!(table.lookup(&hw(0xbb)), Some(peer(2, 5000)));
    assert_eq!(table.lookup(&hw(0xcc)), None);
}

#[test]
fn table_tells_addresses_apart_by_every_octet() {
    let mut table = AddressTable::new();
    for i in 0..6 {
        let mut octets = [0u8; 6];
        octets[i] = 1;
        assert_eq!(table.learn(HwAddr { octets }, peer(i as u8, 1)), Learned::New);
    }
    assert_eq!(table.len(), 6);
    for i in 0..6 {
        let mut octets = [0u8; 6];
        octets[i] = 1;
        assert_eq!(table.lookup(&HwAddr { octets }), Some(peer(i as u8, 1)));
    }
    assert_eq!(table.lookup(&HwAddr { octets: [0; 6] }), None);
}

#[test]
fn table_routes_list_each_entry_once() {
    let mut table = AddressTable::new();
    table.learn(hw(1), peer(1, 1));
    table.learn(hw(2), peer(2, 2));
    table.learn(hw(3), PeerAddr { ip: PeerIp::V6(1), port: 3 });
    table.learn(hw(2), peer(9, 9));
    let mut routes = table.routes();
    routes.sort_by_key(|r| r.hw.key());
    assert_eq!(
        routes,
        vec![
            Route { hw: hw(1), addr: peer(1, 1) },
            Route { hw: hw(2), addr: peer(9, 9) },
            Route { hw: hw(3), addr: PeerAddr { ip: PeerIp::V6(1), port: 3 } },
        ]
    );
}
