use xbtunnel::filter::CaptureFilter;
use xbtunnel::frame::Frame;
use xbtunnel::frame::HwAddr;
use xbtunnel::lan::encode_lan_frame;

fn lan_bytes(source: [u8; 6]) -> Vec<u8> {
    encode_lan_frame(&Frame {
        source_hw_addr: HwAddr { octets: source },
        dest_hw_addr: HwAddr::broadcast(),
        payload: vec![0u8; 4],
    })
}

#[test]
fn filter_starts_empty_and_admits_everything() {
    let filter = CaptureFilter::new();
    assert_eq!(filter.expression(), "");
    assert!(filter.admits(&lan_bytes([0xaa; 6])));
    assert!(filter.admits(&[]));
    assert!(!filter.excludes(&HwAddr { octets: [0xaa; 6] }));
}

#[test]
fn filter_appends_one_clause_for_each_exclusion() {
    let mut filter = CaptureFilter::new();
    filter.exclude(HwAddr { octets: [0xaa; 6] });
    assert_eq!(filter.expression(), " && !(ether src AA:AA:AA:AA:AA:AA)");
    filter.exclude(HwAddr { octets: [0x00, 0x1b, 0x2c, 0x3d, 0x4e, 0x5f] });
    assert_eq!(
        filter.expression(),
        " && !(ether src AA:AA:AA:AA:AA:AA) && !(ether src 00:1B:2C:3D:4E:5F)"
    );
}

#[test]
fn filter_writes_every_hex_digit() {
    let mut filter = CaptureFilter::new();
    filter.exclude(HwAddr { octets: [0x01, 0x23, 0x45, 0x67, 0x89, 0xab] });
    filter.exclude(HwAddr { octets: [0xcd, 0xef, 0x10, 0x9a, 0xf0, 0x0f] });
    assert_eq!(
        filter.expression(),
        " && !(ether src 01:23:45:67:89:AB) && !(ether src CD:EF:10:9A:F0:0F)"
    );
}

#[test]
fn filter_exclusions_only_grow() {
    let mut filter = CaptureFilter::new();
    let mut seen = Vec::new();
    for b in [3u8, 1, 4, 1, 5, 9, 2, 6] {
        let hw = HwAddr { octets: [b, 0, 0, 0, 0, b] };
        filter.exclude(hw);
        seen.push(hw);
        for earlier in &seen {
            assert!(filter.excludes(earlier));
            assert!(!filter.admits(&lan_bytes(earlier.octets)));
        }
        assert!(filter.admits(&lan_bytes([7, 0, 0, 0, 0, 7])));
    }
    assert_eq!(filter.expression().len(), 8 * " && !(ether src 00:00:00:00:00:00)".len());
}

#[test]
fn filter_goes_by_the_ethernet_source() {
    let mut filter = CaptureFilter::new();
    filter.exclude(HwAddr { octets: [0xaa; 6] });
    let mut packet = vec![0u8; 12];
    packet[..6].copy_from_slice(&[0xaa; 6]);
    assert!(filter.admits(&packet));
    packet[6..12].copy_from_slice(&[0xaa; 6]);
    assert!(!filter.admits(&packet));
    assert!(filter.admits(&packet[..11]));
}
