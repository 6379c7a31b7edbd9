//! Tests for the collaborator-facing pieces: baud divisors, the MAC address
//! rendering, the mutex model and the USB-serial adapter decisions.

use igb::mac::MacAddr;
use igb::mutex::Mutex;
use igb::uart::get_ti_tf;
use igb::usb::{
    init_sequence, matches_adapter, select_bulk_endpoints, Ch341Req, EndpointInfo, EpDir, EpKind,
};

#[test]
fn test_mod() {
    let clock = 100_000_000;
    let bd_rate = 115200;
    let b16 = bd_rate * 16;
    let di = clock / b16;
    let df = clock % b16;
    let res = clock as f32 / b16 as f32;
    println!(
        "res = {res}, di = {di}, df={df},  df/b16 = {} , clock & (b16 -1)={}",
        df as f32 / b16 as f32,
        clock & (b16 - 1)
    );
    assert_eq!((54, 16), get_ti_tf(clock, bd_rate));
}

#[test]
fn divisor_of_exact_rate() {
    // 1_843_200 / (16 * 115200) is exactly 1 with no fraction.
    assert_eq!((1, 0), get_ti_tf(1_843_200, 115200));
}

#[test]
fn mac_addr_formats_bytes() {
    let mac = MacAddr::new([0x01, 0x02, 0x03, 0x04, 0x05, 0x06]);
    assert_eq!(mac.to_hex_string(), "01:02:03:04:05:06");
}

#[test]
fn mac_addr_formats_hex_digits() {
    let mac = MacAddr::new([0xDE, 0xAD, 0xBE, 0xEF, 0x0A, 0x99]);
    assert_eq!(mac.to_hex_string(), "de:ad:be:ef:0a:99");
}

#[test]
fn mutex_hands_value_through_guard() {
    let mut m: Mutex<u32> = Mutex::new(5);
    let mut g = m.lock();
    assert_eq!(g.data, 5);
    g.data = 9;
    m.unlock(g);
    let g2 = m.lock();
    assert_eq!(g2.data, 9);
    m.unlock(g2);
}

#[test]
fn adapter_request_codes() {
    assert_eq!(Ch341Req::CH341_CMD_R.code(), 0x95);
    assert_eq!(Ch341Req::CH341_CMD_W.code(), 0x9A);
    assert_eq!(Ch341Req::CH341_CMD_C1.code(), 0xA1);
    assert_eq!(Ch341Req::CH341_CMD_C2.code(), 0xA4);
    assert_eq!(Ch341Req::CH341_CMD_C3.code(), 0x5F);
}

#[test]
fn adapter_descriptor_match() {
    assert!(matches_adapter(0x1A86, 0x7523, true));
    assert!(!matches_adapter(0x1A86, 0x7523, false));
    assert!(!matches_adapter(0x1A86, 0x7524, true));
    assert!(!matches_adapter(0x046D, 0x7523, true));
}

#[test]
fn adapter_init_sequence_shape() {
    let seq = init_sequence();
    assert_eq!(seq.len(), 18);
    // Starts by reading the chip version.
    assert_eq!(seq[0].req, Ch341Req::CH341_CMD_C3);
    assert!(seq[0].read);
    // The line-setting writes in the middle.
    assert_eq!(seq[2].req, Ch341Req::CH341_CMD_W);
    assert_eq!(seq[2].value, 0x1312);
    assert_eq!(seq[2].index, 0xD982);
    // Ends with the final handshake command.
    assert_eq!(seq[17].req, Ch341Req::CH341_CMD_C2);
    assert_eq!(seq[17].value, 0x009F);
    assert!(!seq[17].read);
}

#[test]
fn adapter_selects_last_bulk_endpoints() {
    let eps = vec![
        EndpointInfo { kind: EpKind::Other, dir: EpDir::In, address: 1, max_packet_size: 8 },
        EndpointInfo { kind: EpKind::Bulk, dir: EpDir::In, address: 2, max_packet_size: 32 },
        EndpointInfo { kind: EpKind::Bulk, dir: EpDir::Out, address: 3, max_packet_size: 32 },
        EndpointInfo { kind: EpKind::Bulk, dir: EpDir::In, address: 4, max_packet_size: 64 },
    ];
    let (in_ep, out_ep) = select_bulk_endpoints(&eps);
    assert_eq!(in_ep, Some((4, 64)));
    assert_eq!(out_ep, Some(3));
    let none: Vec<EndpointInfo> = vec![];
    let (no_in, no_out) = select_bulk_endpoints(&none);
    assert!(no_in.is_none());
    assert!(no_out.is_none());
}
