//! End-to-end driver tests against the register model: bring-up, status
//! decode, MAC address handling and the error paths of every bring-up step.

use igb::mac::{Mac, MacAddr};
use igb::nic::{MdioMode, Nic};
use igb::{DriverError, Igb, Kernel, Speed};

struct NoSleep;

impl Kernel for NoSleep {
    fn sleep(_ms: u64) {}
}

const STATUS: u32 = 0x8;
const EIMC: u32 = 0x1528;
const RCTL: u32 = 0x100;
const TCTL: u32 = 0x400;
const RAL0: u32 = 0x5400;
const RAH0: u32 = 0x5404;

#[test]
fn bring_up_completes_and_reports_link() {
    let nic = Nic::new();
    let mut igb = Igb::new(nic);
    assert!(!igb.status().link_up);
    let r = igb.open::<NoSleep>();
    assert_eq!(r, Ok(()));
    // The device raises link-up, full duplex, 1000 Mb/s in its status register.
    igb.mac.dev.write_reg(STATUS, 0x2 | 0x1 | 0x80);
    let st = igb.status();
    assert!(st.link_up);
    assert!(st.full_duplex);
    assert_eq!(st.speed, Speed::Mb1000);
    assert!(!st.phy_reset_asserted);
}

#[test]
fn bring_up_enables_rx_tx() {
    let mut igb = Igb::new(Nic::new());
    igb.open::<NoSleep>().unwrap();
    assert_eq!(igb.mac.dev.read_reg(RCTL) & 0x2, 0x2);
    assert_eq!(igb.mac.dev.read_reg(TCTL) & 0x2, 0x2);
}

#[test]
fn bring_up_reset_timeout() {
    let mut nic = Nic::new();
    nic.reset_completes = false;
    let mut igb = Igb::new(nic);
    assert_eq!(igb.open::<NoSleep>(), Err(DriverError::ResetTimeout));
}

#[test]
fn bring_up_phy_access_error() {
    let mut nic = Nic::new();
    nic.mdio = MdioMode::Fault;
    let mut igb = Igb::new(nic);
    assert_eq!(igb.open::<NoSleep>(), Err(DriverError::PhyAccessError));
}

#[test]
fn bring_up_silent_mdio_is_unresponsive() {
    let mut nic = Nic::new();
    nic.mdio = MdioMode::Silent;
    let mut igb = Igb::new(nic);
    assert_eq!(igb.open::<NoSleep>(), Err(DriverError::HardwareUnresponsive));
}

#[test]
fn bring_up_no_phy_link() {
    let mut nic = Nic::new();
    nic.autoneg_completes = false;
    let mut igb = Igb::new(nic);
    assert_eq!(igb.open::<NoSleep>(), Err(DriverError::NoPhyLink));
}

#[test]
fn bring_up_negotiation_already_complete() {
    let mut nic = Nic::new();
    nic.autoneg_completes = false;
    // The PHY already reports negotiation complete.
    nic.set_phy_reg(1, 0x0020);
    let mut igb = Igb::new(nic);
    assert_eq!(igb.open::<NoSleep>(), Ok(()));
}

#[test]
fn status_speed_decode() {
    let mut igb = Igb::new(Nic::new());
    igb.mac.dev.write_reg(STATUS, 0x40);
    assert_eq!(igb.status().speed, Speed::Mb100);
    igb.mac.dev.write_reg(STATUS, 0x00);
    assert_eq!(igb.status().speed, Speed::Mb10);
    // The reserved speed encoding falls back to 10 Mb/s.
    igb.mac.dev.write_reg(STATUS, 0xC0);
    assert_eq!(igb.status().speed, Speed::Mb10);
}

#[test]
fn mac_addr_reads_filter_registers() {
    let mut igb = Igb::new(Nic::new());
    igb.mac.dev.write_reg(RAL0, 0x0403_0201);
    igb.mac.dev.write_reg(RAH0, 0x0000_0605);
    let mac = igb.mac_addr();
    assert_eq!(mac.bytes(), [1, 2, 3, 4, 5, 6]);
}

#[test]
fn mac_addr_from_u64_is_little_endian() {
    let mac = MacAddr::from_u64(0x0000_0605_0403_0201);
    assert_eq!(mac.bytes(), [1, 2, 3, 4, 5, 6]);
}

#[test]
fn disable_irq_is_idempotent() {
    let mut mac = Mac::new(Nic::new());
    mac.disable_irq();
    assert_eq!(mac.dev.read_reg(EIMC), u32::MAX);
    let first = mac.dev.regs.clone();
    mac.disable_irq();
    assert_eq!(first, mac.dev.regs);
}

#[test]
fn mdic_round_trip() {
    let mut mac = Mac::new(Nic::new());
    assert_eq!(mac.mdic_write(1, 5, 0x1234), Ok(()));
    assert_eq!(mac.mdic_read(1, 5), Ok(0x1234));
}

#[test]
fn mdic_fault_reports_phy_access_error() {
    let mut nic = Nic::new();
    nic.mdio = MdioMode::Fault;
    let mut mac = Mac::new(nic);
    assert_eq!(mac.mdic_read(1, 0), Err(DriverError::PhyAccessError));
    assert_eq!(mac.mdic_write(1, 0, 7), Err(DriverError::PhyAccessError));
}

#[test]
fn mdic_silent_reports_unresponsive() {
    let mut nic = Nic::new();
    nic.mdio = MdioMode::Silent;
    let mut mac = Mac::new(nic);
    assert_eq!(mac.mdic_read(1, 0), Err(DriverError::HardwareUnresponsive));
}

#[test]
fn check_vid_did_matches_supported_devices() {
    assert!(Igb::check_vid_did(0x8086, 0x10C9));
    assert!(Igb::check_vid_did(0x8086, 0x1533));
    assert!(!Igb::check_vid_did(0x8086, 0x1234));
    assert!(!Igb::check_vid_did(0x1AF4, 0x10C9));
}

#[test]
fn queue_ops_without_queue() {
    let mut igb = Igb::new(Nic::new());
    assert!(igb.receive(0).is_none());
    let pkt = igb::pkt::Pkt::new_tx(vec![0u8; 64]);
    assert_eq!(igb.transmit(0, pkt), Err(DriverError::QueueNotInitialized));
}

#[test]
fn alloc_queue_is_idempotent() {
    let mut igb = Igb::new(Nic::new());
    assert_eq!(igb.alloc_new_qeueu(0, 8, 2048), Ok(()));
    assert_eq!(igb.alloc_new_qeueu(0, 8, 2048), Ok(()));
    let pkt = igb::pkt::Pkt::new_tx(vec![0u8; 64]);
    assert_eq!(igb.transmit(0, pkt), Ok(1));
}

#[test]
fn alloc_queue_unresponsive_enable() {
    let mut nic = Nic::new();
    nic.queue_enables = false;
    let mut igb = Igb::new(nic);
    assert_eq!(
        igb.alloc_new_qeueu(0, 8, 2048),
        Err(DriverError::HardwareUnresponsive)
    );
}

#[test]
fn close_is_idempotent() {
    let mut igb = Igb::new(Nic::new());
    igb.open::<NoSleep>().unwrap();
    igb.alloc_new_qeueu(0, 8, 2048).unwrap();
    igb.alloc_new_qeueu(3, 8, 2048).unwrap();
    igb.close();
    let regs_after_first = igb.mac.dev.regs.clone();
    igb.close();
    assert_eq!(regs_after_first, igb.mac.dev.regs);
    assert!(igb.receive(0).is_none());
    let pkt = igb::pkt::Pkt::new_tx(vec![0u8; 64]);
    assert_eq!(igb.transmit(3, pkt), Err(DriverError::QueueNotInitialized));
}

#[test]
fn igb_receive_end_to_end() {
    let mut igb = Igb::new(Nic::new());
    igb.open::<NoSleep>().unwrap();
    igb.alloc_new_qeueu(0, 4, 1024).unwrap();
    // Nothing delivered yet; the call posts a fresh buffer.
    assert!(igb.receive(0).is_none());
    // The device consumes the posted slot and writes back descriptor-done.
    igb.rx_rings[0]
        .as_mut()
        .unwrap()
        .base
        .device_write_back(&mut igb.mac.dev, igb::ring::DescRaw { lo: 0, hi: 0x1 });
    let pkt = igb.receive(0).unwrap();
    assert_eq!(pkt.buff.len(), 1024);
}

#[test]
fn igb_transmit_ring_full() {
    let mut igb = Igb::new(Nic::new());
    igb.open::<NoSleep>().unwrap();
    igb.alloc_new_qeueu(0, 2, 1024).unwrap();
    let first = igb::pkt::Pkt::new_tx(vec![0u8; 60]);
    assert_eq!(igb.transmit(0, first), Ok(1));
    let second = igb::pkt::Pkt::new_tx(vec![0u8; 60]);
    assert_eq!(igb.transmit(0, second), Err(DriverError::RingFull));
}
