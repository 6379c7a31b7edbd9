//! Ring bookkeeping tests: the capacity − 1 bound, the buffer lifecycle of
//! the receive ring, the transmit descriptor format and lazy reclamation.

use igb::nic::Nic;
use igb::pkt::{Direction, DmaPool, Pkt};
use igb::ring::{DescRaw, Ring};
use igb::rx::{AdvRxDescRead, AdvRxDescWB, RxRing};
use igb::tx::{TxAdvDescCmd, TxAdvDescType, TxDesc, TxDescWriteBack, TxRing};
use igb::DriverError;

// Queue 0 descriptor position registers.
const RDT0: u32 = 0xC018;
const RDH0: u32 = 0xC010;

#[test]
fn ring_holds_at_most_capacity_minus_one() {
    let mut nic = Nic::new();
    let mut pool = DmaPool::new();
    let mut ring = Ring::new(4, RDT0, RDH0, &mut pool).unwrap();
    ring.init_tail_head(&mut nic);
    let d = DescRaw { lo: 0x1000, hi: 0 };
    assert_eq!(ring.add_desc(&mut nic, d), Ok(0));
    assert_eq!(ring.add_desc(&mut nic, d), Ok(1));
    assert_eq!(ring.add_desc(&mut nic, d), Ok(2));
    // Capacity 4: the fourth post would advance the producer into the
    // consumer's slot and is rejected.
    assert_eq!(ring.add_desc(&mut nic, d), Err(DriverError::RingFull));
    assert_eq!(ring.get_tail(&nic), 3);
}

#[test]
fn ring_capacity_one_is_permanently_full() {
    let mut nic = Nic::new();
    let mut pool = DmaPool::new();
    let mut ring = Ring::new(1, RDT0, RDH0, &mut pool).unwrap();
    ring.init_tail_head(&mut nic);
    // A one-slot ring can never hold an outstanding descriptor.
    let d = DescRaw { lo: 1, hi: 0 };
    assert_eq!(ring.add_desc(&mut nic, d), Err(DriverError::RingFull));
    assert!(ring.get_available(&nic).is_none());
}

#[test]
fn ring_harvest_follows_device_head() {
    let mut nic = Nic::new();
    let mut pool = DmaPool::new();
    let mut ring = Ring::new(4, RDT0, RDH0, &mut pool).unwrap();
    ring.init_tail_head(&mut nic);
    // Nothing posted, nothing to harvest.
    assert!(ring.get_available(&nic).is_none());
    ring.add_desc(&mut nic, DescRaw { lo: 7, hi: 0 }).unwrap();
    // Posted but the device has not consumed it yet.
    assert!(ring.get_available(&nic).is_none());
    ring.device_write_back(&mut nic, DescRaw { lo: 7, hi: 0x9 });
    let (d, idx) = ring.get_available(&nic).unwrap();
    assert_eq!(idx, 0);
    assert_eq!(d.hi, 0x9);
    // Harvested; nothing further.
    assert!(ring.get_available(&nic).is_none());
}

#[test]
fn ring_wraps_around() {
    let mut nic = Nic::new();
    let mut pool = DmaPool::new();
    let mut ring = Ring::new(3, RDT0, RDH0, &mut pool).unwrap();
    ring.init_tail_head(&mut nic);
    let d = DescRaw { lo: 1, hi: 0 };
    assert_eq!(ring.add_desc(&mut nic, d), Ok(0));
    assert_eq!(ring.add_desc(&mut nic, d), Ok(1));
    ring.device_write_back(&mut nic, d);
    assert_eq!(ring.get_available(&nic).map(|p| p.1), Some(0));
    // Slot 0 is free again; posting wraps through slot 2 to slot 0.
    assert_eq!(ring.add_desc(&mut nic, d), Ok(2));
    ring.device_write_back(&mut nic, d);
    assert_eq!(ring.get_available(&nic).map(|p| p.1), Some(1));
    assert_eq!(ring.add_desc(&mut nic, d), Ok(0));
}

#[test]
fn desc_table_is_dma_visible() {
    let mut pool = DmaPool::new();
    let ring = Ring::new(8, RDT0, RDH0, &mut pool).unwrap();
    assert_eq!(ring.desc_table_size(), 8 * 16);
    assert_eq!(ring.desc_table_base() % 128, 0);
}

#[test]
fn rx_receive_cycles_slots() {
    let mut nic = Nic::new();
    let mut rx = RxRing::new(&mut nic, 0, 4, 2048).unwrap();
    // Nothing delivered yet: no packet out, but one buffer is posted.
    assert!(rx.receive(&mut nic).is_none());
    assert!(rx.mete_ls[0].is_some());
    // The device consumes slot 0 and writes back descriptor-done.
    rx.base.device_write_back(&mut nic, DescRaw { lo: 0, hi: 0x1 });
    let pkt = rx.receive(&mut nic).unwrap();
    assert_eq!(pkt.buff.len(), 2048);
    assert_eq!(pkt.direction, Direction::FromDevice);
    // The harvested slot is cleared; the repost lives in the next slot.
    assert!(rx.mete_ls[0].is_none());
    assert!(rx.mete_ls[1].is_some());
    assert!(rx.mete_ls[2].is_none());
}

#[test]
fn rx_never_yields_same_buffer_twice() {
    let mut nic = Nic::new();
    let mut rx = RxRing::new(&mut nic, 0, 4, 1024).unwrap();
    assert!(rx.receive(&mut nic).is_none());
    rx.base.device_write_back(&mut nic, DescRaw { lo: 0, hi: 0x1 });
    let first = rx.receive(&mut nic).unwrap();
    rx.base.device_write_back(&mut nic, DescRaw { lo: 0, hi: 0x1 });
    let second = rx.receive(&mut nic).unwrap();
    assert_ne!(first.bus_addr(), second.bus_addr());
}

#[test]
fn rx_spurious_availability_yields_nothing() {
    let mut nic = Nic::new();
    let mut rx = RxRing::new(&mut nic, 0, 4, 1024).unwrap();
    assert!(rx.receive(&mut nic).is_none());
    // The head advances but descriptor-done is still clear.
    rx.base.device_write_back(&mut nic, DescRaw { lo: 0, hi: 0x0 });
    assert!(rx.receive(&mut nic).is_none());
}

#[test]
fn rx_error_bits_suppress_packet() {
    let mut nic = Nic::new();
    let mut rx = RxRing::new(&mut nic, 0, 4, 1024).unwrap();
    assert!(rx.receive(&mut nic).is_none());
    // Descriptor-done together with the receive-error bit.
    rx.base.device_write_back(&mut nic, DescRaw { lo: 0, hi: 0x8000_0001 });
    assert!(rx.receive(&mut nic).is_none());
}

#[test]
fn rx_enable_failure() {
    let mut nic = Nic::new();
    nic.queue_enables = false;
    assert!(matches!(
        RxRing::new(&mut nic, 0, 4, 1024),
        Err(DriverError::HardwareUnresponsive)
    ));
}

#[test]
fn rx_close_releases_buffers() {
    let mut nic = Nic::new();
    let mut rx = RxRing::new(&mut nic, 0, 4, 1024).unwrap();
    assert!(rx.receive(&mut nic).is_none());
    assert!(rx.receive(&mut nic).is_none());
    rx.close(&mut nic);
    for i in 0..4 {
        assert!(rx.mete_ls[i].is_none());
    }
    // A second teardown changes nothing and frees nothing twice.
    let regs_after_first = nic.regs.clone();
    rx.close(&mut nic);
    assert_eq!(regs_after_first, nic.regs);
}

#[test]
fn tx_descriptor_carries_mandatory_command_bits() {
    let d = TxDesc::new(
        0xAB00,
        100,
        TxAdvDescType::Data,
        &[
            TxAdvDescCmd::EOP,
            TxAdvDescCmd::RS,
            TxAdvDescCmd::IFCS,
            TxAdvDescCmd::DEXT,
        ],
    );
    assert_eq!(d.buffer_addr, 0xAB00);
    assert_eq!(d.olinfo_status, 0);
    assert_eq!(d.cmd_type_len, 100 | 0x30_0000 | 0x2B00_0000);
}

#[test]
fn tx_transmit_builds_data_descriptor() {
    let mut nic = Nic::new();
    let mut tx = TxRing::new(&mut nic, 0, 4).unwrap();
    let pkt = Pkt::new(vec![0u8; 60], Direction::ToDevice, 0x5000);
    assert_eq!(tx.transmit(&mut nic, pkt), Ok(1));
    let d = tx.base.descs[0];
    assert_eq!(d.lo, 0x5000);
    let ctl = d.hi as u32;
    // End-of-packet, report-status, insert-FCS, descriptor-extension.
    assert_eq!(ctl & 0x2B00_0000, 0x2B00_0000);
    // Data descriptor type and the packet length.
    assert_eq!(ctl & 0xF0_0000, 0x30_0000);
    assert_eq!(ctl & 0xF_FFFF, 60);
}

#[test]
fn tx_ring_full_returns_packet() {
    let mut nic = Nic::new();
    let mut tx = TxRing::new(&mut nic, 0, 2).unwrap();
    let first = Pkt::new(vec![1u8; 10], Direction::ToDevice, 0x100);
    assert_eq!(tx.transmit(&mut nic, first), Ok(1));
    let second = Pkt::new(vec![2u8; 10], Direction::ToDevice, 0x200);
    let back = tx.transmit(&mut nic, second).unwrap_err();
    // Ownership comes back untouched on a full ring.
    assert_eq!(back.bus_addr(), 0x200);
    assert_eq!(back.buff, vec![2u8; 10]);
}

#[test]
fn tx_reclaims_after_completion() {
    let mut nic = Nic::new();
    let mut tx = TxRing::new(&mut nic, 0, 2).unwrap();
    let first = Pkt::new(vec![1u8; 10], Direction::ToDevice, 0x100);
    assert_eq!(tx.transmit(&mut nic, first), Ok(1));
    // The device finishes slot 0: descriptor-done in the write-back status.
    tx.base
        .device_write_back(&mut nic, DescRaw { lo: 0, hi: 0x1_0000_0000 });
    let second = Pkt::new(vec![2u8; 10], Direction::ToDevice, 0x200);
    assert_eq!(tx.transmit(&mut nic, second), Ok(1));
    assert!(tx.meta_ls[0].is_none());
    assert!(tx.meta_ls[1].is_some());
}

#[test]
fn tx_write_back_decode() {
    let wb = TxDescWriteBack::from_raw(DescRaw {
        lo: 0xDEAD,
        hi: 0x0000_0001_0000_0042,
    });
    assert_eq!(wb.rsvd, 0xDEAD);
    assert_eq!(wb.nxtseq_seed, 0x42);
    assert_eq!(wb.status, 1);
    assert!(wb.is_done());
    let idle = TxDescWriteBack::from_raw(DescRaw { lo: 0, hi: 0 });
    assert!(!idle.is_done());
}

#[test]
fn rx_read_descriptor_masks_flag_bits() {
    let d = AdvRxDescRead::new(0x1001, 0x2001, false);
    assert_eq!(d.pkt_addr, 0x1000);
    assert_eq!(d.hdr_addr, 0x2000);
    let nse = AdvRxDescRead::new(0x1000, 0x2000, true);
    assert_eq!(nse.pkt_addr, 0x1001);
    let raw = d.to_raw();
    assert_eq!(raw.lo, 0x1000);
    assert_eq!(raw.hi, 0x2000);
}

#[test]
fn rx_write_back_field_decode() {
    // lo: header status over RSS hash; hi: VLAN/length over error/type/status.
    let raw = DescRaw {
        lo: 0x0040_0000_1234_5678,
        hi: 0x00AB_0040_0000_0043,
    };
    let wb = AdvRxDescWB::from_raw(raw);
    assert!(wb.is_done());
    assert!(wb.is_end_of_packet());
    assert!(!wb.has_errors());
    assert_eq!(wb.rss_hash(), 0x1234_5678);
    assert_eq!(wb.packet_length(), 0x40);
    assert_eq!(wb.vlan_tag(), 0xAB);
    assert_eq!(wb.ip_identification(), 0x5678);
    assert_eq!(wb.fragment_checksum(), 0x1234);
    assert!(wb.ip_checksum_valid());
    assert!(!wb.l4_checksum_valid());
    assert_eq!(wb.header_length(), 1);
    assert!(!wb.is_split_header());
    assert!(!wb.is_vlan_packet());
    let erroneous = AdvRxDescWB::from_raw(DescRaw { lo: 0, hi: 0x8000_0001 });
    assert!(erroneous.has_errors());
    // Bits inside the packet-type field are not errors.
    let typed = AdvRxDescWB::from_raw(DescRaw { lo: 0, hi: 0x801 });
    assert!(!typed.has_errors());
}

#[test]
fn dma_pool_addresses_are_distinct_and_aligned() {
    let mut pool = DmaPool::new();
    let a = pool.try_alloc(100).unwrap();
    let b = pool.try_alloc(100).unwrap();
    let c = pool.try_alloc(4096).unwrap();
    assert!(a < b && b < c);
    assert_eq!(a % 128, 0);
    assert_eq!(b % 128, 0);
    assert_eq!(c % 128, 0);
}

#[test]
fn pkt_constructors_tag_direction() {
    let rx = Pkt::new_rx(vec![0u8; 32]);
    assert_eq!(rx.direction, Direction::FromDevice);
    assert_eq!(rx.len(), 32);
    let tx = Pkt::new_tx(vec![0u8; 16]);
    assert_eq!(tx.direction, Direction::ToDevice);
    assert_eq!(tx.bus_addr(), 0);
}
