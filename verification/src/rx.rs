//! The receive ring: the advanced receive descriptor formats and the ring
//! specialisation that owns the posted packet buffers and recycles them.
//!
//! A descriptor slot has two superimposed interpretations of the same 16
//! bytes: the software-write format ([`AdvRxDescRead`]) used when posting a
//! buffer, and the hardware-write-back format ([`AdvRxDescWB`]) used when
//! the device reports completion. The descriptor-done bit of the write-back
//! form is the single authoritative discriminant for which interpretation
//! is valid.

use vstd::prelude::*;

use crate::nic::Nic;
use crate::pkt::{zeroed, Direction, DmaPool, Pkt, DMA_MAX_ALLOC};
use crate::regs::{
    word, DCTL_ENABLE, QUEUE_STRIDE, RDBAH, RDBAL, RDH, RDLEN, RDT, RXDCTL, SRRCTL,
    SRRCTL_DESCTYPE_ADV_ONE,
};
use crate::ring::{dist, plain_reg, DescRaw, Ring};
use crate::DriverError;

verus! {

// ---- Write-back extended status bits (low bits of error_type_status) ----

/// Descriptor done: the device has finished with the slot.
pub const RXD_STAT_DD: u32 = 0x1;
/// End of packet.
pub const RXD_STAT_EOP: u32 = 0x2;
/// VLAN packet.
pub const RXD_STAT_VP: u32 = 0x8;
/// L4 integrity check performed.
pub const RXD_STAT_L4I: u32 = 0x20;
/// IP checksum performed.
pub const RXD_STAT_IPCS: u32 = 0x40;
/// Packet is time stamped.
pub const RXD_STAT_TS: u32 = 0x1_0000;
/// Loopback packet.
pub const RXD_STAT_LB: u32 = 0x4_0000;

// ---- Write-back extended error bits (bits 31:20 of error_type_status) ----

/// Header buffer overflow (bit 3 of the extended error field).
pub const RXD_ERR_HBO: u32 = 0x0080_0000;
/// L4 checksum error (bit 9 of the extended error field).
pub const RXD_ERR_L4E: u32 = 0x2000_0000;
/// IP checksum error (bit 10 of the extended error field).
pub const RXD_ERR_IPE: u32 = 0x4000_0000;
/// Receive error (bit 11 of the extended error field).
pub const RXD_ERR_RXE: u32 = 0x8000_0000;
/// The whole extended error field, bits 31:20.
pub const RXD_ERR_MASK: u32 = 0xFFF0_0000;

/// Packet type field, bits 16:4 of error_type_status.
pub const RXD_PKT_TYPE_MASK: u32 = 0x1_FFF0;
/// RSS type field, bits 19:17 of error_type_status.
pub const RXD_RSS_TYPE_MASK: u32 = 0xE_0000;

/// Software-write format: the two buffer addresses handed to the device.
/// Bit 0 of the packet address carries no-snoop-enable; bit 0 of the header
/// address is the descriptor-done bit and is always posted clear.
#[derive(Clone, Copy, Debug, PartialEq, Eq, Structural)]
pub struct AdvRxDescRead {
    /// Packet buffer address; bit 0 is no-snoop-enable.
    pub pkt_addr: u64,
    /// Header buffer address; bit 0 is the descriptor-done bit.
    pub hdr_addr: u64,
}

impl AdvRxDescRead {
    /// Builds a software-write descriptor: the packet address with its
    /// no-snoop bit forced to `nse`, and the header address with the
    /// descriptor-done bit forced clear.
    pub fn new(pkt_addr: u64, hdr_addr: u64, nse: bool) -> (r: AdvRxDescRead)
        ensures
            r.pkt_addr == if nse { pkt_addr | 1u64 } else { pkt_addr & !1u64 },
            r.hdr_addr == hdr_addr & !1u64,
            r.hdr_addr & 1u64 == 0,
    {
        let pa: u64 = if nse {
            pkt_addr | 1
        } else {
            pkt_addr & !1u64
        };
        let ha: u64 = hdr_addr & !1u64;
        proof {
            let x: u64 = hdr_addr;
            assert((x & !1u64) & 1u64 == 0) by (bit_vector);
        }
        AdvRxDescRead { pkt_addr: pa, hdr_addr: ha }
    }

    /// The raw 16-byte layout of the software-write form.
    pub fn to_raw(&self) -> (r: DescRaw)
        ensures
            r == (DescRaw { lo: self.pkt_addr, hi: self.hdr_addr }),
    {
        DescRaw { lo: self.pkt_addr, hi: self.hdr_addr }
    }
}

/// Low 64 bits of the write-back format.
#[derive(Clone, Copy, Debug, PartialEq, Eq, Structural)]
pub struct LoFields {
    /// RSS hash, or fragment checksum (31:16) over IP identification (15:0).
    pub rss_hash_or_csum_ip: u32,
    /// Header length (31:22), split-header flag (21), extended status (20:0).
    pub hdr_status: u32,
}

/// High 64 bits of the write-back format.
#[derive(Clone, Copy, Debug, PartialEq, Eq, Structural)]
pub struct HiFields {
    /// Extended error (31:20), RSS type (19:17), packet type (16:4),
    /// extended status (3:0).
    pub error_type_status: u32,
    /// VLAN tag (31:16) over packet length (15:0).
    pub vlan_length: u32,
}

/// Hardware-write-back format: status, length, checksum and error fields
/// the device reports on completion.
#[derive(Clone, Copy, Debug, PartialEq, Eq, Structural)]
pub struct AdvRxDescWB {
    pub lo: LoFields,
    pub hi: HiFields,
}

/// The error_type_status field of a raw descriptor read as write-back.
pub open spec fn raw_ets(d: DescRaw) -> u32 {
    d.hi as u32
}

/// The descriptor-done bit of a raw descriptor read as write-back.
pub open spec fn raw_done(d: DescRaw) -> bool {
    raw_ets(d) & RXD_STAT_DD != 0
}

/// The error summary of a raw descriptor read as write-back: any bit of
/// the extended error field is set.
pub open spec fn raw_has_errors(d: DescRaw) -> bool {
    raw_ets(d) & RXD_ERR_MASK != 0
}

/// The write-back view of a raw descriptor.
pub open spec fn raw_wb(d: DescRaw) -> AdvRxDescWB {
    AdvRxDescWB {
        lo: LoFields {
            rss_hash_or_csum_ip: d.lo as u32,
            hdr_status: (d.lo >> 32) as u32,
        },
        hi: HiFields {
            error_type_status: d.hi as u32,
            vlan_length: (d.hi >> 32) as u32,
        },
    }
}

impl AdvRxDescWB {
    /// Decodes the raw 16-byte layout as the hardware-write-back form.
    pub fn from_raw(d: DescRaw) -> (r: AdvRxDescWB)
        ensures
            r == raw_wb(d),
    {
        AdvRxDescWB {
            lo: LoFields {
                rss_hash_or_csum_ip: #[verifier::truncate] (d.lo as u32),
                hdr_status: #[verifier::truncate] ((d.lo >> 32) as u32),
            },
            hi: HiFields {
                error_type_status: #[verifier::truncate] (d.hi as u32),
                vlan_length: #[verifier::truncate] ((d.hi >> 32) as u32),
            },
        }
    }

    /// The raw 16-byte layout of the write-back form.
    pub fn to_raw(&self) -> (r: DescRaw)
        ensures
            r == (DescRaw {
                lo: (self.lo.rss_hash_or_csum_ip as u64) | ((self.lo.hdr_status as u64) << 32),
                hi: (self.hi.error_type_status as u64) | ((self.hi.vlan_length as u64) << 32),
            }),
            raw_wb(r) == *self,
    {
        let r = DescRaw {
            lo: (self.lo.rss_hash_or_csum_ip as u64) | ((self.lo.hdr_status as u64) << 32),
            hi: (self.hi.error_type_status as u64) | ((self.hi.vlan_length as u64) << 32),
        };
        proof {
            let a: u32 = self.lo.rss_hash_or_csum_ip;
            let b: u32 = self.lo.hdr_status;
            let c: u32 = self.hi.error_type_status;
            let e: u32 = self.hi.vlan_length;
            assert(((a as u64) | ((b as u64) << 32)) as u32 == a
                && (((a as u64) | ((b as u64) << 32)) >> 32) as u32 == b
                && ((c as u64) | ((e as u64) << 32)) as u32 == c
                && (((c as u64) | ((e as u64) << 32)) >> 32) as u32 == e) by (bit_vector);
        }
        r
    }

    /// The device has finished with the slot (descriptor-done).
    pub fn is_done(&self) -> (r: bool)
        ensures
            r == (self.hi.error_type_status & RXD_STAT_DD != 0),
    {
        self.hi.error_type_status & RXD_STAT_DD != 0
    }

    /// Last descriptor of the packet (end-of-packet).
    pub fn is_end_of_packet(&self) -> (r: bool)
        ensures
            r == (self.hi.error_type_status & RXD_STAT_EOP != 0),
    {
        self.hi.error_type_status & RXD_STAT_EOP != 0
    }

    /// Byte length of the received packet.
    pub fn packet_length(&self) -> (r: u16)
        ensures
            r == (self.hi.vlan_length & 0xFFFF) as u16,
    {
        #[verifier::truncate] ((self.hi.vlan_length & 0xFFFF) as u16)
    }

    /// VLAN tag of the received packet.
    pub fn vlan_tag(&self) -> (r: u16)
        ensures
            r == ((self.hi.vlan_length & 0xFFFF_0000) >> 16) as u16,
    {
        #[verifier::truncate] (((self.hi.vlan_length & 0xFFFF_0000) >> 16) as u16)
    }

    /// RSS hash value of the received packet.
    pub fn rss_hash(&self) -> (r: u32)
        ensures
            r == self.lo.rss_hash_or_csum_ip,
    {
        self.lo.rss_hash_or_csum_ip
    }

    /// Header length reported by the device.
    pub fn header_length(&self) -> (r: u16)
        ensures
            r == ((self.lo.hdr_status & 0xFFC0_0000) >> 22) as u16,
    {
        #[verifier::truncate] (((self.lo.hdr_status & 0xFFC0_0000) >> 22) as u16)
    }

    /// The device split the header into the header buffer.
    pub fn is_split_header(&self) -> (r: bool)
        ensures
            r == (self.lo.hdr_status & 0x20_0000 != 0),
    {
        self.lo.hdr_status & 0x20_0000 != 0
    }

    /// Packet type field.
    pub fn packet_type(&self) -> (r: u16)
        ensures
            r == ((self.hi.error_type_status & RXD_PKT_TYPE_MASK) >> 4) as u16,
    {
        #[verifier::truncate] (((self.hi.error_type_status & RXD_PKT_TYPE_MASK) >> 4) as u16)
    }

    /// RSS type field.
    pub fn rss_type(&self) -> (r: u8)
        ensures
            r == ((self.hi.error_type_status & RXD_RSS_TYPE_MASK) >> 17) as u8,
    {
        #[verifier::truncate] (((self.hi.error_type_status & RXD_RSS_TYPE_MASK) >> 17) as u8)
    }

    /// Any bit of the extended error field is set.
    pub fn has_errors(&self) -> (r: bool)
        ensures
            r == (self.hi.error_type_status & RXD_ERR_MASK != 0),
    {
        self.hi.error_type_status & RXD_ERR_MASK != 0
    }

    /// IP checksum was checked and no IP error was reported.
    pub fn ip_checksum_valid(&self) -> (r: bool)
        ensures
            r == (self.hi.error_type_status & RXD_STAT_IPCS != 0
                && self.hi.error_type_status & RXD_ERR_IPE == 0),
    {
        self.hi.error_type_status & RXD_STAT_IPCS != 0
            && self.hi.error_type_status & RXD_ERR_IPE == 0
    }

    /// L4 checksum was checked and no L4 error was reported.
    pub fn l4_checksum_valid(&self) -> (r: bool)
        ensures
            r == (self.hi.error_type_status & RXD_STAT_L4I != 0
                && self.hi.error_type_status & RXD_ERR_L4E == 0),
    {
        self.hi.error_type_status & RXD_STAT_L4I != 0
            && self.hi.error_type_status & RXD_ERR_L4E == 0
    }

    /// Header buffer overflow was reported.
    pub fn has_header_buffer_overflow(&self) -> (r: bool)
        ensures
            r == (self.hi.error_type_status & RXD_ERR_HBO != 0),
    {
        self.hi.error_type_status & RXD_ERR_HBO != 0
    }

    /// The packet carries a VLAN tag.
    pub fn is_vlan_packet(&self) -> (r: bool)
        ensures
            r == (self.hi.error_type_status & RXD_STAT_VP != 0),
    {
        self.hi.error_type_status & RXD_STAT_VP != 0
    }

    /// The packet is a loopback packet.
    pub fn is_loopback_packet(&self) -> (r: bool)
        ensures
            r == (self.hi.error_type_status & RXD_STAT_LB != 0),
    {
        self.hi.error_type_status & RXD_STAT_LB != 0
    }

    /// The packet carries a timestamp.
    pub fn is_timestamped(&self) -> (r: bool)
        ensures
            r == (self.hi.error_type_status & RXD_STAT_TS != 0),
    {
        self.hi.error_type_status & RXD_STAT_TS != 0
    }

    /// Fragment checksum (when RSS is not in use).
    pub fn fragment_checksum(&self) -> (r: u16)
        ensures
            r == ((self.lo.rss_hash_or_csum_ip & 0xFFFF_0000) >> 16) as u16,
    {
        #[verifier::truncate] (((self.lo.rss_hash_or_csum_ip & 0xFFFF_0000) >> 16) as u16)
    }

    /// IP identification (when RSS is not in use).
    pub fn ip_identification(&self) -> (r: u16)
        ensures
            r == (self.lo.rss_hash_or_csum_ip & 0xFFFF) as u16,
    {
        #[verifier::truncate] ((self.lo.rss_hash_or_csum_ip & 0xFFFF) as u16)
    }
}

/// Threshold/enable word written to the queue-control register when
/// enabling the queue: prefetch threshold 8, host threshold 8, write-back
/// threshold 1, enable set.
pub const RX_CTL_ENABLE_WORD: u32 = 0x0201_0808;

/// Threshold word written on teardown: the same thresholds with the enable
/// bit clear.
pub const RX_CTL_DISABLE_WORD: u32 = 0x0001_0808;

/// Polling bound for the queue-enable bit to read back.
pub const ENABLE_ATTEMPTS: usize = 1000;

/// The receive ring: a descriptor ring of receive descriptors, a parallel
/// table of posted packet buffers, and the DMA pool the buffers come from.
pub struct RxRing {
    /// The underlying descriptor ring.
    pub base: Ring,
    /// One entry per descriptor slot: the packet buffer posted there, if
    /// the slot holds an outstanding descriptor.
    pub mete_ls: Vec<Option<Pkt>>,
    /// Size of each posted receive buffer in bytes.
    pub pkt_size: u32,
    /// The queue-control (enable) register of this queue.
    pub ctl_off: u32,
    /// The DMA buffer provider for this ring.
    pub pool: DmaPool,
}

impl RxRing {
    /// Number of descriptor slots.
    pub open spec fn cap(self) -> int {
        self.base.cap()
    }

    /// The bus address of the buffer posted at slot `i`.
    pub open spec fn addr_of(self, i: int) -> u64 {
        self.mete_ls@[i]->0.bus_addr
    }

    /// Slot `i` holds a buffer exactly when a descriptor is outstanding
    /// there: the strict None -> Some -> None cycle of the metadata table.
    pub open spec fn metas_match(self, nic: Nic) -> bool {
        forall|i: int|
            0 <= i < self.cap() ==> ((#[trigger] self.mete_ls@[i]) is Some <==> self.base.posted(
                nic,
                i,
            ))
    }

    /// Every posted buffer came from this ring's pool.
    pub open spec fn addrs_fresh(self) -> bool {
        forall|i: int|
            0 <= i < self.cap() && (#[trigger] self.mete_ls@[i]) is Some ==> self.addr_of(i)
                < self.pool.next
    }

    /// No two posted buffers alias.
    pub open spec fn addrs_distinct(self) -> bool {
        forall|i: int, j: int|
            0 <= i < j < self.cap() && (#[trigger] self.mete_ls@[i]) is Some
                && (#[trigger] self.mete_ls@[j]) is Some ==> self.addr_of(i) != self.addr_of(j)
    }

    /// Well-formedness: the ring invariant, a metadata table of matching
    /// size whose occupancy mirrors the outstanding descriptors, and
    /// pairwise-distinct fresh buffer addresses.
    pub open spec fn wf(self, nic: Nic) -> bool {
        &&& self.base.wf(nic)
        &&& self.mete_ls@.len() == self.cap()
        &&& self.pool.wf()
        &&& self.pkt_size as int <= DMA_MAX_ALLOC
        &&& crate::nic::is_queue_ctl(self.ctl_off)
        &&& crate::regs::reg_off_valid(self.ctl_off)
        &&& self.ctl_off != self.base.tail_off
        &&& self.ctl_off != self.base.head_off
        &&& self.metas_match(nic)
        &&& self.addrs_fresh()
        &&& self.addrs_distinct()
        &&& crate::pkt::live_count(self.mete_ls@) == self.base.outstanding(nic)
    }

    /// The device has advanced its consumer position past the software
    /// mirror: a harvest is available.
    pub open spec fn rx_avail(self, nic: Nic) -> bool {
        self.base.hw_head(nic) != self.base.mirror_head as int
    }

    /// An available slot whose write-back carries descriptor-done and no
    /// error bits: its buffer is returned to the caller.
    pub open spec fn rx_good(self, nic: Nic) -> bool {
        &&& self.rx_avail(nic)
        &&& raw_done(self.base.descs@[self.base.mirror_head as int])
        &&& !raw_has_errors(self.base.descs@[self.base.mirror_head as int])
    }

    /// The outstanding count once an available slot has been harvested.
    pub open spec fn out_after(self, nic: Nic) -> int {
        self.base.outstanding(nic) - if self.rx_avail(nic) {
            1int
        } else {
            0int
        }
    }

    /// The pool can serve another buffer allocation.
    pub open spec fn pool_headroom(self) -> bool {
        self.pool.next <= 0xF000_0000_0000_0000
    }

    /// The repost in `receive` goes through: the pool serves the
    /// allocation and the ring has room after the harvest.
    pub open spec fn rx_posts(self, nic: Nic) -> bool {
        &&& !crate::pkt::alloc_fails(self.pool.next, self.pkt_size as u64)
        &&& self.out_after(nic) < self.cap() - 1
    }
}

impl RxRing {
    /// Initializes the receive queue `qid`: disables the queue, programs
    /// the descriptor-table base, length and buffer-size registers, zeroes
    /// the positions, enables the queue and polls, bounded, until the
    /// enable bit reads back.
    ///
    /// Succeeds exactly when the device latches the enable bit; an enable
    /// bit that never reads back exhausts the bound and yields
    /// `HardwareUnresponsive`.
    pub fn new(nic: &mut Nic, qid: u32, desc_n: usize, pkt_size: u32) -> (r: Result<
        RxRing,
        DriverError,
    >)
        requires
            old(nic).wf(),
            qid < crate::regs::NUM_QUEUES,
            1 <= desc_n <= crate::ring::MAX_DESC_N,
            pkt_size <= 0x1_FFFF,
        ensures
            final(nic).wf(),
            final(nic).phy@ == old(nic).phy@,
            final(nic).behaviour() == old(nic).behaviour(),
            r is Ok <==> old(nic).queue_enables,
            r is Err ==> r == Result::<RxRing, DriverError>::Err(
                DriverError::HardwareUnresponsive,
            ),
            r is Ok ==> {
                let ring = r->Ok_0;
                &&& ring.wf(*final(nic))
                &&& ring.cap() == desc_n
                &&& ring.pkt_size == pkt_size
                &&& ring.base.outstanding(*final(nic)) == 0
                &&& ring.base.mirror_head == 0
                &&& forall|i: int| 0 <= i < desc_n ==> (#[trigger] ring.mete_ls@[i]) is None
                &&& ring.base.tail_off as int == RDT + qid * QUEUE_STRIDE
                &&& ring.base.head_off as int == RDH + qid * QUEUE_STRIDE
                &&& ring.ctl_off as int == RXDCTL + qid * QUEUE_STRIDE
                &&& word(ring.base.tail_off) == 0x3006 + 0x10 * qid
                &&& word(ring.base.head_off) == 0x3004 + 0x10 * qid
                &&& word(ring.ctl_off) == 0x300A + 0x10 * qid
                &&& final(nic).regs@[0x3000 + 0x10 * qid] == (ring.base.table_addr
                    & 0xFFFF_FFFF) as u32
                &&& final(nic).regs@[0x3001 + 0x10 * qid] == (ring.base.table_addr >> 32) as u32
                &&& final(nic).regs@[0x3002 + 0x10 * qid] == ((desc_n * 16) as u32)
                &&& final(nic).regs@[0x3003 + 0x10 * qid] == (SRRCTL_DESCTYPE_ADV_ONE | ((
                pkt_size as int / 1024) as u32))
                &&& final(nic).regs@[0x3004 + 0x10 * qid] == 0u32
                &&& final(nic).regs@[0x3006 + 0x10 * qid] == 0u32
                &&& final(nic).regs@[0x300A + 0x10 * qid] == RX_CTL_ENABLE_WORD
            },
            forall|w: int|
                0 <= w < old(nic).regs@.len() && w != 0x3000 + 0x10 * qid && w != 0x3001 + 0x10
                    * qid && w != 0x3002 + 0x10 * qid && w != 0x3003 + 0x10 * qid && w != 0x3004
                    + 0x10 * qid && w != 0x3006 + 0x10 * qid && w != 0x300A + 0x10 * qid
                    ==> final(nic).regs@[w] == old(nic).regs@[w],
    {
        let q_off: u32 = qid * QUEUE_STRIDE;
        let tail_off: u32 = RDT + q_off;
        let head_off: u32 = RDH + q_off;
        let ctl_off: u32 = RXDCTL + q_off;
        proof {
            lemma_rx_queue_offsets(qid);
            let k = qid as int;
            crate::ring::lemma_div_exact(0x3000 + 0x10 * k, 4);
            crate::ring::lemma_div_exact(0x3001 + 0x10 * k, 4);
            crate::ring::lemma_div_exact(0x3002 + 0x10 * k, 4);
            crate::ring::lemma_div_exact(0x3003 + 0x10 * k, 4);
            crate::ring::lemma_div_exact(0x3004 + 0x10 * k, 4);
            crate::ring::lemma_div_exact(0x3006 + 0x10 * k, 4);
            crate::ring::lemma_div_exact(0x300A + 0x10 * k, 4);
            assert((RDBAL + q_off) as int == 4 * (0x3000 + 0x10 * k));
            assert((RDBAH + q_off) as int == 4 * (0x3001 + 0x10 * k));
            assert((RDLEN + q_off) as int == 4 * (0x3002 + 0x10 * k));
            assert((SRRCTL + q_off) as int == 4 * (0x3003 + 0x10 * k));
            assert(head_off as int == 4 * (0x3004 + 0x10 * k));
            assert(tail_off as int == 4 * (0x3006 + 0x10 * k));
            assert(ctl_off as int == 4 * (0x300A + 0x10 * k));
        }
        let mut pool = DmaPool::new();
        let base_opt = Ring::new(desc_n, tail_off, head_off, &mut pool);
        let mut base: Ring = match base_opt {
            Some(b) => b,
            None => {
                return Err(DriverError::HardwareUnresponsive);
            },
        };
        let desc_table_base: u64 = base.desc_table_base();
        nic.write_reg(ctl_off, 0);
        proof {
            let x: u64 = desc_table_base;
            assert(x & 0xFFFF_FFFF <= 0xFFFF_FFFF && x >> 32 <= 0xFFFF_FFFF) by (bit_vector);
        }
        nic.write_reg(RDBAL + q_off, (desc_table_base & 0xFFFF_FFFF) as u32);
        nic.write_reg(RDBAH + q_off, (desc_table_base >> 32) as u32);
        nic.write_reg(RDLEN + q_off, base.desc_table_size());
        nic.write_reg(SRRCTL + q_off, SRRCTL_DESCTYPE_ADV_ONE | (pkt_size / 1024));
        base.init_tail_head(nic);
        nic.write_reg(ctl_off, RX_CTL_ENABLE_WORD);
        proof {
            assert(0x0201_0808u32 & 0x0200_0000u32 != 0
                && (0x0201_0808u32 & !0x0200_0000u32) & 0x0200_0000u32 == 0) by (bit_vector);
        }
        let mut attempt: usize = 0;
        let mut enabled: bool = false;
        while attempt < ENABLE_ATTEMPTS && !enabled
            invariant
                attempt <= ENABLE_ATTEMPTS,
                enabled ==> old(nic).queue_enables,
                attempt > 0 ==> !old(nic).queue_enables,
            decreases ENABLE_ATTEMPTS - attempt, if enabled { 0int } else { 1int },
        {
            if nic.read_reg(ctl_off) & DCTL_ENABLE != 0 {
                enabled = true;
            } else {
                attempt = attempt + 1;
            }
        }
        if !enabled {
            return Err(DriverError::HardwareUnresponsive);
        }
        let mut mete_ls: Vec<Option<Pkt>> = Vec::new();
        let mut i: usize = 0;
        while i < desc_n
            invariant
                i <= desc_n,
                mete_ls@.len() == i,
                forall|j: int| 0 <= j < i ==> (#[trigger] mete_ls@[j]) is None,
            decreases desc_n - i,
        {
            mete_ls.push(None);
            i = i + 1;
        }
        proof {
            crate::pkt::lemma_live_count_none(mete_ls@);
        }
        Ok(RxRing { base, mete_ls, pkt_size, ctl_off, pool })
    }

    /// Harvests at most one completed receive buffer and unconditionally
    /// tries to repost a freshly allocated buffer of the configured size.
    ///
    /// A harvested slot whose write-back carries descriptor-done and no
    /// error bits yields its buffer; a spurious or erroneous write-back is
    /// dropped. The repost is silently skipped when the ring is full (the
    /// implicit backpressure) or the pool is exhausted. The returned buffer
    /// is removed from the table, and no buffer still posted shares its bus
    /// address: the same buffer is never yielded twice.
    pub fn receive(&mut self, nic: &mut Nic) -> (r: Option<Pkt>)
        requires
            old(self).wf(*old(nic)),
        ensures
            final(self).wf(*final(nic)),
            final(nic).phy@ == old(nic).phy@,
            final(nic).behaviour() == old(nic).behaviour(),
            final(self).base.cfg() == old(self).base.cfg(),
            final(self).cap() == old(self).cap(),
            final(self).pkt_size == old(self).pkt_size,
            final(self).ctl_off == old(self).ctl_off,
            r is Some <==> old(self).rx_good(*old(nic)),
            old(self).rx_avail(*old(nic)) ==> final(self).mete_ls@[old(
                self,
            ).base.mirror_head as int] is None,
            r is Some ==> r == Some(
                old(self).mete_ls@[old(self).base.mirror_head as int]->0,
            ),
            r is Some ==> forall|i: int|
                0 <= i < final(self).cap() && (#[trigger] final(self).mete_ls@[i]) is Some
                    ==> final(self).addr_of(i) != r->0.bus_addr,
            old(self).pool_headroom() && old(self).out_after(*old(nic)) < old(self).cap() - 1
                ==> old(self).rx_posts(*old(nic)),
            old(self).rx_posts(*old(nic))
                ==> {
                    let t = old(self).base.tail(*old(nic));
                    &&& final(nic).regs@ == old(nic).regs@.update(
                        crate::regs::word(old(self).base.tail_off),
                        (if t + 1 == old(self).cap() { 0int } else { t + 1 }) as u32,
                    )
                    &&& final(self).base.descs@ == old(self).base.descs@.update(
                        t,
                        DescRaw { lo: old(self).pool.next & !1u64, hi: 0u64 },
                    )
                    &&& final(self).base.outstanding(*final(nic)) == old(self).out_after(
                        *old(nic),
                    ) + 1
                    &&& final(self).mete_ls@[t] is Some
                    &&& final(self).addr_of(t) == old(self).pool.next
                    &&& final(self).mete_ls@[t]->0.buff@.len() == old(self).pkt_size
                    &&& final(self).mete_ls@[t]->0.direction == Direction::FromDevice
                },
            !old(self).rx_posts(*old(nic))
                ==> final(self).base.outstanding(*final(nic)) == old(self).out_after(*old(nic))
                    && final(nic).regs@ == old(nic).regs@
                    && final(self).base.descs@ == old(self).base.descs@,
            forall|i: int|
                0 <= i < old(self).cap() && i != old(self).base.mirror_head as int && i != old(
                    self,
                ).base.tail(*old(nic)) ==> (#[trigger] final(self).mete_ls@[i]) == old(
                    self,
                ).mete_ls@[i],
            forall|i: int|
                0 <= i < old(self).cap() && i != old(self).base.tail(*old(nic)) ==> (#[trigger]
                final(self).base.descs@[i]) == old(self).base.descs@[i],
    {
        let ghost pre = *self;
        let ghost npre = *nic;
        proof {
            if pre.pool_headroom() {
                crate::pkt::lemma_headroom_alloc(pre.pool.next, pre.pkt_size as u64);
            }
        }
        let mut res: Option<Pkt> = None;
        match self.base.get_available(nic) {
            Some((d, idx)) => {
                proof {
                    assert(pre.base.posted(npre, idx as int));
                    assert(pre.mete_ls@[idx as int] is Some);
                }
                let p: Option<Pkt> = self.mete_ls.remove(idx);
                self.mete_ls.insert(idx, None);
                proof {
                    assert(self.mete_ls@ =~= pre.mete_ls@.update(idx as int, None));
                }
                let pkt: Pkt = match p {
                    Some(pkt) => pkt,
                    None => {
                        proof {
                            assert(false);
                        }
                        return None;
                    },
                };
                let wb = AdvRxDescWB::from_raw(d);
                if wb.is_done() && !wb.has_errors() {
                    res = Some(pkt);
                }
            },
            None => {},
        }
        let ghost mid = *self;
        proof {
            lemma_harvest_metas(pre, mid, npre);
        }
        match self.pool.try_alloc(self.pkt_size as u64) {
            Some(addr) => {
                let buff = zeroed(self.pkt_size as usize);
                let req = Pkt::new(buff, Direction::FromDevice, addr);
                let desc = AdvRxDescRead::new(addr, 0, false);
                proof {
                    assert(0u64 & !1u64 == 0u64) by (bit_vector);
                }
                match self.base.add_desc(nic, desc.to_raw()) {
                    Ok(t) => {
                        self.mete_ls.set(t, Some(req));
                        proof {
                            lemma_post_metas(mid, *self, npre, *nic, t as int, addr);
                        }
                    },
                    Err(_) => {},
                }
            },
            None => {},
        }
        res
    }
}

/// After a harvest (the mirror advanced one slot, that slot's metadata
/// cleared), the metadata table again mirrors the outstanding descriptors.
proof fn lemma_harvest_metas(pre: RxRing, mid: RxRing, nic: Nic)
    requires
        pre.wf(nic),
        mid.base.wf(nic),
        mid.pool == pre.pool,
        mid.base.descs@ == pre.base.descs@,
        mid.base.cfg() == pre.base.cfg(),
        pre.rx_avail(nic) ==> {
            &&& mid.mete_ls@ == pre.mete_ls@.update(pre.base.mirror_head as int, None::<Pkt>)
            &&& mid.base.mirror_head as int == (if pre.base.mirror_head as int + 1 == pre.cap() {
                0int
            } else {
                pre.base.mirror_head as int + 1
            })
        },
        !pre.rx_avail(nic) ==> mid == pre,
    ensures
        mid.metas_match(nic),
        mid.addrs_fresh(),
        mid.addrs_distinct(),
        mid.mete_ls@.len() == mid.cap(),
        mid.base.outstanding(nic) == pre.out_after(nic),
        crate::pkt::live_count(mid.mete_ls@) == mid.base.outstanding(nic),
{
    if pre.rx_avail(nic) {
        let n = pre.cap();
        let mh0 = pre.base.mirror_head as int;
        assert(pre.base.posted(nic, mh0));
        assert(pre.mete_ls@[mh0] is Some);
        crate::pkt::lemma_live_count_update(pre.mete_ls@, mh0, None);
        let mh1 = mid.base.mirror_head as int;
        let t = pre.base.tail(nic);
        assert forall|i: int| 0 <= i < n implies ((#[trigger] mid.mete_ls@[i]) is Some
            <==> mid.base.posted(nic, i)) by {
            assert(pre.mete_ls@[i] is Some <==> pre.base.posted(nic, i));
            if i == mh0 {
                assert(dist(mh1, i, n) == n - 1);
            } else {
                if i >= mh1 {
                    assert(dist(mh1, i, n) == dist(mh0, i, n) - 1);
                } else {
                    assert(dist(mh1, i, n) == dist(mh0, i, n) - 1);
                }
            }
        }
    }
}

/// After a repost (a fresh buffer placed at the old producer position, the
/// producer advanced one slot), the metadata table again mirrors the
/// outstanding descriptors, and the fresh address keeps all posted
/// addresses distinct.
proof fn lemma_post_metas(mid: RxRing, post: RxRing, npre: Nic, npost: Nic, t: int, addr: u64)
    requires
        mid.base.wf(npre),
        mid.mete_ls@.len() == mid.cap(),
        mid.metas_match(npre),
        mid.addrs_fresh(),
        mid.addrs_distinct(),
        post.base.wf(npost),
        t == mid.base.tail(npre),
        mid.base.outstanding(npre) < mid.cap() - 1,
        post.base.mirror_head == mid.base.mirror_head,
        post.base.cfg() == mid.base.cfg(),
        post.cap() == mid.cap(),
        post.base.outstanding(npost) == mid.base.outstanding(npre) + 1,
        post.mete_ls@ == mid.mete_ls@.update(
            t,
            Some(
                Pkt {
                    buff: post.mete_ls@[t]->0.buff,
                    direction: post.mete_ls@[t]->0.direction,
                    bus_addr: addr,
                },
            ),
        ),
        mid.pool.next <= addr,
        addr < post.pool.next,
        mid.pool.next <= post.pool.next,
        crate::pkt::live_count(mid.mete_ls@) == mid.base.outstanding(npre),
    ensures
        post.metas_match(npost),
        post.addrs_fresh(),
        post.addrs_distinct(),
        post.mete_ls@.len() == post.cap(),
        crate::pkt::live_count(post.mete_ls@) == post.base.outstanding(npost),
    {
    let n = mid.cap();
    assert(!mid.base.posted(npre, mid.base.tail(npre)));
    assert(!(mid.mete_ls@[mid.base.tail(npre)] is Some));
    crate::pkt::lemma_live_count_update(
        mid.mete_ls@,
        mid.base.tail(npre),
        post.mete_ls@[mid.base.tail(npre)],
    );
    let mh = mid.base.mirror_head as int;
    let out0 = mid.base.outstanding(npre);
    assert(dist(mh, t, n) == out0);
    assert forall|i: int| 0 <= i < n implies ((#[trigger] post.mete_ls@[i]) is Some
        <==> post.base.posted(npost, i)) by {
        if i == t {
            assert(post.mete_ls@[i] is Some);
            assert(dist(mh, i, n) == out0 < out0 + 1);
        } else {
            assert(mid.mete_ls@[i] is Some <==> mid.base.posted(npre, i));
            assert(dist(mh, i, n) != dist(mh, t, n));
        }
    }
    assert forall|i: int| 0 <= i < n && (#[trigger] post.mete_ls@[i]) is Some
        implies post.addr_of(i) < post.pool.next by {
        if i != t {
            assert(mid.addr_of(i) < mid.pool.next);
        }
    }
    assert forall|i: int, j: int| 0 <= i < j < n && (#[trigger] post.mete_ls@[i]) is Some
        && (#[trigger] post.mete_ls@[j]) is Some
        implies post.addr_of(i) != post.addr_of(j) by {
        if i == t {
            assert(mid.addr_of(j) < mid.pool.next);
        } else if j == t {
            assert(mid.addr_of(i) < mid.pool.next);
        } else {
            assert(mid.mete_ls@[i] is Some && mid.mete_ls@[j] is Some);
        }
    }
}

/// Register offsets of receive queue `qid`: the descriptor registers are
/// plain storage and the queue-control register is recognised as such.
proof fn lemma_rx_queue_offsets(qid: u32)
    requires
        qid < 16,
    ensures
        plain_reg((RDBAL + qid * QUEUE_STRIDE) as u32),
        plain_reg((RDBAH + qid * QUEUE_STRIDE) as u32),
        plain_reg((RDLEN + qid * QUEUE_STRIDE) as u32),
        plain_reg((SRRCTL + qid * QUEUE_STRIDE) as u32),
        plain_reg((RDH + qid * QUEUE_STRIDE) as u32),
        plain_reg((RDT + qid * QUEUE_STRIDE) as u32),
        crate::nic::is_queue_ctl((RXDCTL + qid * QUEUE_STRIDE) as u32),
        crate::regs::reg_off_valid((RXDCTL + qid * QUEUE_STRIDE) as u32),
{
    let k = qid as int;
    assert(0xC000 + 0x40 * k == 4 * (0x3000 + 0x10 * k));
    lemma_off_align(0x3000 + 0x10 * k);
    lemma_off_align(0x3001 + 0x10 * k);
    lemma_off_align(0x3002 + 0x10 * k);
    lemma_off_align(0x3003 + 0x10 * k);
    lemma_off_align(0x3004 + 0x10 * k);
    lemma_off_align(0x3006 + 0x10 * k);
    lemma_off_align(0x300A + 0x10 * k);
    if k >= 1 {
        crate::ring::lemma_mod_small_offset(k - 1, 0x18, 0x40);
        crate::ring::lemma_mod_small_offset(k - 1, 0x1C, 0x40);
        crate::ring::lemma_mod_small_offset(k - 1, 0x20, 0x40);
        crate::ring::lemma_mod_small_offset(k - 1, 0x24, 0x40);
        crate::ring::lemma_mod_small_offset(k - 1, 0x28, 0x40);
        crate::ring::lemma_mod_small_offset(k - 1, 0x30, 0x40);
        assert(0xC000 + 0x40 * k - 0xC028 == 0x40 * (k - 1) + 0x18);
        assert(0xC004 + 0x40 * k - 0xC028 == 0x40 * (k - 1) + 0x1C);
        assert(0xC008 + 0x40 * k - 0xC028 == 0x40 * (k - 1) + 0x20);
        assert(0xC00C + 0x40 * k - 0xC028 == 0x40 * (k - 1) + 0x24);
        assert(0xC010 + 0x40 * k - 0xC028 == 0x40 * (k - 1) + 0x28);
        assert(0xC018 + 0x40 * k - 0xC028 == 0x40 * (k - 1) + 0x30);
    }
    crate::ring::lemma_mod_small_offset(k, 0, 0x40);
    assert(0xC028 + 0x40 * k - 0xC028 == 0x40 * k + 0);
}

/// A word-aligned offset: four times anything is divisible by four.
proof fn lemma_off_align(w: int)
    requires
        0 <= w,
    ensures
        (4 * w) % 4 == 0,
{
    crate::ring::lemma_mod_small_offset(w, 0, 4);
}

impl RxRing {
    /// Tears the queue down: clears the queue-enable bit, waits for the
    /// disable to take effect, and only then releases every posted buffer
    /// and zeroes the ring positions, so no in-flight device write can land
    /// in a freed buffer.
    ///
    /// Running the teardown again on an already-closed ring reproduces the
    /// same state: no panic, no buffer released twice (see
    /// [`crate::ring::lemma_teardown_idempotent`]).
    pub fn close(&mut self, nic: &mut Nic)
        requires
            old(self).wf(*old(nic)),
        ensures
            final(self).wf(*final(nic)),
            final(self).base.cfg() == old(self).base.cfg(),
            final(self).cap() == old(self).cap(),
            final(self).pkt_size == old(self).pkt_size,
            final(self).ctl_off == old(self).ctl_off,
            final(self).pool == old(self).pool,
            final(self).base.descs@ == old(self).base.descs@,
            forall|i: int| 0 <= i < final(self).cap()
                ==> (#[trigger] final(self).mete_ls@[i]) is None,
            final(self).base.outstanding(*final(nic)) == 0,
            final(nic).phy@ == old(nic).phy@,
            final(nic).behaviour() == old(nic).behaviour(),
            final(nic).regs@ == old(nic).regs@.update(
                word(old(self).ctl_off),
                RX_CTL_DISABLE_WORD,
            ).update(word(old(self).base.tail_off), 0u32).update(
                word(old(self).base.head_off),
                0u32,
            ),
    {
        proof {
            assert(0x0001_0808u32 & 0x0200_0000u32 == 0
                && 0x0001_0808u32 & !0x0200_0000u32 == 0x0001_0808u32) by (bit_vector);
        }
        nic.write_reg(self.ctl_off, RX_CTL_DISABLE_WORD);
        let mut attempt: usize = 0;
        while attempt < ENABLE_ATTEMPTS
            invariant
                attempt <= ENABLE_ATTEMPTS,
            decreases ENABLE_ATTEMPTS - attempt,
        {
            if nic.read_reg(self.ctl_off) & DCTL_ENABLE == 0 {
                break;
            }
            attempt = attempt + 1;
        }
        let n: usize = self.mete_ls.len();
        let mut i: usize = 0;
        while i < n
            invariant
                i <= n,
                self.mete_ls@.len() == n,
                n == old(self).mete_ls@.len(),
                self.base == old(self).base,
                self.pkt_size == old(self).pkt_size,
                self.ctl_off == old(self).ctl_off,
                self.pool == old(self).pool,
                forall|j: int| 0 <= j < i ==> (#[trigger] self.mete_ls@[j]) is None,
            decreases n - i,
        {
            self.mete_ls.set(i, None);
            i = i + 1;
        }
        proof {
            crate::pkt::lemma_live_count_none(self.mete_ls@);
        }
        self.base.init_tail_head(nic);
    }
}

/// A receive ring never holds more than capacity − 1 posted buffers at
/// once: the metadata occupancy equals the outstanding descriptor count,
/// which the ring bounds by capacity − 1.
pub proof fn lemma_rx_live_bound(r: RxRing, nic: Nic)
    requires
        r.wf(nic),
    ensures
        crate::pkt::live_count(r.mete_ls@) <= r.cap() - 1,
{
    crate::ring::lemma_outstanding_bound(r.base, nic);
}

/// A receive ring's well-formedness depends on the register file only
/// through its own producer and consumer words: it survives any write
/// elsewhere.
pub proof fn lemma_rx_wf_stable(r: RxRing, nic0: Nic, nic1: Nic)
    requires
        r.wf(nic0),
        nic1.wf(),
        nic1.regs@[word(r.base.tail_off)] == nic0.regs@[word(r.base.tail_off)],
        nic1.regs@[word(r.base.head_off)] == nic0.regs@[word(r.base.head_off)],
    ensures
        r.wf(nic1),
{
    assert(r.base.tail(nic1) == r.base.tail(nic0));
    assert(r.base.hw_head(nic1) == r.base.hw_head(nic0));
    assert forall|i: int| 0 <= i < r.cap() implies ((#[trigger] r.mete_ls@[i]) is Some
        <==> r.base.posted(nic1, i)) by {
        assert(r.mete_ls@[i] is Some <==> r.base.posted(nic0, i));
    }
}

} // verus!
