//! The transmit ring: the advanced transmit descriptor format and the ring
//! specialisation that keeps each in-flight packet buffer until the device
//! confirms completion.

use vstd::prelude::*;

use crate::nic::Nic;
use crate::pkt::{DmaPool, Pkt};
use crate::regs::{word, DCTL_ENABLE, QUEUE_STRIDE, TDBAH, TDBAL, TDH, TDLEN, TDT, TXDCTL};
use crate::ring::{dist, plain_reg, DescRaw, Ring};
use crate::DriverError;

verus! {

// ---- Command bits of the cmd_type_len field ----

/// Packet length, bits 19:0.
pub const TXD_LEN_MASK: u32 = 0xF_FFFF;
/// Descriptor type = data.
pub const TXD_DTYPE_DATA: u32 = 0x30_0000;
/// Descriptor type = context.
pub const TXD_DTYPE_CTX: u32 = 0x20_0000;
/// End of packet.
pub const TXD_CMD_EOP: u32 = 0x0100_0000;
/// Insert FCS.
pub const TXD_CMD_IFCS: u32 = 0x0200_0000;
/// Insert checksum.
pub const TXD_CMD_IC: u32 = 0x0400_0000;
/// Report status (write back descriptor-done).
pub const TXD_CMD_RS: u32 = 0x0800_0000;
/// Descriptor extension (advanced format).
pub const TXD_CMD_DEXT: u32 = 0x2000_0000;
/// VLAN packet enable.
pub const TXD_CMD_VLE: u32 = 0x4000_0000;
/// Interrupt delay enable.
pub const TXD_CMD_IDE: u32 = 0x8000_0000;

/// Descriptor-done bit of the write-back status field.
pub const TXD_STAT_DD: u32 = 0x1;

/// Threshold/enable word written when enabling the queue: write-back
/// threshold 1, enable set.
pub const TX_CTL_ENABLE_WORD: u32 = 0x0201_0000;

/// Word written on teardown: everything clear, enable clear.
pub const TX_CTL_DISABLE_WORD: u32 = 0;

/// Polling bound for the queue-enable bit to read back.
pub const TX_ENABLE_ATTEMPTS: usize = 1000;

/// The advanced transmit descriptor type.
#[derive(Clone, Copy, Debug, PartialEq, Eq, Structural)]
pub enum TxAdvDescType {
    Data,
    Context,
}

/// The command bits a transmit descriptor can carry.
#[derive(Clone, Copy, Debug, PartialEq, Eq, Structural)]
pub enum TxAdvDescCmd {
    EOP,
    IFCS,
    IC,
    RS,
    DEXT,
    VLE,
    IDE,
}

/// The command bit of one command.
pub open spec fn cmd_mask(c: TxAdvDescCmd) -> u32 {
    match c {
        TxAdvDescCmd::EOP => TXD_CMD_EOP,
        TxAdvDescCmd::IFCS => TXD_CMD_IFCS,
        TxAdvDescCmd::IC => TXD_CMD_IC,
        TxAdvDescCmd::RS => TXD_CMD_RS,
        TxAdvDescCmd::DEXT => TXD_CMD_DEXT,
        TxAdvDescCmd::VLE => TXD_CMD_VLE,
        TxAdvDescCmd::IDE => TXD_CMD_IDE,
    }
}

/// The OR of the command bits of a command list.
pub open spec fn cmds_mask(s: Seq<TxAdvDescCmd>) -> u32
    decreases s.len(),
{
    if s.len() == 0 {
        0u32
    } else {
        cmds_mask(s.drop_last()) | cmd_mask(s.last())
    }
}

/// The type field value of a descriptor type.
pub open spec fn type_mask(k: TxAdvDescType) -> u32 {
    match k {
        TxAdvDescType::Data => TXD_DTYPE_DATA,
        TxAdvDescType::Context => TXD_DTYPE_CTX,
    }
}

/// Software-write format of the advanced transmit descriptor.
#[derive(Clone, Copy, Debug, PartialEq, Eq, Structural)]
pub struct TxDesc {
    /// Bus address of the packet buffer.
    pub buffer_addr: u64,
    /// Packet length, descriptor type and command bits.
    pub cmd_type_len: u32,
    /// Offload information and status (posted zero).
    pub olinfo_status: u32,
}

impl TxDesc {
    /// Builds a software-write transmit descriptor: the buffer address, the
    /// length in the low bits, the descriptor type field, and the OR of the
    /// requested command bits.
    pub fn new(
        buffer_addr: u64,
        buffer_len: usize,
        kind: TxAdvDescType,
        cmd_ls: &[TxAdvDescCmd],
    ) -> (r: TxDesc)
        requires
            buffer_len <= TXD_LEN_MASK,
        ensures
            r.buffer_addr == buffer_addr,
            r.olinfo_status == 0,
            r.cmd_type_len == (buffer_len as u32) | type_mask(kind) | cmds_mask(cmd_ls@),
    {
        let mut ctl: u32 = buffer_len as u32;
        ctl = match kind {
            TxAdvDescType::Data => ctl | TXD_DTYPE_DATA,
            TxAdvDescType::Context => ctl | TXD_DTYPE_CTX,
        };
        let mut i: usize = 0;
        proof {
            assert(cmd_ls@.take(0) =~= Seq::<TxAdvDescCmd>::empty());
            assert(ctl | 0u32 == ctl) by (bit_vector);
        }
        while i < cmd_ls.len()
            invariant
                i <= cmd_ls@.len(),
                ctl == (buffer_len as u32) | type_mask(kind) | cmds_mask(cmd_ls@.take(i as int)),
            decreases cmd_ls@.len() - i,
        {
            let m: u32 = match cmd_ls[i] {
                TxAdvDescCmd::EOP => TXD_CMD_EOP,
                TxAdvDescCmd::IFCS => TXD_CMD_IFCS,
                TxAdvDescCmd::IC => TXD_CMD_IC,
                TxAdvDescCmd::RS => TXD_CMD_RS,
                TxAdvDescCmd::DEXT => TXD_CMD_DEXT,
                TxAdvDescCmd::VLE => TXD_CMD_VLE,
                TxAdvDescCmd::IDE => TXD_CMD_IDE,
            };
            proof {
                let a: u32 = (buffer_len as u32) | type_mask(kind);
                let b: u32 = cmds_mask(cmd_ls@.take(i as int));
                let c: u32 = cmd_mask(cmd_ls@[i as int]);
                assert((a | b) | c == a | (b | c)) by (bit_vector);
                assert(cmd_ls@.take(i as int + 1).drop_last() =~= cmd_ls@.take(i as int));
                assert(cmd_ls@.take(i as int + 1).last() == cmd_ls@[i as int]);
            }
            ctl = ctl | m;
            i = i + 1;
        }
        proof {
            assert(cmd_ls@.take(cmd_ls@.len() as int) =~= cmd_ls@);
            let a: u32 = buffer_len as u32;
            let t: u32 = type_mask(kind);
            let b: u32 = cmds_mask(cmd_ls@);
            assert(a | t | b == (a | t) | b) by (bit_vector);
        }
        TxDesc { buffer_addr, cmd_type_len: ctl, olinfo_status: 0 }
    }

    /// The raw 16-byte layout of the software-write form.
    pub fn to_raw(&self) -> (r: DescRaw)
        ensures
            r == (DescRaw {
                lo: self.buffer_addr,
                hi: (self.cmd_type_len as u64) | ((self.olinfo_status as u64) << 32),
            }),
    {
        DescRaw {
            lo: self.buffer_addr,
            hi: (self.cmd_type_len as u64) | ((self.olinfo_status as u64) << 32),
        }
    }
}

/// Write-back format of the advanced transmit descriptor.
#[derive(Clone, Copy, Debug, PartialEq, Eq, Structural)]
pub struct TxDescWriteBack {
    pub rsvd: u64,
    pub nxtseq_seed: u32,
    pub status: u32,
}

/// The write-back status field of a raw transmit descriptor.
pub open spec fn tx_raw_status(d: DescRaw) -> u32 {
    (d.hi >> 32) as u32
}

/// The descriptor-done bit of a raw transmit descriptor.
pub open spec fn tx_raw_done(d: DescRaw) -> bool {
    tx_raw_status(d) & TXD_STAT_DD != 0
}

impl TxDescWriteBack {
    /// Decodes the raw 16-byte layout as the write-back form.
    pub fn from_raw(d: DescRaw) -> (r: TxDescWriteBack)
        ensures
            r.rsvd == d.lo,
            r.nxtseq_seed == d.hi as u32,
            r.status == tx_raw_status(d),
    {
        TxDescWriteBack {
            rsvd: d.lo,
            nxtseq_seed: #[verifier::truncate] (d.hi as u32),
            status: #[verifier::truncate] ((d.hi >> 32) as u32),
        }
    }

    /// The device has finished with the slot (descriptor-done).
    pub fn is_done(&self) -> (r: bool)
        ensures
            r == (self.status & TXD_STAT_DD != 0),
    {
        self.status & TXD_STAT_DD != 0
    }
}

/// The command list every transmitted descriptor carries: end-of-packet,
/// report-status, insert-FCS and descriptor-extension.
pub open spec fn tx_cmds() -> Seq<TxAdvDescCmd> {
    seq![TxAdvDescCmd::EOP, TxAdvDescCmd::RS, TxAdvDescCmd::IFCS, TxAdvDescCmd::DEXT]
}

/// The cmd_type_len word of a transmitted data descriptor of length `len`.
pub open spec fn tx_ctl_word(len: u32) -> u32 {
    len | TXD_DTYPE_DATA | cmds_mask(tx_cmds())
}

/// The four always-set command bits have the combined value 0x2B00_0000.
pub proof fn lemma_tx_cmds_value()
    ensures
        cmds_mask(tx_cmds()) == 0x2B00_0000u32,
{
    let s4 = tx_cmds();
    let s3 = seq![TxAdvDescCmd::EOP, TxAdvDescCmd::RS, TxAdvDescCmd::IFCS];
    let s2 = seq![TxAdvDescCmd::EOP, TxAdvDescCmd::RS];
    let s1 = seq![TxAdvDescCmd::EOP];
    let s0 = Seq::<TxAdvDescCmd>::empty();
    assert(s1.drop_last() =~= s0);
    assert(s2.drop_last() =~= s1);
    assert(s3.drop_last() =~= s2);
    assert(s4.drop_last() =~= s3);
    assert(cmds_mask(s0) == 0u32);
    assert(cmds_mask(s1) == 0u32 | TXD_CMD_EOP);
    assert(cmds_mask(s2) == (0u32 | TXD_CMD_EOP) | TXD_CMD_RS);
    assert(cmds_mask(s3) == ((0u32 | TXD_CMD_EOP) | TXD_CMD_RS) | TXD_CMD_IFCS);
    assert(cmds_mask(s4) == (((0u32 | TXD_CMD_EOP) | TXD_CMD_RS) | TXD_CMD_IFCS)
        | TXD_CMD_DEXT);
    assert((((0u32 | 0x0100_0000) | 0x0800_0000) | 0x0200_0000) | 0x2000_0000
        == 0x2B00_0000u32) by (bit_vector);
}

/// The transmit ring: a descriptor ring of transmit descriptors and a
/// parallel table of the in-flight packet buffers, each kept until the
/// device confirms completion.
pub struct TxRing {
    /// The underlying descriptor ring.
    pub base: Ring,
    /// One entry per descriptor slot: the in-flight buffer, if the slot
    /// holds an outstanding descriptor.
    pub meta_ls: Vec<Option<Pkt>>,
    /// The queue-control (enable) register of this queue.
    pub ctl_off: u32,
}

impl TxRing {
    /// Number of descriptor slots.
    pub open spec fn cap(self) -> int {
        self.base.cap()
    }

    /// Slot `i` holds a buffer exactly when a descriptor is outstanding
    /// there.
    pub open spec fn metas_match(self, nic: Nic) -> bool {
        forall|i: int|
            0 <= i < self.cap() ==> ((#[trigger] self.meta_ls@[i]) is Some <==> self.base.posted(
                nic,
                i,
            ))
    }

    /// Well-formedness: the ring invariant and a metadata table whose
    /// occupancy mirrors the outstanding descriptors.
    pub open spec fn wf(self, nic: Nic) -> bool {
        &&& self.base.wf(nic)
        &&& self.meta_ls@.len() == self.cap()
        &&& crate::nic::is_queue_ctl(self.ctl_off)
        &&& crate::regs::reg_off_valid(self.ctl_off)
        &&& self.ctl_off != self.base.tail_off
        &&& self.ctl_off != self.base.head_off
        &&& self.metas_match(nic)
        &&& crate::pkt::live_count(self.meta_ls@) == self.base.outstanding(nic)
    }

    /// A harvest (a completed transmission to reclaim) is available.
    pub open spec fn tx_avail(self, nic: Nic) -> bool {
        self.base.hw_head(nic) != self.base.mirror_head as int
    }

    /// The outstanding count once an available slot has been reclaimed.
    pub open spec fn out_after(self, nic: Nic) -> int {
        self.base.outstanding(nic) - if self.tx_avail(nic) {
            1int
        } else {
            0int
        }
    }

    /// Initializes the transmit queue `qid`: disables the queue, programs
    /// the descriptor-table base and length registers, zeroes the
    /// positions, enables the queue with a write-back threshold of one and
    /// polls, bounded, until the enable bit reads back.
    ///
    /// Succeeds exactly when the device latches the enable bit; otherwise
    /// the bound expires with `HardwareUnresponsive`.
    pub fn new(nic: &mut Nic, qid: u32, desc_n: usize) -> (r: Result<TxRing, DriverError>)
        requires
            old(nic).wf(),
            qid < crate::regs::NUM_QUEUES,
            1 <= desc_n <= crate::ring::MAX_DESC_N,
        ensures
            final(nic).wf(),
            final(nic).phy@ == old(nic).phy@,
            final(nic).behaviour() == old(nic).behaviour(),
            r is Ok <==> old(nic).queue_enables,
            r is Err ==> r == Result::<TxRing, DriverError>::Err(
                DriverError::HardwareUnresponsive,
            ),
            r is Ok ==> {
                let ring = r->Ok_0;
                &&& ring.wf(*final(nic))
                &&& ring.cap() == desc_n
                &&& ring.base.outstanding(*final(nic)) == 0
                &&& ring.base.mirror_head == 0
                &&& forall|i: int| 0 <= i < desc_n ==> (#[trigger] ring.meta_ls@[i]) is None
                &&& ring.base.tail_off as int == TDT + qid * QUEUE_STRIDE
                &&& ring.base.head_off as int == TDH + qid * QUEUE_STRIDE
                &&& ring.ctl_off as int == TXDCTL + qid * QUEUE_STRIDE
                &&& word(ring.base.tail_off) == 0x3806 + 0x10 * qid
                &&& word(ring.base.head_off) == 0x3804 + 0x10 * qid
                &&& word(ring.ctl_off) == 0x380A + 0x10 * qid
                &&& final(nic).regs@[0x3800 + 0x10 * qid] == (ring.base.table_addr
                    & 0xFFFF_FFFF) as u32
                &&& final(nic).regs@[0x3801 + 0x10 * qid] == (ring.base.table_addr >> 32) as u32
                &&& final(nic).regs@[0x3802 + 0x10 * qid] == ((desc_n * 16) as u32)
                &&& final(nic).regs@[0x3804 + 0x10 * qid] == 0u32
                &&& final(nic).regs@[0x3806 + 0x10 * qid] == 0u32
                &&& final(nic).regs@[0x380A + 0x10 * qid] == TX_CTL_ENABLE_WORD
            },
            forall|w: int|
                0 <= w < old(nic).regs@.len() && w != 0x3800 + 0x10 * qid && w != 0x3801 + 0x10
                    * qid && w != 0x3802 + 0x10 * qid && w != 0x3804 + 0x10 * qid && w != 0x3806
                    + 0x10 * qid && w != 0x380A + 0x10 * qid
                    ==> final(nic).regs@[w] == old(nic).regs@[w],
    {
        let q_off: u32 = qid * QUEUE_STRIDE;
        let tail_off: u32 = TDT + q_off;
        let head_off: u32 = TDH + q_off;
        let ctl_off: u32 = TXDCTL + q_off;
        proof {
            lemma_tx_queue_offsets(qid);
            let k = qid as int;
            crate::ring::lemma_div_exact(0x3800 + 0x10 * k, 4);
            crate::ring::lemma_div_exact(0x3801 + 0x10 * k, 4);
            crate::ring::lemma_div_exact(0x3802 + 0x10 * k, 4);
            crate::ring::lemma_div_exact(0x3804 + 0x10 * k, 4);
            crate::ring::lemma_div_exact(0x3806 + 0x10 * k, 4);
            crate::ring::lemma_div_exact(0x380A + 0x10 * k, 4);
            assert((TDBAL + q_off) as int == 4 * (0x3800 + 0x10 * k));
            assert((TDBAH + q_off) as int == 4 * (0x3801 + 0x10 * k));
            assert((TDLEN + q_off) as int == 4 * (0x3802 + 0x10 * k));
            assert(head_off as int == 4 * (0x3804 + 0x10 * k));
            assert(tail_off as int == 4 * (0x3806 + 0x10 * k));
            assert(ctl_off as int == 4 * (0x380A + 0x10 * k));
        }
        let mut pool = DmaPool::new();
        let base_opt = Ring::new(desc_n, tail_off, head_off, &mut pool);
        let mut base: Ring = match base_opt {
            Some(b) => b,
            None => {
                return Err(DriverError::HardwareUnresponsive);
            },
        };
        let desc_table_base: u64 = base.desc_table_base();
        nic.write_reg(ctl_off, TX_CTL_DISABLE_WORD);
        proof {
            let x: u64 = desc_table_base;
            assert(x & 0xFFFF_FFFF <= 0xFFFF_FFFF && x >> 32 <= 0xFFFF_FFFF) by (bit_vector);
        }
        nic.write_reg(TDBAL + q_off, (desc_table_base & 0xFFFF_FFFF) as u32);
        nic.write_reg(TDBAH + q_off, (desc_table_base >> 32) as u32);
        nic.write_reg(TDLEN + q_off, base.desc_table_size());
        base.init_tail_head(nic);
        nic.write_reg(ctl_off, TX_CTL_ENABLE_WORD);
        proof {
            assert(0x0201_0000u32 & 0x0200_0000u32 != 0
                && (0x0201_0000u32 & !0x0200_0000u32) & 0x0200_0000u32 == 0) by (bit_vector);
        }
        let mut attempt: usize = 0;
        let mut enabled: bool = false;
        while attempt < TX_ENABLE_ATTEMPTS && !enabled
            invariant
                attempt <= TX_ENABLE_ATTEMPTS,
                enabled ==> old(nic).queue_enables,
                attempt > 0 ==> !old(nic).queue_enables,
            decreases TX_ENABLE_ATTEMPTS - attempt, if enabled { 0int } else { 1int },
        {
            if nic.read_reg(ctl_off) & DCTL_ENABLE != 0 {
                enabled = true;
            } else {
                attempt = attempt + 1;
            }
        }
        if !enabled {
            return Err(DriverError::HardwareUnresponsive);
        }
        let mut meta_ls: Vec<Option<Pkt>> = Vec::new();
        let mut i: usize = 0;
        while i < desc_n
            invariant
                i <= desc_n,
                meta_ls@.len() == i,
                forall|j: int| 0 <= j < i ==> (#[trigger] meta_ls@[j]) is None,
            decreases desc_n - i,
        {
            meta_ls.push(None);
            i = i + 1;
        }
        proof {
            crate::pkt::lemma_live_count_none(meta_ls@);
        }
        Ok(TxRing { base, meta_ls, ctl_off })
    }

    /// Transmits one packet as a single, self-contained data descriptor
    /// with end-of-packet, report-status, insert-FCS and
    /// descriptor-extension always set.
    ///
    /// First reclaims at most one completed slot, dropping the buffer the
    /// device has confirmed - the only place transmit buffers are freed.
    /// Then posts the packet; if the ring is full the packet is handed back
    /// to the caller unchanged instead of being consumed.
    pub fn transmit(&mut self, nic: &mut Nic, p: Pkt) -> (r: Result<usize, Pkt>)
        requires
            old(self).wf(*old(nic)),
            p.buff@.len() <= TXD_LEN_MASK,
        ensures
            final(self).wf(*final(nic)),
            final(nic).phy@ == old(nic).phy@,
            final(nic).behaviour() == old(nic).behaviour(),
            final(self).base.cfg() == old(self).base.cfg(),
            final(self).cap() == old(self).cap(),
            final(self).ctl_off == old(self).ctl_off,
            old(self).tx_avail(*old(nic)) ==> final(self).meta_ls@[old(
                self,
            ).base.mirror_head as int] is None,
            r is Err <==> old(self).out_after(*old(nic)) == old(self).cap() - 1,
            r is Err ==> r == Result::<usize, Pkt>::Err(p)
                && final(self).base.outstanding(*final(nic)) == old(self).out_after(*old(nic))
                && final(nic).regs@ == old(nic).regs@
                && final(self).base.descs@ == old(self).base.descs@,
            forall|i: int|
                0 <= i < old(self).cap() && i != old(self).base.mirror_head as int && i != old(
                    self,
                ).base.tail(*old(nic)) ==> (#[trigger] final(self).meta_ls@[i]) == old(
                    self,
                ).meta_ls@[i],
            forall|i: int|
                0 <= i < old(self).cap() && i != old(self).base.tail(*old(nic)) ==> (#[trigger]
                final(self).base.descs@[i]) == old(self).base.descs@[i],
            r is Ok ==> {
                let t = old(self).base.tail(*old(nic));
                &&& r == Result::<usize, Pkt>::Ok(1usize)
                &&& final(nic).regs@ == old(nic).regs@.update(
                    word(old(self).base.tail_off),
                    (if t + 1 == old(self).cap() { 0int } else { t + 1 }) as u32,
                )
                &&& final(self).meta_ls@[t] == Some(p)
                &&& final(self).base.descs@[t].lo == p.bus_addr
                &&& final(self).base.descs@[t].hi == tx_ctl_word(p.buff@.len() as u32) as u64
                &&& (final(self).base.descs@[t].hi as u32) & (TXD_CMD_EOP | TXD_CMD_RS
                    | TXD_CMD_IFCS | TXD_CMD_DEXT) == (TXD_CMD_EOP | TXD_CMD_RS | TXD_CMD_IFCS
                    | TXD_CMD_DEXT)
                &&& final(self).base.outstanding(*final(nic)) == old(self).out_after(*old(nic))
                    + 1
            },
    {
        let ghost pre = *self;
        let ghost npre = *nic;
        match self.base.get_available(nic) {
            Some((_d, idx)) => {
                proof {
                    assert(pre.base.posted(npre, idx as int));
                    assert(pre.meta_ls@[idx as int] is Some);
                }
                let _reclaimed: Option<Pkt> = self.meta_ls.remove(idx);
                self.meta_ls.insert(idx, None);
                proof {
                    assert(self.meta_ls@ =~= pre.meta_ls@.update(idx as int, None));
                }
            },
            None => {},
        }
        let ghost mid = *self;
        proof {
            lemma_tx_harvest_metas(pre, mid, npre);
        }
        let addr: u64 = p.bus_addr();
        let len: usize = p.len();
        let mut cmds: Vec<TxAdvDescCmd> = Vec::new();
        cmds.push(TxAdvDescCmd::EOP);
        cmds.push(TxAdvDescCmd::RS);
        cmds.push(TxAdvDescCmd::IFCS);
        cmds.push(TxAdvDescCmd::DEXT);
        proof {
            assert(cmds@ =~= tx_cmds());
        }
        let desc = TxDesc::new(addr, len, TxAdvDescType::Data, cmds.as_slice());
        let raw = desc.to_raw();
        proof {
            let c: u32 = desc.cmd_type_len;
            assert((c as u64) | ((0u32 as u64) << 32) == c as u64
                && ((c as u64) as u32) == c) by (bit_vector);
            lemma_tx_cmds_value();
            let l: u32 = len as u32;
            assert((l | 0x30_0000u32 | 0x2B00_0000u32) & (0x0100_0000u32 | 0x0800_0000u32
                | 0x0200_0000u32 | 0x2000_0000u32) == (0x0100_0000u32 | 0x0800_0000u32
                | 0x0200_0000u32 | 0x2000_0000u32)) by (bit_vector);
        }
        match self.base.add_desc(nic, raw) {
            Ok(t) => {
                self.meta_ls.set(t, Some(p));
                proof {
                    lemma_tx_post_metas(mid, *self, npre, *nic, t as int);
                }
                Ok(1)
            },
            Err(_) => Err(p),
        }
    }

    /// Tears the queue down: clears the queue enable bit, waits for the
    /// disable to take effect, and only then releases the in-flight buffers
    /// and zeroes the ring positions.
    ///
    /// Running the teardown again on an already-closed ring reproduces the
    /// same state: no panic, no buffer released twice (see
    /// [`crate::ring::lemma_teardown_idempotent`]).
    pub fn close(&mut self, nic: &mut Nic)
        requires
            old(self).wf(*old(nic)),
        ensures
            final(self).wf(*final(nic)),
            final(self).base.cfg() == old(self).base.cfg(),
            final(self).cap() == old(self).cap(),
            final(self).ctl_off == old(self).ctl_off,
            final(self).base.descs@ == old(self).base.descs@,
            forall|i: int| 0 <= i < final(self).cap()
                ==> (#[trigger] final(self).meta_ls@[i]) is None,
            final(self).base.outstanding(*final(nic)) == 0,
            final(nic).phy@ == old(nic).phy@,
            final(nic).behaviour() == old(nic).behaviour(),
            final(nic).regs@ == old(nic).regs@.update(
                word(old(self).ctl_off),
                TX_CTL_DISABLE_WORD,
            ).update(word(old(self).base.tail_off), 0u32).update(
                word(old(self).base.head_off),
                0u32,
            ),
    {
        proof {
            assert(0u32 & 0x0200_0000u32 == 0 && 0u32 & !0x0200_0000u32 == 0u32)
                by (bit_vector);
        }
        nic.write_reg(self.ctl_off, TX_CTL_DISABLE_WORD);
        let mut attempt: usize = 0;
        while attempt < TX_ENABLE_ATTEMPTS
            invariant
                attempt <= TX_ENABLE_ATTEMPTS,
            decreases TX_ENABLE_ATTEMPTS - attempt,
        {
            if nic.read_reg(self.ctl_off) & DCTL_ENABLE == 0 {
                break;
            }
            attempt = attempt + 1;
        }
        let n: usize = self.meta_ls.len();
        let mut i: usize = 0;
        while i < n
            invariant
                i <= n,
                self.meta_ls@.len() == n,
                n == old(self).meta_ls@.len(),
                self.base == old(self).base,
                self.ctl_off == old(self).ctl_off,
                forall|j: int| 0 <= j < i ==> (#[trigger] self.meta_ls@[j]) is None,
            decreases n - i,
        {
            self.meta_ls.set(i, None);
            i = i + 1;
        }
        proof {
            crate::pkt::lemma_live_count_none(self.meta_ls@);
        }
        self.base.init_tail_head(nic);
    }
}

/// A transmit ring never holds more than capacity − 1 in-flight buffers at
/// once.
pub proof fn lemma_tx_live_bound(r: TxRing, nic: Nic)
    requires
        r.wf(nic),
    ensures
        crate::pkt::live_count(r.meta_ls@) <= r.cap() - 1,
{
    crate::ring::lemma_outstanding_bound(r.base, nic);
}

/// After a reclaim (the mirror advanced one slot, that slot's metadata
/// cleared), the metadata table again mirrors the outstanding descriptors.
proof fn lemma_tx_harvest_metas(pre: TxRing, mid: TxRing, nic: Nic)
    requires
        pre.wf(nic),
        mid.base.wf(nic),
        mid.base.descs@ == pre.base.descs@,
        mid.base.cfg() == pre.base.cfg(),
        mid.ctl_off == pre.ctl_off,
        pre.tx_avail(nic) ==> {
            &&& mid.meta_ls@ == pre.meta_ls@.update(pre.base.mirror_head as int, None::<Pkt>)
            &&& mid.base.mirror_head as int == (if pre.base.mirror_head as int + 1 == pre.cap() {
                0int
            } else {
                pre.base.mirror_head as int + 1
            })
        },
        !pre.tx_avail(nic) ==> mid == pre,
    ensures
        mid.metas_match(nic),
        mid.meta_ls@.len() == mid.cap(),
        mid.base.outstanding(nic) == pre.out_after(nic),
        crate::pkt::live_count(mid.meta_ls@) == mid.base.outstanding(nic),
{
    if pre.tx_avail(nic) {
        let n = pre.cap();
        let mh0 = pre.base.mirror_head as int;
        let mh1 = mid.base.mirror_head as int;
        assert(pre.base.posted(nic, mh0));
        assert(pre.meta_ls@[mh0] is Some);
        crate::pkt::lemma_live_count_update(pre.meta_ls@, mh0, None);
        assert forall|i: int| 0 <= i < n implies ((#[trigger] mid.meta_ls@[i]) is Some
            <==> mid.base.posted(nic, i)) by {
            assert(pre.meta_ls@[i] is Some <==> pre.base.posted(nic, i));
            if i == mh0 {
                assert(dist(mh1, i, n) == n - 1);
            } else {
                if i >= mh1 {
                    assert(dist(mh1, i, n) == dist(mh0, i, n) - 1);
                } else {
                    assert(dist(mh1, i, n) == dist(mh0, i, n) - 1);
                }
            }
        }
    }
}

/// After a post (the packet placed at the old producer position, the
/// producer advanced one slot), the metadata table again mirrors the
/// outstanding descriptors.
proof fn lemma_tx_post_metas(mid: TxRing, post: TxRing, npre: Nic, npost: Nic, t: int)
    requires
        mid.base.wf(npre),
        mid.meta_ls@.len() == mid.cap(),
        mid.metas_match(npre),
        crate::pkt::live_count(mid.meta_ls@) == mid.base.outstanding(npre),
        post.base.wf(npost),
        t == mid.base.tail(npre),
        mid.base.outstanding(npre) < mid.cap() - 1,
        post.base.mirror_head == mid.base.mirror_head,
        post.base.cfg() == mid.base.cfg(),
        post.cap() == mid.cap(),
        post.base.outstanding(npost) == mid.base.outstanding(npre) + 1,
        post.meta_ls@ == mid.meta_ls@.update(t, post.meta_ls@[t]),
        post.meta_ls@[t] is Some,
    ensures
        post.metas_match(npost),
        post.meta_ls@.len() == post.cap(),
        crate::pkt::live_count(post.meta_ls@) == post.base.outstanding(npost),
{
    let n = mid.cap();
    let mh = mid.base.mirror_head as int;
    let out0 = mid.base.outstanding(npre);
    assert(dist(mh, t, n) == out0);
    assert(!(mid.meta_ls@[t] is Some));
    crate::pkt::lemma_live_count_update(mid.meta_ls@, t, post.meta_ls@[t]);
    assert forall|i: int| 0 <= i < n implies ((#[trigger] post.meta_ls@[i]) is Some
        <==> post.base.posted(npost, i)) by {
        if i == t {
            assert(dist(mh, i, n) == out0 < out0 + 1);
        } else {
            assert(mid.meta_ls@[i] is Some <==> mid.base.posted(npre, i));
            assert(dist(mh, i, n) != dist(mh, t, n));
        }
    }
}

/// Register offsets of transmit queue `qid`: the descriptor registers are
/// plain storage and the queue-control register is recognised as such.
proof fn lemma_tx_queue_offsets(qid: u32)
    requires
        qid < 16,
    ensures
        plain_reg((TDBAL + qid * QUEUE_STRIDE) as u32),
        plain_reg((TDBAH + qid * QUEUE_STRIDE) as u32),
        plain_reg((TDLEN + qid * QUEUE_STRIDE) as u32),
        plain_reg((TDH + qid * QUEUE_STRIDE) as u32),
        plain_reg((TDT + qid * QUEUE_STRIDE) as u32),
        crate::nic::is_queue_ctl((TXDCTL + qid * QUEUE_STRIDE) as u32),
        crate::regs::reg_off_valid((TXDCTL + qid * QUEUE_STRIDE) as u32),
{
    let k = qid as int;
    lemma_tx_off_align(0x3800 + 0x10 * k);
    lemma_tx_off_align(0x3801 + 0x10 * k);
    lemma_tx_off_align(0x3802 + 0x10 * k);
    lemma_tx_off_align(0x3804 + 0x10 * k);
    lemma_tx_off_align(0x3806 + 0x10 * k);
    lemma_tx_off_align(0x380A + 0x10 * k);
    if k >= 1 {
        crate::ring::lemma_mod_small_offset(k - 1, 0x18, 0x40);
        crate::ring::lemma_mod_small_offset(k - 1, 0x1C, 0x40);
        crate::ring::lemma_mod_small_offset(k - 1, 0x20, 0x40);
        crate::ring::lemma_mod_small_offset(k - 1, 0x28, 0x40);
        crate::ring::lemma_mod_small_offset(k - 1, 0x30, 0x40);
        assert(0xE000 + 0x40 * k - 0xE028 == 0x40 * (k - 1) + 0x18);
        assert(0xE004 + 0x40 * k - 0xE028 == 0x40 * (k - 1) + 0x1C);
        assert(0xE008 + 0x40 * k - 0xE028 == 0x40 * (k - 1) + 0x20);
        assert(0xE010 + 0x40 * k - 0xE028 == 0x40 * (k - 1) + 0x28);
        assert(0xE018 + 0x40 * k - 0xE028 == 0x40 * (k - 1) + 0x30);
    }
    crate::ring::lemma_mod_small_offset(k, 0, 0x40);
    assert(0xE028 + 0x40 * k - 0xE028 == 0x40 * k + 0);
}

/// A word-aligned offset: four times anything is divisible by four.
proof fn lemma_tx_off_align(w: int)
    requires
        0 <= w,
    ensures
        (4 * w) % 4 == 0,
{
    crate::ring::lemma_mod_small_offset(w, 0, 4);
}

/// A transmit ring's well-formedness depends on the register file only
/// through its own producer and consumer words: it survives any write
/// elsewhere.
pub proof fn lemma_tx_wf_stable(r: TxRing, nic0: Nic, nic1: Nic)
    requires
        r.wf(nic0),
        nic1.wf(),
        nic1.regs@[word(r.base.tail_off)] == nic0.regs@[word(r.base.tail_off)],
        nic1.regs@[word(r.base.head_off)] == nic0.regs@[word(r.base.head_off)],
    ensures
        r.wf(nic1),
{
    assert(r.base.tail(nic1) == r.base.tail(nic0));
    assert(r.base.hw_head(nic1) == r.base.hw_head(nic0));
    assert forall|i: int| 0 <= i < r.cap() implies ((#[trigger] r.meta_ls@[i]) is Some
        <==> r.base.posted(nic1, i)) by {
        assert(r.meta_ls@[i] is Some <==> r.base.posted(nic0, i));
    }
}

} // verus!
