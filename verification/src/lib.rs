//! Register-level driver core for an Intel-compatible gigabit Ethernet
//! controller, written against an explicit model of the device's register
//! file.
//!
//! The crate covers the packet engine of the controller: the descriptor-ring
//! bookkeeping with its software mirrors, the receive and transmit rings with
//! their binary descriptor formats and buffer lifecycles, and the MAC/PHY
//! bring-up sequence (reset, PHY power-up, auto-negotiation, link-up).
//! Hardware responses - a reset that completes, an MDIO transaction that
//! reports ready, a queue-enable bit that sticks - are folded into the
//! register model ([`nic::Nic`]) and can be turned off to exercise the error
//! paths. Real bus access, DMA allocation and interrupt wiring are
//! collaborators outside this crate; the model stands in for them at the
//! register boundary.

#![verifier::loop_isolation(false)]

use vstd::prelude::*;

pub mod mac;
pub mod mutex;
pub mod nic;
pub mod phy;
pub mod pkt;
pub mod regs;
pub mod ring;
pub mod rx;
pub mod tx;
pub mod uart;
pub mod usb;

verus! {

/// Errors surfaced by the driver.
///
/// Bring-up failures (`ResetTimeout`, `PhyAccessError`, `NoPhyLink`,
/// `HardwareUnresponsive`) abort the initialization sequence; `RingFull` is a
/// normal, recoverable condition during steady-state receive and transmit;
/// `QueueNotInitialized` reports an operation on a queue index that was never
/// allocated.
#[derive(Clone, Copy, Debug, PartialEq, Eq, Structural)]
pub enum DriverError {
    ResetTimeout,
    PhyAccessError,
    NoPhyLink,
    RingFull,
    QueueNotInitialized,
    HardwareUnresponsive,
}

/// Link speed as reported by the MAC status register.
#[derive(Clone, Copy, Debug, PartialEq, Eq, Structural)]
pub enum Speed {
    Mb10,
    Mb100,
    Mb1000,
}

/// Injected sleep primitive: blocks the calling context for the given number
/// of milliseconds. The driver core has no dependency on a scheduler; the
/// embedder supplies the implementation.
pub trait Kernel {
    fn sleep(ms: u64);
}

/// A receive ring installed as queue `q`: its registers are exactly that
/// queue's block.
pub open spec fn rx_ring_at(r: rx::RxRing, q: int) -> bool {
    &&& r.base.tail_off as int == regs::RDT + 0x40 * q
    &&& r.base.head_off as int == regs::RDH + 0x40 * q
    &&& r.ctl_off as int == regs::RXDCTL + 0x40 * q
    &&& regs::word(r.base.tail_off) == 0x3006 + 0x10 * q
    &&& regs::word(r.base.head_off) == 0x3004 + 0x10 * q
    &&& regs::word(r.ctl_off) == 0x300A + 0x10 * q
}

/// A transmit ring installed as queue `q`: its registers are exactly that
/// queue's block.
pub open spec fn tx_ring_at(r: tx::TxRing, q: int) -> bool {
    &&& r.base.tail_off as int == regs::TDT + 0x40 * q
    &&& r.base.head_off as int == regs::TDH + 0x40 * q
    &&& r.ctl_off as int == regs::TXDCTL + 0x40 * q
    &&& regs::word(r.base.tail_off) == 0x3806 + 0x10 * q
    &&& regs::word(r.base.head_off) == 0x3804 + 0x10 * q
    &&& regs::word(r.ctl_off) == 0x380A + 0x10 * q
}

/// The full bring-up succeeds on this device state: the reset completes,
/// MDIO transactions are ready, and auto-negotiation either completes or
/// the PHY already reports it complete.
pub open spec fn open_ok(d: nic::Nic) -> bool {
    &&& d.reset_completes
    &&& d.mdio == nic::MdioMode::Ready
    &&& (d.autoneg_completes || d.phy@[phy::PHY_STATUS as int] & phy::PSTATUS_AUTONEG_COMPLETE
        != 0)
}

/// The driver: the MAC controller owning the register block, the PHY
/// controller, and one lazily created receive/transmit ring pair per queue
/// index.
pub struct Igb {
    pub mac: mac::Mac,
    pub phy: phy::Phy,
    pub rx_rings: Vec<Option<rx::RxRing>>,
    pub tx_rings: Vec<Option<tx::TxRing>>,
}

impl Igb {
    /// Well-formedness: a sized register model, a valid PHY address, one
    /// ring slot per queue, and every installed ring well-formed against
    /// the registers of its own queue.
    pub open spec fn wf(self) -> bool {
        &&& self.mac.dev.wf()
        &&& self.phy.wf()
        &&& self.rx_rings@.len() == regs::NUM_QUEUES
        &&& self.tx_rings@.len() == regs::NUM_QUEUES
        &&& forall|q: int|
            0 <= q < regs::NUM_QUEUES ==> ((#[trigger] self.rx_rings@[q]) is Some
                ==> self.rx_rings@[q]->0.wf(self.mac.dev) && rx_ring_at(self.rx_rings@[q]->0, q))
        &&& forall|q: int|
            0 <= q < regs::NUM_QUEUES ==> ((#[trigger] self.tx_rings@[q]) is Some
                ==> self.tx_rings@[q]->0.wf(self.mac.dev) && tx_ring_at(self.tx_rings@[q]->0, q))
        &&& forall|q: int|
            0 <= q < regs::NUM_QUEUES ==> ((#[trigger] self.rx_rings@[q]) is Some
                <==> self.tx_rings@[q] is Some)
    }

    /// Builds the driver around a device register block. No queue exists
    /// yet; `open` runs the bring-up and `alloc_new_qeueu` creates queues
    /// on demand.
    pub fn new(dev: nic::Nic) -> (r: Igb)
        requires
            dev.wf(),
        ensures
            r.wf(),
            r.mac.dev == dev,
            forall|q: int| 0 <= q < regs::NUM_QUEUES ==> (#[trigger] r.rx_rings@[q]) is None,
            forall|q: int| 0 <= q < regs::NUM_QUEUES ==> (#[trigger] r.tx_rings@[q]) is None,
    {
        let mac = mac::Mac::new(dev);
        let phy = phy::Phy::new(1);
        let mut rx_rings: Vec<Option<rx::RxRing>> = Vec::new();
        let mut tx_rings: Vec<Option<tx::TxRing>> = Vec::new();
        let mut q: u32 = 0;
        while q < regs::NUM_QUEUES
            invariant
                q <= regs::NUM_QUEUES,
                rx_rings@.len() == q,
                tx_rings@.len() == q,
                forall|j: int| 0 <= j < q ==> (#[trigger] rx_rings@[j]) is None,
                forall|j: int| 0 <= j < q ==> (#[trigger] tx_rings@[j]) is None,
            decreases regs::NUM_QUEUES - q,
        {
            rx_rings.push(None);
            tx_rings.push(None);
            q = q + 1;
        }
        Igb { mac, phy, rx_rings, tx_rings }
    }

    /// Whether a bus device matches this driver: the expected vendor with
    /// either supported device identifier.
    pub fn check_vid_did(vid: u16, did: u16) -> (r: bool)
        ensures
            r == (vid == 0x8086 && (did == 0x10C9 || did == 0x1533)),
    {
        vid == 0x8086 && (did == 0x10C9 || did == 0x1533)
    }

    /// The decoded status register; a pure read, recomputed on demand.
    pub fn status(&self) -> (st: mac::MacStatus)
        requires
            self.wf(),
        ensures
            st == mac::spec_status(self.mac.dev.regs@[regs::word(regs::STATUS)]),
    {
        self.mac.status()
    }

    /// The hardware MAC address from the address filter registers.
    pub fn mac_addr(&self) -> (r: mac::MacAddr)
        requires
            self.wf(),
        ensures
            r.octets@ == mac::mac_octets(
                ((self.mac.dev.regs@[regs::word(regs::RAH0)] as u64) << 32)
                    | self.mac.dev.regs@[regs::word(regs::RAL0)] as u64,
            ),
    {
        self.mac.mac_addr()
    }

    /// Runs the bring-up sequence: mask interrupts, reset, mask again,
    /// power the PHY up, enable and restart auto-negotiation, command
    /// link-up, wait for negotiation, then enable receive and transmit.
    ///
    /// Succeeds exactly on a device where the reset completes, MDIO is
    /// ready and negotiation completes (see [`open_ok`]); the first failing
    /// step aborts the sequence and surfaces its error, leaving the device
    /// disabled.
    pub fn open<K: Kernel>(&mut self) -> (r: Result<(), DriverError>)
        requires
            old(self).wf(),
        ensures
            final(self).wf(),
            final(self).mac.dev.behaviour() == old(self).mac.dev.behaviour(),
            final(self).rx_rings@ == old(self).rx_rings@,
            final(self).tx_rings@ == old(self).tx_rings@,
            r is Ok <==> open_ok(old(self).mac.dev),
            !old(self).mac.dev.reset_completes ==> r == Result::<(), DriverError>::Err(
                DriverError::ResetTimeout,
            ),
            old(self).mac.dev.reset_completes && old(self).mac.dev.mdio == nic::MdioMode::Fault
                ==> r == Result::<(), DriverError>::Err(DriverError::PhyAccessError),
            old(self).mac.dev.reset_completes && old(self).mac.dev.mdio == nic::MdioMode::Silent
                ==> r == Result::<(), DriverError>::Err(DriverError::HardwareUnresponsive),
            old(self).mac.dev.reset_completes && old(self).mac.dev.mdio == nic::MdioMode::Ready
                && !open_ok(old(self).mac.dev) ==> r == Result::<(), DriverError>::Err(
                DriverError::NoPhyLink,
            ),
            r is Ok ==> final(self).mac.dev.regs@[regs::word(regs::RCTL)] == old(
                self,
            ).mac.dev.regs@[regs::word(regs::RCTL)] | regs::RCTL_RXEN,
            r is Ok ==> final(self).mac.dev.regs@[regs::word(regs::TCTL)] == old(
                self,
            ).mac.dev.regs@[regs::word(regs::TCTL)] | regs::TCTL_EN,
    {
        let ghost pre = *self;
        self.mac.disable_irq();
        let reset_result = self.mac.reset::<K>();
        proof {
            lemma_rings_stable(pre, *self);
        }
        match reset_result {
            Ok(()) => {},
            Err(e) => {
                return Err(e);
            },
        }
        self.mac.disable_irq();
        let pu = self.phy.power_up(&mut self.mac);
        proof {
            lemma_rings_stable(pre, *self);
        }
        match pu {
            Ok(()) => {},
            Err(e) => {
                return Err(e);
            },
        }
        let an = self.phy.enable_auto_negotiation(&mut self.mac);
        proof {
            lemma_rings_stable(pre, *self);
        }
        match an {
            Ok(()) => {},
            Err(e) => {
                return Err(e);
            },
        }
        self.mac.link_up();
        let neg = self.phy.wait_for_negotiate::<K>(&mut self.mac);
        proof {
            lemma_rings_stable(pre, *self);
        }
        match neg {
            Ok(()) => {},
            Err(e) => {
                return Err(e);
            },
        }
        self.mac.enable_rx_tx();
        proof {
            lemma_rings_stable(pre, *self);
        }
        Ok(())
    }
}

/// Any sequence of MAC and PHY register operations leaves every installed
/// ring well-formed: those operations never touch a queue's descriptor
/// position words, which all lie at or above word 0x3000.
proof fn lemma_rings_stable(pre: Igb, cur: Igb)
    requires
        pre.wf(),
        cur.mac.dev.wf(),
        cur.rx_rings@ == pre.rx_rings@,
        cur.tx_rings@ == pre.tx_rings@,
        cur.phy == pre.phy,
        forall|w: int|
            0x3000 <= w < regs::REG_WORDS ==> cur.mac.dev.regs@[w] == pre.mac.dev.regs@[w],
    ensures
        cur.wf(),
{
    assert forall|q: int|
        0 <= q < regs::NUM_QUEUES && (#[trigger] cur.rx_rings@[q]) is Some implies
        cur.rx_rings@[q]->0.wf(cur.mac.dev) && rx_ring_at(cur.rx_rings@[q]->0, q) by {
        assert(pre.rx_rings@[q]->0.wf(pre.mac.dev) && rx_ring_at(pre.rx_rings@[q]->0, q));
        rx::lemma_rx_wf_stable(cur.rx_rings@[q]->0, pre.mac.dev, cur.mac.dev);
    }
    assert forall|q: int|
        0 <= q < regs::NUM_QUEUES && (#[trigger] cur.tx_rings@[q]) is Some implies
        cur.tx_rings@[q]->0.wf(cur.mac.dev) && tx_ring_at(cur.tx_rings@[q]->0, q) by {
        assert(pre.tx_rings@[q]->0.wf(pre.mac.dev) && tx_ring_at(pre.tx_rings@[q]->0, q));
        tx::lemma_tx_wf_stable(cur.tx_rings@[q]->0, pre.mac.dev, cur.mac.dev);
    }
}

impl Igb {
    /// Creates the receive/transmit ring pair for queue `qid` with `desc_n`
    /// descriptors per ring and the given receive buffer size.
    ///
    /// Creation is idempotent: re-requesting an existing queue is a no-op
    /// that succeeds. A fresh queue succeeds exactly when the device
    /// latches the queue-enable bits.
    pub fn alloc_new_qeueu(&mut self, qid: usize, desc_n: usize, pkt_size: u32) -> (r: Result<
        (),
        DriverError,
    >)
        requires
            old(self).wf(),
            qid < regs::NUM_QUEUES,
            1 <= desc_n <= ring::MAX_DESC_N,
            pkt_size <= 0x1_FFFF,
        ensures
            final(self).wf(),
            final(self).mac.dev.behaviour() == old(self).mac.dev.behaviour(),
            old(self).rx_rings@[qid as int] is Some ==> r == Result::<(), DriverError>::Ok(())
                && *final(self) == *old(self),
            old(self).rx_rings@[qid as int] is None
                ==> (r is Ok <==> old(self).mac.dev.queue_enables),
            r is Err ==> r == Result::<(), DriverError>::Err(DriverError::HardwareUnresponsive),
            r is Ok ==> final(self).rx_rings@[qid as int] is Some
                && final(self).tx_rings@[qid as int] is Some,
            forall|p: int|
                0 <= p < regs::NUM_QUEUES && p != qid ==> (#[trigger] final(self).rx_rings@[p])
                    == old(self).rx_rings@[p],
            forall|p: int|
                0 <= p < regs::NUM_QUEUES && p != qid ==> (#[trigger] final(self).tx_rings@[p])
                    == old(self).tx_rings@[p],
    {
        let ghost pre = *self;
        if self.rx_rings[qid].is_some() {
            return Ok(());
        }
        let rx_result = rx::RxRing::new(&mut self.mac.dev, qid as u32, desc_n, pkt_size);
        let rxr = match rx_result {
            Ok(rr) => rr,
            Err(e) => {
                proof {
                    lemma_rings_stable_except(pre, *self, qid as int);
                }
                return Err(e);
            },
        };
        let ghost mid_dev: nic::Nic = self.mac.dev;
        let tx_result = tx::TxRing::new(&mut self.mac.dev, qid as u32, desc_n);
        let txr = match tx_result {
            Ok(tr) => tr,
            Err(e) => {
                proof {
                    assert(false);
                }
                return Err(e);
            },
        };
        proof {
            rx::lemma_rx_wf_stable(rxr, mid_dev, self.mac.dev);
        }
        self.rx_rings.set(qid, Some(rxr));
        self.tx_rings.set(qid, Some(txr));
        proof {
            lemma_rings_stable_except(pre, *self, qid as int);
        }
        Ok(())
    }
}

/// Every ring other than queue `qx`'s stays well-formed when only queue
/// `qx`'s register words change: distinct queues use disjoint words.
proof fn lemma_rings_stable_except(pre: Igb, cur: Igb, qx: int)
    requires
        pre.wf(),
        0 <= qx < regs::NUM_QUEUES,
        cur.mac.dev.wf(),
        cur.phy == pre.phy,
        cur.rx_rings@.len() == regs::NUM_QUEUES,
        cur.tx_rings@.len() == regs::NUM_QUEUES,
        forall|p: int|
            0 <= p < regs::NUM_QUEUES && p != qx ==> (#[trigger] cur.rx_rings@[p])
                == pre.rx_rings@[p],
        forall|p: int|
            0 <= p < regs::NUM_QUEUES && p != qx ==> (#[trigger] cur.tx_rings@[p])
                == pre.tx_rings@[p],
        forall|w: int|
            0 <= w < regs::REG_WORDS && !(0x3000 + 0x10 * qx <= w <= 0x300A + 0x10 * qx) && !(
            0x3800 + 0x10 * qx <= w <= 0x380A + 0x10 * qx) ==> cur.mac.dev.regs@[w]
                == pre.mac.dev.regs@[w],
        cur.rx_rings@[qx] is Some ==> cur.rx_rings@[qx]->0.wf(cur.mac.dev) && rx_ring_at(
            cur.rx_rings@[qx]->0,
            qx,
        ),
        cur.tx_rings@[qx] is Some ==> cur.tx_rings@[qx]->0.wf(cur.mac.dev) && tx_ring_at(
            cur.tx_rings@[qx]->0,
            qx,
        ),
        cur.rx_rings@[qx] is Some <==> cur.tx_rings@[qx] is Some,
    ensures
        cur.wf(),
{
    assert forall|q: int|
        0 <= q < regs::NUM_QUEUES && (#[trigger] cur.rx_rings@[q]) is Some implies
        cur.rx_rings@[q]->0.wf(cur.mac.dev) && rx_ring_at(cur.rx_rings@[q]->0, q) by {
        if q != qx {
            assert(pre.rx_rings@[q]->0.wf(pre.mac.dev) && rx_ring_at(pre.rx_rings@[q]->0, q));
            rx::lemma_rx_wf_stable(cur.rx_rings@[q]->0, pre.mac.dev, cur.mac.dev);
        }
    }
    assert forall|q: int|
        0 <= q < regs::NUM_QUEUES && (#[trigger] cur.tx_rings@[q]) is Some implies
        cur.tx_rings@[q]->0.wf(cur.mac.dev) && tx_ring_at(cur.tx_rings@[q]->0, q) by {
        if q != qx {
            assert(pre.tx_rings@[q]->0.wf(pre.mac.dev) && tx_ring_at(pre.tx_rings@[q]->0, q));
            tx::lemma_tx_wf_stable(cur.tx_rings@[q]->0, pre.mac.dev, cur.mac.dev);
        }
    }
}

impl Igb {
    /// Harvests at most one received packet from queue `qid` and reposts a
    /// fresh buffer, as the receive ring does. Returns nothing when the
    /// queue was never allocated or no completed, error-free buffer is
    /// waiting.
    pub fn receive(&mut self, qid: usize) -> (r: Option<pkt::Pkt>)
        requires
            old(self).wf(),
        ensures
            final(self).wf(),
            final(self).mac.dev.behaviour() == old(self).mac.dev.behaviour(),
            qid >= regs::NUM_QUEUES || old(self).rx_rings@[qid as int] is None ==> r is None
                && *final(self) == *old(self),
            qid < regs::NUM_QUEUES && old(self).rx_rings@[qid as int] is Some ==> {
                let ring0 = old(self).rx_rings@[qid as int]->0;
                let d0 = old(self).mac.dev;
                &&& (r is Some <==> ring0.rx_good(d0))
                &&& (r is Some ==> r == Some(
                    ring0.mete_ls@[ring0.base.mirror_head as int]->0,
                ))
                &&& final(self).rx_rings@[qid as int] is Some
                &&& (r is Some ==> {
                    let ringf = final(self).rx_rings@[qid as int]->0;
                    forall|i: int|
                        0 <= i < ringf.cap() && (#[trigger] ringf.mete_ls@[i]) is Some
                            ==> ringf.addr_of(i) != r->0.bus_addr
                })
                &&& (ring0.rx_posts(d0) ==> {
                    let ringf = final(self).rx_rings@[qid as int]->0;
                    let t = ring0.base.tail(d0);
                    &&& ringf.base.outstanding(final(self).mac.dev) == ring0.out_after(d0) + 1
                    &&& ringf.mete_ls@[t] is Some
                    &&& ringf.mete_ls@[t]->0.buff@.len() == ring0.pkt_size
                    &&& ringf.mete_ls@[t]->0.direction == pkt::Direction::FromDevice
                })
                &&& (!ring0.rx_posts(d0) ==> final(self).rx_rings@[qid as int]->0.base.outstanding(
                    final(self).mac.dev,
                ) == ring0.out_after(d0))
            },
            forall|p: int|
                0 <= p < regs::NUM_QUEUES && p != qid ==> (#[trigger] final(self).rx_rings@[p])
                    == old(self).rx_rings@[p],
            final(self).tx_rings@ == old(self).tx_rings@,
    {
        if qid >= 16 {
            return None;
        }
        if !self.rx_rings[qid].is_some() {
            return None;
        }
        let ghost pre = *self;
        let res: Option<pkt::Pkt>;
        match &mut self.rx_rings[qid] {
            Some(ring) => {
                res = ring.receive(&mut self.mac.dev);
            },
            None => {
                res = None;
            },
        }
        proof {
            lemma_rings_stable_except(pre, *self, qid as int);
        }
        res
    }

    /// Transmits one packet on queue `qid` as a single, self-contained
    /// descriptor, after reclaiming at most one completed slot.
    ///
    /// Fails with `QueueNotInitialized` when the queue was never allocated
    /// and with `RingFull` exactly when the ring still holds capacity − 1
    /// in-flight descriptors after reclamation; the packet is consumed
    /// either way.
    pub fn transmit(&mut self, qid: usize, p: pkt::Pkt) -> (r: Result<usize, DriverError>)
        requires
            old(self).wf(),
            p.buff@.len() <= tx::TXD_LEN_MASK,
        ensures
            final(self).wf(),
            final(self).mac.dev.behaviour() == old(self).mac.dev.behaviour(),
            qid >= regs::NUM_QUEUES || old(self).tx_rings@[qid as int] is None ==> r
                == Result::<usize, DriverError>::Err(DriverError::QueueNotInitialized)
                && *final(self) == *old(self),
            qid < regs::NUM_QUEUES && old(self).tx_rings@[qid as int] is Some ==> {
                let ring0 = old(self).tx_rings@[qid as int]->0;
                let d0 = old(self).mac.dev;
                &&& (ring0.tx_avail(d0) ==> final(self).tx_rings@[qid as int]->0.meta_ls@[
                    ring0.base.mirror_head as int] is None)
                &&& final(self).tx_rings@[qid as int]->0.base.outstanding(final(self).mac.dev)
                    == ring0.out_after(d0) + if r is Ok { 1int } else { 0int }
                &&& (r == Result::<usize, DriverError>::Err(DriverError::RingFull) <==> ring0.out_after(
                    d0,
                ) == ring0.cap() - 1)
                &&& (r is Ok ==> {
                    let t = ring0.base.tail(d0);
                    let ringf = final(self).tx_rings@[qid as int]->0;
                    &&& r == Result::<usize, DriverError>::Ok(1usize)
                    &&& final(self).tx_rings@[qid as int] is Some
                    &&& ringf.meta_ls@[t] == Some(p)
                    &&& (ringf.base.descs@[t].hi as u32) & (tx::TXD_CMD_EOP | tx::TXD_CMD_RS
                        | tx::TXD_CMD_IFCS | tx::TXD_CMD_DEXT) == (tx::TXD_CMD_EOP
                        | tx::TXD_CMD_RS | tx::TXD_CMD_IFCS | tx::TXD_CMD_DEXT)
                })
            },
            forall|p_: int|
                0 <= p_ < regs::NUM_QUEUES && p_ != qid
                    ==> (#[trigger] final(self).tx_rings@[p_]) == old(self).tx_rings@[p_],
            final(self).rx_rings@ == old(self).rx_rings@,
    {
        if qid >= 16 {
            return Err(DriverError::QueueNotInitialized);
        }
        if !self.tx_rings[qid].is_some() {
            return Err(DriverError::QueueNotInitialized);
        }
        let ghost pre = *self;
        let out: Result<usize, pkt::Pkt>;
        match &mut self.tx_rings[qid] {
            Some(ring) => {
                out = ring.transmit(&mut self.mac.dev, p);
            },
            None => {
                proof {
                    assert(false);
                }
                return Err(DriverError::QueueNotInitialized);
            },
        }
        proof {
            lemma_rings_stable_except(pre, *self, qid as int);
        }
        match out {
            Ok(n) => Ok(n),
            Err(_unsent) => Err(DriverError::RingFull),
        }
    }

    /// Tears every queue down: each ring disables its engine and releases
    /// its buffers before the pair is dropped, so the register file carries
    /// every installed queue's disable effect and nothing else changes.
    ///
    /// Closing an already-closed driver is a no-op: no panic, no buffer
    /// released twice, nothing written to the device.
    pub fn close(&mut self)
        requires
            old(self).wf(),
        ensures
            final(self).wf(),
            final(self).mac.dev.behaviour() == old(self).mac.dev.behaviour(),
            forall|q: int|
                0 <= q < regs::NUM_QUEUES ==> (#[trigger] final(self).rx_rings@[q]) is None,
            forall|q: int|
                0 <= q < regs::NUM_QUEUES ==> (#[trigger] final(self).tx_rings@[q]) is None,
            forall|q: int|
                0 <= q < regs::NUM_QUEUES && (#[trigger] old(self).rx_rings@[q]) is Some ==> {
                    &&& final(self).mac.dev.regs@[0x300A + 0x10 * q] == rx::RX_CTL_DISABLE_WORD
                    &&& final(self).mac.dev.regs@[0x3006 + 0x10 * q] == 0u32
                    &&& final(self).mac.dev.regs@[0x3004 + 0x10 * q] == 0u32
                    &&& final(self).mac.dev.regs@[0x380A + 0x10 * q] == tx::TX_CTL_DISABLE_WORD
                    &&& final(self).mac.dev.regs@[0x3806 + 0x10 * q] == 0u32
                    &&& final(self).mac.dev.regs@[0x3804 + 0x10 * q] == 0u32
                },
            forall|w: int|
                0 <= w < regs::REG_WORDS && !teardown_touches(
                    *old(self),
                    w,
                    regs::NUM_QUEUES as int,
                ) ==> final(self).mac.dev.regs@[w] == old(self).mac.dev.regs@[w],
            (forall|q: int|
                0 <= q < regs::NUM_QUEUES ==> (#[trigger] old(self).rx_rings@[q]) is None
                    && old(self).tx_rings@[q] is None) ==> *final(self) == *old(self),
    {
        let mut q: usize = 0;
        while q < 16
            invariant
                q <= 16,
                self.wf(),
                self.phy == old(self).phy,
                self.mac.dev.behaviour() == old(self).mac.dev.behaviour(),
                forall|j: int| 0 <= j < q ==> (#[trigger] self.rx_rings@[j]) is None,
                forall|j: int| 0 <= j < q ==> (#[trigger] self.tx_rings@[j]) is None,
                forall|j: int|
                    q <= j < regs::NUM_QUEUES ==> (#[trigger] self.rx_rings@[j]) == old(
                        self,
                    ).rx_rings@[j],
                forall|j: int|
                    q <= j < regs::NUM_QUEUES ==> (#[trigger] self.tx_rings@[j]) == old(
                        self,
                    ).tx_rings@[j],
                forall|j: int|
                    0 <= j < q && (#[trigger] old(self).rx_rings@[j]) is Some ==> {
                        &&& self.mac.dev.regs@[0x300A + 0x10 * j] == rx::RX_CTL_DISABLE_WORD
                        &&& self.mac.dev.regs@[0x3006 + 0x10 * j] == 0u32
                        &&& self.mac.dev.regs@[0x3004 + 0x10 * j] == 0u32
                        &&& self.mac.dev.regs@[0x380A + 0x10 * j] == tx::TX_CTL_DISABLE_WORD
                        &&& self.mac.dev.regs@[0x3806 + 0x10 * j] == 0u32
                        &&& self.mac.dev.regs@[0x3804 + 0x10 * j] == 0u32
                    },
                forall|w: int|
                    0 <= w < regs::REG_WORDS && !teardown_touches(*old(self), w, q as int)
                        ==> self.mac.dev.regs@[w] == old(self).mac.dev.regs@[w],
                (forall|j: int|
                    0 <= j < regs::NUM_QUEUES ==> (#[trigger] old(self).rx_rings@[j]) is None
                        && old(self).tx_rings@[j] is None) ==> *self == *old(self),
            decreases 16 - q,
        {
            let ghost pre_iter = *self;
            self.close_queue(q);
            proof {
                assert forall|j: int|
                    0 <= j < q as int + 1 && (#[trigger] old(self).rx_rings@[j]) is Some
                    implies {
                    &&& self.mac.dev.regs@[0x300A + 0x10 * j] == rx::RX_CTL_DISABLE_WORD
                    &&& self.mac.dev.regs@[0x3006 + 0x10 * j] == 0u32
                    &&& self.mac.dev.regs@[0x3004 + 0x10 * j] == 0u32
                    &&& self.mac.dev.regs@[0x380A + 0x10 * j] == tx::TX_CTL_DISABLE_WORD
                    &&& self.mac.dev.regs@[0x3806 + 0x10 * j] == 0u32
                    &&& self.mac.dev.regs@[0x3804 + 0x10 * j] == 0u32
                } by {
                    if j < q as int {
                        assert(pre_iter.mac.dev.regs@[0x300A + 0x10 * j]
                            == rx::RX_CTL_DISABLE_WORD);
                        if pre_iter.rx_rings@[q as int] is Some {
                            assert(!queue_teardown_words(q as int, 0x300A + 0x10 * j));
                            assert(!queue_teardown_words(q as int, 0x3006 + 0x10 * j));
                            assert(!queue_teardown_words(q as int, 0x3004 + 0x10 * j));
                            assert(!queue_teardown_words(q as int, 0x380A + 0x10 * j));
                            assert(!queue_teardown_words(q as int, 0x3806 + 0x10 * j));
                            assert(!queue_teardown_words(q as int, 0x3804 + 0x10 * j));
                        }
                    } else {
                        assert(pre_iter.rx_rings@[q as int] is Some);
                    }
                }
                if pre_iter.rx_rings@[q as int] is Some {
                    assert forall|w: int|
                        0 <= w < regs::REG_WORDS && !teardown_touches(
                            *old(self),
                            w,
                            q as int + 1,
                        ) implies self.mac.dev.regs@[w] == old(self).mac.dev.regs@[w] by {
                        if queue_teardown_words(q as int, w) {
                            assert(teardown_touches(*old(self), w, q as int + 1));
                        } else {
                            assert(!teardown_touches(*old(self), w, q as int));
                        }
                    }
                } else {
                    assert forall|w: int|
                        0 <= w < regs::REG_WORDS && !teardown_touches(
                            *old(self),
                            w,
                            q as int + 1,
                        ) implies self.mac.dev.regs@[w] == old(self).mac.dev.regs@[w] by {
                        assert(!teardown_touches(*old(self), w, q as int));
                    }
                }
            }
            q = q + 1;
        }
    }

    /// Tears one queue down: disables its receive and transmit engines and
    /// releases the pair's buffers. A no-op when the queue was never
    /// created.
    fn close_queue(&mut self, q: usize)
        requires
            old(self).wf(),
            q < regs::NUM_QUEUES,
        ensures
            final(self).wf(),
            final(self).phy == old(self).phy,
            final(self).mac.dev.behaviour() == old(self).mac.dev.behaviour(),
            final(self).rx_rings@[q as int] is None,
            final(self).tx_rings@[q as int] is None,
            forall|p: int|
                0 <= p < regs::NUM_QUEUES && p != q ==> (#[trigger] final(self).rx_rings@[p])
                    == old(self).rx_rings@[p],
            forall|p: int|
                0 <= p < regs::NUM_QUEUES && p != q ==> (#[trigger] final(self).tx_rings@[p])
                    == old(self).tx_rings@[p],
            old(self).rx_rings@[q as int] is None ==> *final(self) == *old(self),
            old(self).rx_rings@[q as int] is Some ==> {
                &&& final(self).mac.dev.regs@[0x300A + 0x10 * q] == rx::RX_CTL_DISABLE_WORD
                &&& final(self).mac.dev.regs@[0x3006 + 0x10 * q] == 0u32
                &&& final(self).mac.dev.regs@[0x3004 + 0x10 * q] == 0u32
                &&& final(self).mac.dev.regs@[0x380A + 0x10 * q] == tx::TX_CTL_DISABLE_WORD
                &&& final(self).mac.dev.regs@[0x3806 + 0x10 * q] == 0u32
                &&& final(self).mac.dev.regs@[0x3804 + 0x10 * q] == 0u32
                &&& forall|w: int|
                    0 <= w < regs::REG_WORDS && !queue_teardown_words(q as int, w)
                        ==> final(self).mac.dev.regs@[w] == old(self).mac.dev.regs@[w]
            },
    {
        let rx_present: bool = self.rx_rings[q].is_some();
        if rx_present {
            match &mut self.rx_rings[q] {
                Some(ring) => {
                    ring.close(&mut self.mac.dev);
                },
                None => {},
            }
            match &mut self.tx_rings[q] {
                Some(ring) => {
                    ring.close(&mut self.mac.dev);
                },
                None => {
                    proof {
                        assert(false);
                    }
                },
            }
            self.rx_rings.set(q, None);
            self.tx_rings.set(q, None);
            proof {
                lemma_rings_stable_except(*old(self), *self, q as int);
            }
        }
    }
}

/// The register words a queue's teardown writes: the position words and the
/// control word of its receive and of its transmit block.
pub open spec fn queue_teardown_words(q: int, w: int) -> bool {
    ||| w == 0x3004 + 0x10 * q
    ||| w == 0x3006 + 0x10 * q
    ||| w == 0x300A + 0x10 * q
    ||| w == 0x3804 + 0x10 * q
    ||| w == 0x3806 + 0x10 * q
    ||| w == 0x380A + 0x10 * q
}

/// Some queue below `upto` is installed in `pre` and its teardown writes
/// word `w`.
pub open spec fn teardown_touches(pre: Igb, w: int, upto: int) -> bool {
    exists|q: int|
        0 <= q < upto && (#[trigger] pre.rx_rings@[q]) is Some && queue_teardown_words(q, w)
}

} // verus!
