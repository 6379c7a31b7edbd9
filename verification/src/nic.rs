//! A register-level model of the controller.
//!
//! The driver talks to the device exclusively through [`Nic::read_reg`] and
//! [`Nic::write_reg`]. The model stores the register block as plain words and
//! folds the device's immediate responses into the write: reset bits that
//! self-clear once the reset has completed, MDIO transactions that resolve to
//! ready, error or silence, and queue-enable bits that stick or refuse to.
//! Each response can be switched off through the behaviour fields, which
//! stand in for an unresponsive or faulty device and drive the error paths of
//! the driver.

use vstd::prelude::*;

use crate::regs::{
    word, reg_off_valid, CTRL, CTRL_PHY_RST, CTRL_RST, DCTL_ENABLE, MDIC, MDIC_DATA_MASK,
    MDIC_ERROR, MDIC_OP_MASK, MDIC_OP_READ, MDIC_OP_WRITE, MDIC_READY, NUM_QUEUES, PHY_NREGS,
    QUEUE_STRIDE, REG_WORDS, RXDCTL, TXDCTL,
};

verus! {

/// How the device answers MDIO transactions written to the MDIC register.
#[derive(Clone, Copy, Debug, PartialEq, Eq, Structural)]
pub enum MdioMode {
    /// Transactions complete: the ready bit is set on write-back.
    Ready,
    /// Transactions fail: the error bit is set on write-back.
    Fault,
    /// Transactions never complete: neither bit is ever set.
    Silent,
}

/// The modelled register file of the controller, with the device's immediate
/// responses folded into writes.
pub struct Nic {
    /// The register block, one entry per 32-bit word.
    pub regs: Vec<u32>,
    /// The PHY registers reachable over MDIO.
    pub phy: Vec<u16>,
    /// Whether a commanded reset completes (the reset bits read back clear).
    pub reset_completes: bool,
    /// How MDIO transactions resolve.
    pub mdio: MdioMode,
    /// Whether restarting auto-negotiation leads to its completion bit being
    /// set in the PHY status register.
    pub autoneg_completes: bool,
    /// Whether writing a queue-enable bit makes it read back set.
    pub queue_enables: bool,
}

/// A queue-control register offset (RXDCTL or TXDCTL of any queue): the
/// registers whose enable bit the device may refuse to latch.
pub open spec fn is_queue_ctl(off: u32) -> bool {
    ||| (RXDCTL <= off < RXDCTL + NUM_QUEUES * QUEUE_STRIDE
        && (off - RXDCTL) % (QUEUE_STRIDE as int) == 0)
    ||| (TXDCTL <= off < TXDCTL + NUM_QUEUES * QUEUE_STRIDE
        && (off - TXDCTL) % (QUEUE_STRIDE as int) == 0)
}

/// The PHY register address field of an MDIC transaction word.
pub open spec fn mdic_regaddr(v: u32) -> int {
    ((v >> 16) & 0x1F) as int
}

/// The MDIC register contents after the device has processed a software
/// write of `v`, given the MDIO behaviour and PHY registers of `pre`.
pub open spec fn mdic_result(pre: Nic, v: u32) -> u32 {
    match pre.mdio {
        MdioMode::Ready => {
            if v & MDIC_OP_MASK == MDIC_OP_READ {
                (v & !(MDIC_DATA_MASK | MDIC_ERROR)) | MDIC_READY
                    | pre.phy@[mdic_regaddr(v)] as u32
            } else if v & MDIC_OP_MASK == MDIC_OP_WRITE {
                (v & !MDIC_ERROR) | MDIC_READY
            } else {
                v & !(MDIC_READY | MDIC_ERROR)
            }
        },
        MdioMode::Fault => (v | MDIC_ERROR) & !MDIC_READY,
        MdioMode::Silent => v & !(MDIC_READY | MDIC_ERROR),
    }
}

/// The PHY registers after an MDIO write of `data` to register `ra`.
///
/// Writing the PHY control register with both the auto-negotiation-enable
/// and restart bits set makes the device run auto-negotiation; when
/// `autoneg` holds, it completes and the completion bit appears in the PHY
/// status register.
pub open spec fn phy_written(pre: Seq<u16>, autoneg: bool, ra: int, data: u16) -> Seq<u16> {
    let p = pre.update(ra, data);
    if ra == 0 && data & 0x1200 == 0x1200 && autoneg {
        p.update(1, p[1] | 0x0020)
    } else {
        p
    }
}

/// The value that lands in the written register word: the device's immediate
/// response to a software write of `v` at offset `off`.
pub open spec fn stored_val(pre: Nic, off: u32, v: u32) -> u32 {
    if off == CTRL {
        if v & (CTRL_RST | CTRL_PHY_RST) != 0 && pre.reset_completes {
            v & !(CTRL_RST | CTRL_PHY_RST)
        } else {
            v
        }
    } else if off == MDIC {
        mdic_result(pre, v)
    } else if is_queue_ctl(off) {
        if pre.queue_enables {
            v
        } else {
            v & !DCTL_ENABLE
        }
    } else {
        v
    }
}

/// The PHY registers after a software write of `v` at offset `off`.
pub open spec fn phy_after(pre: Nic, off: u32, v: u32) -> Seq<u16> {
    if off == MDIC && pre.mdio == MdioMode::Ready && v & MDIC_OP_MASK == MDIC_OP_WRITE {
        phy_written(pre.phy@, pre.autoneg_completes, mdic_regaddr(v), (v & 0xFFFF) as u16)
    } else {
        pre.phy@
    }
}

impl Nic {
    /// The register file has its full size.
    pub open spec fn wf(self) -> bool {
        &&& self.regs@.len() == REG_WORDS
        &&& self.phy@.len() == PHY_NREGS
    }

    /// The behaviour fields, bundled for unchanged-ness clauses.
    pub open spec fn behaviour(self) -> (bool, MdioMode, bool, bool) {
        (self.reset_completes, self.mdio, self.autoneg_completes, self.queue_enables)
    }

    /// A fresh model: all registers and PHY registers zero, every device
    /// response behaving (reset completes, MDIO ready, auto-negotiation
    /// completes, queue enables stick).
    pub fn new() -> (r: Nic)
        ensures
            r.wf(),
            r.regs@ == Seq::<u32>::new(REG_WORDS as nat, |i: int| 0u32),
            r.phy@ == Seq::<u16>::new(PHY_NREGS as nat, |i: int| 0u16),
            r.behaviour() == (true, MdioMode::Ready, true, true),
    {
        let mut regs: Vec<u32> = Vec::new();
        let mut i: u32 = 0;
        while i < REG_WORDS
            invariant
                i <= REG_WORDS,
                regs@ =~= Seq::<u32>::new(i as nat, |j: int| 0u32),
            decreases REG_WORDS - i,
        {
            regs.push(0);
            i = i + 1;
        }
        let mut phy: Vec<u16> = Vec::new();
        let mut j: u32 = 0;
        while j < PHY_NREGS
            invariant
                j <= PHY_NREGS,
                phy@ =~= Seq::<u16>::new(j as nat, |k: int| 0u16),
            decreases PHY_NREGS - j,
        {
            phy.push(0);
            j = j + 1;
        }
        proof {
            assert(regs@ =~= Seq::<u32>::new(REG_WORDS as nat, |i: int| 0u32));
            assert(phy@ =~= Seq::<u16>::new(PHY_NREGS as nat, |i: int| 0u16));
        }
        Nic {
            regs,
            phy,
            reset_completes: true,
            mdio: MdioMode::Ready,
            autoneg_completes: true,
            queue_enables: true,
        }
    }

    /// A volatile register read. Reads have no side effect in the model: the
    /// device's responses are folded into the preceding writes.
    pub fn read_reg(&self, off: u32) -> (r: u32)
        requires
            self.wf(),
            reg_off_valid(off),
        ensures
            r == self.regs@[word(off)],
    {
        self.regs[(off / 4) as usize]
    }

    /// A volatile register write, with the device's immediate response: the
    /// written word takes [`stored_val`] and the PHY registers take
    /// [`phy_after`]; nothing else changes.
    pub fn write_reg(&mut self, off: u32, v: u32)
        requires
            old(self).wf(),
            reg_off_valid(off),
        ensures
            final(self).wf(),
            final(self).regs@ == old(self).regs@.update(
                word(off),
                stored_val(*old(self), off, v),
            ),
            final(self).phy@ == phy_after(*old(self), off, v),
            final(self).behaviour() == old(self).behaviour(),
    {
        let ghost pre: Nic = *self;
        let idx: usize = (off / 4) as usize;
        if off == CTRL {
            let stored: u32 = if v & (CTRL_RST | CTRL_PHY_RST) != 0 && self.reset_completes {
                v & !(CTRL_RST | CTRL_PHY_RST)
            } else {
                v
            };
            self.regs.set(idx, stored);
        } else if off == MDIC {
            let ra: u32 = (v >> 16) & 0x1F;
            proof {
                assert((v >> 16) & 0x1F < 32) by (bit_vector);
            }
            let stored: u32;
            if self.mdio == MdioMode::Ready {
                if v & MDIC_OP_MASK == MDIC_OP_READ {
                    stored = (v & !(MDIC_DATA_MASK | MDIC_ERROR)) | MDIC_READY
                        | self.phy[ra as usize] as u32;
                } else if v & MDIC_OP_MASK == MDIC_OP_WRITE {
                    proof {
                        assert(v & 0xFFFF <= 0xFFFF) by (bit_vector);
                    }
                    let data: u16 = (v & 0xFFFF) as u16;
                    self.phy.set(ra as usize, data);
                    if ra == 0 && data & 0x1200 == 0x1200 && self.autoneg_completes {
                        let st: u16 = self.phy[1] | 0x0020;
                        self.phy.set(1, st);
                    }
                    proof {
                        assert(self.phy@ == phy_written(
                            pre.phy@,
                            pre.autoneg_completes,
                            mdic_regaddr(v),
                            (v & 0xFFFF) as u16,
                        ));
                    }
                    stored = (v & !MDIC_ERROR) | MDIC_READY;
                } else {
                    stored = v & !(MDIC_READY | MDIC_ERROR);
                }
            } else if self.mdio == MdioMode::Fault {
                stored = (v | MDIC_ERROR) & !MDIC_READY;
            } else {
                stored = v & !(MDIC_READY | MDIC_ERROR);
            }
            self.regs.set(idx, stored);
        } else {
            let queue_ctl: bool = self.check_queue_ctl(off);
            let stored: u32 = if queue_ctl && !self.queue_enables {
                v & !DCTL_ENABLE
            } else {
                v
            };
            self.regs.set(idx, stored);
        }
    }

    /// Whether `off` addresses a queue-control register.
    fn check_queue_ctl(&self, off: u32) -> (r: bool)
        ensures
            r == is_queue_ctl(off),
    {
        (off >= RXDCTL && off < RXDCTL + NUM_QUEUES * QUEUE_STRIDE
            && (off - RXDCTL) % QUEUE_STRIDE == 0)
        || (off >= TXDCTL && off < TXDCTL + NUM_QUEUES * QUEUE_STRIDE
            && (off - TXDCTL) % QUEUE_STRIDE == 0)
    }

    /// Reads a PHY register directly (device side; software goes through the
    /// MDIC register).
    pub fn phy_reg(&self, i: u32) -> (r: u16)
        requires
            self.wf(),
            i < PHY_NREGS,
        ensures
            r == self.phy@[i as int],
    {
        self.phy[i as usize]
    }

    /// Sets a PHY register directly (device side; stands in for the PHY's
    /// own state changes, such as a link partner completing negotiation).
    pub fn set_phy_reg(&mut self, i: u32, v: u16)
        requires
            old(self).wf(),
            i < PHY_NREGS,
        ensures
            final(self).wf(),
            final(self).phy@ == old(self).phy@.update(i as int, v),
            final(self).regs@ == old(self).regs@,
            final(self).behaviour() == old(self).behaviour(),
    {
        self.phy.set(i as usize, v);
    }
}

} // verus!
