//! The PHY controller: power-up and auto-negotiation over the MAC's MDIO
//! transaction primitive.
//!
//! The PHY holds no device state of its own; every operation goes through a
//! passed-in reference to the MAC for the duration of the call.

use vstd::prelude::*;

use crate::mac::Mac;
use crate::nic::{phy_written, MdioMode};
use crate::regs::word;
use crate::regs::MDIC;
use crate::{DriverError, Kernel};

verus! {

/// PHY control register (MDIO register 0).
pub const PHY_CONTROL: u32 = 0;
/// PHY status register (MDIO register 1).
pub const PHY_STATUS: u32 = 1;

/// PCTRL: power down.
pub const PCTRL_POWER_DOWN: u16 = 0x0800;
/// PCTRL: auto-negotiation enable.
pub const PCTRL_AUTONEG_ENABLE: u16 = 0x1000;
/// PCTRL: restart auto-negotiation.
pub const PCTRL_RESTART_AUTONEG: u16 = 0x0200;
/// PSTATUS: auto-negotiation complete.
pub const PSTATUS_AUTONEG_COMPLETE: u16 = 0x0020;

/// Polling bound for auto-negotiation: attempts and sleep per attempt.
pub const NEG_ATTEMPTS: usize = 500;
pub const NEG_INTERVAL_MS: u64 = 500;

/// The register file is unchanged except for the MDIC transaction word.
pub open spec fn only_mdic_changed(pre: Seq<u32>, post: Seq<u32>) -> bool {
    &&& post.len() == pre.len()
    &&& forall|i: int| 0 <= i < pre.len() && i != word(MDIC) ==> post[i] == pre[i]
}

/// The PHY controller: a PHY bus address; MAC access is passed in per call.
pub struct Phy {
    pub addr: u32,
}

impl Phy {
    /// A valid PHY bus address fits the 5-bit MDIC field.
    pub open spec fn wf(self) -> bool {
        self.addr < 32
    }

    pub fn new(addr: u32) -> (r: Phy)
        requires
            addr < 32,
        ensures
            r.addr == addr,
            r.wf(),
    {
        Phy { addr }
    }

    /// Clears the power-down bit of the PHY control register by a
    /// read-modify-write over MDIO.
    ///
    /// With a ready MDIO this succeeds and the control register keeps its
    /// other bits; a faulting or silent MDIO propagates the transaction
    /// error and leaves the PHY registers unchanged.
    pub fn power_up(&self, mac: &mut Mac) -> (r: Result<(), DriverError>)
        requires
            old(mac).dev.wf(),
            self.wf(),
        ensures
            final(mac).dev.wf(),
            final(mac).dev.behaviour() == old(mac).dev.behaviour(),
            only_mdic_changed(old(mac).dev.regs@, final(mac).dev.regs@),
            old(mac).dev.mdio == MdioMode::Ready ==> r == Result::<(), DriverError>::Ok(())
                && final(mac).dev.phy@ == phy_written(
                    old(mac).dev.phy@,
                    old(mac).dev.autoneg_completes,
                    PHY_CONTROL as int,
                    old(mac).dev.phy@[PHY_CONTROL as int] & !PCTRL_POWER_DOWN,
                ),
            old(mac).dev.mdio == MdioMode::Fault ==> r == Result::<(), DriverError>::Err(
                DriverError::PhyAccessError,
            ) && final(mac).dev.phy@ == old(mac).dev.phy@,
            old(mac).dev.mdio == MdioMode::Silent ==> r == Result::<(), DriverError>::Err(
                DriverError::HardwareUnresponsive,
            ) && final(mac).dev.phy@ == old(mac).dev.phy@,
    {
        let pctrl: u16 = match mac.mdic_read(self.addr, PHY_CONTROL) {
            Ok(v) => v,
            Err(e) => {
                return Err(e);
            },
        };
        match mac.mdic_write(self.addr, PHY_CONTROL, pctrl & !PCTRL_POWER_DOWN) {
            Ok(()) => Ok(()),
            Err(e) => Err(e),
        }
    }

    /// Sets the auto-negotiation-enable and restart bits of the PHY control
    /// register by a read-modify-write over MDIO.
    ///
    /// With a ready MDIO this succeeds; restarting negotiation makes the
    /// device run it, and when the link partner completes it the completion
    /// bit appears in the PHY status register.
    pub fn enable_auto_negotiation(&self, mac: &mut Mac) -> (r: Result<(), DriverError>)
        requires
            old(mac).dev.wf(),
            self.wf(),
        ensures
            final(mac).dev.wf(),
            final(mac).dev.behaviour() == old(mac).dev.behaviour(),
            only_mdic_changed(old(mac).dev.regs@, final(mac).dev.regs@),
            old(mac).dev.mdio == MdioMode::Ready ==> r == Result::<(), DriverError>::Ok(())
                && final(mac).dev.phy@ == phy_written(
                    old(mac).dev.phy@,
                    old(mac).dev.autoneg_completes,
                    PHY_CONTROL as int,
                    old(mac).dev.phy@[PHY_CONTROL as int]
                        | (PCTRL_AUTONEG_ENABLE | PCTRL_RESTART_AUTONEG),
                ),
            old(mac).dev.mdio == MdioMode::Ready && old(mac).dev.autoneg_completes
                ==> final(mac).dev.phy@[PHY_STATUS as int] & PSTATUS_AUTONEG_COMPLETE != 0,
            old(mac).dev.mdio == MdioMode::Fault ==> r == Result::<(), DriverError>::Err(
                DriverError::PhyAccessError,
            ) && final(mac).dev.phy@ == old(mac).dev.phy@,
            old(mac).dev.mdio == MdioMode::Silent ==> r == Result::<(), DriverError>::Err(
                DriverError::HardwareUnresponsive,
            ) && final(mac).dev.phy@ == old(mac).dev.phy@,
    {
        let pctrl: u16 = match mac.mdic_read(self.addr, PHY_CONTROL) {
            Ok(v) => v,
            Err(e) => {
                return Err(e);
            },
        };
        let data: u16 = pctrl | (PCTRL_AUTONEG_ENABLE | PCTRL_RESTART_AUTONEG);
        proof {
            assert((pctrl | (0x1000u16 | 0x0200u16)) & 0x1200u16 == 0x1200u16) by (bit_vector);
            assert(forall|x: u16| (x | 0x0020u16) & 0x0020u16 != 0) by (bit_vector);
        }
        match mac.mdic_write(self.addr, PHY_CONTROL, data) {
            Ok(()) => Ok(()),
            Err(e) => Err(e),
        }
    }

    /// Polls the PHY status register, bounded, for the auto-negotiation
    /// complete bit, sleeping between attempts.
    ///
    /// Succeeds exactly when MDIO transactions are ready and the completion
    /// bit is set; any other state - completion bit clear, faulting or
    /// silent MDIO - exhausts the bound and yields `NoPhyLink`, as a read
    /// failure counts as "not negotiated yet".
    pub fn wait_for_negotiate<K: Kernel>(&self, mac: &mut Mac) -> (r: Result<(), DriverError>)
        requires
            old(mac).dev.wf(),
            self.wf(),
        ensures
            final(mac).dev.wf(),
            final(mac).dev.behaviour() == old(mac).dev.behaviour(),
            final(mac).dev.phy@ == old(mac).dev.phy@,
            only_mdic_changed(old(mac).dev.regs@, final(mac).dev.regs@),
            r is Ok <==> old(mac).dev.mdio == MdioMode::Ready
                && old(mac).dev.phy@[PHY_STATUS as int] & PSTATUS_AUTONEG_COMPLETE != 0,
            r is Err ==> r == Result::<(), DriverError>::Err(DriverError::NoPhyLink),
    {
        let mut attempt: usize = 0;
        loop
            invariant
                attempt < NEG_ATTEMPTS,
                mac.dev.wf(),
                mac.dev.behaviour() == old(mac).dev.behaviour(),
                mac.dev.phy@ == old(mac).dev.phy@,
                only_mdic_changed(old(mac).dev.regs@, mac.dev.regs@),
            decreases NEG_ATTEMPTS - attempt,
        {
            let negotiated: bool = match mac.mdic_read(self.addr, PHY_STATUS) {
                Ok(st) => st & PSTATUS_AUTONEG_COMPLETE != 0,
                Err(_) => false,
            };
            if negotiated {
                return Ok(());
            }
            if attempt + 1 >= NEG_ATTEMPTS {
                return Err(DriverError::NoPhyLink);
            }
            K::sleep(NEG_INTERVAL_MS);
            attempt = attempt + 1;
        }
    }
}

} // verus!
