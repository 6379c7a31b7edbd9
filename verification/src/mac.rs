//! The MAC controller: interrupt masking, global reset, link-up, MDIO
//! transactions, status decode, RX/TX enable and the hardware MAC address.

use vstd::prelude::*;

use crate::nic::{mdic_result, phy_written, MdioMode, Nic};
use crate::regs::{
    word, CTRL, CTRL_PHY_RST, CTRL_RST, CTRL_SLU, EIMC, MDIC, MDIC_DATA_MASK, MDIC_ERROR,
    MDIC_OP_READ, MDIC_OP_WRITE, MDIC_READY, RAH0, RAL0, RCTL, RCTL_RXEN, STATUS, STATUS_FD,
    STATUS_LU, STATUS_PHYRA, STATUS_SPEED_100, STATUS_SPEED_1000, STATUS_SPEED_MASK, TCTL,
    TCTL_EN,
};
use crate::{DriverError, Kernel, Speed};

verus! {

/// Polling bound for the global reset: attempts and sleep per attempt.
pub const RESET_ATTEMPTS: usize = 100;
pub const RESET_INTERVAL_MS: u64 = 100;

/// Polling bound for an MDIO transaction. The hardware completes the
/// transaction in a bounded number of cycles; a device that never raises
/// ready or error is reported as unresponsive instead of being spun on
/// forever.
pub const MDIC_ATTEMPTS: usize = 1000;

/// The MDIC command word for reading PHY register `offset` of the PHY at
/// `phy_addr` (ready and error clear, internal destination).
pub open spec fn mdic_read_cmd(phy_addr: u32, offset: u32) -> u32 {
    (offset << 16) | (phy_addr << 21) | MDIC_OP_READ
}

/// The MDIC command word for writing `data` to PHY register `offset` of the
/// PHY at `phy_addr`.
pub open spec fn mdic_write_cmd(phy_addr: u32, offset: u32, data: u16) -> u32 {
    (data as u32) | (offset << 16) | (phy_addr << 21) | MDIC_OP_WRITE
}

/// The speed encoded in the status register (bits 7:6).
pub open spec fn spec_speed(v: u32) -> Speed {
    if v & STATUS_SPEED_MASK == STATUS_SPEED_1000 {
        Speed::Mb1000
    } else if v & STATUS_SPEED_MASK == STATUS_SPEED_100 {
        Speed::Mb100
    } else {
        Speed::Mb10
    }
}

/// The full decode of the status register.
pub open spec fn spec_status(v: u32) -> MacStatus {
    MacStatus {
        speed: spec_speed(v),
        link_up: v & STATUS_LU != 0,
        full_duplex: v & STATUS_FD != 0,
        phy_reset_asserted: v & STATUS_PHYRA != 0,
    }
}

/// Snapshot of the MAC status register, recomputed on demand and never
/// cached.
#[derive(Clone, Copy, Debug, PartialEq, Eq, Structural)]
pub struct MacStatus {
    pub speed: Speed,
    pub link_up: bool,
    pub full_duplex: bool,
    pub phy_reset_asserted: bool,
}

/// A 48-bit Ethernet MAC address, in transmission (byte) order.
#[derive(Clone, Copy, Debug, PartialEq, Eq)]
pub struct MacAddr {
    pub octets: [u8; 6],
}

/// The octets of a MAC address read out of the two 32-bit address filter
/// registers, low register first, least significant byte first.
pub open spec fn mac_octets(value: u64) -> Seq<u8> {
    seq![
        (value & 0xFF) as u8,
        ((value >> 8) & 0xFF) as u8,
        ((value >> 16) & 0xFF) as u8,
        ((value >> 24) & 0xFF) as u8,
        ((value >> 32) & 0xFF) as u8,
        ((value >> 40) & 0xFF) as u8,
    ]
}

/// The hexadecimal digit character for a nibble.
pub open spec fn hex_char(n: u8) -> char {
    if n == 0 { '0' } else if n == 1 { '1' } else if n == 2 { '2' } else if n == 3 { '3' }
    else if n == 4 { '4' } else if n == 5 { '5' } else if n == 6 { '6' } else if n == 7 { '7' }
    else if n == 8 { '8' } else if n == 9 { '9' } else if n == 10 { 'a' } else if n == 11 { 'b' }
    else if n == 12 { 'c' } else if n == 13 { 'd' } else if n == 14 { 'e' } else { 'f' }
}

/// Two lower-case hexadecimal digits of a byte.
pub open spec fn byte_chars(b: u8) -> Seq<char> {
    seq![hex_char(b / 16), hex_char(b % 16)]
}

/// The canonical colon-separated rendering of a MAC address.
pub open spec fn mac_chars(o: [u8; 6]) -> Seq<char> {
    byte_chars(o[0]) + seq![':'] + byte_chars(o[1]) + seq![':'] + byte_chars(o[2]) + seq![':']
        + byte_chars(o[3]) + seq![':'] + byte_chars(o[4]) + seq![':'] + byte_chars(o[5])
}

impl MacAddr {
    pub fn new(bytes: [u8; 6]) -> (r: MacAddr)
        ensures
            r.octets == bytes,
    {
        MacAddr { octets: bytes }
    }

    pub fn bytes(&self) -> (r: [u8; 6])
        ensures
            r == self.octets,
    {
        self.octets
    }

    /// Builds an address from a 48-bit value, least significant byte first,
    /// as laid out in the address filter register pair.
    pub fn from_u64(value: u64) -> (r: MacAddr)
        ensures
            r.octets@ == mac_octets(value),
    {
        let octets: [u8; 6] = [
            (value & 0xFF) as u8,
            ((value >> 8) & 0xFF) as u8,
            ((value >> 16) & 0xFF) as u8,
            ((value >> 24) & 0xFF) as u8,
            ((value >> 32) & 0xFF) as u8,
            ((value >> 40) & 0xFF) as u8,
        ];
        proof {
            assert(value & 0xFF <= 0xFF && (value >> 8) & 0xFF <= 0xFF
                && (value >> 16) & 0xFF <= 0xFF && (value >> 24) & 0xFF <= 0xFF
                && (value >> 32) & 0xFF <= 0xFF && (value >> 40) & 0xFF <= 0xFF)
                by (bit_vector);
            assert(octets@ =~= mac_octets(value));
        }
        MacAddr { octets }
    }

    /// The colon-separated lower-case hexadecimal rendering, two digits per
    /// byte, such as `01:02:03:04:05:06`.
    pub fn to_hex_string(&self) -> (s: String)
        ensures
            s@ == mac_chars(self.octets),
    {
        let mut s = String::new();
        s.append(nibble_str(self.octets[0] / 16));
        s.append(nibble_str(self.octets[0] % 16));
        s.append(colon_str());
        s.append(nibble_str(self.octets[1] / 16));
        s.append(nibble_str(self.octets[1] % 16));
        s.append(colon_str());
        s.append(nibble_str(self.octets[2] / 16));
        s.append(nibble_str(self.octets[2] % 16));
        s.append(colon_str());
        s.append(nibble_str(self.octets[3] / 16));
        s.append(nibble_str(self.octets[3] % 16));
        s.append(colon_str());
        s.append(nibble_str(self.octets[4] / 16));
        s.append(nibble_str(self.octets[4] % 16));
        s.append(colon_str());
        s.append(nibble_str(self.octets[5] / 16));
        s.append(nibble_str(self.octets[5] % 16));
        proof {
            assert(s@ =~= mac_chars(self.octets));
        }
        s
    }
}

/// A one-character string slice for a colon separator.
fn colon_str() -> (r: &'static str)
    ensures
        r@ =~= seq![':'],
{
    proof {
        reveal_strlit(":");
    }
    ":"
}

/// A one-character string slice for a hexadecimal nibble.
fn nibble_str(n: u8) -> (r: &'static str)
    requires
        n < 16,
    ensures
        r@ =~= seq![hex_char(n)],
{
    match n {
        0 => { proof { reveal_strlit("0"); assert("0"@ =~= seq![hex_char(0u8)]); } "0" },
        1 => { proof { reveal_strlit("1"); assert("1"@ =~= seq![hex_char(1u8)]); } "1" },
        2 => { proof { reveal_strlit("2"); assert("2"@ =~= seq![hex_char(2u8)]); } "2" },
        3 => { proof { reveal_strlit("3"); assert("3"@ =~= seq![hex_char(3u8)]); } "3" },
        4 => { proof { reveal_strlit("4"); assert("4"@ =~= seq![hex_char(4u8)]); } "4" },
        5 => { proof { reveal_strlit("5"); assert("5"@ =~= seq![hex_char(5u8)]); } "5" },
        6 => { proof { reveal_strlit("6"); assert("6"@ =~= seq![hex_char(6u8)]); } "6" },
        7 => { proof { reveal_strlit("7"); assert("7"@ =~= seq![hex_char(7u8)]); } "7" },
        8 => { proof { reveal_strlit("8"); assert("8"@ =~= seq![hex_char(8u8)]); } "8" },
        9 => { proof { reveal_strlit("9"); assert("9"@ =~= seq![hex_char(9u8)]); } "9" },
        10 => { proof { reveal_strlit("a"); assert("a"@ =~= seq![hex_char(10u8)]); } "a" },
        11 => { proof { reveal_strlit("b"); assert("b"@ =~= seq![hex_char(11u8)]); } "b" },
        12 => { proof { reveal_strlit("c"); assert("c"@ =~= seq![hex_char(12u8)]); } "c" },
        13 => { proof { reveal_strlit("d"); assert("d"@ =~= seq![hex_char(13u8)]); } "d" },
        14 => { proof { reveal_strlit("e"); assert("e"@ =~= seq![hex_char(14u8)]); } "e" },
        _ => { proof { reveal_strlit("f"); assert("f"@ =~= seq![hex_char(15u8)]); } "f" },
    }
}

/// The MAC controller. It owns the device's register block (here: the
/// register model).
pub struct Mac {
    pub dev: Nic,
}

impl Mac {
    pub fn new(dev: Nic) -> (m: Mac)
        ensures
            m.dev == dev,
    {
        Mac { dev }
    }

    /// Masks every interrupt cause by writing all ones to the interrupt
    /// mask clear register. No failure mode; repeating the call leaves the
    /// same state (see [`lemma_disable_irq_idempotent`]).
    pub fn disable_irq(&mut self)
        requires
            old(self).dev.wf(),
        ensures
            final(self).dev.wf(),
            final(self).dev.regs@ == old(self).dev.regs@.update(word(EIMC), u32::MAX),
            final(self).dev.phy@ == old(self).dev.phy@,
            final(self).dev.behaviour() == old(self).dev.behaviour(),
    {
        self.dev.write_reg(EIMC, u32::MAX);
    }

    /// Commands a global device and PHY reset and polls, bounded, until both
    /// reset bits read back clear.
    ///
    /// Succeeds exactly when the device completes the reset; otherwise every
    /// poll sees the bits still set and the bound expires with
    /// `ResetTimeout`. On success the control register reads zero.
    pub fn reset<K: Kernel>(&mut self) -> (r: Result<(), DriverError>)
        requires
            old(self).dev.wf(),
        ensures
            final(self).dev.wf(),
            r is Ok <==> old(self).dev.reset_completes,
            r is Err ==> r == Result::<(), DriverError>::Err(DriverError::ResetTimeout),
            final(self).dev.regs@ == old(self).dev.regs@.update(
                word(CTRL),
                if old(self).dev.reset_completes { 0u32 } else { CTRL_RST | CTRL_PHY_RST },
            ),
            final(self).dev.phy@ == old(self).dev.phy@,
            final(self).dev.behaviour() == old(self).dev.behaviour(),
    {
        proof {
            assert((0x0400_0000u32 | 0x8000_0000u32) & (0x0400_0000u32 | 0x8000_0000u32) != 0
                && ((0x0400_0000u32 | 0x8000_0000u32) & !(0x0400_0000u32 | 0x8000_0000u32)) == 0
                && 0u32 & (0x0400_0000u32 | 0x8000_0000u32) == 0) by (bit_vector);
        }
        self.dev.write_reg(CTRL, CTRL_RST | CTRL_PHY_RST);
        let mut attempt: usize = 0;
        loop
            invariant
                attempt < RESET_ATTEMPTS,
            decreases RESET_ATTEMPTS - attempt,
        {
            let v: u32 = self.dev.read_reg(CTRL);
            if v & (CTRL_RST | CTRL_PHY_RST) == 0 {
                return Ok(());
            }
            if attempt + 1 >= RESET_ATTEMPTS {
                return Err(DriverError::ResetTimeout);
            }
            K::sleep(RESET_INTERVAL_MS);
            attempt = attempt + 1;
        }
    }

    /// Sets the set-link-up control bit; side effect only, no feedback.
    ///
    /// When no reset is pending in the control register, this is exactly an
    /// OR of the link-up bit into it.
    pub fn link_up(&mut self)
        requires
            old(self).dev.wf(),
        ensures
            final(self).dev.wf(),
            final(self).dev.regs@ == old(self).dev.regs@.update(
                word(CTRL),
                crate::nic::stored_val(
                    old(self).dev,
                    CTRL,
                    old(self).dev.regs@[word(CTRL)] | CTRL_SLU,
                ),
            ),
            old(self).dev.regs@[word(CTRL)] & (CTRL_RST | CTRL_PHY_RST) == 0
                ==> final(self).dev.regs@ == old(self).dev.regs@.update(
                    word(CTRL),
                    old(self).dev.regs@[word(CTRL)] | CTRL_SLU,
                ),
            final(self).dev.phy@ == old(self).dev.phy@,
            final(self).dev.behaviour() == old(self).dev.behaviour(),
    {
        let v: u32 = self.dev.read_reg(CTRL);
        proof {
            assert(v & (0x0400_0000u32 | 0x8000_0000u32) == 0
                ==> (v | 0x40u32) & (0x0400_0000u32 | 0x8000_0000u32) == 0) by (bit_vector);
        }
        self.dev.write_reg(CTRL, v | CTRL_SLU);
    }

    /// Reads PHY register `offset` of the PHY at `phy_addr` through an MDIC
    /// transaction: writes the command word, then polls, bounded, for the
    /// ready or error bit.
    ///
    /// With a ready MDIO the result is exactly the PHY register; a faulting
    /// MDIO yields `PhyAccessError`; a silent one exhausts the bound and
    /// yields `HardwareUnresponsive`. Only the MDIC register changes.
    pub fn mdic_read(&mut self, phy_addr: u32, offset: u32) -> (r: Result<u16, DriverError>)
        requires
            old(self).dev.wf(),
            phy_addr < 32,
            offset < 32,
        ensures
            final(self).dev.wf(),
            final(self).dev.regs@ == old(self).dev.regs@.update(
                word(MDIC),
                mdic_result(old(self).dev, mdic_read_cmd(phy_addr, offset)),
            ),
            final(self).dev.phy@ == old(self).dev.phy@,
            final(self).dev.behaviour() == old(self).dev.behaviour(),
            old(self).dev.mdio == MdioMode::Ready
                ==> r == Result::<u16, DriverError>::Ok(old(self).dev.phy@[offset as int]),
            old(self).dev.mdio == MdioMode::Fault
                ==> r == Result::<u16, DriverError>::Err(DriverError::PhyAccessError),
            old(self).dev.mdio == MdioMode::Silent
                ==> r == Result::<u16, DriverError>::Err(DriverError::HardwareUnresponsive),
    {
        let cmd: u32 = (offset << 16) | (phy_addr << 21) | MDIC_OP_READ;
        let ghost phyv: u16 = self.dev.phy@[offset as int];
        self.dev.write_reg(MDIC, cmd);
        proof {
            let p: u32 = phyv as u32;
            assert(offset < 32 && phy_addr < 32
                ==> ((offset << 16) | (phy_addr << 21) | 0x0800_0000u32) & 0x0C00_0000
                    == 0x0800_0000u32
                    && ((((offset << 16) | (phy_addr << 21) | 0x0800_0000u32) >> 16) & 0x1F)
                        == offset) by (bit_vector);
            assert(((cmd & !(0xFFFFu32 | 0x4000_0000u32)) | 0x1000_0000u32 | p)
                & 0x1000_0000u32 != 0
                && (p <= 0xFFFF ==> (((cmd & !(0xFFFFu32 | 0x4000_0000u32)) | 0x1000_0000u32
                    | p) & 0xFFFF) == p)
                && ((cmd | 0x4000_0000u32) & !0x1000_0000u32) & 0x1000_0000u32 == 0
                && ((cmd | 0x4000_0000u32) & !0x1000_0000u32) & 0x4000_0000u32 != 0
                && (cmd & !(0x1000_0000u32 | 0x4000_0000u32)) & 0x1000_0000u32 == 0
                && (cmd & !(0x1000_0000u32 | 0x4000_0000u32)) & 0x4000_0000u32 == 0)
                by (bit_vector);
        }
        let mut attempt: usize = 0;
        loop
            invariant
                attempt < MDIC_ATTEMPTS,
            decreases MDIC_ATTEMPTS - attempt,
        {
            let m: u32 = self.dev.read_reg(MDIC);
            if m & MDIC_READY != 0 {
                return Ok((m & MDIC_DATA_MASK) as u16);
            }
            if m & MDIC_ERROR != 0 {
                return Err(DriverError::PhyAccessError);
            }
            if attempt + 1 >= MDIC_ATTEMPTS {
                return Err(DriverError::HardwareUnresponsive);
            }
            attempt = attempt + 1;
        }
    }
}

impl Mac {
    /// Writes `data` to PHY register `offset` of the PHY at `phy_addr`
    /// through an MDIC transaction, polling as [`Mac::mdic_read`] does.
    ///
    /// With a ready MDIO the PHY register takes the written value (with the
    /// device's auto-negotiation response, see [`phy_written`]); a faulting
    /// MDIO yields `PhyAccessError`, a silent one `HardwareUnresponsive`,
    /// and in both of those cases the PHY registers are unchanged.
    pub fn mdic_write(&mut self, phy_addr: u32, offset: u32, data: u16) -> (r: Result<
        (),
        DriverError,
    >)
        requires
            old(self).dev.wf(),
            phy_addr < 32,
            offset < 32,
        ensures
            final(self).dev.wf(),
            final(self).dev.regs@ == old(self).dev.regs@.update(
                word(MDIC),
                mdic_result(old(self).dev, mdic_write_cmd(phy_addr, offset, data)),
            ),
            final(self).dev.behaviour() == old(self).dev.behaviour(),
            old(self).dev.mdio == MdioMode::Ready ==> r == Result::<(), DriverError>::Ok(())
                && final(self).dev.phy@ == phy_written(
                    old(self).dev.phy@,
                    old(self).dev.autoneg_completes,
                    offset as int,
                    data,
                ),
            old(self).dev.mdio == MdioMode::Fault ==> r == Result::<(), DriverError>::Err(
                DriverError::PhyAccessError,
            ) && final(self).dev.phy@ == old(self).dev.phy@,
            old(self).dev.mdio == MdioMode::Silent ==> r == Result::<(), DriverError>::Err(
                DriverError::HardwareUnresponsive,
            ) && final(self).dev.phy@ == old(self).dev.phy@,
    {
        let cmd: u32 = (data as u32) | (offset << 16) | (phy_addr << 21) | MDIC_OP_WRITE;
        self.dev.write_reg(MDIC, cmd);
        proof {
            let d: u32 = data as u32;
            assert(d <= 0xFFFF && offset < 32 && phy_addr < 32
                ==> (d | (offset << 16) | (phy_addr << 21) | 0x0400_0000u32) & 0x0C00_0000
                    == 0x0400_0000u32
                    && (((d | (offset << 16) | (phy_addr << 21) | 0x0400_0000u32) >> 16) & 0x1F)
                        == offset
                    && ((d | (offset << 16) | (phy_addr << 21) | 0x0400_0000u32) & 0xFFFF)
                        == d) by (bit_vector);
            assert(((cmd & !0x4000_0000u32) | 0x1000_0000u32) & 0x1000_0000u32 != 0
                && ((cmd & !0x4000_0000u32) | 0x1000_0000u32) & 0x4000_0000u32 == 0
                && ((cmd | 0x4000_0000u32) & !0x1000_0000u32) & 0x1000_0000u32 == 0
                && ((cmd | 0x4000_0000u32) & !0x1000_0000u32) & 0x4000_0000u32 != 0
                && (cmd & !(0x1000_0000u32 | 0x4000_0000u32)) & 0x1000_0000u32 == 0
                && (cmd & !(0x1000_0000u32 | 0x4000_0000u32)) & 0x4000_0000u32 == 0)
                by (bit_vector);
        }
        let mut attempt: usize = 0;
        loop
            invariant
                attempt < MDIC_ATTEMPTS,
            decreases MDIC_ATTEMPTS - attempt,
        {
            let m: u32 = self.dev.read_reg(MDIC);
            if m & MDIC_READY != 0 {
                return Ok(());
            }
            if m & MDIC_ERROR != 0 {
                return Err(DriverError::PhyAccessError);
            }
            if attempt + 1 >= MDIC_ATTEMPTS {
                return Err(DriverError::HardwareUnresponsive);
            }
            attempt = attempt + 1;
        }
    }

    /// Decodes the status register: speed, link, duplex and PHY-reset bits.
    /// A pure read with no side effect, recomputed on every call.
    pub fn status(&self) -> (st: MacStatus)
        requires
            self.dev.wf(),
        ensures
            st == spec_status(self.dev.regs@[word(STATUS)]),
    {
        let v: u32 = self.dev.read_reg(STATUS);
        let sp: u32 = v & STATUS_SPEED_MASK;
        let speed: Speed = if sp == STATUS_SPEED_1000 {
            Speed::Mb1000
        } else if sp == STATUS_SPEED_100 {
            Speed::Mb100
        } else {
            Speed::Mb10
        };
        MacStatus {
            speed,
            link_up: v & STATUS_LU != 0,
            full_duplex: v & STATUS_FD != 0,
            phy_reset_asserted: v & STATUS_PHYRA != 0,
        }
    }

    /// Sets the receive-enable and transmit-enable control bits. To be
    /// called only after link-up and successful negotiation, once the rings
    /// are programmed.
    pub fn enable_rx_tx(&mut self)
        requires
            old(self).dev.wf(),
        ensures
            final(self).dev.wf(),
            final(self).dev.regs@ == old(self).dev.regs@.update(
                word(RCTL),
                old(self).dev.regs@[word(RCTL)] | RCTL_RXEN,
            ).update(word(TCTL), old(self).dev.regs@[word(TCTL)] | TCTL_EN),
            final(self).dev.phy@ == old(self).dev.phy@,
            final(self).dev.behaviour() == old(self).dev.behaviour(),
    {
        let rctl: u32 = self.dev.read_reg(RCTL);
        self.dev.write_reg(RCTL, rctl | RCTL_RXEN);
        let tctl: u32 = self.dev.read_reg(TCTL);
        self.dev.write_reg(TCTL, tctl | TCTL_EN);
    }

    /// Combines the two 32-bit address filter registers into the 48-bit
    /// hardware MAC address.
    pub fn mac_addr(&self) -> (r: MacAddr)
        requires
            self.dev.wf(),
        ensures
            r.octets@ == mac_octets(
                ((self.dev.regs@[word(RAH0)] as u64) << 32)
                    | self.dev.regs@[word(RAL0)] as u64,
            ),
    {
        let mac_l: u32 = self.dev.read_reg(RAL0);
        let mac_h: u32 = self.dev.read_reg(RAH0);
        MacAddr::from_u64(((mac_h as u64) << 32) | mac_l as u64)
    }
}

/// Masking interrupts is idempotent: a second masking write leaves the
/// register file exactly as the first left it.
pub proof fn lemma_disable_irq_idempotent(first: Seq<u32>)
    requires
        first.len() == crate::regs::REG_WORDS,
    ensures
        first.update(word(EIMC), u32::MAX).update(word(EIMC), u32::MAX)
            =~= first.update(word(EIMC), u32::MAX),
{
}

} // verus!
