//! Register map of the controller: byte offsets into the memory-mapped
//! register block and the bit layouts the driver reads and writes.
//!
//! Offsets are relative to the device base; the per-queue descriptor
//! registers live at a fixed block per queue with a stride of 0x40 bytes.

use vstd::prelude::*;

verus! {

/// Size of the modelled register block, in bytes.
pub const REG_SPACE_BYTES: u32 = 0x10000;

/// Size of the modelled register block, in 32-bit words.
pub const REG_WORDS: u32 = 0x4000;

/// Number of PHY registers reachable over MDIO (5-bit register address).
pub const PHY_NREGS: u32 = 32;

// ---- Device-global registers ----

/// Device control register.
pub const CTRL: u32 = 0x0;
/// Device status register (read-only for software).
pub const STATUS: u32 = 0x8;
/// Extended device control register.
pub const CTRL_EXT: u32 = 0x18;
/// MDIO control/data register: the MAC's window onto the PHY registers.
pub const MDIC: u32 = 0x20;
/// Receive control register.
pub const RCTL: u32 = 0x100;
/// Transmit control register.
pub const TCTL: u32 = 0x400;
/// Extended interrupt mask set register.
pub const EIMS: u32 = 0x1524;
/// Extended interrupt mask clear register.
pub const EIMC: u32 = 0x1528;
/// Receive address low, entry 0 (lower 32 bits of the MAC address filter).
pub const RAL0: u32 = 0x5400;
/// Receive address high, entry 0 (upper 16 bits of the MAC address filter).
pub const RAH0: u32 = 0x5404;

// ---- CTRL bits ----

/// CTRL: full duplex.
pub const CTRL_FD: u32 = 0x1;
/// CTRL: set link up.
pub const CTRL_SLU: u32 = 0x40;
/// CTRL: global device reset.
pub const CTRL_RST: u32 = 0x0400_0000;
/// CTRL: PHY reset.
pub const CTRL_PHY_RST: u32 = 0x8000_0000;

// ---- STATUS bits ----

/// STATUS: full duplex.
pub const STATUS_FD: u32 = 0x1;
/// STATUS: link up.
pub const STATUS_LU: u32 = 0x2;
/// STATUS: speed field, bits 7:6 (0b00 = 10 Mb/s, 0b01 = 100 Mb/s,
/// 0b10 = 1000 Mb/s).
pub const STATUS_SPEED_SHIFT: u32 = 6;
pub const STATUS_SPEED_MASK: u32 = 0xC0;
/// STATUS: speed field value for 100 Mb/s.
pub const STATUS_SPEED_100: u32 = 0x40;
/// STATUS: speed field value for 1000 Mb/s.
pub const STATUS_SPEED_1000: u32 = 0x80;
/// STATUS: PHY reset asserted.
pub const STATUS_PHYRA: u32 = 0x400;

// ---- MDIC fields ----

/// MDIC: transaction data, bits 15:0.
pub const MDIC_DATA_MASK: u32 = 0xFFFF;
/// MDIC: PHY register address, bits 20:16.
pub const MDIC_REGADDR_SHIFT: u32 = 16;
pub const MDIC_REGADDR_MASK: u32 = 0x001F_0000;
/// MDIC: PHY bus address, bits 25:21.
pub const MDIC_PHYADDR_SHIFT: u32 = 21;
pub const MDIC_PHYADDR_MASK: u32 = 0x03E0_0000;
/// MDIC: opcode field, bits 27:26.
pub const MDIC_OP_WRITE: u32 = 0x0400_0000;
pub const MDIC_OP_READ: u32 = 0x0800_0000;
pub const MDIC_OP_MASK: u32 = 0x0C00_0000;
/// MDIC: transaction ready (set by the device on completion).
pub const MDIC_READY: u32 = 0x1000_0000;
/// MDIC: interrupt enable on completion.
pub const MDIC_IE: u32 = 0x2000_0000;
/// MDIC: transaction error (set by the device on a failed access).
pub const MDIC_ERROR: u32 = 0x4000_0000;

// ---- RCTL / TCTL bits ----

/// RCTL: receive enable.
pub const RCTL_RXEN: u32 = 0x2;
/// TCTL: transmit enable.
pub const TCTL_EN: u32 = 0x2;

// ---- Per-queue descriptor registers (add the queue block offset) ----

/// Receive descriptor base address, low 32 bits.
pub const RDBAL: u32 = 0xC000;
/// Receive descriptor base address, high 32 bits.
pub const RDBAH: u32 = 0xC004;
/// Receive descriptor ring length in bytes.
pub const RDLEN: u32 = 0xC008;
/// Split and replication receive control (buffer sizes, descriptor type).
pub const SRRCTL: u32 = 0xC00C;
/// Receive descriptor head (consumer position, advanced by the device).
pub const RDH: u32 = 0xC010;
/// Receive descriptor tail (producer position, advanced by software).
pub const RDT: u32 = 0xC018;
/// Receive descriptor control (thresholds and queue enable).
pub const RXDCTL: u32 = 0xC028;

/// Transmit descriptor base address, low 32 bits.
pub const TDBAL: u32 = 0xE000;
/// Transmit descriptor base address, high 32 bits.
pub const TDBAH: u32 = 0xE004;
/// Transmit descriptor ring length in bytes.
pub const TDLEN: u32 = 0xE008;
/// Transmit descriptor head (consumer position, advanced by the device).
pub const TDH: u32 = 0xE010;
/// Transmit descriptor tail (producer position, advanced by software).
pub const TDT: u32 = 0xE018;
/// Transmit descriptor control (thresholds and queue enable).
pub const TXDCTL: u32 = 0xE028;

/// Byte stride between the register blocks of consecutive queues.
pub const QUEUE_STRIDE: u32 = 0x40;

/// Number of queue indices the controller exposes.
pub const NUM_QUEUES: u32 = 16;

// ---- SRRCTL fields ----

/// SRRCTL: packet buffer size in KiB, bits 6:0.
pub const SRRCTL_BSIZEPKT_MASK: u32 = 0x7F;
/// SRRCTL: descriptor type = advanced, one buffer.
pub const SRRCTL_DESCTYPE_ADV_ONE: u32 = 0x0200_0000;

// ---- RXDCTL / TXDCTL fields ----

/// Prefetch threshold, bits 4:0.
pub const DCTL_PTHRESH_SHIFT: u32 = 0;
/// Host threshold, bits 12:8.
pub const DCTL_HTHRESH_SHIFT: u32 = 8;
/// Write-back threshold, bits 20:16.
pub const DCTL_WTHRESH_SHIFT: u32 = 16;
/// Queue enable bit.
pub const DCTL_ENABLE: u32 = 0x0200_0000;

/// The word index of a byte offset into the register block.
pub open spec fn word(off: u32) -> int {
    off as int / 4
}

/// A valid register offset: word-aligned and inside the modelled block.
pub open spec fn reg_off_valid(off: u32) -> bool {
    off % 4 == 0 && off < REG_SPACE_BYTES
}

} // verus!
