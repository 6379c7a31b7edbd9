//! The generic descriptor ring: a DMA-backed table of fixed-size
//! descriptors, a hardware producer (tail) and consumer (head) register, and
//! a software mirror of the consumer position.
//!
//! The ring is agnostic to descriptor content; both the receive and the
//! transmit descriptor families share the 16-byte raw layout ([`DescRaw`]),
//! and the specialised rings encode and decode it.
//!
//! The central invariant: the producer never advances into the consumer's
//! current slot, so at most capacity − 1 descriptors are ever outstanding
//! ([`lemma_outstanding_bound`]), and the hardware consumer position always
//! lies between the software mirror and the producer.

use vstd::prelude::*;

use crate::nic::{is_queue_ctl, Nic};
use crate::pkt::{DmaPool, DMA_MAX_ALLOC};
use crate::regs::{reg_off_valid, word, CTRL, MDIC};
use crate::DriverError;

verus! {

/// One hardware descriptor as raw storage: 16 bytes, two 64-bit words.
/// Which interpretation is valid (software-write or hardware-write-back)
/// depends on the descriptor's state in the ring.
#[derive(Clone, Copy, Debug, PartialEq, Eq, Structural)]
pub struct DescRaw {
    pub lo: u64,
    pub hi: u64,
}

/// The all-zero descriptor.
pub open spec fn zero_desc() -> DescRaw {
    DescRaw { lo: 0, hi: 0 }
}

/// Distance from position `a` forward to position `b` on a ring of `n`
/// slots.
pub open spec fn dist(a: int, b: int, n: int) -> int {
    if b >= a {
        b - a
    } else {
        n - a + b
    }
}

/// A register offset that the model treats as plain storage: valid,
/// not the control or MDIC register, and not a queue-control register.
pub open spec fn plain_reg(off: u32) -> bool {
    &&& reg_off_valid(off)
    &&& off != CTRL
    &&& off != MDIC
    &&& !is_queue_ctl(off)
}

/// Size of one descriptor in bytes.
pub const DESC_BYTES: u32 = 16;

/// Largest supported descriptor count (the table size in bytes must fit the
/// 32-bit length register).
pub const MAX_DESC_N: usize = 0x0100_0000;

/// The descriptor ring.
pub struct Ring {
    /// The descriptor table (modelling the DMA-visible table).
    pub descs: Vec<DescRaw>,
    /// Register offset of the hardware producer (tail) register.
    pub tail_off: u32,
    /// Register offset of the hardware consumer (head) register.
    pub head_off: u32,
    /// Software mirror of the consumer position: the next slot to harvest.
    pub mirror_head: usize,
    /// Device-visible bus address of the descriptor table.
    pub table_addr: u64,
}

impl Ring {
    /// Number of descriptor slots.
    pub open spec fn cap(self) -> int {
        self.descs@.len() as int
    }

    /// The hardware producer position.
    pub open spec fn tail(self, nic: Nic) -> int {
        nic.regs@[word(self.tail_off)] as int
    }

    /// The hardware consumer position.
    pub open spec fn hw_head(self, nic: Nic) -> int {
        nic.regs@[word(self.head_off)] as int
    }

    /// Number of posted-but-not-harvested descriptors.
    pub open spec fn outstanding(self, nic: Nic) -> int {
        dist(self.mirror_head as int, self.tail(nic), self.cap())
    }

    /// Number of posted descriptors the device has not yet consumed.
    pub open spec fn pending(self, nic: Nic) -> int {
        dist(self.hw_head(nic), self.tail(nic), self.cap())
    }

    /// The ring's configuration: everything but the descriptor contents and
    /// the mirror.
    pub open spec fn cfg(self) -> (u32, u32, u64) {
        (self.tail_off, self.head_off, self.table_addr)
    }

    /// Whether slot `i` currently holds a posted, not yet harvested
    /// descriptor.
    pub open spec fn posted(self, nic: Nic, i: int) -> bool {
        dist(self.mirror_head as int, i, self.cap()) < self.outstanding(nic)
    }

    /// Well-formedness of the ring against the register file: the positions
    /// are in range and the hardware consumer lies between the software
    /// mirror and the producer.
    pub open spec fn wf(self, nic: Nic) -> bool {
        &&& nic.wf()
        &&& 1 <= self.cap() <= MAX_DESC_N
        &&& plain_reg(self.tail_off)
        &&& plain_reg(self.head_off)
        &&& self.tail_off != self.head_off
        &&& 0 <= self.tail(nic) < self.cap()
        &&& 0 <= self.hw_head(nic) < self.cap()
        &&& (self.mirror_head as int) < self.cap()
        &&& dist(self.mirror_head as int, self.hw_head(nic), self.cap())
            <= self.outstanding(nic)
    }

    /// A fresh ring: a zeroed descriptor table allocated from the DMA pool,
    /// mirrors at zero. The ring is well-formed once `init_tail_head` has
    /// zeroed the hardware registers.
    pub fn new(desc_n: usize, tail_off: u32, head_off: u32, pool: &mut DmaPool) -> (r: Option<
        Ring,
    >)
        requires
            old(pool).wf(),
            1 <= desc_n <= MAX_DESC_N,
            plain_reg(tail_off),
            plain_reg(head_off),
            tail_off != head_off,
        ensures
            final(pool).wf(),
            old(pool).next <= 0xF000_0000_0000_0000 ==> r is Some,
            r is Some ==> {
                let ring = r->0;
                &&& ring.descs@ =~= Seq::<DescRaw>::new(desc_n as nat, |i: int| zero_desc())
                &&& ring.cfg() == (tail_off, head_off, old(pool).next)
                &&& ring.mirror_head == 0
            },
    {
        proof {
            assert((desc_n as u64) * (DESC_BYTES as u64) <= DMA_MAX_ALLOC) by (nonlinear_arith)
                requires
                    desc_n <= 0x0100_0000,
            ;
        }
        let table_addr: u64 = match pool.try_alloc((desc_n as u64) * (DESC_BYTES as u64)) {
            Some(a) => a,
            None => {
                return None;
            },
        };
        let mut descs: Vec<DescRaw> = Vec::new();
        let mut i: usize = 0;
        while i < desc_n
            invariant
                i <= desc_n,
                descs@ =~= Seq::<DescRaw>::new(i as nat, |j: int| zero_desc()),
            decreases desc_n - i,
        {
            descs.push(DescRaw { lo: 0, hi: 0 });
            i = i + 1;
        }
        Some(Ring { descs, tail_off, head_off, mirror_head: 0, table_addr })
    }

    /// Zeroes both hardware position registers and the software mirror.
    /// Must run after the base and length registers are programmed and
    /// before the engine is enabled; it establishes the ring invariant.
    pub fn init_tail_head(&mut self, nic: &mut Nic)
        requires
            old(nic).wf(),
            1 <= old(self).cap() <= MAX_DESC_N,
            plain_reg(old(self).tail_off),
            plain_reg(old(self).head_off),
            old(self).tail_off != old(self).head_off,
        ensures
            final(self).wf(*final(nic)),
            final(self).descs@ == old(self).descs@,
            final(self).cfg() == old(self).cfg(),
            final(self).mirror_head == 0,
            final(self).outstanding(*final(nic)) == 0,
            final(nic).regs@ == old(nic).regs@.update(word(old(self).tail_off), 0u32).update(
                word(old(self).head_off),
                0u32,
            ),
            final(nic).phy@ == old(nic).phy@,
            final(nic).behaviour() == old(nic).behaviour(),
    {
        nic.write_reg(self.tail_off, 0u32);
        nic.write_reg(self.head_off, 0u32);
        self.mirror_head = 0;
    }

    /// The device-visible base address of the descriptor table.
    pub fn desc_table_base(&self) -> (r: u64)
        ensures
            r == self.table_addr,
    {
        self.table_addr
    }

    /// The size of the descriptor table in bytes.
    pub fn desc_table_size(&self) -> (r: u32)
        requires
            self.descs@.len() <= MAX_DESC_N,
        ensures
            r == self.cap() * DESC_BYTES,
    {
        (self.descs.len() as u32) * DESC_BYTES
    }

    /// The raw hardware producer position.
    pub fn get_tail(&self, nic: &Nic) -> (r: u32)
        requires
            nic.wf(),
            plain_reg(self.tail_off),
        ensures
            r == self.tail(*nic),
    {
        nic.read_reg(self.tail_off)
    }

    /// The raw hardware consumer position.
    fn get_head(&self, nic: &Nic) -> (r: u32)
        requires
            nic.wf(),
            plain_reg(self.head_off),
        ensures
            r == self.hw_head(*nic),
    {
        nic.read_reg(self.head_off)
    }

    /// Posts descriptor `d`: writes it into the current tail slot and
    /// advances the hardware producer register by one.
    ///
    /// Fails with `RingFull`, leaving ring and registers untouched, exactly
    /// when the ring already holds capacity − 1 outstanding descriptors;
    /// otherwise returns the slot index that was filled.
    pub fn add_desc(&mut self, nic: &mut Nic, d: DescRaw) -> (r: Result<usize, DriverError>)
        requires
            old(self).wf(*old(nic)),
        ensures
            final(self).wf(*final(nic)),
            final(self).cfg() == old(self).cfg(),
            final(self).mirror_head == old(self).mirror_head,
            final(nic).phy@ == old(nic).phy@,
            final(nic).behaviour() == old(nic).behaviour(),
            r is Err <==> old(self).outstanding(*old(nic)) == old(self).cap() - 1,
            r is Err ==> r == Result::<usize, DriverError>::Err(DriverError::RingFull)
                && *final(self) == *old(self) && final(nic).regs@ == old(nic).regs@,
            r is Ok ==> {
                let t = old(self).tail(*old(nic));
                &&& r == Result::<usize, DriverError>::Ok(t as usize)
                &&& final(self).descs@ == old(self).descs@.update(t, d)
                &&& final(nic).regs@ == old(nic).regs@.update(
                    word(old(self).tail_off),
                    (if t + 1 == old(self).cap() { 0int } else { t + 1 }) as u32,
                )
                &&& final(self).outstanding(*final(nic))
                    == old(self).outstanding(*old(nic)) + 1
            },
    {
        let tail: u32 = self.get_tail(nic);
        let t: usize = tail as usize;
        let cap: usize = self.descs.len();
        let n_tail: usize = if t + 1 == cap {
            0
        } else {
            t + 1
        };
        if n_tail == self.mirror_head {
            return Err(DriverError::RingFull);
        }
        self.descs.set(t, d);
        nic.write_reg(self.tail_off, n_tail as u32);
        Ok(t)
    }

    /// Harvests the next completed slot, if the hardware consumer position
    /// has moved past the software mirror: returns the descriptor at the
    /// mirrored index and advances the mirror by one.
    ///
    /// This is a hint only - the hardware position can run ahead of the
    /// descriptor's final field writes, so callers must still check the
    /// descriptor's own done bit before trusting its content.
    pub fn get_available(&mut self, nic: &Nic) -> (r: Option<(DescRaw, usize)>)
        requires
            old(self).wf(*nic),
        ensures
            final(self).wf(*nic),
            final(self).cfg() == old(self).cfg(),
            final(self).descs@ == old(self).descs@,
            r is None <==> old(self).hw_head(*nic) == old(self).mirror_head as int,
            r is None ==> *final(self) == *old(self),
            r is Some ==> {
                let i = old(self).mirror_head as int;
                &&& r == Some((old(self).descs@[i], old(self).mirror_head))
                &&& final(self).mirror_head as int == (if i + 1 == old(self).cap() {
                    0int
                } else {
                    i + 1
                })
                &&& final(self).outstanding(*nic) == old(self).outstanding(*nic) - 1
                &&& old(self).outstanding(*nic) > 0
            },
    {
        let head: u32 = self.get_head(nic);
        if head as usize == self.mirror_head {
            return None;
        }
        let idx: usize = self.mirror_head;
        let d: DescRaw = self.descs[idx];
        let cap: usize = self.descs.len();
        self.mirror_head = if idx + 1 == cap {
            0
        } else {
            idx + 1
        };
        Some((d, idx))
    }

    /// Device side of the model: the device consumes the posted descriptor
    /// at its current consumer position, writes `wb` back into that slot
    /// and advances the hardware consumer register by one.
    ///
    /// Requires a posted descriptor the device has not yet consumed; keeps
    /// the ring well-formed and the outstanding count unchanged (the slot
    /// still awaits harvesting by software).
    pub fn device_write_back(&mut self, nic: &mut Nic, wb: DescRaw)
        requires
            old(self).wf(*old(nic)),
            old(self).pending(*old(nic)) > 0,
        ensures
            final(self).wf(*final(nic)),
            final(self).cfg() == old(self).cfg(),
            final(self).mirror_head == old(self).mirror_head,
            final(nic).phy@ == old(nic).phy@,
            final(nic).behaviour() == old(nic).behaviour(),
            final(self).descs@ == old(self).descs@.update(old(self).hw_head(*old(nic)), wb),
            final(nic).regs@ == old(nic).regs@.update(
                word(old(self).head_off),
                (if old(self).hw_head(*old(nic)) + 1 == old(self).cap() {
                    0int
                } else {
                    old(self).hw_head(*old(nic)) + 1
                }) as u32,
            ),
            final(self).outstanding(*final(nic)) == old(self).outstanding(*old(nic)),
            final(self).tail(*final(nic)) == old(self).tail(*old(nic)),
    {
        let h: u32 = self.get_head(nic);
        let hi: usize = h as usize;
        let cap: usize = self.descs.len();
        self.descs.set(hi, wb);
        let n_head: usize = if hi + 1 == cap {
            0
        } else {
            hi + 1
        };
        nic.write_reg(self.head_off, n_head as u32);
    }
}

/// A multiple of the stride plus a small remainder leaves exactly that
/// remainder modulo the stride.
pub proof fn lemma_mod_small_offset(k: int, r: int, m: int)
    requires
        0 <= r < m,
        0 <= k,
    ensures
        (m * k + r) % m == r,
{
    assert((m * k + r) % m == r) by (nonlinear_arith)
        requires
            0 <= r < m,
            0 <= k,
    ;
}

/// A multiple divided by its factor gives the other factor back.
pub proof fn lemma_div_exact(k: int, m: int)
    requires
        0 < m,
        0 <= k,
    ensures
        (m * k) / m == k,
{
    assert((m * k) / m == k) by (nonlinear_arith)
        requires
            0 < m,
            0 <= k,
    ;
}

/// On every well-formed ring state, the number of outstanding
/// (posted-but-not-harvested) descriptors is at most capacity − 1; together
/// with `add_desc` failing exactly at capacity − 1 and each operation
/// preserving well-formedness, this bounds every sequence of ring
/// operations.
pub proof fn lemma_outstanding_bound(r: Ring, nic: Nic)
    requires
        r.wf(nic),
    ensures
        0 <= r.outstanding(nic) <= r.cap() - 1,
{
}

/// The queue-disable teardown is idempotent on the register file: running
/// the same disable-and-zero sequence a second time leaves the registers
/// exactly as the first run left them.
pub proof fn lemma_teardown_idempotent(
    regs: Seq<u32>,
    ctl_w: int,
    tail_w: int,
    head_w: int,
    v: u32,
)
    requires
        0 <= ctl_w < regs.len(),
        0 <= tail_w < regs.len(),
        0 <= head_w < regs.len(),
    ensures
        regs.update(ctl_w, v).update(tail_w, 0u32).update(head_w, 0u32).update(ctl_w, v).update(
            tail_w,
            0u32,
        ).update(head_w, 0u32) =~= regs.update(ctl_w, v).update(tail_w, 0u32).update(
            head_w,
            0u32,
        ),
{
}

} // verus!
