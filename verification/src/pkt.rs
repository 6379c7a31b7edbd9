//! Packet buffers and the model of the DMA buffer provider.
//!
//! A [`Pkt`] owns a byte buffer, is tagged with its transfer direction and
//! carries the bus address under which the device reaches the buffer. The
//! [`DmaPool`] stands in for the platform's DMA allocator: it hands out
//! 128-byte-aligned, strictly increasing bus addresses, so every allocation
//! within one pool is distinct.

use vstd::prelude::*;

verus! {

/// Transfer direction of a DMA buffer.
#[derive(Clone, Copy, Debug, PartialEq, Eq, Structural)]
pub enum Direction {
    ToDevice,
    FromDevice,
    Bidirectional,
}

/// An owned, direction-tagged packet buffer with its device-visible bus
/// address.
#[derive(Debug, PartialEq, Eq)]
pub struct Pkt {
    /// The buffer contents.
    pub buff: Vec<u8>,
    /// Transfer direction the buffer was mapped with.
    pub direction: Direction,
    /// The address under which the device's DMA engine reaches the buffer.
    pub bus_addr: u64,
}

impl Pkt {
    pub fn new(buff: Vec<u8>, direction: Direction, bus_addr: u64) -> (r: Pkt)
        ensures
            r.buff == buff,
            r.direction == direction,
            r.bus_addr == bus_addr,
    {
        Pkt { buff, direction, bus_addr }
    }

    /// A receive buffer (written by the device).
    pub fn new_rx(buff: Vec<u8>) -> (r: Pkt)
        ensures
            r.buff == buff,
            r.direction == Direction::FromDevice,
            r.bus_addr == 0,
    {
        Pkt { buff, direction: Direction::FromDevice, bus_addr: 0 }
    }

    /// A transmit buffer (read by the device).
    pub fn new_tx(buff: Vec<u8>) -> (r: Pkt)
        ensures
            r.buff == buff,
            r.direction == Direction::ToDevice,
            r.bus_addr == 0,
    {
        Pkt { buff, direction: Direction::ToDevice, bus_addr: 0 }
    }

    pub fn bus_addr(&self) -> (r: u64)
        ensures
            r == self.bus_addr,
    {
        self.bus_addr
    }

    pub fn len(&self) -> (r: usize)
        ensures
            r == self.buff@.len(),
    {
        self.buff.len()
    }
}

/// A zero-filled buffer of the given length.
pub fn zeroed(n: usize) -> (r: Vec<u8>)
    ensures
        r@ =~= Seq::<u8>::new(n as nat, |i: int| 0u8),
{
    let mut v: Vec<u8> = Vec::new();
    let mut i: usize = 0;
    while i < n
        invariant
            i <= n,
            v@ =~= Seq::<u8>::new(i as nat, |j: int| 0u8),
        decreases n - i,
    {
        v.push(0);
        i = i + 1;
    }
    v
}

/// First bus address the pool hands out.
pub const DMA_BASE: u64 = 0x1000_0000;

/// Largest single allocation the pool serves.
pub const DMA_MAX_ALLOC: u64 = 0x1000_0000;

/// Whether an allocation of `len` bytes fails on a pool whose next address
/// is `next`: the request is over the cap, or the aligned step would
/// overflow the address space.
pub open spec fn alloc_fails(next: u64, len: u64) -> bool {
    ||| len > DMA_MAX_ALLOC
    ||| u64::MAX - next < ((len + 127) / 128) * 128 + 128
}

/// A pool that has not run into the last corner of the address space can
/// serve any request within the allocation cap.
pub proof fn lemma_headroom_alloc(next: u64, len: u64)
    requires
        len <= DMA_MAX_ALLOC,
        next <= 0xF000_0000_0000_0000,
    ensures
        !alloc_fails(next, len),
{
    assert(((len + 127) / 128) * 128 <= len + 127) by (nonlinear_arith);
}

/// A model of the DMA buffer provider: bus addresses are handed out
/// 128-byte-aligned and strictly increasing, so distinct allocations never
/// alias.
pub struct DmaPool {
    /// The next bus address to hand out.
    pub next: u64,
}

impl DmaPool {
    /// Addresses stay 128-byte-aligned.
    pub open spec fn wf(self) -> bool {
        self.next % 128 == 0
    }

    pub fn new() -> (r: DmaPool)
        ensures
            r.wf(),
            r.next == DMA_BASE,
    {
        DmaPool { next: DMA_BASE }
    }

    /// Allocates `len` bytes of DMA-visible memory, rounded up to the
    /// 128-byte alignment step.
    ///
    /// Returns the bus address of the region, which is exactly the previous
    /// pool position: every successful allocation is at or above all earlier
    /// ones and below `next`. Fails (without changing the pool) only when
    /// the request is over the allocation cap or the address space is
    /// exhausted.
    pub fn try_alloc(&mut self, len: u64) -> (r: Option<u64>)
        requires
            old(self).wf(),
        ensures
            final(self).wf(),
            r is None <==> alloc_fails(old(self).next, len),
            r is Some ==> r == Some(old(self).next) && old(self).next < final(self).next
                && final(self).next == old(self).next + ((len + 127) / 128) * 128 + 128,
            r is None ==> *final(self) == *old(self),
            len <= DMA_MAX_ALLOC && old(self).next <= 0xF000_0000_0000_0000 ==> r is Some,
    {
        if len > DMA_MAX_ALLOC {
            return None;
        }
        let step: u64 = ((len + 127) / 128) * 128 + 128;
        if u64::MAX - self.next < step {
            return None;
        }
        let addr: u64 = self.next;
        let ghost base: u64 = self.next;
        self.next = self.next + step;
        proof {
            assert(base % 128 == 0 && len <= 0x1000_0000
                ==> (base + (((len + 127) / 128) * 128 + 128)) % 128 == 0)
                by (nonlinear_arith);
        }
        Some(addr)
    }
}

/// Number of occupied entries in a packet metadata table.
pub open spec fn live_count(s: Seq<Option<Pkt>>) -> int
    decreases s.len(),
{
    if s.len() == 0 {
        0int
    } else {
        live_count(s.drop_last()) + if s.last() is Some {
            1int
        } else {
            0int
        }
    }
}

/// Updating one entry changes the occupancy count by exactly the
/// difference at that entry.
pub proof fn lemma_live_count_update(s: Seq<Option<Pkt>>, i: int, v: Option<Pkt>)
    requires
        0 <= i < s.len(),
    ensures
        live_count(s.update(i, v)) == live_count(s) - (if s[i] is Some {
            1int
        } else {
            0int
        }) + (if v is Some {
            1int
        } else {
            0int
        }),
    decreases s.len(),
{
    if i == s.len() - 1 {
        assert(s.update(i, v).drop_last() =~= s.drop_last());
    } else {
        assert(s.update(i, v).drop_last() =~= s.drop_last().update(i, v));
        lemma_live_count_update(s.drop_last(), i, v);
    }
}

/// A table with no occupied entry has occupancy zero.
pub proof fn lemma_live_count_none(s: Seq<Option<Pkt>>)
    requires
        forall|i: int| 0 <= i < s.len() ==> !((#[trigger] s[i]) is Some),
    ensures
        live_count(s) == 0,
    decreases s.len(),
{
    if s.len() > 0 {
        lemma_live_count_none(s.drop_last());
    }
}

} // verus!
