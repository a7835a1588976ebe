//! The register-level surface the driver is written against: the
//! power/clock-mask control register and the peripheral's own register block
//! (control register with an enable bit, status register with a "data ready"
//! flag, data register holding the last captured 32-bit sample).

use vstd::prelude::*;

verus! {

/// Bit of the clock-mask register that gates power and clock to the
/// random-number peripheral.
pub const CLOCK_MASK_BIT: u32 = 0x400;

/// The power/clock-gating control register.  Its bits are plain state; the
/// write counter records how often the register has been written, so that
/// contracts can state that construction writes it exactly once.
pub struct ClockMask {
    /// Current contents of the mask register.
    pub bits: u32,
    /// How many writes the register has seen.
    pub writes: u64,
}

impl ClockMask {
    /// A mask register holding `bits` that has not been written yet.
    pub fn new(bits: u32) -> (m: ClockMask)
        ensures
            m.bits == bits,
            m.writes == 0,
    {
        ClockMask { bits, writes: 0 }
    }

    /// Set the peripheral's bit in the mask, leaving every other bit
    /// unchanged.
    pub fn set_mask_bit(&mut self)
        requires
            old(self).writes < u64::MAX,
        ensures
            final(self).bits == old(self).bits | CLOCK_MASK_BIT,
            final(self).writes == old(self).writes + 1,
    {
        self.bits = self.bits | CLOCK_MASK_BIT;
        self.writes = self.writes + 1;
    }
}

/// Register block of the random-number peripheral, as a capability: a control
/// register whose enable bit starts the entropy source, a status flag that
/// goes high when a fresh word sits in the data register, and the data
/// register itself.  Reading the data register consumes the pending word, so
/// the flag must be observed set exactly once before each read.
///
/// The ghost model records the history the contracts speak of: `drawn()` is
/// the sequence of words read out of the data register, `ready_seen()` counts
/// the observations of the ready flag that found it set, and
/// `enable_writes()` counts the writes to the control register.
///
/// The capability also carries a liveness bound: `polls_to_ready()` names how
/// many failed flag observations can still precede the next successful one,
/// and every failed poll lowers it.  A block that could stall forever cannot
/// satisfy the interface; in exchange, every polled read provably returns.
pub trait TrngRegisters: Sized {
    /// Abstraction invariant of the implementing register block.
    spec fn inv(&self) -> bool;

    /// Whether the enable bit of the control register is set.
    spec fn enabled(&self) -> bool;

    /// How many writes the control register has seen.
    spec fn enable_writes(&self) -> nat;

    /// The words read out of the data register so far, in draw order.
    spec fn drawn(&self) -> Seq<u32>;

    /// How many observations of the ready flag found it set.
    spec fn ready_seen(&self) -> nat;

    /// How many failed observations of the ready flag can still come before
    /// the next successful one.
    spec fn polls_to_ready(&self) -> nat;

    /// The words the data register will serve next, as far as they are
    /// already determined.  A scripted block exposes its whole script here; a
    /// block whose words arise only at capture time leaves it empty, and the
    /// capability then promises nothing about the values read.
    spec fn upcoming(&self) -> Seq<u32>;

    /// Set the enable bit of the control register; the bound on the write
    /// count is a machine limit on the counter.
    fn set_enable(&mut self)
        requires
            old(self).inv(),
            old(self).enable_writes() < u64::MAX,
        ensures
            final(self).inv(),
            final(self).enabled(),
            final(self).enable_writes() == old(self).enable_writes() + 1,
            final(self).drawn() == old(self).drawn(),
            final(self).ready_seen() == old(self).ready_seen(),
            final(self).upcoming() == old(self).upcoming(),
    ;

    /// Read the ready flag once.  A successful observation is consumed by the
    /// following data-register read, so polling again before that read is not
    /// part of the capability; the bound on the draw history is a machine
    /// limit on the observation counter.
    fn poll_ready(&mut self) -> (r: bool)
        requires
            old(self).inv(),
            old(self).ready_seen() == old(self).drawn().len(),
            old(self).drawn().len() < usize::MAX,
        ensures
            final(self).inv(),
            final(self).enabled() == old(self).enabled(),
            final(self).enable_writes() == old(self).enable_writes(),
            final(self).drawn() == old(self).drawn(),
            final(self).ready_seen() == old(self).ready_seen() + (if r {
                1nat
            } else {
                0nat
            }),
            !r ==> old(self).polls_to_ready() > 0 && final(self).polls_to_ready()
                == old(self).polls_to_ready() - 1,
            final(self).upcoming() == old(self).upcoming(),
    ;

    /// Read the data register, consuming the word whose arrival the last
    /// successful poll observed.  The bound on the draw history is a machine
    /// limit on the draw counter.
    fn read_data(&mut self) -> (w: u32)
        requires
            old(self).inv(),
            old(self).ready_seen() == old(self).drawn().len() + 1,
            old(self).drawn().len() < usize::MAX,
        ensures
            final(self).inv(),
            final(self).enabled() == old(self).enabled(),
            final(self).enable_writes() == old(self).enable_writes(),
            final(self).drawn() == old(self).drawn().push(w),
            final(self).ready_seen() == old(self).ready_seen(),
            old(self).upcoming().len() > 0 ==> w == old(self).upcoming()[0]
                && final(self).upcoming() == old(self).upcoming().skip(1),
            old(self).upcoming().len() == 0 ==> final(self).upcoming() == old(self).upcoming(),
    ;
}

} // verus!
