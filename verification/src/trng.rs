//! The driver: one-time enablement, the polling word-fetch primitive, and
//! the assembly of raw words into wider values and byte fills.

use vstd::prelude::*;
use crate::regs::{ClockMask, TrngRegisters};
use crate::words::{combine_u64, fill_output, le_byte, words_needed};

verus! {

/// Handle to an enabled random-number peripheral.  Construction consumes the
/// raw register block, so at most one handle to a given physical peripheral
/// can exist; every read operation goes through this handle.
pub struct Trng<R: TrngRegisters> {
    regs: R,
}

impl<R: TrngRegisters> Trng<R> {
    /// Abstraction invariant: the peripheral is enabled and every drawn word
    /// was preceded by exactly one successful observation of the ready flag.
    pub closed spec fn inv(&self) -> bool {
        &&& self.regs.inv()
        &&& self.regs.enabled()
        &&& self.regs.ready_seen() == self.regs.drawn().len()
    }

    /// The words drawn from the data register so far, in draw order.
    pub closed spec fn drawn(&self) -> Seq<u32> {
        self.regs.drawn()
    }

    /// How many writes the control register has seen.
    pub closed spec fn enable_writes(&self) -> nat {
        self.regs.enable_writes()
    }

    /// How many observations of the ready flag found it set.
    pub closed spec fn ready_seen(&self) -> nat {
        self.regs.ready_seen()
    }

    /// The words the peripheral will serve next, as far as they are already
    /// determined (the remaining script of a scripted block).
    pub closed spec fn upcoming(&self) -> Seq<u32> {
        self.regs.upcoming()
    }

    /// One-time enablement: gate power and clock to the peripheral by setting
    /// its bit in the clock mask, then set the enable bit of its control
    /// register.  Each register is written exactly once, and no later
    /// operation touches either again.  Consumes the raw register block, so
    /// the sequence cannot run twice for the same physical peripheral.
    pub fn new(mclk: &mut ClockMask, regs: R) -> (t: Trng<R>)
        requires
            regs.inv(),
            regs.enable_writes() == 0,
            regs.drawn().len() == 0,
            regs.ready_seen() == 0,
            old(mclk).writes < u64::MAX,
        ensures
            t.inv(),
            t.drawn().len() == 0,
            t.enable_writes() == 1,
            t.ready_seen() == 0,
            t.upcoming() == regs.upcoming(),
            final(mclk).bits == old(mclk).bits | crate::regs::CLOCK_MASK_BIT,
            final(mclk).writes == old(mclk).writes + 1,
    {
        mclk.set_mask_bit();
        let mut regs = regs;
        regs.set_enable();
        Trng { regs }
    }

    /// Draw one 32-bit word: spin on the ready flag until it is observed
    /// set, then read the data register.  The spin makes no progress of its
    /// own; it ends because the capability bounds how many failed
    /// observations can precede a successful one.  Exactly one successful
    /// flag observation and one data-register read happen per drawn word.
    pub fn random_u32(&mut self) -> (w: u32)
        requires
            old(self).inv(),
            old(self).drawn().len() < usize::MAX,
        ensures
            final(self).inv(),
            final(self).drawn() == old(self).drawn().push(w),
            final(self).ready_seen() == old(self).ready_seen() + 1,
            final(self).enable_writes() == old(self).enable_writes(),
            old(self).upcoming().len() > 0 ==> w == old(self).upcoming()[0]
                && final(self).upcoming() == old(self).upcoming().skip(1),
            old(self).upcoming().len() == 0 ==> final(self).upcoming() == old(self).upcoming(),
    {
        let ghost d0 = self.regs.drawn();
        let ghost w0 = self.regs.enable_writes();
        let ghost u0 = self.regs.upcoming();
        loop
            invariant_except_break
                self.regs.inv(),
                self.regs.enabled(),
                self.regs.ready_seen() == self.regs.drawn().len(),
                self.regs.drawn() == d0,
                self.regs.enable_writes() == w0,
                self.regs.upcoming() == u0,
                d0.len() < usize::MAX,
            ensures
                self.regs.inv(),
                self.regs.enabled(),
                self.regs.ready_seen() == self.regs.drawn().len() + 1,
                self.regs.drawn() == d0,
                self.regs.enable_writes() == w0,
                self.regs.upcoming() == u0,
            decreases self.regs.polls_to_ready(),
        {
            if self.regs.poll_ready() {
                break;
            }
        }
        self.regs.read_data()
    }

    /// The low 8 bits of one freshly drawn word; a full word is consumed.
    pub fn random_u8(&mut self) -> (b: u8)
        requires
            old(self).inv(),
            old(self).drawn().len() < usize::MAX,
        ensures
            final(self).inv(),
            final(self).drawn() == old(self).drawn().push(final(self).drawn().last()),
            final(self).drawn().len() == old(self).drawn().len() + 1,
            b == le_byte(final(self).drawn().last(), 0),
            final(self).ready_seen() == old(self).ready_seen() + 1,
            final(self).enable_writes() == old(self).enable_writes(),
            old(self).upcoming().len() > 0 ==> b == le_byte(old(self).upcoming()[0], 0)
                && final(self).upcoming() == old(self).upcoming().skip(1),
    {
        let w = self.random_u32();
        (w & 0xff) as u8
    }

    /// The low 16 bits of one freshly drawn word; a full word is consumed.
    pub fn random_u16(&mut self) -> (h: u16)
        requires
            old(self).inv(),
            old(self).drawn().len() < usize::MAX,
        ensures
            final(self).inv(),
            final(self).drawn() == old(self).drawn().push(final(self).drawn().last()),
            final(self).drawn().len() == old(self).drawn().len() + 1,
            h == final(self).drawn().last() as u16,
            h == (final(self).drawn().last() & 0xffff) as u16,
            final(self).ready_seen() == old(self).ready_seen() + 1,
            final(self).enable_writes() == old(self).enable_writes(),
            old(self).upcoming().len() > 0 ==> h == old(self).upcoming()[0] as u16
                && final(self).upcoming() == old(self).upcoming().skip(1),
    {
        let w = self.random_u32();
        proof {
            assert((w & 0xffff) < 0x10000 && (w & 0xffff) == w as u16) by (bit_vector);
        }
        (w & 0xffff) as u16
    }

    /// Two independent polled draws; the first word read is the low half of
    /// the result, the second the high half.
    pub fn random_u64(&mut self) -> (x: u64)
        requires
            old(self).inv(),
            old(self).drawn().len() + 2 <= usize::MAX,
        ensures
            final(self).inv(),
            final(self).drawn().len() == old(self).drawn().len() + 2,
            final(self).drawn().take(old(self).drawn().len() as int) == old(self).drawn(),
            x == combine_u64(
                final(self).drawn()[old(self).drawn().len() as int],
                final(self).drawn()[old(self).drawn().len() as int + 1],
            ),
            final(self).ready_seen() == old(self).ready_seen() + 2,
            final(self).enable_writes() == old(self).enable_writes(),
            old(self).upcoming().len() >= 2 ==> x == combine_u64(
                old(self).upcoming()[0],
                old(self).upcoming()[1],
            ) && final(self).upcoming() == old(self).upcoming().skip(2),
    {
        let ghost d0 = self.regs.drawn();
        let ghost u0 = self.regs.upcoming();
        let lower_half = self.random_u32();
        let upper_half = self.random_u32();
        proof {
            assert(self.regs.drawn().take(d0.len() as int) =~= d0);
            if u0.len() >= 2 {
                assert(u0.skip(1)[0] == u0[1]);
                assert(u0.skip(1).skip(1) =~= u0.skip(2));
            }
        }
        (lower_half as u64) | ((upper_half as u64) << 32)
    }

    /// Fill `buf` completely: each full 4-byte chunk receives one freshly
    /// drawn word in little-endian order; a trailing partial chunk of `r`
    /// bytes (1 to 3) receives the first `r` little-endian bytes of one
    /// further word, whose remaining bytes are discarded.  A buffer whose
    /// length is a multiple of 4 consumes no extra word.
    pub fn random(&mut self, buf: &mut [u8])
        requires
            old(self).inv(),
            old(self).drawn().len() + words_needed(old(buf)@.len() as nat) <= usize::MAX,
        ensures
            final(self).inv(),
            final(buf)@.len() == old(buf)@.len(),
            final(self).drawn().len() == old(self).drawn().len() + words_needed(
                old(buf)@.len() as nat,
            ),
            final(self).drawn().take(old(self).drawn().len() as int) == old(self).drawn(),
            final(buf)@ == fill_output(
                final(self).drawn().skip(old(self).drawn().len() as int),
                old(buf)@.len() as nat,
            ),
            final(self).ready_seen() == old(self).ready_seen() + words_needed(
                old(buf)@.len() as nat,
            ),
            final(self).enable_writes() == old(self).enable_writes(),
            old(self).upcoming().len() >= words_needed(old(buf)@.len() as nat)
                ==> final(self).drawn().skip(old(self).drawn().len() as int)
                == old(self).upcoming().take(words_needed(old(buf)@.len() as nat) as int)
                && final(self).upcoming()
                == old(self).upcoming().skip(words_needed(old(buf)@.len() as nat) as int),
    {
        let ghost d0 = self.regs.drawn();
        let ghost w0 = self.regs.enable_writes();
        let ghost u0 = self.regs.upcoming();
        let len = buf.len();
        let full: usize = len / 4;
        let mut c: usize = 0;
        while c < full
            invariant
                c <= full,
                full == len as int / 4,
                buf@.len() == len as nat,
                d0.len() + words_needed(len as nat) <= usize::MAX,
                self.inv(),
                self.regs.drawn().len() == d0.len() + c,
                self.regs.drawn().take(d0.len() as int) == d0,
                self.regs.enable_writes() == w0,
                u0.len() >= words_needed(len as nat) ==> self.regs.drawn().skip(d0.len() as int)
                    == u0.take(c as int) && self.regs.upcoming() == u0.skip(c as int),
                forall|i: int|
                    0 <= i < 4 * (c as int) ==> buf@[i] == le_byte(
                        self.regs.drawn()[d0.len() + i / 4],
                        (i % 4) as nat,
                    ),
            decreases full - c,
        {
            let ghost before = self.regs.drawn();
            let w = self.random_u32();
            let (b0, b1, b2, b3) = split_word(w);
            assert(4 * (c as int) + 3 < len as int);
            let base = 4 * c;
            buf[base] = b0;
            buf[base + 1] = b1;
            buf[base + 2] = b2;
            buf[base + 3] = b3;
            proof {
                assert(self.regs.drawn().take(d0.len() as int) =~= d0);
                if u0.len() >= words_needed(len as nat) {
                    assert(before.skip(d0.len() as int) == u0.take(c as int));
                    assert(w == u0.skip(c as int)[0]);
                    assert(self.regs.drawn().skip(d0.len() as int) =~= u0.take(c as int + 1));
                    assert(self.regs.upcoming() =~= u0.skip(c as int + 1));
                }
                assert forall|i: int| 0 <= i < 4 * (c as int) + 4 implies buf@[i] == le_byte(
                    self.regs.drawn()[d0.len() + i / 4],
                    (i % 4) as nat,
                ) by {
                    if i < 4 * (c as int) {
                        assert(self.regs.drawn()[d0.len() + i / 4] == before[d0.len() + i / 4]);
                    } else {
                        assert(i / 4 == c as int && i % 4 == i - 4 * (c as int));
                        assert(self.regs.drawn()[d0.len() + c as int] == w);
                    }
                }
            }
            c = c + 1;
        }
        let r = len % 4;
        if r != 0 {
            let ghost before = self.regs.drawn();
            let w = self.random_u32();
            let (b0, b1, b2, _) = split_word(w);
            let base = len - r;
            assert(base == 4 * (full as int));
            buf[base] = b0;
            if r > 1 {
                buf[base + 1] = b1;
            }
            if r > 2 {
                buf[base + 2] = b2;
            }
            proof {
                assert(self.regs.drawn().take(d0.len() as int) =~= d0);
                if u0.len() >= words_needed(len as nat) {
                    assert(before.skip(d0.len() as int) == u0.take(full as int));
                    assert(w == u0.skip(full as int)[0]);
                    assert(self.regs.drawn().skip(d0.len() as int) =~= u0.take(full as int + 1));
                    assert(self.regs.upcoming() =~= u0.skip(full as int + 1));
                }
                assert forall|i: int| 0 <= i < len as int implies buf@[i] == le_byte(
                    self.regs.drawn()[d0.len() + i / 4],
                    (i % 4) as nat,
                ) by {
                    if i < 4 * (full as int) {
                        assert(self.regs.drawn()[d0.len() + i / 4] == before[d0.len() + i / 4]);
                    } else {
                        assert(i / 4 == full as int && i % 4 == i - 4 * (full as int));
                        assert(self.regs.drawn()[d0.len() + full as int] == w);
                    }
                }
            }
        }
        proof {
            let dn = self.regs.drawn();
            assert(dn.len() == d0.len() + words_needed(len as nat));
            assert(buf@ =~= fill_output(dn.skip(d0.len() as int), len as nat));
        }
    }

    /// Give back the raw register block, consuming the handle.
    pub fn release(self) -> (r: R)
        ensures
            r.drawn() == self.drawn(),
            r.ready_seen() == self.ready_seen(),
            r.enable_writes() == self.enable_writes(),
            self.inv() ==> r.inv(),
    {
        self.regs
    }
}

/// The four little-endian bytes of `w`, least significant first.
fn split_word(w: u32) -> (bs: (u8, u8, u8, u8))
    ensures
        bs.0 == le_byte(w, 0),
        bs.1 == le_byte(w, 1),
        bs.2 == le_byte(w, 2),
        bs.3 == le_byte(w, 3),
{
    proof {
        assert((w & 0xff) < 0x100 && ((w >> 8) & 0xff) < 0x100 && ((w >> 16) & 0xff) < 0x100 && ((w
            >> 24) & 0xff) < 0x100) by (bit_vector);
    }
    ((w & 0xff) as u8, ((w >> 8) & 0xff) as u8, ((w >> 16) & 0xff) as u8, ((w >> 24) & 0xff) as u8)
}

} // verus!
