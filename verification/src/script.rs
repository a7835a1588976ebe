//! A scripted in-memory register block: the deterministic stand-in for the
//! hardware peripheral.  It serves the words of a fixed script in order and,
//! once the script is spent, serves zero words; a fresh word is always ready,
//! so its liveness bound is zero failed polls.

use vstd::prelude::*;

use crate::regs::TrngRegisters;

verus! {

/// Register block backed by a fixed script of words.
pub struct ScriptRegs {
    script: Vec<u32>,
    served: usize,
    enabled: bool,
    ctrl_writes: u64,
    ready_hits: u64,
}

/// The word a script serves at position `i`: the scripted word while the
/// script lasts, zero afterwards.
spec fn scripted_word(script: Seq<u32>, i: int) -> u32 {
    if 0 <= i < script.len() {
        script[i]
    } else {
        0u32
    }
}

impl ScriptRegs {
    /// A fresh block that will serve the words of `script` in order, with
    /// the enable bit clear and no register traffic seen yet.
    pub fn new(script: Vec<u32>) -> (s: ScriptRegs)
        ensures
            s.inv(),
            !s.enabled(),
            s.enable_writes() == 0,
            s.drawn() == Seq::<u32>::empty(),
            s.ready_seen() == 0,
            s.upcoming() == script@,
    {
        let s = ScriptRegs { script, served: 0, enabled: false, ctrl_writes: 0, ready_hits: 0 };
        proof {
            assert(s.drawn() =~= Seq::<u32>::empty());
            assert(s.upcoming() =~= s.script@);
        }
        s
    }

    /// How many words have been read out of the data register.
    pub fn consumed(&self) -> (n: usize)
        ensures
            n == self.drawn().len(),
    {
        self.served
    }

    /// How many observations of the ready flag found it set.
    pub fn ready_observations(&self) -> (n: u64)
        ensures
            n == self.ready_seen(),
    {
        self.ready_hits
    }

    /// How many writes the control register has seen.
    pub fn control_writes(&self) -> (n: u64)
        ensures
            n == self.enable_writes(),
    {
        self.ctrl_writes
    }

    /// Whether the enable bit of the control register is set.
    pub fn is_enabled(&self) -> (b: bool)
        ensures
            b == self.enabled(),
    {
        self.enabled
    }

}

impl TrngRegisters for ScriptRegs {
    /// At most one successful poll is pending between data-register reads.
    closed spec fn inv(&self) -> bool {
        self.ready_hits as int == self.served as int || self.ready_hits as int == self.served
            as int + 1
    }

    closed spec fn enabled(&self) -> bool {
        self.enabled
    }

    closed spec fn enable_writes(&self) -> nat {
        self.ctrl_writes as nat
    }

    closed spec fn drawn(&self) -> Seq<u32> {
        Seq::new(self.served as nat, |i: int| scripted_word(self.script@, i))
    }

    closed spec fn ready_seen(&self) -> nat {
        self.ready_hits as nat
    }

    closed spec fn polls_to_ready(&self) -> nat {
        0
    }

    closed spec fn upcoming(&self) -> Seq<u32> {
        if self.served < self.script.len() {
            self.script@.skip(self.served as int)
        } else {
            Seq::empty()
        }
    }

    fn set_enable(&mut self) {
        self.enabled = true;
        self.ctrl_writes = self.ctrl_writes + 1;
    }

    fn poll_ready(&mut self) -> (r: bool) {
        self.ready_hits = self.ready_hits + 1;
        true
    }

    fn read_data(&mut self) -> (w: u32) {
        let w = if self.served < self.script.len() {
            self.script[self.served]
        } else {
            0
        };
        self.served = self.served + 1;
        proof {
            assert(self.drawn() =~= old(self).drawn().push(w));
            if old(self).upcoming().len() > 0 {
                assert(w == old(self).upcoming()[0]);
                assert(self.upcoming() =~= old(self).upcoming().skip(1));
            }
        }
        w
    }
}

} // verus!
