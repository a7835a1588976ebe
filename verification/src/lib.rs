//! Driver for a hardware true-random-number generator peripheral.
//!
//! The peripheral produces one fresh 32-bit word per "data ready" event.  The
//! driver performs the one-time clock/enable sequence, busy-polls the ready
//! flag, and assembles the raw words into 8-, 16-, 32- and 64-bit values and
//! arbitrary-length little-endian byte fills.  The register-level surface is a
//! capability trait, so the algorithms are written once and hold both for a
//! hardware-backed register block and for the scripted in-memory block that
//! the test suite drives.

pub mod regs;
pub mod script;
pub mod trng;
pub mod words;
