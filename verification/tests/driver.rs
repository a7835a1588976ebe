use trng_driver::regs::ClockMask;
use trng_driver::script::ScriptRegs;
use trng_driver::trng::Trng;

fn driver_with(words: Vec<u32>) -> (ClockMask, Trng<ScriptRegs>) {
    let mut mclk = ClockMask::new(0);
    let t = Trng::new(&mut mclk, ScriptRegs::new(words));
    (mclk, t)
}

#[test]
fn fill_multiple_of_four_is_le_concatenation() {
    let (_, mut t) = driver_with(vec![0x01020304, 0x05060708]);
    let mut buf = [0u8; 8];
    t.random(&mut buf);
    assert_eq!(buf, [0x04, 0x03, 0x02, 0x01, 0x08, 0x07, 0x06, 0x05]);
    let regs = t.release();
    assert_eq!(regs.consumed(), 2);
    assert_eq!(regs.ready_observations(), 2);
}

#[test]
fn fill_of_four_bytes_consumes_one_word() {
    let (_, mut t) = driver_with(vec![0xDDCCBBAA]);
    let mut buf = [0u8; 4];
    t.random(&mut buf);
    assert_eq!(buf, [0xAA, 0xBB, 0xCC, 0xDD]);
    assert_eq!(t.release().consumed(), 1);
}

#[test]
fn fill_empty_buffer_consumes_nothing() {
    let (_, mut t) = driver_with(vec![0x01020304]);
    let mut buf = [0u8; 0];
    t.random(&mut buf);
    let regs = t.release();
    assert_eq!(regs.consumed(), 0);
    assert_eq!(regs.ready_observations(), 0);
}

#[test]
fn fill_remainder_one() {
    let (_, mut t) = driver_with(vec![0x01020304, 0x05060708]);
    let mut buf = [0u8; 5];
    t.random(&mut buf);
    assert_eq!(buf, [0x04, 0x03, 0x02, 0x01, 0x08]);
    assert_eq!(t.release().consumed(), 2);
}

#[test]
fn fill_remainder_two() {
    let (_, mut t) = driver_with(vec![0x01020304, 0x05060708]);
    let mut buf = [0u8; 6];
    t.random(&mut buf);
    assert_eq!(buf, [0x04, 0x03, 0x02, 0x01, 0x08, 0x07]);
    assert_eq!(t.release().consumed(), 2);
}

#[test]
fn fill_remainder_three() {
    let (_, mut t) = driver_with(vec![0x01020304, 0x05060708]);
    let mut buf = [0u8; 7];
    t.random(&mut buf);
    assert_eq!(buf, [0x04, 0x03, 0x02, 0x01, 0x08, 0x07, 0x06]);
    assert_eq!(t.release().consumed(), 2);
}

#[test]
fn fill_overwrites_every_byte() {
    // No byte of any scripted word is the sentinel, so a surviving sentinel
    // byte would be one the fill skipped.
    let (_, mut t) = driver_with(vec![0x01020304, 0x05060708, 0x090A0B0C]);
    let mut buf = [0x5Au8; 11];
    t.random(&mut buf);
    assert!(buf.iter().all(|&b| b != 0x5A));
    assert_eq!(t.release().consumed(), 3);
}

#[test]
fn random_u32_returns_scripted_word() {
    let (_, mut t) = driver_with(vec![0xCAFEF00D, 0x8BADF00D]);
    assert_eq!(t.random_u32(), 0xCAFEF00D);
    assert_eq!(t.random_u32(), 0x8BADF00D);
    assert_eq!(t.release().consumed(), 2);
}

#[test]
fn random_u64_is_low_then_high() {
    let (_, mut t) = driver_with(vec![1, 2]);
    let x = t.random_u64();
    assert_eq!(x, 1u64 | (2u64 << 32));
    assert_eq!(x, 0x0000_0002_0000_0001);
    let regs = t.release();
    assert_eq!(regs.consumed(), 2);
    assert_eq!(regs.ready_observations(), 2);
}

#[test]
fn random_u8_is_low_byte_of_one_word() {
    let (_, mut t) = driver_with(vec![0xAABBCCDD]);
    assert_eq!(t.random_u8(), 0xDD);
    assert_eq!(t.release().consumed(), 1);
}

#[test]
fn random_u16_is_low_half_of_one_word() {
    let (_, mut t) = driver_with(vec![0xAABBCCDD]);
    assert_eq!(t.random_u16(), 0xCCDD);
    assert_eq!(t.release().consumed(), 1);
}

#[test]
fn construction_sets_mask_and_enable_bits_once() {
    let mut mclk = ClockMask::new(0x0000_0001);
    let t = Trng::new(&mut mclk, ScriptRegs::new(vec![7, 8, 9]));
    // The peripheral's mask bit is set; the neighbouring bit is untouched.
    assert_eq!(mclk.bits, 0x0000_0401);
    assert_eq!(mclk.writes, 1);
    let regs = t.release();
    assert!(regs.is_enabled());
    assert_eq!(regs.control_writes(), 1);
}

#[test]
fn reads_never_touch_the_control_register_again() {
    let (mclk, mut t) = driver_with(vec![1, 2, 3, 4, 5]);
    let _ = t.random_u32();
    let _ = t.random_u64();
    let mut buf = [0u8; 6];
    t.random(&mut buf);
    assert_eq!(mclk.writes, 1);
    let regs = t.release();
    assert!(regs.is_enabled());
    assert_eq!(regs.control_writes(), 1);
}

#[test]
fn each_word_costs_exactly_one_ready_observation() {
    let (_, mut t) = driver_with(vec![10, 20, 30, 40]);
    let _ = t.random_u32();
    let regs = t.release();
    assert_eq!(regs.ready_observations(), 1);
    assert_eq!(regs.consumed(), 1);

    let (_, mut t) = driver_with(vec![10, 20]);
    let mut buf = [0u8; 7];
    t.random(&mut buf);
    let regs = t.release();
    assert_eq!(regs.ready_observations(), 2);
    assert_eq!(regs.consumed(), 2);
}

#[test]
fn spent_script_serves_zero_words() {
    let (_, mut t) = driver_with(vec![0x01020304]);
    assert_eq!(t.random_u32(), 0x01020304);
    assert_eq!(t.random_u32(), 0);
    assert_eq!(t.release().consumed(), 2);
}
