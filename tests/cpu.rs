use std::sync::Arc;
use std::sync::atomic::{AtomicUsize, Ordering};

use chip8::cpu::{Cpu, Readings};
use chip8::driver::{Display, Input};
use chip8::error::Error;
use chip8::op::{Op, Reg};

/// Runs the timer clock for `ms` milliseconds' worth of 16 ms periods.
fn run_clock(cpu: &Cpu, ms: u64) {
    for _ in 0..ms / 16 {
        cpu.timers().clock_tick();
    }
}

struct CountingDisplay {
    refreshes: Arc<AtomicUsize>,
}

impl Display for CountingDisplay {
    fn refresh(&mut self, vram: &[bool]) {
        assert_eq!(vram.len(), Cpu::VRAM_BYTES);
        self.refreshes.fetch_add(1, Ordering::SeqCst);
    }
}

struct OneKey {
    key: u8,
}

impl Input for OneKey {
    fn poll(&self, key: u8) -> bool {
        key == self.key
    }

    fn block(&self) -> u8 {
        self.key
    }
}

fn readings() -> Readings {
    Readings { random: 0, key_down: false, key: 0, delay: 0 }
}

#[test]
fn cpu_atomic() {
    let mut cpu = Cpu::new();

    cpu.exec(Op::Ld(Reg(0), 200)).unwrap();
    cpu.exec(Op::Ldd(Reg(0))).unwrap();
    cpu.exec(Op::Movd(Reg(0))).unwrap();

    assert_eq!(cpu.reg(0), 200);
    run_clock(&cpu, 500);

    cpu.exec(Op::Movd(Reg(0))).unwrap();
    assert!(cpu.reg(0) < 175 && cpu.reg(0) > 165);

    cpu.exec(Op::Ld(Reg(0), 200)).unwrap();
    cpu.exec(Op::Lds(Reg(0))).unwrap();
    run_clock(&cpu, 250);

    let ds = cpu.timers().sound();
    assert!(ds < 187 && ds > 183);
}

#[test]
fn cpu_bcd() {
    let mut cpu = Cpu::new();

    cpu.exec(Op::Ld(Reg(0), 135)).unwrap();
    cpu.exec(Op::Ldi(0x400)).unwrap();
    cpu.exec(Op::Bcd(Reg(0))).unwrap();
    cpu.exec(Op::Read(Reg(2))).unwrap();

    assert_eq!(cpu.reg(0), 1);
    assert_eq!(cpu.reg(1), 3);
    assert_eq!(cpu.reg(2), 5);
}

#[test]
fn cpu_draw() {
    let mut cpu = Cpu::new();

    let sprite: [u8; 3] = [
        0b11111111,
        0b10000001,
        0b11111111,
    ];

    cpu.exec(Op::Ld(Reg(0), sprite[0])).unwrap();
    cpu.exec(Op::Ld(Reg(1), sprite[1])).unwrap();
    cpu.exec(Op::Ld(Reg(2), sprite[2])).unwrap();
    cpu.exec(Op::Ldi(0x400)).unwrap();
    cpu.exec(Op::Str(Reg(2))).unwrap();
    cpu.exec(Op::Ld(Reg(3), 0x15)).unwrap();
    cpu.exec(Op::Ld(Reg(4), 0x05)).unwrap();
    assert_eq!(cpu.exec(Op::Draw(Reg(3), Reg(4), 3)), Err(Error::DriverMissing));

    let row1_start = 0x05 * Cpu::DISPLAY_WIDTH + 0x15;
    let row1_end = 0x05 * Cpu::DISPLAY_WIDTH + 0x1d;
    let row2_start = 0x06 * Cpu::DISPLAY_WIDTH + 0x15;
    let row2_end = 0x06 * Cpu::DISPLAY_WIDTH + 0x1d;
    let row3_start = 0x07 * Cpu::DISPLAY_WIDTH + 0x15;
    let row3_end = 0x07 * Cpu::DISPLAY_WIDTH + 0x1d;

    assert_eq!(cpu.vram()[row1_start..row1_end], [true, true, true, true, true, true, true, true]);
    assert_eq!(cpu.vram()[row2_start..row2_end], [true, false, false, false, false, false, false, true]);
    assert_eq!(cpu.vram()[row3_start..row3_end], [true, true, true, true, true, true, true, true]);
    assert_eq!(cpu.reg(Cpu::FLAG_REG), 0x00);

    /* Draw the same sprite again to clear it. */
    assert_eq!(cpu.exec(Op::Draw(Reg(3), Reg(4), 3)), Err(Error::DriverMissing));

    assert_eq!(cpu.vram()[row1_start..row1_end], [false, false, false, false, false, false, false, false]);
    assert_eq!(cpu.vram()[row2_start..row2_end], [false, false, false, false, false, false, false, false]);
    assert_eq!(cpu.vram()[row3_start..row3_end], [false, false, false, false, false, false, false, false]);
    assert_eq!(cpu.reg(Cpu::FLAG_REG), 0x01);

    cpu.exec(Op::Ld(Reg(3), 60)).unwrap();
    cpu.exec(Op::Ld(Reg(4), 30)).unwrap();
    assert_eq!(cpu.exec(Op::Draw(Reg(3), Reg(4), 3)), Err(Error::DriverMissing));

    let row1_unwrapped_start = 30 * Cpu::DISPLAY_WIDTH + 60;
    let row1_unwrapped_end = 30 * Cpu::DISPLAY_WIDTH + 64;
    let row2_unwrapped_start = 31 * Cpu::DISPLAY_WIDTH + 60;
    let row2_unwrapped_end = 31 * Cpu::DISPLAY_WIDTH + 64;
    let row3_unwrapped_start = 0 * Cpu::DISPLAY_WIDTH + 60;
    let row3_unwrapped_end = 0 * Cpu::DISPLAY_WIDTH + 64;
    let row1_wrapped_start = 30 * Cpu::DISPLAY_WIDTH + 0;
    let row1_wrapped_end = 30 * Cpu::DISPLAY_WIDTH + 4;
    let row2_wrapped_start = 31 * Cpu::DISPLAY_WIDTH + 0;
    let row2_wrapped_end = 31 * Cpu::DISPLAY_WIDTH + 4;
    let row3_wrapped_start = 0 * Cpu::DISPLAY_WIDTH + 0;
    let row3_wrapped_end = 0 * Cpu::DISPLAY_WIDTH + 4;

    assert_eq!(cpu.vram()[row1_unwrapped_start..row1_unwrapped_end], [true, true, true, true]);
    assert_eq!(cpu.vram()[row2_unwrapped_start..row2_unwrapped_end], [true, false, false, false]);
    assert_eq!(cpu.vram()[row3_unwrapped_start..row3_unwrapped_end], [true, true, true, true]);
    assert_eq!(cpu.vram()[row1_wrapped_start..row1_wrapped_end], [true, true, true, true]);
    assert_eq!(cpu.vram()[row2_wrapped_start..row2_wrapped_end], [false, false, false, true]);
    assert_eq!(cpu.vram()[row3_wrapped_start..row3_wrapped_end], [true, true, true, true]);
    assert_eq!(cpu.reg(Cpu::FLAG_REG), 0x00);
}

#[test]
fn load_and_tick() {
    let program: [u8; 6] = [
        0x60,
        0x12, /* ld r0, 0x12 */
        0x61,
        0x02, /* ld r1, 0x02 */
        0x80,
        0x14, /* addr r0, r1 */
    ];

    let mut cpu = Cpu::new();
    let lo = Cpu::LOAD_OFFSET as u16;
    cpu.load(&program).unwrap();
    assert_eq!(cpu.pc(), lo);

    cpu.tick().unwrap();
    assert_eq!(cpu.pc(), lo + 2);
    assert_eq!(cpu.reg(0), 0x12);

    cpu.tick().unwrap();
    assert_eq!(cpu.pc(), lo + 4);
    assert_eq!(cpu.reg(1), 0x02);

    cpu.tick().unwrap();
    assert_eq!(cpu.pc(), lo + 6);
    assert_eq!(cpu.reg(0), 0x14);

    assert_eq!(cpu.tick(), Err(Error::BadInstruction));
    assert_eq!(cpu.pc(), lo + 6);
}

#[test]
fn new_machine_holds_glyphs() {
    let cpu = Cpu::new();
    assert_eq!(cpu.ram()[0..5], [0xf0, 0x90, 0x90, 0x90, 0xf0]);
    assert_eq!(cpu.ram()[75..80], [0xf0, 0x80, 0xf0, 0x80, 0x80]);
    assert_eq!(cpu.ram()[80], 0xff);
    assert_eq!(cpu.ram()[Cpu::RAM_BYTES - 1], 0xff);
    assert_eq!(cpu.pc(), 0);
    assert_eq!(cpu.sp(), 0);
    assert!(cpu.vram().iter().all(|p| !*p));
}

#[test]
fn load_fills_memory_exactly() {
    let mut cpu = Cpu::new();
    let program = vec![0xabu8; Cpu::RAM_BYTES - Cpu::LOAD_OFFSET];
    assert_eq!(cpu.load(&program), Ok(()));
    assert_eq!(cpu.ram()[Cpu::LOAD_OFFSET], 0xab);
    assert_eq!(cpu.ram()[Cpu::RAM_BYTES - 1], 0xab);
    assert_eq!(cpu.ram()[Cpu::LOAD_OFFSET - 1], 0xff);

    let mut other = Cpu::new();
    let too_long = vec![0xabu8; Cpu::RAM_BYTES - Cpu::LOAD_OFFSET + 1];
    assert_eq!(other.load(&too_long), Err(Error::LoadFailure));
    assert_eq!(other.pc(), 0);
    assert_eq!(other.ram()[Cpu::LOAD_OFFSET], 0xff);
}

#[test]
fn load_then_add_wraps_without_flag() {
    let mut cpu = Cpu::new();
    cpu.exec(Op::Ld(Reg(0xf), 0x42)).unwrap();
    cpu.exec(Op::Ld(Reg(3), 0xf0)).unwrap();
    cpu.exec(Op::Add(Reg(3), 0x20)).unwrap();
    assert_eq!(cpu.reg(3), 0x10);
    assert_eq!(cpu.reg(0xf), 0x42);
}

#[test]
fn add_and_subtract_set_carry_and_borrow() {
    let mut cpu = Cpu::new();
    cpu.exec(Op::Ld(Reg(0), 0xf0)).unwrap();
    cpu.exec(Op::Ld(Reg(1), 0x20)).unwrap();
    cpu.exec(Op::Addr(Reg(0), Reg(1))).unwrap();
    assert_eq!(cpu.reg(0), 0x10);
    assert_eq!(cpu.reg(0xf), 1);

    cpu.exec(Op::Subr(Reg(0), Reg(1))).unwrap();
    assert_eq!(cpu.reg(0), 0xf0);
    assert_eq!(cpu.reg(0xf), 0);

    cpu.exec(Op::Subr(Reg(0), Reg(1))).unwrap();
    assert_eq!(cpu.reg(0), 0xd0);
    assert_eq!(cpu.reg(0xf), 1);

    cpu.exec(Op::Subnr(Reg(0), Reg(1))).unwrap();
    assert_eq!(cpu.reg(0), 0x50);
    assert_eq!(cpu.reg(0xf), 0);
}

#[test]
fn shifts_keep_the_lost_bit() {
    let mut cpu = Cpu::new();
    cpu.exec(Op::Ld(Reg(2), 0x81)).unwrap();
    cpu.exec(Op::Shr(Reg(1), Reg(2))).unwrap();
    assert_eq!(cpu.reg(1), 0x40);
    assert_eq!(cpu.reg(0xf), 1);
    assert_eq!(cpu.reg(2), 0x81);

    cpu.exec(Op::Shl(Reg(3), Reg(2))).unwrap();
    assert_eq!(cpu.reg(3), 0x02);
    assert_eq!(cpu.reg(0xf), 1);

    cpu.exec(Op::Shl(Reg(4), Reg(1))).unwrap();
    assert_eq!(cpu.reg(4), 0x80);
    assert_eq!(cpu.reg(0xf), 0);
}

#[test]
fn logic_ops() {
    let mut cpu = Cpu::new();
    cpu.exec(Op::Ld(Reg(0), 0b1100)).unwrap();
    cpu.exec(Op::Ld(Reg(1), 0b1010)).unwrap();
    cpu.exec(Op::Mov(Reg(2), Reg(0))).unwrap();
    cpu.exec(Op::Or(Reg(2), Reg(1))).unwrap();
    assert_eq!(cpu.reg(2), 0b1110);
    cpu.exec(Op::Mov(Reg(2), Reg(0))).unwrap();
    cpu.exec(Op::And(Reg(2), Reg(1))).unwrap();
    assert_eq!(cpu.reg(2), 0b1000);
    cpu.exec(Op::Mov(Reg(2), Reg(0))).unwrap();
    cpu.exec(Op::Xor(Reg(2), Reg(1))).unwrap();
    assert_eq!(cpu.reg(2), 0b0110);
}

#[test]
fn skips_advance_past_one_instruction() {
    let mut cpu = Cpu::new();
    cpu.exec(Op::Ld(Reg(0), 7)).unwrap();
    let pc = cpu.pc();
    cpu.exec(Op::Se(Reg(0), 7)).unwrap();
    assert_eq!(cpu.pc(), pc + 4);
    cpu.exec(Op::Sne(Reg(0), 7)).unwrap();
    assert_eq!(cpu.pc(), pc + 6);
    cpu.exec(Op::Sre(Reg(0), Reg(0))).unwrap();
    assert_eq!(cpu.pc(), pc + 10);
    cpu.exec(Op::Srne(Reg(0), Reg(1))).unwrap();
    assert_eq!(cpu.pc(), pc + 14);
}

#[test]
fn jumps_calls_and_returns() {
    let mut cpu = Cpu::new();
    cpu.exec(Op::Jmp(0x300)).unwrap();
    assert_eq!(cpu.pc(), 0x300);
    cpu.exec(Op::Call(0x400)).unwrap();
    assert_eq!(cpu.pc(), 0x400);
    assert_eq!(cpu.sp(), 1);
    assert_eq!(cpu.stack()[0], 0x302);
    cpu.exec(Op::Ret).unwrap();
    assert_eq!(cpu.pc(), 0x302);
    assert_eq!(cpu.sp(), 0);
    cpu.exec(Op::Ld(Reg(0), 0x10)).unwrap();
    cpu.exec(Op::Jmpi(0x200)).unwrap();
    assert_eq!(cpu.pc(), 0x210);
}

#[test]
fn return_on_empty_stack_underflows() {
    let mut cpu = Cpu::new();
    assert_eq!(cpu.exec(Op::Ret), Err(Error::StackUnderflow));
    assert_eq!(cpu.pc(), 2);
    assert_eq!(cpu.sp(), 0);
}

#[test]
fn call_on_full_stack_overflows() {
    let mut cpu = Cpu::new();
    for _ in 0..Cpu::MAX_STACK_DEPTH {
        cpu.exec(Op::Call(0x200)).unwrap();
    }
    assert_eq!(cpu.sp() as usize, Cpu::MAX_STACK_DEPTH);
    assert_eq!(cpu.exec(Op::Call(0x200)), Err(Error::StackOverflow));
    assert_eq!(cpu.sp() as usize, Cpu::MAX_STACK_DEPTH);
}

#[test]
fn fetch_at_top_of_memory_aborts() {
    let mut cpu = Cpu::new();
    cpu.exec(Op::Jmp(0xffe)).unwrap();
    assert_eq!(cpu.fetch(), Ok(0xffff));
    cpu.exec(Op::Jmp(0xfff)).unwrap();
    assert_eq!(cpu.fetch(), Err(Error::PrefetchAbort));
    assert_eq!(cpu.tick(), Err(Error::PrefetchAbort));
    assert_eq!(cpu.pc(), 0xfff);
}

#[test]
fn unknown_word_is_a_bad_instruction() {
    let mut cpu = Cpu::new();
    cpu.load(&[0x5a, 0xb1]).unwrap();
    assert_eq!(cpu.tick(), Err(Error::BadInstruction));
    assert_eq!(cpu.pc(), 0x200);
}

#[test]
fn system_call_is_unimplemented() {
    let mut cpu = Cpu::new();
    cpu.load(&[0x01, 0x23]).unwrap();
    assert_eq!(cpu.tick(), Err(Error::UnimplementedOp(Op::Sys(0x123))));
    assert_eq!(cpu.pc(), 0x202);
}

#[test]
fn out_of_range_register_is_malformed() {
    let mut cpu = Cpu::new();
    assert_eq!(cpu.exec(Op::Ld(Reg(16), 1)), Err(Error::MalformedOp(Op::Ld(Reg(16), 1))));
    assert_eq!(cpu.pc(), 2);
    assert_eq!(
        cpu.exec(Op::Draw(Reg(0), Reg(0), 16)),
        Err(Error::MalformedOp(Op::Draw(Reg(0), Reg(0), 16)))
    );
}

#[test]
fn memory_ops_abort_past_the_end() {
    let mut cpu = Cpu::new();
    cpu.exec(Op::Ldi(0xffe)).unwrap();
    assert_eq!(cpu.exec(Op::Bcd(Reg(0))), Err(Error::DataAbort));
    assert_eq!(cpu.exec(Op::Str(Reg(2))), Err(Error::DataAbort));
    assert_eq!(cpu.exec(Op::Read(Reg(2))), Err(Error::DataAbort));
    assert_eq!(cpu.exec(Op::Str(Reg(1))), Ok(()));
    assert_eq!(cpu.exec(Op::Draw(Reg(0), Reg(0), 3)), Err(Error::DataAbort));
    assert_eq!(cpu.exec(Op::Draw(Reg(0), Reg(0), 2)), Err(Error::DriverMissing));
    cpu.exec(Op::Ldi(0xffd)).unwrap();
    assert_eq!(cpu.exec(Op::Bcd(Reg(0))), Ok(()));
}

#[test]
fn glyph_address_and_index_add() {
    let mut cpu = Cpu::new();
    cpu.exec(Op::Ld(Reg(6), 0xf)).unwrap();
    cpu.exec(Op::Ldspr(Reg(6))).unwrap();
    assert_eq!(cpu.index(), 75);
    cpu.exec(Op::Addi(Reg(6))).unwrap();
    assert_eq!(cpu.index(), 90);
}

#[test]
fn random_is_masked() {
    let mut cpu = Cpu::new();
    cpu.exec(Op::Rand(Reg(0), 0x00)).unwrap();
    assert_eq!(cpu.reg(0), 0);
    let e = Readings { random: 0xab, ..readings() };
    cpu.apply(Op::Rand(Reg(1), 0x0f), e).unwrap();
    assert_eq!(cpu.reg(1), 0x0b);
}

#[test]
fn clear_and_draw_refresh_the_display() {
    let refreshes = Arc::new(AtomicUsize::new(0));
    let mut cpu = Cpu::new();
    cpu.set_display_driver(Some(Box::new(CountingDisplay { refreshes: Arc::clone(&refreshes) })));
    cpu.exec(Op::Ldspr(Reg(0))).unwrap();
    assert_eq!(cpu.exec(Op::Draw(Reg(0), Reg(0), 5)), Ok(()));
    assert!(cpu.vram()[0]);
    assert_eq!(refreshes.load(Ordering::SeqCst), 1);
    assert_eq!(cpu.exec(Op::Cls), Ok(()));
    assert!(cpu.vram().iter().all(|p| !*p));
    assert_eq!(refreshes.load(Ordering::SeqCst), 2);
}

#[test]
fn clear_without_display_still_clears() {
    let mut cpu = Cpu::new();
    cpu.exec(Op::Ldspr(Reg(0))).unwrap();
    assert_eq!(cpu.exec(Op::Draw(Reg(0), Reg(0), 5)), Err(Error::DriverMissing));
    assert_eq!(cpu.exec(Op::Cls), Err(Error::DriverMissing));
    assert!(cpu.vram().iter().all(|p| !*p));
}

#[test]
fn keys_without_keypad() {
    let mut cpu = Cpu::new();
    let pc = cpu.pc();
    assert_eq!(cpu.exec(Op::Skp(Reg(0))), Err(Error::DriverMissing));
    assert_eq!(cpu.pc(), pc + 2);
    assert_eq!(cpu.exec(Op::Sknp(Reg(0))), Err(Error::DriverMissing));
    assert_eq!(cpu.pc(), pc + 6);
    assert_eq!(cpu.exec(Op::Key(Reg(0))), Err(Error::DriverMissing));
}

#[test]
fn keys_with_keypad() {
    let mut cpu = Cpu::new();
    cpu.set_input_driver(Some(Box::new(OneKey { key: 5 })));
    cpu.exec(Op::Ld(Reg(0), 5)).unwrap();
    let pc = cpu.pc();
    cpu.exec(Op::Skp(Reg(0))).unwrap();
    assert_eq!(cpu.pc(), pc + 4);
    cpu.exec(Op::Sknp(Reg(0))).unwrap();
    assert_eq!(cpu.pc(), pc + 6);
    cpu.exec(Op::Ld(Reg(0), 6)).unwrap();
    cpu.exec(Op::Sknp(Reg(0))).unwrap();
    assert_eq!(cpu.pc(), pc + 12);
    cpu.exec(Op::Key(Reg(3))).unwrap();
    assert_eq!(cpu.reg(3), 5);
}

#[test]
fn apply_uses_the_given_readings() {
    let mut cpu = Cpu::new();
    cpu.set_input_driver(Some(Box::new(OneKey { key: 1 })));
    let pc = cpu.pc();
    cpu.apply(Op::Skp(Reg(0)), Readings { key_down: true, ..readings() }).unwrap();
    assert_eq!(cpu.pc(), pc + 4);
    cpu.apply(Op::Key(Reg(2)), Readings { key: 9, ..readings() }).unwrap();
    assert_eq!(cpu.reg(2), 9);
    cpu.apply(Op::Movd(Reg(4)), Readings { delay: 77, ..readings() }).unwrap();
    assert_eq!(cpu.reg(4), 77);
}

#[test]
fn sound_counter_is_shared_with_the_clock() {
    let mut cpu = Cpu::new();
    cpu.exec(Op::Ld(Reg(0), 3)).unwrap();
    cpu.exec(Op::Lds(Reg(0))).unwrap();
    assert_eq!(cpu.timers().sound(), 3);
    assert_eq!(cpu.timers().clock_tick(), 2);
    assert_eq!(cpu.timers().clock_tick(), 1);
    assert_eq!(cpu.timers().clock_tick(), 0);
    assert_eq!(cpu.timers().clock_tick(), 0);
}
