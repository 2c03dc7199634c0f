use vstd::prelude::*;
use std::sync::Arc;

use crate::driver;
use crate::error::Error;
use crate::frame::{collides, draw_sprite, drawn};
use crate::op::{Op, Reg, decode_word, well_formed};
use crate::timer::Timers;

verus! {

/// Relies on rand::random: it returns a value drawn from the thread's
/// generator, of which nothing can be promised.
pub assume_specification<T>[ rand::random::<T> ]() -> (r: T)
    where
        rand::distributions::Standard: rand::distributions::Distribution<T>,
;

/// The machine as the contracts see it: registers, memory, frame buffer,
/// call stack, and whether a display and a keypad are attached.
pub struct CpuView {
    pub pc: u16,
    pub sp: u8,
    pub i: u16,
    pub v: Seq<u8>,
    pub ram: Seq<u8>,
    pub vram: Seq<bool>,
    pub stack: Seq<u16>,
    pub display: bool,
    pub input: bool,
}

impl CpuView {
    /// Sizes are fixed and the stack pointer stays within the stack.
    pub open spec fn wf(self) -> bool {
        &&& self.v.len() == 16
        &&& self.ram.len() == 4096
        &&& self.vram.len() == 2048
        &&& self.stack.len() == 32
        &&& self.sp <= 32
    }
}

/// The bitmaps of the hexadecimal digits 0 to F, five rows each, that the
/// low end of memory holds.
pub open spec fn glyphs() -> Seq<u8> {
    seq![
        0xf0u8, 0x90, 0x90, 0x90, 0xf0,
        0x20, 0x60, 0x20, 0x20, 0x70,
        0xf0, 0x10, 0xf0, 0x80, 0xf0,
        0xf0, 0x10, 0xf0, 0x10, 0xf0,
        0x90, 0x90, 0xf0, 0x10, 0x10,
        0xf0, 0x80, 0xf0, 0x10, 0xf0,
        0xf0, 0x80, 0xf0, 0x90, 0xf0,
        0xf0, 0x10, 0x20, 0x40, 0x40,
        0xf0, 0x90, 0xf0, 0x90, 0xf0,
        0xf0, 0x90, 0xf0, 0x10, 0xf0,
        0xf0, 0x90, 0xf0, 0x90, 0x90,
        0xe0, 0x90, 0xe0, 0x90, 0xe0,
        0xf0, 0x80, 0x80, 0x80, 0xf0,
        0xe0, 0x90, 0x90, 0x90, 0xe0,
        0xf0, 0x80, 0xf0, 0x80, 0xf0,
        0xf0, 0x80, 0xf0, 0x80, 0x80,
    ]
}

/// Memory at power-on: the digit glyphs, then 0xFF everywhere else.
pub open spec fn initial_ram() -> Seq<u8> {
    Seq::new(4096, |a: int| if a < 80 { glyphs()[a] } else { 0xffu8 })
}

/// The instruction word at the program counter, big-endian, or `None`
/// when its second byte would lie past the end of memory.
pub open spec fn fetch_word(s: CpuView) -> Option<u16> {
    if s.pc + 1 < 4096 {
        Some((s.ram[s.pc as int] * 256 + s.ram[s.pc + 1]) as u16)
    } else {
        None
    }
}

/// The longest program that fits: memory from the load offset to the end.
pub open spec fn max_program_len() -> int {
    4096 - 0x200
}

/// Memory after `data` was copied in at the load offset.
pub open spec fn loaded(ram: Seq<u8>, data: Seq<u8>) -> Seq<u8> {
    Seq::new(ram.len(), |a: int| if 0x200 <= a < 0x200 + data.len() { data[a - 0x200] } else { ram[a] })
}

/// What one execution step reads from outside the machine: the random
/// byte, the keypad's answer for the key the operation names, the key a
/// blocking wait returned, and the delay counter.
#[derive(Debug, Clone, Copy, PartialEq, Eq)]
pub struct Readings {
    pub random: u8,
    pub key_down: bool,
    pub key: u8,
    pub delay: u8,
}

pub open spec fn wrap8(x: int) -> u8 {
    (x % 0x100) as u8
}

pub open spec fn wrap16(x: int) -> u16 {
    (x % 0x10000) as u16
}

pub open spec fn set_reg(s: CpuView, x: int, val: u8) -> CpuView {
    CpuView { v: s.v.update(x, val), ..s }
}

/// Skips the next instruction when `cond` holds.
pub open spec fn skip_if(s: CpuView, cond: bool) -> CpuView {
    if cond {
        CpuView { pc: wrap16(s.pc + 2), ..s }
    } else {
        s
    }
}

/// The outcome of an operation that ends by refreshing the display.
pub open spec fn refreshed(s: CpuView) -> Result<(), Error> {
    if s.display {
        Ok(())
    } else {
        Err(Error::DriverMissing)
    }
}

/// The effect of an operation that steers the program counter.
pub open spec fn control_effect(s: CpuView, op: Op, e: Readings) -> (CpuView, Result<(), Error>) {
    match op {
        Op::Sys(_) => (s, Err(Error::UnimplementedOp(op))),
        Op::Cls => (CpuView { vram: Seq::new(2048, |p: int| false), ..s }, refreshed(s)),
        Op::Ret => if s.sp == 0 {
            (s, Err(Error::StackUnderflow))
        } else {
            (CpuView { sp: (s.sp - 1) as u8, pc: s.stack[s.sp - 1], ..s }, Ok(()))
        },
        Op::Jmp(a) => (CpuView { pc: a, ..s }, Ok(())),
        Op::Call(a) => if s.sp >= 32 {
            (s, Err(Error::StackOverflow))
        } else {
            (CpuView { stack: s.stack.update(s.sp as int, s.pc), sp: (s.sp + 1) as u8, pc: a, ..s }, Ok(()))
        },
        Op::Se(x, k) => (skip_if(s, s.v[x.0 as int] == k), Ok(())),
        Op::Sne(x, k) => (skip_if(s, s.v[x.0 as int] != k), Ok(())),
        Op::Sre(x, y) => (skip_if(s, s.v[x.0 as int] == s.v[y.0 as int]), Ok(())),
        Op::Srne(x, y) => (skip_if(s, s.v[x.0 as int] != s.v[y.0 as int]), Ok(())),
        Op::Jmpi(a) => (CpuView { pc: wrap16(a + s.v[0]), ..s }, Ok(())),
        Op::Skp(_) => if s.input {
            (skip_if(s, e.key_down), Ok(()))
        } else {
            (s, Err(Error::DriverMissing))
        },
        Op::Sknp(_) => if s.input {
            (skip_if(s, !e.key_down), Ok(()))
        } else {
            (skip_if(s, true), Err(Error::DriverMissing))
        },
        _ => (s, Ok(())),
    }
}

/// The effect of an operation that computes into the registers.
pub open spec fn alu_effect(s: CpuView, op: Op, e: Readings) -> (CpuView, Result<(), Error>) {
    match op {
        Op::Ld(x, k) => (set_reg(s, x.0 as int, k), Ok(())),
        Op::Add(x, k) => (set_reg(s, x.0 as int, wrap8(s.v[x.0 as int] + k)), Ok(())),
        Op::Mov(x, y) => (set_reg(s, x.0 as int, s.v[y.0 as int]), Ok(())),
        Op::Or(x, y) => (set_reg(s, x.0 as int, s.v[x.0 as int] | s.v[y.0 as int]), Ok(())),
        Op::And(x, y) => (set_reg(s, x.0 as int, s.v[x.0 as int] & s.v[y.0 as int]), Ok(())),
        Op::Xor(x, y) => (set_reg(s, x.0 as int, s.v[x.0 as int] ^ s.v[y.0 as int]), Ok(())),
        Op::Addr(x, y) => {
            let (a, b) = (s.v[x.0 as int], s.v[y.0 as int]);
            (set_reg(set_reg(s, x.0 as int, wrap8(a + b)), 15, if a + b > 0xff { 1 } else { 0 }), Ok(()))
        },
        Op::Subr(x, y) => {
            let (a, b) = (s.v[x.0 as int], s.v[y.0 as int]);
            (set_reg(set_reg(s, x.0 as int, wrap8(a - b)), 15, if a >= b { 1 } else { 0 }), Ok(()))
        },
        Op::Shr(x, y) => {
            let t = set_reg(s, 15, s.v[y.0 as int] & 1);
            (set_reg(t, x.0 as int, t.v[y.0 as int] >> 1u8), Ok(()))
        },
        Op::Subnr(x, y) => {
            let (a, b) = (s.v[x.0 as int], s.v[y.0 as int]);
            (set_reg(set_reg(s, x.0 as int, wrap8(b - a)), 15, if b >= a { 1 } else { 0 }), Ok(()))
        },
        Op::Shl(x, y) => {
            let t = set_reg(s, 15, s.v[y.0 as int] >> 7u8);
            (set_reg(t, x.0 as int, t.v[y.0 as int] << 1u8), Ok(()))
        },
        Op::Rand(x, k) => (set_reg(s, x.0 as int, e.random & k), Ok(())),
        _ => (s, Ok(())),
    }
}

/// The effect of an operation on the index register, memory, frame buffer,
/// keypad or timers.
pub open spec fn memory_effect(s: CpuView, op: Op, e: Readings) -> (CpuView, Result<(), Error>) {
    match op {
        Op::Ldi(a) => (CpuView { i: a, ..s }, Ok(())),
        Op::Draw(x, y, m) => if s.i + m > 4096 {
            (s, Err(Error::DataAbort))
        } else {
            let (vx, vy) = (s.v[x.0 as int] as int, s.v[y.0 as int] as int);
            let t = CpuView {
                vram: drawn(s.vram, s.ram, s.i as int, m as int, vx, vy),
                v: s.v.update(15, if collides(s.vram, s.ram, s.i as int, m as int, vx, vy) { 1 } else { 0 }),
                ..s
            };
            (t, refreshed(s))
        },
        Op::Movd(x) => (set_reg(s, x.0 as int, e.delay), Ok(())),
        Op::Key(x) => if s.input {
            (set_reg(s, x.0 as int, e.key), Ok(()))
        } else {
            (s, Err(Error::DriverMissing))
        },
        Op::Ldd(_) | Op::Lds(_) => (s, Ok(())),
        Op::Addi(x) => (CpuView { i: wrap16(s.i + s.v[x.0 as int]), ..s }, Ok(())),
        Op::Ldspr(x) => (CpuView { i: (5 * s.v[x.0 as int]) as u16, ..s }, Ok(())),
        Op::Bcd(x) => if s.i + 3 > 4096 {
            (s, Err(Error::DataAbort))
        } else {
            let val = s.v[x.0 as int];
            let ram = s.ram.update(s.i as int, val / 100).update(s.i + 1, (val / 10) % 10).update(s.i + 2, val % 10);
            (CpuView { ram: ram, ..s }, Ok(()))
        },
        Op::Str(x) => if s.i + x.0 >= 4096 {
            (s, Err(Error::DataAbort))
        } else {
            let ram = Seq::new(s.ram.len(), |a: int| if s.i <= a <= s.i + x.0 { s.v[a - s.i] } else { s.ram[a] });
            (CpuView { ram: ram, ..s }, Ok(()))
        },
        Op::Read(x) => if s.i + x.0 >= 4096 {
            (s, Err(Error::DataAbort))
        } else {
            let v = Seq::new(s.v.len(), |k: int| if k <= x.0 { s.ram[s.i + k] } else { s.v[k] });
            (CpuView { v: v, ..s }, Ok(()))
        },
        _ => (s, Ok(())),
    }
}

/// The effect of `op` on a machine whose program counter has already
/// moved past it.
pub open spec fn effect(s: CpuView, op: Op, e: Readings) -> (CpuView, Result<(), Error>) {
    if !(op is Sys) && !well_formed(op) {
        (s, Err(Error::MalformedOp(op)))
    } else if spec_is_control(op) {
        control_effect(s, op, e)
    } else if spec_is_alu(op) {
        alu_effect(s, op, e)
    } else {
        memory_effect(s, op, e)
    }
}

/// One execution step: the program counter moves past the operation, then
/// the operation takes effect. On an error the counter has still moved.
pub open spec fn step(s: CpuView, op: Op, e: Readings) -> (CpuView, Result<(), Error>) {
    effect(CpuView { pc: wrap16(s.pc + 2), ..s }, op, e)
}

/// Operations that steer the program counter.
fn is_control(op: &Op) -> (r: bool)
    ensures
        r == spec_is_control(*op),
{
    match op {
        Op::Sys(_) | Op::Cls | Op::Ret | Op::Jmp(_) | Op::Call(_) | Op::Se(..) | Op::Sne(..)
        | Op::Sre(..) | Op::Srne(..) | Op::Jmpi(_) | Op::Skp(_) | Op::Sknp(_) => true,
        _ => false,
    }
}

pub open spec fn spec_is_control(op: Op) -> bool {
    match op {
        Op::Sys(_) | Op::Cls | Op::Ret | Op::Jmp(_) | Op::Call(_) | Op::Se(..) | Op::Sne(..)
        | Op::Sre(..) | Op::Srne(..) | Op::Jmpi(_) | Op::Skp(_) | Op::Sknp(_) => true,
        _ => false,
    }
}

/// Operations that compute into the registers.
fn is_alu(op: &Op) -> (r: bool)
    ensures
        r == spec_is_alu(*op),
{
    match op {
        Op::Ld(..) | Op::Add(..) | Op::Mov(..) | Op::Or(..) | Op::And(..) | Op::Xor(..) | Op::Addr(..)
        | Op::Subr(..) | Op::Shr(..) | Op::Subnr(..) | Op::Shl(..) | Op::Rand(..) => true,
        _ => false,
    }
}

pub open spec fn spec_is_alu(op: Op) -> bool {
    match op {
        Op::Ld(..) | Op::Add(..) | Op::Mov(..) | Op::Or(..) | Op::And(..) | Op::Xor(..) | Op::Addr(..)
        | Op::Subr(..) | Op::Shr(..) | Op::Subnr(..) | Op::Shl(..) | Op::Rand(..) => true,
        _ => false,
    }
}

/// Bytes per digit glyph.
const GLYPH_BYTES: u16 = 0x05;

pub struct Cpu {
    pc: u16,
    sp: u8,
    i: u16,
    v: [u8; 16],
    ram: [u8; 4096],
    vram: [bool; 2048],
    stack: [u16; 32],
    display_driver: Option<Box<dyn driver::Display>>,
    input_driver: Option<Box<dyn driver::Input>>,
    timers: Arc<Timers>,
}

impl View for Cpu {
    type V = CpuView;

    closed spec fn view(&self) -> CpuView {
        CpuView {
            pc: self.pc,
            sp: self.sp,
            i: self.i,
            v: self.v@,
            ram: self.ram@,
            vram: self.vram@,
            stack: self.stack@,
            display: self.display_driver is Some,
            input: self.input_driver is Some,
        }
    }
}

fn glyph_bytes() -> (r: [u8; 80])
    ensures
        r@ == glyphs(),
{
    let r: [u8; 80] = [
        0xf0, 0x90, 0x90, 0x90, 0xf0,
        0x20, 0x60, 0x20, 0x20, 0x70,
        0xf0, 0x10, 0xf0, 0x80, 0xf0,
        0xf0, 0x10, 0xf0, 0x10, 0xf0,
        0x90, 0x90, 0xf0, 0x10, 0x10,
        0xf0, 0x80, 0xf0, 0x10, 0xf0,
        0xf0, 0x80, 0xf0, 0x90, 0xf0,
        0xf0, 0x10, 0x20, 0x40, 0x40,
        0xf0, 0x90, 0xf0, 0x90, 0xf0,
        0xf0, 0x90, 0xf0, 0x10, 0xf0,
        0xf0, 0x90, 0xf0, 0x90, 0x90,
        0xe0, 0x90, 0xe0, 0x90, 0xe0,
        0xf0, 0x80, 0x80, 0x80, 0xf0,
        0xe0, 0x90, 0x90, 0x90, 0xe0,
        0xf0, 0x80, 0xf0, 0x80, 0xf0,
        0xf0, 0x80, 0xf0, 0x80, 0x80,
    ];
    assert(r@ =~= glyphs());
    r
}

impl Cpu {
    pub const LOAD_OFFSET: usize = 0x200;
    pub const REG_COUNT: usize = 0x10;
    pub const RAM_BYTES: usize = 0x1000;
    pub const MAX_STACK_DEPTH: usize = 0x20;

    pub const MAX_REG: usize = 0x0f;
    pub const INDEX_REG: usize = 0x00;
    pub const FLAG_REG: usize = 0x0f;

    pub const DISPLAY_WIDTH: usize = 0x40;
    pub const DISPLAY_HEIGHT: usize = 0x20;

    pub const VRAM_BYTES: usize = Self::DISPLAY_WIDTH * Self::DISPLAY_HEIGHT;

    const FONT_SPRITES_BYTES: usize = 0x50;

    pub open spec fn inv(&self) -> bool {
        self@.wf()
    }

    /// A machine with cleared registers, stack and frame buffer, the digit
    /// glyphs in low memory, and no drivers attached.
    pub fn new() -> (r: Cpu)
        ensures
            r.inv(),
            r@.pc == 0,
            r@.sp == 0,
            r@.i == 0,
            r@.v == Seq::new(16, |k: int| 0u8),
            r@.ram == initial_ram(),
            r@.vram == Seq::new(2048, |p: int| false),
            r@.stack == Seq::new(32, |k: int| 0u16),
            !r@.display,
            !r@.input,
    {
        let font = glyph_bytes();
        let mut ram = [0xffu8; 4096];
        let mut a: usize = 0;
        while a < Self::FONT_SPRITES_BYTES
            invariant
                a <= 80,
                ram@.len() == 4096,
                font@ == glyphs(),
                forall|b: int| 0 <= b < a ==> ram@[b] == glyphs()[b],
                forall|b: int| a <= b < 4096 ==> ram@[b] == 0xffu8,
            decreases 80 - a,
        {
            ram[a] = font[a];
            a += 1;
        }
        let r = Cpu {
            pc: 0x0000,
            sp: 0x00,
            i: 0x0000,
            v: [0x00; 16],
            ram: ram,
            vram: [false; 2048],
            stack: [0x0000; 32],
            display_driver: None,
            input_driver: None,
            timers: Arc::new(Timers::new()),
        };
        assert(r@.v =~= Seq::new(16, |k: int| 0u8));
        assert(r@.ram =~= initial_ram());
        assert(r@.vram =~= Seq::new(2048, |p: int| false));
        assert(r@.stack =~= Seq::new(32, |k: int| 0u16));
        r
    }

    /// Copies `data` into memory at the load offset and points the program
    /// counter there; a program longer than the memory above the offset is
    /// refused and nothing changes.
    pub fn load(&mut self, data: &[u8]) -> (r: Result<(), Error>)
        requires
            old(self).inv(),
        ensures
            final(self).inv(),
            data@.len() <= max_program_len() <==> r is Ok,
            r is Err ==> r == Err::<(), Error>(Error::LoadFailure) && final(self)@ == old(self)@,
            r is Ok ==> final(self)@ == (CpuView {
                pc: 0x200,
                ram: loaded(old(self)@.ram, data@),
                ..old(self)@
            }),
    {
        if data.len() > Self::RAM_BYTES - Self::LOAD_OFFSET {
            Err(Error::LoadFailure)
        } else {
            let mut ram = self.ram;
            let ghost before = ram@;
            let mut k: usize = 0;
            while k < data.len()
                invariant
                    k <= data@.len() <= 4096 - 0x200,
                    ram@.len() == 4096,
                    before.len() == 4096,
                    forall|a: int| 0 <= a < 4096 ==> ram@[a] == (if 0x200 <= a < 0x200 + k {
                        data@[a - 0x200]
                    } else {
                        before[a]
                    }),
                decreases data@.len() - k,
            {
                ram[Self::LOAD_OFFSET + k] = data[k];
                k += 1;
            }
            self.ram = ram;
            self.pc = Self::LOAD_OFFSET as u16;
            assert(self.ram@ =~= loaded(before, data@));
            Ok(())
        }
    }

    pub fn set_display_driver(&mut self, driver: Option<Box<dyn driver::Display>>)
        ensures
            final(self)@ == (CpuView { display: driver is Some, ..old(self)@ }),
    {
        self.display_driver = driver;
    }

    pub fn set_input_driver(&mut self, driver: Option<Box<dyn driver::Input>>)
        ensures
            final(self)@ == (CpuView { input: driver is Some, ..old(self)@ }),
    {
        self.input_driver = driver;
    }

    /// Reads the instruction word at the program counter.
    pub fn fetch(&self) -> (r: Result<u16, Error>)
        requires
            self.inv(),
        ensures
            fetch_word(self@) matches Some(w) ==> r == Ok::<u16, Error>(w),
            fetch_word(self@) is None ==> r == Err::<u16, Error>(Error::PrefetchAbort),
    {
        if self.pc as usize > Self::RAM_BYTES - 2 {
            Err(Error::PrefetchAbort)
        } else {
            let h = self.ram[self.pc as usize] as u16;
            let l = self.ram[self.pc as usize + 1] as u16;
            Ok(h * 256 + l)
        }
    }

    /// Tells the display about the frame buffer; fails when none is attached.
    fn refresh(&mut self) -> (r: Result<(), Error>)
        ensures
            final(self)@ == old(self)@,
            r == refreshed(old(self)@),
    {
        match &mut self.display_driver {
            Some(display_driver) => {
                display_driver.refresh(&self.vram);
                Ok(())
            },
            None => Err(Error::DriverMissing),
        }
    }

    fn clear(&mut self) -> (r: Result<(), Error>)
        requires
            old(self).inv(),
        ensures
            final(self)@ == (CpuView { vram: Seq::new(2048, |p: int| false), ..old(self)@ }),
            r == refreshed(old(self)@),
    {
        let mut vram = self.vram;
        let mut p: usize = 0;
        while p < Self::VRAM_BYTES
            invariant
                p <= 2048,
                vram@.len() == 2048,
                forall|q: int| 0 <= q < p ==> !vram@[q],
            decreases 2048 - p,
        {
            vram[p] = false;
            p += 1;
        }
        self.vram = vram;
        assert(self.vram@ =~= Seq::new(2048, |p: int| false));
        self.refresh()
    }

    fn skip_if(&mut self, cond: bool)
        ensures
            final(self)@ == skip_if(old(self)@, cond),
    {
        if cond {
            self.pc = self.pc.wrapping_add(2);
        }
    }

    fn draw(&mut self, x: usize, y: usize, m: u8) -> (r: Result<(), Error>)
        requires
            old(self).inv(),
            x < 16,
            y < 16,
            m < 16,
        ensures
            (final(self)@, r) == effect(old(self)@, Op::Draw(Reg(x), Reg(y), m), arbitrary()),
    {
        let i = self.i as usize;
        if i + m as usize > Self::RAM_BYTES {
            Err(Error::DataAbort)
        } else {
            let mut vram = self.vram;
            let collided = draw_sprite(&mut vram, &self.ram, i, m as usize, self.v[x], self.v[y]);
            self.vram = vram;
            self.v[Self::FLAG_REG] = if collided { 1 } else { 0 };
            self.refresh()
        }
    }

    fn bcd(&mut self, x: usize) -> (r: Result<(), Error>)
        requires
            old(self).inv(),
            x < 16,
        ensures
            (final(self)@, r) == effect(old(self)@, Op::Bcd(Reg(x)), arbitrary()),
    {
        let i = self.i as usize;
        if i + 3 > Self::RAM_BYTES {
            Err(Error::DataAbort)
        } else {
            let vx = self.v[x];
            self.ram[i] = vx / 100;
            self.ram[i + 1] = (vx / 10) % 10;
            self.ram[i + 2] = vx % 10;
            Ok(())
        }
    }

    /// Copies registers 0 through `x` to memory at the index register.
    fn store_regs(&mut self, x: usize) -> (r: Result<(), Error>)
        requires
            old(self).inv(),
            x < 16,
        ensures
            (final(self)@, r) == effect(old(self)@, Op::Str(Reg(x)), arbitrary()),
    {
        let i = self.i as usize;
        if i + x >= Self::RAM_BYTES {
            Err(Error::DataAbort)
        } else {
            let mut ram = self.ram;
            let ghost before = ram@;
            let mut k: usize = 0;
            while k <= x
                invariant
                    k <= x + 1,
                    i + x < 4096,
                    x < 16,
                    before.len() == 4096,
                    ram@.len() == 4096,
                    self.v@.len() == 16,
                    forall|a: int| 0 <= a < 4096 ==> ram@[a] == (if i <= a < i + k { self.v@[a - i] } else { before[a] }),
                decreases x + 1 - k,
            {
                ram[i + k] = self.v[k];
                k += 1;
            }
            self.ram = ram;
            assert(self.ram@ =~= Seq::new(4096, |a: int| if i <= a <= i + x { self.v@[a - i] } else { before[a] }));
            Ok(())
        }
    }

    /// Copies memory at the index register into registers 0 through `x`.
    fn load_regs(&mut self, x: usize) -> (r: Result<(), Error>)
        requires
            old(self).inv(),
            x < 16,
        ensures
            (final(self)@, r) == effect(old(self)@, Op::Read(Reg(x)), arbitrary()),
    {
        let i = self.i as usize;
        if i + x >= Self::RAM_BYTES {
            Err(Error::DataAbort)
        } else {
            let mut v = self.v;
            let ghost before = v@;
            let mut k: usize = 0;
            while k <= x
                invariant
                    k <= x + 1,
                    i + x < 4096,
                    x < 16,
                    before.len() == 16,
                    v@.len() == 16,
                    self.ram@.len() == 4096,
                    forall|j: int| 0 <= j < 16 ==> v@[j] == (if j < k { self.ram@[i + j] } else { before[j] }),
                decreases x + 1 - k,
            {
                v[k] = self.ram[i + k];
                k += 1;
            }
            self.v = v;
            assert(self.v@ =~= Seq::new(16, |j: int| if j <= x { self.ram@[i + j] } else { before[j] }));
            Ok(())
        }
    }

    /// Operations that steer the program counter.
    fn exec_control(&mut self, op: Op, e: Readings) -> (r: Result<(), Error>)
        requires
            old(self).inv(),
            spec_is_control(op),
            op is Sys || well_formed(op),
        ensures
            final(self).inv(),
            (final(self)@, r) == control_effect(old(self)@, op, e),
    {
        match op {
            Op::Sys(_) => Err(Error::UnimplementedOp(op)),
            Op::Cls => self.clear(),
            Op::Ret => {
                if self.sp == 0 {
                    Err(Error::StackUnderflow)
                } else {
                    self.sp -= 1;
                    self.pc = self.stack[self.sp as usize];
                    Ok(())
                }
            },
            Op::Jmp(addr) => {
                self.pc = addr;
                Ok(())
            },
            Op::Call(addr) => {
                if self.sp as usize >= Self::MAX_STACK_DEPTH {
                    Err(Error::StackOverflow)
                } else {
                    self.stack[self.sp as usize] = self.pc;
                    self.sp += 1;
                    self.pc = addr;
                    Ok(())
                }
            },
            Op::Se(Reg(x), kk) => {
                let c = self.v[x] == kk;
                self.skip_if(c);
                Ok(())
            },
            Op::Sne(Reg(x), kk) => {
                let c = self.v[x] != kk;
                self.skip_if(c);
                Ok(())
            },
            Op::Sre(Reg(x), Reg(y)) => {
                let c = self.v[x] == self.v[y];
                self.skip_if(c);
                Ok(())
            },
            Op::Srne(Reg(x), Reg(y)) => {
                let c = self.v[x] != self.v[y];
                self.skip_if(c);
                Ok(())
            },
            Op::Jmpi(addr) => {
                self.pc = addr.wrapping_add(self.v[Self::INDEX_REG] as u16);
                Ok(())
            },
            Op::Skp(_) => {
                if self.input_driver.is_some() {
                    self.skip_if(e.key_down);
                    Ok(())
                } else {
                    Err(Error::DriverMissing)
                }
            },
            Op::Sknp(_) => {
                if self.input_driver.is_some() {
                    self.skip_if(!e.key_down);
                    Ok(())
                } else {
                    /* no keypad means that no key is ever pressed */
                    self.skip_if(true);
                    Err(Error::DriverMissing)
                }
            },
            _ => Ok(()),
        }
    }

    /// Operations that compute into the registers.
    #[verifier::rlimit(100)]
    fn exec_alu(&mut self, op: Op, e: Readings) -> (r: Result<(), Error>)
        requires
            old(self).inv(),
            spec_is_alu(op),
            well_formed(op),
        ensures
            final(self).inv(),
            (final(self)@, r) == alu_effect(old(self)@, op, e),
    {
        match op {
            Op::Ld(Reg(x), kk) => self.v[x] = kk,
            /* the carry flag is deliberately left alone */
            Op::Add(Reg(x), kk) => self.v[x] = self.v[x].wrapping_add(kk),
            Op::Mov(Reg(x), Reg(y)) => self.v[x] = self.v[y],
            Op::Or(Reg(x), Reg(y)) => self.v[x] = self.v[x] | self.v[y],
            Op::And(Reg(x), Reg(y)) => self.v[x] = self.v[x] & self.v[y],
            Op::Xor(Reg(x), Reg(y)) => self.v[x] = self.v[x] ^ self.v[y],
            Op::Addr(Reg(x), Reg(y)) => {
                let (a, b) = (self.v[x], self.v[y]);
                self.v[x] = a.wrapping_add(b);
                self.v[Self::FLAG_REG] = if a as u16 + b as u16 > 0xff { 1 } else { 0 };
            },
            Op::Subr(Reg(x), Reg(y)) => {
                let (a, b) = (self.v[x], self.v[y]);
                self.v[x] = a.wrapping_sub(b);
                self.v[Self::FLAG_REG] = if a >= b { 1 } else { 0 };
            },
            Op::Shr(Reg(x), Reg(y)) => {
                self.v[Self::FLAG_REG] = self.v[y] & 0x01;
                self.v[x] = self.v[y] >> 1;
            },
            Op::Subnr(Reg(x), Reg(y)) => {
                let (a, b) = (self.v[x], self.v[y]);
                self.v[x] = b.wrapping_sub(a);
                self.v[Self::FLAG_REG] = if b >= a { 1 } else { 0 };
            },
            Op::Shl(Reg(x), Reg(y)) => {
                self.v[Self::FLAG_REG] = self.v[y] >> 7;
                self.v[x] = self.v[y] << 1;
            },
            Op::Rand(Reg(x), kk) => self.v[x] = e.random & kk,
            _ => {},
        }
        Ok(())
    }

    /// Operations on the index register, memory, frame buffer, keypad and
    /// timers.
    fn exec_memory(&mut self, op: Op, e: Readings) -> (r: Result<(), Error>)
        requires
            old(self).inv(),
            !spec_is_control(op) && !spec_is_alu(op),
            well_formed(op),
        ensures
            final(self).inv(),
            (final(self)@, r) == memory_effect(old(self)@, op, e),
    {
        match op {
            Op::Ldi(addr) => {
                self.i = addr;
                Ok(())
            },
            Op::Draw(Reg(x), Reg(y), m) => self.draw(x, y, m),
            Op::Movd(Reg(x)) => {
                self.v[x] = e.delay;
                Ok(())
            },
            Op::Key(Reg(x)) => {
                if self.input_driver.is_some() {
                    self.v[x] = e.key;
                    Ok(())
                } else {
                    Err(Error::DriverMissing)
                }
            },
            Op::Ldd(Reg(x)) => {
                self.timers.set_delay(self.v[x]);
                Ok(())
            },
            Op::Lds(Reg(x)) => {
                self.timers.set_sound(self.v[x]);
                Ok(())
            },
            Op::Addi(Reg(x)) => {
                self.i = self.i.wrapping_add(self.v[x] as u16);
                Ok(())
            },
            Op::Ldspr(Reg(x)) => {
                let vx = self.v[x] as u16;
                assert(GLYPH_BYTES * vx <= 1275) by (nonlinear_arith)
                    requires
                        GLYPH_BYTES == 5,
                        vx <= 255,
                ;
                self.i = GLYPH_BYTES * vx;
                Ok(())
            },
            Op::Bcd(Reg(x)) => self.bcd(x),
            Op::Str(Reg(x)) => self.store_regs(x),
            Op::Read(Reg(x)) => self.load_regs(x),
            _ => Ok(()),
        }
    }

    /// Runs `op` given what it reads from outside (see `Readings`). The
    /// program counter first moves past the operation; then the operation
    /// takes effect, or an error says why it did not.
    pub fn apply(&mut self, op: Op, e: Readings) -> (r: Result<(), Error>)
        requires
            old(self).inv(),
        ensures
            final(self).inv(),
            (final(self)@, r) == step(old(self)@, op, e),
    {
        self.pc = self.pc.wrapping_add(2);
        if !matches!(op, Op::Sys(_)) && !op.is_well_formed() {
            Err(Error::MalformedOp(op))
        } else if is_control(&op) {
            self.exec_control(op, e)
        } else if is_alu(&op) {
            self.exec_alu(op, e)
        } else {
            self.exec_memory(op, e)
        }
    }

    /// Gathers what `op` reads from outside: a random byte, the keypad's
    /// answer for the key in register x, a key waited for, or the delay
    /// counter. Only the operation that needs one asks for it, and only
    /// when its register is in range and the keypad is there.
    fn read_outside(&self, op: &Op) -> (e: Readings)
        requires
            self.inv(),
    {
        let mut e = Readings { random: 0, key_down: false, key: 0, delay: 0 };
        match *op {
            Op::Rand(Reg(x), _) => {
                if x <= Self::MAX_REG {
                    e.random = rand::random::<u8>();
                }
            },
            Op::Skp(Reg(x)) | Op::Sknp(Reg(x)) => {
                if x <= Self::MAX_REG {
                    if let Some(input_driver) = &self.input_driver {
                        e.key_down = input_driver.poll(self.v[x]);
                    }
                }
            },
            Op::Key(Reg(x)) => {
                if x <= Self::MAX_REG {
                    if let Some(input_driver) = &self.input_driver {
                        e.key = input_driver.block();
                    }
                }
            },
            Op::Movd(Reg(x)) => {
                if x <= Self::MAX_REG {
                    e.delay = self.timers.delay();
                }
            },
            _ => {},
        }
        e
    }

    /// Runs `op`, reading from the drivers, the random source and the timer
    /// counters what it needs. The outcome is that of `step` for some
    /// readings: which ones, only the world outside decides.
    pub fn exec(&mut self, op: Op) -> (r: Result<(), Error>)
        requires
            old(self).inv(),
        ensures
            final(self).inv(),
            exists|e: Readings| step(old(self)@, op, e) == (final(self)@, r),
    {
        let e = self.read_outside(&op);
        self.apply(op, e)
    }

    /// One fetch-decode-execute cycle. A fetch past the end of memory or a
    /// word that decodes to nothing leaves the machine as it was.
    pub fn tick(&mut self) -> (r: Result<(), Error>)
        requires
            old(self).inv(),
        ensures
            final(self).inv(),
            fetch_word(old(self)@) is None ==> r == Err::<(), Error>(Error::PrefetchAbort) && final(self)@ == old(self)@,
            fetch_word(old(self)@) matches Some(w) ==> (decode_word(w) is None
                ==> r == Err::<(), Error>(Error::BadInstruction) && final(self)@ == old(self)@),
            fetch_word(old(self)@) matches Some(w) ==> (decode_word(w) matches Some(op)
                ==> exists|e: Readings| step(old(self)@, op, e) == (final(self)@, r)),
    {
        match self.fetch() {
            Err(err) => Err(err),
            Ok(opcode) => match Op::decode(opcode) {
                None => Err(Error::BadInstruction),
                Some(op) => self.exec(op),
            },
        }
    }

    pub fn pc(&self) -> (r: u16)
        ensures
            r == self@.pc,
    {
        self.pc
    }

    pub fn sp(&self) -> (r: u8)
        ensures
            r == self@.sp,
    {
        self.sp
    }

    /// The index register.
    pub fn index(&self) -> (r: u16)
        ensures
            r == self@.i,
    {
        self.i
    }

    pub fn reg(&self, x: usize) -> (r: u8)
        requires
            x < 16,
        ensures
            r == self@.v[x as int],
    {
        self.v[x]
    }

    pub fn ram(&self) -> (r: &[u8; 4096])
        ensures
            r@ == self@.ram,
    {
        &self.ram
    }

    pub fn vram(&self) -> (r: &[bool; 2048])
        ensures
            r@ == self@.vram,
    {
        &self.vram
    }

    pub fn stack(&self) -> (r: &[u16; 32])
        ensures
            r@ == self@.stack,
    {
        &self.stack
    }

    /// The delay and sound counters, to be shared with the timer clock.
    pub fn timers(&self) -> &Arc<Timers> {
        &self.timers
    }
}

} // verus!
