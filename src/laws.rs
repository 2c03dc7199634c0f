use vstd::prelude::*;

use crate::cpu::{CpuView, Readings, fetch_word, step, wrap8, wrap16};
use crate::error::Error;
use crate::frame::{covers, lemma_target, sprite_bit, target};
use crate::op::{Op, Reg};

verus! {

/// Loading `a` into a register and then adding `b` to it leaves the
/// machine exactly as loading the wrapped sum would, but for the program
/// counter, which has moved past one more instruction. The add does not
/// touch the flag register.
pub proof fn law_load_then_add(s: CpuView, x: Reg, a: u8, b: u8, e1: Readings, e2: Readings)
    requires
        s.wf(),
        x.0 < 16,
    ensures
        step(s, Op::Ld(x, a), e1).1 is Ok,
        step(step(s, Op::Ld(x, a), e1).0, Op::Add(x, b), e2).1 is Ok,
        step(step(s, Op::Ld(x, a), e1).0, Op::Add(x, b), e2).0 == (CpuView {
            pc: wrap16(step(s, Op::Ld(x, wrap8(a + b)), e1).0.pc + 2),
            ..step(s, Op::Ld(x, wrap8(a + b)), e1).0
        }),
        x.0 != 15 ==> step(step(s, Op::Ld(x, a), e1).0, Op::Add(x, b), e2).0.v[15] == s.v[15],
{
    let t1 = step(s, Op::Ld(x, a), e1).0;
    let t2 = step(t1, Op::Add(x, b), e2).0;
    let u = step(s, Op::Ld(x, wrap8(a + b)), e1).0;
    assert(t2.v =~= u.v);
    assert(t2.pc == wrap16(u.pc + 2));
}

/// Drawing the same sprite twice at the same place gives back the frame
/// buffer that was there before. The second draw reports a collision
/// exactly when the sprite lit some pixel the first time, that is when one
/// of its set bits fell on a dark pixel; on a blank buffer, exactly when
/// the sprite has a set bit. The coordinate registers must not be the flag
/// register, which the first draw overwrites.
pub proof fn law_draw_twice_restores(s: CpuView, x: Reg, y: Reg, m: u8, e1: Readings, e2: Readings)
    requires
        s.wf(),
        x.0 < 15,
        y.0 < 15,
        m < 16,
    ensures
        step(step(s, Op::Draw(x, y, m), e1).0, Op::Draw(x, y, m), e2).0.vram == s.vram,
        s.i + m <= 4096 ==> (step(step(s, Op::Draw(x, y, m), e1).0, Op::Draw(x, y, m), e2).0.v[15] == 1
            <==> exists|p: int| 0 <= p < 2048 && !s.vram[p]
                && #[trigger] covers(s.ram, s.i as int, m as int, s.v[x.0 as int] as int, s.v[y.0 as int] as int, p)),
        s.i + m <= 4096 && (forall|p: int| 0 <= p < 2048 ==> !#[trigger] s.vram[p]) ==>
            (step(step(s, Op::Draw(x, y, m), e1).0, Op::Draw(x, y, m), e2).0.v[15] == 1
            <==> exists|p: int| 0 <= p < 2048
                && #[trigger] covers(s.ram, s.i as int, m as int, s.v[x.0 as int] as int, s.v[y.0 as int] as int, p)),
{
    let t1 = step(s, Op::Draw(x, y, m), e1).0;
    let t2 = step(t1, Op::Draw(x, y, m), e2).0;
    if s.i + m <= 4096 {
        let (vx, vy) = (s.v[x.0 as int] as int, s.v[y.0 as int] as int);
        assert(t1.v[x.0 as int] == s.v[x.0 as int]);
        assert(t1.v[y.0 as int] == s.v[y.0 as int]);
        assert(t2.vram =~= s.vram);
        if t2.v[15] == 1 {
            let p = choose|p: int| 0 <= p < t1.vram.len() && #[trigger] t1.vram[p]
                && covers(t1.ram, t1.i as int, m as int, vx, vy, p);
            assert(!s.vram[p] && covers(s.ram, s.i as int, m as int, vx, vy, p));
        }
        if exists|p: int| 0 <= p < 2048 && !s.vram[p] && #[trigger] covers(s.ram, s.i as int, m as int, vx, vy, p) {
            let p = choose|p: int| 0 <= p < 2048 && !s.vram[p] && #[trigger] covers(s.ram, s.i as int, m as int, vx, vy, p);
            assert(t1.vram[p]);
        }
    } else {
        assert(t2.vram =~= s.vram);
    }
}

/// Each axis of a sprite wraps on its own: the bit in row `n`, column `h`
/// of the sprite lands on row `(vy + n) mod 32`, column `(vx + h) mod 64`,
/// and never carries from one axis into the other.
pub proof fn law_sprite_wraps_per_axis(s: CpuView, x: Reg, y: Reg, m: u8, e: Readings, n: int, h: int)
    requires
        s.wf(),
        x.0 < 16,
        y.0 < 16,
        m < 16,
        s.i + m <= 4096,
        0 <= n < m,
        0 <= h < 8,
    ensures
        ({
            let (vx, vy) = (s.v[x.0 as int] as int, s.v[y.0 as int] as int);
            let p = ((vy + n) % 32) * 64 + (vx + h) % 64;
            step(s, Op::Draw(x, y, m), e).0.vram[p] == (s.vram[p] != sprite_bit(s.ram[s.i + n], h))
        }),
{
    let (vx, vy) = (s.v[x.0 as int] as int, s.v[y.0 as int] as int);
    lemma_target(vx, vy, n, h);
    assert(target(vx, vy, n, h) == ((vy + n) % 32) * 64 + (vx + h) % 64);
}

/// The control faults: a return with an empty stack underflows, a call
/// with a full stack overflows, and a fetch whose word would run past the
/// end of memory aborts.
pub proof fn law_control_faults(s: CpuView, addr: u16, e: Readings)
    requires
        s.wf(),
    ensures
        s.sp == 0 ==> step(s, Op::Ret, e).1 == Err::<(), Error>(Error::StackUnderflow),
        s.sp == 32 ==> step(s, Op::Call(addr), e).1 == Err::<(), Error>(Error::StackOverflow),
        s.pc >= 4095 <==> fetch_word(s) is None,
{
}

} // verus!
