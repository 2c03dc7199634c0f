use vstd::prelude::*;

verus! {

/// A general-purpose register, named by its index (0 through 15 in a
/// well-formed operation).
#[derive(Debug, Clone, Copy, PartialEq, Eq, Structural)]
pub struct Reg(pub usize);

/// One decoded instruction of the machine.
#[derive(Debug, Clone, Copy, PartialEq, Eq, Structural)]
pub enum Op {
    Cls,
    Ret,
    Sys(u16),
    Jmp(u16),
    Call(u16),
    Se(Reg, u8),
    Sne(Reg, u8),
    Sre(Reg, Reg),
    Ld(Reg, u8),
    Add(Reg, u8),
    Mov(Reg, Reg),
    Or(Reg, Reg),
    And(Reg, Reg),
    Xor(Reg, Reg),
    Addr(Reg, Reg),
    Subr(Reg, Reg),
    Shr(Reg, Reg),
    Subnr(Reg, Reg),
    Shl(Reg, Reg),
    Srne(Reg, Reg),
    Ldi(u16),
    Jmpi(u16),
    Rand(Reg, u8),
    Draw(Reg, Reg, u8),
    Skp(Reg),
    Sknp(Reg),
    Movd(Reg),
    Key(Reg),
    Ldd(Reg),
    Lds(Reg),
    Addi(Reg),
    Ldspr(Reg),
    Bcd(Reg),
    Str(Reg),
    Read(Reg),
}

/// The `k`-th four-bit digit of `code`, counted from the least significant.
pub open spec fn nibble(code: u16, k: int) -> int {
    (code as int / pow16(k)) % 16
}

pub open spec fn pow16(k: int) -> int {
    if k <= 0 { 1 } else if k == 1 { 0x10 } else if k == 2 { 0x100 } else { 0x1000 }
}

/// The instruction that the word `code` encodes, if any.
///
/// The leading digit selects a family; families that share it are told
/// apart by the trailing digits. The two shifts (`8xy6`, `8xyE`) name the
/// destination by the third digit and the source by the second.
pub open spec fn decode_word(code: u16) -> Option<Op> {
    let n3 = nibble(code, 3);
    let n2 = nibble(code, 2);
    let n1 = nibble(code, 1);
    let n0 = nibble(code, 0);
    let nnn = (code as int % 0x1000) as u16;
    let kk = (code as int % 0x100) as u8;
    let x = Reg(n2 as usize);
    let y = Reg(n1 as usize);
    if n3 == 0 {
        if n2 == 0 && n1 == 0xe && n0 == 0 {
            Some(Op::Cls)
        } else if n2 == 0 && n1 == 0xe && n0 == 0xe {
            Some(Op::Ret)
        } else {
            Some(Op::Sys(nnn))
        }
    } else if n3 == 1 {
        Some(Op::Jmp(nnn))
    } else if n3 == 2 {
        Some(Op::Call(nnn))
    } else if n3 == 3 {
        Some(Op::Se(x, kk))
    } else if n3 == 4 {
        Some(Op::Sne(x, kk))
    } else if n3 == 5 {
        if n0 == 0 { Some(Op::Sre(x, y)) } else { None }
    } else if n3 == 6 {
        Some(Op::Ld(x, kk))
    } else if n3 == 7 {
        Some(Op::Add(x, kk))
    } else if n3 == 8 {
        if n0 == 0 {
            Some(Op::Mov(x, y))
        } else if n0 == 1 {
            Some(Op::Or(x, y))
        } else if n0 == 2 {
            Some(Op::And(x, y))
        } else if n0 == 3 {
            Some(Op::Xor(x, y))
        } else if n0 == 4 {
            Some(Op::Addr(x, y))
        } else if n0 == 5 {
            Some(Op::Subr(x, y))
        } else if n0 == 6 {
            Some(Op::Shr(y, x))
        } else if n0 == 7 {
            Some(Op::Subnr(x, y))
        } else if n0 == 0xe {
            Some(Op::Shl(y, x))
        } else {
            None
        }
    } else if n3 == 9 {
        if n0 == 0 { Some(Op::Srne(x, y)) } else { None }
    } else if n3 == 0xa {
        Some(Op::Ldi(nnn))
    } else if n3 == 0xb {
        Some(Op::Jmpi(nnn))
    } else if n3 == 0xc {
        Some(Op::Rand(x, kk))
    } else if n3 == 0xd {
        Some(Op::Draw(x, y, n0 as u8))
    } else if n3 == 0xe {
        if n1 == 9 && n0 == 0xe {
            Some(Op::Skp(x))
        } else if n1 == 0xa && n0 == 1 {
            Some(Op::Sknp(x))
        } else {
            None
        }
    } else {
        let lo = n1 * 16 + n0;
        if lo == 0x07 {
            Some(Op::Movd(x))
        } else if lo == 0x0a {
            Some(Op::Key(x))
        } else if lo == 0x15 {
            Some(Op::Ldd(x))
        } else if lo == 0x18 {
            Some(Op::Lds(x))
        } else if lo == 0x1e {
            Some(Op::Addi(x))
        } else if lo == 0x29 {
            Some(Op::Ldspr(x))
        } else if lo == 0x33 {
            Some(Op::Bcd(x))
        } else if lo == 0x55 {
            Some(Op::Str(x))
        } else if lo == 0x65 {
            Some(Op::Read(x))
        } else {
            None
        }
    }
}

/// Every register that `op` names, and the row count of a draw, are in range.
pub open spec fn well_formed(op: Op) -> bool {
    match op {
        Op::Se(x, _) | Op::Sne(x, _) | Op::Ld(x, _) | Op::Add(x, _) | Op::Rand(x, _) => x.0 < 16,
        Op::Sre(x, y) | Op::Mov(x, y) | Op::Or(x, y) | Op::And(x, y) | Op::Xor(x, y)
        | Op::Addr(x, y) | Op::Subr(x, y) | Op::Shr(x, y) | Op::Subnr(x, y) | Op::Shl(x, y)
        | Op::Srne(x, y) => x.0 < 16 && y.0 < 16,
        Op::Draw(x, y, m) => x.0 < 16 && y.0 < 16 && m < 16,
        Op::Skp(x) | Op::Sknp(x) | Op::Movd(x) | Op::Key(x) | Op::Ldd(x) | Op::Lds(x)
        | Op::Addi(x) | Op::Ldspr(x) | Op::Bcd(x) | Op::Str(x) | Op::Read(x) => x.0 < 16,
        _ => true,
    }
}

impl Op {
    /// Whether every register named is in range, and a draw has at most
    /// fifteen rows.
    pub fn is_well_formed(&self) -> (r: bool)
        ensures
            r == well_formed(*self),
    {
        match *self {
            Op::Se(x, _) | Op::Sne(x, _) | Op::Ld(x, _) | Op::Add(x, _) | Op::Rand(x, _) => x.0 < 16,
            Op::Sre(x, y) | Op::Mov(x, y) | Op::Or(x, y) | Op::And(x, y) | Op::Xor(x, y)
            | Op::Addr(x, y) | Op::Subr(x, y) | Op::Shr(x, y) | Op::Subnr(x, y) | Op::Shl(x, y)
            | Op::Srne(x, y) => x.0 < 16 && y.0 < 16,
            Op::Draw(x, y, m) => x.0 < 16 && y.0 < 16 && m < 16,
            Op::Skp(x) | Op::Sknp(x) | Op::Movd(x) | Op::Key(x) | Op::Ldd(x) | Op::Lds(x)
            | Op::Addi(x) | Op::Ldspr(x) | Op::Bcd(x) | Op::Str(x) | Op::Read(x) => x.0 < 16,
            _ => true,
        }
    }

    /// Decodes one instruction word; `None` when no family matches.
    pub fn decode(code: u16) -> (r: Option<Op>)
        ensures
            r == decode_word(code),
    {
        let nib3 = ((code & 0xf000) >> 12) as u8;
        let nib2 = ((code & 0xf00) >> 8) as u8;
        let nib1 = ((code & 0xf0) >> 4) as u8;
        let nib0 = (code & 0xf) as u8;
        let nnn = code & 0xfff;
        let kk = (code & 0xff) as u8;
        proof {
            assert((code & 0xf000) >> 12 == code / 0x1000) by (bit_vector);
            assert((code & 0xf00) >> 8 == (code / 0x100) % 0x10) by (bit_vector);
            assert((code & 0xf0) >> 4 == (code / 0x10) % 0x10) by (bit_vector);
            assert(code & 0xf == code % 0x10) by (bit_vector);
            assert(code & 0xfff == code % 0x1000) by (bit_vector);
            assert(code & 0xff == code % 0x100) by (bit_vector);
        }
        let x = Reg(nib2 as usize);
        let y = Reg(nib1 as usize);

        match (nib3, nib2, nib1, nib0) {
            (0, 0, 0xe, 0) => Some(Op::Cls),
            (0, 0, 0xe, 0xe) => Some(Op::Ret),
            (0, _, _, _) => Some(Op::Sys(nnn)),
            (1, _, _, _) => Some(Op::Jmp(nnn)),
            (2, _, _, _) => Some(Op::Call(nnn)),
            (3, _, _, _) => Some(Op::Se(x, kk)),
            (4, _, _, _) => Some(Op::Sne(x, kk)),
            (5, _, _, 0) => Some(Op::Sre(x, y)),
            (6, _, _, _) => Some(Op::Ld(x, kk)),
            (7, _, _, _) => Some(Op::Add(x, kk)),
            (8, _, _, 0) => Some(Op::Mov(x, y)),
            (8, _, _, 1) => Some(Op::Or(x, y)),
            (8, _, _, 2) => Some(Op::And(x, y)),
            (8, _, _, 3) => Some(Op::Xor(x, y)),
            (8, _, _, 4) => Some(Op::Addr(x, y)),
            (8, _, _, 5) => Some(Op::Subr(x, y)),
            (8, _, _, 6) => Some(Op::Shr(y, x)),
            (8, _, _, 7) => Some(Op::Subnr(x, y)),
            (8, _, _, 0xe) => Some(Op::Shl(y, x)),
            (9, _, _, 0) => Some(Op::Srne(x, y)),
            (0xa, _, _, _) => Some(Op::Ldi(nnn)),
            (0xb, _, _, _) => Some(Op::Jmpi(nnn)),
            (0xc, _, _, _) => Some(Op::Rand(x, kk)),
            (0xd, _, _, m) => Some(Op::Draw(x, y, m)),
            (0xe, _, 9, 0xe) => Some(Op::Skp(x)),
            (0xe, _, 0xa, 1) => Some(Op::Sknp(x)),
            (0xf, _, 0, 7) => Some(Op::Movd(x)),
            (0xf, _, 0, 0xa) => Some(Op::Key(x)),
            (0xf, _, 1, 5) => Some(Op::Ldd(x)),
            (0xf, _, 1, 8) => Some(Op::Lds(x)),
            (0xf, _, 1, 0xe) => Some(Op::Addi(x)),
            (0xf, _, 2, 9) => Some(Op::Ldspr(x)),
            (0xf, _, 3, 3) => Some(Op::Bcd(x)),
            (0xf, _, 5, 5) => Some(Op::Str(x)),
            (0xf, _, 6, 5) => Some(Op::Read(x)),
            _ => None,
        }
    }
}

} // verus!
