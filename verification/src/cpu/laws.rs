//! Properties of the instruction set that span several instructions.
use vstd::prelude::*;

use super::registers::{flags_byte, lemma_pack_unpack, lemma_unpack_pack, Registers};
use super::spec::{bit0, bit7, shl, shr, stack_reg16_of, swap_nibbles, wrap16, CpuState};
use super::{Reg16, Reg8};
use crate::bits::{high_byte, low_byte, word};
use crate::mmu::{lemma_read_after_write, lemma_write_elsewhere, stores_writes};

verus! {

/// Setting a register pair and reading it back gives the value set; for AF, whose flags
/// byte keeps only its high nibble, the value with its low nibble cleared.
pub proof fn lemma_set16_get16(r: Registers, reg: Reg16, v: u16)
    ensures
        r.set16(reg, v).get16(reg) == if reg is AF {
            (v - v % 16) as u16
        } else {
            v
        },
{
    lemma_pack_unpack(low_byte(v));
    assert(low_byte(v) & 0xF0 == low_byte(v) - low_byte(v) % 16) by (bit_vector)
        requires
            low_byte(v) < 256,
    ;
}

/// The low nibble of AF is always clear: F keeps only the four flags.
pub proof fn lemma_af_low_nibble_clear(r: Registers)
    ensures
        r.get16(Reg16::AF) % 16 == 0,
{
    let (z, n, h, c) = (r.f.zero, r.f.subtract, r.f.half_carry, r.f.carry);
    assert(((if z { 0x80u8 } else { 0u8 }) | (if n { 0x40u8 } else { 0u8 }) | (if h {
        0x20u8
    } else {
        0u8
    }) | (if c { 0x10u8 } else { 0u8 })) % 16 == 0) by (bit_vector);
}

/// Writing an 8-bit operand and reading it back gives the value written, provided that for
/// (HL) the byte lies in memory that stores writes. A register write leaves memory, the flags
/// and every other register alone; an (HL) write leaves all registers alone and is a bus write.
pub proof fn lemma_set_r8_then_r8(s: CpuState, reg: Reg8, v: u8)
    requires
        s.inv(),
        reg is HL ==> stores_writes(s.regs.hl()),
    ensures
        s.set_r8(reg, v).r8(reg) == v,
        s.set_r8(reg, v).regs.f == s.regs.f,
        s.set_r8(reg, v).regs.sp == s.regs.sp,
        s.set_r8(reg, v).regs.pc == s.regs.pc,
        reg is HL ==> s.set_r8(reg, v).regs == s.regs && s.set_r8(reg, v).mem == s.mem.write(
            s.regs.hl(),
            v,
        ),
        !(reg is HL) ==> s.set_r8(reg, v).mem == s.mem,
        !(reg is HL) ==> forall|other: Reg8|
            other != reg && !(other is HL) ==> #[trigger] s.set_r8(reg, v).r8(other) == s.r8(
                other,
            ),
{
    if reg is HL {
        lemma_read_after_write(s.mem, s.regs.hl(), v);
    }
}

/// CP sets the flags that SUB would set and leaves A as it was.
pub proof fn lemma_cp_is_sub_flags(r: Registers, v: u8)
    ensures
        r.cp_a(v).f == r.sub_a(v).f,
        r.cp_a(v).a == r.a,
{
    crate::bits::lemma_mod256(r.a - v);
}

/// A push followed by a pop gives back the value pushed and restores SP, provided the two
/// stack bytes lie in memory that stores writes.
pub proof fn lemma_push_pop(s: CpuState, v: u16)
    requires
        s.inv(),
        stores_writes(wrap16(s.regs.sp - 1)),
        stores_writes(wrap16(s.regs.sp - 2)),
    ensures
        s.push(v).pop_ok(),
        s.push(v).popped() == v,
        s.push(v).after_pop().regs.sp == s.regs.sp,
{
    let sp1 = wrap16(s.regs.sp - 1);
    let sp2 = wrap16(s.regs.sp - 2);
    let m1 = s.mem.write(sp1, high_byte(v));
    lemma_read_after_write(s.mem, sp1, high_byte(v));
    crate::mmu::lemma_write_inv(s.mem, sp1, high_byte(v));
    lemma_read_after_write(m1, sp2, low_byte(v));
    lemma_write_elsewhere(m1, sp2, low_byte(v), sp1);
    assert(wrap16(sp2 + 1) == sp1);
    assert(wrap16(sp2 + 2) == s.regs.sp);
}

/// PUSH rr followed by POP rr restores the pair and SP; for AF this holds of A and all four
/// flags too.
pub proof fn lemma_push_pop_r16(s: CpuState, op: u8)
    requires
        s.inv(),
        op == 0xC5 || op == 0xD5 || op == 0xE5 || op == 0xF5,
        stores_writes(wrap16(s.regs.sp - 1)),
        stores_writes(wrap16(s.regs.sp - 2)),
    ensures
        s.push_r16(op).pop_ok(),
        s.push_r16(op).pop_r16((op - 4) as u8).regs == s.regs,
{
    let reg = stack_reg16_of(op);
    assert(stack_reg16_of((op - 4) as u8) == reg);
    let v = s.regs.get16(reg);
    lemma_push_pop(s, v);
    lemma_unpack_pack(s.regs.f);
    assert(low_byte(word(s.regs.a, flags_byte(s.regs.f))) == flags_byte(s.regs.f));
    assert(high_byte(word(s.regs.a, flags_byte(s.regs.f))) == s.regs.a);
    assert(high_byte(word(s.regs.b, s.regs.c)) == s.regs.b);
    assert(low_byte(word(s.regs.b, s.regs.c)) == s.regs.c);
    assert(high_byte(word(s.regs.d, s.regs.e)) == s.regs.d);
    assert(low_byte(word(s.regs.d, s.regs.e)) == s.regs.e);
    assert(high_byte(word(s.regs.h, s.regs.l)) == s.regs.h);
    assert(low_byte(word(s.regs.h, s.regs.l)) == s.regs.l);
}

/// CALL a16 followed by RET comes back to the instruction after the call with SP restored,
/// provided the two stack bytes lie in memory that stores writes.
pub proof fn lemma_call_ret(s: CpuState)
    requires
        s.inv(),
        s.fetch16_ok(),
        stores_writes(wrap16(s.regs.sp - 1)),
        stores_writes(wrap16(s.regs.sp - 2)),
    ensures
        s.call_a16().pop_ok(),
        s.call_a16().ret().regs.pc == s.regs.pc + 2,
        s.call_a16().ret().regs.sp == s.regs.sp,
{
    let next = s.skip(2);
    lemma_push_pop(next, next.regs.pc);
}

/// ADD SP,e and LD HL,SP+e compute the same sum and the same flags.
pub proof fn lemma_sp_offset_agree(s: CpuState)
    ensures
        s.add_sp_s8().regs.sp == s.ld_hl_sp_add_s8().regs.hl(),
        s.add_sp_s8().regs.f == s.ld_hl_sp_add_s8().regs.f,
{
    let v = wrap16(s.regs.sp + crate::bits::sign_extend(s.imm8()));
    assert(word(high_byte(v), low_byte(v)) == v);
}

/// RLC then RRC, RRC then RLC, and SWAP twice give back the original byte.
pub proof fn lemma_rotations_undo(v: u8)
    ensures
        shr(shl(v, bit7(v)), bit0(shl(v, bit7(v)))) == v,
        shl(shr(v, bit0(v)), bit7(shr(v, bit0(v)))) == v,
        swap_nibbles(swap_nibbles(v)) == v,
{
}

/// EI, like DI, takes effect after the instruction that follows it: right after EI the
/// enable flag is unchanged with one instruction to go.
pub proof fn lemma_ei_delay(s: CpuState)
    ensures
        s.ei().tick_ime().ime == s.ime,
        s.ei().tick_ime().ime_delay == 1,
        s.ei().tick_ime().ime_next,
        s.di().tick_ime().ime == s.ime,
        s.di().tick_ime().ime_delay == 1,
        !s.di().tick_ime().ime_next,
{
}

/// A change of the interrupt enable that DI or EI left pending takes effect at the end of the
/// next instruction, unless that instruction is itself DI, EI or RETI.
pub proof fn lemma_ime_change_lands(s: CpuState)
    requires
        !s.halted,
        s.ime_delay == 1,
        s.imm8() != 0xF3 && s.imm8() != 0xFB && s.imm8() != 0xD9,
    ensures
        s.step().0.ime == s.ime_next,
        s.step().0.ime_delay == 0,
{
    super::spec::lemma_execute_keeps_counters(s.skip(1), s.imm8());
}

/// A step that runs EI leaves the interrupt enable as it was, with the change to on pending
/// for one more instruction; likewise DI with the change to off.
pub proof fn lemma_ei_di_step(s: CpuState)
    requires
        !s.halted,
        s.imm8() == 0xFB || s.imm8() == 0xF3,
    ensures
        s.step().0.ime == s.ime,
        s.step().0.ime_delay == 1,
        s.step().0.ime_next == (s.imm8() == 0xFB),
{
    reveal(CpuState::execute);
}

/// Whether both nibbles of `x` are decimal digits.
pub open spec fn is_bcd(x: u8) -> bool {
    x % 16 <= 9 && x / 16 <= 9
}

/// The number 0 to 99 that a binary-coded decimal byte stands for.
pub open spec fn bcd_value(x: u8) -> int {
    (x / 16) * 10 + x % 16
}

/// The binary-coded decimal byte of a number 0 to 99.
pub open spec fn to_bcd(n: int) -> u8 {
    ((n / 10) * 16 + n % 10) as u8
}

/// DAA after ADD, digit by digit: the digits of a are ah, al, of b are bh, bl.
proof fn lemma_daa_add_digits(
    ah: u16,
    al: u16,
    bh: u16,
    bl: u16,
    sum: u16,
    dec: u16,
    r: u16,
    rm: u16,
    low: u16,
    high: u16,
    e: u16,
    res: u16,
    want: u16,
)
    by (bit_vector)
    requires
        ah <= 9,
        al <= 9,
        bh <= 9,
        bl <= 9,
        sum == (ah * 16 + al + bh * 16 + bl) as u16,
        dec == (ah * 10 + al + bh * 10 + bl) as u16,
        r == sum % 256,
        rm == r % 16,
        low == (if ((al + bl) as u16) > 15 || rm > 9 {
            6u16
        } else {
            0u16
        }),
        high == (if sum > 255 || r > 0x99 {
            0x60u16
        } else {
            0u16
        }),
        e == dec % 100,
        res == ((r + low + high) as u16) % 256,
        want == (((e / 10) * 16 + e % 10) as u16),
    ensures
        res == want,
        (high == 0x60u16) == (dec >= 100),
{
}

/// ADD of two binary-coded decimal bytes followed by DAA leaves in A the decimal sum modulo
/// 100, with the carry telling whether it reached 100.
pub proof fn lemma_daa_after_add(r: Registers, b: u8)
    requires
        is_bcd(r.a),
        is_bcd(b),
    ensures
        r.add_a(b).daa().a == to_bcd((bcd_value(r.a) + bcd_value(b)) % 100),
        r.add_a(b).daa().f.carry == (bcd_value(r.a) + bcd_value(b) >= 100),
{
    let a = r.a;
    let (ah, al, bh, bl) = ((a / 16) as u16, (a % 16) as u16, (b / 16) as u16, (b % 16) as u16);
    let sum = (ah * 16 + al + bh * 16 + bl) as u16;
    let dec = (ah * 10 + al + bh * 10 + bl) as u16;
    let rr = sum % 256;
    let rm = rr % 16;
    let low: u16 = if ((al + bl) as u16) > 15 || rm > 9 {
        6
    } else {
        0
    };
    let high: u16 = if sum > 255 || rr > 0x99 {
        0x60
    } else {
        0
    };
    let e = dec % 100;
    let res = ((rr + low + high) as u16) % 256;
    let want = (((e / 10) * 16 + e % 10) as u16);
    lemma_daa_add_digits(ah, al, bh, bl, sum, dec, rr, rm, low, high, e, res, want);
}

proof fn lemma_daa_sub_core(a: u8, b: u8)
    requires
        is_bcd(a),
        is_bcd(b),
    ensures
        ({
            let d: int = (a - b) % 256;
            let lo: int = if a % 16 < b % 16 {
                6
            } else {
                0
            };
            let hi: int = if a < b {
                0x60
            } else {
                0
            };
            &&& ((d - lo - hi) % 256) as u8 == to_bcd((bcd_value(a) - bcd_value(b)) % 100)
            &&& (hi == 0x60) == (bcd_value(a) < bcd_value(b))
        }),
{
    let (ah, al, bh, bl) = (a / 16, a % 16, b / 16, b % 16);
    assert(a == 16 * ah + al && b == 16 * bh + bl);
    let x: int = ah - bh;
    let y: int = al - bl;
    assert(bcd_value(a) - bcd_value(b) == 10 * x + y);
    assert((a < b) == (x < 0 || (x == 0 && y < 0)));
    let d: int = (a - b) % 256;
    let lo: int = if a % 16 < b % 16 {
        6
    } else {
        0
    };
    let hi: int = if a < b {
        0x60
    } else {
        0
    };
    crate::bits::lemma_mod256(a - b);
    if y >= 0 && x >= 0 {
        assert(d - lo - hi == 16 * x + y);
        assert((10 * x + y) % 100 == 10 * x + y);
        assert((10 * x + y) / 10 == x);
        assert((10 * x + y) % 10 == y);
    } else if y < 0 && x > 0 {
        assert(d - lo - hi == 16 * (x - 1) + (10 + y));
        assert((10 * x + y) % 100 == 10 * (x - 1) + (10 + y));
        assert((10 * (x - 1) + (10 + y)) / 10 == x - 1);
        assert((10 * (x - 1) + (10 + y)) % 10 == 10 + y);
    } else if y >= 0 {
        assert(x < 0);
        assert(d - lo - hi == 16 * (x + 10) + y);
        assert((10 * x + y) % 100 == 10 * (x + 10) + y);
        assert((10 * (x + 10) + y) / 10 == x + 10);
        assert((10 * (x + 10) + y) % 10 == y);
    } else {
        assert(d - lo - hi == 16 * (x + 9) + (y + 10));
        assert((10 * x + y) % 100 == 10 * (x + 9) + (y + 10));
        assert((10 * (x + 9) + (y + 10)) / 10 == x + 9);
        assert((10 * (x + 9) + (y + 10)) % 10 == y + 10);
    }
}

/// SUB of two binary-coded decimal bytes followed by DAA leaves in A the decimal difference
/// modulo 100, with the carry telling whether it went below 0.
pub proof fn lemma_daa_after_sub(r: Registers, b: u8)
    requires
        is_bcd(r.a),
        is_bcd(b),
    ensures
        r.sub_a(b).daa().a == to_bcd((bcd_value(r.a) - bcd_value(b)) % 100),
        r.sub_a(b).daa().f.carry == (bcd_value(r.a) < bcd_value(b)),
{
    lemma_daa_sub_core(r.a, b);
}

} // verus!
