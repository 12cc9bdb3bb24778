//! What single instructions do, stated from the state before a step: the registers, the
//! flags and the bytes of memory that the instruction reads, and what the step leaves.
use vstd::prelude::*;

use super::spec::CpuState;
use super::{Condition, Reg8};
use super::spec::{reg8_of, flags};
use crate::mmu::stores_writes;

verus! {

/// Whether the flag test that bits 3 and 4 of a conditional branch opcode select holds:
/// 00 is NZ (Z clear), 01 is Z (Z set), 10 is NC (C clear), 11 is C (C set).
pub open spec fn branch_condition(op: u8, zero: bool, carry: bool) -> bool {
    let sel = (op / 8) % 4;
    if sel == 0 {
        !zero
    } else if sel == 1 {
        zero
    } else if sel == 2 {
        !carry
    } else {
        carry
    }
}

/// The value of a byte read as a two's-complement offset, -128 to 127.
pub open spec fn signed_byte(e: u8) -> int {
    if e < 128 {
        e as int
    } else {
        e - 256
    }
}

/// The byte at `addr` of the state's memory.
pub open spec fn byte_at(s: CpuState, addr: int) -> u8 {
    s.mem.read((addr % 0x10000) as u16)
}

/// JR NZ/Z/NC/C,e (0x20, 0x28, 0x30, 0x38) is taken exactly when its flag test holds. Taken,
/// PC becomes the address after the operand plus the signed offset e, and the step takes 3
/// cycles; not taken, PC only moves past the operand, in 2 cycles. Registers other than PC
/// and the flags stay as they were.
#[verifier::spinoff_prover]
#[verifier::rlimit(60)]
pub proof fn lemma_jr_cc(s: CpuState)
    requires
        !s.halted,
        s.regs.pc < 0xFFFE,
        s.mem.read(s.regs.pc) == 0x20 || s.mem.read(s.regs.pc) == 0x28 || s.mem.read(s.regs.pc)
            == 0x30 || s.mem.read(s.regs.pc) == 0x38,
    ensures
        ({
            let pc = s.regs.pc;
            let (t, cycles) = s.step();
            let taken = branch_condition(s.mem.read(pc), s.regs.f.zero, s.regs.f.carry);
            &&& taken ==> t.regs.pc == (pc + 2 + signed_byte(byte_at(s, pc + 1))) % 0x10000
                && cycles == 3
            &&& !taken ==> t.regs.pc == pc + 2 && cycles == 2
            &&& t.regs.f == s.regs.f
            &&& t.regs.a == s.regs.a
            &&& t.regs.sp == s.regs.sp
            &&& t.mem == s.mem
        }),
{
    let u = s.skip(1);
    let op = s.mem.read(s.regs.pc);
    let c = if op == 0x20 {
        Condition::NZ
    } else if op == 0x28 {
        Condition::Z
    } else if op == 0x30 {
        Condition::NC
    } else {
        Condition::C
    };
    assert(u.execute(op) == u.jr_cond_s8(c)) by {
        reveal(CpuState::execute);
    }
    lemma_offset_target(s.regs.pc, byte_at(s, s.regs.pc + 1));
    assert(u.imm8() == byte_at(s, s.regs.pc + 1));
}

/// The jump target of a relative jump: the address after the operand plus the signed
/// offset, wrapping.
proof fn lemma_offset_target(pc: u16, e: u8)
    requires
        pc < 0xFFFE,
    ensures
        super::spec::wrap16((pc + 2) as u16 + crate::bits::sign_extend(e)) == (pc + 2
            + signed_byte(e)) % 0x10000,
{
    assert((pc + 2 + e + 0xFF00) % 0x10000 == (pc + 2 + e - 256) % 0x10000);
}

/// JP NZ/Z/NC/C,a16 (0xC2, 0xCA, 0xD2, 0xDA) is taken exactly when its flag test holds.
/// Taken, PC becomes the little-endian address after the opcode, in 4 cycles; not taken, PC
/// moves past the address, in 3 cycles.
#[verifier::spinoff_prover]
#[verifier::rlimit(60)]
pub proof fn lemma_jp_cc(s: CpuState)
    requires
        !s.halted,
        s.regs.pc < 0xFFFD,
        s.mem.read(s.regs.pc) == 0xC2 || s.mem.read(s.regs.pc) == 0xCA || s.mem.read(s.regs.pc)
            == 0xD2 || s.mem.read(s.regs.pc) == 0xDA,
    ensures
        ({
            let pc = s.regs.pc;
            let (t, cycles) = s.step();
            let taken = branch_condition(s.mem.read(pc), s.regs.f.zero, s.regs.f.carry);
            &&& taken ==> t.regs.pc == byte_at(s, pc + 1) + 256 * byte_at(s, pc + 2) && cycles
                == 4
            &&& !taken ==> t.regs.pc == pc + 3 && cycles == 3
            &&& t.regs.f == s.regs.f
            &&& t.regs.sp == s.regs.sp
            &&& t.mem == s.mem
        }),
{
    reveal(CpuState::execute);
}

/// CALL NZ/Z/NC/C,a16 (0xC4, 0xCC, 0xD4, 0xDC) is taken exactly when its flag test holds.
/// Taken, the address of the next instruction goes on the stack (high byte at SP-1, low byte
/// at SP-2), SP drops by 2 and PC becomes the address after the opcode, in 6 cycles; not
/// taken, PC moves past the address and SP and memory stay, in 3 cycles.
#[verifier::spinoff_prover]
#[verifier::rlimit(60)]
pub proof fn lemma_call_cc(s: CpuState)
    requires
        !s.halted,
        s.regs.pc < 0xFFFD,
        s.mem.read(s.regs.pc) == 0xC4 || s.mem.read(s.regs.pc) == 0xCC || s.mem.read(s.regs.pc)
            == 0xD4 || s.mem.read(s.regs.pc) == 0xDC,
    ensures
        ({
            let pc = s.regs.pc;
            let sp = s.regs.sp;
            let (t, cycles) = s.step();
            let taken = branch_condition(s.mem.read(pc), s.regs.f.zero, s.regs.f.carry);
            let back = pc + 3;
            &&& taken ==> t.regs.pc == byte_at(s, pc + 1) + 256 * byte_at(s, pc + 2) && cycles
                == 6 && t.regs.sp == (sp - 2) % 0x10000 && t.mem == s.mem.write(
                ((sp - 1) % 0x10000) as u16,
                (back / 256) as u8,
            ).write(((sp - 2) % 0x10000) as u16, (back % 256) as u8)
            &&& !taken ==> t.regs.pc == pc + 3 && cycles == 3 && t.regs.sp == sp && t.mem == s.mem
            &&& t.regs.f == s.regs.f
        }),
{
    reveal(CpuState::execute);
}

/// RET NZ/Z/NC/C (0xC0, 0xC8, 0xD0, 0xD8) is taken exactly when its flag test holds. Taken,
/// PC becomes the word at SP (low byte at SP, high byte at SP+1) and SP rises by 2, in 5
/// cycles; not taken, PC moves to the next instruction and SP stays, in 2 cycles.
#[verifier::spinoff_prover]
#[verifier::rlimit(60)]
pub proof fn lemma_ret_cc(s: CpuState)
    requires
        !s.halted,
        s.regs.pc < 0xFFFF,
        s.mem.read(s.regs.pc) == 0xC0 || s.mem.read(s.regs.pc) == 0xC8 || s.mem.read(s.regs.pc)
            == 0xD0 || s.mem.read(s.regs.pc) == 0xD8,
    ensures
        ({
            let pc = s.regs.pc;
            let sp = s.regs.sp;
            let (t, cycles) = s.step();
            let taken = branch_condition(s.mem.read(pc), s.regs.f.zero, s.regs.f.carry);
            &&& taken ==> t.regs.pc == byte_at(s, sp as int) + 256 * byte_at(s, sp + 1) && t.regs.sp
                == (sp + 2) % 0x10000 && cycles == 5
            &&& !taken ==> t.regs.pc == pc + 1 && t.regs.sp == sp && cycles == 2
            &&& t.regs.f == s.regs.f
            &&& t.mem == s.mem
        }),
{
    reveal(CpuState::execute);
}

/// The byte that a prefixed rotate or shift (opcodes 0x00-0x3F, eight to an operation)
/// leaves in place of its operand `v`: RLC and RL move bit 7 round to bit 0, RRC and RR
/// move bit 0 round to bit 7, SLA shifts left with 0 into bit 0, SRA halves keeping bit 7,
/// SWAP exchanges the nibbles and SRL halves with 0 into bit 7.
pub open spec fn rotated(op: u8, v: u8) -> int {
    let row = op / 8;
    if row == 0 || row == 2 {
        (2 * v) % 256 + v / 128
    } else if row == 1 || row == 3 {
        v / 2 + 128 * (v % 2)
    } else if row == 4 {
        (2 * v) % 256
    } else if row == 5 {
        v / 2 + 128 * (v / 128)
    } else if row == 6 {
        16 * (v % 16) + v / 16
    } else {
        v / 2 + 0
    }
}

/// The bit that a prefixed rotate or shift moves into C: bit 7 of the operand for the left
/// moves (RLC, RL, SLA), bit 0 for the right ones (RRC, RR, SRA, SRL), none for SWAP.
pub open spec fn carried_out(op: u8, v: u8) -> bool {
    let row = op / 8;
    if row == 0 || row == 2 || row == 4 {
        v >= 128
    } else if row == 6 {
        false
    } else {
        v % 2 == 1
    }
}

/// A prefixed rotate or shift (0xCB then 0x00-0x3F) replaces its operand v (a register, or
/// the byte at HL) with `rotated(op, v)`, sets Z when that is zero, clears N and H, puts
/// `carried_out(op, v)` in C and moves PC past both bytes. So SRA takes 0x80 to 0xC0 and
/// SRL takes it to 0x40, and RL takes 0x80 to 0x01 with C set.
#[verifier::spinoff_prover]
#[verifier::rlimit(60)]
pub proof fn lemma_cb_rotate_shift(s: CpuState)
    requires
        s.inv(),
        !s.halted,
        s.regs.pc < 0xFFFE,
        s.mem.read(s.regs.pc) == 0xCB,
        byte_at(s, s.regs.pc + 1) < 0x40,
        reg8_of(byte_at(s, s.regs.pc + 1)) is HL ==> stores_writes(s.regs.hl()),
    ensures
        ({
            let op = byte_at(s, s.regs.pc + 1);
            let r = reg8_of(op);
            let v = s.r8(r);
            let t = s.step().0;
            &&& t.r8(r) == rotated(op, v)
            &&& t.regs.f == flags(rotated(op, v) == 0, false, false, carried_out(op, v))
            &&& t.regs.pc == s.regs.pc + 2
            &&& t.regs.sp == s.regs.sp
        }),
{
    let u = s.skip(1);
    let op = byte_at(s, s.regs.pc + 1);
    assert(u.imm8() == op);
    lemma_cb_dispatch(u);
    let w = u.skip(1);
    let r = reg8_of(op);
    let v = w.r8(r);
    assert(v == s.r8(r));
    let res = rotated(op, v) as u8;
    lemma_cb_row(w, op);
    super::laws::lemma_set_r8_then_r8(w, r, res);
}

/// The prefix 0xCB runs the operation named by the byte after it.
#[verifier::spinoff_prover]
#[verifier::rlimit(60)]
proof fn lemma_cb_dispatch(u: CpuState)
    ensures
        u.execute(0xCB) == (u.skip(1).cb_op(u.imm8()), super::opcodes::cb_cycles(u.imm8())),
{
    reveal(CpuState::execute);
}

/// A prefixed rotate or shift sets its operand to `rotated` and the flags from it.
proof fn lemma_cb_row(w: CpuState, op: u8)
    requires
        op < 0x40,
    ensures
        ({
            let v = w.r8(reg8_of(op));
            let res = rotated(op, v) as u8;
            &&& 0 <= rotated(op, v) < 256
            &&& w.cb_op(op) == w.set_r8(reg8_of(op), res).with_flags(
                flags(res == 0, false, false, carried_out(op, v)),
            )
        }),
{
}

/// The second operand of an arithmetic or logic opcode on A: the register, or the byte at
/// HL, that bits 0-2 of 0x80-0xBF name, or for the immediate forms (0xC6, 0xCE, 0xD6, 0xDE,
/// 0xE6, 0xEE, 0xF6, 0xFE) the byte after the opcode.
pub open spec fn alu_operand(s: CpuState, op: u8) -> u8 {
    if op < 0xC0 {
        s.r8(reg8_of(op))
    } else {
        byte_at(s, s.regs.pc + 1)
    }
}

/// How far PC moves for an arithmetic or logic opcode on A: 1, or 2 for an immediate form.
pub open spec fn alu_length(op: u8) -> int {
    if op < 0xC0 {
        1
    } else {
        2
    }
}

/// Whether `op` is one of the arithmetic or logic opcodes on A of group `g` (0 ADD, 1 ADC,
/// 2 SUB, 3 SBC, 4 AND, 5 XOR, 6 OR, 7 CP), register or immediate form.
pub open spec fn alu_group(op: u8, g: int) -> bool {
    (0x80 <= op < 0xC0 && (op - 0x80) / 8 == g) || op == 0xC6 + 8 * g
}

/// An arithmetic or logic opcode runs its operation on A and its operand.
#[verifier::spinoff_prover]
#[verifier::rlimit(60)]
proof fn lemma_alu_dispatch(u: CpuState, op: u8)
    requires
        exists|g: int| 0 <= g < 8 && #[trigger] alu_group(op, g),
    ensures
        u.execute(op).0 == if op < 0xC0 {
            u.execute_block2(op).0
        } else if op == 0xC6 {
            u.add_i8()
        } else if op == 0xCE {
            u.adc_i8()
        } else if op == 0xD6 {
            u.sub_i8()
        } else if op == 0xDE {
            u.sbc_i8()
        } else if op == 0xE6 {
            u.and_i8()
        } else if op == 0xEE {
            u.xor_i8()
        } else if op == 0xF6 {
            u.or_i8()
        } else {
            u.cp_i8()
        },
{
    reveal(CpuState::execute);
}

/// ADD A,v and ADC A,v (0x80-0x8F, 0xC6, 0xCE) add the operand, and for ADC the carry, to A
/// with the carry out of bit 7 going to C: the old A plus v plus the carry in equals the new
/// A plus 256 times the new C. Z tells whether the new A is zero, N is clear and H is the
/// carry out of bit 3. PC moves past the instruction and memory is unchanged.
#[verifier::spinoff_prover]
#[verifier::rlimit(60)]
pub proof fn lemma_add_adc(s: CpuState)
    requires
        !s.halted,
        s.regs.pc < 0xFFFE,
        alu_group(s.mem.read(s.regs.pc), 0) || alu_group(s.mem.read(s.regs.pc), 1),
    ensures
        ({
            let op = s.mem.read(s.regs.pc);
            let a = s.regs.a;
            let v = alu_operand(s, op);
            let cin: int = if alu_group(op, 1) && s.regs.f.carry {
                1
            } else {
                0
            };
            let t = s.step().0;
            let cout: int = if t.regs.f.carry {
                1
            } else {
                0
            };
            &&& a + v + cin == t.regs.a + 256 * cout
            &&& t.regs.f.zero == (t.regs.a == 0)
            &&& !t.regs.f.subtract
            &&& t.regs.f.half_carry == (a % 16 + v % 16 + cin > 15)
            &&& t.regs.pc == s.regs.pc + alu_length(op)
            &&& t.mem == s.mem
        }),
{
    let op = s.mem.read(s.regs.pc);
    let u = s.skip(1);
    assert(u.imm8() == byte_at(s, s.regs.pc + 1));
    assert(u.r8(reg8_of(op)) == s.r8(reg8_of(op)));
    let v = alu_operand(s, op);
    let c: int = if s.regs.f.carry {
        1
    } else {
        0
    };
    crate::bits::lemma_mod256(s.regs.a + v);
    crate::bits::lemma_mod256(s.regs.a + v + c);
    if alu_group(op, 0) {
        lemma_alu_dispatch(u, op);
    } else {
        lemma_alu_dispatch(u, op);
    }
}

/// SUB v, SBC A,v and CP v (0x90-0x9F, 0xB8-0xBF, 0xD6, 0xDE, 0xFE) subtract the operand,
/// and for SBC the carry, from A, with the borrow going to C: the old A minus v minus the
/// carry in equals the result minus 256 times the new C. SUB and SBC leave the result in A;
/// CP keeps A and sets Z when A equals v. N is set and H is the borrow from bit 4.
#[verifier::spinoff_prover]
#[verifier::rlimit(60)]
pub proof fn lemma_sub_sbc_cp(s: CpuState)
    requires
        !s.halted,
        s.regs.pc < 0xFFFE,
        alu_group(s.mem.read(s.regs.pc), 2) || alu_group(s.mem.read(s.regs.pc), 3) || alu_group(
            s.mem.read(s.regs.pc),
            7,
        ),
    ensures
        ({
            let op = s.mem.read(s.regs.pc);
            let a = s.regs.a;
            let v = alu_operand(s, op);
            let cin: int = if alu_group(op, 3) && s.regs.f.carry {
                1
            } else {
                0
            };
            let t = s.step().0;
            let cout: int = if t.regs.f.carry {
                1
            } else {
                0
            };
            &&& !alu_group(op, 7) ==> a - v - cin == t.regs.a - 256 * cout && t.regs.f.zero == (
            t.regs.a == 0)
            &&& alu_group(op, 7) ==> t.regs.a == a && t.regs.f.zero == (a == v) && t.regs.f.carry
                == (a < v)
            &&& t.regs.f.subtract
            &&& t.regs.f.half_carry == (a % 16 < v % 16 + cin)
            &&& t.regs.pc == s.regs.pc + alu_length(op)
            &&& t.mem == s.mem
        }),
{
    let op = s.mem.read(s.regs.pc);
    let u = s.skip(1);
    assert(u.imm8() == byte_at(s, s.regs.pc + 1));
    assert(u.r8(reg8_of(op)) == s.r8(reg8_of(op)));
    let v = alu_operand(s, op);
    let c: int = if s.regs.f.carry {
        1
    } else {
        0
    };
    crate::bits::lemma_mod256(s.regs.a - v);
    crate::bits::lemma_mod256(s.regs.a - v - c);
    if alu_group(op, 2) {
        lemma_alu_dispatch(u, op);
    } else if alu_group(op, 3) {
        lemma_alu_dispatch(u, op);
    } else {
        lemma_alu_dispatch(u, op);
    }
}

/// AND v, XOR v and OR v (0xA0-0xB7, 0xE6, 0xEE, 0xF6) leave in A the bitwise and, exclusive
/// or, or inclusive or of A and the operand; Z tells whether it is zero, N and C are clear,
/// and H is set for AND only.
#[verifier::spinoff_prover]
#[verifier::rlimit(60)]
pub proof fn lemma_and_xor_or(s: CpuState)
    requires
        !s.halted,
        s.regs.pc < 0xFFFE,
        alu_group(s.mem.read(s.regs.pc), 4) || alu_group(s.mem.read(s.regs.pc), 5) || alu_group(
            s.mem.read(s.regs.pc),
            6,
        ),
    ensures
        ({
            let op = s.mem.read(s.regs.pc);
            let a = s.regs.a;
            let v = alu_operand(s, op);
            let t = s.step().0;
            &&& alu_group(op, 4) ==> t.regs.a == a & v
            &&& alu_group(op, 5) ==> t.regs.a == a ^ v
            &&& alu_group(op, 6) ==> t.regs.a == a | v
            &&& t.regs.f == flags(t.regs.a == 0, false, alu_group(op, 4), false)
            &&& t.regs.pc == s.regs.pc + alu_length(op)
            &&& t.mem == s.mem
        }),
{
    let op = s.mem.read(s.regs.pc);
    let u = s.skip(1);
    assert(u.imm8() == byte_at(s, s.regs.pc + 1));
    assert(u.r8(reg8_of(op)) == s.r8(reg8_of(op)));
    if alu_group(op, 4) {
        lemma_alu_dispatch(u, op);
    } else if alu_group(op, 5) {
        lemma_alu_dispatch(u, op);
    } else {
        lemma_alu_dispatch(u, op);
    }
}

/// LD (HL+),A, LD A,(HL+), LD (HL-),A and LD A,(HL-) (0x22, 0x2A, 0x32, 0x3A) move a byte
/// between A and the address in HL, then add 1 to HL for the HL+ forms and take 1 from it
/// for the HL- forms, wrapping. The loads put the byte at the old HL in A and leave memory
/// alone; the stores write A at the old HL and leave A alone. PC moves to the next opcode.
#[verifier::spinoff_prover]
#[verifier::rlimit(60)]
pub proof fn lemma_ld_hl_step(s: CpuState)
    requires
        !s.halted,
        s.regs.pc < 0xFFFF,
        s.mem.read(s.regs.pc) == 0x22 || s.mem.read(s.regs.pc) == 0x2A || s.mem.read(s.regs.pc)
            == 0x32 || s.mem.read(s.regs.pc) == 0x3A,
    ensures
        ({
            let op = s.mem.read(s.regs.pc);
            let hl = s.regs.hl();
            let step: int = if op == 0x22 || op == 0x2A {
                1
            } else {
                -1
            };
            let t = s.step().0;
            &&& t.regs.hl() == (hl + step) % 0x10000
            &&& (op == 0x2A || op == 0x3A) ==> t.regs.a == s.mem.read(hl) && t.mem == s.mem
            &&& (op == 0x22 || op == 0x32) ==> t.regs.a == s.regs.a && t.mem == s.mem.write(
                hl,
                s.regs.a,
            )
            &&& t.regs.f == s.regs.f
            &&& t.regs.sp == s.regs.sp
            &&& t.regs.pc == s.regs.pc + 1
        }),
{
    let op = s.mem.read(s.regs.pc);
    let u = s.skip(1);
    assert(u.execute(op) == u.execute_block0(op)) by {
        reveal(CpuState::execute);
    }
    let hl = s.regs.hl();
    let up = super::spec::wrap16(hl + 1);
    let down = super::spec::wrap16(hl - 1);
    assert(crate::bits::word(crate::bits::high_byte(up), crate::bits::low_byte(up)) == up);
    assert(crate::bits::word(crate::bits::high_byte(down), crate::bits::low_byte(down)) == down);
}

/// INC r and DEC r (0x04 + 8k and 0x05 + 8k, the operand named by k) add or take 1 from
/// the operand, wrapping; Z tells whether the result is zero, N is set for DEC only, H is
/// the carry out of (for DEC the borrow into) bit 4, and C keeps its value.
#[verifier::spinoff_prover]
#[verifier::rlimit(60)]
pub proof fn lemma_inc_dec_r8(s: CpuState)
    requires
        s.inv(),
        !s.halted,
        s.regs.pc < 0xFFFF,
        s.mem.read(s.regs.pc) < 0x40,
        s.mem.read(s.regs.pc) % 8 == 4 || s.mem.read(s.regs.pc) % 8 == 5,
        reg8_of(s.mem.read(s.regs.pc) / 8) is HL ==> stores_writes(s.regs.hl()),
    ensures
        ({
            let op = s.mem.read(s.regs.pc);
            let inc = op % 8 == 4;
            let r = reg8_of(op / 8);
            let v = s.r8(r);
            let t = s.step().0;
            &&& inc ==> t.r8(r) == (v + 1) % 256 && t.regs.f.half_carry == (v % 16 == 15)
            &&& !inc ==> t.r8(r) == (v + 255) % 256 && t.regs.f.half_carry == (v % 16 == 0)
            &&& t.regs.f.zero == (t.r8(r) == 0)
            &&& t.regs.f.subtract == !inc
            &&& t.regs.f.carry == s.regs.f.carry
            &&& t.regs.pc == s.regs.pc + 1
            &&& t.regs.sp == s.regs.sp
        }),
{
    let op = s.mem.read(s.regs.pc);
    let u = s.skip(1);
    lemma_inc_dec_dispatch(u, op);
    let r = reg8_of(op / 8);
    let v = u.r8(r);
    if op % 8 == 4 {
        super::laws::lemma_set_r8_then_r8(u, r, ((v + 1) % 256) as u8);
    } else {
        super::laws::lemma_set_r8_then_r8(u, r, ((v - 1) % 256) as u8);
    }
}

/// LD r,d8 (0x06 + 8k) puts the byte after the opcode in the operand that k names, and
/// LD r,r' (0x40-0x7F but 0x76) copies the operand named by bits 0-2 into the one named by
/// bits 3-5. Neither touches the flags.
#[verifier::spinoff_prover]
#[verifier::rlimit(60)]
pub proof fn lemma_ld_r8(s: CpuState)
    requires
        s.inv(),
        !s.halted,
        s.regs.pc < 0xFFFE,
        (s.mem.read(s.regs.pc) < 0x40 && s.mem.read(s.regs.pc) % 8 == 6) || (0x40 <= s.mem.read(
            s.regs.pc,
        ) < 0x80 && s.mem.read(s.regs.pc) != 0x76),
        reg8_of(s.mem.read(s.regs.pc) / 8) is HL ==> stores_writes(s.regs.hl()),
    ensures
        ({
            let op = s.mem.read(s.regs.pc);
            let dst = reg8_of(op / 8);
            let t = s.step().0;
            &&& op < 0x40 ==> t.r8(dst) == byte_at(s, s.regs.pc + 1) && t.regs.pc == s.regs.pc + 2
            &&& op >= 0x40 ==> t.r8(dst) == s.r8(reg8_of(op)) && t.regs.pc == s.regs.pc + 1
            &&& t.regs.f == s.regs.f
            &&& t.regs.sp == s.regs.sp
        }),
{
    let op = s.mem.read(s.regs.pc);
    let u = s.skip(1);
    let dst = reg8_of(op / 8);
    lemma_ld_r8_dispatch(u, op);
    if op < 0x40 {
        let w = u.skip(1);
        assert(w.regs.hl() == s.regs.hl());
        super::laws::lemma_set_r8_then_r8(w, dst, u.imm8());
    } else {
        super::laws::lemma_set_r8_then_r8(u, dst, u.r8(reg8_of(op)));
    }
}

/// RLCA, RRCA, RLA and RRA (0x07, 0x0F, 0x17, 0x1F) move A one place: RLCA and RLA take bit 7
/// round to bit 0, RRCA takes bit 0 round to bit 7, and RRA brings C into bit 7. The bit
/// moved out goes to C; N and H are clear, and Z is clear but for RLA, where it tells
/// whether the result is zero.
#[verifier::spinoff_prover]
#[verifier::rlimit(60)]
pub proof fn lemma_rotate_a(s: CpuState)
    requires
        !s.halted,
        s.regs.pc < 0xFFFF,
        s.mem.read(s.regs.pc) == 0x07 || s.mem.read(s.regs.pc) == 0x0F || s.mem.read(s.regs.pc)
            == 0x17 || s.mem.read(s.regs.pc) == 0x1F,
    ensures
        ({
            let op = s.mem.read(s.regs.pc);
            let a = s.regs.a;
            let c: int = if s.regs.f.carry {
                1
            } else {
                0
            };
            let t = s.step().0;
            &&& (op == 0x07 || op == 0x17) ==> t.regs.a == (2 * a) % 256 + a / 128
                && t.regs.f.carry == (a >= 128)
            &&& op == 0x0F ==> t.regs.a == a / 2 + 128 * (a % 2) && t.regs.f.carry == (a % 2 == 1)
            &&& op == 0x1F ==> t.regs.a == a / 2 + 128 * c && t.regs.f.carry == (a % 2 == 1)
            &&& t.regs.f.zero == (op == 0x17 && t.regs.a == 0)
            &&& !t.regs.f.subtract && !t.regs.f.half_carry
            &&& t.regs.pc == s.regs.pc + 1
            &&& t.mem == s.mem
        }),
{
    let op = s.mem.read(s.regs.pc);
    let u = s.skip(1);
    assert(u.execute(op) == u.execute_block0(op)) by {
        reveal(CpuState::execute);
    }
}

/// INC rr, DEC rr and ADD HL,rr (0x03, 0x0B, 0x09 plus 0x10 times the pair: BC, DE, HL, SP)
/// add or take 1 from the pair, or add it to HL, wrapping at 0x10000. INC and DEC leave the
/// flags alone; ADD HL keeps Z, clears N, and sets H and C to the carries out of bits 11
/// and 15.
#[verifier::spinoff_prover]
#[verifier::rlimit(60)]
pub proof fn lemma_r16_arith(s: CpuState)
    requires
        !s.halted,
        s.regs.pc < 0xFFFF,
        s.mem.read(s.regs.pc) < 0x40,
        s.mem.read(s.regs.pc) % 16 == 3 || s.mem.read(s.regs.pc) % 16 == 0xB || s.mem.read(
            s.regs.pc,
        ) % 16 == 9,
    ensures
        ({
            let op = s.mem.read(s.regs.pc);
            let pair = super::spec::reg16_of(op);
            let v = s.regs.get16(pair);
            let hl = s.regs.hl();
            let t = s.step().0;
            &&& op % 16 == 3 ==> t.regs.get16(pair) == (v + 1) % 0x10000 && t.regs.f == s.regs.f
            &&& op % 16 == 0xB ==> t.regs.get16(pair) == (v + 0xFFFF) % 0x10000 && t.regs.f
                == s.regs.f
            &&& op % 16 == 9 ==> t.regs.hl() == (hl + v) % 0x10000 && t.regs.f == flags(
                s.regs.f.zero,
                false,
                hl % 4096 + v % 4096 > 4095,
                hl + v > 0xFFFF,
            )
            &&& t.regs.pc == s.regs.pc + 1
            &&& t.mem == s.mem
        }),
{
    let op = s.mem.read(s.regs.pc);
    let u = s.skip(1);
    lemma_r16_dispatch(u, op);
    let pair = super::spec::reg16_of(op);
    let v = s.regs.get16(pair);
    let hl = s.regs.hl();
    assert(!(pair is AF));
    if op % 16 == 3 {
        super::laws::lemma_set16_get16(u.regs, pair, super::spec::wrap16(v + 1));
    } else if op % 16 == 0xB {
        super::laws::lemma_set16_get16(u.regs, pair, super::spec::wrap16(v - 1));
        assert((v - 1) % 0x10000 == (v + 0xFFFF) % 0x10000);
    } else {
        super::laws::lemma_set16_get16(u.regs, super::Reg16::HL, super::spec::wrap16(hl + v));
    }
}

#[verifier::spinoff_prover]
#[verifier::rlimit(60)]
proof fn lemma_inc_dec_dispatch(u: CpuState, op: u8)
    requires
        op < 0x40,
        op % 8 == 4 || op % 8 == 5,
    ensures
        u.execute(op).0 == if op % 8 == 4 {
            u.inc_r8(op)
        } else {
            u.dec_r8(op)
        },
{
    reveal(CpuState::execute);
}

#[verifier::spinoff_prover]
#[verifier::rlimit(60)]
proof fn lemma_ld_r8_dispatch(u: CpuState, op: u8)
    requires
        (op < 0x40 && op % 8 == 6) || (0x40 <= op < 0x80 && op != 0x76),
    ensures
        u.execute(op).0 == if op < 0x40 {
            u.ld_r8_i8(op)
        } else {
            u.ld_r8_r8(op)
        },
{
    reveal(CpuState::execute);
}

#[verifier::spinoff_prover]
#[verifier::rlimit(60)]
proof fn lemma_r16_dispatch(u: CpuState, op: u8)
    requires
        op < 0x40,
        op % 16 == 3 || op % 16 == 0xB || op % 16 == 9,
    ensures
        u.execute(op).0 == if op % 16 == 3 {
            u.inc_r16(op)
        } else if op % 16 == 0xB {
            u.dec_r16(op)
        } else {
            u.add_hl_r16(op)
        },
{
    reveal(CpuState::execute);
}

/// Whether bit `j` (0 the lowest) of `v` is set.
pub open spec fn has_bit(v: u8, j: u8) -> bool {
    (v >> j) & 1 == 1
}

proof fn lemma_res_set_bits(v: u8, b: u8, j: u8)
    requires
        b < 8,
        j < 8,
    ensures
        has_bit(v & !(1u8 << b), j) == (j != b && has_bit(v, j)),
        has_bit(v | (1u8 << b), j) == (j == b || has_bit(v, j)),
        (v & (1u8 << b) == 0) == !has_bit(v, b),
{
    assert(((v & !(1u8 << b)) >> j) & 1 == 1 <==> (j != b && (v >> j) & 1 == 1)) by (bit_vector)
        requires
            b < 8,
            j < 8,
    ;
    assert(((v | (1u8 << b)) >> j) & 1 == 1 <==> (j == b || (v >> j) & 1 == 1)) by (bit_vector)
        requires
            b < 8,
            j < 8,
    ;
    assert((v & (1u8 << b) == 0) <==> !((v >> b) & 1 == 1)) by (bit_vector)
        requires
            b < 8,
    ;
}

proof fn lemma_bit_ops_dispatch(w: CpuState, op: u8)
    requires
        op >= 0x40,
    ensures
        w.cb_op(op) == if op < 0x80 {
            w.bit_b_r8(op)
        } else if op < 0xC0 {
            w.res_b_r8(op)
        } else {
            w.set_b_r8(op)
        },
{
}

/// BIT b,r, RES b,r and SET b,r (0xCB then 0x40-0xFF; b in bits 3-5, the operand in bits
/// 0-2). BIT sets Z exactly when bit b of the operand is clear, clears N, sets H, keeps C
/// and leaves the operand alone. RES clears bit b of the operand and SET sets it, every
/// other bit staying as it was, and neither touches the flags.
#[verifier::spinoff_prover]
#[verifier::rlimit(60)]
pub proof fn lemma_bit_res_set(s: CpuState)
    requires
        s.inv(),
        !s.halted,
        s.regs.pc < 0xFFFE,
        s.mem.read(s.regs.pc) == 0xCB,
        byte_at(s, s.regs.pc + 1) >= 0x40,
        reg8_of(byte_at(s, s.regs.pc + 1)) is HL ==> stores_writes(s.regs.hl()),
    ensures
        ({
            let op = byte_at(s, s.regs.pc + 1);
            let b = ((op / 8) % 8) as u8;
            let r = reg8_of(op);
            let v = s.r8(r);
            let t = s.step().0;
            &&& op < 0x80 ==> t.regs.f == flags(!has_bit(v, b), false, true, s.regs.f.carry)
                && t.r8(r) == v
            &&& op >= 0x80 ==> t.regs.f == s.regs.f && forall|j: u8|
                j < 8 ==> #[trigger] has_bit(t.r8(r), j) == if j == b {
                    op >= 0xC0
                } else {
                    has_bit(v, j)
                }
            &&& t.regs.pc == s.regs.pc + 2
            &&& t.regs.sp == s.regs.sp
        }),
{
    let u = s.skip(1);
    let op = byte_at(s, s.regs.pc + 1);
    assert(u.imm8() == op);
    lemma_cb_dispatch(u);
    let w = u.skip(1);
    let r = reg8_of(op);
    let v = w.r8(r);
    let b = ((op / 8) % 8) as u8;
    assert(v == s.r8(r));
    assert(super::spec::bit_index(op) == b);
    lemma_bit_ops_dispatch(w, op);
    lemma_res_set_bits(v, b, 0);
    if op < 0x80 {
        if r is HL {
            assert(w.mem == s.mem);
        }
    } else {
        let res = if op < 0xC0 {
            v & !(1u8 << b)
        } else {
            v | (1u8 << b)
        };
        super::laws::lemma_set_r8_then_r8(w, r, res);
        assert forall|j: u8| j < 8 implies #[trigger] has_bit(s.step().0.r8(r), j) == if j == b {
            op >= 0xC0
        } else {
            has_bit(v, j)
        } by {
            lemma_res_set_bits(v, b, j);
        }
    }
}

proof fn lemma_control_dispatch(u: CpuState, op: u8)
    requires
        op == 0x18 || op == 0xC3 || op == 0xCD || op == 0xC9 || op == 0xE9 || (op >= 0xC0 && op
            % 8 == 7),
    ensures
        u.execute(op).0 == if op == 0x18 {
            u.jr_s8()
        } else if op == 0xC3 {
            u.jp_a16()
        } else if op == 0xCD {
            u.call_a16()
        } else if op == 0xC9 {
            u.ret()
        } else if op == 0xE9 {
            u.jp_hl()
        } else {
            u.rst_tgt3((op - 0xC7) as u16)
        },
{
    reveal(CpuState::execute);
}

/// The unconditional transfers. JR e (0x18) moves PC to the address after the operand plus
/// the signed offset; JP a16 (0xC3) to the little-endian address after the opcode; JP HL
/// (0xE9) to HL. CALL a16 (0xCD) and RST n (0xC7 + 8k, to address 8k) push the address of the
/// next instruction, high byte at SP-1 and low byte at SP-2, lower SP by 2 and jump. RET
/// (0xC9) jumps to the word at SP, low byte first, and raises SP by 2. None touches the flags.
#[verifier::spinoff_prover]
#[verifier::rlimit(60)]
pub proof fn lemma_jumps(s: CpuState)
    requires
        !s.halted,
        s.regs.pc < 0xFFFD,
        ({
            let op = s.mem.read(s.regs.pc);
            op == 0x18 || op == 0xC3 || op == 0xCD || op == 0xC9 || op == 0xE9 || (op >= 0xC0
                && op % 8 == 7)
        }),
    ensures
        ({
            let op = s.mem.read(s.regs.pc);
            let pc = s.regs.pc;
            let sp = s.regs.sp;
            let target = byte_at(s, pc + 1) + 256 * byte_at(s, pc + 2);
            let t = s.step().0;
            let pushes = op == 0xCD || op % 8 == 7;
            let back: int = if op == 0xCD {
                pc + 3
            } else {
                pc + 1
            };
            &&& op == 0x18 ==> t.regs.pc == (pc + 2 + signed_byte(byte_at(s, pc + 1))) % 0x10000
            &&& (op == 0xC3 || op == 0xCD) ==> t.regs.pc == target
            &&& op == 0xE9 ==> t.regs.pc == s.regs.hl()
            &&& op % 8 == 7 ==> t.regs.pc == op - 0xC7
            &&& op == 0xC9 ==> t.regs.pc == byte_at(s, sp as int) + 256 * byte_at(s, sp + 1)
                && t.regs.sp == (sp + 2) % 0x10000 && t.mem == s.mem
            &&& pushes ==> t.regs.sp == (sp - 2) % 0x10000 && t.mem == s.mem.write(
                ((sp - 1) % 0x10000) as u16,
                (back / 256) as u8,
            ).write(((sp - 2) % 0x10000) as u16, (back % 256) as u8)
            &&& (op == 0x18 || op == 0xC3 || op == 0xE9) ==> t.regs.sp == sp && t.mem == s.mem
            &&& t.regs.f == s.regs.f
        }),
{
    let op = s.mem.read(s.regs.pc);
    let u = s.skip(1);
    lemma_control_dispatch(u, op);
    if op == 0x18 {
        lemma_offset_target(s.regs.pc, byte_at(s, s.regs.pc + 1));
        assert(u.imm8() == byte_at(s, s.regs.pc + 1));
    }
}

/// PUSH rr (0xC5 + 0x10k) writes the pair (BC, DE, HL, AF) below SP, high byte at SP-1 and
/// low byte at SP-2, and lowers SP by 2; POP rr (0xC1 + 0x10k) loads the pair from the word
/// at SP, low byte first, and raises SP by 2. For AF the low nibble of F reads back as zero.
#[verifier::spinoff_prover]
#[verifier::rlimit(60)]
pub proof fn lemma_push_pop_step(s: CpuState)
    requires
        !s.halted,
        s.regs.pc < 0xFFFF,
        s.mem.read(s.regs.pc) >= 0xC0,
        s.mem.read(s.regs.pc) % 16 == 1 || s.mem.read(s.regs.pc) % 16 == 5,
    ensures
        ({
            let op = s.mem.read(s.regs.pc);
            let pair = super::spec::stack_reg16_of(op);
            let sp = s.regs.sp;
            let v = s.regs.get16(pair);
            let w = byte_at(s, sp as int) + 256 * byte_at(s, sp + 1);
            let t = s.step().0;
            &&& op % 16 == 5 ==> t.regs.sp == (sp - 2) % 0x10000 && t.mem == s.mem.write(
                ((sp - 1) % 0x10000) as u16,
                (v / 256) as u8,
            ).write(((sp - 2) % 0x10000) as u16, (v % 256) as u8)
            &&& op % 16 == 1 ==> t.regs.sp == (sp + 2) % 0x10000 && t.mem == s.mem && t.regs.get16(
                pair,
            ) == if pair is AF {
                w - w % 16
            } else {
                w
            }
            &&& t.regs.pc == s.regs.pc + 1
        }),
{
    let op = s.mem.read(s.regs.pc);
    let u = s.skip(1);
    assert(u.execute(op).0 == if op % 16 == 5 {
        u.push_r16(op)
    } else {
        u.pop_r16(op)
    }) by {
        reveal(CpuState::execute);
    }
    let pair = super::spec::stack_reg16_of(op);
    if op % 16 == 1 {
        let sp2 = u.after_pop();
        super::laws::lemma_set16_get16(sp2.regs, pair, u.popped());
    }
}

proof fn lemma_misc_dispatch(u: CpuState, op: u8)
    requires
        op == 0x00 || op == 0x2F || op == 0x37 || op == 0x3F || op == 0x76 || op == 0xF3 || op
            == 0xFB || op == 0xE8 || op == 0xF8 || op == 0xF9,
    ensures
        u.execute(op).0 == if op == 0x00 {
            u
        } else if op == 0x2F {
            u.cpl()
        } else if op == 0x37 {
            u.scf()
        } else if op == 0x3F {
            u.ccf()
        } else if op == 0x76 {
            u.halt()
        } else if op == 0xF3 {
            u.di()
        } else if op == 0xFB {
            u.ei()
        } else if op == 0xE8 {
            u.add_sp_s8()
        } else if op == 0xF8 {
            u.ld_hl_sp_add_s8()
        } else {
            u.ld_sp_hl()
        },
{
    reveal(CpuState::execute);
}

/// ADD SP,e (0xE8) puts SP plus the signed byte e in SP, and LD HL,SP+e (0xF8) puts it in
/// HL leaving SP, both wrapping; Z and N are cleared and H and C are the carries out of bits
/// 3 and 7 when the byte e is added to the low byte of SP. LD SP,HL (0xF9) copies HL to SP.
#[verifier::spinoff_prover]
#[verifier::rlimit(60)]
pub proof fn lemma_sp_arith(s: CpuState)
    requires
        !s.halted,
        s.regs.pc < 0xFFFE,
        s.mem.read(s.regs.pc) == 0xE8 || s.mem.read(s.regs.pc) == 0xF8 || s.mem.read(s.regs.pc)
            == 0xF9,
    ensures
        ({
            let op = s.mem.read(s.regs.pc);
            let sp = s.regs.sp;
            let e = byte_at(s, s.regs.pc + 1);
            let sum = (sp + signed_byte(e)) % 0x10000;
            let t = s.step().0;
            &&& op == 0xE8 ==> t.regs.sp == sum && t.regs.hl() == s.regs.hl()
            &&& op == 0xF8 ==> t.regs.hl() == sum && t.regs.sp == sp
            &&& op != 0xF9 ==> t.regs.f == flags(
                false,
                false,
                sp % 16 + e % 16 > 15,
                sp % 256 + e > 255,
            ) && t.regs.pc == s.regs.pc + 2
            &&& op == 0xF9 ==> t.regs.sp == s.regs.hl() && t.regs.f == s.regs.f && t.regs.pc
                == s.regs.pc + 1
            &&& t.regs.a == s.regs.a
            &&& t.mem == s.mem
        }),
{
    let op = s.mem.read(s.regs.pc);
    let u = s.skip(1);
    lemma_misc_dispatch(u, op);
    let e = byte_at(s, s.regs.pc + 1);
    assert(u.imm8() == e);
    let sp = s.regs.sp;
    assert((sp + e + 0xFF00) % 0x10000 == (sp + e - 256) % 0x10000);
    let v = super::spec::wrap16(sp + crate::bits::sign_extend(e));
    assert(crate::bits::word(crate::bits::high_byte(v), crate::bits::low_byte(v)) == v);
}

/// NOP (0x00) changes nothing but PC; CPL (0x2F) complements A and sets N and H; SCF (0x37)
/// sets C and CCF (0x3F) inverts it, both clearing N and H and keeping Z; HALT (0x76) stops
/// the processor in place; DI (0xF3) and EI (0xFB) arm a change of the interrupt enable to
/// off or on, due after the next instruction, leaving it as it was for now.
#[verifier::spinoff_prover]
#[verifier::rlimit(60)]
pub proof fn lemma_flag_and_control_ops(s: CpuState)
    requires
        !s.halted,
        s.regs.pc < 0xFFFF,
        ({
            let op = s.mem.read(s.regs.pc);
            op == 0x00 || op == 0x2F || op == 0x37 || op == 0x3F || op == 0x76 || op == 0xF3 || op
                == 0xFB
        }),
    ensures
        ({
            let op = s.mem.read(s.regs.pc);
            let f = s.regs.f;
            let t = s.step().0;
            &&& op == 0x00 ==> t.regs == (super::registers::Registers {
                pc: (s.regs.pc + 1) as u16,
                ..s.regs
            })
            &&& op == 0x2F ==> t.regs.a == 255 - s.regs.a && t.regs.f == flags(
                f.zero,
                true,
                true,
                f.carry,
            )
            &&& op == 0x37 ==> t.regs.f == flags(f.zero, false, false, true)
            &&& op == 0x3F ==> t.regs.f == flags(f.zero, false, false, !f.carry)
            &&& op == 0x76 ==> t.halted && t.regs == (super::registers::Registers {
                pc: (s.regs.pc + 1) as u16,
                ..s.regs
            })
            &&& (op == 0xF3 || op == 0xFB) ==> t.ime == s.ime && t.ime_next == (op == 0xFB)
                && t.ime_delay == 1
            &&& t.regs.pc == s.regs.pc + 1
            &&& t.mem == s.mem
        }),
{
    let op = s.mem.read(s.regs.pc);
    let u = s.skip(1);
    lemma_misc_dispatch(u, op);
    let a = s.regs.a;
    assert(!a == 255 - a) by (bit_vector);
}

/// The address that a load or store between A and memory uses: BC (0x02, 0x0A), DE (0x12,
/// 0x1A), 0xFF00 plus the byte after the opcode (0xE0, 0xF0), 0xFF00 plus C (0xE2, 0xF2),
/// or the little-endian word after the opcode (0xEA, 0xFA).
pub open spec fn a_transfer_address(s: CpuState, op: u8) -> int {
    let pc = s.regs.pc;
    if op == 0x02 || op == 0x0A {
        256 * s.regs.b + s.regs.c
    } else if op == 0x12 || op == 0x1A {
        256 * s.regs.d + s.regs.e
    } else if op == 0xE0 || op == 0xF0 {
        0xFF00 + byte_at(s, pc + 1)
    } else if op == 0xE2 || op == 0xF2 {
        0xFF00 + s.regs.c
    } else {
        byte_at(s, pc + 1) + 256 * byte_at(s, pc + 2)
    }
}

/// Whether `op` stores A to memory (0x02, 0x12, 0xE0, 0xE2, 0xEA) rather than loading it.
pub open spec fn stores_a(op: u8) -> bool {
    op == 0x02 || op == 0x12 || op == 0xE0 || op == 0xE2 || op == 0xEA
}

proof fn lemma_a_transfer_dispatch(u: CpuState, op: u8)
    requires
        op == 0x02 || op == 0x0A || op == 0x12 || op == 0x1A || op == 0xE0 || op == 0xF0 || op
            == 0xE2 || op == 0xF2 || op == 0xEA || op == 0xFA,
    ensures
        u.execute(op).0 == if op == 0x02 || op == 0x12 {
            u.ld_r16_a(op)
        } else if op == 0x0A || op == 0x1A {
            u.ld_a_r16(op)
        } else if op == 0xE0 {
            u.ldh_a8_a()
        } else if op == 0xF0 {
            u.ldh_a_a8()
        } else if op == 0xE2 {
            u.ldh_c_a()
        } else if op == 0xF2 {
            u.ldh_a_c()
        } else if op == 0xEA {
            u.ld_a16_a()
        } else {
            u.ld_a_a16()
        },
{
    reveal(CpuState::execute);
}

/// The loads and stores between A and an address in memory: the stores write A at the
/// address and keep A; the loads put the byte at the address in A and leave memory alone.
/// PC moves past the opcode and its operand bytes, and the flags stay.
#[verifier::spinoff_prover]
#[verifier::rlimit(60)]
pub proof fn lemma_a_transfers(s: CpuState)
    requires
        !s.halted,
        s.regs.pc < 0xFFFD,
        ({
            let op = s.mem.read(s.regs.pc);
            op == 0x02 || op == 0x0A || op == 0x12 || op == 0x1A || op == 0xE0 || op == 0xF0 || op
                == 0xE2 || op == 0xF2 || op == 0xEA || op == 0xFA
        }),
    ensures
        ({
            let op = s.mem.read(s.regs.pc);
            let addr = a_transfer_address(s, op) as u16;
            let len: int = if op == 0xEA || op == 0xFA {
                3
            } else if op == 0xE0 || op == 0xF0 {
                2
            } else {
                1
            };
            let t = s.step().0;
            &&& 0 <= a_transfer_address(s, op) < 0x10000
            &&& stores_a(op) ==> t.mem == s.mem.write(addr, s.regs.a) && t.regs.a == s.regs.a
            &&& !stores_a(op) ==> t.regs.a == s.mem.read(addr) && t.mem == s.mem
            &&& t.regs.pc == s.regs.pc + len
            &&& t.regs.f == s.regs.f
            &&& t.regs.sp == s.regs.sp
        }),
{
    let op = s.mem.read(s.regs.pc);
    let u = s.skip(1);
    lemma_a_transfer_dispatch(u, op);
    assert(u.imm8() == byte_at(s, s.regs.pc + 1));
}

proof fn lemma_word_load_dispatch(u: CpuState, op: u8)
    requires
        op == 0x01 || op == 0x11 || op == 0x21 || op == 0x31 || op == 0x08 || op == 0x10 || op
            == 0xD9,
    ensures
        u.execute(op).0 == if op == 0x08 {
            u.ld_a16_sp()
        } else if op == 0x10 {
            u.stop()
        } else if op == 0xD9 {
            u.reti()
        } else {
            u.ld_r16_i16(op)
        },
{
    reveal(CpuState::execute);
}

/// LD rr,d16 (0x01, 0x11, 0x21, 0x31 for BC, DE, HL, SP) loads the pair with the
/// little-endian word after the opcode. LD (a16),SP (0x08) writes the low byte of SP at a16
/// and the high byte at a16 + 1 (a16 below 0xFFFF, where the step is defined). STOP (0x10) halts and skips one byte. RETI (0xD9) returns
/// like RET and turns the interrupt enable on at once, dropping any pending change.
#[verifier::spinoff_prover]
#[verifier::rlimit(60)]
pub proof fn lemma_word_loads_stop_reti(s: CpuState)
    requires
        !s.halted,
        s.regs.pc < 0xFFFD,
        ({
            let op = s.mem.read(s.regs.pc);
            op == 0x01 || op == 0x11 || op == 0x21 || op == 0x31 || op == 0x08 || op == 0x10 || op
                == 0xD9
        }),
    ensures
        ({
            let op = s.mem.read(s.regs.pc);
            let pc = s.regs.pc;
            let sp = s.regs.sp;
            let w = byte_at(s, pc + 1) + 256 * byte_at(s, pc + 2);
            let t = s.step().0;
            &&& (op == 0x01 || op == 0x11 || op == 0x21 || op == 0x31) ==> t.regs.get16(
                super::spec::reg16_of(op),
            ) == w && t.regs.pc == pc + 3 && t.mem == s.mem
            &&& op == 0x08 && w < 0xFFFF ==> t.mem == s.mem.write(w as u16, (sp % 256) as u8).write(
                (w + 1) as u16,
                (sp / 256) as u8,
            ) && t.regs.pc == pc + 3 && t.regs.sp == sp
            &&& op == 0x10 ==> t.halted && t.regs.pc == pc + 2 && t.mem == s.mem
            &&& op == 0xD9 ==> t.regs.pc == byte_at(s, sp as int) + 256 * byte_at(s, sp + 1)
                && t.regs.sp == (sp + 2) % 0x10000 && t.ime && t.ime_delay == 0
            &&& t.regs.f == s.regs.f
        }),
{
    let op = s.mem.read(s.regs.pc);
    let u = s.skip(1);
    lemma_word_load_dispatch(u, op);
    if op == 0x01 || op == 0x11 || op == 0x21 || op == 0x31 {
        let pair = super::spec::reg16_of(op);
        super::laws::lemma_set16_get16(u.skip(2).regs, pair, u.imm16());
    }
}

} // verus!
