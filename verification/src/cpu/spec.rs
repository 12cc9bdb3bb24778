//! What each instruction does, over the abstract state of the processor and its bus.
use vstd::prelude::*;

use super::opcodes::{base_cycles, cb_cycles};
use super::registers::{flags_byte, flags_of, FlagsRegister, Registers};
use super::{Condition, Reg16, Reg8};
use crate::bits::{high_byte, low_byte, sign_extend, word};
use crate::mmu::{in_bounds, MmuState};

verus! {

/// The abstract state of the processor with its bus.
pub struct CpuState {
    pub regs: Registers,
    pub halted: bool,
    /// Interrupt master enable.
    pub ime: bool,
    /// The value `ime` takes when `ime_delay` runs out.
    pub ime_next: bool,
    /// Counts down at the end of each instruction; when it reaches 0, `ime` takes `ime_next`.
    /// 0 when no change is pending.
    pub ime_delay: u8,
    pub ticks: u32,
    pub m_cycle: u32,
    pub logging: bool,
    pub mem: MmuState,
}

/// A 16-bit value wrapped into 0..=0xFFFF.
pub open spec fn wrap16(x: int) -> u16 {
    (x % 0x10000) as u16
}

/// The 8-bit operand that a 3-bit register code names (B, C, D, E, H, L, (HL), A).
pub open spec fn reg8_of(code: u8) -> Reg8 {
    let i = code % 8;
    if i == 0 {
        Reg8::B
    } else if i == 1 {
        Reg8::C
    } else if i == 2 {
        Reg8::D
    } else if i == 3 {
        Reg8::E
    } else if i == 4 {
        Reg8::H
    } else if i == 5 {
        Reg8::L
    } else if i == 6 {
        Reg8::HL
    } else {
        Reg8::A
    }
}

/// The register pair that bits 4-5 of an opcode name (BC, DE, HL, SP).
pub open spec fn reg16_of(op: u8) -> Reg16 {
    let i = (op / 16) % 4;
    if i == 0 {
        Reg16::BC
    } else if i == 1 {
        Reg16::DE
    } else if i == 2 {
        Reg16::HL
    } else {
        Reg16::SP
    }
}

/// The register pair that bits 4-5 of a PUSH or POP opcode name (BC, DE, HL, AF).
pub open spec fn stack_reg16_of(op: u8) -> Reg16 {
    let i = (op / 16) % 4;
    if i == 0 {
        Reg16::BC
    } else if i == 1 {
        Reg16::DE
    } else if i == 2 {
        Reg16::HL
    } else {
        Reg16::AF
    }
}

/// The bit number that bits 3-5 of a BIT, RES or SET opcode name.
pub open spec fn bit_index(op: u8) -> u8 {
    ((op / 8) % 8) as u8
}

/// `v` shifted left one place, `fill` entering bit 0.
pub open spec fn shl(v: u8, fill: bool) -> u8 {
    ((v * 2) % 256 + if fill {
        1int
    } else {
        0int
    }) as u8
}

/// `v` shifted right one place, `fill` entering bit 7.
pub open spec fn shr(v: u8, fill: bool) -> u8 {
    (v / 2 + if fill {
        128int
    } else {
        0int
    }) as u8
}

/// `v` with its two nibbles exchanged.
pub open spec fn swap_nibbles(v: u8) -> u8 {
    ((v % 16) * 16 + v / 16) as u8
}

/// Whether bit 7 of `v` is set.
pub open spec fn bit7(v: u8) -> bool {
    v >= 128
}

/// Whether bit 0 of `v` is set.
pub open spec fn bit0(v: u8) -> bool {
    v % 2 == 1
}

pub open spec fn flags(zero: bool, subtract: bool, half_carry: bool, carry: bool) -> FlagsRegister {
    FlagsRegister { zero, subtract, half_carry, carry }
}

/// The opcodes that the processor carries out; the other eleven are undefined.
pub open spec fn implemented(op: u8) -> bool {
    !(op == 0xD3 || op == 0xDB || op == 0xDD || op == 0xE3 || op == 0xE4 || op == 0xEB || op
        == 0xEC || op == 0xED || op == 0xF4 || op == 0xFC || op == 0xFD)
}

impl Registers {
    pub open spec fn hl(self) -> u16 {
        word(self.h, self.l)
    }

    /// The value of a register pair; AF holds the flags byte in its low half.
    pub open spec fn get16(self, r: Reg16) -> u16 {
        match r {
            Reg16::BC => word(self.b, self.c),
            Reg16::DE => word(self.d, self.e),
            Reg16::HL => word(self.h, self.l),
            Reg16::AF => word(self.a, flags_byte(self.f)),
            Reg16::SP => self.sp,
            Reg16::PC => self.pc,
        }
    }

    /// The registers with pair `r` set to `v`; for AF the low nibble of `v` is dropped.
    pub open spec fn set16(self, r: Reg16, v: u16) -> Registers {
        match r {
            Reg16::BC => Registers { b: high_byte(v), c: low_byte(v), ..self },
            Reg16::DE => Registers { d: high_byte(v), e: low_byte(v), ..self },
            Reg16::HL => Registers { h: high_byte(v), l: low_byte(v), ..self },
            Reg16::AF => Registers { a: high_byte(v), f: flags_of(low_byte(v)), ..self },
            Reg16::SP => Registers { sp: v, ..self },
            Reg16::PC => Registers { pc: v, ..self },
        }
    }

    /// The registers with 8-bit register `r` set to `v`; (HL) names memory, so for it they
    /// are unchanged.
    pub open spec fn set8(self, r: Reg8, v: u8) -> Registers {
        match r {
            Reg8::B => Registers { b: v, ..self },
            Reg8::C => Registers { c: v, ..self },
            Reg8::D => Registers { d: v, ..self },
            Reg8::E => Registers { e: v, ..self },
            Reg8::H => Registers { h: v, ..self },
            Reg8::L => Registers { l: v, ..self },
            Reg8::HL => self,
            Reg8::A => Registers { a: v, ..self },
        }
    }

    pub open spec fn with_flags(self, f: FlagsRegister) -> Registers {
        Registers { f, ..self }
    }

    /// A + v: H is the carry out of bit 3, C the carry out of bit 7.
    pub open spec fn add_a(self, v: u8) -> Registers {
        let sum = self.a + v;
        Registers {
            a: (sum % 256) as u8,
            f: flags(sum % 256 == 0, false, self.a % 16 + v % 16 > 15, sum > 255),
            ..self
        }
    }

    /// A + v + C.
    pub open spec fn adc_a(self, v: u8) -> Registers {
        let c: int = if self.f.carry {
            1
        } else {
            0
        };
        let sum = self.a + v + c;
        Registers {
            a: (sum % 256) as u8,
            f: flags(sum % 256 == 0, false, self.a % 16 + v % 16 + c > 15, sum > 255),
            ..self
        }
    }

    /// A - v: H is the borrow from bit 4, C the borrow from bit 8.
    pub open spec fn sub_a(self, v: u8) -> Registers {
        let diff = (self.a - v) % 256;
        Registers { a: diff as u8, f: flags(diff == 0, true, self.a % 16 < v % 16, self.a < v), ..self }
    }

    /// A - v - C.
    pub open spec fn sbc_a(self, v: u8) -> Registers {
        let c: int = if self.f.carry {
            1
        } else {
            0
        };
        let diff = (self.a - v - c) % 256;
        Registers {
            a: diff as u8,
            f: flags(diff == 0, true, self.a % 16 < v % 16 + c, self.a < v + c),
            ..self
        }
    }

    pub open spec fn and_a(self, v: u8) -> Registers {
        let r = self.a & v;
        Registers { a: r, f: flags(r == 0, false, true, false), ..self }
    }

    pub open spec fn xor_a(self, v: u8) -> Registers {
        let r = self.a ^ v;
        Registers { a: r, f: flags(r == 0, false, false, false), ..self }
    }

    pub open spec fn or_a(self, v: u8) -> Registers {
        let r = self.a | v;
        Registers { a: r, f: flags(r == 0, false, false, false), ..self }
    }

    /// The flags of A - v, with A kept.
    pub open spec fn cp_a(self, v: u8) -> Registers {
        Registers { f: flags(self.a == v, true, self.a % 16 < v % 16, self.a < v), ..self }
    }

    /// Decimal adjustment of A after a BCD addition (N clear) or subtraction (N set).
    pub open spec fn daa(self) -> Registers {
        let a = self.a;
        let n = self.f.subtract;
        let low: int = if self.f.half_carry || (!n && a % 16 > 9) {
            0x06
        } else {
            0
        };
        let high: int = if self.f.carry || (!n && a > 0x99) {
            0x60
        } else {
            0
        };
        let r = if n {
            ((a - low - high) % 256) as u8
        } else {
            ((a + low + high) % 256) as u8
        };
        Registers { a: r, f: flags(r == 0, n, false, high == 0x60), ..self }
    }
}

impl CpuState {
    pub open spec fn inv(self) -> bool {
        self.mem.inv()
    }

    /// The processor at power-on, on bus `mem`.
    pub open spec fn initial(mem: MmuState, logging: bool) -> CpuState {
        CpuState {
            regs: Registers::power_on(),
            halted: false,
            ime: false,
            ime_next: false,
            ime_delay: 0,
            ticks: 0,
            m_cycle: 0,
            logging,
            mem,
        }
    }

    pub open spec fn with_regs(self, regs: Registers) -> CpuState {
        CpuState { regs, ..self }
    }

    pub open spec fn with_mem(self, mem: MmuState) -> CpuState {
        CpuState { mem, ..self }
    }

    pub open spec fn with_flags(self, f: FlagsRegister) -> CpuState {
        self.with_regs(self.regs.with_flags(f))
    }

    pub open spec fn with_pc(self, pc: u16) -> CpuState {
        self.with_regs(Registers { pc, ..self.regs })
    }

    pub open spec fn with_sp(self, sp: u16) -> CpuState {
        self.with_regs(Registers { sp, ..self.regs })
    }

    /// The state with PC moved `n` bytes on.
    pub open spec fn skip(self, n: int) -> CpuState {
        self.with_pc((self.regs.pc + n) as u16)
    }

    /// Whether the byte at PC can be fetched: PC must not step past 0xFFFF.
    pub open spec fn fetch_ok(self) -> bool {
        self.regs.pc < 0xFFFF && self.mem.read_ok(self.regs.pc)
    }

    /// The byte at PC.
    pub open spec fn imm8(self) -> u8 {
        self.mem.read(self.regs.pc)
    }

    /// Whether the word at PC can be fetched.
    pub open spec fn fetch16_ok(self) -> bool {
        self.regs.pc < 0xFFFE && self.mem.read_ok(self.regs.pc) && self.mem.read_ok(
            (self.regs.pc + 1) as u16,
        )
    }

    /// The little-endian word at PC.
    pub open spec fn imm16(self) -> u16 {
        word(self.mem.read((self.regs.pc + 1) as u16), self.mem.read(self.regs.pc))
    }

    /// Whether operand `r` can be read; (HL) is the byte that HL points at.
    pub open spec fn r8_ok(self, r: Reg8) -> bool {
        r is HL ==> self.mem.read_ok(self.regs.hl())
    }

    /// Whether operand `r` can be written.
    pub open spec fn w8_ok(self, r: Reg8) -> bool {
        r is HL ==> in_bounds(self.regs.hl())
    }

    pub open spec fn r8(self, r: Reg8) -> u8 {
        match r {
            Reg8::B => self.regs.b,
            Reg8::C => self.regs.c,
            Reg8::D => self.regs.d,
            Reg8::E => self.regs.e,
            Reg8::H => self.regs.h,
            Reg8::L => self.regs.l,
            Reg8::HL => self.mem.read(self.regs.hl()),
            Reg8::A => self.regs.a,
        }
    }

    /// The state with operand `r` set to `v`: a register, or for (HL) the byte in memory.
    pub open spec fn set_r8(self, r: Reg8, v: u8) -> CpuState {
        CpuState {
            regs: self.regs.set8(r, v),
            mem: if r is HL {
                self.mem.write(self.regs.hl(), v)
            } else {
                self.mem
            },
            ..self
        }
    }

    pub open spec fn set16(self, r: Reg16, v: u16) -> CpuState {
        self.with_regs(self.regs.set16(r, v))
    }

    pub open spec fn cond(self, c: Condition) -> bool {
        match c {
            Condition::NZ => !self.regs.f.zero,
            Condition::Z => self.regs.f.zero,
            Condition::NC => !self.regs.f.carry,
            Condition::C => self.regs.f.carry,
        }
    }

    /// Whether a push can write its two bytes below SP.
    pub open spec fn push_ok(self) -> bool {
        in_bounds(wrap16(self.regs.sp - 1)) && in_bounds(wrap16(self.regs.sp - 2))
    }

    /// The state after pushing `v`: its high byte at SP-1, its low byte at SP-2, SP lowered
    /// by 2, all wrapping.
    pub open spec fn push(self, v: u16) -> CpuState {
        let sp1 = wrap16(self.regs.sp - 1);
        let sp2 = wrap16(self.regs.sp - 2);
        CpuState {
            regs: Registers { sp: sp2, ..self.regs },
            mem: self.mem.write(sp1, high_byte(v)).write(sp2, low_byte(v)),
            ..self
        }
    }

    /// Whether a pop can read its two bytes at SP.
    pub open spec fn pop_ok(self) -> bool {
        self.mem.read_ok(self.regs.sp) && self.mem.read_ok(wrap16(self.regs.sp + 1))
    }

    /// The word at SP: low byte at SP, high byte at SP+1.
    pub open spec fn popped(self) -> u16 {
        word(self.mem.read(wrap16(self.regs.sp + 1)), self.mem.read(self.regs.sp))
    }

    /// The state after a pop: SP raised by 2, wrapping.
    pub open spec fn after_pop(self) -> CpuState {
        self.with_sp(wrap16(self.regs.sp + 2))
    }

    /// Interrupt enabling after an instruction: a pending change counts down and takes
    /// effect when its count reaches zero.
    pub open spec fn tick_ime(self) -> CpuState {
        if self.ime_delay > 0 {
            let d = (self.ime_delay - 1) as u8;
            CpuState {
                ime_delay: d,
                ime: if d == 0 {
                    self.ime_next
                } else {
                    self.ime
                },
                ..self
            }
        } else {
            self
        }
    }
}

/// The instructions. In each, `self` is the state after the opcode byte has been fetched.
impl CpuState {
    // Arithmetic and logic on A.

    pub open spec fn add_r8(self, op: u8) -> CpuState {
        self.with_regs(self.regs.add_a(self.r8(reg8_of(op))))
    }

    pub open spec fn adc_r8(self, op: u8) -> CpuState {
        self.with_regs(self.regs.adc_a(self.r8(reg8_of(op))))
    }

    pub open spec fn sub_r8(self, op: u8) -> CpuState {
        self.with_regs(self.regs.sub_a(self.r8(reg8_of(op))))
    }

    pub open spec fn sbc_r8(self, op: u8) -> CpuState {
        self.with_regs(self.regs.sbc_a(self.r8(reg8_of(op))))
    }

    pub open spec fn and_r8(self, op: u8) -> CpuState {
        self.with_regs(self.regs.and_a(self.r8(reg8_of(op))))
    }

    pub open spec fn xor_r8(self, op: u8) -> CpuState {
        self.with_regs(self.regs.xor_a(self.r8(reg8_of(op))))
    }

    pub open spec fn or_r8(self, op: u8) -> CpuState {
        self.with_regs(self.regs.or_a(self.r8(reg8_of(op))))
    }

    pub open spec fn cp_r8(self, op: u8) -> CpuState {
        self.with_regs(self.regs.cp_a(self.r8(reg8_of(op))))
    }

    pub open spec fn add_i8(self) -> CpuState {
        let s = self.skip(1);
        s.with_regs(s.regs.add_a(self.imm8()))
    }

    pub open spec fn adc_i8(self) -> CpuState {
        let s = self.skip(1);
        s.with_regs(s.regs.adc_a(self.imm8()))
    }

    pub open spec fn sub_i8(self) -> CpuState {
        let s = self.skip(1);
        s.with_regs(s.regs.sub_a(self.imm8()))
    }

    pub open spec fn sbc_i8(self) -> CpuState {
        let s = self.skip(1);
        s.with_regs(s.regs.sbc_a(self.imm8()))
    }

    pub open spec fn and_i8(self) -> CpuState {
        let s = self.skip(1);
        s.with_regs(s.regs.and_a(self.imm8()))
    }

    pub open spec fn xor_i8(self) -> CpuState {
        let s = self.skip(1);
        s.with_regs(s.regs.xor_a(self.imm8()))
    }

    pub open spec fn or_i8(self) -> CpuState {
        let s = self.skip(1);
        s.with_regs(s.regs.or_a(self.imm8()))
    }

    pub open spec fn cp_i8(self) -> CpuState {
        let s = self.skip(1);
        s.with_regs(s.regs.cp_a(self.imm8()))
    }

    /// INC r: Z, N clear, H when the low nibble was 0xF; C kept.
    pub open spec fn inc_r8(self, op: u8) -> CpuState {
        let r = reg8_of(op / 8);
        let v = self.r8(r);
        let res = ((v + 1) % 256) as u8;
        let s = self.set_r8(r, res);
        s.with_flags(flags(res == 0, false, v % 16 == 15, s.regs.f.carry))
    }

    /// DEC r: Z, N set, H when the low nibble was 0; C kept.
    pub open spec fn dec_r8(self, op: u8) -> CpuState {
        let r = reg8_of(op / 8);
        let v = self.r8(r);
        let res = ((v - 1) % 256) as u8;
        let s = self.set_r8(r, res);
        s.with_flags(flags(res == 0, true, v % 16 == 0, s.regs.f.carry))
    }

    pub open spec fn inc_r16(self, op: u8) -> CpuState {
        let r = reg16_of(op);
        self.set16(r, wrap16(self.regs.get16(r) + 1))
    }

    pub open spec fn dec_r16(self, op: u8) -> CpuState {
        let r = reg16_of(op);
        self.set16(r, wrap16(self.regs.get16(r) - 1))
    }

    /// ADD HL,rr: N clear, H the carry out of bit 11, C the carry out of bit 15; Z kept.
    pub open spec fn add_hl_r16(self, op: u8) -> CpuState {
        let hl = self.regs.hl();
        let v = self.regs.get16(reg16_of(op));
        let s = self.set16(Reg16::HL, wrap16(hl + v));
        s.with_flags(flags(s.regs.f.zero, false, hl % 4096 + v % 4096 > 4095, hl + v > 0xFFFF))
    }

    /// ADD SP,e: SP plus the signed byte e; Z and N clear, H and C the carries out of bits
    /// 3 and 7 of the low byte.
    pub open spec fn add_sp_s8(self) -> CpuState {
        let e = self.imm8();
        let sp = self.regs.sp;
        self.skip(1).with_sp(wrap16(sp + sign_extend(e))).with_flags(
            flags(false, false, sp % 16 + e % 16 > 15, sp % 256 + e > 255),
        )
    }

    // Loads.
    pub open spec fn ld_r16_i16(self, op: u8) -> CpuState {
        self.skip(2).set16(reg16_of(op), self.imm16())
    }

    pub open spec fn ld_r8_i8(self, op: u8) -> CpuState {
        self.skip(1).set_r8(reg8_of(op / 8), self.imm8())
    }

    /// LD (a16),SP: the low byte of SP at a16, the high byte at a16+1.
    pub open spec fn ld_a16_sp(self) -> CpuState {
        let addr = self.imm16();
        let sp = self.regs.sp;
        self.skip(2).with_mem(
            self.mem.write(addr, low_byte(sp)).write((addr + 1) as u16, high_byte(sp)),
        )
    }

    pub open spec fn ld_a_r16(self, op: u8) -> CpuState {
        self.set_r8(Reg8::A, self.mem.read(self.regs.get16(reg16_of(op))))
    }

    pub open spec fn ld_r16_a(self, op: u8) -> CpuState {
        self.with_mem(self.mem.write(self.regs.get16(reg16_of(op)), self.regs.a))
    }

    pub open spec fn ld_hli_a(self) -> CpuState {
        let hl = self.regs.hl();
        self.with_mem(self.mem.write(hl, self.regs.a)).set16(Reg16::HL, wrap16(hl + 1))
    }

    pub open spec fn ld_hld_a(self) -> CpuState {
        let hl = self.regs.hl();
        self.with_mem(self.mem.write(hl, self.regs.a)).set16(Reg16::HL, wrap16(hl - 1))
    }

    pub open spec fn ld_a_hli(self) -> CpuState {
        let hl = self.regs.hl();
        self.set_r8(Reg8::A, self.mem.read(hl)).set16(Reg16::HL, wrap16(hl + 1))
    }

    pub open spec fn ld_a_hld(self) -> CpuState {
        let hl = self.regs.hl();
        self.set_r8(Reg8::A, self.mem.read(hl)).set16(Reg16::HL, wrap16(hl - 1))
    }

    /// LD r,r': the source is named by bits 0-2, the destination by bits 3-5.
    pub open spec fn ld_r8_r8(self, op: u8) -> CpuState {
        self.set_r8(reg8_of(op / 8), self.r8(reg8_of(op)))
    }

    pub open spec fn ld_sp_hl(self) -> CpuState {
        self.with_sp(self.regs.hl())
    }

    pub open spec fn ld_a16_a(self) -> CpuState {
        self.skip(2).with_mem(self.mem.write(self.imm16(), self.regs.a))
    }

    pub open spec fn ld_a_a16(self) -> CpuState {
        self.skip(2).set_r8(Reg8::A, self.mem.read(self.imm16()))
    }

    pub open spec fn ldh_a8_a(self) -> CpuState {
        self.skip(1).with_mem(self.mem.write((0xFF00 + self.imm8()) as u16, self.regs.a))
    }

    pub open spec fn ldh_c_a(self) -> CpuState {
        self.with_mem(self.mem.write((0xFF00 + self.regs.c) as u16, self.regs.a))
    }

    pub open spec fn ldh_a_a8(self) -> CpuState {
        self.skip(1).set_r8(Reg8::A, self.mem.read((0xFF00 + self.imm8()) as u16))
    }

    pub open spec fn ldh_a_c(self) -> CpuState {
        self.set_r8(Reg8::A, self.mem.read((0xFF00 + self.regs.c) as u16))
    }

    /// LD HL,SP+e: SP plus the signed byte e, as in ADD SP,e, but the sum goes to HL.
    pub open spec fn ld_hl_sp_add_s8(self) -> CpuState {
        let e = self.imm8();
        let sp = self.regs.sp;
        self.skip(1).set16(Reg16::HL, wrap16(sp + sign_extend(e))).with_flags(
            flags(false, false, sp % 16 + e % 16 > 15, sp % 256 + e > 255),
        )
    }

    // Jumps, calls and the stack.
    pub open spec fn jp_a16(self) -> CpuState {
        self.with_pc(self.imm16())
    }

    pub open spec fn jp_hl(self) -> CpuState {
        self.with_pc(self.regs.hl())
    }

    /// JP cc,a16: 4 cycles when taken, 3 when not.
    pub open spec fn jp_cond_a16(self, c: Condition) -> (CpuState, u8) {
        if self.cond(c) {
            (self.with_pc(self.imm16()), 4)
        } else {
            (self.skip(2), 3)
        }
    }

    /// JR e: PC, already past the operand, moves by the signed byte e.
    pub open spec fn jr_s8(self) -> CpuState {
        let next = self.skip(1);
        next.with_pc(wrap16(next.regs.pc + sign_extend(self.imm8())))
    }

    /// JR cc,e: 3 cycles when taken, 2 when not.
    pub open spec fn jr_cond_s8(self, c: Condition) -> (CpuState, u8) {
        if self.cond(c) {
            (self.jr_s8(), 3)
        } else {
            (self.skip(1), 2)
        }
    }

    /// CALL a16: pushes the address of the next instruction and jumps.
    pub open spec fn call_a16(self) -> CpuState {
        let next = self.skip(2);
        next.push(next.regs.pc).with_pc(self.imm16())
    }

    /// CALL cc,a16: 6 cycles when taken, 3 when not.
    pub open spec fn call_cond_a16(self, c: Condition) -> (CpuState, u8) {
        if self.cond(c) {
            (self.call_a16(), 6)
        } else {
            (self.skip(2), 3)
        }
    }

    pub open spec fn ret(self) -> CpuState {
        self.after_pop().with_pc(self.popped())
    }

    /// RET cc: 5 cycles when taken, 2 when not.
    pub open spec fn ret_cond(self, c: Condition) -> (CpuState, u8) {
        if self.cond(c) {
            (self.ret(), 5)
        } else {
            (self, 2)
        }
    }

    /// RETI: returns and enables interrupts at once, dropping any pending change.
    pub open spec fn reti(self) -> CpuState {
        CpuState { ime_next: true, ime_delay: 0, ime: true, ..self.ret() }
    }

    pub open spec fn rst_tgt3(self, target: u16) -> CpuState {
        self.push(self.regs.pc).with_pc(target)
    }

    pub open spec fn pop_r16(self, op: u8) -> CpuState {
        self.after_pop().set16(stack_reg16_of(op), self.popped())
    }

    pub open spec fn push_r16(self, op: u8) -> CpuState {
        self.push(self.regs.get16(stack_reg16_of(op)))
    }

    // Control.
    /// DI: interrupts off after the next instruction.
    pub open spec fn di(self) -> CpuState {
        CpuState { ime_next: false, ime_delay: 2, ..self }
    }

    /// EI: interrupts on after the next instruction.
    pub open spec fn ei(self) -> CpuState {
        CpuState { ime_next: true, ime_delay: 2, ..self }
    }

    pub open spec fn halt(self) -> CpuState {
        CpuState { halted: true, ..self }
    }

    /// STOP: halts and skips the byte that follows the opcode.
    pub open spec fn stop(self) -> CpuState {
        CpuState { halted: true, ..self.skip(1) }
    }

    // Rotates and flag operations on A.
    /// RLCA: A rotated left, old bit 7 into bit 0 and C; Z, N, H clear.
    pub open spec fn rlca(self) -> CpuState {
        let a = self.regs.a;
        self.set_r8(Reg8::A, shl(a, bit7(a))).with_flags(flags(false, false, false, bit7(a)))
    }

    /// RLA as this processor model carries it out: A rotated left through bit 0 like RLCA,
    /// with Z set when the result is zero.
    pub open spec fn rla(self) -> CpuState {
        let a = self.regs.a;
        let r = shl(a, bit7(a));
        self.set_r8(Reg8::A, r).with_flags(flags(r == 0, false, false, bit7(a)))
    }

    /// RRCA: A rotated right, old bit 0 into bit 7 and C; Z, N, H clear.
    pub open spec fn rrca(self) -> CpuState {
        let a = self.regs.a;
        self.set_r8(Reg8::A, shr(a, bit0(a))).with_flags(flags(false, false, false, bit0(a)))
    }

    /// RRA: A rotated right through C; Z, N, H clear.
    pub open spec fn rra(self) -> CpuState {
        let a = self.regs.a;
        self.set_r8(Reg8::A, shr(a, self.regs.f.carry)).with_flags(
            flags(false, false, false, bit0(a)),
        )
    }

    pub open spec fn daa(self) -> CpuState {
        self.with_regs(self.regs.daa())
    }

    /// CPL: A complemented; N and H set.
    pub open spec fn cpl(self) -> CpuState {
        let f = self.regs.f;
        self.set_r8(Reg8::A, !self.regs.a).with_flags(flags(f.zero, true, true, f.carry))
    }

    pub open spec fn scf(self) -> CpuState {
        self.with_flags(flags(self.regs.f.zero, false, false, true))
    }

    pub open spec fn ccf(self) -> CpuState {
        self.with_flags(flags(self.regs.f.zero, false, false, !self.regs.f.carry))
    }

    // Prefixed operations on an operand. Here `self` is the state after the second byte.
    /// The result of a shift or rotate: the operand takes `res`, Z tells whether it is zero,
    /// N and H clear, C takes `carry`.
    pub open spec fn shift_result(self, r: Reg8, res: u8, carry: bool) -> CpuState {
        self.set_r8(r, res).with_flags(flags(res == 0, false, false, carry))
    }

    pub open spec fn rlc_r8(self, op: u8) -> CpuState {
        let v = self.r8(reg8_of(op));
        self.shift_result(reg8_of(op), shl(v, bit7(v)), bit7(v))
    }

    pub open spec fn rrc_r8(self, op: u8) -> CpuState {
        let v = self.r8(reg8_of(op));
        self.shift_result(reg8_of(op), shr(v, bit0(v)), bit0(v))
    }

    /// RL r: rotate left, the old bit 7 into bit 0 and into C.
    pub open spec fn rl_r8(self, op: u8) -> CpuState {
        let v = self.r8(reg8_of(op));
        self.shift_result(reg8_of(op), shl(v, bit7(v)), bit7(v))
    }

    /// RR r: rotate right, the old bit 0 into bit 7 and into C.
    pub open spec fn rr_r8(self, op: u8) -> CpuState {
        let v = self.r8(reg8_of(op));
        self.shift_result(reg8_of(op), shr(v, bit0(v)), bit0(v))
    }

    pub open spec fn sla_r8(self, op: u8) -> CpuState {
        let v = self.r8(reg8_of(op));
        self.shift_result(reg8_of(op), shl(v, false), bit7(v))
    }

    /// SRA: shift right keeping bit 7.
    pub open spec fn sra_r8(self, op: u8) -> CpuState {
        let v = self.r8(reg8_of(op));
        self.shift_result(reg8_of(op), shr(v, bit7(v)), bit0(v))
    }

    pub open spec fn swap_r8(self, op: u8) -> CpuState {
        let v = self.r8(reg8_of(op));
        self.shift_result(reg8_of(op), swap_nibbles(v), false)
    }

    pub open spec fn srl_r8(self, op: u8) -> CpuState {
        let v = self.r8(reg8_of(op));
        self.shift_result(reg8_of(op), shr(v, false), bit0(v))
    }

    /// BIT b,r: Z set when bit b is clear; N clear, H set, C kept.
    pub open spec fn bit_b_r8(self, op: u8) -> CpuState {
        let v = self.r8(reg8_of(op));
        let f = self.regs.f;
        self.with_flags(flags(v & (1u8 << bit_index(op)) == 0, false, true, f.carry))
    }

    pub open spec fn res_b_r8(self, op: u8) -> CpuState {
        let v = self.r8(reg8_of(op));
        self.set_r8(reg8_of(op), v & !(1u8 << bit_index(op)))
    }

    pub open spec fn set_b_r8(self, op: u8) -> CpuState {
        let v = self.r8(reg8_of(op));
        self.set_r8(reg8_of(op), v | (1u8 << bit_index(op)))
    }

    /// Whether the prefixed operation `op` can access its operand.
    pub open spec fn cb_op_ok(self, op: u8) -> bool {
        &&& self.r8_ok(reg8_of(op))
        &&& (op < 0x40 || op >= 0x80) ==> self.w8_ok(reg8_of(op))
    }

    /// The prefixed operation `op`, by rows of eight.
    pub open spec fn cb_op(self, op: u8) -> CpuState {
        if op <= 0x07 {
            self.rlc_r8(op)
        } else if op <= 0x0F {
            self.rrc_r8(op)
        } else if op <= 0x17 {
            self.rl_r8(op)
        } else if op <= 0x1F {
            self.rr_r8(op)
        } else if op <= 0x27 {
            self.sla_r8(op)
        } else if op <= 0x2F {
            self.sra_r8(op)
        } else if op <= 0x37 {
            self.swap_r8(op)
        } else if op <= 0x3F {
            self.srl_r8(op)
        } else if op <= 0x7F {
            self.bit_b_r8(op)
        } else if op <= 0xBF {
            self.res_b_r8(op)
        } else {
            self.set_b_r8(op)
        }
    }

    /// Whether the prefix 0xCB and the operation after it can run.
    pub open spec fn execute_cb_ok(self) -> bool {
        self.fetch_ok() && self.skip(1).cb_op_ok(self.imm8())
    }

    /// The operation named by the byte after the prefix 0xCB, and its cycles.
    pub open spec fn execute_cb(self) -> (CpuState, u8) {
        let op = self.imm8();
        (self.skip(1).cb_op(op), cb_cycles(op))
    }
}

/// Decoding and running one instruction.
impl CpuState {
    /// Opcodes 0x00-0x3F: loads of immediates, 16-bit arithmetic, increments, rotates of A,
    /// relative jumps.
    pub open spec fn execute_block0(self, op: u8) -> (CpuState, u8) {
        let c = base_cycles(op);
        match op {
            0x00 => (self, c),
            0x10 => (self.stop(), c),
            0x01 | 0x11 | 0x21 | 0x31 => (self.ld_r16_i16(op), c),
            0x06 | 0x0E | 0x16 | 0x1E | 0x26 | 0x2E | 0x36 | 0x3E => (self.ld_r8_i8(op), c),
            0x08 => (self.ld_a16_sp(), c),
            0x0A | 0x1A => (self.ld_a_r16(op), c),
            0x02 | 0x12 => (self.ld_r16_a(op), c),
            0x22 => (self.ld_hli_a(), c),
            0x2A => (self.ld_a_hli(), c),
            0x32 => (self.ld_hld_a(), c),
            0x3A => (self.ld_a_hld(), c),
            0x03 | 0x13 | 0x23 | 0x33 => (self.inc_r16(op), c),
            0x04 | 0x14 | 0x24 | 0x34 | 0x0C | 0x1C | 0x2C | 0x3C => (self.inc_r8(op), c),
            0x05 | 0x15 | 0x25 | 0x35 | 0x0D | 0x1D | 0x2D | 0x3D => (self.dec_r8(op), c),
            0x09 | 0x19 | 0x29 | 0x39 => (self.add_hl_r16(op), c),
            0x0B | 0x1B | 0x2B | 0x3B => (self.dec_r16(op), c),
            0x07 => (self.rlca(), c),
            0x0F => (self.rrca(), c),
            0x17 => (self.rla(), c),
            0x1F => (self.rra(), c),
            0x27 => (self.daa(), c),
            0x2F => (self.cpl(), c),
            0x37 => (self.scf(), c),
            0x3F => (self.ccf(), c),
            0x18 => (self.jr_s8(), c),
            0x20 => self.jr_cond_s8(Condition::NZ),
            0x28 => self.jr_cond_s8(Condition::Z),
            0x30 => self.jr_cond_s8(Condition::NC),
            _ => self.jr_cond_s8(Condition::C),
        }
    }

    pub open spec fn execute_block0_ok(self, op: u8) -> bool {
        match op {
            0x10 | 0x18 | 0x20 | 0x28 | 0x30 | 0x38 => self.fetch_ok(),
            0x01 | 0x11 | 0x21 | 0x31 => self.fetch16_ok(),
            0x06 | 0x0E | 0x16 | 0x1E | 0x26 | 0x2E | 0x36 | 0x3E => self.fetch_ok() && self.w8_ok(
                reg8_of(op / 8),
            ),
            0x08 => {
                &&& self.fetch16_ok()
                &&& self.imm16() < 0xFFFF
                &&& in_bounds(self.imm16())
                &&& in_bounds((self.imm16() + 1) as u16)
            },
            0x0A | 0x1A => self.mem.read_ok(self.regs.get16(reg16_of(op))),
            0x02 | 0x12 => in_bounds(self.regs.get16(reg16_of(op))),
            0x22 | 0x32 => in_bounds(self.regs.hl()),
            0x2A | 0x3A => self.mem.read_ok(self.regs.hl()),
            0x04 | 0x14 | 0x24 | 0x34 | 0x0C | 0x1C | 0x2C | 0x3C | 0x05 | 0x15 | 0x25 | 0x35
            | 0x0D | 0x1D | 0x2D | 0x3D => self.r8_ok(reg8_of(op / 8)) && self.w8_ok(
                reg8_of(op / 8),
            ),
            _ => true,
        }
    }

    /// Opcodes 0x40-0x7F: register-to-register loads, and HALT at 0x76.
    pub open spec fn execute_block1(self, op: u8) -> (CpuState, u8) {
        if op == 0x76 {
            (self.halt(), base_cycles(op))
        } else {
            (self.ld_r8_r8(op), base_cycles(op))
        }
    }

    pub open spec fn execute_block1_ok(self, op: u8) -> bool {
        op != 0x76 ==> self.r8_ok(reg8_of(op)) && self.w8_ok(reg8_of(op / 8))
    }

    /// Opcodes 0x80-0xBF: arithmetic and logic on A, eight opcodes per operation.
    pub open spec fn execute_block2(self, op: u8) -> (CpuState, u8) {
        let s = if op <= 0x87 {
            self.add_r8(op)
        } else if op <= 0x8F {
            self.adc_r8(op)
        } else if op <= 0x97 {
            self.sub_r8(op)
        } else if op <= 0x9F {
            self.sbc_r8(op)
        } else if op <= 0xA7 {
            self.and_r8(op)
        } else if op <= 0xAF {
            self.xor_r8(op)
        } else if op <= 0xB7 {
            self.or_r8(op)
        } else {
            self.cp_r8(op)
        };
        (s, base_cycles(op))
    }

    pub open spec fn execute_block2_ok(self, op: u8) -> bool {
        self.r8_ok(reg8_of(op))
    }

    /// Opcodes 0xC0-0xFF: jumps, calls, returns, the stack, immediate arithmetic, high-page
    /// loads, interrupt control and the 0xCB prefix.
    pub open spec fn execute_block3(self, op: u8) -> (CpuState, u8) {
        let c = base_cycles(op);
        match op {
            0xCB => self.execute_cb(),
            0xF3 => (self.di(), c),
            0xFB => (self.ei(), c),
            0xE0 => (self.ldh_a8_a(), c),
            0xE2 => (self.ldh_c_a(), c),
            0xEA => (self.ld_a16_a(), c),
            0xF0 => (self.ldh_a_a8(), c),
            0xF2 => (self.ldh_a_c(), c),
            0xF8 => (self.ld_hl_sp_add_s8(), c),
            0xF9 => (self.ld_sp_hl(), c),
            0xFA => (self.ld_a_a16(), c),
            0xC6 => (self.add_i8(), c),
            0xCE => (self.adc_i8(), c),
            0xD6 => (self.sub_i8(), c),
            0xDE => (self.sbc_i8(), c),
            0xE6 => (self.and_i8(), c),
            0xE8 => (self.add_sp_s8(), c),
            0xEE => (self.xor_i8(), c),
            0xF6 => (self.or_i8(), c),
            0xFE => (self.cp_i8(), c),
            0xC0 => self.ret_cond(Condition::NZ),
            0xC2 => self.jp_cond_a16(Condition::NZ),
            0xC3 => (self.jp_a16(), c),
            0xC4 => self.call_cond_a16(Condition::NZ),
            0xC7 => (self.rst_tgt3(0x00), c),
            0xC8 => self.ret_cond(Condition::Z),
            0xC9 => (self.ret(), c),
            0xCA => self.jp_cond_a16(Condition::Z),
            0xCC => self.call_cond_a16(Condition::Z),
            0xCD => (self.call_a16(), c),
            0xCF => (self.rst_tgt3(0x08), c),
            0xD0 => self.ret_cond(Condition::NC),
            0xD2 => self.jp_cond_a16(Condition::NC),
            0xD4 => self.call_cond_a16(Condition::NC),
            0xD7 => (self.rst_tgt3(0x10), c),
            0xD8 => self.ret_cond(Condition::C),
            0xD9 => (self.reti(), c),
            0xDA => self.jp_cond_a16(Condition::C),
            0xDC => self.call_cond_a16(Condition::C),
            0xDF => (self.rst_tgt3(0x18), c),
            0xE7 => (self.rst_tgt3(0x20), c),
            0xE9 => (self.jp_hl(), c),
            0xEF => (self.rst_tgt3(0x28), c),
            0xF7 => (self.rst_tgt3(0x30), c),
            0xFF => (self.rst_tgt3(0x38), c),
            0xC1 | 0xD1 | 0xE1 | 0xF1 => (self.pop_r16(op), c),
            0xC5 | 0xD5 | 0xE5 | 0xF5 => (self.push_r16(op), c),
            _ => (self, c),
        }
    }

    pub open spec fn execute_block3_ok(self, op: u8) -> bool {
        match op {
            0xCB => self.execute_cb_ok(),
            0xE0 => self.fetch_ok() && in_bounds((0xFF00 + self.imm8()) as u16),
            0xE2 => in_bounds((0xFF00 + self.regs.c) as u16),
            0xEA => self.fetch16_ok() && in_bounds(self.imm16()),
            0xF0 => self.fetch_ok() && self.mem.read_ok((0xFF00 + self.imm8()) as u16),
            0xF2 => self.mem.read_ok((0xFF00 + self.regs.c) as u16),
            0xFA => self.fetch16_ok() && self.mem.read_ok(self.imm16()),
            0xC6 | 0xCE | 0xD6 | 0xDE | 0xE6 | 0xE8 | 0xEE | 0xF6 | 0xFE | 0xF8 => self.fetch_ok(),
            0xC0 => self.cond(Condition::NZ) ==> self.pop_ok(),
            0xC8 => self.cond(Condition::Z) ==> self.pop_ok(),
            0xD0 => self.cond(Condition::NC) ==> self.pop_ok(),
            0xD8 => self.cond(Condition::C) ==> self.pop_ok(),
            0xC2 | 0xC3 | 0xCA | 0xD2 | 0xDA => self.fetch16_ok(),
            0xC4 => self.fetch16_ok() && (self.cond(Condition::NZ) ==> self.push_ok()),
            0xCC => self.fetch16_ok() && (self.cond(Condition::Z) ==> self.push_ok()),
            0xD4 => self.fetch16_ok() && (self.cond(Condition::NC) ==> self.push_ok()),
            0xDC => self.fetch16_ok() && (self.cond(Condition::C) ==> self.push_ok()),
            0xCD => self.fetch16_ok() && self.push_ok(),
            0xC7 | 0xCF | 0xD7 | 0xDF | 0xE7 | 0xEF | 0xF7 | 0xFF => self.push_ok(),
            0xC9 | 0xD9 | 0xC1 | 0xD1 | 0xE1 | 0xF1 => self.pop_ok(),
            0xC5 | 0xD5 | 0xE5 | 0xF5 => self.push_ok(),
            _ => implemented(op),
        }
    }

    /// The instruction `op` and its cycles.
    #[verifier::opaque]
    pub open spec fn execute(self, op: u8) -> (CpuState, u8) {
        if op < 0x40 {
            self.execute_block0(op)
        } else if op < 0x80 {
            self.execute_block1(op)
        } else if op < 0xC0 {
            self.execute_block2(op)
        } else {
            self.execute_block3(op)
        }
    }

    /// Whether instruction `op` is defined and all its accesses succeed.
    #[verifier::opaque]
    pub open spec fn execute_ok(self, op: u8) -> bool {
        if op < 0x40 {
            self.execute_block0_ok(op)
        } else if op < 0x80 {
            self.execute_block1_ok(op)
        } else if op < 0xC0 {
            self.execute_block2_ok(op)
        } else {
            self.execute_block3_ok(op)
        }
    }

    /// The state after the opcode at PC is fetched and run and a pending change of the
    /// interrupt enable has counted down.
    pub open spec fn run_instruction(self) -> (CpuState, u8) {
        let (s, c) = self.skip(1).execute(self.imm8());
        (s.tick_ime(), c)
    }

    /// One step: a halted processor only spends 4 ticks; otherwise one instruction runs and
    /// its cycles are counted.
    pub open spec fn step(self) -> (CpuState, u32) {
        if self.halted {
            (CpuState { ticks: (self.ticks + 4) as u32, ..self }, 4)
        } else {
            let (s, c) = self.run_instruction();
            (CpuState { m_cycle: (s.m_cycle + c) as u32, ..s }, c as u32)
        }
    }

    /// Whether a step completes: the opcode can be fetched and is defined, its accesses
    /// succeed, and the cycle counters do not overflow.
    pub open spec fn step_ok(self) -> bool {
        if self.halted {
            self.ticks + 4 <= u32::MAX
        } else {
            &&& self.fetch_ok()
            &&& self.skip(1).execute_ok(self.imm8())
            &&& self.m_cycle + self.run_instruction().1 <= u32::MAX
        }
    }
}

proof fn lemma_cb_keeps_counters(s: CpuState, op: u8)
    ensures
        s.cb_op(op).m_cycle == s.m_cycle,
        s.cb_op(op).ticks == s.ticks,
        s.cb_op(op).logging == s.logging,
        s.cb_op(op).ime == s.ime,
        s.cb_op(op).ime_next == s.ime_next,
        s.cb_op(op).ime_delay == s.ime_delay,
{
}

proof fn lemma_block0_keeps_counters(s: CpuState, op: u8)
    ensures
        s.execute_block0(op).0.m_cycle == s.m_cycle,
        s.execute_block0(op).0.ticks == s.ticks,
        s.execute_block0(op).0.logging == s.logging,
        op != 0xF3 && op != 0xFB && op != 0xD9 ==> s.execute_block0(op).0.ime == s.ime
            && s.execute_block0(op).0.ime_next == s.ime_next && s.execute_block0(op).0.ime_delay
            == s.ime_delay,
{
}

proof fn lemma_block1_keeps_counters(s: CpuState, op: u8)
    ensures
        s.execute_block1(op).0.m_cycle == s.m_cycle,
        s.execute_block1(op).0.ticks == s.ticks,
        s.execute_block1(op).0.logging == s.logging,
        op != 0xF3 && op != 0xFB && op != 0xD9 ==> s.execute_block1(op).0.ime == s.ime
            && s.execute_block1(op).0.ime_next == s.ime_next && s.execute_block1(op).0.ime_delay
            == s.ime_delay,
{
}

proof fn lemma_block2_keeps_counters(s: CpuState, op: u8)
    ensures
        s.execute_block2(op).0.m_cycle == s.m_cycle,
        s.execute_block2(op).0.ticks == s.ticks,
        s.execute_block2(op).0.logging == s.logging,
        op != 0xF3 && op != 0xFB && op != 0xD9 ==> s.execute_block2(op).0.ime == s.ime
            && s.execute_block2(op).0.ime_next == s.ime_next && s.execute_block2(op).0.ime_delay
            == s.ime_delay,
{
}

proof fn lemma_block3_keeps_counters(s: CpuState, op: u8)
    ensures
        s.execute_block3(op).0.m_cycle == s.m_cycle,
        s.execute_block3(op).0.ticks == s.ticks,
        s.execute_block3(op).0.logging == s.logging,
        op != 0xF3 && op != 0xFB && op != 0xD9 ==> s.execute_block3(op).0.ime == s.ime
            && s.execute_block3(op).0.ime_next == s.ime_next && s.execute_block3(op).0.ime_delay
            == s.ime_delay,
{
    lemma_cb_keeps_counters(s.skip(1), s.imm8());
}

/// Counting down the interrupt-enable change touches no counter.
pub proof fn lemma_tick_ime_keeps_counters(s: CpuState)
    ensures
        s.tick_ime().m_cycle == s.m_cycle,
{
}

/// No instruction touches the cycle counters or the trace switch, and only DI, EI and RETI
/// touch the interrupt enable.
pub proof fn lemma_execute_keeps_counters(s: CpuState, op: u8)
    ensures
        s.execute(op).0.m_cycle == s.m_cycle,
        s.execute(op).0.ticks == s.ticks,
        s.execute(op).0.logging == s.logging,
        op != 0xF3 && op != 0xFB && op != 0xD9 ==> s.execute(op).0.ime == s.ime
            && s.execute(op).0.ime_next == s.ime_next && s.execute(op).0.ime_delay
            == s.ime_delay,
{
    reveal(CpuState::execute);
    lemma_block0_keeps_counters(s, op);
    lemma_block1_keeps_counters(s, op);
    lemma_block2_keeps_counters(s, op);
    lemma_block3_keeps_counters(s, op);
}

} // verus!
