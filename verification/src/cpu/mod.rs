use vstd::prelude::*;

use crate::bits::{lemma_byte_fields, lemma_word, lemma_word_bits, sign_extend};
use crate::mmu::MMU;
use opcodes::{cb_m_cycles, cpu_m_cycles};
use registers::FlagsRegister;
use spec::{reg16_of, reg8_of, stack_reg16_of, wrap16, CpuState};

pub mod opcodes;
pub mod registers;
pub mod spec;

mod alu;
mod bitops;
mod check;
mod control;
mod load;
pub mod effects;
pub mod laws;

verus! {

/// The 8-bit operands; `HL` stands for the byte in memory that HL points at.
#[derive(Copy, Clone, Debug)]
pub enum Reg8 {
    B,
    C,
    D,
    E,
    H,
    L,
    HL,
    A,
}

/// The 16-bit register pairs.
#[derive(Copy, Clone)]
pub enum Reg16 {
    BC,
    DE,
    HL,
    AF,
    SP,
    PC,
}

/// The conditions of conditional jumps, calls and returns.
#[derive(Copy, Clone)]
pub enum Condition {
    NZ,
    Z,
    NC,
    C,
}

/// The processor, with the bus it runs on.
pub struct CPU {
    registers: registers::Registers,
    halted: bool,
    ime: bool,
    ime_next: bool,
    ime_delay: u8,
    ticks: u32,
    m_cycle: u32,
    pub mmu: MMU,
    logging: bool,
}

/// The values that one line of the execution trace shows: the registers and the four bytes
/// at PC.
pub struct TraceRecord {
    pub a: u8,
    pub f: u8,
    pub b: u8,
    pub c: u8,
    pub d: u8,
    pub e: u8,
    pub h: u8,
    pub l: u8,
    pub sp: u16,
    pub pc: u16,
    pub pcmem: [u8; 4],
}

impl View for CPU {
    type V = CpuState;

    closed spec fn view(&self) -> CpuState {
        CpuState {
            regs: self.registers,
            halted: self.halted,
            ime: self.ime,
            ime_next: self.ime_next,
            ime_delay: self.ime_delay,
            ticks: self.ticks,
            m_cycle: self.m_cycle,
            logging: self.logging,
            mem: self.mmu@,
        }
    }
}

/// The sign extension of a byte to 16 bits.
fn sign_extend_byte(b: u8) -> (r: u16)
    ensures
        r == sign_extend(b),
{
    proof {
        crate::bits::lemma_byte_masks(b);
    }
    if b < 0x80 {
        b as u16
    } else {
        b as u16 | 0xFF00
    }
}

impl CPU {
    pub fn new(mmu: MMU, logging: bool) -> (r: Self)
        requires
            mmu@.inv(),
        ensures
            r@ == CpuState::initial(mmu@, logging),
    {
        Self {
            registers: registers::Registers::new(),
            halted: false,
            ime: false,
            ime_next: false,
            ime_delay: 0,
            ticks: 0,
            m_cycle: 0,
            mmu,
            logging,
        }
    }

    /// The registers and the four bytes at PC, for one line of the execution trace.
    pub fn log_state(&self) -> (r: TraceRecord)
        requires
            self@.inv(),
            self@.mem.read_ok(self@.regs.pc),
            self@.mem.read_ok(wrap16(self@.regs.pc + 1)),
            self@.mem.read_ok(wrap16(self@.regs.pc + 2)),
            self@.mem.read_ok(wrap16(self@.regs.pc + 3)),
        ensures
            r.a == self@.regs.a,
            r.f == registers::flags_byte(self@.regs.f),
            r.b == self@.regs.b,
            r.c == self@.regs.c,
            r.d == self@.regs.d,
            r.e == self@.regs.e,
            r.h == self@.regs.h,
            r.l == self@.regs.l,
            r.sp == self@.regs.sp,
            r.pc == self@.regs.pc,
            r.pcmem@ == seq![
                self@.mem.read(self@.regs.pc),
                self@.mem.read(wrap16(self@.regs.pc + 1)),
                self@.mem.read(wrap16(self@.regs.pc + 2)),
                self@.mem.read(wrap16(self@.regs.pc + 3)),
            ],
    {
        let regs = &self.registers;
        let f = u8::from(regs.f);
        let pc = regs.pc;
        proof {
            crate::bits::lemma_mod65536(pc + 1);
            crate::bits::lemma_mod65536(pc + 2);
            crate::bits::lemma_mod65536(pc + 3);
        }
        let pcmem0 = self.mmu.read_byte(pc);
        let pcmem1 = self.mmu.read_byte(pc.wrapping_add(1));
        let pcmem2 = self.mmu.read_byte(pc.wrapping_add(2));
        let pcmem3 = self.mmu.read_byte(pc.wrapping_add(3));
        let r = TraceRecord {
            a: regs.a,
            f,
            b: regs.b,
            c: regs.c,
            d: regs.d,
            e: regs.e,
            h: regs.h,
            l: regs.l,
            sp: regs.sp,
            pc: regs.pc,
            pcmem: [pcmem0, pcmem1, pcmem2, pcmem3],
        };
        assert(r.pcmem@ =~= seq![pcmem0, pcmem1, pcmem2, pcmem3]);
        r
    }

    /// Whether the four bytes at PC that a trace line shows can be read.
    pub fn can_log_state(&self) -> (r: bool)
        requires
            self@.inv(),
        ensures
            r == (self@.mem.read_ok(self@.regs.pc) && self@.mem.read_ok(wrap16(self@.regs.pc + 1))
                && self@.mem.read_ok(wrap16(self@.regs.pc + 2)) && self@.mem.read_ok(
                wrap16(self@.regs.pc + 3),
            )),
    {
        let pc = self.registers.pc;
        proof {
            crate::bits::lemma_mod65536(pc + 1);
            crate::bits::lemma_mod65536(pc + 2);
            crate::bits::lemma_mod65536(pc + 3);
        }
        self.mmu.can_read(pc) && self.mmu.can_read(pc.wrapping_add(1)) && self.mmu.can_read(
            pc.wrapping_add(2),
        ) && self.mmu.can_read(pc.wrapping_add(3))
    }

    /// The program counter.
    pub fn pc(&self) -> (r: u16)
        ensures
            r == self@.regs.pc,
    {
        self.registers.pc
    }

    /// Whether the execution trace is wanted.
    pub fn logging(&self) -> (r: bool)
        ensures
            r == self@.logging,
    {
        self.logging
    }

    /// Whether the picture unit on the bus has room to count `cycles` more.
    pub fn can_step_ppu(&self, cycles: u32) -> (r: bool)
        ensures
            r == (self@.mem.ppu.cycle + cycles <= u32::MAX),
    {
        self.mmu.can_step_ppu(cycles)
    }

    /// Advances the picture unit on the bus by `cycles`; the processor's own state is kept.
    pub fn step_ppu(&mut self, cycles: u32)
        requires
            old(self)@.inv(),
            old(self)@.mem.ppu.cycle + cycles <= u32::MAX,
        ensures
            final(self)@ == old(self)@.with_mem(old(self)@.mem.step_ppu(cycles)),
            final(self)@.inv(),
    {
        self.mmu.step_ppu(cycles);
    }

    /// The picture that the picture unit on the bus has drawn so far.
    pub fn get_framebuffer(&self) -> (r: &[u32])
        ensures
            r@ == self@.mem.ppu.framebuffer,
    {
        self.mmu.get_framebuffer()
    }

    /// Runs one instruction, or idles 4 cycles when halted, and returns the cycles spent.
    pub fn step(&mut self) -> (r: u32)
        requires
            old(self)@.inv(),
            old(self)@.step_ok(),
        ensures
            (final(self)@, r) == old(self)@.step(),
            final(self)@.inv(),
    {
        if self.halted {
            self.ticks += 4;  // HALT spends 4 cycles a step
            return 4;
        }
        let ghost s0 = self@;
        let opcode = self.mmu.fetch_byte(&mut self.registers.pc);
        assert(self@ == s0.skip(1));
        let cycles = self.execute(opcode);
        let ghost s2 = self@;
        assert((s2, cycles) == s0.skip(1).execute(s0.imm8()));

        // A pending change of the interrupt enable counts down.
        if self.ime_delay > 0 {
            self.ime_delay -= 1;
            if self.ime_delay == 0 {
                self.ime = self.ime_next;
            }
        }
        assert(self@ == s2.tick_ime());
        assert(s0.run_instruction() == (self@, cycles));
        proof {
            spec::lemma_execute_keeps_counters(s0.skip(1), s0.imm8());
        }
        self.m_cycle += cycles as u32;
        cycles as u32
    }

    /// Runs opcode `opcode`, already fetched, and returns its cycles.
    fn execute(&mut self, opcode: u8) -> (r: u8)
        requires
            old(self)@.inv(),
            old(self)@.execute_ok(opcode),
        ensures
            (final(self)@, r) == old(self)@.execute(opcode),
            final(self)@.inv(),
    {
        proof {
            reveal(CpuState::execute);
            reveal(CpuState::execute_ok);
        }
        if opcode < 0x40 {
            self.execute_block0(opcode)
        } else if opcode < 0x80 {
            self.execute_block1(opcode)
        } else if opcode < 0xC0 {
            self.execute_block2(opcode)
        } else {
            self.execute_block3(opcode)
        }
    }

    fn execute_block0(&mut self, opcode: u8) -> (r: u8)
        requires
            old(self)@.inv(),
            opcode < 0x40,
            old(self)@.execute_block0_ok(opcode),
        ensures
            (final(self)@, r) == old(self)@.execute_block0(opcode),
            final(self)@.inv(),
    {
        let mut cycles = cpu_m_cycles(opcode);
        match opcode {
            // Control
            0x00 => self.nop(),
            0x10 => self.stop(),
            // Loads
            0x01 | 0x11 | 0x21 | 0x31 => self.ld_r16_i16(opcode),
            0x06 | 0x0E | 0x16 | 0x1E | 0x26 | 0x2E | 0x36 | 0x3E => self.ld_r8_i8(opcode),
            0x08 => self.ld_a16_sp(),
            0x0A | 0x1A => self.ld_a_r16(opcode),
            0x02 | 0x12 => self.ld_r16_a(opcode),
            0x22 => self.ld_hli_a(),
            0x2A => self.ld_a_hli(),
            0x32 => self.ld_hld_a(),
            0x3A => self.ld_a_hld(),
            // Arithmetic
            0x03 | 0x13 | 0x23 | 0x33 => self.inc_r16(opcode),
            0x04 | 0x14 | 0x24 | 0x34 | 0x0C | 0x1C | 0x2C | 0x3C => self.inc_r8(opcode),
            0x05 | 0x15 | 0x25 | 0x35 | 0x0D | 0x1D | 0x2D | 0x3D => self.dec_r8(opcode),
            0x09 | 0x19 | 0x29 | 0x39 => self.add_hl_r16(opcode),
            0x0B | 0x1B | 0x2B | 0x3B => self.dec_r16(opcode),
            // Rotates and flags
            0x07 => self.rlca(),
            0x0F => self.rrca(),
            0x17 => self.rla(),
            0x1F => self.rra(),
            0x27 => self.daa(),
            0x2F => self.cpl(),
            0x37 => self.scf(),
            0x3F => self.ccf(),
            // Relative jumps
            0x18 => self.jr_s8(),
            0x20 => cycles = self.jr_cond_s8(Condition::NZ),
            0x28 => cycles = self.jr_cond_s8(Condition::Z),
            0x30 => cycles = self.jr_cond_s8(Condition::NC),
            _ => cycles = self.jr_cond_s8(Condition::C),
        }
        cycles
    }

    fn execute_block1(&mut self, opcode: u8) -> (r: u8)
        requires
            old(self)@.inv(),
            0x40 <= opcode < 0x80,
            old(self)@.execute_block1_ok(opcode),
        ensures
            (final(self)@, r) == old(self)@.execute_block1(opcode),
            final(self)@.inv(),
    {
        let cycles = cpu_m_cycles(opcode);
        if opcode == 0x76 {
            self.halt();
        } else {
            self.ld_r8_r8(opcode);
        }
        cycles
    }

    fn execute_block2(&mut self, opcode: u8) -> (r: u8)
        requires
            old(self)@.inv(),
            0x80 <= opcode < 0xC0,
            old(self)@.execute_block2_ok(opcode),
        ensures
            (final(self)@, r) == old(self)@.execute_block2(opcode),
            final(self)@.inv(),
    {
        let cycles = cpu_m_cycles(opcode);
        if opcode <= 0x87 {
            self.add_r8(opcode);
        } else if opcode <= 0x8F {
            self.adc_r8(opcode);
        } else if opcode <= 0x97 {
            self.sub_r8(opcode);
        } else if opcode <= 0x9F {
            self.sbc_r8(opcode);
        } else if opcode <= 0xA7 {
            self.and_r8(opcode);
        } else if opcode <= 0xAF {
            self.xor_r8(opcode);
        } else if opcode <= 0xB7 {
            self.or_r8(opcode);
        } else {
            self.cp_r8(opcode);
        }
        cycles
    }

    fn execute_block3(&mut self, opcode: u8) -> (r: u8)
        requires
            old(self)@.inv(),
            0xC0 <= opcode,
            old(self)@.execute_block3_ok(opcode),
        ensures
            (final(self)@, r) == old(self)@.execute_block3(opcode),
            final(self)@.inv(),
    {
        let mut cycles = cpu_m_cycles(opcode);
        match opcode {
            0xCB => cycles = self.execute_cb(),
            0xF3 => self.di(),
            0xFB => self.ei(),
            // Loads
            0xE0 => self.ldh_a8_a(),
            0xE2 => self.ldh_c_a(),
            0xEA => self.ld_a16_a(),
            0xF0 => self.ldh_a_a8(),
            0xF2 => self.ldh_a_c(),
            0xF8 => self.ld_hl_sp_add_s8(),
            0xF9 => self.ld_sp_hl(),
            0xFA => self.ld_a_a16(),
            // Arithmetic with an immediate
            0xC6 => self.add_i8(),
            0xCE => self.adc_i8(),
            0xD6 => self.sub_i8(),
            0xDE => self.sbc_i8(),
            0xE6 => self.and_i8(),
            0xE8 => self.add_sp_s8(),
            0xEE => self.xor_i8(),
            0xF6 => self.or_i8(),
            0xFE => self.cp_i8(),
            // Jumps and calls
            0xC0 => cycles = self.ret_cond(Condition::NZ),
            0xC2 => cycles = self.jp_cond_a16(Condition::NZ),
            0xC3 => self.jp_a16(),
            0xC4 => cycles = self.call_cond_a16(Condition::NZ),
            0xC7 => self.rst_tgt3(0x00),
            0xC8 => cycles = self.ret_cond(Condition::Z),
            0xC9 => self.ret(),
            0xCA => cycles = self.jp_cond_a16(Condition::Z),
            0xCC => cycles = self.call_cond_a16(Condition::Z),
            0xCD => self.call_a16(),
            0xCF => self.rst_tgt3(0x08),
            0xD0 => cycles = self.ret_cond(Condition::NC),
            0xD2 => cycles = self.jp_cond_a16(Condition::NC),
            0xD4 => cycles = self.call_cond_a16(Condition::NC),
            0xD7 => self.rst_tgt3(0x10),
            0xD8 => cycles = self.ret_cond(Condition::C),
            0xD9 => self.reti(),
            0xDA => cycles = self.jp_cond_a16(Condition::C),
            0xDC => cycles = self.call_cond_a16(Condition::C),
            0xDF => self.rst_tgt3(0x18),
            0xE7 => self.rst_tgt3(0x20),
            0xE9 => self.jp_hl(),
            0xEF => self.rst_tgt3(0x28),
            0xF7 => self.rst_tgt3(0x30),
            0xFF => self.rst_tgt3(0x38),
            // Stack
            0xC1 | 0xD1 | 0xE1 | 0xF1 => self.pop_r16(opcode),
            0xC5 | 0xD5 | 0xE5 | 0xF5 => self.push_r16(opcode),
            // The undefined opcodes never get here.
            _ => {},
        }
        cycles
    }

    /// Runs the operation named by the byte after the 0xCB prefix and returns its cycles.
    fn execute_cb(&mut self) -> (r: u8)
        requires
            old(self)@.inv(),
            old(self)@.execute_cb_ok(),
        ensures
            (final(self)@, r) == old(self)@.execute_cb(),
            final(self)@.inv(),
    {
        let opcode = self.mmu.fetch_byte(&mut self.registers.pc);
        let cycles = cb_m_cycles(opcode);
        if opcode <= 0x07 {
            self.rlc_r8(opcode);
        } else if opcode <= 0x0F {
            self.rrc_r8(opcode);
        } else if opcode <= 0x17 {
            self.rl_r8(opcode);
        } else if opcode <= 0x1F {
            self.rr_r8(opcode);
        } else if opcode <= 0x27 {
            self.sla_r8(opcode);
        } else if opcode <= 0x2F {
            self.sra_r8(opcode);
        } else if opcode <= 0x37 {
            self.swap_r8(opcode);
        } else if opcode <= 0x3F {
            self.srl_r8(opcode);
        } else if opcode <= 0x7F {
            self.bit_b_r8(opcode);
        } else if opcode <= 0xBF {
            self.res_b_r8(opcode);
        } else {
            self.set_b_r8(opcode);
        }
        cycles
    }

    /// Reads an 8-bit operand; for `HL`, the byte that HL points at.
    fn read_r8(&self, reg: Reg8) -> (r: u8)
        requires
            self@.inv(),
            self@.r8_ok(reg),
        ensures
            r == self@.r8(reg),
    {
        match reg {
            Reg8::B => self.registers.b,
            Reg8::C => self.registers.c,
            Reg8::D => self.registers.d,
            Reg8::E => self.registers.e,
            Reg8::H => self.registers.h,
            Reg8::L => self.registers.l,
            Reg8::A => self.registers.a,
            Reg8::HL => self.mmu.read_byte(self.read_r16(Reg16::HL)),
        }
    }

    /// Writes an 8-bit operand; for `HL`, the byte that HL points at.
    fn write_r8(&mut self, reg: Reg8, value: u8)
        requires
            old(self)@.inv(),
            old(self)@.w8_ok(reg),
        ensures
            final(self)@ == old(self)@.set_r8(reg, value),
            final(self)@.inv(),
    {
        match reg {
            Reg8::B => self.registers.b = value,
            Reg8::C => self.registers.c = value,
            Reg8::D => self.registers.d = value,
            Reg8::E => self.registers.e = value,
            Reg8::H => self.registers.h = value,
            Reg8::L => self.registers.l = value,
            Reg8::A => self.registers.a = value,
            Reg8::HL => {
                let addr = self.read_r16(Reg16::HL);
                self.mmu.write_byte(addr, value);
            },
        }
    }

    /// Reads a 16-bit register pair.
    fn read_r16(&self, reg: Reg16) -> (r: u16)
        ensures
            r == self@.regs.get16(reg),
    {
        proof {
            lemma_word_bits();
        }
        match reg {
            Reg16::BC => ((self.registers.b as u16) << 8) | self.registers.c as u16,
            Reg16::DE => ((self.registers.d as u16) << 8) | self.registers.e as u16,
            Reg16::HL => ((self.registers.h as u16) << 8) | self.registers.l as u16,
            Reg16::AF => ((self.registers.a as u16) << 8) | (u8::from(self.registers.f) as u16),
            Reg16::SP => self.registers.sp,
            Reg16::PC => self.registers.pc,
        }
    }

    /// Writes a 16-bit register pair; for AF the low nibble of the value is dropped.
    fn write_r16(&mut self, reg: Reg16, value: u16)
        ensures
            final(self)@ == old(self)@.set16(reg, value),
    {
        proof {
            lemma_word(value);
        }
        match reg {
            Reg16::BC => {
                self.registers.b = (value >> 8) as u8;
                self.registers.c = value as u8;
            },
            Reg16::DE => {
                self.registers.d = (value >> 8) as u8;
                self.registers.e = value as u8;
            },
            Reg16::HL => {
                self.registers.h = (value >> 8) as u8;
                self.registers.l = value as u8;
            },
            Reg16::AF => {
                self.registers.a = (value >> 8) as u8;
                proof {
                    crate::bits::lemma_byte_masks(value as u8);
                }
                self.registers.f = FlagsRegister::unpack(value as u8 & 0xF0);
            },
            Reg16::SP => self.registers.sp = value,
            Reg16::PC => self.registers.pc = value,
        }
    }

    /// The 8-bit operand that the low three bits of `code` name.
    fn decode_reg(&self, code: u8) -> (r: Reg8)
        ensures
            r == reg8_of(code),
    {
        proof {
            lemma_byte_fields(code);
        }
        match code & 0x07 {
            0 => Reg8::B,
            1 => Reg8::C,
            2 => Reg8::D,
            3 => Reg8::E,
            4 => Reg8::H,
            5 => Reg8::L,
            6 => Reg8::HL,
            _ => Reg8::A,
        }
    }

    /// The register pair that bits 4-5 of `opcode` name.
    fn decode_r16(&self, opcode: u8) -> (r: Reg16)
        ensures
            r == reg16_of(opcode),
    {
        proof {
            lemma_byte_fields(opcode);
        }
        match (opcode >> 4) & 0b11 {
            0 => Reg16::BC,
            1 => Reg16::DE,
            2 => Reg16::HL,
            _ => Reg16::SP,
        }
    }

    /// The register pair that bits 4-5 of a PUSH or POP opcode name.
    fn decode_stack_r16(&self, opcode: u8) -> (r: Reg16)
        ensures
            r == stack_reg16_of(opcode),
    {
        proof {
            lemma_byte_fields(opcode);
        }
        match (opcode >> 4) & 0b11 {
            0 => Reg16::BC,
            1 => Reg16::DE,
            2 => Reg16::HL,
            _ => Reg16::AF,
        }
    }

    /// Pops a little-endian word off the stack.
    fn pop_u16(&mut self) -> (r: u16)
        requires
            old(self)@.inv(),
            old(self)@.pop_ok(),
        ensures
            r == old(self)@.popped(),
            final(self)@ == old(self)@.after_pop(),
    {
        proof {
            lemma_word_bits();
        }
        let lo = self.mmu.read_byte(self.registers.sp) as u16;
        self.registers.sp = self.registers.sp.wrapping_add(1);
        let hi = self.mmu.read_byte(self.registers.sp) as u16;
        self.registers.sp = self.registers.sp.wrapping_add(1);
        (hi << 8) | lo
    }

    /// Pushes a word onto the stack: high byte first, at SP-1, then the low byte at SP-2.
    fn push_u16(&mut self, value: u16)
        requires
            old(self)@.inv(),
            old(self)@.push_ok(),
        ensures
            final(self)@ == old(self)@.push(value),
            final(self)@.inv(),
    {
        proof {
            lemma_word(value);
        }
        let hi = (value >> 8) as u8;
        let lo = value as u8;
        self.registers.sp = self.registers.sp.wrapping_sub(1);
        self.mmu.write_byte(self.registers.sp, hi);
        self.registers.sp = self.registers.sp.wrapping_sub(1);
        self.mmu.write_byte(self.registers.sp, lo);
    }

    /// Whether condition `condition` holds.
    fn check_condition(&self, condition: Condition) -> (r: bool)
        ensures
            r == self@.cond(condition),
    {
        match condition {
            Condition::NZ => !self.registers.f.zero,
            Condition::Z => self.registers.f.zero,
            Condition::NC => !self.registers.f.carry,
            Condition::C => self.registers.f.carry,
        }
    }
}

} // verus!
