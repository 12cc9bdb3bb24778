//! Loads.
use vstd::prelude::*;

use super::spec::{reg16_of, reg8_of, wrap16};
use super::{sign_extend_byte, Reg16, CPU};
use crate::bits::{lemma_byte_masks, lemma_word, sign_extend};
use crate::mmu::in_bounds;

verus! {

impl CPU {
    /// LD A,(a16).
    pub(crate) fn ld_a_a16(&mut self)
        requires
            old(self)@.inv(),
            old(self)@.fetch16_ok(),
            old(self)@.mem.read_ok(old(self)@.imm16()),
        ensures
            final(self)@ == old(self)@.ld_a_a16(),
    {
        let addr = self.mmu.fetch_word(&mut self.registers.pc);
        let value = self.mmu.read_byte(addr);
        self.registers.a = value;
    }

    /// LD A,(HL-).
    pub(crate) fn ld_a_hld(&mut self)
        requires
            old(self)@.inv(),
            old(self)@.mem.read_ok(old(self)@.regs.hl()),
        ensures
            final(self)@ == old(self)@.ld_a_hld(),
    {
        let hl = self.read_r16(Reg16::HL);
        let value = self.mmu.read_byte(hl);
        self.registers.a = value;
        self.write_r16(Reg16::HL, hl.wrapping_sub(1));
    }

    /// LD A,(HL+).
    pub(crate) fn ld_a_hli(&mut self)
        requires
            old(self)@.inv(),
            old(self)@.mem.read_ok(old(self)@.regs.hl()),
        ensures
            final(self)@ == old(self)@.ld_a_hli(),
    {
        let hl = self.read_r16(Reg16::HL);
        let value = self.mmu.read_byte(hl);
        self.registers.a = value;
        self.write_r16(Reg16::HL, hl.wrapping_add(1));
    }

    /// LD A,(rr).
    pub(crate) fn ld_a_r16(&mut self, opcode: u8)
        requires
            old(self)@.inv(),
            old(self)@.mem.read_ok(old(self)@.regs.get16(reg16_of(opcode))),
        ensures
            final(self)@ == old(self)@.ld_a_r16(opcode),
    {
        let reg = self.decode_r16(opcode);
        let addr = self.read_r16(reg);
        let value = self.mmu.read_byte(addr);
        self.registers.a = value;
    }

    /// LD (HL-),A.
    pub(crate) fn ld_hld_a(&mut self)
        requires
            old(self)@.inv(),
            in_bounds(old(self)@.regs.hl()),
        ensures
            final(self)@ == old(self)@.ld_hld_a(),
            final(self)@.inv(),
    {
        let hl = self.read_r16(Reg16::HL);
        let a = self.registers.a;
        self.mmu.write_byte(hl, a);
        self.write_r16(Reg16::HL, hl.wrapping_sub(1));
    }

    /// LD (HL+),A.
    pub(crate) fn ld_hli_a(&mut self)
        requires
            old(self)@.inv(),
            in_bounds(old(self)@.regs.hl()),
        ensures
            final(self)@ == old(self)@.ld_hli_a(),
            final(self)@.inv(),
    {
        let hl = self.read_r16(Reg16::HL);
        let a = self.registers.a;
        self.mmu.write_byte(hl, a);
        self.write_r16(Reg16::HL, hl.wrapping_add(1));
    }

    /// LD HL,SP+e: e is a signed byte.
    pub(crate) fn ld_hl_sp_add_s8(&mut self)
        requires
            old(self)@.inv(),
            old(self)@.fetch_ok(),
        ensures
            final(self)@ == old(self)@.ld_hl_sp_add_s8(),
    {
        let imm = self.mmu.fetch_byte(&mut self.registers.pc);
        let sp = self.registers.sp;
        let offset = sign_extend_byte(imm);
        proof {
            crate::bits::lemma_mod65536(sp + offset);
        }
        let result = sp.wrapping_add(offset);
        assert(result == wrap16(sp + sign_extend(imm)));
        self.write_r16(Reg16::HL, result);
        let ghost written = self@;
        let sp_low = sp & 0xFF;
        proof {
            lemma_word(sp);
            crate::bits::lemma_byte_fields(imm);
        }

        self.registers.f.zero = false;
        self.registers.f.subtract = false;
        self.registers.f.half_carry = ((sp_low & 0xF) as u8) + (imm & 0xF) > 0xF;
        self.registers.f.carry = sp_low + (imm as u16) > 0xFF;
        assert(self@ == written.with_flags(
            super::spec::flags(false, false, sp % 16 + imm % 16 > 15, sp % 256 + imm > 255),
        ));
    }

    /// LD (a16),SP: low byte first.
    pub(crate) fn ld_a16_sp(&mut self)
        requires
            old(self)@.inv(),
            old(self)@.fetch16_ok(),
            old(self)@.imm16() < 0xFFFF,
            in_bounds(old(self)@.imm16()),
            in_bounds((old(self)@.imm16() + 1) as u16),
        ensures
            final(self)@ == old(self)@.ld_a16_sp(),
            final(self)@.inv(),
    {
        let addr = self.mmu.fetch_word(&mut self.registers.pc);
        let sp = self.registers.sp;
        proof {
            lemma_word(sp);
        }
        self.mmu.write_byte(addr, (sp & 0xFF) as u8);
        self.mmu.write_byte(addr + 1, (sp >> 8) as u8);
    }

    /// LD (a16),A.
    pub(crate) fn ld_a16_a(&mut self)
        requires
            old(self)@.inv(),
            old(self)@.fetch16_ok(),
            in_bounds(old(self)@.imm16()),
        ensures
            final(self)@ == old(self)@.ld_a16_a(),
            final(self)@.inv(),
    {
        let addr = self.mmu.fetch_word(&mut self.registers.pc);
        let a = self.registers.a;
        self.mmu.write_byte(addr, a);
    }

    /// LD (rr),A.
    pub(crate) fn ld_r16_a(&mut self, opcode: u8)
        requires
            old(self)@.inv(),
            in_bounds(old(self)@.regs.get16(reg16_of(opcode))),
        ensures
            final(self)@ == old(self)@.ld_r16_a(opcode),
            final(self)@.inv(),
    {
        let a = self.registers.a;
        let reg = self.decode_r16(opcode);
        let addr = self.read_r16(reg);
        self.mmu.write_byte(addr, a);
    }

    /// LD rr,d16.
    pub(crate) fn ld_r16_i16(&mut self, opcode: u8)
        requires
            old(self)@.inv(),
            old(self)@.fetch16_ok(),
        ensures
            final(self)@ == old(self)@.ld_r16_i16(opcode),
    {
        let reg = self.decode_r16(opcode);
        let value = self.mmu.fetch_word(&mut self.registers.pc);
        self.write_r16(reg, value);
    }

    /// LD r,d8.
    pub(crate) fn ld_r8_i8(&mut self, opcode: u8)
        requires
            old(self)@.inv(),
            old(self)@.fetch_ok(),
            old(self)@.w8_ok(reg8_of(opcode / 8)),
        ensures
            final(self)@ == old(self)@.ld_r8_i8(opcode),
            final(self)@.inv(),
    {
        let value = self.mmu.fetch_byte(&mut self.registers.pc);
        proof {
            crate::bits::lemma_byte_shr3(opcode);
        }
        let reg = self.decode_reg(opcode >> 3);
        self.write_r8(reg, value);
    }

    /// LD r,r': the source in bits 0-2, the destination in bits 3-5.
    pub(crate) fn ld_r8_r8(&mut self, opcode: u8)
        requires
            old(self)@.inv(),
            old(self)@.r8_ok(reg8_of(opcode)),
            old(self)@.w8_ok(reg8_of(opcode / 8)),
        ensures
            final(self)@ == old(self)@.ld_r8_r8(opcode),
            final(self)@.inv(),
    {
        proof {
            crate::bits::lemma_byte_shr3(opcode);
        }
        let src = self.decode_reg(opcode);
        let dst = self.decode_reg(opcode >> 3);
        let value = self.read_r8(src);
        self.write_r8(dst, value);
    }

    /// LD SP,HL.
    pub(crate) fn ld_sp_hl(&mut self)
        ensures
            final(self)@ == old(self)@.ld_sp_hl(),
    {
        let hl = self.read_r16(Reg16::HL);
        self.write_r16(Reg16::SP, hl);
    }

    /// LDH A,(a8): reads 0xFF00 + a8.
    pub(crate) fn ldh_a_a8(&mut self)
        requires
            old(self)@.inv(),
            old(self)@.fetch_ok(),
            old(self)@.mem.read_ok((0xFF00 + old(self)@.imm8()) as u16),
        ensures
            final(self)@ == old(self)@.ldh_a_a8(),
    {
        let offset = self.mmu.fetch_byte(&mut self.registers.pc);
        proof {
            lemma_byte_masks(offset);
        }
        let addr = 0xFF00 | offset as u16;
        let value = self.mmu.read_byte(addr);
        self.registers.a = value;
    }

    /// LDH A,(C): reads 0xFF00 + C.
    pub(crate) fn ldh_a_c(&mut self)
        requires
            old(self)@.inv(),
            old(self)@.mem.read_ok((0xFF00 + old(self)@.regs.c) as u16),
        ensures
            final(self)@ == old(self)@.ldh_a_c(),
    {
        proof {
            lemma_byte_masks(self.registers.c);
        }
        let addr = 0xFF00 | self.registers.c as u16;
        let value = self.mmu.read_byte(addr);
        self.registers.a = value;
    }

    /// LDH (a8),A: writes 0xFF00 + a8.
    pub(crate) fn ldh_a8_a(&mut self)
        requires
            old(self)@.inv(),
            old(self)@.fetch_ok(),
            in_bounds((0xFF00 + old(self)@.imm8()) as u16),
        ensures
            final(self)@ == old(self)@.ldh_a8_a(),
            final(self)@.inv(),
    {
        let offset = self.mmu.fetch_byte(&mut self.registers.pc);
        proof {
            lemma_byte_masks(offset);
        }
        let addr = 0xFF00 | offset as u16;
        self.mmu.write_byte(addr, self.registers.a);
    }

    /// LDH (C),A: writes 0xFF00 + C.
    pub(crate) fn ldh_c_a(&mut self)
        requires
            old(self)@.inv(),
            in_bounds((0xFF00 + old(self)@.regs.c) as u16),
        ensures
            final(self)@ == old(self)@.ldh_c_a(),
            final(self)@.inv(),
    {
        proof {
            lemma_byte_masks(self.registers.c);
        }
        let addr = 0xFF00 | self.registers.c as u16;
        self.mmu.write_byte(addr, self.registers.a);
    }
}

} // verus!
