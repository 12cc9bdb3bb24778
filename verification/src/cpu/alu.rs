//! Arithmetic and logic.
use vstd::prelude::*;

use super::spec::reg8_of;
use super::{sign_extend_byte, Reg16, CPU};
use crate::bits::{lemma_byte_fields, lemma_mod256, lemma_offset_carries, lemma_word};

verus! {

impl CPU {
    /// A + value + C.
    fn adc_a(&mut self, value: u8)
        ensures
            final(self)@ == old(self)@.with_regs(old(self)@.regs.adc_a(value)),
    {
        proof {
            lemma_byte_fields(self.registers.a);
            lemma_byte_fields(value);
        }
        let a = self.registers.a;
        let carry: u8 = if self.registers.f.carry {
            1
        } else {
            0
        };
        proof {
            lemma_mod256(a + value + carry);
        }
        let result = a.wrapping_add(value).wrapping_add(carry);
        self.registers.a = result;

        self.registers.f.zero = result == 0;
        self.registers.f.subtract = false;
        self.registers.f.half_carry = (a & 0xF) + (value & 0xF) + carry > 0xF;
        self.registers.f.carry = (a as u16) + (value as u16) + (carry as u16) > 0xFF;
    }

    /// ADC A,d8.
    pub(crate) fn adc_i8(&mut self)
        requires
            old(self)@.inv(),
            old(self)@.fetch_ok(),
        ensures
            final(self)@ == old(self)@.adc_i8(),
    {
        let value = self.mmu.fetch_byte(&mut self.registers.pc);
        self.adc_a(value);
    }

    /// ADC A,r.
    pub(crate) fn adc_r8(&mut self, opcode: u8)
        requires
            old(self)@.inv(),
            old(self)@.r8_ok(reg8_of(opcode)),
        ensures
            final(self)@ == old(self)@.adc_r8(opcode),
    {
        let value = self.read_r8(self.decode_reg(opcode));
        self.adc_a(value);
    }

    /// A + value.
    fn add_a(&mut self, value: u8)
        ensures
            final(self)@ == old(self)@.with_regs(old(self)@.regs.add_a(value)),
    {
        proof {
            lemma_byte_fields(self.registers.a);
            lemma_byte_fields(value);
        }
        let a = self.registers.a;
        proof {
            lemma_mod256(a + value);
        }
        let sum = a.wrapping_add(value);
        let overflow = (a as u16) + (value as u16) > 0xFF;
        self.registers.a = sum;

        self.registers.f.zero = sum == 0;
        self.registers.f.subtract = false;
        self.registers.f.half_carry = (a & 0xF) + (value & 0xF) > 0xF;
        self.registers.f.carry = overflow;
    }

    /// ADD HL,rr.
    pub(crate) fn add_hl_r16(&mut self, opcode: u8)
        ensures
            final(self)@ == old(self)@.add_hl_r16(opcode),
    {
        let hl = self.read_r16(Reg16::HL);
        let reg = self.decode_r16(opcode);
        let value = self.read_r16(reg);
        proof {
            lemma_word(hl);
            lemma_word(value);
        }
        let result = hl.wrapping_add(value);
        let carry = (hl as u32) + (value as u32) > 0xFFFF;
        self.write_r16(Reg16::HL, result);

        self.registers.f.subtract = false;
        self.registers.f.half_carry = (hl & 0xFFF) + (value & 0xFFF) > 0xFFF;
        self.registers.f.carry = carry;
    }

    /// ADD A,d8.
    pub(crate) fn add_i8(&mut self)
        requires
            old(self)@.inv(),
            old(self)@.fetch_ok(),
        ensures
            final(self)@ == old(self)@.add_i8(),
    {
        let value = self.mmu.fetch_byte(&mut self.registers.pc);
        self.add_a(value);
    }

    /// ADD A,r.
    pub(crate) fn add_r8(&mut self, opcode: u8)
        requires
            old(self)@.inv(),
            old(self)@.r8_ok(reg8_of(opcode)),
        ensures
            final(self)@ == old(self)@.add_r8(opcode),
    {
        let value = self.read_r8(self.decode_reg(opcode));
        self.add_a(value);
    }

    /// ADD SP,e: e is a signed byte.
    pub(crate) fn add_sp_s8(&mut self)
        requires
            old(self)@.inv(),
            old(self)@.fetch_ok(),
        ensures
            final(self)@ == old(self)@.add_sp_s8(),
    {
        let sp = self.registers.sp;
        let imm = self.mmu.fetch_byte(&mut self.registers.pc);
        let offset = sign_extend_byte(imm);
        proof {
            crate::bits::lemma_byte_masks(imm);
        }
        let result = sp.wrapping_add(offset);
        self.registers.sp = result;
        proof {
            lemma_offset_carries(sp, imm, offset, result);
        }

        self.registers.f.zero = false;
        self.registers.f.subtract = false;
        self.registers.f.half_carry = ((sp ^ offset ^ result) & 0x10) != 0;
        self.registers.f.carry = ((sp ^ offset ^ result) & 0x100) != 0;
    }

    /// A & value.
    fn and_a(&mut self, value: u8)
        ensures
            final(self)@ == old(self)@.with_regs(old(self)@.regs.and_a(value)),
    {
        let and = self.registers.a & value;
        self.registers.a = and;

        self.registers.f.zero = and == 0;
        self.registers.f.subtract = false;
        self.registers.f.half_carry = true;
        self.registers.f.carry = false;
    }

    /// AND d8.
    pub(crate) fn and_i8(&mut self)
        requires
            old(self)@.inv(),
            old(self)@.fetch_ok(),
        ensures
            final(self)@ == old(self)@.and_i8(),
    {
        let value = self.mmu.fetch_byte(&mut self.registers.pc);
        self.and_a(value);
    }

    /// AND r.
    pub(crate) fn and_r8(&mut self, opcode: u8)
        requires
            old(self)@.inv(),
            old(self)@.r8_ok(reg8_of(opcode)),
        ensures
            final(self)@ == old(self)@.and_r8(opcode),
    {
        let value = self.read_r8(self.decode_reg(opcode));
        self.and_a(value);
    }

    /// Compares A with value: the flags of A - value, A kept.
    fn cp_a(&mut self, value: u8)
        ensures
            final(self)@ == old(self)@.with_regs(old(self)@.regs.cp_a(value)),
    {
        proof {
            lemma_byte_fields(self.registers.a);
            lemma_byte_fields(value);
        }
        let a = self.registers.a;
        self.registers.f.zero = a == value;
        self.registers.f.subtract = true;
        self.registers.f.half_carry = (a & 0xF) < (value & 0xF);
        self.registers.f.carry = a < value;
    }

    /// CP d8.
    pub(crate) fn cp_i8(&mut self)
        requires
            old(self)@.inv(),
            old(self)@.fetch_ok(),
        ensures
            final(self)@ == old(self)@.cp_i8(),
    {
        let value = self.mmu.fetch_byte(&mut self.registers.pc);
        self.cp_a(value);
    }

    /// CP r.
    pub(crate) fn cp_r8(&mut self, opcode: u8)
        requires
            old(self)@.inv(),
            old(self)@.r8_ok(reg8_of(opcode)),
        ensures
            final(self)@ == old(self)@.cp_r8(opcode),
    {
        let value = self.read_r8(self.decode_reg(opcode));
        self.cp_a(value);
    }

    /// DEC rr; no flag changes.
    pub(crate) fn dec_r16(&mut self, opcode: u8)
        ensures
            final(self)@ == old(self)@.dec_r16(opcode),
    {
        let reg = self.decode_r16(opcode);
        let value = self.read_r16(reg);
        self.write_r16(reg, value.wrapping_sub(1));
    }

    /// DEC r.
    pub(crate) fn dec_r8(&mut self, opcode: u8)
        requires
            old(self)@.inv(),
            old(self)@.r8_ok(reg8_of(opcode / 8)),
            old(self)@.w8_ok(reg8_of(opcode / 8)),
        ensures
            final(self)@ == old(self)@.dec_r8(opcode),
            final(self)@.inv(),
    {
        proof {
            lemma_byte_fields(opcode);
            lemma_byte_fields(opcode / 8);
        }
        let reg = self.decode_reg((opcode >> 3) & 0x07);
        assert(reg == reg8_of(opcode / 8));
        let value = self.read_r8(reg);
        proof {
            lemma_byte_fields(value);
            lemma_mod256(value - 1);
        }
        let result = value.wrapping_sub(1);
        self.write_r8(reg, result);
        let ghost written = self@;

        self.registers.f.zero = result == 0;
        self.registers.f.subtract = true;
        self.registers.f.half_carry = (value & 0x0F) == 0;
        assert(self@ == written.with_flags(
            super::spec::flags(result == 0, true, value % 16 == 0, written.regs.f.carry),
        ));
    }

    /// INC rr; no flag changes.
    pub(crate) fn inc_r16(&mut self, opcode: u8)
        ensures
            final(self)@ == old(self)@.inc_r16(opcode),
    {
        let reg = self.decode_r16(opcode);
        let value = self.read_r16(reg);
        self.write_r16(reg, value.wrapping_add(1));
    }

    /// INC r.
    pub(crate) fn inc_r8(&mut self, opcode: u8)
        requires
            old(self)@.inv(),
            old(self)@.r8_ok(reg8_of(opcode / 8)),
            old(self)@.w8_ok(reg8_of(opcode / 8)),
        ensures
            final(self)@ == old(self)@.inc_r8(opcode),
            final(self)@.inv(),
    {
        proof {
            lemma_byte_fields(opcode);
            lemma_byte_fields(opcode / 8);
        }
        let reg = self.decode_reg((opcode >> 3) & 0x07);
        assert(reg == reg8_of(opcode / 8));
        let value = self.read_r8(reg);
        proof {
            lemma_byte_fields(value);
            lemma_mod256(value + 1);
        }
        let result = value.wrapping_add(1);
        self.write_r8(reg, result);
        let ghost written = self@;

        self.registers.f.zero = result == 0;
        self.registers.f.subtract = false;
        self.registers.f.half_carry = (value & 0x0F) + 1 > 0x0F;
        assert(self@ == written.with_flags(
            super::spec::flags(result == 0, false, value % 16 == 15, written.regs.f.carry),
        ));
    }

    /// A | value.
    fn or_a(&mut self, value: u8)
        ensures
            final(self)@ == old(self)@.with_regs(old(self)@.regs.or_a(value)),
    {
        let or = self.registers.a | value;
        self.registers.a = or;

        self.registers.f.zero = or == 0;
        self.registers.f.subtract = false;
        self.registers.f.half_carry = false;
        self.registers.f.carry = false;
    }

    /// OR d8.
    pub(crate) fn or_i8(&mut self)
        requires
            old(self)@.inv(),
            old(self)@.fetch_ok(),
        ensures
            final(self)@ == old(self)@.or_i8(),
    {
        let value = self.mmu.fetch_byte(&mut self.registers.pc);
        self.or_a(value);
    }

    /// OR r.
    pub(crate) fn or_r8(&mut self, opcode: u8)
        requires
            old(self)@.inv(),
            old(self)@.r8_ok(reg8_of(opcode)),
        ensures
            final(self)@ == old(self)@.or_r8(opcode),
    {
        let value = self.read_r8(self.decode_reg(opcode));
        self.or_a(value);
    }

    /// A - value - C.
    fn sbc_a(&mut self, value: u8)
        ensures
            final(self)@ == old(self)@.with_regs(old(self)@.regs.sbc_a(value)),
    {
        proof {
            lemma_byte_fields(self.registers.a);
            lemma_byte_fields(value);
        }
        let a = self.registers.a;
        let carry: u8 = if self.registers.f.carry {
            1
        } else {
            0
        };
        proof {
            lemma_mod256(a - value - carry);
        }
        let result = a.wrapping_sub(value).wrapping_sub(carry);
        self.registers.a = result;

        self.registers.f.zero = result == 0;
        self.registers.f.subtract = true;
        self.registers.f.half_carry = (a & 0xF) < ((value & 0xF) + carry);
        self.registers.f.carry = (a as u16) < (value as u16) + (carry as u16);
    }

    /// SBC A,d8.
    pub(crate) fn sbc_i8(&mut self)
        requires
            old(self)@.inv(),
            old(self)@.fetch_ok(),
        ensures
            final(self)@ == old(self)@.sbc_i8(),
    {
        let value = self.mmu.fetch_byte(&mut self.registers.pc);
        self.sbc_a(value);
    }

    /// SBC A,r.
    pub(crate) fn sbc_r8(&mut self, opcode: u8)
        requires
            old(self)@.inv(),
            old(self)@.r8_ok(reg8_of(opcode)),
        ensures
            final(self)@ == old(self)@.sbc_r8(opcode),
    {
        let value = self.read_r8(self.decode_reg(opcode));
        self.sbc_a(value);
    }

    /// A - value.
    fn sub_a(&mut self, value: u8)
        ensures
            final(self)@ == old(self)@.with_regs(old(self)@.regs.sub_a(value)),
    {
        proof {
            lemma_byte_fields(self.registers.a);
            lemma_byte_fields(value);
        }
        let a = self.registers.a;
        proof {
            lemma_mod256(a - value);
        }
        let dif = a.wrapping_sub(value);
        let borrow = a < value;
        self.registers.a = dif;

        self.registers.f.zero = dif == 0;
        self.registers.f.subtract = true;
        self.registers.f.half_carry = (a & 0xF) < (value & 0xF);
        self.registers.f.carry = borrow;
    }

    /// SUB d8.
    pub(crate) fn sub_i8(&mut self)
        requires
            old(self)@.inv(),
            old(self)@.fetch_ok(),
        ensures
            final(self)@ == old(self)@.sub_i8(),
    {
        let value = self.mmu.fetch_byte(&mut self.registers.pc);
        self.sub_a(value);
    }

    /// SUB r.
    pub(crate) fn sub_r8(&mut self, opcode: u8)
        requires
            old(self)@.inv(),
            old(self)@.r8_ok(reg8_of(opcode)),
        ensures
            final(self)@ == old(self)@.sub_r8(opcode),
    {
        let value = self.read_r8(self.decode_reg(opcode));
        self.sub_a(value);
    }

    /// A ^ value.
    fn xor_a(&mut self, value: u8)
        ensures
            final(self)@ == old(self)@.with_regs(old(self)@.regs.xor_a(value)),
    {
        let xor = self.registers.a ^ value;
        self.registers.a = xor;

        self.registers.f.zero = xor == 0;
        self.registers.f.subtract = false;
        self.registers.f.half_carry = false;
        self.registers.f.carry = false;
    }

    /// XOR d8.
    pub(crate) fn xor_i8(&mut self)
        requires
            old(self)@.inv(),
            old(self)@.fetch_ok(),
        ensures
            final(self)@ == old(self)@.xor_i8(),
    {
        let value = self.mmu.fetch_byte(&mut self.registers.pc);
        self.xor_a(value);
    }

    /// XOR r.
    pub(crate) fn xor_r8(&mut self, opcode: u8)
        requires
            old(self)@.inv(),
            old(self)@.r8_ok(reg8_of(opcode)),
        ensures
            final(self)@ == old(self)@.xor_r8(opcode),
    {
        let value = self.read_r8(self.decode_reg(opcode));
        self.xor_a(value);
    }
}

} // verus!
