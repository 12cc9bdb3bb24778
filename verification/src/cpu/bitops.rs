//! Rotates, shifts, single-bit operations and flag operations.
use vstd::prelude::*;

use super::spec::reg8_of;
use super::CPU;
use crate::bits::{
    lemma_byte_fields, lemma_byte_shl, lemma_byte_shl_or_0, lemma_byte_shl_or_1, lemma_byte_shr,
    lemma_byte_shr_or_0, lemma_byte_shr_or_80, lemma_byte_sra, lemma_byte_swap, lemma_mod256,
};

verus! {

/// Or-ing the two decimal corrections 0x06 and 0x60 into an adjustment that holds some of
/// them.
proof fn lemma_daa_adjust(x: u8)
    by (bit_vector)
    requires
        x == 0 || x == 0x06 || x == 0x60 || x == 0x66,
    ensures
        x | 0x06 == (if x >= 0x60 {
            0x66u8
        } else {
            0x06u8
        }),
        x | 0x60 == (if x % 16 == 6 {
            0x66u8
        } else {
            0x60u8
        }),
{
}

impl CPU {
    /// BIT b,r.
    pub(crate) fn bit_b_r8(&mut self, opcode: u8)
        requires
            old(self)@.inv(),
            old(self)@.r8_ok(reg8_of(opcode)),
        ensures
            final(self)@ == old(self)@.bit_b_r8(opcode),
    {
        proof {
            lemma_byte_fields(opcode);
        }
        let bit = (opcode >> 3) & 0b111;
        let reg = self.decode_reg(opcode);
        let value = self.read_r8(reg);

        self.registers.f.zero = (value & (1 << bit)) == 0;
        self.registers.f.subtract = false;
        self.registers.f.half_carry = true;
    }

    /// CCF: flips the carry.
    pub(crate) fn ccf(&mut self)
        ensures
            final(self)@ == old(self)@.ccf(),
    {
        self.registers.f.carry = !self.registers.f.carry;
        self.registers.f.subtract = false;
        self.registers.f.half_carry = false;
    }

    /// CPL: complements A.
    pub(crate) fn cpl(&mut self)
        ensures
            final(self)@ == old(self)@.cpl(),
    {
        self.registers.a = !self.registers.a;
        self.registers.f.subtract = true;
        self.registers.f.half_carry = true;
    }

    /// DAA: adjusts A to binary-coded decimal after an addition or a subtraction.
    pub(crate) fn daa(&mut self)
        ensures
            final(self)@ == old(self)@.daa(),
    {
        let mut a = self.registers.a;
        let ghost a0 = a;
        let ghost n = self.registers.f.subtract;
        let ghost low: int = if self.registers.f.half_carry || (!n && a0 % 16 > 9) {
            0x06
        } else {
            0
        };
        let ghost high: int = if self.registers.f.carry || (!n && a0 > 0x99) {
            0x60
        } else {
            0
        };
        proof {
            lemma_byte_fields(a);
        }
        let mut adjust: u8 = if self.registers.f.carry {
            0x60
        } else {
            0x00
        };
        if self.registers.f.half_carry {
            proof {
                lemma_daa_adjust(adjust);
            }
            adjust |= 0x06;
        }
        if !self.registers.f.subtract {
            if a & 0x0F > 0x09 {
                proof {
                    lemma_daa_adjust(adjust);
                }
                adjust |= 0x06;
            }
            if a > 0x99 {
                proof {
                    lemma_daa_adjust(adjust);
                }
                adjust |= 0x60;
            }
            assert(adjust == low + high);
            proof {
                lemma_mod256(a + adjust);
            }
            a = a.wrapping_add(adjust);
        } else {
            assert(adjust == low + high);
            proof {
                lemma_mod256(a - adjust);
            }
            a = a.wrapping_sub(adjust);
        }

        self.registers.f.carry = adjust >= 0x60;
        self.registers.f.half_carry = false;
        self.registers.f.zero = a == 0;
        self.registers.a = a;
    }

    /// RES b,r.
    pub(crate) fn res_b_r8(&mut self, opcode: u8)
        requires
            old(self)@.inv(),
            old(self)@.r8_ok(reg8_of(opcode)),
            old(self)@.w8_ok(reg8_of(opcode)),
        ensures
            final(self)@ == old(self)@.res_b_r8(opcode),
            final(self)@.inv(),
    {
        proof {
            lemma_byte_fields(opcode);
        }
        let bit = (opcode >> 3) & 0b111;
        let reg = self.decode_reg(opcode);
        let value = self.read_r8(reg);

        self.write_r8(reg, value & !(1 << bit));
    }

    /// RL r: rotate left, the old bit 7 into bit 0 and into C.
    pub(crate) fn rl_r8(&mut self, opcode: u8)
        requires
            old(self)@.inv(),
            old(self)@.r8_ok(reg8_of(opcode)),
            old(self)@.w8_ok(reg8_of(opcode)),
        ensures
            final(self)@ == old(self)@.rl_r8(opcode),
            final(self)@.inv(),
    {
        let reg = self.decode_reg(opcode);
        let value = self.read_r8(reg);
        proof {
            lemma_byte_fields(value);
            lemma_byte_shl_or_0(value);
            lemma_byte_shl_or_1(value);
        }
        let b7 = (value & 0x80) != 0;
        let low: u8 = if b7 {
            1
        } else {
            0
        };
        let result = (value << 1) | low;
        self.write_r8(reg, result);

        self.registers.f.zero = result == 0;
        self.registers.f.subtract = false;
        self.registers.f.half_carry = false;
        self.registers.f.carry = b7;
    }

    /// RLA, as this processor carries it out: A rotated left with bit 7 into bit 0 and C.
    pub(crate) fn rla(&mut self)
        ensures
            final(self)@ == old(self)@.rla(),
    {
        let a = self.registers.a;
        proof {
            lemma_byte_fields(a);
            lemma_byte_shl_or_0(a);
            lemma_byte_shl_or_1(a);
        }
        let carry = (a & 0x80) != 0;
        let result = (a << 1) | (if carry {
            1
        } else {
            0
        });

        self.registers.a = result;
        self.registers.f.zero = result == 0;
        self.registers.f.subtract = false;
        self.registers.f.half_carry = false;
        self.registers.f.carry = carry;
    }

    /// RLC r: rotate left, bit 7 into bit 0 and C.
    pub(crate) fn rlc_r8(&mut self, opcode: u8)
        requires
            old(self)@.inv(),
            old(self)@.r8_ok(reg8_of(opcode)),
            old(self)@.w8_ok(reg8_of(opcode)),
        ensures
            final(self)@ == old(self)@.rlc_r8(opcode),
            final(self)@.inv(),
    {
        let reg = self.decode_reg(opcode);
        let value = self.read_r8(reg);
        proof {
            lemma_byte_fields(value);
            lemma_byte_shl_or_0(value);
            lemma_byte_shl_or_1(value);
        }
        let carry = (value & 0x80) != 0;
        let result = (value << 1) | (if carry {
            1
        } else {
            0
        });
        self.write_r8(reg, result);

        self.registers.f.zero = result == 0;
        self.registers.f.subtract = false;
        self.registers.f.half_carry = false;
        self.registers.f.carry = carry;
    }

    /// RLCA: A rotated left, bit 7 into bit 0 and C; Z clear.
    pub(crate) fn rlca(&mut self)
        ensures
            final(self)@ == old(self)@.rlca(),
    {
        let a = self.registers.a;
        proof {
            lemma_byte_fields(a);
            lemma_byte_shl_or_0(a);
            lemma_byte_shl_or_1(a);
        }
        let carry = (a & 0x80) != 0;
        self.registers.a = (a << 1) | (if carry {
            1
        } else {
            0
        });

        self.registers.f.zero = false;
        self.registers.f.subtract = false;
        self.registers.f.half_carry = false;
        self.registers.f.carry = carry;
    }

    /// RR r: rotate right, the old bit 0 into bit 7 and into C.
    pub(crate) fn rr_r8(&mut self, opcode: u8)
        requires
            old(self)@.inv(),
            old(self)@.r8_ok(reg8_of(opcode)),
            old(self)@.w8_ok(reg8_of(opcode)),
        ensures
            final(self)@ == old(self)@.rr_r8(opcode),
            final(self)@.inv(),
    {
        let reg = self.decode_reg(opcode);
        let value = self.read_r8(reg);
        proof {
            lemma_byte_fields(value);
            lemma_byte_shr_or_0(value);
            lemma_byte_shr_or_80(value);
        }
        let b0 = (value & 0x01) != 0;
        let high: u8 = if b0 {
            0x80
        } else {
            0
        };
        let result = (value >> 1) | high;
        self.write_r8(reg, result);

        self.registers.f.zero = result == 0;
        self.registers.f.subtract = false;
        self.registers.f.half_carry = false;
        self.registers.f.carry = b0;
    }

    /// RRA: A rotated right through the carry; Z clear.
    pub(crate) fn rra(&mut self)
        ensures
            final(self)@ == old(self)@.rra(),
    {
        let a = self.registers.a;
        proof {
            lemma_byte_fields(a);
            lemma_byte_shr_or_0(a);
            lemma_byte_shr_or_80(a);
        }
        let old_carry: u8 = if self.registers.f.carry {
            0x80
        } else {
            0
        };
        let b0 = (a & 0x01) != 0;
        let result = (a >> 1) | old_carry;
        self.registers.a = result;

        self.registers.f.zero = false;
        self.registers.f.subtract = false;
        self.registers.f.half_carry = false;
        self.registers.f.carry = b0;
    }

    /// RRC r: rotate right, bit 0 into bit 7 and C.
    pub(crate) fn rrc_r8(&mut self, opcode: u8)
        requires
            old(self)@.inv(),
            old(self)@.r8_ok(reg8_of(opcode)),
            old(self)@.w8_ok(reg8_of(opcode)),
        ensures
            final(self)@ == old(self)@.rrc_r8(opcode),
            final(self)@.inv(),
    {
        let reg = self.decode_reg(opcode);
        let value = self.read_r8(reg);
        proof {
            lemma_byte_fields(value);
            lemma_byte_shr_or_0(value);
            lemma_byte_shr_or_80(value);
        }
        let carry = (value & 0x01) != 0;
        let result = (value >> 1) | (if carry {
            0x80
        } else {
            0
        });
        self.write_r8(reg, result);

        self.registers.f.zero = result == 0;
        self.registers.f.subtract = false;
        self.registers.f.half_carry = false;
        self.registers.f.carry = carry;
    }

    /// RRCA: A rotated right, bit 0 into bit 7 and C; Z clear.
    pub(crate) fn rrca(&mut self)
        ensures
            final(self)@ == old(self)@.rrca(),
    {
        let a = self.registers.a;
        proof {
            lemma_byte_fields(a);
            lemma_byte_shr_or_0(a);
            lemma_byte_shr_or_80(a);
        }
        let carry = (a & 0x01) != 0;
        self.registers.a = (a >> 1) | (if carry {
            0x80
        } else {
            0
        });

        self.registers.f.zero = false;
        self.registers.f.subtract = false;
        self.registers.f.half_carry = false;
        self.registers.f.carry = carry;
    }

    /// SCF: sets the carry.
    pub(crate) fn scf(&mut self)
        ensures
            final(self)@ == old(self)@.scf(),
    {
        self.registers.f.carry = true;
        self.registers.f.subtract = false;
        self.registers.f.half_carry = false;
    }

    /// SET b,r.
    pub(crate) fn set_b_r8(&mut self, opcode: u8)
        requires
            old(self)@.inv(),
            old(self)@.r8_ok(reg8_of(opcode)),
            old(self)@.w8_ok(reg8_of(opcode)),
        ensures
            final(self)@ == old(self)@.set_b_r8(opcode),
            final(self)@.inv(),
    {
        proof {
            lemma_byte_fields(opcode);
        }
        let bit = (opcode >> 3) & 0b111;
        let reg = self.decode_reg(opcode);
        let value = self.read_r8(reg);

        self.write_r8(reg, value | (1 << bit));
    }

    /// SLA r: shift left, bit 7 into C, 0 into bit 0.
    pub(crate) fn sla_r8(&mut self, opcode: u8)
        requires
            old(self)@.inv(),
            old(self)@.r8_ok(reg8_of(opcode)),
            old(self)@.w8_ok(reg8_of(opcode)),
        ensures
            final(self)@ == old(self)@.sla_r8(opcode),
            final(self)@.inv(),
    {
        let reg = self.decode_reg(opcode);
        let value = self.read_r8(reg);
        proof {
            lemma_byte_fields(value);
            lemma_byte_shl(value);
        }
        let carry = (value & 0x80) != 0;
        let result = value << 1;
        self.write_r8(reg, result);

        self.registers.f.zero = result == 0;
        self.registers.f.subtract = false;
        self.registers.f.half_carry = false;
        self.registers.f.carry = carry;
    }

    /// SRA r: shift right keeping bit 7, bit 0 into C.
    pub(crate) fn sra_r8(&mut self, opcode: u8)
        requires
            old(self)@.inv(),
            old(self)@.r8_ok(reg8_of(opcode)),
            old(self)@.w8_ok(reg8_of(opcode)),
        ensures
            final(self)@ == old(self)@.sra_r8(opcode),
            final(self)@.inv(),
    {
        let reg = self.decode_reg(opcode);
        let value = self.read_r8(reg);
        proof {
            lemma_byte_fields(value);
            lemma_byte_sra(value);
        }
        let carry = (value & 0x01) != 0;
        let msb = value & 0x80;
        let result = (value >> 1) | msb;
        self.write_r8(reg, result);

        self.registers.f.zero = result == 0;
        self.registers.f.subtract = false;
        self.registers.f.half_carry = false;
        self.registers.f.carry = carry;
    }

    /// SRL r: shift right, 0 into bit 7, bit 0 into C.
    pub(crate) fn srl_r8(&mut self, opcode: u8)
        requires
            old(self)@.inv(),
            old(self)@.r8_ok(reg8_of(opcode)),
            old(self)@.w8_ok(reg8_of(opcode)),
        ensures
            final(self)@ == old(self)@.srl_r8(opcode),
            final(self)@.inv(),
    {
        let reg = self.decode_reg(opcode);
        let value = self.read_r8(reg);
        proof {
            lemma_byte_fields(value);
            lemma_byte_shr(value);
        }
        let carry = (value & 0x01) != 0;
        let result = value >> 1;
        self.write_r8(reg, result);

        self.registers.f.zero = result == 0;
        self.registers.f.subtract = false;
        self.registers.f.half_carry = false;
        self.registers.f.carry = carry;
    }

    /// SWAP r: exchanges the nibbles; C clear.
    pub(crate) fn swap_r8(&mut self, opcode: u8)
        requires
            old(self)@.inv(),
            old(self)@.r8_ok(reg8_of(opcode)),
            old(self)@.w8_ok(reg8_of(opcode)),
        ensures
            final(self)@ == old(self)@.swap_r8(opcode),
            final(self)@.inv(),
    {
        let reg = self.decode_reg(opcode);
        let value = self.read_r8(reg);
        proof {
            lemma_byte_swap(value);
        }
        let result = (value << 4) | (value >> 4);
        self.write_r8(reg, result);

        self.registers.f.zero = result == 0;
        self.registers.f.subtract = false;
        self.registers.f.half_carry = false;
        self.registers.f.carry = false;
    }
}

} // verus!
