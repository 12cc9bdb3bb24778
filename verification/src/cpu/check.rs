//! Whether a step can run to completion, decided without running it.
use vstd::prelude::*;

use super::opcodes::{cb_m_cycles, cpu_m_cycles};
use super::spec::CpuState;
use super::{Condition, Reg16, Reg8, CPU};
use crate::mmu::is_in_bounds;

verus! {

impl CPU {
    /// Whether the byte at `pc` can be fetched.
    fn can_fetch(&self, pc: u16) -> (r: bool)
        ensures
            r == self@.with_pc(pc).fetch_ok(),
    {
        pc < 0xFFFF && self.mmu.can_read(pc)
    }

    /// Whether the word at `pc` can be fetched.
    fn can_fetch16(&self, pc: u16) -> (r: bool)
        ensures
            r == self@.with_pc(pc).fetch16_ok(),
    {
        pc < 0xFFFE && self.mmu.can_read(pc) && self.mmu.can_read(pc + 1)
    }

    fn imm16_at(&self, pc: u16) -> (r: u16)
        requires
            self@.inv(),
            self@.with_pc(pc).fetch16_ok(),
        ensures
            r == self@.with_pc(pc).imm16(),
    {
        proof {
            crate::bits::lemma_word_bits();
        }
        let lo = self.mmu.read_byte(pc) as u16;
        let hi = self.mmu.read_byte(pc + 1) as u16;
        (hi << 8) | lo
    }

    fn can_read_r8(&self, reg: Reg8) -> (r: bool)
        ensures
            r == self@.r8_ok(reg),
    {
        match reg {
            Reg8::HL => self.mmu.can_read(self.read_r16(Reg16::HL)),
            _ => true,
        }
    }

    fn can_write_r8(&self, reg: Reg8) -> (r: bool)
        ensures
            r == self@.w8_ok(reg),
    {
        match reg {
            Reg8::HL => is_in_bounds(self.read_r16(Reg16::HL)),
            _ => true,
        }
    }

    fn can_push(&self) -> (r: bool)
        ensures
            r == self@.push_ok(),
    {
        let sp = self.registers.sp;
        proof {
            crate::bits::lemma_mod65536(sp - 1);
            crate::bits::lemma_mod65536(sp - 2);
        }
        is_in_bounds(sp.wrapping_sub(1)) && is_in_bounds(sp.wrapping_sub(2))
    }

    fn can_pop(&self) -> (r: bool)
        ensures
            r == self@.pop_ok(),
    {
        let sp = self.registers.sp;
        proof {
            crate::bits::lemma_mod65536(sp + 1);
        }
        self.mmu.can_read(sp) && self.mmu.can_read(sp.wrapping_add(1))
    }

    /// Whether the prefixed operation after the byte at `pc` can run.
    fn can_execute_cb(&self, pc: u16) -> (r: bool)
        requires
            self@.inv(),
        ensures
            r == self@.with_pc(pc).execute_cb_ok(),
    {
        if !self.can_fetch(pc) {
            return false;
        }
        let op = self.mmu.read_byte(pc);
        let reg = self.decode_reg(op);
        self.can_read_r8(reg) && ((0x40 <= op && op < 0x80) || self.can_write_r8(reg))
    }

    fn can_execute_block0(&self, pc: u16, op: u8) -> (r: bool)
        requires
            self@.inv(),
        ensures
            r == self@.with_pc(pc).execute_block0_ok(op),
    {
        proof {
            crate::bits::lemma_byte_shr3(op);
        }
        match op {
            0x10 | 0x18 | 0x20 | 0x28 | 0x30 | 0x38 => self.can_fetch(pc),
            0x01 | 0x11 | 0x21 | 0x31 => self.can_fetch16(pc),
            0x06 | 0x0E | 0x16 | 0x1E | 0x26 | 0x2E | 0x36 | 0x3E => self.can_fetch(pc)
                && self.can_write_r8(self.decode_reg(op >> 3)),
            0x08 => {
                if !self.can_fetch16(pc) {
                    return false;
                }
                let addr = self.imm16_at(pc);
                addr < 0xFFFF && is_in_bounds(addr) && is_in_bounds(addr + 1)
            },
            0x0A | 0x1A => self.mmu.can_read(self.read_r16(self.decode_r16(op))),
            0x02 | 0x12 => is_in_bounds(self.read_r16(self.decode_r16(op))),
            0x22 | 0x32 => is_in_bounds(self.read_r16(Reg16::HL)),
            0x2A | 0x3A => self.mmu.can_read(self.read_r16(Reg16::HL)),
            0x04 | 0x14 | 0x24 | 0x34 | 0x0C | 0x1C | 0x2C | 0x3C | 0x05 | 0x15 | 0x25 | 0x35
            | 0x0D | 0x1D | 0x2D | 0x3D => {
                let reg = self.decode_reg(op >> 3);
                self.can_read_r8(reg) && self.can_write_r8(reg)
            },
            _ => true,
        }
    }

    fn can_execute_block3(&self, pc: u16, op: u8) -> (r: bool)
        requires
            self@.inv(),
            0xC0 <= op,
        ensures
            r == self@.with_pc(pc).execute_block3_ok(op),
    {
        proof {
            crate::bits::lemma_byte_masks(self.registers.c);
        }
        match op {
            0xCB => self.can_execute_cb(pc),
            0xE0 => {
                if !self.can_fetch(pc) {
                    return false;
                }
                let offset = self.mmu.read_byte(pc);
                proof {
                    crate::bits::lemma_byte_masks(offset);
                }
                is_in_bounds(0xFF00 | offset as u16)
            },
            0xE2 => is_in_bounds(0xFF00 | self.registers.c as u16),
            0xEA => self.can_fetch16(pc) && is_in_bounds(self.imm16_at(pc)),
            0xF0 => {
                if !self.can_fetch(pc) {
                    return false;
                }
                let offset = self.mmu.read_byte(pc);
                proof {
                    crate::bits::lemma_byte_masks(offset);
                }
                self.mmu.can_read(0xFF00 | offset as u16)
            },
            0xF2 => self.mmu.can_read(0xFF00 | self.registers.c as u16),
            0xFA => self.can_fetch16(pc) && self.mmu.can_read(self.imm16_at(pc)),
            0xC6 | 0xCE | 0xD6 | 0xDE | 0xE6 | 0xE8 | 0xEE | 0xF6 | 0xFE | 0xF8 => self.can_fetch(
                pc,
            ),
            0xC0 => !self.check_condition(Condition::NZ) || self.can_pop(),
            0xC8 => !self.check_condition(Condition::Z) || self.can_pop(),
            0xD0 => !self.check_condition(Condition::NC) || self.can_pop(),
            0xD8 => !self.check_condition(Condition::C) || self.can_pop(),
            0xC2 | 0xC3 | 0xCA | 0xD2 | 0xDA => self.can_fetch16(pc),
            0xC4 => self.can_fetch16(pc) && (!self.check_condition(Condition::NZ)
                || self.can_push()),
            0xCC => self.can_fetch16(pc) && (!self.check_condition(Condition::Z)
                || self.can_push()),
            0xD4 => self.can_fetch16(pc) && (!self.check_condition(Condition::NC)
                || self.can_push()),
            0xDC => self.can_fetch16(pc) && (!self.check_condition(Condition::C)
                || self.can_push()),
            0xCD => self.can_fetch16(pc) && self.can_push(),
            0xC7 | 0xCF | 0xD7 | 0xDF | 0xE7 | 0xEF | 0xF7 | 0xFF => self.can_push(),
            0xC9 | 0xD9 | 0xC1 | 0xD1 | 0xE1 | 0xF1 => self.can_pop(),
            0xC5 | 0xD5 | 0xE5 | 0xF5 => self.can_push(),
            0xD3 | 0xDB | 0xDD | 0xE3 | 0xE4 | 0xEB | 0xEC | 0xED | 0xF4 | 0xFC | 0xFD => false,
            _ => true,
        }
    }

    /// Whether instruction `op`, with PC at `pc` past its opcode, can run.
    fn can_execute(&self, pc: u16, op: u8) -> (r: bool)
        requires
            self@.inv(),
        ensures
            r == self@.with_pc(pc).execute_ok(op),
    {
        proof {
            reveal(CpuState::execute_ok);
            crate::bits::lemma_byte_shr3(op);
        }
        if op < 0x40 {
            self.can_execute_block0(pc, op)
        } else if op < 0x80 {
            op == 0x76 || (self.can_read_r8(self.decode_reg(op)) && self.can_write_r8(
                self.decode_reg(op >> 3),
            ))
        } else if op < 0xC0 {
            self.can_read_r8(self.decode_reg(op))
        } else {
            self.can_execute_block3(pc, op)
        }
    }

    /// The cycles that instruction `op` takes, with PC at `pc` past its opcode.
    fn cycles_at(&self, pc: u16, op: u8) -> (r: u8)
        requires
            self@.inv(),
            self@.with_pc(pc).execute_ok(op),
        ensures
            r == self@.with_pc(pc).execute(op).1,
    {
        proof {
            reveal(CpuState::execute);
            reveal(CpuState::execute_ok);
        }
        match op {
            0x20 => if self.check_condition(Condition::NZ) {
                3
            } else {
                2
            },
            0x28 => if self.check_condition(Condition::Z) {
                3
            } else {
                2
            },
            0x30 => if self.check_condition(Condition::NC) {
                3
            } else {
                2
            },
            0x38 => if self.check_condition(Condition::C) {
                3
            } else {
                2
            },
            0xCB => cb_m_cycles(self.mmu.read_byte(pc)),
            0xC0 => if self.check_condition(Condition::NZ) {
                5
            } else {
                2
            },
            0xC8 => if self.check_condition(Condition::Z) {
                5
            } else {
                2
            },
            0xD0 => if self.check_condition(Condition::NC) {
                5
            } else {
                2
            },
            0xD8 => if self.check_condition(Condition::C) {
                5
            } else {
                2
            },
            0xC2 => if self.check_condition(Condition::NZ) {
                4
            } else {
                3
            },
            0xCA => if self.check_condition(Condition::Z) {
                4
            } else {
                3
            },
            0xD2 => if self.check_condition(Condition::NC) {
                4
            } else {
                3
            },
            0xDA => if self.check_condition(Condition::C) {
                4
            } else {
                3
            },
            0xC4 => if self.check_condition(Condition::NZ) {
                6
            } else {
                3
            },
            0xCC => if self.check_condition(Condition::Z) {
                6
            } else {
                3
            },
            0xD4 => if self.check_condition(Condition::NC) {
                6
            } else {
                3
            },
            0xDC => if self.check_condition(Condition::C) {
                6
            } else {
                3
            },
            _ => cpu_m_cycles(op),
        }
    }

    /// Whether `step` can run: the state it needs, decided without changing anything.
    pub fn can_step(&self) -> (r: bool)
        requires
            self@.inv(),
        ensures
            r == self@.step_ok(),
    {
        if self.halted {
            return self.ticks <= u32::MAX - 4;
        }
        let pc = self.registers.pc;
        if !self.can_fetch(pc) {
            return false;
        }
        let op = self.mmu.read_byte(pc);
        let next = pc + 1;
        assert(self@.with_pc(next) == self@.skip(1));
        if !self.can_execute(next, op) {
            return false;
        }
        let cycles = self.cycles_at(next, op);
        proof {
            super::spec::lemma_tick_ime_keeps_counters(self@.skip(1).execute(op).0);
        }
        (self.m_cycle as u64) + (cycles as u64) <= u32::MAX as u64
    }
}

} // verus!
