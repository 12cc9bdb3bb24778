//! Jumps, calls, the stack and processor control.
use vstd::prelude::*;

use super::{sign_extend_byte, Condition, Reg16, CPU};

verus! {

impl CPU {
    /// CALL cc,a16; returns the cycles spent.
    pub(crate) fn call_cond_a16(&mut self, condition: Condition) -> (r: u8)
        requires
            old(self)@.inv(),
            old(self)@.fetch16_ok(),
            old(self)@.cond(condition) ==> old(self)@.push_ok(),
        ensures
            (final(self)@, r) == old(self)@.call_cond_a16(condition),
            final(self)@.inv(),
    {
        let addr = self.mmu.fetch_word(&mut self.registers.pc);
        if self.check_condition(condition) {
            self.push_u16(self.registers.pc);
            self.registers.pc = addr;
            return 6;
        }
        3
    }

    /// CALL a16.
    pub(crate) fn call_a16(&mut self)
        requires
            old(self)@.inv(),
            old(self)@.fetch16_ok(),
            old(self)@.push_ok(),
        ensures
            final(self)@ == old(self)@.call_a16(),
            final(self)@.inv(),
    {
        let addr = self.mmu.fetch_word(&mut self.registers.pc);
        self.push_u16(self.registers.pc);
        self.registers.pc = addr;
    }

    /// DI: interrupts off after the next instruction.
    pub(crate) fn di(&mut self)
        ensures
            final(self)@ == old(self)@.di(),
    {
        self.ime_next = false;
        self.ime_delay = 2;
    }

    /// EI: interrupts on after the next instruction.
    pub(crate) fn ei(&mut self)
        ensures
            final(self)@ == old(self)@.ei(),
    {
        self.ime_next = true;
        self.ime_delay = 2;
    }

    /// HALT until an interrupt.
    pub(crate) fn halt(&mut self)
        ensures
            final(self)@ == old(self)@.halt(),
    {
        self.halted = true;
    }

    /// JP cc,a16; returns the cycles spent.
    pub(crate) fn jp_cond_a16(&mut self, condition: Condition) -> (r: u8)
        requires
            old(self)@.inv(),
            old(self)@.fetch16_ok(),
        ensures
            (final(self)@, r) == old(self)@.jp_cond_a16(condition),
    {
        let addr = self.mmu.fetch_word(&mut self.registers.pc);
        if self.check_condition(condition) {
            self.registers.pc = addr;
            return 4;
        }
        3
    }

    /// JP HL.
    pub(crate) fn jp_hl(&mut self)
        ensures
            final(self)@ == old(self)@.jp_hl(),
    {
        self.registers.pc = self.read_r16(Reg16::HL);
    }

    /// JP a16.
    pub(crate) fn jp_a16(&mut self)
        requires
            old(self)@.inv(),
            old(self)@.fetch16_ok(),
        ensures
            final(self)@ == old(self)@.jp_a16(),
    {
        let addr = self.mmu.fetch_word(&mut self.registers.pc);
        self.registers.pc = addr;
    }

    /// JR cc,e; returns the cycles spent.
    pub(crate) fn jr_cond_s8(&mut self, condition: Condition) -> (r: u8)
        requires
            old(self)@.inv(),
            old(self)@.fetch_ok(),
        ensures
            (final(self)@, r) == old(self)@.jr_cond_s8(condition),
    {
        let steps = self.mmu.fetch_byte(&mut self.registers.pc);
        if self.check_condition(condition) {
            self.registers.pc = self.registers.pc.wrapping_add(sign_extend_byte(steps));
            return 3;
        }
        2
    }

    /// JR e.
    pub(crate) fn jr_s8(&mut self)
        requires
            old(self)@.inv(),
            old(self)@.fetch_ok(),
        ensures
            final(self)@ == old(self)@.jr_s8(),
    {
        let steps = self.mmu.fetch_byte(&mut self.registers.pc);
        self.registers.pc = self.registers.pc.wrapping_add(sign_extend_byte(steps));
    }

    /// NOP.
    pub(crate) fn nop(&mut self)
        ensures
            final(self)@ == old(self)@,
    {
    }

    /// POP rr.
    pub(crate) fn pop_r16(&mut self, opcode: u8)
        requires
            old(self)@.inv(),
            old(self)@.pop_ok(),
        ensures
            final(self)@ == old(self)@.pop_r16(opcode),
    {
        let reg = self.decode_stack_r16(opcode);
        let value = self.pop_u16();
        self.write_r16(reg, value);
    }

    /// PUSH rr.
    pub(crate) fn push_r16(&mut self, opcode: u8)
        requires
            old(self)@.inv(),
            old(self)@.push_ok(),
        ensures
            final(self)@ == old(self)@.push_r16(opcode),
            final(self)@.inv(),
    {
        let reg = self.decode_stack_r16(opcode);
        let value = self.read_r16(reg);
        self.push_u16(value);
    }

    /// RET.
    pub(crate) fn ret(&mut self)
        requires
            old(self)@.inv(),
            old(self)@.pop_ok(),
        ensures
            final(self)@ == old(self)@.ret(),
    {
        self.registers.pc = self.pop_u16();
    }

    /// RET cc; returns the cycles spent.
    pub(crate) fn ret_cond(&mut self, condition: Condition) -> (r: u8)
        requires
            old(self)@.inv(),
            old(self)@.cond(condition) ==> old(self)@.pop_ok(),
        ensures
            (final(self)@, r) == old(self)@.ret_cond(condition),
    {
        if self.check_condition(condition) {
            self.registers.pc = self.pop_u16();
            return 5;
        }
        2
    }

    /// RETI: return and enable interrupts at once.
    pub(crate) fn reti(&mut self)
        requires
            old(self)@.inv(),
            old(self)@.pop_ok(),
        ensures
            final(self)@ == old(self)@.reti(),
    {
        self.registers.pc = self.pop_u16();
        self.ime_next = true;
        self.ime_delay = 0;
        self.ime = true;
    }

    /// RST: call the fixed address `target`.
    pub(crate) fn rst_tgt3(&mut self, target: u16)
        requires
            old(self)@.inv(),
            old(self)@.push_ok(),
        ensures
            final(self)@ == old(self)@.rst_tgt3(target),
            final(self)@.inv(),
    {
        self.push_u16(self.registers.pc);
        self.registers.pc = target;
    }

    /// STOP: halts and skips the byte after the opcode.
    pub(crate) fn stop(&mut self)
        requires
            old(self)@.inv(),
            old(self)@.fetch_ok(),
        ensures
            final(self)@ == old(self)@.stop(),
    {
        self.halted = true;
        let _ = self.mmu.fetch_byte(&mut self.registers.pc);
    }
}

} // verus!
