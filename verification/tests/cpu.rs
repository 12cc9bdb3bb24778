use rusty_emulator::cart::Cart;
use rusty_emulator::cpu::opcodes::{cb_m_cycles, cpu_m_cycles};
use rusty_emulator::frame::frame_tick;
use rusty_emulator::cpu::{TraceRecord, CPU};
use rusty_emulator::mmu::MMU;

/// A processor running `program` placed at the entry point 0x0100 of a 32 KiB ROM.
fn cpu_with(program: &[u8]) -> CPU {
    let mut rom = vec![0u8; 0x8000];
    rom[0x147] = 0x01;
    for (i, b) in program.iter().enumerate() {
        rom[0x100 + i] = *b;
    }
    CPU::new(MMU::new(Cart::new(rom)), false)
}

fn run(cpu: &mut CPU, steps: usize) -> Vec<u32> {
    let mut cycles = Vec::new();
    for _ in 0..steps {
        assert!(cpu.can_step());
        cycles.push(cpu.step());
    }
    cycles
}

fn regs(cpu: &CPU) -> TraceRecord {
    cpu.log_state()
}

#[test]
fn power_on_state() {
    let cpu = cpu_with(&[0x00, 0x01, 0x02, 0x03]);
    let r = regs(&cpu);
    assert_eq!((r.a, r.f, r.b, r.c, r.d, r.e, r.h, r.l), (0x01, 0xB0, 0x00, 0x13, 0x00, 0xD8, 0x01, 0x4D));
    assert_eq!((r.sp, r.pc), (0xFFFE, 0x0100));
    assert_eq!(r.pcmem, [0x00, 0x01, 0x02, 0x03]);
    assert!(!cpu.logging());
}

#[test]
fn nop_and_immediate_loads() {
    // NOP; LD BC,0x1234; LD D,0x56; LD A,0x78
    let mut cpu = cpu_with(&[0x00, 0x01, 0x34, 0x12, 0x16, 0x56, 0x3E, 0x78]);
    let cycles = run(&mut cpu, 4);
    assert_eq!(cycles, vec![1, 3, 2, 2]);
    let r = regs(&cpu);
    assert_eq!((r.b, r.c, r.d, r.a), (0x12, 0x34, 0x56, 0x78));
    assert_eq!(r.pc, 0x0108);
}

#[test]
fn add_sets_half_carry_and_carry() {
    // LD A,0x8F; ADD A,0x81
    let mut cpu = cpu_with(&[0x3E, 0x8F, 0xC6, 0x81]);
    run(&mut cpu, 2);
    let r = regs(&cpu);
    assert_eq!(r.a, 0x10);
    assert_eq!(r.f, 0x30);
}

#[test]
fn adc_and_sbc_use_carry() {
    // SCF; LD A,0x0F; ADC A,0x00 -> 0x10 H; SCF; SBC A,0x0F -> 0x00 Z N H
    let mut cpu = cpu_with(&[0x37, 0x3E, 0x0F, 0xCE, 0x00, 0x37, 0xDE, 0x0F]);
    run(&mut cpu, 3);
    let r = regs(&cpu);
    assert_eq!((r.a, r.f), (0x10, 0x20));
    run(&mut cpu, 2);
    let r = regs(&cpu);
    assert_eq!((r.a, r.f), (0x00, 0xE0));
}

#[test]
fn sub_and_cp_borrow() {
    // LD A,0x10; CP 0x20; SUB 0x01
    let mut cpu = cpu_with(&[0x3E, 0x10, 0xFE, 0x20, 0xD6, 0x01]);
    run(&mut cpu, 2);
    let r = regs(&cpu);
    assert_eq!((r.a, r.f), (0x10, 0x50));
    run(&mut cpu, 1);
    let r = regs(&cpu);
    assert_eq!((r.a, r.f), (0x0F, 0x60));
}

#[test]
fn logic_operations() {
    // LD A,0xF0; AND 0x3C; OR 0x01; XOR 0x31
    let mut cpu = cpu_with(&[0x3E, 0xF0, 0xE6, 0x3C, 0xF6, 0x01, 0xEE, 0x31]);
    run(&mut cpu, 2);
    assert_eq!((regs(&cpu).a, regs(&cpu).f), (0x30, 0x20));
    run(&mut cpu, 1);
    assert_eq!((regs(&cpu).a, regs(&cpu).f), (0x31, 0x00));
    run(&mut cpu, 1);
    assert_eq!((regs(&cpu).a, regs(&cpu).f), (0x00, 0x80));
}

#[test]
fn daa_after_bcd_addition_and_subtraction() {
    // LD A,0x15; ADD A,0x27; DAA
    let mut cpu = cpu_with(&[0x3E, 0x15, 0xC6, 0x27, 0x27]);
    run(&mut cpu, 3);
    assert_eq!(regs(&cpu).a, 0x42);
    assert_eq!(regs(&cpu).f & 0x10, 0);
    // LD A,0x99; ADD A,0x01; DAA -> 0x00 with carry
    let mut cpu = cpu_with(&[0x3E, 0x99, 0xC6, 0x01, 0x27]);
    run(&mut cpu, 3);
    assert_eq!(regs(&cpu).a, 0x00);
    assert_eq!(regs(&cpu).f & 0x90, 0x90);
    // LD A,0x42; SUB 0x15; DAA -> 0x27
    let mut cpu = cpu_with(&[0x3E, 0x42, 0xD6, 0x15, 0x27]);
    run(&mut cpu, 3);
    assert_eq!(regs(&cpu).a, 0x27);
    // LD A,0x15; SUB 0x27; DAA -> 0x88 with carry
    let mut cpu = cpu_with(&[0x3E, 0x15, 0xD6, 0x27, 0x27]);
    run(&mut cpu, 3);
    assert_eq!(regs(&cpu).a, 0x88);
    assert_eq!(regs(&cpu).f & 0x10, 0x10);
}

#[test]
fn inc_dec_flags() {
    // LD B,0x0F; INC B; LD C,0x10; DEC C; LD E,0x01; DEC E
    let mut cpu = cpu_with(&[0x06, 0x0F, 0x04, 0x0E, 0x10, 0x0D, 0x1E, 0x01, 0x1D]);
    run(&mut cpu, 2);
    assert_eq!(regs(&cpu).b, 0x10);
    assert_eq!(regs(&cpu).f, 0x30);
    run(&mut cpu, 2);
    assert_eq!(regs(&cpu).c, 0x0F);
    assert_eq!(regs(&cpu).f, 0x70);
    run(&mut cpu, 2);
    assert_eq!(regs(&cpu).e, 0x00);
    assert_eq!(regs(&cpu).f, 0xD0);
}

#[test]
fn sixteen_bit_arithmetic() {
    // LD HL,0x0FFF; LD BC,0x0001; ADD HL,BC; INC DE; DEC BC
    let mut cpu = cpu_with(&[0x21, 0xFF, 0x0F, 0x01, 0x01, 0x00, 0x09, 0x13, 0x0B]);
    run(&mut cpu, 3);
    let r = regs(&cpu);
    assert_eq!((r.h, r.l), (0x10, 0x00));
    assert_eq!(r.f & 0x70, 0x20);
    run(&mut cpu, 2);
    let r = regs(&cpu);
    assert_eq!((r.d, r.e), (0x00, 0xD9));
    assert_eq!((r.b, r.c), (0x00, 0x00));
}

#[test]
fn memory_loads_through_hl() {
    // LD HL,0xC000; LD (HL),0x42; LD A,(HL+); LD (HL-),A; LD B,(HL)
    let mut cpu = cpu_with(&[0x21, 0x00, 0xC0, 0x36, 0x42, 0x2A, 0x32, 0x46]);
    let cycles = run(&mut cpu, 5);
    assert_eq!(cycles, vec![3, 3, 2, 2, 2]);
    let r = regs(&cpu);
    assert_eq!(r.a, 0x42);
    assert_eq!(cpu.mmu.read_byte(0xC001), 0x42);
    assert_eq!((r.h, r.l), (0xC0, 0x00));
    assert_eq!(r.b, 0x42);
}

#[test]
fn push_pop_round_trip() {
    // LD SP,0xD000; LD BC,0x1234; PUSH BC; POP DE
    let mut cpu = cpu_with(&[0x31, 0x00, 0xD0, 0x01, 0x34, 0x12, 0xC5, 0xD1]);
    let cycles = run(&mut cpu, 4);
    assert_eq!(cycles[2..], [4, 3]);
    let r = regs(&cpu);
    assert_eq!((r.d, r.e), (0x12, 0x34));
    assert_eq!(r.sp, 0xD000);
    assert_eq!(cpu.mmu.read_byte(0xCFFF), 0x12);
    assert_eq!(cpu.mmu.read_byte(0xCFFE), 0x34);
}

#[test]
fn push_pop_af_keeps_flags() {
    // LD SP,0xD000; SCF; PUSH AF; XOR A; POP AF
    let mut cpu = cpu_with(&[0x31, 0x00, 0xD0, 0x37, 0xF5, 0xAF, 0xF1]);
    run(&mut cpu, 3);
    let before = regs(&cpu);
    run(&mut cpu, 2);
    let after = regs(&cpu);
    assert_eq!((after.a, after.f), (before.a, before.f));
}

#[test]
fn pop_af_drops_low_nibble() {
    // LD SP,0xD000; LD BC,0x12FF; PUSH BC; POP AF
    let mut cpu = cpu_with(&[0x31, 0x00, 0xD0, 0x01, 0xFF, 0x12, 0xC5, 0xF1]);
    run(&mut cpu, 4);
    let r = regs(&cpu);
    assert_eq!((r.a, r.f), (0x12, 0xF0));
}

#[test]
fn push_to_io_page_is_lost() {
    // The default stack at 0xFFFE pushes into the I/O page, which ignores writes.
    // LD BC,0x1234; PUSH BC; POP DE
    let mut cpu = cpu_with(&[0x01, 0x34, 0x12, 0xC5, 0xD1]);
    run(&mut cpu, 3);
    let r = regs(&cpu);
    assert_eq!((r.d, r.e), (0xFF, 0xFF));
    assert_eq!(r.sp, 0xFFFE);
}

#[test]
fn call_and_ret() {
    // 0x100: LD SP,0xD000; CALL 0x0110; LD A,0x33 ... 0x110: LD A,0x22; RET
    let mut program = vec![0x31, 0x00, 0xD0, 0xCD, 0x10, 0x01, 0x3E, 0x33];
    program.resize(0x10, 0);
    program.extend_from_slice(&[0x3E, 0x22, 0xC9]);
    let mut cpu = cpu_with(&program);
    let cycles = run(&mut cpu, 2);
    assert_eq!(cycles[1], 6);
    assert_eq!(regs(&cpu).pc, 0x0110);
    assert_eq!(regs(&cpu).sp, 0xCFFE);
    let cycles = run(&mut cpu, 2);
    assert_eq!(cycles[1], 4);
    assert_eq!(regs(&cpu).pc, 0x0106);
    assert_eq!(regs(&cpu).sp, 0xD000);
    run(&mut cpu, 1);
    assert_eq!(regs(&cpu).a, 0x33);
}

#[test]
fn conditional_jumps_take_their_cycles() {
    // XOR A (Z set); JR NZ,+2 (not taken); JR Z,+2 (taken); NOP; NOP; JP NZ,0x0000; JP Z,0x0150
    let mut cpu = cpu_with(&[0xAF, 0x20, 0x02, 0x28, 0x02, 0x00, 0x00, 0xC2, 0x00, 0x00, 0xCA, 0x50, 0x01]);
    let cycles = run(&mut cpu, 3);
    assert_eq!(cycles, vec![1, 2, 3]);
    assert_eq!(regs(&cpu).pc, 0x0107);
    let cycles = run(&mut cpu, 2);
    assert_eq!(cycles, vec![3, 4]);
    assert_eq!(regs(&cpu).pc, 0x0150);
}

#[test]
fn relative_jump_backwards() {
    // NOP; JR -3 (back to 0x0100)
    let mut cpu = cpu_with(&[0x00, 0x18, 0xFD]);
    run(&mut cpu, 2);
    assert_eq!(regs(&cpu).pc, 0x0100);
}

#[test]
fn conditional_return_and_call() {
    // LD SP,0xD000; XOR A; CALL NZ,0x0200 (not taken); RET NZ (not taken); RST 0x08
    let mut cpu = cpu_with(&[0x31, 0x00, 0xD0, 0xAF, 0xC4, 0x00, 0x02, 0xC0, 0xCF]);
    let cycles = run(&mut cpu, 5);
    assert_eq!(cycles, vec![3, 1, 3, 2, 4]);
    assert_eq!(regs(&cpu).pc, 0x0008);
    assert_eq!(cpu.mmu.read_byte(0xCFFE), 0x09);
    assert_eq!(cpu.mmu.read_byte(0xCFFF), 0x01);
}

#[test]
fn sp_offset_instructions() {
    // LD SP,0xD0F8; ADD SP,+8; LD HL,SP-1
    let mut cpu = cpu_with(&[0x31, 0xF8, 0xD0, 0xE8, 0x08, 0xF8, 0xFF]);
    run(&mut cpu, 2);
    let r = regs(&cpu);
    assert_eq!(r.sp, 0xD100);
    assert_eq!(r.f, 0x30);
    run(&mut cpu, 1);
    let r = regs(&cpu);
    assert_eq!((r.h, r.l), (0xD0, 0xFF));
    assert_eq!(r.f, 0x00);
}

#[test]
fn ld_hl_sp_takes_offset_signed() {
    // LD SP,0xFFF8; LD HL,SP-2
    let mut cpu = cpu_with(&[0x31, 0xF8, 0xFF, 0xF8, 0xFE]);
    run(&mut cpu, 2);
    let r = regs(&cpu);
    assert_eq!((r.h, r.l), (0xFF, 0xF6));
    assert_eq!(r.sp, 0xFFF8);
    assert_eq!(r.f, 0x30);
}

#[test]
fn prefixed_rl_rr_move_the_end_bit_round() {
    // LD B,0x80; SCF; CCF; RL B; LD C,0x01; SCF; CCF; RR C
    let mut cpu = cpu_with(&[
        0x06, 0x80, 0x37, 0x3F, 0xCB, 0x10, 0x0E, 0x01, 0x37, 0x3F, 0xCB, 0x19,
    ]);
    run(&mut cpu, 4);
    assert_eq!((regs(&cpu).b, regs(&cpu).f), (0x01, 0x10));
    run(&mut cpu, 3);
    assert_eq!(regs(&cpu).f, 0x00);
    run(&mut cpu, 1);
    assert_eq!((regs(&cpu).c, regs(&cpu).f), (0x80, 0x10));
}

#[test]
fn add_sp_takes_offset_signed() {
    // LD SP,0xD100; ADD SP,-1; LD HL,SP+0x08
    let mut cpu = cpu_with(&[0x31, 0x00, 0xD1, 0xE8, 0xFF, 0xF8, 0x08]);
    run(&mut cpu, 2);
    let r = regs(&cpu);
    assert_eq!(r.sp, 0xD0FF);
    assert_eq!(r.f, 0x00);
    run(&mut cpu, 1);
    let r = regs(&cpu);
    assert_eq!((r.h, r.l), (0xD1, 0x07));
    assert_eq!(r.f, 0x30);
}

#[test]
fn rotates_of_a() {
    // LD A,0x81; RLCA; RRCA; RLA; RRA
    let mut cpu = cpu_with(&[0x3E, 0x81, 0x07, 0x0F, 0x17, 0x1F]);
    run(&mut cpu, 2);
    assert_eq!((regs(&cpu).a, regs(&cpu).f), (0x03, 0x10));
    run(&mut cpu, 1);
    assert_eq!((regs(&cpu).a, regs(&cpu).f), (0x81, 0x10));
    run(&mut cpu, 1);
    assert_eq!((regs(&cpu).a, regs(&cpu).f), (0x03, 0x10));
    run(&mut cpu, 1);
    assert_eq!((regs(&cpu).a, regs(&cpu).f), (0x81, 0x10));
}

#[test]
fn prefixed_operations() {
    // LD A,0x12; SWAP A; BIT 7,A; SET 7,A; BIT 7,A; RES 0,A; SRL A; SRA A; SLA A
    let mut cpu = cpu_with(&[
        0x3E, 0x12, 0xCB, 0x37, 0xCB, 0x7F, 0xCB, 0xFF, 0xCB, 0x7F, 0xCB, 0x87, 0xCB, 0x3F,
        0xCB, 0x2F, 0xCB, 0x27,
    ]);
    let cycles = run(&mut cpu, 2);
    assert_eq!(cycles[1], 2);
    assert_eq!(regs(&cpu).a, 0x21);
    run(&mut cpu, 1);
    assert_eq!(regs(&cpu).f & 0xE0, 0xA0);
    run(&mut cpu, 2);
    assert_eq!(regs(&cpu).a, 0xA1);
    assert_eq!(regs(&cpu).f & 0x80, 0x00);
    run(&mut cpu, 1);
    assert_eq!(regs(&cpu).a, 0xA0);
    run(&mut cpu, 1);
    assert_eq!(regs(&cpu).a, 0x50);
    run(&mut cpu, 1);
    assert_eq!(regs(&cpu).a, 0x28);
    run(&mut cpu, 1);
    assert_eq!(regs(&cpu).a, 0x50);
}

#[test]
fn prefixed_rotates_through_memory() {
    // LD HL,0xC000; LD (HL),0x80; RLC (HL); RL (HL); RR (HL); RRC (HL); BIT 0,(HL)
    let mut cpu = cpu_with(&[
        0x21, 0x00, 0xC0, 0x36, 0x80, 0xCB, 0x06, 0xCB, 0x16, 0xCB, 0x1E, 0xCB, 0x0E, 0xCB, 0x46,
    ]);
    let cycles = run(&mut cpu, 7);
    assert_eq!(cycles[2..], [4, 4, 4, 4, 3]);
    assert_eq!(cpu.mmu.read_byte(0xC000), 0x80);
}

#[test]
fn cpl_scf_ccf() {
    // LD A,0x0F; CPL; SCF; CCF
    let mut cpu = cpu_with(&[0x3E, 0x0F, 0x2F, 0x37, 0x3F]);
    run(&mut cpu, 2);
    assert_eq!(regs(&cpu).a, 0xF0);
    assert_eq!(regs(&cpu).f & 0x60, 0x60);
    run(&mut cpu, 1);
    assert_eq!(regs(&cpu).f & 0x70, 0x10);
    run(&mut cpu, 1);
    assert_eq!(regs(&cpu).f & 0x70, 0x00);
}

#[test]
fn high_page_loads() {
    // LD A,0x91; LDH (0x40),A; LD C,0x41; LDH (C),A; LDH A,(0x44); LD A,0x00; LDH A,(C)
    let mut cpu = cpu_with(&[0x3E, 0x91, 0xE0, 0x40, 0x0E, 0x41, 0xE2, 0xF0, 0x44, 0x3E, 0x00, 0xF2]);
    run(&mut cpu, 4);
    assert_eq!(cpu.mmu.read_byte(0xFF40), 0x91);
    assert_eq!(cpu.mmu.read_byte(0xFF41), 0x91);
    run(&mut cpu, 1);
    assert_eq!(regs(&cpu).a, 0x90);
    run(&mut cpu, 2);
    assert_eq!(regs(&cpu).a, 0x91);
}

#[test]
fn absolute_loads() {
    // LD A,0x5A; LD (0xC123),A; LD SP,0xBEEF; LD (0xC200),SP; LD A,(0xC201)
    let mut cpu = cpu_with(&[
        0x3E, 0x5A, 0xEA, 0x23, 0xC1, 0x31, 0xEF, 0xBE, 0x08, 0x00, 0xC2, 0xFA, 0x01, 0xC2,
    ]);
    let cycles = run(&mut cpu, 5);
    assert_eq!(cycles, vec![2, 4, 3, 5, 4]);
    assert_eq!(cpu.mmu.read_byte(0xC123), 0x5A);
    assert_eq!(cpu.mmu.read_byte(0xC200), 0xEF);
    assert_eq!(regs(&cpu).a, 0xBE);
}

#[test]
fn loads_through_register_pairs() {
    // LD DE,0xC010; LD A,0x66; LD (DE),A; LD A,0x00; LD A,(DE); LD HL,0xC010; JP HL? no: LD SP,HL
    let mut cpu = cpu_with(&[0x11, 0x10, 0xC0, 0x3E, 0x66, 0x12, 0x3E, 0x00, 0x1A, 0x21, 0x10, 0xC0, 0xF9]);
    run(&mut cpu, 7);
    assert_eq!(regs(&cpu).a, 0x66);
    assert_eq!(regs(&cpu).sp, 0xC010);
}

#[test]
fn register_to_register_loads() {
    // LD B,0x11; LD C,B; LD HL,0xC000; LD (HL),C; LD A,(HL); LD E,A
    let mut cpu = cpu_with(&[0x06, 0x11, 0x48, 0x21, 0x00, 0xC0, 0x71, 0x7E, 0x5F]);
    let cycles = run(&mut cpu, 6);
    assert_eq!(cycles, vec![2, 1, 3, 2, 2, 1]);
    let r = regs(&cpu);
    assert_eq!((r.c, r.a, r.e), (0x11, 0x11, 0x11));
}

#[test]
fn halt_spends_four_cycles_a_step() {
    // HALT; NOP
    let mut cpu = cpu_with(&[0x76, 0x00]);
    let cycles = run(&mut cpu, 3);
    assert_eq!(cycles, vec![1, 4, 4]);
    assert_eq!(regs(&cpu).pc, 0x0101);
}

#[test]
fn stop_skips_a_byte_and_halts() {
    let mut cpu = cpu_with(&[0x10, 0x00, 0x00]);
    run(&mut cpu, 1);
    assert_eq!(regs(&cpu).pc, 0x0102);
    assert_eq!(cpu.step(), 4);
}

#[test]
fn interrupt_control_instructions_run() {
    // EI; DI; LD SP,0xD000; LD BC,0x0110; PUSH BC; RETI
    let mut cpu = cpu_with(&[0xFB, 0xF3, 0x31, 0x00, 0xD0, 0x01, 0x10, 0x01, 0xC5, 0xD9]);
    let cycles = run(&mut cpu, 6);
    assert_eq!(cycles, vec![1, 1, 3, 3, 4, 4]);
    assert_eq!(regs(&cpu).pc, 0x0110);
}

#[test]
fn undefined_opcode_cannot_step() {
    let cpu = cpu_with(&[0xD3]);
    assert!(!cpu.can_step());
    let cpu = cpu_with(&[0xFD]);
    assert!(!cpu.can_step());
}

#[test]
fn echo_ram_access_cannot_step() {
    // LD HL,0xE000; LD A,(HL)
    let mut cpu = cpu_with(&[0x21, 0x00, 0xE0, 0x7E]);
    run(&mut cpu, 1);
    assert!(!cpu.can_step());
}

#[test]
fn trace_record_shows_bytes_at_pc() {
    let cpu = cpu_with(&[0x3E, 0x12, 0xC6, 0x34]);
    let t = cpu.log_state();
    assert_eq!(t.pcmem, [0x3E, 0x12, 0xC6, 0x34]);
    assert_eq!(t.pc, 0x0100);
}

#[test]
fn trace_needs_readable_bytes() {
    // LD HL,0xDFFE; JP HL: the trace at 0xDFFE would read 0xE000 and 0xE001
    let mut cpu = cpu_with(&[0x21, 0xFE, 0xDF, 0xE9]);
    assert!(cpu.can_log_state());
    run(&mut cpu, 2);
    assert_eq!(cpu.pc(), 0xDFFE);
    assert!(!cpu.can_log_state());
}

#[test]
fn cycle_table_values() {
    assert_eq!(cpu_m_cycles(0x00), 1);
    assert_eq!(cpu_m_cycles(0x08), 5);
    assert_eq!(cpu_m_cycles(0xCD), 6);
    assert_eq!(cpu_m_cycles(0xD3), 0);
    assert_eq!(cb_m_cycles(0x00), 2);
    assert_eq!(cb_m_cycles(0x06), 4);
    assert_eq!(cb_m_cycles(0x46), 3);
    assert_eq!(cb_m_cycles(0xFE), 4);
}

#[test]
fn frame_is_due_when_cycles_reach_a_frame() {
    assert_eq!(frame_tick(0, 4, 10), (4, false));
    assert_eq!(frame_tick(8, 1, 10), (9, false));
    assert_eq!(frame_tick(8, 2, 10), (0, true));
    assert_eq!(frame_tick(8, 6, 10), (4, true));
}

#[test]
fn processor_steps_the_picture_unit_on_its_bus() {
    let mut cpu = cpu_with(&[0x00]);
    let mut rom = vec![0u8; 0x8000];
    rom[0x147] = 0x01;
    rom[0x100] = 0x00;
    let mut mmu = MMU::new(Cart::new(rom));
    assert!(cpu.can_step_ppu(456));
    for _ in 0..200 {
        cpu.step_ppu(456);
        mmu.step_ppu(456);
    }
    assert_eq!(cpu.get_framebuffer().len(), 160 * 144);
    assert_eq!(cpu.get_framebuffer(), mmu.get_framebuffer());
    assert_eq!(cpu.pc(), 0x0100);
}
