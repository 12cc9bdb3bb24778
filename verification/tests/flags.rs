use rusty_emulator::cpu::registers::{FlagsRegister, Registers};

#[test]
fn pack_places_flags_in_high_nibble() {
    let f = FlagsRegister { zero: true, subtract: false, half_carry: true, carry: true };
    assert_eq!(f.pack(), 0xB0);
    let g = FlagsRegister { zero: false, subtract: true, half_carry: false, carry: false };
    assert_eq!(g.pack(), 0x40);
}

#[test]
fn unpack_reads_high_nibble_and_ignores_low() {
    let f = FlagsRegister::unpack(0x5F);
    assert!(!f.zero);
    assert!(f.subtract);
    assert!(!f.half_carry);
    assert!(f.carry);
}

#[test]
fn unpack_of_pack_gives_back_flags() {
    for bits in 0u8..16 {
        let f = FlagsRegister {
            zero: bits & 8 != 0,
            subtract: bits & 4 != 0,
            half_carry: bits & 2 != 0,
            carry: bits & 1 != 0,
        };
        let g = FlagsRegister::unpack(f.pack());
        assert_eq!((g.zero, g.subtract, g.half_carry, g.carry), (f.zero, f.subtract, f.half_carry, f.carry));
    }
}

#[test]
fn pack_of_unpack_keeps_high_nibble() {
    for v in 0u16..256 {
        let v = v as u8;
        assert_eq!(FlagsRegister::unpack(v).pack(), v & 0xF0);
    }
}

#[test]
fn from_conversions_agree_with_pack_and_unpack() {
    for v in 0u16..256 {
        let v = v as u8;
        let f = FlagsRegister::from(v);
        let u = FlagsRegister::unpack(v);
        assert_eq!((f.zero, f.subtract, f.half_carry, f.carry), (u.zero, u.subtract, u.half_carry, u.carry));
        assert_eq!(u8::from(f), f.pack());
    }
}

#[test]
fn registers_start_as_after_boot() {
    let r = Registers::new();
    assert_eq!((r.a, r.b, r.c, r.d, r.e, r.h, r.l), (0x01, 0x00, 0x13, 0x00, 0xD8, 0x01, 0x4D));
    assert_eq!(r.f.pack(), 0xB0);
    assert_eq!(r.sp, 0xFFFE);
    assert_eq!(r.pc, 0x0100);
}
