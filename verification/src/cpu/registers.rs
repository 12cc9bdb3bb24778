use vstd::prelude::*;
use vstd::std_specs::convert::FromSpecImpl;

verus! {

/// Bit positions of the four flags inside register `F`.
const FLAG_ZERO: u8 = 7;
const FLAG_SUBTRACT: u8 = 6;
const FLAG_HALF_CARRY: u8 = 5;
const FLAG_CARRY: u8 = 4;

/// The processor's register file.
pub struct Registers {
    pub a: u8,
    pub b: u8,
    pub c: u8,
    pub d: u8,
    pub e: u8,
    pub f: FlagsRegister,
    pub h: u8,
    pub l: u8,
    pub sp: u16,
    pub pc: u16,
}

/// The four condition flags, kept in the high nibble of register `F`.
#[derive(Copy, Clone)]
pub struct FlagsRegister {
    pub zero: bool,
    pub subtract: bool,
    pub half_carry: bool,
    pub carry: bool,
}

/// The byte that holds `flags` in register `F`: Z in bit 7, N in bit 6, H in bit 5,
/// C in bit 4, and the low nibble clear.
pub open spec fn flags_byte(flags: FlagsRegister) -> u8 {
    (if flags.zero { 0x80u8 } else { 0u8 }) | (if flags.subtract { 0x40u8 } else { 0u8 }) | (
    if flags.half_carry {
        0x20u8
    } else {
        0u8
    }) | (if flags.carry { 0x10u8 } else { 0u8 })
}

/// The flags that a byte of register `F` stands for; its low nibble is ignored.
pub open spec fn flags_of(value: u8) -> FlagsRegister {
    FlagsRegister {
        zero: value & 0x80 != 0,
        subtract: value & 0x40 != 0,
        half_carry: value & 0x20 != 0,
        carry: value & 0x10 != 0,
    }
}

impl Registers {
    /// The register values after the boot program has run: A=01 F=B0 BC=0013 DE=00D8
    /// HL=014D SP=FFFE PC=0100.
    pub open spec fn power_on() -> Registers {
        Registers {
            a: 0x01,
            b: 0x00,
            c: 0x13,
            d: 0x00,
            e: 0xD8,
            f: FlagsRegister { zero: true, subtract: false, half_carry: true, carry: true },
            h: 0x01,
            l: 0x4D,
            sp: 0xFFFE,
            pc: 0x0100,
        }
    }

    pub fn new() -> (r: Self)
        ensures
            r == Registers::power_on(),
    {
        Registers {
            a: 0x01,
            b: 0x00,
            c: 0x13,
            d: 0x00,
            e: 0xD8,
            f: FlagsRegister { zero: true, subtract: false, half_carry: true, carry: true },
            h: 0x01,
            l: 0x4D,
            sp: 0xFFFE,  // the stack starts at the top of memory
            pc: 0x0100,  // execution starts at the entry point of the cartridge
        }
    }
}

impl FlagsRegister {
    pub fn pack(&self) -> (r: u8)
        ensures
            r == flags_byte(*self),
    {
        (if self.zero { 0x80u8 } else { 0u8 }) | (if self.subtract { 0x40u8 } else { 0u8 }) | (
        if self.half_carry {
            0x20u8
        } else {
            0u8
        }) | (if self.carry { 0x10u8 } else { 0u8 })
    }

    pub fn unpack(value: u8) -> (r: Self)
        ensures
            r == flags_of(value),
    {
        Self {
            zero: value & 0x80 != 0,
            subtract: value & 0x40 != 0,
            half_carry: value & 0x20 != 0,
            carry: value & 0x10 != 0,
        }
    }
}

proof fn lemma_flag_bits()
    ensures
        (1u8 << FLAG_ZERO) == 0x80u8,
        (1u8 << FLAG_SUBTRACT) == 0x40u8,
        (1u8 << FLAG_HALF_CARRY) == 0x20u8,
        (1u8 << FLAG_CARRY) == 0x10u8,
        (0u8 << FLAG_ZERO) == 0u8,
        (0u8 << FLAG_SUBTRACT) == 0u8,
        (0u8 << FLAG_HALF_CARRY) == 0u8,
        (0u8 << FLAG_CARRY) == 0u8,
{
    assert((1u8 << 7u8) == 0x80u8 && (1u8 << 6u8) == 0x40u8 && (1u8 << 5u8) == 0x20u8 && (1u8
        << 4u8) == 0x10u8 && (0u8 << 7u8) == 0u8 && (0u8 << 6u8) == 0u8 && (0u8 << 5u8) == 0u8
        && (0u8 << 4u8) == 0u8) by (bit_vector);
}

impl From<FlagsRegister> for u8 {
    fn from(flags: FlagsRegister) -> (r: u8) {
        proof {
            lemma_flag_bits();
        }
        (if flags.zero { 1u8 } else { 0u8 }) << FLAG_ZERO | (if flags.subtract {
            1u8
        } else {
            0u8
        }) << FLAG_SUBTRACT | (if flags.half_carry { 1u8 } else { 0u8 }) << FLAG_HALF_CARRY | (
        if flags.carry {
            1u8
        } else {
            0u8
        }) << FLAG_CARRY
    }
}

impl FromSpecImpl<FlagsRegister> for u8 {
    open spec fn obeys_from_spec() -> bool {
        true
    }

    open spec fn from_spec(flags: FlagsRegister) -> u8 {
        flags_byte(flags)
    }
}

impl From<u8> for FlagsRegister {
    fn from(value: u8) -> (r: FlagsRegister) {
        proof {
            lemma_flag_bits();
        }
        FlagsRegister {
            zero: (value & (1 << FLAG_ZERO)) != 0,
            subtract: (value & (1 << FLAG_SUBTRACT)) != 0,
            half_carry: (value & (1 << FLAG_HALF_CARRY)) != 0,
            carry: (value & (1 << FLAG_CARRY)) != 0,
        }
    }
}

impl FromSpecImpl<u8> for FlagsRegister {
    open spec fn obeys_from_spec() -> bool {
        true
    }

    open spec fn from_spec(value: u8) -> FlagsRegister {
        flags_of(value)
    }
}

/// Reading the flags back out of their byte gives the same flags.
pub proof fn lemma_unpack_pack(flags: FlagsRegister)
    ensures
        flags_of(flags_byte(flags)) == flags,
{
    let (z, n, h, c) = (flags.zero, flags.subtract, flags.half_carry, flags.carry);
    assert({
        let v = (if z { 0x80u8 } else { 0u8 }) | (if n { 0x40u8 } else { 0u8 }) | (if h {
            0x20u8
        } else {
            0u8
        }) | (if c { 0x10u8 } else { 0u8 });
        &&& (v & 0x80 != 0) == z
        &&& (v & 0x40 != 0) == n
        &&& (v & 0x20 != 0) == h
        &&& (v & 0x10 != 0) == c
    }) by (bit_vector);
}

/// Packing the flags that a byte stands for gives back its high nibble.
pub proof fn lemma_pack_unpack(value: u8)
    ensures
        flags_byte(flags_of(value)) == value & 0xF0,
{
    assert(((if value & 0x80 != 0 { 0x80u8 } else { 0u8 }) | (if value & 0x40 != 0 {
        0x40u8
    } else {
        0u8
    }) | (if value & 0x20 != 0 { 0x20u8 } else { 0u8 }) | (if value & 0x10 != 0 {
        0x10u8
    } else {
        0u8
    })) == value & 0xF0) by (bit_vector);
}

} // verus!
