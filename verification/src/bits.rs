use vstd::prelude::*;

verus! {

/// The high byte of a 16-bit value.
pub open spec fn high_byte(v: u16) -> u8 {
    (v / 256) as u8
}

/// The low byte of a 16-bit value.
pub open spec fn low_byte(v: u16) -> u8 {
    (v % 256) as u8
}

/// The 16-bit value made of a high and a low byte.
pub open spec fn word(hi: u8, lo: u8) -> u16 {
    (hi * 256 + lo) as u16
}

/// Shifts and masks on bytes and words, stated as arithmetic.
pub proof fn lemma_word_bits()
    ensures
        forall|v: u16| #[trigger] (v >> 8u16) == v / 256,
        forall|v: u16| #[trigger] ((v >> 8u16) as u8) == v / 256,
        forall|v: u16| #[trigger] (v as u8) == v % 256,
        forall|hi: u8, lo: u8|
            #[trigger] (((hi as u16) << 8u16) | (lo as u16)) == hi * 256 + lo,
        forall|hi: u16, lo: u16|
            hi < 256 && lo < 256 ==> #[trigger] ((hi << 8u16) | lo) == hi * 256 + lo,
{
    assert(forall|v: u16| #[trigger] (v >> 8u16) == v / 256) by (bit_vector);
    assert(forall|v: u16| #[trigger] ((v >> 8u16) as u8) == v / 256) by (bit_vector);
    assert(forall|v: u16| #[trigger] (v as u8) == v % 256) by (bit_vector);
    assert(forall|hi: u8, lo: u8|
        #[trigger] (((hi as u16) << 8u16) | (lo as u16)) == hi * 256 + lo) by (bit_vector);
    assert(forall|hi: u16, lo: u16|
        hi < 256 && lo < 256 ==> #[trigger] ((hi << 8u16) | lo) == hi * 256 + lo) by (bit_vector);
}

/// The 16-bit two's-complement sign extension of a byte.
pub open spec fn sign_extend(b: u8) -> u16 {
    if b < 0x80 {
        b as u16
    } else {
        (b + 0xFF00) as u16
    }
}

/// Masks and fields of a byte, stated as arithmetic.
pub proof fn lemma_byte_fields(a: u8)
    by (bit_vector)
    ensures
        a & 0xF == a % 16,
        a & 0x0F == a % 16,
        (a & 0x80 != 0) == (a >= 128),
        (a & 0x01 != 0) == (a % 2 == 1),
        a & 0x07 == a % 8,
        (a >> 3u8) & 0x07 == (a / 8) % 8,
        (a >> 4u8) & 0x03 == (a / 16) % 4,
{
}

/// Shifts and rotations of a byte, stated as arithmetic.
pub proof fn lemma_byte_shl(a: u8)
    by (bit_vector)
    ensures
        (a << 1u8) == (a * 2) % 256,
{
}

pub proof fn lemma_byte_shr(a: u8)
    by (bit_vector)
    ensures
        (a >> 1u8) == a / 2,
{
}

pub proof fn lemma_byte_shl_or_1(a: u8)
    by (bit_vector)
    ensures
        ((a << 1u8) | 1u8) == (a * 2) % 256 + 1,
{
}

pub proof fn lemma_byte_shl_or_0(a: u8)
    by (bit_vector)
    ensures
        ((a << 1u8) | 0u8) == (a * 2) % 256,
{
}

pub proof fn lemma_byte_shr_or_80(a: u8)
    by (bit_vector)
    ensures
        ((a >> 1u8) | 0x80u8) == a / 2 + 128,
{
}

pub proof fn lemma_byte_shr_or_0(a: u8)
    by (bit_vector)
    ensures
        ((a >> 1u8) | 0u8) == a / 2,
{
}

pub proof fn lemma_byte_sra(a: u8)
    by (bit_vector)
    ensures
        ((a >> 1u8) | (a & 0x80)) == a / 2 + (a / 128) * 128,
{
}

pub proof fn lemma_byte_swap(a: u8)
    by (bit_vector)
    ensures
        ((a << 4u8) | (a >> 4u8)) == (a % 16) * 16 + a / 16,
{
}

pub proof fn lemma_byte_shr3(a: u8)
    by (bit_vector)
    ensures
        (a >> 3u8) == a / 8,
{
}

/// Other masks of a byte.
pub proof fn lemma_byte_masks(a: u8)
    by (bit_vector)
    ensures
        (a & 0xF0) & 0x80 == a & 0x80,
        (a & 0xF0) & 0x40 == a & 0x40,
        (a & 0xF0) & 0x20 == a & 0x20,
        (a & 0xF0) & 0x10 == a & 0x10,
        0xFF00u16 | (a as u16) == 0xFF00 + a,
        (a as u16) | 0xFF00u16 == 0xFF00 + a,
{
}

/// Reduction modulo 256 of a value within one wrap of a byte.
pub proof fn lemma_mod256(x: int)
    requires
        -256 <= x < 512,
    ensures
        x % 256 == if x < 0 {
            x + 256
        } else if x >= 256 {
            x - 256
        } else {
            x
        },
{
}

/// Reduction modulo 0x10000 of a value within one wrap of a word.
pub proof fn lemma_mod65536(x: int)
    requires
        -0x10000 <= x < 0x20000,
    ensures
        x % 0x10000 == if x < 0 {
            x + 0x10000
        } else if x >= 0x10000 {
            x - 0x10000
        } else {
            x
        },
{
}

/// Facts about one word, stated as arithmetic.
pub proof fn lemma_word(v: u16)
    by (bit_vector)
    ensures
        v & 0xFFF == v % 4096,
        v & 0xFF == v % 256,
        (v & 0xFF) & 0xF == v % 16,
        ((v & 0xFF) & 0xF) as u8 == v % 16,
        (v >> 8u16) == v / 256,
        ((v >> 8u16) as u8) == v / 256,
        (v as u8) == v % 256,
{
}

/// The flags of an offset addition: bits 4 and 8 of `sp ^ off ^ res` are the carries out
/// of bits 3 and 7, which only the low byte of the offset decides.
pub proof fn lemma_offset_carries(sp: u16, imm: u8, off: u16, res: u16)
    by (bit_vector)
    requires
        imm < 128 ==> off == imm as u16,
        imm >= 128 ==> off == (imm as u16) | 0xFF00u16,
        sp + off > 0xFFFF ==> res == sp + off - 0x10000,
        sp + off <= 0xFFFF ==> res == sp + off,
    ensures
        ((sp ^ off ^ res) & 0x10 != 0) == (sp % 16 + imm % 16 > 15),
        ((sp ^ off ^ res) & 0x100 != 0) == (sp % 256 + imm > 255),
{
}

} // verus!
