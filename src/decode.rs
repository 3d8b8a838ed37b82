use vstd::prelude::*;

verus! {

/// The opcode field: bits 6..0.
pub open spec fn opcode_of(w: u32) -> u8 {
    (w & 0x7f) as u8
}

/// The destination register field: bits 11..7.
pub open spec fn rd_of(w: u32) -> usize {
    ((w >> 7) & 0x1f) as usize
}

/// The jump immediate, sign-extended to 32 bits. Its groups sit in the word
/// as: bit 31 is immediate bit 20 (the sign), bits 30..21 are immediate bits
/// 10..1, bit 20 is immediate bit 11, bits 19..12 are immediate bits 19..12;
/// immediate bit 0 is zero.
pub open spec fn j_imm_of(w: u32) -> u32 {
    let low = (((w >> 21) & 0x3ff) << 1) | (((w >> 20) & 1) << 11) | (((w >> 12) & 0xff) << 12);
    if (w >> 31) & 1 == 1 {
        low | 0xfff0_0000
    } else {
        low
    }
}

/// The jump offset as a signed integer: an even value in `[-2^20, 2^20)`.
pub open spec fn j_offset(w: u32) -> int {
    ((w >> 21) & 0x3ff) as int * 2 + ((w >> 20) & 1) as int * 0x800 + ((w >> 12) & 0xff) as int * 0x1000
        - ((w >> 31) & 1) as int * 0x10_0000
}

/// The reassembled immediate is the signed offset, sign-extended to 32 bits;
/// the offset is even and fits in 21 bits.
pub proof fn lemma_j_imm_value(w: u32)
    ensures
        j_imm_of(w) as int == (if j_offset(w) < 0 { j_offset(w) + 0x1_0000_0000 } else { j_offset(w) }),
        -0x10_0000 <= j_offset(w) < 0x10_0000,
        j_offset(w) % 2 == 0,
{
    assert(j_imm_of(w) as int == (if j_offset(w) < 0 { j_offset(w) + 0x1_0000_0000 } else { j_offset(w) }))
        by (bit_vector);
    assert(-0x10_0000 <= j_offset(w) < 0x10_0000 && j_offset(w) % 2 == 0) by (bit_vector);
}

/// A RISC-V instruction word.
pub struct Insn(pub u32);

impl Insn {
    /// The opcode: the low seven bits.
    pub fn get_opcode(&self) -> (r: u8)
        ensures
            r == opcode_of(self.0),
            r < 0x80,
    {
        let w = self.0;
        assert(w & 0x7f < 0x80) by (bit_vector);
        (w & 0x7f) as u8
    }

    /// The index of the destination register.
    pub fn get_rd(&self) -> (r: usize)
        ensures
            r == rd_of(self.0),
            r < 32,
    {
        let w = self.0;
        assert((w >> 7) & 0x1f < 32) by (bit_vector);
        ((w >> 7) & 0x1f) as usize
    }

    /// The offset of a jump-and-link, sign-extended; it is always even.
    pub fn get_j_imm(&self) -> (r: u32)
        ensures
            r == j_imm_of(self.0),
            r as int == (if j_offset(self.0) < 0 { j_offset(self.0) + 0x1_0000_0000 } else { j_offset(self.0) }),
            -0x10_0000 <= j_offset(self.0) < 0x10_0000,
            j_offset(self.0) % 2 == 0,
            r & 1 == 0,
    {
        let w = self.0;
        let imm_10_1 = (w >> 21) & 0x3ff;
        let imm_11 = (w >> 20) & 1;
        let imm_19_12 = (w >> 12) & 0xff;
        let low = (imm_10_1 << 1) | (imm_11 << 11) | (imm_19_12 << 12);
        let r = if (w >> 31) & 1 == 1 {
            low | 0xfff0_0000
        } else {
            low
        };
        assert(j_imm_of(w) & 1 == 0) by (bit_vector)
            requires
                j_imm_of(w) == (if (w >> 31) & 1 == 1 {
                    ((((w >> 21) & 0x3ff) << 1) | (((w >> 20) & 1) << 11) | (((w >> 12) & 0xff) << 12)) | 0xfff0_0000
                } else {
                    (((w >> 21) & 0x3ff) << 1) | (((w >> 20) & 1) << 11) | (((w >> 12) & 0xff) << 12)
                }),
        ;
        proof {
            lemma_j_imm_value(w);
        }
        r
    }
}

} // verus!
