//! The inverse of the extractors: from a record back to its word.
//!
//! A record is valid when each field fits the width that its layout gives
//! it. A valid record has exactly one word, and reading that word in the
//! record's layout gives the record back; reading any word and encoding what
//! was read gives the word back.

use crate::instruction::{
    bits, imm_b, imm_i, imm_j, imm_s, imm_u, lemma_field_ranges, lemma_immediates, BFormat,
    IFormat, ISType, Instruction, InstructionBytes, JFormat, RFormat, SFormat, UFormat,
};
use vstd::prelude::*;

verus! {

/// The `width` low bits of the two's-complement form of `imm`, as a
/// number; `modulus` is `2^width`.
pub open spec fn low_bits(imm: i32, modulus: int) -> int {
    (imm as int) % modulus
}

/// The I immediate of `word` in its twelve-bit two's-complement form.
pub open spec fn pattern_i(word: u32) -> int {
    imm_i(word) + 0x1000 * bits(word, 31, 31)
}

/// The S immediate of `word` in its twelve-bit two's-complement form.
pub open spec fn pattern_s(word: u32) -> int {
    imm_s(word) + 0x1000 * bits(word, 31, 31)
}

/// The B immediate of `word` in its thirteen-bit two's-complement form.
pub open spec fn pattern_b(word: u32) -> int {
    imm_b(word) + 0x2000 * bits(word, 31, 31)
}

/// The U immediate of `word` in its 32-bit two's-complement form.
pub open spec fn pattern_u(word: u32) -> int {
    imm_u(word) + 0x1_0000_0000 * bits(word, 31, 31)
}

/// The J immediate of `word` in its 21-bit two's-complement form.
pub open spec fn pattern_j(word: u32) -> int {
    imm_j(word) + 0x20_0000 * bits(word, 31, 31)
}

impl RFormat {
    /// Each field fits its width.
    pub open spec fn valid(self) -> bool {
        &&& self.opcode < 0x80
        &&& self.rd < 32
        &&& self.funct3 < 8
        &&& self.rs1 < 32
        &&& self.rs2 < 32
        &&& self.funct7 < 0x80
    }

    /// The word of a valid record: each field at its place.
    pub open spec fn encode_spec(self) -> InstructionBytes {
        InstructionBytes(
            (self.opcode + 0x80 * self.rd + 0x1000 * self.funct3 + 0x8000 * self.rs1 + 0x10_0000
                * self.rs2 + 0x200_0000 * self.funct7) as u32,
        )
    }

    /// Encodes the record, if it is valid.
    pub fn encode(&self) -> (r: Option<InstructionBytes>)
        ensures
            r == (if self.valid() {
                Some(self.encode_spec())
            } else {
                None
            }),
    {
        if self.opcode >= 0x80 || self.rd >= 32 || self.funct3 >= 8 || self.rs1 >= 32 || self.rs2
            >= 32 || self.funct7 >= 0x80 {
            return None;
        }
        Some(
            InstructionBytes(
                self.opcode + 0x80 * (self.rd as u32) + 0x1000 * self.funct3 + 0x8000 * (
                self.rs1 as u32) + 0x10_0000 * (self.rs2 as u32) + 0x200_0000 * self.funct7,
            ),
        )
    }

    /// Reading the word of a valid record gives the record back.
    pub proof fn lemma_decode_encode(self)
        requires
            self.valid(),
        ensures
            RFormat::spec_from(self.encode_spec()) == self,
    {
        let (opcode, rd, funct3) = (self.opcode, self.rd as u32, self.funct3);
        let (rs1, rs2, funct7) = (self.rs1 as u32, self.rs2 as u32, self.funct7);
        let w = self.encode_spec().0;
        assert(bits(w, 6, 0) == opcode && bits(w, 11, 7) == rd && bits(w, 14, 12) == funct3
            && bits(w, 19, 15) == rs1 && bits(w, 24, 20) == rs2 && bits(w, 31, 25) == funct7)
            by (bit_vector)
            requires
                w == opcode + 0x80 * rd + 0x1000 * funct3 + 0x8000 * rs1 + 0x10_0000 * rs2
                    + 0x200_0000 * funct7,
                opcode < 0x80 && rd < 32 && funct3 < 8 && rs1 < 32 && rs2 < 32 && funct7 < 0x80,
        ;
    }

    /// Every word read in this layout gives a valid record, whose word it is.
    pub proof fn lemma_encode_decode(word: InstructionBytes)
        ensures
            RFormat::spec_from(word).valid(),
            RFormat::spec_from(word).encode_spec() == word,
    {
        let w = word.0;
        lemma_field_ranges(w);
        assert(w == bits(w, 6, 0) + 0x80 * bits(w, 11, 7) + 0x1000 * bits(w, 14, 12) + 0x8000
            * bits(w, 19, 15) + 0x10_0000 * bits(w, 24, 20) + 0x200_0000 * bits(w, 31, 25))
            by (bit_vector);
    }
}

impl IFormat {
    /// Each field fits its width.
    pub open spec fn valid(self) -> bool {
        &&& self.opcode < 0x80
        &&& self.rd < 32
        &&& self.funct3 < 8
        &&& self.rs1 < 32
        &&& -0x800 <= self.imm < 0x800
    }

    /// The word of a valid record: each field at its place, the immediate
    /// in its twelve-bit two's-complement form.
    pub open spec fn encode_spec(self) -> InstructionBytes {
        InstructionBytes(
            (self.opcode + 0x80 * self.rd + 0x1000 * self.funct3 + 0x8000 * self.rs1 + 0x10_0000
                * low_bits(self.imm, 0x1000)) as u32,
        )
    }

    /// Encodes the record, if it is valid.
    pub fn encode(&self) -> (r: Option<InstructionBytes>)
        ensures
            r == (if self.valid() {
                Some(self.encode_spec())
            } else {
                None
            }),
    {
        if self.opcode >= 0x80 || self.rd >= 32 || self.funct3 >= 8 || self.rs1 >= 32 || self.imm
            < -0x800 || self.imm >= 0x800 {
            return None;
        }
        let field: u32 = if self.imm < 0 {
            (self.imm + 0x1000) as u32
        } else {
            self.imm as u32
        };
        assert(field == low_bits(self.imm, 0x1000));
        Some(
            InstructionBytes(
                self.opcode + 0x80 * (self.rd as u32) + 0x1000 * self.funct3 + 0x8000 * (
                self.rs1 as u32) + 0x10_0000 * field,
            ),
        )
    }

    /// Reading the word of a valid record gives the record back.
    pub proof fn lemma_decode_encode(self)
        requires
            self.valid(),
        ensures
            IFormat::spec_from(self.encode_spec()) == self,
    {
        let (opcode, rd, funct3) = (self.opcode, self.rd as u32, self.funct3);
        let (rs1, imm) = (self.rs1 as u32, self.imm);
        let field = low_bits(imm, 0x1000) as u32;
        let w = self.encode_spec().0;
        assert(bits(w, 6, 0) == opcode && bits(w, 11, 7) == rd && bits(w, 14, 12) == funct3
            && bits(w, 19, 15) == rs1 && imm_i(w) == imm) by (bit_vector)
            requires
                w == opcode + 0x80 * rd + 0x1000 * funct3 + 0x8000 * rs1 + 0x10_0000 * field,
                opcode < 0x80 && rd < 32 && funct3 < 8 && rs1 < 32,
                imm < 0 ==> field == imm + 0x1000,
                imm >= 0 ==> field == imm,
                imm + 0x800 >= 0 && imm < 0x800,
        ;
    }

    /// Every word read in this layout gives a valid record, whose word it is.
    pub proof fn lemma_encode_decode(word: InstructionBytes)
        ensures
            IFormat::spec_from(word).valid(),
            IFormat::spec_from(word).encode_spec() == word,
    {
        let w = word.0;
        lemma_field_ranges(w);
        lemma_immediates(w);
        assert(0 <= pattern_i(w) < 0x1000 && w == bits(w, 6, 0) + 0x80 * bits(w, 11, 7) + 0x1000
            * bits(w, 14, 12) + 0x8000 * bits(w, 19, 15) + 0x10_0000 * pattern_i(w))
            by (bit_vector);
        assert(low_bits(IFormat::spec_from(word).imm, 0x1000) == pattern_i(w));
    }
}

impl ISType {
    /// Each field fits its width.
    pub open spec fn valid(self) -> bool {
        &&& self.opcode < 0x80
        &&& self.rd < 32
        &&& self.funct3 < 8
        &&& self.rs1 < 32
        &&& self.shamt < 32
        &&& self.imm < 0x80
    }

    /// The word of a valid record: each field at its place.
    pub open spec fn encode_spec(self) -> InstructionBytes {
        InstructionBytes(
            (self.opcode + 0x80 * self.rd + 0x1000 * self.funct3 + 0x8000 * self.rs1 + 0x10_0000
                * self.shamt + 0x200_0000 * self.imm) as u32,
        )
    }

    /// Encodes the record, if it is valid.
    pub fn encode(&self) -> (r: Option<InstructionBytes>)
        ensures
            r == (if self.valid() {
                Some(self.encode_spec())
            } else {
                None
            }),
    {
        if self.opcode >= 0x80 || self.rd >= 32 || self.funct3 >= 8 || self.rs1 >= 32
            || self.shamt >= 32 || self.imm >= 0x80 {
            return None;
        }
        Some(
            InstructionBytes(
                self.opcode + 0x80 * (self.rd as u32) + 0x1000 * self.funct3 + 0x8000 * (
                self.rs1 as u32) + 0x10_0000 * self.shamt + 0x200_0000 * self.imm,
            ),
        )
    }

    /// Reading the word of a valid record gives the record back.
    pub proof fn lemma_decode_encode(self)
        requires
            self.valid(),
        ensures
            ISType::spec_from(self.encode_spec()) == self,
    {
        let (opcode, rd, funct3) = (self.opcode, self.rd as u32, self.funct3);
        let (rs1, shamt, imm) = (self.rs1 as u32, self.shamt, self.imm);
        let w = self.encode_spec().0;
        assert(bits(w, 6, 0) == opcode && bits(w, 11, 7) == rd && bits(w, 14, 12) == funct3
            && bits(w, 19, 15) == rs1 && bits(w, 24, 20) == shamt && bits(w, 31, 25) == imm)
            by (bit_vector)
            requires
                w == opcode + 0x80 * rd + 0x1000 * funct3 + 0x8000 * rs1 + 0x10_0000 * shamt
                    + 0x200_0000 * imm,
                opcode < 0x80 && rd < 32 && funct3 < 8 && rs1 < 32 && shamt < 32 && imm < 0x80,
        ;
    }

    /// Every word read in this layout gives a valid record, whose word it is.
    pub proof fn lemma_encode_decode(word: InstructionBytes)
        ensures
            ISType::spec_from(word).valid(),
            ISType::spec_from(word).encode_spec() == word,
    {
        lemma_field_ranges(word.0);
        RFormat::lemma_encode_decode(word);
    }
}

impl SFormat {
    /// Each field fits its width.
    pub open spec fn valid(self) -> bool {
        &&& self.opcode < 0x80
        &&& self.funct3 < 8
        &&& self.rs1 < 32
        &&& self.rs2 < 32
        &&& -0x800 <= self.imm < 0x800
    }

    /// The word of a valid record: each field at its place, the five low
    /// bits of the immediate apart from its seven high bits.
    pub open spec fn encode_spec(self) -> InstructionBytes {
        let field = low_bits(self.imm, 0x1000);
        InstructionBytes(
            (self.opcode + 0x80 * (field % 32) + 0x1000 * self.funct3 + 0x8000 * self.rs1
                + 0x10_0000 * self.rs2 + 0x200_0000 * (field / 32)) as u32,
        )
    }

    /// Encodes the record, if it is valid.
    pub fn encode(&self) -> (r: Option<InstructionBytes>)
        ensures
            r == (if self.valid() {
                Some(self.encode_spec())
            } else {
                None
            }),
    {
        if self.opcode >= 0x80 || self.funct3 >= 8 || self.rs1 >= 32 || self.rs2 >= 32 || self.imm
            < -0x800 || self.imm >= 0x800 {
            return None;
        }
        let field: u32 = if self.imm < 0 {
            (self.imm + 0x1000) as u32
        } else {
            self.imm as u32
        };
        assert(field == low_bits(self.imm, 0x1000));
        Some(
            InstructionBytes(
                self.opcode + 0x80 * (field % 32) + 0x1000 * self.funct3 + 0x8000 * (
                self.rs1 as u32) + 0x10_0000 * (self.rs2 as u32) + 0x200_0000 * (field / 32),
            ),
        )
    }

    /// Reading the word of a valid record gives the record back.
    pub proof fn lemma_decode_encode(self)
        requires
            self.valid(),
        ensures
            SFormat::spec_from(self.encode_spec()) == self,
    {
        let (opcode, funct3, imm) = (self.opcode, self.funct3, self.imm);
        let (rs1, rs2) = (self.rs1 as u32, self.rs2 as u32);
        let field = low_bits(imm, 0x1000) as u32;
        let w = self.encode_spec().0;
        assert(bits(w, 6, 0) == opcode && bits(w, 14, 12) == funct3 && bits(w, 19, 15) == rs1
            && bits(w, 24, 20) == rs2 && imm_s(w) == imm) by (bit_vector)
            requires
                w == opcode + 0x80 * (field % 32) + 0x1000 * funct3 + 0x8000 * rs1 + 0x10_0000
                    * rs2 + 0x200_0000 * (field / 32),
                opcode < 0x80 && funct3 < 8 && rs1 < 32 && rs2 < 32,
                imm < 0 ==> field == imm + 0x1000,
                imm >= 0 ==> field == imm,
                imm + 0x800 >= 0 && imm < 0x800,
        ;
    }

    /// Every word read in this layout gives a valid record, whose word it is.
    pub proof fn lemma_encode_decode(word: InstructionBytes)
        ensures
            SFormat::spec_from(word).valid(),
            SFormat::spec_from(word).encode_spec() == word,
    {
        let w = word.0;
        lemma_field_ranges(w);
        lemma_immediates(w);
        assert(0 <= pattern_s(w) < 0x1000 && pattern_s(w) % 32 == bits(w, 11, 7) && pattern_s(w)
            / 32 == bits(w, 31, 25) && w == bits(w, 6, 0) + 0x80 * bits(w, 11, 7) + 0x1000 * bits(
            w,
            14,
            12,
        ) + 0x8000 * bits(w, 19, 15) + 0x10_0000 * bits(w, 24, 20) + 0x200_0000 * bits(w, 31, 25))
            by (bit_vector);
        assert(low_bits(SFormat::spec_from(word).imm, 0x1000) == pattern_s(w));
    }
}

impl BFormat {
    /// Each field fits its width, and the offset is even.
    pub open spec fn valid(self) -> bool {
        &&& self.opcode < 0x80
        &&& self.funct3 < 8
        &&& self.rs1 < 32
        &&& self.rs2 < 32
        &&& -0x1000 <= self.imm < 0x1000
        &&& self.imm % 2 == 0
    }

    /// The word of a valid record: each field at its place, the offset in
    /// its four parts.
    pub open spec fn encode_spec(self) -> InstructionBytes {
        let field = low_bits(self.imm, 0x2000);
        InstructionBytes(
            (self.opcode + 0x80 * ((field / 0x800) % 2) + 0x100 * ((field / 2) % 16) + 0x1000
                * self.funct3 + 0x8000 * self.rs1 + 0x10_0000 * self.rs2 + 0x200_0000 * ((field
                / 32) % 64) + 0x8000_0000 * (field / 0x1000)) as u32,
        )
    }

    /// Encodes the record, if it is valid.
    pub fn encode(&self) -> (r: Option<InstructionBytes>)
        ensures
            r == (if self.valid() {
                Some(self.encode_spec())
            } else {
                None
            }),
    {
        if self.opcode >= 0x80 || self.funct3 >= 8 || self.rs1 >= 32 || self.rs2 >= 32 || self.imm
            < -0x1000 || self.imm >= 0x1000 || self.imm % 2 != 0 {
            return None;
        }
        let field: u32 = if self.imm < 0 {
            (self.imm + 0x2000) as u32
        } else {
            self.imm as u32
        };
        assert(field == low_bits(self.imm, 0x2000));
        Some(
            InstructionBytes(
                self.opcode + 0x80 * ((field / 0x800) % 2) + 0x100 * ((field / 2) % 16) + 0x1000
                    * self.funct3 + 0x8000 * (self.rs1 as u32) + 0x10_0000 * (self.rs2 as u32)
                    + 0x200_0000 * ((field / 32) % 64) + 0x8000_0000 * (field / 0x1000),
            ),
        )
    }

    /// Reading the word of a valid record gives the record back.
    pub proof fn lemma_decode_encode(self)
        requires
            self.valid(),
        ensures
            BFormat::spec_from(self.encode_spec()) == self,
    {
        let (opcode, funct3, imm) = (self.opcode, self.funct3, self.imm);
        let (rs1, rs2) = (self.rs1 as u32, self.rs2 as u32);
        let field = low_bits(imm, 0x2000) as u32;
        let w = self.encode_spec().0;
        assert(bits(w, 6, 0) == opcode && bits(w, 14, 12) == funct3 && bits(w, 19, 15) == rs1
            && bits(w, 24, 20) == rs2 && imm_b(w) == imm) by (bit_vector)
            requires
                w == opcode + 0x80 * ((field / 0x800) % 2) + 0x100 * ((field / 2) % 16) + 0x1000
                    * funct3 + 0x8000 * rs1 + 0x10_0000 * rs2 + 0x200_0000 * ((field / 32) % 64)
                    + 0x8000_0000 * (field / 0x1000),
                opcode < 0x80 && funct3 < 8 && rs1 < 32 && rs2 < 32,
                imm < 0 ==> field == imm + 0x2000,
                imm >= 0 ==> field == imm,
                imm + 0x1000 >= 0 && imm < 0x1000,
                field % 2 == 0,
        ;
    }

    /// Every word read in this layout gives a valid record, whose word it is.
    pub proof fn lemma_encode_decode(word: InstructionBytes)
        ensures
            BFormat::spec_from(word).valid(),
            BFormat::spec_from(word).encode_spec() == word,
    {
        let w = word.0;
        lemma_field_ranges(w);
        lemma_immediates(w);
        assert(0 <= pattern_b(w) < 0x2000 && w == bits(w, 6, 0) + 0x80 * ((pattern_b(w) / 0x800)
            % 2) + 0x100 * ((pattern_b(w) / 2) % 16) + 0x1000 * bits(w, 14, 12) + 0x8000 * bits(
            w,
            19,
            15,
        ) + 0x10_0000 * bits(w, 24, 20) + 0x200_0000 * ((pattern_b(w) / 32) % 64) + 0x8000_0000 * (
        pattern_b(w) / 0x1000)) by (bit_vector);
        assert(low_bits(BFormat::spec_from(word).imm, 0x2000) == pattern_b(w));
    }
}

impl UFormat {
    /// Each field fits its width, and the low twelve bits of the immediate
    /// are zero.
    pub open spec fn valid(self) -> bool {
        &&& self.opcode < 0x80
        &&& self.rd < 32
        &&& self.imm % 0x1000 == 0
    }

    /// The word of a valid record: each field at its place, the immediate
    /// where it stands.
    pub open spec fn encode_spec(self) -> InstructionBytes {
        InstructionBytes(
            (self.opcode + 0x80 * self.rd + low_bits(self.imm, 0x1_0000_0000)) as u32,
        )
    }

    /// Encodes the record, if it is valid.
    pub fn encode(&self) -> (r: Option<InstructionBytes>)
        ensures
            r == (if self.valid() {
                Some(self.encode_spec())
            } else {
                None
            }),
    {
        if self.opcode >= 0x80 || self.rd >= 32 || self.imm % 0x1000 != 0 {
            return None;
        }
        let field: u64 = if self.imm < 0 {
            (self.imm as i64 + 0x1_0000_0000) as u64
        } else {
            self.imm as u64
        };
        assert(field == low_bits(self.imm, 0x1_0000_0000));
        Some(InstructionBytes((self.opcode as u64 + 0x80 * (self.rd as u64) + field) as u32))
    }

    /// Reading the word of a valid record gives the record back.
    pub proof fn lemma_decode_encode(self)
        requires
            self.valid(),
        ensures
            UFormat::spec_from(self.encode_spec()) == self,
    {
        let (opcode, rd, imm) = (self.opcode, self.rd as u32, self.imm);
        let field = low_bits(imm, 0x1_0000_0000) as u32;
        let w = self.encode_spec().0;
        assert(bits(w, 6, 0) == opcode && bits(w, 11, 7) == rd && imm_u(w) == imm)
            by (bit_vector)
            requires
                w == opcode + 0x80 * rd + field,
                opcode < 0x80 && rd < 32,
                imm < 0 ==> field == imm + 0x1_0000_0000,
                imm >= 0 ==> field == imm,
                field % 0x1000 == 0,
        ;
    }

    /// Every word read in this layout gives a valid record, whose word it is.
    pub proof fn lemma_encode_decode(word: InstructionBytes)
        ensures
            UFormat::spec_from(word).valid(),
            UFormat::spec_from(word).encode_spec() == word,
    {
        let w = word.0;
        lemma_field_ranges(w);
        lemma_immediates(w);
        assert(0 <= pattern_u(w) < 0x1_0000_0000 && w == bits(w, 6, 0) + 0x80 * bits(w, 11, 7)
            + pattern_u(w)) by (bit_vector);
        assert(low_bits(UFormat::spec_from(word).imm, 0x1_0000_0000) == pattern_u(w));
    }
}

impl JFormat {
    /// Each field fits its width, and the offset is even.
    pub open spec fn valid(self) -> bool {
        &&& self.opcode < 0x80
        &&& self.rd < 32
        &&& -0x10_0000 <= self.imm < 0x10_0000
        &&& self.imm % 2 == 0
    }

    /// The word of a valid record: each field at its place, the offset in
    /// its four parts.
    pub open spec fn encode_spec(self) -> InstructionBytes {
        let field = low_bits(self.imm, 0x20_0000);
        InstructionBytes(
            (self.opcode + 0x80 * self.rd + 0x1000 * ((field / 0x1000) % 0x100) + 0x10_0000 * ((
            field / 0x800) % 2) + 0x20_0000 * ((field / 2) % 0x400) + 0x8000_0000 * (field
                / 0x10_0000)) as u32,
        )
    }

    /// Encodes the record, if it is valid.
    pub fn encode(&self) -> (r: Option<InstructionBytes>)
        ensures
            r == (if self.valid() {
                Some(self.encode_spec())
            } else {
                None
            }),
    {
        if self.opcode >= 0x80 || self.rd >= 32 || self.imm < -0x10_0000 || self.imm >= 0x10_0000
            || self.imm % 2 != 0 {
            return None;
        }
        let field: u32 = if self.imm < 0 {
            (self.imm + 0x20_0000) as u32
        } else {
            self.imm as u32
        };
        assert(field == low_bits(self.imm, 0x20_0000));
        Some(
            InstructionBytes(
                self.opcode + 0x80 * (self.rd as u32) + 0x1000 * ((field / 0x1000) % 0x100)
                    + 0x10_0000 * ((field / 0x800) % 2) + 0x20_0000 * ((field / 2) % 0x400)
                    + 0x8000_0000 * (field / 0x10_0000),
            ),
        )
    }

    /// Reading the word of a valid record gives the record back.
    pub proof fn lemma_decode_encode(self)
        requires
            self.valid(),
        ensures
            JFormat::spec_from(self.encode_spec()) == self,
    {
        let (opcode, rd, imm) = (self.opcode, self.rd as u32, self.imm);
        let field = low_bits(imm, 0x20_0000) as u32;
        let w = self.encode_spec().0;
        assert(bits(w, 6, 0) == opcode && bits(w, 11, 7) == rd && imm_j(w) == imm)
            by (bit_vector)
            requires
                w == opcode + 0x80 * rd + 0x1000 * ((field / 0x1000) % 0x100) + 0x10_0000 * ((
                field / 0x800) % 2) + 0x20_0000 * ((field / 2) % 0x400) + 0x8000_0000 * (field
                    / 0x10_0000),
                opcode < 0x80 && rd < 32,
                imm < 0 ==> field == imm + 0x20_0000,
                imm >= 0 ==> field == imm,
                imm + 0x10_0000 >= 0 && imm < 0x10_0000,
                field % 2 == 0,
        ;
    }

    /// Every word read in this layout gives a valid record, whose word it is.
    pub proof fn lemma_encode_decode(word: InstructionBytes)
        ensures
            JFormat::spec_from(word).valid(),
            JFormat::spec_from(word).encode_spec() == word,
    {
        let w = word.0;
        lemma_field_ranges(w);
        lemma_immediates(w);
        assert(0 <= pattern_j(w) < 0x20_0000 && w == bits(w, 6, 0) + 0x80 * bits(w, 11, 7) + 0x1000
            * ((pattern_j(w) / 0x1000) % 0x100) + 0x10_0000 * ((pattern_j(w) / 0x800) % 2)
            + 0x20_0000 * ((pattern_j(w) / 2) % 0x400) + 0x8000_0000 * (pattern_j(w) / 0x10_0000))
            by (bit_vector);
        assert(low_bits(JFormat::spec_from(word).imm, 0x20_0000) == pattern_j(w));
    }
}

impl Instruction {
    /// The word of an instruction: that of its record if the record is
    /// valid, and the raw word of an inert instruction.
    pub open spec fn encode_spec(self) -> Option<InstructionBytes> {
        match self {
            Instruction::R(i) => if i.valid() {
                Some(i.encode_spec())
            } else {
                None
            },
            Instruction::I(i) => if i.valid() {
                Some(i.encode_spec())
            } else {
                None
            },
            Instruction::S(i) => if i.valid() {
                Some(i.encode_spec())
            } else {
                None
            },
            Instruction::B(i) => if i.valid() {
                Some(i.encode_spec())
            } else {
                None
            },
            Instruction::U(i) => if i.valid() {
                Some(i.encode_spec())
            } else {
                None
            },
            Instruction::J(i) => if i.valid() {
                Some(i.encode_spec())
            } else {
                None
            },
            Instruction::NOP(word) => Some(word),
        }
    }

    /// Encodes the instruction, if its record is valid.
    pub fn encode(&self) -> (r: Option<InstructionBytes>)
        ensures
            r == self.encode_spec(),
    {
        match self {
            Instruction::R(i) => i.encode(),
            Instruction::I(i) => i.encode(),
            Instruction::S(i) => i.encode(),
            Instruction::B(i) => i.encode(),
            Instruction::U(i) => i.encode(),
            Instruction::J(i) => i.encode(),
            Instruction::NOP(word) => Some(*word),
        }
    }
}

} // verus!
