//! Instruction words, the six encoding formats, and the classifier that maps
//! a word to its format.
//!
//! Every extractor is total: it yields a record for any 32-bit word. The
//! contracts are stated over [`bits`], the arithmetic reading of a bit range,
//! and over the `imm_*` functions, which give each format's immediate as the
//! two's-complement value of its scattered bits.

use crate::memory::Memory;
use vstd::prelude::*;
use vstd::std_specs::convert::{FromSpecImpl, TryFromSpecImpl};

verus! {

/// Opcode of LUI (load upper immediate).
pub const OPCODE_LUI: u32 = 0b0110111;

/// Opcode of AUIPC (add upper immediate to pc).
pub const OPCODE_AUIPC: u32 = 0b0010111;

/// Opcode of JAL (jump and link).
pub const OPCODE_JAL: u32 = 0b1101111;

/// Opcode of JALR (jump and link register).
pub const OPCODE_JALR: u32 = 0b1100111;

/// Opcode of the conditional branches.
pub const OPCODE_BRANCH: u32 = 0b1100011;

/// Opcode of the loads.
pub const OPCODE_LOAD: u32 = 0b0000011;

/// Opcode of the register-immediate operations.
pub const OPCODE_OP_IMM: u32 = 0b0010011;

/// Opcode of the stores.
pub const OPCODE_STORE: u32 = 0b0100011;

/// Opcode of the register-register operations.
pub const OPCODE_OP: u32 = 0b0110011;

/// Opcode of FENCE and FENCE.I.
pub const OPCODE_MISC_MEM: u32 = 0b0001111;

/// Opcode of ECALL, EBREAK and the CSR instructions.
pub const OPCODE_SYSTEM: u32 = 0b1110011;

/// Two to the power `n`.
pub open spec fn exp2(n: nat) -> int
    decreases n,
{
    if n == 0 {
        1
    } else {
        2 * exp2((n - 1) as nat)
    }
}

/// The bits `hi ..= lo` of `word`, read as an unsigned number.
pub open spec fn bits(word: u32, hi: nat, lo: nat) -> int
    recommends
        lo <= hi < 32,
{
    (word as int / exp2(lo)) % exp2((hi + 1 - lo) as nat)
}

/// The I-format immediate: bits 31..20, sign bit 31.
pub open spec fn imm_i(word: u32) -> int {
    bits(word, 30, 20) - 0x800 * bits(word, 31, 31)
}

/// The S-format immediate: `imm[11:5]` in bits 31..25 and `imm[4:0]` in bits
/// 11..7, sign bit 31.
pub open spec fn imm_s(word: u32) -> int {
    bits(word, 11, 7) + 0x20 * bits(word, 30, 25) - 0x800 * bits(word, 31, 31)
}

/// The B-format immediate: `imm[4:1]` in bits 11..8, `imm[10:5]` in bits
/// 30..25, `imm[11]` in bit 7, sign bit 31 with weight `2^12`.
pub open spec fn imm_b(word: u32) -> int {
    2 * bits(word, 11, 8) + 0x20 * bits(word, 30, 25) + 0x800 * bits(word, 7, 7) - 0x1000 * bits(
        word,
        31,
        31,
    )
}

/// The U-format immediate: bits 31..12 in place, the low twelve bits zero.
pub open spec fn imm_u(word: u32) -> int {
    0x1000 * bits(word, 30, 12) - 0x8000_0000 * bits(word, 31, 31)
}

/// The J-format immediate: `imm[10:1]` in bits 30..21, `imm[11]` in bit 20,
/// `imm[19:12]` in bits 19..12, sign bit 31 with weight `2^20`.
pub open spec fn imm_j(word: u32) -> int {
    2 * bits(word, 30, 21) + 0x800 * bits(word, 20, 20) + 0x1000 * bits(word, 19, 12) - 0x10_0000
        * bits(word, 31, 31)
}

/// The range of each field that the layouts share.
pub proof fn lemma_field_ranges(w: u32)
    by (bit_vector)
    ensures
        0 <= bits(w, 6, 0) < 0x80 && 0 <= bits(w, 11, 7) < 32 && 0 <= bits(w, 14, 12) < 8 && 0
            <= bits(w, 19, 15) < 32 && 0 <= bits(w, 24, 20) < 32 && 0 <= bits(w, 31, 25) < 0x80
            && 0 <= bits(w, 31, 31) < 2,
{
}

/// The range of each format's immediate, and the bits of it that are
/// always zero: the branch and jump offsets are even, and the upper
/// immediate is a multiple of `2^12`.
pub proof fn lemma_immediates(w: u32)
    by (bit_vector)
    ensures
        0 <= imm_i(w) + 0x800 < 0x1000 && 0 <= imm_s(w) + 0x800 < 0x1000 && 0 <= imm_b(w) + 0x1000
            < 0x2000 && imm_b(w) % 2 == 0 && 0 <= imm_u(w) + 0x8000_0000 < 0x1_0000_0000 && imm_u(w)
            % 0x1000 == 0 && 0 <= imm_j(w) + 0x10_0000 < 0x20_0000 && imm_j(w) % 2 == 0,
{
}

/// The exceptions a hart can raise.
#[derive(Clone, Copy, Debug, PartialEq, Eq, Structural)]
pub enum InstructionException {
    /// The word, or the record handed to the dispatcher, encodes no operation.
    IllegalInstruction,
    /// The program counter lies outside the instruction store.
    FetchFault,
    /// A jump target, the program counter or a data address is misaligned.
    AlignmentFault,
    /// A load or store reaches outside the data store.
    MemoryAccessFault,
}

/// A raw 32-bit instruction word.
#[derive(Clone, Copy, Debug, PartialEq, Eq, Structural)]
pub struct InstructionBytes(pub u32);

/// The masks and shifts that cut the shared fields out of a word.
proof fn lemma_common_fields(w: u32)
    by (bit_vector)
    ensures
        w & 0x7f == bits(w, 6, 0),
        (w >> 7) & 0x1f == bits(w, 11, 7),
        (w >> 12) & 0x7 == bits(w, 14, 12),
        (w >> 15) & 0x1f == bits(w, 19, 15),
        (w >> 20) & 0x1f == bits(w, 24, 20),
        (w >> 25) & 0x7f == bits(w, 31, 25),
        (w & 0x8000_0000 != 0) <==> bits(w, 31, 31) == 1,
        bits(w, 6, 0) < 128,
        bits(w, 11, 7) < 32,
        bits(w, 14, 12) < 8,
        bits(w, 19, 15) < 32,
        bits(w, 24, 20) < 32,
        bits(w, 31, 25) < 128,
        bits(w, 31, 31) < 2,
{
}

impl InstructionBytes {
    /// The primary opcode: bits 6..0 of the word.
    pub fn opcode(&self) -> (r: u32)
        ensures
            r == bits(self.0, 6, 0),
            r < 128,
    {
        proof {
            lemma_common_fields(self.0);
        }
        self.0 & 0x7f
    }

    /// The secondary opcode: bits 14..12 of the word.
    pub fn funct3(&self) -> (r: u32)
        ensures
            r == bits(self.0, 14, 12),
            r < 8,
    {
        proof {
            lemma_common_fields(self.0);
        }
        (self.0 >> 12) & 0x7
    }
}

/// A register-register instruction.
///
/// ```text
/// |31        25|24    20|19    15|14    12|11     7|6       0|
/// |   funct7   |  rs2   |  rs1   | funct3 |   rd   |  opcode  |
/// ```
#[derive(Clone, Copy, Debug, PartialEq, Eq, Structural)]
pub struct RFormat {
    /// Operation bits, 3 wide.
    pub funct3: u32,
    /// Operation bits, 7 wide.
    pub funct7: u32,
    /// Index of the first source register.
    pub rs1: usize,
    /// Index of the second source register.
    pub rs2: usize,
    /// Index of the destination register.
    pub rd: usize,
    /// Primary opcode, 7 wide.
    pub opcode: u32,
}

impl RFormat {
    /// The record that a word yields when it is read in the R layout.
    pub open spec fn spec_from(v: InstructionBytes) -> RFormat {
        RFormat {
            funct3: bits(v.0, 14, 12) as u32,
            funct7: bits(v.0, 31, 25) as u32,
            rs1: bits(v.0, 19, 15) as usize,
            rs2: bits(v.0, 24, 20) as usize,
            rd: bits(v.0, 11, 7) as usize,
            opcode: bits(v.0, 6, 0) as u32,
        }
    }
}

impl FromSpecImpl<InstructionBytes> for RFormat {
    open spec fn obeys_from_spec() -> bool {
        true
    }

    open spec fn from_spec(v: InstructionBytes) -> RFormat {
        RFormat::spec_from(v)
    }
}

impl From<InstructionBytes> for RFormat {
    /// Takes a word apart in the R layout.
    fn from(instruction: InstructionBytes) -> (r: RFormat)
        ensures
            r == RFormat::spec_from(instruction),
    {
        proof {
            lemma_common_fields(instruction.0);
        }
        RFormat {
            funct3: (instruction.0 >> 12) & 0x7,
            funct7: (instruction.0 >> 25) & 0x7f,
            rs1: ((instruction.0 >> 15) & 0x1f) as usize,
            rs2: ((instruction.0 >> 20) & 0x1f) as usize,
            rd: ((instruction.0 >> 7) & 0x1f) as usize,
            opcode: instruction.0 & 0x7f,
        }
    }
}

/// A register-immediate instruction.
///
/// ```text
/// |31                20|19    15|14    12|11     7|6       0|
/// |      imm[11:0]     |  rs1   | funct3 |   rd   |  opcode  |
/// ```
#[derive(Clone, Copy, Debug, PartialEq, Eq, Structural)]
pub struct IFormat {
    /// The 12-bit immediate, sign-extended.
    pub imm: i32,
    /// Operation bits, 3 wide.
    pub funct3: u32,
    /// Index of the source register.
    pub rs1: usize,
    /// Index of the destination register.
    pub rd: usize,
    /// Primary opcode, 7 wide.
    pub opcode: u32,
}

/// The unsigned part of the I immediate, as it is cut out of a word.
proof fn lemma_imm_i(w: u32)
    by (bit_vector)
    ensures
        (w >> 20) & 0x7ff == bits(w, 30, 20),
        (w >> 20) & 0x7ff <= 0x7ff,
{
}

impl IFormat {
    /// The record that a word yields when it is read in the I layout.
    pub open spec fn spec_from(v: InstructionBytes) -> IFormat {
        IFormat {
            imm: imm_i(v.0) as i32,
            funct3: bits(v.0, 14, 12) as u32,
            rs1: bits(v.0, 19, 15) as usize,
            rd: bits(v.0, 11, 7) as usize,
            opcode: bits(v.0, 6, 0) as u32,
        }
    }
}

impl FromSpecImpl<InstructionBytes> for IFormat {
    open spec fn obeys_from_spec() -> bool {
        true
    }

    open spec fn from_spec(v: InstructionBytes) -> IFormat {
        IFormat::spec_from(v)
    }
}

impl From<InstructionBytes> for IFormat {
    /// Takes a word apart in the I layout and sign-extends its immediate.
    fn from(instruction: InstructionBytes) -> (r: IFormat)
        ensures
            r == IFormat::spec_from(instruction),
            r.imm == imm_i(instruction.0),
            -0x800 <= r.imm < 0x800,
    {
        proof {
            lemma_common_fields(instruction.0);
            lemma_imm_i(instruction.0);
        }
        let uimm: i32 = ((instruction.0 >> 20) & 0x7ff) as i32;
        let imm: i32 = if (instruction.0 & 0x8000_0000) != 0 {
            uimm - 0x800
        } else {
            uimm
        };
        IFormat {
            imm,
            funct3: instruction.funct3(),
            rs1: ((instruction.0 >> 15) & 0x1f) as usize,
            rd: ((instruction.0 >> 7) & 0x1f) as usize,
            opcode: instruction.opcode(),
        }
    }
}

/// A shift-by-immediate instruction: the I format with its immediate split
/// into a shift-type discriminator and a shift amount.
///
/// ```text
/// |31        25|24    20|19    15|14    12|11     7|6       0|
/// | imm[11:5]  | shamt  |  rs1   | funct3 |   rd   |  opcode  |
/// ```
#[derive(Clone, Copy, Debug, PartialEq, Eq, Structural)]
pub struct ISType {
    /// The shift-type discriminator, 7 wide.
    pub imm: u32,
    /// The shift amount, 5 wide.
    pub shamt: u32,
    /// Operation bits, 3 wide.
    pub funct3: u32,
    /// Index of the register to shift.
    pub rs1: usize,
    /// Index of the destination register.
    pub rd: usize,
    /// Primary opcode, 7 wide.
    pub opcode: u32,
}

/// The shift amount, as it is cut out of the I immediate.
proof fn lemma_shamt(w: u32, imm: i32)
    by (bit_vector)
    requires
        imm == imm_i(w),
    ensures
        (imm as u32) & 0x1f == bits(w, 24, 20),
{
}

impl ISType {
    /// The record that a word yields when it is read in the shift-immediate layout.
    pub open spec fn spec_from(v: InstructionBytes) -> ISType {
        ISType {
            imm: bits(v.0, 31, 25) as u32,
            shamt: bits(v.0, 24, 20) as u32,
            funct3: bits(v.0, 14, 12) as u32,
            rs1: bits(v.0, 19, 15) as usize,
            rd: bits(v.0, 11, 7) as usize,
            opcode: bits(v.0, 6, 0) as u32,
        }
    }
}

impl FromSpecImpl<InstructionBytes> for ISType {
    open spec fn obeys_from_spec() -> bool {
        true
    }

    open spec fn from_spec(v: InstructionBytes) -> ISType {
        ISType::spec_from(v)
    }
}

impl From<InstructionBytes> for ISType {
    /// Takes a word apart in the shift layout: the I layout, with the
    /// shift amount cut from the low five bits of its immediate.
    fn from(instruction: InstructionBytes) -> (r: ISType)
        ensures
            r == ISType::spec_from(instruction),
    {
        let i = IFormat::from(instruction);
        proof {
            lemma_common_fields(instruction.0);
            lemma_shamt(instruction.0, i.imm);
        }
        let shamt: u32 = (#[verifier::truncate] (i.imm as u32)) & 0x1f;
        ISType {
            imm: (instruction.0 >> 25) & 0x7f,
            shamt,
            funct3: i.funct3,
            rs1: i.rs1,
            rd: i.rd,
            opcode: instruction.0 & 0x7f,
        }
    }
}

impl ISType {
    /// The shift that an I-format record denotes: the five low bits of its
    /// immediate are the shift amount, the next seven the discriminator.
    pub open spec fn spec_from_i(v: IFormat) -> ISType {
        ISType {
            imm: ((v.imm as u32) / 32) % 128,
            shamt: (v.imm as u32) % 32,
            funct3: v.funct3,
            rs1: v.rs1,
            rd: v.rd,
            opcode: v.opcode,
        }
    }
}

impl FromSpecImpl<IFormat> for ISType {
    open spec fn obeys_from_spec() -> bool {
        true
    }

    open spec fn from_spec(v: IFormat) -> ISType {
        ISType::spec_from_i(v)
    }
}

impl From<IFormat> for ISType {
    /// Reads an I-format record as a shift by immediate.
    fn from(instruction: IFormat) -> (r: ISType)
        ensures
            r == ISType::spec_from_i(instruction),
    {
        let raw: u32 = #[verifier::truncate] (instruction.imm as u32);
        ISType {
            imm: (raw / 32) % 128,
            shamt: raw % 32,
            funct3: instruction.funct3,
            rs1: instruction.rs1,
            rd: instruction.rd,
            opcode: instruction.opcode,
        }
    }
}

/// A store instruction.
///
/// ```text
/// |31        25|24    20|19    15|14    12|11     7|6       0|
/// | imm[11:5]  |  rs2   |  rs1   | funct3 |imm[4:0]|  opcode  |
/// ```
#[derive(Clone, Copy, Debug, PartialEq, Eq, Structural)]
pub struct SFormat {
    /// The 12-bit immediate, joined from its two parts and sign-extended.
    pub imm: i32,
    /// Index of the register that holds the base address.
    pub rs1: usize,
    /// Index of the register that holds the data.
    pub rs2: usize,
    /// Operation bits, 3 wide.
    pub funct3: u32,
    /// Primary opcode, 7 wide.
    pub opcode: u32,
}

/// The unsigned part of the S immediate, as it is joined from a word.
proof fn lemma_imm_s(w: u32)
    by (bit_vector)
    ensures
        ((w >> 20) & 0x7e0) | ((w >> 7) & 0x1f) == bits(w, 11, 7) + 0x20 * bits(w, 30, 25),
        ((w >> 20) & 0x7e0) | ((w >> 7) & 0x1f) <= 0x7ff,
{
}

impl SFormat {
    /// The record that a word yields when it is read in the S layout.
    pub open spec fn spec_from(v: InstructionBytes) -> SFormat {
        SFormat {
            imm: imm_s(v.0) as i32,
            rs1: bits(v.0, 19, 15) as usize,
            rs2: bits(v.0, 24, 20) as usize,
            funct3: bits(v.0, 14, 12) as u32,
            opcode: bits(v.0, 6, 0) as u32,
        }
    }
}

impl FromSpecImpl<InstructionBytes> for SFormat {
    open spec fn obeys_from_spec() -> bool {
        true
    }

    open spec fn from_spec(v: InstructionBytes) -> SFormat {
        SFormat::spec_from(v)
    }
}

impl From<InstructionBytes> for SFormat {
    /// Takes a word apart in the S layout, joins the two parts of its
    /// immediate and sign-extends it.
    fn from(instruction: InstructionBytes) -> (r: SFormat)
        ensures
            r == SFormat::spec_from(instruction),
            r.imm == imm_s(instruction.0),
            -0x800 <= r.imm < 0x800,
    {
        proof {
            lemma_common_fields(instruction.0);
            lemma_imm_s(instruction.0);
        }
        let uimm: i32 = (((instruction.0 >> 20) & 0x7e0) | ((instruction.0 >> 7) & 0x1f)) as i32;
        let imm: i32 = if (instruction.0 & 0x8000_0000) != 0 {
            uimm - 0x800
        } else {
            uimm
        };
        SFormat {
            imm,
            rs1: ((instruction.0 >> 15) & 0x1f) as usize,
            rs2: ((instruction.0 >> 20) & 0x1f) as usize,
            funct3: (instruction.0 >> 12) & 0x7,
            opcode: instruction.0 & 0x7f,
        }
    }
}

impl ISType {
    /// The shift that an S-format record denotes. The S layout has the shift
    /// amount in its `rs2` field, and its immediate joins the discriminator
    /// (upper seven bits) to the destination register (lower five bits).
    pub open spec fn spec_from_s(v: SFormat) -> ISType {
        ISType {
            imm: ((v.imm as u32) / 32) % 128,
            shamt: v.rs2 as u32,
            funct3: v.funct3,
            rs1: v.rs1,
            rd: ((v.imm as u32) % 32) as usize,
            opcode: v.opcode,
        }
    }
}

impl FromSpecImpl<SFormat> for ISType {
    open spec fn obeys_from_spec() -> bool {
        true
    }

    open spec fn from_spec(v: SFormat) -> ISType {
        ISType::spec_from_s(v)
    }
}

impl From<SFormat> for ISType {
    /// Reads an S-format record as a shift by immediate.
    fn from(instruction: SFormat) -> (r: ISType)
        ensures
            r == ISType::spec_from_s(instruction),
    {
        let raw: u32 = #[verifier::truncate] (instruction.imm as u32);
        ISType {
            imm: (raw / 32) % 128,
            shamt: #[verifier::truncate] (instruction.rs2 as u32),
            funct3: instruction.funct3,
            rs1: instruction.rs1,
            rd: (raw % 32) as usize,
            opcode: instruction.opcode,
        }
    }
}

/// A conditional-branch instruction.
///
/// ```text
/// |31|30     25|24    20|19    15|14    12|11    8| 7|6       0|
/// |12|imm[10:5]|  rs2   |  rs1   | funct3 |imm[4:1]|11|  opcode  |
/// ```
#[derive(Clone, Copy, Debug, PartialEq, Eq, Structural)]
pub struct BFormat {
    /// The 13-bit branch offset, joined from its four parts and
    /// sign-extended. It is always even.
    pub imm: i32,
    /// Index of the first register to compare.
    pub rs1: usize,
    /// Index of the second register to compare.
    pub rs2: usize,
    /// Operation bits, 3 wide.
    pub funct3: u32,
    /// Primary opcode, 7 wide.
    pub opcode: u32,
}

/// The unsigned part of the B immediate, as it is joined from a word.
proof fn lemma_imm_b(w: u32)
    by (bit_vector)
    ensures
        ((w >> 20) & 0x7e0) | ((w >> 7) & 0x1e) | ((w & 0x80) << 4) == 2 * bits(w, 11, 8) + 0x20
            * bits(w, 30, 25) + 0x800 * bits(w, 7, 7),
        ((w >> 20) & 0x7e0) | ((w >> 7) & 0x1e) | ((w & 0x80) << 4) <= 0xffe,
{
}

impl BFormat {
    /// The record that a word yields when it is read in the B layout.
    pub open spec fn spec_from(v: InstructionBytes) -> BFormat {
        BFormat {
            imm: imm_b(v.0) as i32,
            rs1: bits(v.0, 19, 15) as usize,
            rs2: bits(v.0, 24, 20) as usize,
            funct3: bits(v.0, 14, 12) as u32,
            opcode: bits(v.0, 6, 0) as u32,
        }
    }
}

impl FromSpecImpl<InstructionBytes> for BFormat {
    open spec fn obeys_from_spec() -> bool {
        true
    }

    open spec fn from_spec(v: InstructionBytes) -> BFormat {
        BFormat::spec_from(v)
    }
}

impl From<InstructionBytes> for BFormat {
    /// Takes a word apart in the B layout, joins the four parts of its
    /// offset and sign-extends it.
    fn from(instruction: InstructionBytes) -> (r: BFormat)
        ensures
            r == BFormat::spec_from(instruction),
            r.imm == imm_b(instruction.0),
            -0x1000 <= r.imm < 0x1000,
            r.imm % 2 == 0,
    {
        proof {
            lemma_common_fields(instruction.0);
            lemma_imm_b(instruction.0);
        }
        let uimm: i32 = (((instruction.0 >> 20) & 0x7e0) | ((instruction.0 >> 7) & 0x1e) | ((
        instruction.0 & 0x80) << 4)) as i32;
        let imm: i32 = if (instruction.0 & 0x8000_0000) != 0 {
            uimm - 0x1000
        } else {
            uimm
        };
        BFormat {
            imm,
            rs1: ((instruction.0 >> 15) & 0x1f) as usize,
            rs2: ((instruction.0 >> 20) & 0x1f) as usize,
            funct3: (instruction.0 >> 12) & 0x7,
            opcode: instruction.0 & 0x7f,
        }
    }
}

/// An upper-immediate instruction.
///
/// ```text
/// |31                                  12|11     7|6       0|
/// |              imm[31:12]              |   rd   |  opcode  |
/// ```
#[derive(Clone, Copy, Debug, PartialEq, Eq, Structural)]
pub struct UFormat {
    /// The upper 20 bits of the word in place, the low 12 bits zero.
    pub imm: i32,
    /// Index of the destination register.
    pub rd: usize,
    /// Primary opcode, 7 wide.
    pub opcode: u32,
}

/// The U immediate, as it is cut out of a word.
proof fn lemma_imm_u(w: u32)
    by (bit_vector)
    ensures
        ((w & 0xffff_f000) as i32) == imm_u(w),
        ((w & 0xffff_f000) as i32) & 0xfff == 0,
{
}

impl UFormat {
    /// The record that a word yields when it is read in the U layout.
    pub open spec fn spec_from(v: InstructionBytes) -> UFormat {
        UFormat {
            imm: imm_u(v.0) as i32,
            rd: bits(v.0, 11, 7) as usize,
            opcode: bits(v.0, 6, 0) as u32,
        }
    }
}

impl FromSpecImpl<InstructionBytes> for UFormat {
    open spec fn obeys_from_spec() -> bool {
        true
    }

    open spec fn from_spec(v: InstructionBytes) -> UFormat {
        UFormat::spec_from(v)
    }
}

impl From<InstructionBytes> for UFormat {
    /// Takes a word apart in the U layout. The immediate is the word with
    /// its low twelve bits cleared, read as a signed number.
    fn from(instruction: InstructionBytes) -> (r: UFormat)
        ensures
            r == UFormat::spec_from(instruction),
            r.imm == imm_u(instruction.0),
            r.imm % 0x1000 == 0,
            r.imm & 0xfff == 0,
    {
        proof {
            lemma_common_fields(instruction.0);
            lemma_imm_u(instruction.0);
        }
        UFormat {
            imm: #[verifier::truncate] ((instruction.0 & 0xffff_f000) as i32),
            rd: ((instruction.0 >> 7) & 0x1f) as usize,
            opcode: instruction.0 & 0x7f,
        }
    }
}

/// A jump instruction.
///
/// ```text
/// |31|30         21|20|19          12|11     7|6       0|
/// |20|  imm[10:1]  |11|  imm[19:12]  |   rd   |  opcode  |
/// ```
#[derive(Clone, Copy, Debug, PartialEq, Eq, Structural)]
pub struct JFormat {
    /// The 21-bit jump offset, joined from its four parts and sign-extended.
    /// It is always even.
    pub imm: i32,
    /// Index of the register that receives the return address.
    pub rd: usize,
    /// Primary opcode, 7 wide.
    pub opcode: u32,
}

/// The unsigned part of the J immediate, as it is joined from a word.
proof fn lemma_imm_j(w: u32)
    by (bit_vector)
    ensures
        (w & 0xff000) | ((w & 0x100000) >> 9) | ((w >> 20) & 0x7fe) == 2 * bits(w, 30, 21) + 0x800
            * bits(w, 20, 20) + 0x1000 * bits(w, 19, 12),
        (w & 0xff000) | ((w & 0x100000) >> 9) | ((w >> 20) & 0x7fe) <= 0xf_fffe,
{
}

impl JFormat {
    /// The record that a word yields when it is read in the J layout.
    pub open spec fn spec_from(v: InstructionBytes) -> JFormat {
        JFormat {
            imm: imm_j(v.0) as i32,
            rd: bits(v.0, 11, 7) as usize,
            opcode: bits(v.0, 6, 0) as u32,
        }
    }
}

impl FromSpecImpl<InstructionBytes> for JFormat {
    open spec fn obeys_from_spec() -> bool {
        true
    }

    open spec fn from_spec(v: InstructionBytes) -> JFormat {
        JFormat::spec_from(v)
    }
}

impl From<InstructionBytes> for JFormat {
    /// Takes a word apart in the J layout, joins the four parts of its
    /// offset and sign-extends it.
    fn from(instruction: InstructionBytes) -> (r: JFormat)
        ensures
            r == JFormat::spec_from(instruction),
            r.imm == imm_j(instruction.0),
            -0x10_0000 <= r.imm < 0x10_0000,
            r.imm % 2 == 0,
    {
        proof {
            lemma_common_fields(instruction.0);
            lemma_imm_j(instruction.0);
        }
        let uimm: i32 = ((instruction.0 & 0xff000) | ((instruction.0 & 0x100000) >> 9) | ((
        instruction.0 >> 20) & 0x7fe)) as i32;
        let imm: i32 = if (instruction.0 & 0x8000_0000) != 0 {
            uimm - 0x10_0000
        } else {
            uimm
        };
        JFormat {
            imm,
            rd: ((instruction.0 >> 7) & 0x1f) as usize,
            opcode: instruction.0 & 0x7f,
        }
    }
}

/// The shape of an encoding: one of the six formats, or an encoding that is
/// recognised and deliberately left without effect.
#[derive(Clone, Copy, Debug, PartialEq, Eq, Structural)]
pub enum Format {
    R,
    I,
    S,
    B,
    U,
    J,
    /// FENCE, FENCE.I, ECALL, EBREAK and the CSR instructions.
    Inert,
}

/// The classifier's table. It is keyed by the opcode, and for the
/// register-immediate opcode also by the secondary opcode: the shifts by an
/// immediate (secondary opcodes 1 and 5) take the S layout, whose `rs2` field
/// is the shift amount. An opcode that the table lacks has no format.
pub open spec fn classify_spec(opcode: u32, funct3: u32) -> Option<Format> {
    if opcode == OPCODE_LUI || opcode == OPCODE_AUIPC {
        Some(Format::U)
    } else if opcode == OPCODE_JAL {
        Some(Format::J)
    } else if opcode == OPCODE_JALR || opcode == OPCODE_LOAD {
        Some(Format::I)
    } else if opcode == OPCODE_BRANCH {
        Some(Format::B)
    } else if opcode == OPCODE_OP_IMM {
        if funct3 == 1 || funct3 == 5 {
            Some(Format::S)
        } else {
            Some(Format::I)
        }
    } else if opcode == OPCODE_STORE {
        Some(Format::S)
    } else if opcode == OPCODE_OP {
        Some(Format::R)
    } else if opcode == OPCODE_MISC_MEM || opcode == OPCODE_SYSTEM {
        Some(Format::Inert)
    } else {
        None
    }
}

/// Looks an opcode and a secondary opcode up in the classifier's table.
pub fn classify(opcode: u32, funct3: u32) -> (r: Option<Format>)
    ensures
        r == classify_spec(opcode, funct3),
{
    match opcode {
        OPCODE_LUI | OPCODE_AUIPC => Some(Format::U),
        OPCODE_JAL => Some(Format::J),
        OPCODE_JALR | OPCODE_LOAD => Some(Format::I),
        OPCODE_BRANCH => Some(Format::B),
        OPCODE_OP_IMM => if funct3 == 1 || funct3 == 5 {
            Some(Format::S)
        } else {
            Some(Format::I)
        },
        OPCODE_STORE => Some(Format::S),
        OPCODE_OP => Some(Format::R),
        OPCODE_MISC_MEM | OPCODE_SYSTEM => Some(Format::Inert),
        _ => None,
    }
}

/// A decoded instruction: the record of its format, or the raw word of an
/// encoding that is recognised and has no effect.
#[derive(Clone, Copy, Debug, PartialEq, Eq, Structural)]
pub enum Instruction {
    R(RFormat),
    I(IFormat),
    S(SFormat),
    B(BFormat),
    U(UFormat),
    J(JFormat),
    NOP(InstructionBytes),
}

impl Instruction {
    /// The format under which this instruction was decoded.
    pub open spec fn format_spec(self) -> Format {
        match self {
            Instruction::R(_) => Format::R,
            Instruction::I(_) => Format::I,
            Instruction::S(_) => Format::S,
            Instruction::B(_) => Format::B,
            Instruction::U(_) => Format::U,
            Instruction::J(_) => Format::J,
            Instruction::NOP(_) => Format::Inert,
        }
    }

    /// The instruction that `word` yields when it is read in `format`.
    pub open spec fn extract_spec(format: Format, word: InstructionBytes) -> Instruction {
        match format {
            Format::R => Instruction::R(RFormat::spec_from(word)),
            Format::I => Instruction::I(IFormat::spec_from(word)),
            Format::S => Instruction::S(SFormat::spec_from(word)),
            Format::B => Instruction::B(BFormat::spec_from(word)),
            Format::U => Instruction::U(UFormat::spec_from(word)),
            Format::J => Instruction::J(JFormat::spec_from(word)),
            Format::Inert => Instruction::NOP(word),
        }
    }

    /// What decoding a word gives. A word decodes exactly when the table has
    /// its opcode; it then yields the record of the format that the table
    /// names. Any other word is an illegal instruction.
    pub open spec fn decode_spec(word: InstructionBytes) -> Result<
        Instruction,
        InstructionException,
    > {
        match classify_spec(bits(word.0, 6, 0) as u32, bits(word.0, 14, 12) as u32) {
            Some(format) => Ok(Instruction::extract_spec(format, word)),
            None => Err(InstructionException::IllegalInstruction),
        }
    }

    /// The format under which this instruction was decoded.
    pub fn format(&self) -> (r: Format)
        ensures
            r == self.format_spec(),
    {
        match self {
            Instruction::R(_) => Format::R,
            Instruction::I(_) => Format::I,
            Instruction::S(_) => Format::S,
            Instruction::B(_) => Format::B,
            Instruction::U(_) => Format::U,
            Instruction::J(_) => Format::J,
            Instruction::NOP(_) => Format::Inert,
        }
    }
}

impl TryFromSpecImpl<InstructionBytes> for Instruction {
    open spec fn obeys_try_from_spec() -> bool {
        true
    }

    open spec fn try_from_spec(v: InstructionBytes) -> Result<Instruction, InstructionException> {
        Instruction::decode_spec(v)
    }
}

impl TryFrom<InstructionBytes> for Instruction {
    type Error = InstructionException;

    /// Decodes a word. An opcode outside the classifier's table is an illegal
    /// instruction.
    fn try_from(instruction: InstructionBytes) -> (r: Result<Instruction, InstructionException>)
        ensures
            r == Instruction::decode_spec(instruction),
    {
        let opcode = instruction.opcode();
        let funct3 = instruction.funct3();
        match classify(opcode, funct3) {
            Some(Format::R) => Ok(Instruction::R(RFormat::from(instruction))),
            Some(Format::I) => Ok(Instruction::I(IFormat::from(instruction))),
            Some(Format::S) => Ok(Instruction::S(SFormat::from(instruction))),
            Some(Format::B) => Ok(Instruction::B(BFormat::from(instruction))),
            Some(Format::U) => Ok(Instruction::U(UFormat::from(instruction))),
            Some(Format::J) => Ok(Instruction::J(JFormat::from(instruction))),
            Some(Format::Inert) => Ok(Instruction::NOP(instruction)),
            None => Err(InstructionException::IllegalInstruction),
        }
    }
}

/// Something that can take an instruction of each format and act on it, with
/// the store that the instruction may read or write. There is one method per
/// format; all return [`InstructionProcessor::InstructionResult`].
pub trait InstructionProcessor {
    type InstructionResult;

    /// Processes an R-format instruction.
    fn process_r(&mut self, instruction: RFormat, memory: &mut Memory) -> Self::InstructionResult;

    /// Processes an I-format instruction.
    fn process_i(&mut self, instruction: IFormat, memory: &mut Memory) -> Self::InstructionResult;

    /// Processes an S-format instruction.
    fn process_s(&mut self, instruction: SFormat, memory: &mut Memory) -> Self::InstructionResult;

    /// Processes a B-format instruction.
    fn process_b(&mut self, instruction: BFormat, memory: &mut Memory) -> Self::InstructionResult;

    /// Processes a U-format instruction.
    fn process_u(&mut self, instruction: UFormat, memory: &mut Memory) -> Self::InstructionResult;

    /// Processes a J-format instruction.
    fn process_j(&mut self, instruction: JFormat, memory: &mut Memory) -> Self::InstructionResult;
}

} // verus!
