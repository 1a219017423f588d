use vstd::prelude::*;

verus! {

/// The operand fields of a 16-bit instruction word.
#[derive(Clone, Copy, Debug, PartialEq, Eq, Structural)]
pub struct Operands {
    pub instruction: u16,
}

impl Operands {
    pub open spec fn addr12(self) -> u16 {
        self.instruction & 0x0FFF
    }

    pub open spec fn imm8(self) -> u16 {
        self.instruction & 0x00FF
    }

    pub open spec fn nibble4(self) -> u16 {
        self.instruction & 0x000F
    }

    pub open spec fn reg_x(self) -> usize {
        ((self.instruction >> 8u16) & 0x000F) as usize
    }

    pub open spec fn reg_y(self) -> usize {
        ((self.instruction >> 4u16) & 0x000F) as usize
    }

    /// Each field fits its width.
    pub proof fn lemma_fields_in_range(self)
        ensures
            self.addr12() < 4096,
            self.imm8() < 256,
            self.nibble4() < 16,
            self.reg_x() < 16,
            self.reg_y() < 16,
    {
        let w = self.instruction;
        assert(w & 0x0FFF < 4096 && w & 0x00FF < 256 && w & 0x000F < 16) by (bit_vector);
        assert((w >> 8u16) & 0x000F < 16 && (w >> 4u16) & 0x000F < 16) by (bit_vector);
    }

    pub fn new(instruction: u16) -> (r: Operands)
        ensures
            r.instruction == instruction,
    {
        Operands { instruction }
    }

    /// The low 12 bits: a jump, call or index target.
    pub fn nnn(self) -> (r: u16)
        ensures
            r == self.addr12(),
            r < 4096,
    {
        let w = self.instruction;
        assert(w & 0x0FFF < 4096) by (bit_vector);
        w & 0x0FFF
    }

    /// The low 8 bits: an immediate byte.
    pub fn nn(self) -> (r: u16)
        ensures
            r == self.imm8(),
            r < 256,
    {
        let w = self.instruction;
        assert(w & 0x00FF < 256) by (bit_vector);
        w & 0x00FF
    }

    /// The low 4 bits: a sub-opcode or a row count.
    pub fn n(self) -> (r: u16)
        ensures
            r == self.nibble4(),
            r < 16,
    {
        let w = self.instruction;
        assert(w & 0x000F < 16) by (bit_vector);
        w & 0x000F
    }

    /// Bits 8 to 11: the first register operand.
    pub fn x(self) -> (r: usize)
        ensures
            r == self.reg_x(),
            r < 16,
    {
        let w = self.instruction;
        assert((w >> 8u16) & 0x000F < 16) by (bit_vector);
        ((w >> 8u16) & 0x000F) as usize
    }

    /// Bits 4 to 7: the second register operand.
    pub fn y(self) -> (r: usize)
        ensures
            r == self.reg_y(),
            r < 16,
    {
        let w = self.instruction;
        assert((w >> 4u16) & 0x000F < 16) by (bit_vector);
        ((w >> 4u16) & 0x000F) as usize
    }
}

/// The closed set of instruction kinds.
#[derive(Clone, Copy, Debug, PartialEq, Eq, Structural)]
pub enum Opcode {
    Cls,
    Ret,
    Jp,
    Call,
    SeImm,
    SneImm,
    Se,
    LdrIm,
    AddIm,
    Ldr,
    Or,
    And,
    Xor,
    Add,
    Sub,
    Shr,
    Subn,
    Shl,
    Sne,
    LdI,
    JpReg,
    Rnd,
    Display,
    Skp,
    Sknp,
    LdrDt,
    LdrKp,
    LdDt,
    LdSt,
    AddI,
    AddSp,
    LdB,
    LdMul,
    LdrMul,
    Unknown,
}

/// The kind of an instruction word: the leading nibble picks a group, and
/// groups 0x0, 0x8, 0xE and 0xF are told apart by their low byte or nibble.
pub open spec fn opcode_of(w: u16) -> Opcode {
    let group = w >> 12u16;
    let low = w & 0x00FF;
    let sub = w & 0x000F;
    if group == 0 {
        if low == 0xE0 {
            Opcode::Cls
        } else if low == 0xEE {
            Opcode::Ret
        } else {
            Opcode::Unknown
        }
    } else if group == 1 {
        Opcode::Jp
    } else if group == 2 {
        Opcode::Call
    } else if group == 3 {
        Opcode::SeImm
    } else if group == 4 {
        Opcode::SneImm
    } else if group == 5 {
        Opcode::Se
    } else if group == 6 {
        Opcode::LdrIm
    } else if group == 7 {
        Opcode::AddIm
    } else if group == 8 {
        if sub == 0x0 {
            Opcode::Ldr
        } else if sub == 0x1 {
            Opcode::Or
        } else if sub == 0x2 {
            Opcode::And
        } else if sub == 0x3 {
            Opcode::Xor
        } else if sub == 0x4 {
            Opcode::Add
        } else if sub == 0x5 {
            Opcode::Sub
        } else if sub == 0x6 {
            Opcode::Shr
        } else if sub == 0x7 {
            Opcode::Subn
        } else if sub == 0xE {
            Opcode::Shl
        } else {
            Opcode::Unknown
        }
    } else if group == 9 {
        Opcode::Sne
    } else if group == 0xA {
        Opcode::LdI
    } else if group == 0xB {
        Opcode::JpReg
    } else if group == 0xC {
        Opcode::Rnd
    } else if group == 0xD {
        Opcode::Display
    } else if group == 0xE {
        if low == 0x9E {
            Opcode::Skp
        } else if low == 0xA1 {
            Opcode::Sknp
        } else {
            Opcode::Unknown
        }
    } else {
        if low == 0x07 {
            Opcode::LdrDt
        } else if low == 0x0A {
            Opcode::LdrKp
        } else if low == 0x15 {
            Opcode::LdDt
        } else if low == 0x18 {
            Opcode::LdSt
        } else if low == 0x1E {
            Opcode::AddI
        } else if low == 0x29 {
            Opcode::AddSp
        } else if low == 0x33 {
            Opcode::LdB
        } else if low == 0x55 {
            Opcode::LdMul
        } else if low == 0x65 {
            Opcode::LdrMul
        } else {
            Opcode::Unknown
        }
    }
}

} // verus!
