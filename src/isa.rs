//! Instruction-set vocabulary: register names, opcodes, condition flags,
//! trap vectors and device addresses, with total decoders for the numeric forms.
use vstd::prelude::*;

verus! {

/// The ten register slots, in the order of their indices.
pub enum Registers {
    R0,
    R1,
    R2,
    R3,
    R4,
    R5,
    R6,
    R7,
    /// program counter
    PC,
    /// condition code
    COND,
    /// number of slots (not a register)
    COUNT,
}

impl Registers {
    pub open spec fn spec_index(&self) -> usize {
        match self {
            Registers::R0 => 0,
            Registers::R1 => 1,
            Registers::R2 => 2,
            Registers::R3 => 3,
            Registers::R4 => 4,
            Registers::R5 => 5,
            Registers::R6 => 6,
            Registers::R7 => 7,
            Registers::PC => 8,
            Registers::COND => 9,
            Registers::COUNT => 10,
        }
    }

    /// The slot index of this register in the register file.
    pub fn index(&self) -> (r: usize)
        ensures
            r == self.spec_index(),
    {
        match self {
            Registers::R0 => 0,
            Registers::R1 => 1,
            Registers::R2 => 2,
            Registers::R3 => 3,
            Registers::R4 => 4,
            Registers::R5 => 5,
            Registers::R6 => 6,
            Registers::R7 => 7,
            Registers::PC => 8,
            Registers::COND => 9,
            Registers::COUNT => 10,
        }
    }
}

/// The sixteen opcodes, selected by the top four bits of an instruction.
#[derive(Debug, Clone, Copy, PartialEq, Eq, Structural)]
pub enum Operators {
    /// branch
    BR,
    /// add
    ADD,
    /// load
    LD,
    /// store
    ST,
    /// jump to subroutine
    JSR,
    /// bitwise and
    AND,
    /// load with base register
    LDR,
    /// store with base register
    STR,
    /// return from interrupt (executes as a no-op)
    RTI,
    /// bitwise not
    NOT,
    /// load indirect
    LDI,
    /// store indirect
    STI,
    /// jump
    JMP,
    /// reserved (executes as a no-op)
    RES,
    /// load effective address
    LEA,
    /// trap
    TRAP,
}

impl Operators {
    /// The numeric opcode of this operator.
    pub open spec fn code(self) -> u16 {
        match self {
            Operators::BR => 0,
            Operators::ADD => 1,
            Operators::LD => 2,
            Operators::ST => 3,
            Operators::JSR => 4,
            Operators::AND => 5,
            Operators::LDR => 6,
            Operators::STR => 7,
            Operators::RTI => 8,
            Operators::NOT => 9,
            Operators::LDI => 10,
            Operators::STI => 11,
            Operators::JMP => 12,
            Operators::RES => 13,
            Operators::LEA => 14,
            Operators::TRAP => 15,
        }
    }

    /// Decodes an opcode; every value below 16 names an operator, any other is
    /// rejected with -1.
    pub fn from(val: u16) -> (r: Result<Operators, i16>)
        ensures
            val < 16 <==> r is Ok,
            r is Ok ==> r->Ok_0.code() == val,
            r is Err ==> r->Err_0 == -1,
    {
        match val {
            0 => Ok(Operators::BR),
            1 => Ok(Operators::ADD),
            2 => Ok(Operators::LD),
            3 => Ok(Operators::ST),
            4 => Ok(Operators::JSR),
            5 => Ok(Operators::AND),
            6 => Ok(Operators::LDR),
            7 => Ok(Operators::STR),
            8 => Ok(Operators::RTI),
            9 => Ok(Operators::NOT),
            10 => Ok(Operators::LDI),
            11 => Ok(Operators::STI),
            12 => Ok(Operators::JMP),
            13 => Ok(Operators::RES),
            14 => Ok(Operators::LEA),
            15 => Ok(Operators::TRAP),
            _ => Err(-1),
        }
    }
}

/// The condition flags; exactly one of them is held in COND.
#[derive(Debug, Clone, Copy, PartialEq, Eq, Structural)]
pub enum Flags {
    /// positive
    POS,
    /// zero
    ZRO,
    /// negative
    NEG,
}

impl Flags {
    pub open spec fn spec_value(self) -> u16 {
        match self {
            Flags::POS => 1,
            Flags::ZRO => 2,
            Flags::NEG => 4,
        }
    }

    /// The bit pattern of this flag as stored in COND.
    pub fn value(&self) -> (r: u16)
        ensures
            r == self.spec_value(),
    {
        match self {
            Flags::POS => 1,
            Flags::ZRO => 2,
            Flags::NEG => 4,
        }
    }
}

/// The trap services, selected by the low eight bits of a trap instruction.
#[derive(Debug, Clone, Copy, PartialEq, Eq, Structural)]
pub enum TRAP {
    /// read a character, not echoed
    GETC,
    /// write a character
    OUT,
    /// write a string of one character per word
    PUTS,
    /// prompt, then read a character and echo it
    IN,
    /// write a string of two characters per word
    PUTSP,
    /// stop the machine
    HALT,
}

impl TRAP {
    /// The numeric vector of this trap.
    pub open spec fn vector(self) -> u16 {
        match self {
            TRAP::GETC => 0x20,
            TRAP::OUT => 0x21,
            TRAP::PUTS => 0x22,
            TRAP::IN => 0x23,
            TRAP::PUTSP => 0x24,
            TRAP::HALT => 0x25,
        }
    }

    /// Decodes a trap vector; the six vectors 0x20 to 0x25 are recognised, any
    /// other is rejected with -1.
    pub fn from(val: u16) -> (r: Result<TRAP, i16>)
        ensures
            0x20 <= val <= 0x25 <==> r is Ok,
            r is Ok ==> r->Ok_0.vector() == val,
            r is Err ==> r->Err_0 == -1,
    {
        match val {
            0x20 => Ok(TRAP::GETC),
            0x21 => Ok(TRAP::OUT),
            0x22 => Ok(TRAP::PUTS),
            0x23 => Ok(TRAP::IN),
            0x24 => Ok(TRAP::PUTSP),
            0x25 => Ok(TRAP::HALT),
            _ => Err(-1),
        }
    }
}

/// The memory-mapped device registers.
#[derive(Debug, Clone, Copy, PartialEq, Eq, Structural)]
pub enum MR {
    /// keyboard status
    KBSR,
    /// keyboard data
    KBDR,
}

impl MR {
    pub open spec fn spec_address(self) -> u16 {
        match self {
            MR::KBSR => 0xFE00,
            MR::KBDR => 0xFE02,
        }
    }

    /// The memory address at which this device register is mapped.
    pub fn address(&self) -> (r: u16)
        ensures
            r == self.spec_address(),
    {
        match self {
            MR::KBSR => 0xFE00,
            MR::KBDR => 0xFE02,
        }
    }
}

} // verus!
