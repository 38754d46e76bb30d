//! The execution engine: instruction semantics as functions on the machine
//! model, the handlers that carry them out, trap services, and the
//! fetch-decode-execute loop.
use vstd::prelude::*;
use crate::isa::{Operators, TRAP};
use crate::machine::{Machine, Vm, sext, wadd, R7, PC, COND, KBSR};

verus! {

/// What became of the machine after an instruction.
#[derive(Debug, Clone, Copy, PartialEq, Eq, Structural)]
pub enum Outcome {
    /// The instruction completed; the machine goes on.
    Running,
    /// A HALT trap stopped the machine.
    Halted,
    /// A trap needs an input byte and none is pending; nothing was changed.
    NeedInput,
    /// A trap named an unrecognised vector (given here).
    BadTrap(u16),
}

/// Destination (or source) register field, bits 11:9.
pub open spec fn dr(i: u16) -> u16 {
    (i >> 9u16) & 7u16
}

/// First source (or base) register field, bits 8:6.
pub open spec fn sr1(i: u16) -> u16 {
    (i >> 6u16) & 7u16
}

/// Second source register field, bits 2:0.
pub open spec fn sr2(i: u16) -> u16 {
    i & 7u16
}

/// Immediate-mode flag, bit 5.
pub open spec fn imm_mode(i: u16) -> bool {
    (i >> 5u16) & 1u16 == 1u16
}

/// Long-offset flag of JSR, bit 11.
pub open spec fn long_mode(i: u16) -> bool {
    (i >> 11u16) & 1u16 == 1u16
}

/// Opcode field, bits 15:12.
pub open spec fn opcode(i: u16) -> u16 {
    i >> 12u16
}

/// Trap vector field, bits 7:0.
pub open spec fn trap_vector(i: u16) -> u16 {
    i & 0xFFu16
}

pub open spec fn imm5(i: u16) -> u16 {
    sext(i & 0x1Fu16, 5)
}

pub open spec fn off6(i: u16) -> u16 {
    sext(i & 0x3Fu16, 6)
}

pub open spec fn off9(i: u16) -> u16 {
    sext(i & 0x1FFu16, 9)
}

pub open spec fn off11(i: u16) -> u16 {
    sext(i & 0x7FFu16, 11)
}

/// The bounds of the register fields.
pub proof fn lemma_fields(i: u16)
    ensures
        dr(i) < 8,
        sr1(i) < 8,
        sr2(i) < 8,
        opcode(i) < 16,
        trap_vector(i) < 256,
        long_mode(i) <==> (i >> 11u16) & 1u16 != 0,
{
    assert((i >> 9u16) & 7u16 < 8u16 && (i >> 6u16) & 7u16 < 8u16 && i & 7u16 < 8u16 && i
        >> 12u16 < 16u16 && i & 0xFFu16 < 256u16 && (((i >> 11u16) & 1u16 == 1u16) == ((i >> 11u16) & 1u16
        != 0u16))) by (bit_vector);
}

pub open spec fn second_operand(m: Machine, i: u16) -> u16 {
    if imm_mode(i) {
        imm5(i)
    } else {
        m.reg[sr2(i) as int]
    }
}

pub open spec fn br_spec(m: Machine, i: u16) -> Machine {
    if dr(i) & m.reg[COND as int] != 0 {
        m.set_reg(PC, wadd(m.pc(), off9(i)))
    } else {
        m
    }
}

pub open spec fn add_spec(m: Machine, i: u16) -> Machine {
    m.define(dr(i), wadd(m.reg[sr1(i) as int], second_operand(m, i)))
}

pub open spec fn ld_spec(m: Machine, i: u16) -> Machine {
    let (m1, w) = m.read(wadd(m.pc(), off9(i)));
    m1.define(dr(i), w)
}

pub open spec fn st_spec(m: Machine, i: u16) -> Machine {
    m.write(wadd(m.pc(), off9(i)), m.reg[dr(i) as int])
}

pub open spec fn jsr_spec(m: Machine, i: u16) -> Machine {
    let m1 = m.set_reg(R7, m.pc());
    if long_mode(i) {
        m1.set_reg(PC, wadd(m.pc(), off11(i)))
    } else {
        m1.set_reg(PC, m1.reg[sr1(i) as int])
    }
}

pub open spec fn and_spec(m: Machine, i: u16) -> Machine {
    m.define(dr(i), m.reg[sr1(i) as int] & second_operand(m, i))
}

pub open spec fn ldr_spec(m: Machine, i: u16) -> Machine {
    let (m1, w) = m.read(wadd(m.reg[sr1(i) as int], off6(i)));
    m1.define(dr(i), w)
}

pub open spec fn str_spec(m: Machine, i: u16) -> Machine {
    m.write(wadd(m.reg[sr1(i) as int], off6(i)), m.reg[dr(i) as int])
}

pub open spec fn not_spec(m: Machine, i: u16) -> Machine {
    m.define(dr(i), !m.reg[sr1(i) as int])
}

pub open spec fn ldi_spec(m: Machine, i: u16) -> Machine {
    let (m1, a) = m.read(wadd(m.pc(), off9(i)));
    let (m2, w) = m1.read(a);
    m2.define(dr(i), w)
}

pub open spec fn sti_spec(m: Machine, i: u16) -> Machine {
    let (m1, a) = m.read(wadd(m.pc(), off9(i)));
    m1.write(a, m1.reg[dr(i) as int])
}

pub open spec fn jmp_spec(m: Machine, i: u16) -> Machine {
    m.set_reg(PC, m.reg[sr1(i) as int])
}

pub open spec fn lea_spec(m: Machine, i: u16) -> Machine {
    m.define(dr(i), wadd(m.pc(), off9(i)))
}


pub open spec fn low_byte(w: u16) -> u8 {
    (w % 256) as u8
}

pub open spec fn high_byte(w: u16) -> u8 {
    (w / 256) as u8
}

/// The prompt written by the IN trap: "Enter a character :".
pub open spec fn prompt_text() -> Seq<u8> {
    seq![69u8, 110, 116, 101, 114, 32, 97, 32, 99, 104, 97, 114, 97, 99, 116, 101, 114, 32, 58]
}

/// The line written by the HALT trap: "Halt\n".
pub open spec fn halt_text() -> Seq<u8> {
    seq![72u8, 97, 108, 116, 10]
}

/// PUTS from address `a`, with at most `n` words left to read: writes the
/// low byte of each word up to the first zero word (read, not written).
/// Addresses wrap past the top of memory; the trap reads at most one full
/// pass of the address space.
pub open spec fn puts_spec(m: Machine, a: u16, n: nat) -> Machine
    decreases n,
{
    if n == 0 {
        m
    } else {
        let (m1, w) = m.read(a);
        if w == 0 {
            m1
        } else {
            puts_spec(m1.emit(low_byte(w)), wadd(a, 1), (n - 1) as nat)
        }
    }
}

/// The characters packed in one word: the low byte, then the high byte
/// unless it is zero.
pub open spec fn packed_chars(w: u16) -> Seq<u8> {
    if high_byte(w) != 0 {
        seq![low_byte(w), high_byte(w)]
    } else {
        seq![low_byte(w)]
    }
}

/// PUTSP from address `a`, with at most `n` words left to read: writes the
/// packed characters of each word up to the first zero word, addresses
/// wrapping as for PUTS.
pub open spec fn putsp_spec(m: Machine, a: u16, n: nat) -> Machine
    decreases n,
{
    if n == 0 {
        m
    } else {
        let (m1, w) = m.read(a);
        if w == 0 {
            m1
        } else {
            putsp_spec(m1.emit_all(packed_chars(w)), wadd(a, 1), (n - 1) as nat)
        }
    }
}

/// Whether trap vector `v` reads a byte of input.
pub open spec fn reads_input(v: u16) -> bool {
    v == 0x20 || v == 0x23
}

/// A trap: R7 takes the return address, then the service of the vector
/// runs.  A service that reads input when none is pending changes nothing.
pub open spec fn trap_spec(m: Machine, i: u16) -> (Machine, Outcome) {
    let v = trap_vector(i);
    if reads_input(v) && !m.has_input() {
        (m, Outcome::NeedInput)
    } else {
        let m1 = m.set_reg(R7, m.pc());
        let r0 = m1.reg[0];
        if v == 0x20 {
            (m1.set_reg(0, m1.next_input() as u16).consume(), Outcome::Running)
        } else if v == 0x21 {
            (m1.emit(low_byte(r0)), Outcome::Running)
        } else if v == 0x22 {
            (puts_spec(m1, r0, 0x10000), Outcome::Running)
        } else if v == 0x23 {
            let c = m1.next_input();
            (m1.emit_all(prompt_text()).emit(c).set_reg(0, c as u16).consume(), Outcome::Running)
        } else if v == 0x24 {
            (putsp_spec(m1, r0, 0x10000), Outcome::Running)
        } else if v == 0x25 {
            (m1.emit_all(halt_text()), Outcome::Halted)
        } else {
            (m1, Outcome::BadTrap(v))
        }
    }
}

/// Executes instruction `i` on a machine whose PC has already advanced.
pub open spec fn execute_spec(m: Machine, i: u16) -> (Machine, Outcome) {
    let op = opcode(i);
    if op == 0 {
        (br_spec(m, i), Outcome::Running)
    } else if op == 1 {
        (add_spec(m, i), Outcome::Running)
    } else if op == 2 {
        (ld_spec(m, i), Outcome::Running)
    } else if op == 3 {
        (st_spec(m, i), Outcome::Running)
    } else if op == 4 {
        (jsr_spec(m, i), Outcome::Running)
    } else if op == 5 {
        (and_spec(m, i), Outcome::Running)
    } else if op == 6 {
        (ldr_spec(m, i), Outcome::Running)
    } else if op == 7 {
        (str_spec(m, i), Outcome::Running)
    } else if op == 9 {
        (not_spec(m, i), Outcome::Running)
    } else if op == 10 {
        (ldi_spec(m, i), Outcome::Running)
    } else if op == 11 {
        (sti_spec(m, i), Outcome::Running)
    } else if op == 12 {
        (jmp_spec(m, i), Outcome::Running)
    } else if op == 14 {
        (lea_spec(m, i), Outcome::Running)
    } else if op == 15 {
        trap_spec(m, i)
    } else {
        (m, Outcome::Running)
    }
}

/// Whether the next instruction is a trap that reads input while none is
/// pending.  (An instruction fetched from the keyboard status address is
/// never a trap, so this needs no poll.)
pub open spec fn awaits_input(m: Machine) -> bool {
    let i = m.mem[m.pc() as int];
    &&& m.pc() != KBSR
    &&& opcode(i) == 15
    &&& reads_input(trap_vector(i))
    &&& !m.has_input()
}

/// One machine cycle: fetch the word at PC, advance PC, execute.
pub open spec fn step_spec(m: Machine) -> (Machine, Outcome) {
    if awaits_input(m) {
        (m, Outcome::NeedInput)
    } else {
        let (m1, i) = m.read(m.pc());
        execute_spec(m1.set_reg(PC, wadd(m.pc(), 1)), i)
    }
}

/// Up to `n` cycles, stopping at the first that does not leave the machine
/// running.
pub open spec fn run_spec(m: Machine, n: nat) -> (Machine, Outcome)
    decreases n,
{
    if n == 0 {
        (m, Outcome::Running)
    } else {
        let (m1, o) = step_spec(m);
        if o is Running {
            run_spec(m1, (n - 1) as nat)
        } else {
            (m1, o)
        }
    }
}

impl Vm {
    /// Conditional branch: when the condition bits 11:9 share a bit with
    /// COND, adds the sign-extended 9-bit offset to PC.
    pub fn br(&mut self, instruction: u16)
        requires
            old(self).wf(),
        ensures
            final(self).wf(),
            final(self)@ == br_spec(old(self)@, instruction),
    {
        let pc_offset: u16 = Vm::sign_extend(instruction & 0x1FF, 9);
        let cond_flag: u16 = (instruction >> 9) & 0x7;
        if cond_flag & self.reg[COND as usize] != 0 {
            let pc = self.reg[PC as usize];
            self.reg.set(PC as usize, pc.wrapping_add(pc_offset));
        }
    }

    /// ADD: destination = first source plus the sign-extended 5-bit
    /// immediate or the second source register, modulo 2^16; sets COND.
    pub fn add(&mut self, instruction: u16)
        requires
            old(self).wf(),
        ensures
            final(self).wf(),
            final(self)@ == add_spec(old(self)@, instruction),
    {
        proof { lemma_fields(instruction); }
        let dest: u16 = (instruction >> 9) & 0x7;
        let op1: u16 = (instruction >> 6) & 0x7;
        let imm_flag: u16 = (instruction >> 5) & 0x1;
        let operand: u16 = if imm_flag == 1 {
            Vm::sign_extend(instruction & 0x1F, 5)
        } else {
            self.reg[(instruction & 0x7) as usize]
        };
        let v = self.reg[op1 as usize].wrapping_add(operand);
        self.reg.set(dest as usize, v);
        self.update_flags(dest);
    }

    /// LD: destination = the word at PC plus the 9-bit offset; sets COND.
    pub fn ld(&mut self, instruction: u16)
        requires
            old(self).wf(),
        ensures
            final(self).wf(),
            final(self)@ == ld_spec(old(self)@, instruction),
    {
        proof { lemma_fields(instruction); }
        let r0: u16 = (instruction >> 9) & 0x7;
        let pc_offset: u16 = Vm::sign_extend(instruction & 0x1FF, 9);
        let address = self.reg[PC as usize].wrapping_add(pc_offset);
        let v = self.mem_read(address);
        self.reg.set(r0 as usize, v);
        self.update_flags(r0);
    }

    /// ST: stores the register of bits 11:9 at PC plus the 9-bit offset.
    pub fn st(&mut self, instruction: u16)
        requires
            old(self).wf(),
        ensures
            final(self).wf(),
            final(self)@ == st_spec(old(self)@, instruction),
    {
        proof { lemma_fields(instruction); }
        let r0: u16 = (instruction >> 9) & 0x7;
        let pc_offset: u16 = Vm::sign_extend(instruction & 0x1FF, 9);
        let address = self.reg[PC as usize].wrapping_add(pc_offset);
        let v = self.reg[r0 as usize];
        self.mem_write(address, v);
    }

    /// JSR / JSRR: saves PC in R7, then jumps by the 11-bit offset (bit 11
    /// set) or to the base register of bits 8:6.
    pub fn jsr(&mut self, instruction: u16)
        requires
            old(self).wf(),
        ensures
            final(self).wf(),
            final(self)@ == jsr_spec(old(self)@, instruction),
    {
        proof { lemma_fields(instruction); }
        let long_flag: u16 = (instruction >> 11) & 1;
        let pc = self.reg[PC as usize];
        self.reg.set(R7 as usize, pc);
        if long_flag != 0 {
            let long_pc_offset: u16 = Vm::sign_extend(instruction & 0x7FF, 11);
            self.reg.set(PC as usize, pc.wrapping_add(long_pc_offset));
        } else {
            let r1: u16 = (instruction >> 6) & 0x7;
            let target = self.reg[r1 as usize];
            self.reg.set(PC as usize, target);
        }
    }

    /// AND: destination = first source and (immediate or second source),
    /// bitwise; sets COND.
    pub fn and(&mut self, instruction: u16)
        requires
            old(self).wf(),
        ensures
            final(self).wf(),
            final(self)@ == and_spec(old(self)@, instruction),
    {
        proof { lemma_fields(instruction); }
        let r0: u16 = (instruction >> 9) & 0x7;
        let r1: u16 = (instruction >> 6) & 0x7;
        let imm_flag: u16 = (instruction >> 5) & 0x1;
        let operand: u16 = if imm_flag == 1 {
            Vm::sign_extend(instruction & 0x1F, 5)
        } else {
            self.reg[(instruction & 0x7) as usize]
        };
        let v = self.reg[r1 as usize] & operand;
        self.reg.set(r0 as usize, v);
        self.update_flags(r0);
    }

    /// LDR: destination = the word at base register plus the 6-bit offset;
    /// sets COND.
    pub fn ldr(&mut self, instruction: u16)
        requires
            old(self).wf(),
        ensures
            final(self).wf(),
            final(self)@ == ldr_spec(old(self)@, instruction),
    {
        proof { lemma_fields(instruction); }
        let r0: u16 = (instruction >> 9) & 0x7;
        let r1: u16 = (instruction >> 6) & 0x7;
        let offset: u16 = Vm::sign_extend(instruction & 0x3F, 6);
        let address = self.reg[r1 as usize].wrapping_add(offset);
        let v = self.mem_read(address);
        self.reg.set(r0 as usize, v);
        self.update_flags(r0);
    }

    /// STR: stores the register of bits 11:9 at base register plus the
    /// 6-bit offset.
    pub fn str(&mut self, instruction: u16)
        requires
            old(self).wf(),
        ensures
            final(self).wf(),
            final(self)@ == str_spec(old(self)@, instruction),
    {
        proof { lemma_fields(instruction); }
        let r0: u16 = (instruction >> 9) & 0x7;
        let r1: u16 = (instruction >> 6) & 0x7;
        let offset: u16 = Vm::sign_extend(instruction & 0x3F, 6);
        let address = self.reg[r1 as usize].wrapping_add(offset);
        let v = self.reg[r0 as usize];
        self.mem_write(address, v);
    }

    /// NOT: destination = bitwise complement of the source; sets COND.
    pub fn not(&mut self, instruction: u16)
        requires
            old(self).wf(),
        ensures
            final(self).wf(),
            final(self)@ == not_spec(old(self)@, instruction),
    {
        proof { lemma_fields(instruction); }
        let r0: u16 = (instruction >> 9) & 0x7;
        let r1: u16 = (instruction >> 6) & 0x7;
        let v = !self.reg[r1 as usize];
        self.reg.set(r0 as usize, v);
        self.update_flags(r0);
    }

    /// LDI: destination = the word at the address held at PC plus the 9-bit
    /// offset; sets COND.
    pub fn ldi(&mut self, instruction: u16)
        requires
            old(self).wf(),
        ensures
            final(self).wf(),
            final(self)@ == ldi_spec(old(self)@, instruction),
    {
        proof { lemma_fields(instruction); }
        let r0: u16 = (instruction >> 9) & 0x7;
        let pc_offset: u16 = Vm::sign_extend(instruction & 0x1FF, 9);
        let pointer = self.reg[PC as usize].wrapping_add(pc_offset);
        let address = self.mem_read(pointer);
        let v = self.mem_read(address);
        self.reg.set(r0 as usize, v);
        self.update_flags(r0);
    }

    /// STI: stores the register of bits 11:9 at the address held at PC plus
    /// the 9-bit offset.
    pub fn sti(&mut self, instruction: u16)
        requires
            old(self).wf(),
        ensures
            final(self).wf(),
            final(self)@ == sti_spec(old(self)@, instruction),
    {
        proof { lemma_fields(instruction); }
        let r0: u16 = (instruction >> 9) & 0x7;
        let pc_offset: u16 = Vm::sign_extend(instruction & 0x1FF, 9);
        let pointer = self.reg[PC as usize].wrapping_add(pc_offset);
        let address = self.mem_read(pointer);
        let v = self.reg[r0 as usize];
        self.mem_write(address, v);
    }

    /// JMP (and RET): PC = the base register of bits 8:6.
    pub fn jmp(&mut self, instruction: u16)
        requires
            old(self).wf(),
        ensures
            final(self).wf(),
            final(self)@ == jmp_spec(old(self)@, instruction),
    {
        proof { lemma_fields(instruction); }
        let r1: u16 = (instruction >> 6) & 0x7;
        let target = self.reg[r1 as usize];
        self.reg.set(PC as usize, target);
    }

    /// LEA: destination = PC plus the 9-bit offset; sets COND.
    pub fn lea(&mut self, instruction: u16)
        requires
            old(self).wf(),
        ensures
            final(self).wf(),
            final(self)@ == lea_spec(old(self)@, instruction),
    {
        proof { lemma_fields(instruction); }
        let r0: u16 = (instruction >> 9) & 0x7;
        let pc_offset: u16 = Vm::sign_extend(instruction & 0x1FF, 9);
        let v = self.reg[PC as usize].wrapping_add(pc_offset);
        self.reg.set(r0 as usize, v);
        self.update_flags(r0);
    }
}

impl Vm {
    /// Appends `s` to the console output.
    fn emit_all(&mut self, s: &Vec<u8>)
        requires
            old(self).wf(),
        ensures
            final(self).wf(),
            final(self)@ == old(self)@.emit_all(s@),
    {
        let ghost start = self@;
        let mut k: usize = 0;
        while k < s.len()
            invariant
                self.wf(),
                k <= s@.len(),
                self@ == start.emit_all(s@.subrange(0, k as int)),
            decreases s@.len() - k,
        {
            self.output.push(s[k]);
            k = k + 1;
            assert(start.output + s@.subrange(0, k as int) =~= self.output@);
        }
        assert(s@.subrange(0, k as int) =~= s@);
    }

    /// Writes one character per word from `start` until a zero word,
    /// wrapping past the top of memory, for at most one pass.
    fn puts(&mut self, start: u16)
        requires
            old(self).wf(),
        ensures
            final(self).wf(),
            final(self)@ == puts_spec(old(self)@, start, 0x10000),
    {
        let ghost target = puts_spec(self@, start, 0x10000);
        let mut index: u16 = start;
        let mut left: u32 = 0x10000;
        while left > 0
            invariant
                self.wf(),
                puts_spec(self@, index, left as nat) == target,
                target == puts_spec(old(self)@, start, 0x10000),
            decreases left,
        {
            let ghost before = self@;
            let c = self.mem_read(index);
            if c == 0 {
                assert(puts_spec(before, index, left as nat) == self@);
                return;
            }
            self.output.push((c % 256) as u8);
            index = index.wrapping_add(1);
            left = left - 1;
        }
    }

    /// Writes two characters per word from `start` until a zero word,
    /// wrapping past the top of memory, for at most one pass.
    fn putsp(&mut self, start: u16)
        requires
            old(self).wf(),
        ensures
            final(self).wf(),
            final(self)@ == putsp_spec(old(self)@, start, 0x10000),
    {
        let ghost target = putsp_spec(self@, start, 0x10000);
        let mut index: u16 = start;
        let mut left: u32 = 0x10000;
        while left > 0
            invariant
                self.wf(),
                putsp_spec(self@, index, left as nat) == target,
                target == putsp_spec(old(self)@, start, 0x10000),
            decreases left,
        {
            let ghost before = self@;
            let c = self.mem_read(index);
            if c == 0 {
                assert(putsp_spec(before, index, left as nat) == self@);
                return;
            }
            let ghost before = self@;
            self.output.push((c % 256) as u8);
            let high: u8 = (c / 256) as u8;
            if high != 0 {
                self.output.push(high);
            }
            assert(self@ == before.emit_all(packed_chars(c))) by {
                assert(self.output@ =~= before.output + packed_chars(c));
            }
            index = index.wrapping_add(1);
            left = left - 1;
        }
    }

    /// Executes a trap instruction: saves PC in R7 and runs the service named
    /// by the low eight bits.  GETC and IN take the next input byte into R0
    /// (IN writes a prompt and echoes the byte); OUT, PUTS and PUTSP write
    /// characters; HALT writes a final line and stops the machine; any other
    /// vector is reported as a bad trap.  When GETC or IN find no pending
    /// input, nothing is changed and `NeedInput` is returned.
    pub fn trap(&mut self, instruction: u16) -> (r: Outcome)
        requires
            old(self).wf(),
        ensures
            final(self).wf(),
            (final(self)@, r) == trap_spec(old(self)@, instruction),
    {
        let vector: u16 = instruction & 0xFF;
        let decoded = TRAP::from(vector);
        let wants_input = match decoded {
            Ok(TRAP::GETC) => true,
            Ok(TRAP::IN) => true,
            _ => false,
        };
        if wants_input && self.input_pos >= self.input.len() {
            return Outcome::NeedInput;
        }
        let pc = self.reg[PC as usize];
        self.reg.set(R7 as usize, pc);
        let r0 = self.reg[0];
        match decoded {
            Ok(TRAP::GETC) => {
                let c = self.input[self.input_pos];
                self.input_pos = self.input_pos + 1;
                self.reg.set(0, c as u16);
                Outcome::Running
            },
            Ok(TRAP::OUT) => {
                self.output.push((r0 % 256) as u8);
                Outcome::Running
            },
            Ok(TRAP::PUTS) => {
                self.puts(r0);
                Outcome::Running
            },
            Ok(TRAP::IN) => {
                let prompt = vec![69u8, 110, 116, 101, 114, 32, 97, 32, 99, 104, 97, 114, 97, 99, 116, 101, 114, 32, 58];
                assert(prompt@ =~= prompt_text());
                self.emit_all(&prompt);
                let c = self.input[self.input_pos];
                self.output.push(c);
                self.reg.set(0, c as u16);
                self.input_pos = self.input_pos + 1;
                Outcome::Running
            },
            Ok(TRAP::PUTSP) => {
                self.putsp(r0);
                Outcome::Running
            },
            Ok(TRAP::HALT) => {
                let line = vec![72u8, 97, 108, 116, 10];
                assert(line@ =~= halt_text());
                self.emit_all(&line);
                Outcome::Halted
            },
            Err(_) => Outcome::BadTrap(vector),
        }
    }

    /// Executes `instruction`, whose word has been fetched and PC advanced,
    /// by dispatching on its opcode; RTI and RES do nothing.
    pub fn execute(&mut self, instruction: u16) -> (r: Outcome)
        requires
            old(self).wf(),
        ensures
            final(self).wf(),
            (final(self)@, r) == execute_spec(old(self)@, instruction),
    {
        proof { lemma_fields(instruction); }
        match Operators::from(instruction >> 12) {
            Ok(Operators::BR) => { self.br(instruction); Outcome::Running },
            Ok(Operators::ADD) => { self.add(instruction); Outcome::Running },
            Ok(Operators::LD) => { self.ld(instruction); Outcome::Running },
            Ok(Operators::ST) => { self.st(instruction); Outcome::Running },
            Ok(Operators::JSR) => { self.jsr(instruction); Outcome::Running },
            Ok(Operators::AND) => { self.and(instruction); Outcome::Running },
            Ok(Operators::LDR) => { self.ldr(instruction); Outcome::Running },
            Ok(Operators::STR) => { self.str(instruction); Outcome::Running },
            Ok(Operators::RTI) => Outcome::Running,
            Ok(Operators::NOT) => { self.not(instruction); Outcome::Running },
            Ok(Operators::LDI) => { self.ldi(instruction); Outcome::Running },
            Ok(Operators::STI) => { self.sti(instruction); Outcome::Running },
            Ok(Operators::JMP) => { self.jmp(instruction); Outcome::Running },
            Ok(Operators::RES) => Outcome::Running,
            Ok(Operators::LEA) => { self.lea(instruction); Outcome::Running },
            Ok(Operators::TRAP) => self.trap(instruction),
            Err(_) => Outcome::Running,
        }
    }

    /// One machine cycle: fetches the word at PC, advances PC (wrapping) and
    /// executes the word.  When that word is a trap that reads input and
    /// none is pending, nothing is changed and `NeedInput` is returned.
    pub fn step(&mut self) -> (r: Outcome)
        requires
            old(self).wf(),
        ensures
            final(self).wf(),
            (final(self)@, r) == step_spec(old(self)@),
    {
        let pc = self.reg[PC as usize];
        if pc != KBSR {
            let peek = self.mem[pc as usize];
            proof { lemma_fields(peek); }
            let v: u16 = peek & 0xFF;
            if peek >> 12 == 15 && (v == 0x20 || v == 0x23) && self.input_pos >= self.input.len() {
                return Outcome::NeedInput;
            }
        }
        let instruction = self.mem_read(pc);
        self.reg.set(PC as usize, pc.wrapping_add(1));
        self.execute(instruction)
    }

    /// Runs up to `limit` cycles and returns the outcome of the last: the
    /// first one that halted, faulted or awaited input, or `Running` when
    /// the limit was reached.
    pub fn run(&mut self, limit: u64) -> (r: Outcome)
        requires
            old(self).wf(),
        ensures
            final(self).wf(),
            (final(self)@, r) == run_spec(old(self)@, limit as nat),
    {
        let ghost target = run_spec(self@, limit as nat);
        let mut left: u64 = limit;
        while left > 0
            invariant
                self.wf(),
                run_spec(self@, left as nat) == target,
                target == run_spec(old(self)@, limit as nat),
            decreases left,
        {
            let ghost before = self@;
            let o = self.step();
            if o != Outcome::Running {
                assert(run_spec(before, left as nat) == (self@, o));
                return o;
            }
            left = left - 1;
        }
        Outcome::Running
    }
}

} // verus!
