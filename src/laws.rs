//! General properties of the machine, stated over the model and proved.
use vstd::prelude::*;
use vstd::arithmetic::power2::{pow2, lemma_pow2_unfold, lemma2_to64, lemma_pow2_strictly_increases};
use vstd::bits::{low_bits_mask, lemma_u16_shl_is_mul, lemma_u16_low_bits_mask_is_mod};
use crate::machine::{Machine, sext, wadd, flag_of, FL_POS, FL_ZRO, FL_NEG, PC, COND, KBSR};
use crate::exec::{
    Outcome, dr, opcode, off9, execute_spec, step_spec, run_spec, lemma_fields, puts_spec,
    putsp_spec,
};

verus! {

/// The value of a word read as a 16-bit two's-complement number.
pub open spec fn signed_word(w: u16) -> int {
    if w >= 0x8000 {
        w as int - 0x10000
    } else {
        w as int
    }
}

/// The value of the low `b` bits of `v` read as a `b`-bit two's-complement
/// number.
pub open spec fn signed_field(v: u16, b: nat) -> int {
    let low = v as int % pow2(b) as int;
    if low >= pow2((b - 1) as nat) {
        low - pow2(b)
    } else {
        low
    }
}

/// Sign extension keeps the signed value: for every word `v` and width `b`
/// from 1 to 16, the extended word, read as a 16-bit signed number, equals
/// the low `b` bits of `v` read as a `b`-bit signed number.
pub proof fn lemma_sign_extension_keeps_value(v: u16, b: nat)
    requires
        1 <= b <= 16,
    ensures
        signed_word(sext(v, b)) == signed_field(v, b),
{
    lemma_pow2_unfold(b);
    lemma2_to64();
    if b < 16 {
        lemma_pow2_strictly_increases(b, 16);
        lemma_pow2_strictly_increases((b - 1) as nat, 15);
    }
    assert(pow2(b) == 2 * pow2((b - 1) as nat));
    let low = v as int % pow2(b) as int;
    assert(0 <= low < pow2(b));
}

/// Sign extension in bit form: for every word `x` and width `b` from 1 to
/// 15, when bit `b - 1` of `x` is set the result is `x` with all bits from
/// `b` upwards set; otherwise it is `x` with all bits from `b` upwards
/// cleared.
pub proof fn lemma_sign_extension_bit_form(x: u16, b: u16)
    requires
        1 <= b <= 15,
    ensures
        sext(x, b as nat) == if (x >> (b - 1) as u16) & 1u16 == 1u16 {
            x | (0xFFFFu16 << b)
        } else {
            x & (((1u16 << b) - 1u16) as u16)
        },
{
    let c = (b - 1) as u16;
    lemma2_to64();
    lemma_pow2_unfold(b as nat);
    lemma_pow2_strictly_increases(b as nat, 16);
    lemma_pow2_strictly_increases(c as nat, 15);
    lemma_u16_shl_is_mul(1u16, b);
    lemma_u16_shl_is_mul(1u16, c);
    lemma_u16_low_bits_mask_is_mod(x, b as nat);
    let p: u16 = 1u16 << b;
    let h: u16 = 1u16 << c;
    assert(p as nat == pow2(b as nat));
    assert(h as nat == pow2(c as nat));
    let m: u16 = ((1u16 << b) - 1u16) as u16;
    let hi: u16 = 0xFFFFu16 << b;
    assert(m == p - 1);
    assert(low_bits_mask(b as nat) as u16 == m);
    assert((x & m) as int == x as int % pow2(b as nat) as int);
    assert(((x >> c) & 1u16 == 1u16) == (x & m >= h) && x | hi == ((x & m) + hi) as u16 && hi == (
    0xFFFFu16 - m) as u16) by (bit_vector)
        requires
            1u16 <= b <= 15u16,
            c == b - 1u16,
            h == 1u16 << c,
            m == ((1u16 << b) - 1u16) as u16,
            hi == 0xFFFFu16 << b,
    ;
}

/// Whether a condition pattern holds exactly one of the three flags.
pub open spec fn one_flag(c: u16) -> bool {
    c == FL_POS || c == FL_ZRO || c == FL_NEG
}

/// Whether opcode `op` defines a destination register (ADD, LD, AND, LDR,
/// NOT, LDI, LEA).
pub open spec fn defines_register(op: u16) -> bool {
    op == 1 || op == 2 || op == 5 || op == 6 || op == 9 || op == 10 || op == 14
}

/// After an instruction that defines a destination register, COND holds
/// exactly one flag, the one that classifies the new value of that register
/// (zero, negative when the high bit is set, else positive).
pub proof fn lemma_flags_follow_destination(m: Machine, i: u16)
    requires
        m.wf(),
        defines_register(opcode(i)),
    ensures
        ({
            let m2 = execute_spec(m, i).0;
            &&& m2.reg[COND as int] == flag_of(m2.reg[dr(i) as int])
            &&& one_flag(m2.reg[COND as int])
        }),
{
    lemma_fields(i);
}

proof fn lemma_puts_keeps_registers(m: Machine, a: u16, n: nat)
    ensures
        puts_spec(m, a, n).reg == m.reg,
    decreases n,
{
    if n > 0 {
        let (m1, w) = m.read(a);
        if w != 0 {
            lemma_puts_keeps_registers(m1.emit((w % 256) as u8), wadd(a, 1), (n - 1) as nat);
        }
    }
}

proof fn lemma_putsp_keeps_registers(m: Machine, a: u16, n: nat)
    ensures
        putsp_spec(m, a, n).reg == m.reg,
    decreases n,
{
    if n > 0 {
        let (m1, w) = m.read(a);
        if w != 0 {
            lemma_putsp_keeps_registers(m1.emit_all(crate::exec::packed_chars(w)), wadd(a, 1), (n - 1) as nat);
        }
    }
}

/// COND holding exactly one flag is kept by every machine cycle: the
/// instructions that define a register set it from that register, and all
/// others leave it alone.
pub proof fn lemma_cycle_keeps_one_flag(m: Machine)
    requires
        m.wf(),
        one_flag(m.reg[COND as int]),
    ensures
        one_flag(step_spec(m).0.reg[COND as int]),
{
    let (m1, i) = m.read(m.pc());
    let m2 = m1.set_reg(PC, wadd(m.pc(), 1));
    lemma_fields(i);
    let m3 = m2.set_reg(crate::machine::R7, m2.pc());
    lemma_puts_keeps_registers(m3, m3.reg[0], 0x10000);
    lemma_putsp_keeps_registers(m3, m3.reg[0], 0x10000);
}

/// LDI reads through two addresses: when the word at PC plus the offset is
/// `a` and the word at `a` is `x`, LDI loads `x` into its destination
/// (neither address being the keyboard status word, whose reads poll).
pub proof fn lemma_load_indirect(m: Machine, i: u16, a: u16, x: u16)
    requires
        m.wf(),
        opcode(i) == 10,
        wadd(m.pc(), off9(i)) != KBSR,
        m.mem[wadd(m.pc(), off9(i)) as int] == a,
        a != KBSR,
        m.mem[a as int] == x,
    ensures
        execute_spec(m, i).0.reg[dr(i) as int] == x,
{
    lemma_fields(i);
}

/// Once the run loop has stopped at a HALT, more cycles change nothing: no
/// instruction after the HALT executes.
pub proof fn lemma_halt_is_final(m: Machine, k: nat, j: nat)
    requires
        run_spec(m, k).1 == Outcome::Halted,
    ensures
        run_spec(m, k + j) == run_spec(m, k),
    decreases k,
{
    if k > 0 {
        let (m1, o) = step_spec(m);
        if o is Running {
            lemma_halt_is_final(m1, (k - 1) as nat, j);
            assert((k - 1) as nat + j == (k + j - 1) as nat);
        }
    }
}

/// RTI and RES do nothing: a cycle that fetches one of them changes only
/// PC, which advances by one (the fetch being from an ordinary address).
pub proof fn lemma_reserved_opcodes_do_nothing(m: Machine)
    requires
        m.wf(),
        m.pc() != KBSR,
        opcode(m.mem[m.pc() as int]) == 8 || opcode(m.mem[m.pc() as int]) == 13,
    ensures
        step_spec(m) == (m.set_reg(PC, wadd(m.pc(), 1)), Outcome::Running),
{
}

} // verus!
