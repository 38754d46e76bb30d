//! Machine state: the register file, the address space with its keyboard
//! device, the pending console input and the console output, together with
//! the mathematical model that the contracts speak of.
use vstd::prelude::*;
use vstd::arithmetic::power2::{pow2, lemma_pow2_unfold, lemma2_to64, lemma_pow2_strictly_increases};
use vstd::bits::{lemma_u32_shl_is_mul, lemma_u32_pow2_no_overflow};

verus! {

/// Number of words in the address space.
pub const MEM_MAX: usize = 0x10000;

/// Number of register slots.
pub const REG_COUNT: usize = 10;

/// Index of the return-address register.
pub const R7: u16 = 7;

/// Index of the program counter.
pub const PC: u16 = 8;

/// Index of the condition register.
pub const COND: u16 = 9;

/// Address of the keyboard status word.
pub const KBSR: u16 = 0xFE00;

/// Address of the keyboard data word.
pub const KBDR: u16 = 0xFE02;

/// Condition pattern of a positive value.
pub const FL_POS: u16 = 1;

/// Condition pattern of zero.
pub const FL_ZRO: u16 = 2;

/// Condition pattern of a negative value.
pub const FL_NEG: u16 = 4;

/// The condition pattern that classifies a word by its signed value.
pub open spec fn flag_of(v: u16) -> u16 {
    if v == 0 {
        FL_ZRO
    } else if v >= 0x8000 {
        FL_NEG
    } else {
        FL_POS
    }
}

/// Addition of words modulo 2^16.
pub open spec fn wadd(a: u16, b: u16) -> u16 {
    ((a as int + b as int) % 0x10000) as u16
}

/// Two's-complement sign extension of the low `b` bits of `v` to a word.
pub open spec fn sext(v: u16, b: nat) -> u16 {
    let low = v as int % pow2(b) as int;
    if low >= pow2((b - 1) as nat) {
        (low + 0x10000 - pow2(b)) as u16
    } else {
        low as u16
    }
}

/// The load origin declared by an image: its first word, big-endian.
pub open spec fn image_origin(img: Seq<u8>) -> nat {
    img[0] as nat * 256 + img[1] as nat
}

/// The `k`-th data word of an image, big-endian; a last odd byte is the
/// high byte of a word whose low byte is zero.
pub open spec fn image_word(img: Seq<u8>, k: int) -> u16 {
    let hi = img[2 + 2 * k] as int;
    let lo = if 3 + 2 * k < img.len() { img[3 + 2 * k] as int } else { 0 };
    (hi * 256 + lo) as u16
}

/// How many data words of an image are loaded: all of them, up to the top
/// of the address space; none when the image has no origin word.
pub open spec fn image_loaded(img: Seq<u8>) -> nat {
    if img.len() < 2 {
        0
    } else {
        let words = (img.len() - 1) as nat / 2;
        let room = (MEM_MAX - image_origin(img)) as nat;
        if words < room {
            words
        } else {
            room
        }
    }
}

/// Memory after loading `img` over `mem`.
pub open spec fn loaded_mem(mem: Seq<u16>, img: Seq<u8>) -> Seq<u16> {
    Seq::new(
        mem.len(),
        |a: int|
            if img.len() >= 2 && image_origin(img) <= a < image_origin(img) + image_loaded(img) {
                image_word(img, a - image_origin(img))
            } else {
                mem[a]
            },
    )
}

/// The whole state of a machine as mathematical values: registers, memory,
/// the console input with the position of the next unread byte, and the
/// console output written so far.
pub struct Machine {
    pub reg: Seq<u16>,
    pub mem: Seq<u16>,
    pub input: Seq<u8>,
    pub pos: nat,
    pub output: Seq<u8>,
}

impl Machine {
    pub open spec fn wf(self) -> bool {
        &&& self.reg.len() == REG_COUNT
        &&& self.mem.len() == MEM_MAX
        &&& self.pos <= self.input.len()
    }

    /// Whether an unread input byte is available.
    pub open spec fn has_input(self) -> bool {
        self.pos < self.input.len()
    }

    /// The next unread input byte.
    pub open spec fn next_input(self) -> u8 {
        self.input[self.pos as int]
    }

    /// The state with the next input byte consumed.
    pub open spec fn consume(self) -> Machine {
        Machine { pos: self.pos + 1, ..self }
    }

    pub open spec fn pc(self) -> u16 {
        self.reg[PC as int]
    }

    pub open spec fn set_reg(self, r: u16, v: u16) -> Machine {
        Machine { reg: self.reg.update(r as int, v), ..self }
    }

    /// Sets COND from the value of register `r`.
    pub open spec fn set_flags(self, r: u16) -> Machine {
        self.set_reg(COND, flag_of(self.reg[r as int]))
    }

    /// Writes `v` to register `r` and sets COND from `v`.
    pub open spec fn define(self, r: u16, v: u16) -> Machine {
        Machine { reg: self.reg.update(r as int, v).update(COND as int, flag_of(v)), ..self }
    }

    pub open spec fn write(self, a: u16, v: u16) -> Machine {
        Machine { mem: self.mem.update(a as int, v), ..self }
    }

    pub open spec fn emit(self, c: u8) -> Machine {
        Machine { output: self.output.push(c), ..self }
    }

    pub open spec fn emit_all(self, s: Seq<u8>) -> Machine {
        Machine { output: self.output + s, ..self }
    }

    /// One poll of the keyboard: an available byte (any value) is consumed,
    /// sets the status word's high bit and is stored in the data word; with
    /// no byte available the status word is cleared.
    pub open spec fn poll(self) -> Machine {
        if self.has_input() {
            self.consume().write(KBSR, 0x8000).write(KBDR, self.next_input() as u16)
        } else {
            self.write(KBSR, 0)
        }
    }

    /// A read of address `a`: the state after it and the word read.  Reading
    /// the keyboard status address polls the keyboard first.
    pub open spec fn read(self, a: u16) -> (Machine, u16) {
        if a == KBSR {
            (self.poll(), self.poll().mem[KBSR as int])
        } else {
            (self, self.mem[a as int])
        }
    }
}

/// A machine: registers and memory, console input still to be read and
/// console output not yet taken by the host.
pub struct Vm {
    pub reg: Vec<u16>,
    pub mem: Vec<u16>,
    pub input: Vec<u8>,
    pub input_pos: usize,
    pub output: Vec<u8>,
}

impl View for Vm {
    type V = Machine;

    open spec fn view(&self) -> Machine {
        Machine {
            reg: self.reg@,
            mem: self.mem@,
            input: self.input@,
            pos: self.input_pos as nat,
            output: self.output@,
        }
    }
}

/// A vector of `n` zero words.
fn zeros(n: usize) -> (r: Vec<u16>)
    ensures
        r@ == Seq::new(n as nat, |j: int| 0u16),
{
    let mut v: Vec<u16> = Vec::new();
    let mut i: usize = 0;
    while i < n
        invariant
            i <= n,
            v@ == Seq::new(i as nat, |j: int| 0u16),
        decreases n - i,
    {
        v.push(0);
        i = i + 1;
        assert(v@ =~= Seq::new(i as nat, |j: int| 0u16));
    }
    v
}

impl Vm {
    pub open spec fn wf(&self) -> bool {
        self@.wf()
    }

    /// A machine with all registers and all memory zero, and no input.
    pub fn new() -> (r: Vm)
        ensures
            r.wf(),
            r@.reg == Seq::new(REG_COUNT as nat, |i: int| 0u16),
            r@.mem == Seq::new(MEM_MAX as nat, |i: int| 0u16),
            r@.input.len() == 0,
            r@.pos == 0,
            r@.output.len() == 0,
    {
        let reg = zeros(REG_COUNT);
        let mem = zeros(MEM_MAX);
        Vm { reg, mem, input: Vec::new(), input_pos: 0, output: Vec::new() }
    }

    /// Sign-extends the low `bit_count` bits of `x` to a full word.
    pub fn sign_extend(x: u16, bit_count: i32) -> (r: u16)
        requires
            1 <= bit_count <= 16,
        ensures
            r == sext(x, bit_count as nat),
    {
        let b: u32 = bit_count as u32;
        proof {
            lemma_u32_pow2_no_overflow(b as nat);
            lemma_u32_shl_is_mul(1, b);
            lemma_pow2_unfold(b as nat);
            lemma2_to64();
            if b < 16 {
                lemma_pow2_strictly_increases(b as nat, 16);
            }
        }
        let p: u32 = 1u32 << b;
        assert(p == pow2(b as nat));
        assert(p <= 0x10000);
        let low: u32 = x as u32 % p;
        if low >= p / 2 {
            (low + 0x10000 - p) as u16
        } else {
            low as u16
        }
    }

    /// Loads a program image: the first big-endian word is the origin, and
    /// the following big-endian words are stored from the origin upwards, up
    /// to the top of the address space.  Returns the number of words stored.
    pub fn load_image(&mut self, image: &[u8]) -> (r: usize)
        requires
            old(self).wf(),
        ensures
            final(self).wf(),
            r == image_loaded(image@),
            final(self)@ == (Machine { mem: loaded_mem(old(self)@.mem, image@), ..old(self)@ }),
    {
        if image.len() < 2 {
            assert(loaded_mem(self@.mem, image@) =~= self@.mem);
            return 0;
        }
        let ghost start = self@.mem;
        let origin: usize = (image[0] as usize) * 256 + image[1] as usize;
        let words: usize = (image.len() - 1) / 2;
        let room: usize = MEM_MAX - origin;
        let count: usize = if words < room { words } else { room };
        let mut k: usize = 0;
        while k < count
            invariant
                self.wf(),
                image@.len() >= 2,
                origin == image_origin(image@),
                count == image_loaded(image@),
                count <= words,
                words == (image@.len() - 1) as nat / 2,
                origin + count <= MEM_MAX,
                k <= count,
                self@ == (Machine { mem: self@.mem, ..old(self)@ }),
                start == old(self)@.mem,
                forall|a: int|
                    0 <= a < MEM_MAX ==> #[trigger] self@.mem[a] == if origin <= a < origin + k {
                        image_word(image@, a - origin)
                    } else {
                        start[a]
                    },
            decreases count - k,
        {
            let hi: u16 = image[2 + 2 * k] as u16;
            let lo: u16 = if 3 + 2 * k < image.len() {
                image[3 + 2 * k] as u16
            } else {
                0
            };
            let w: u16 = hi * 256 + lo;
            assert(w == image_word(image@, k as int));
            self.mem.set(origin + k, w);
            k = k + 1;
        }
        assert(self@.mem =~= loaded_mem(start, image@));
        count
    }

    /// Sets COND from the value of register `register`.
    pub fn update_flags(&mut self, register: u16)
        requires
            old(self).wf(),
            register < REG_COUNT,
        ensures
            final(self)@ == old(self)@.set_flags(register),
    {
        let v = self.reg[register as usize];
        if v == 0 {
            self.reg.set(COND as usize, FL_ZRO);
        } else if v >= 0x8000 {
            self.reg.set(COND as usize, FL_NEG);
        } else {
            self.reg.set(COND as usize, FL_POS);
        }
    }

    /// Stores `val` at `address`.
    pub fn mem_write(&mut self, address: u16, val: u16)
        requires
            old(self).wf(),
        ensures
            final(self)@ == old(self)@.write(address, val),
    {
        self.mem.set(address as usize, val);
    }

    /// Polls the keyboard from the pending input.
    fn handle_keyboard(&mut self)
        requires
            old(self).wf(),
        ensures
            final(self)@ == old(self)@.poll(),
    {
        if self.input_pos < self.input.len() {
            let b = self.input[self.input_pos];
            self.input_pos = self.input_pos + 1;
            self.mem.set(KBSR as usize, 0x8000);
            self.mem.set(KBDR as usize, b as u16);
        } else {
            self.mem.set(KBSR as usize, 0);
        }
    }

    /// Reads the word at `address`, polling the keyboard first when the
    /// address is the keyboard status word.
    pub fn mem_read(&mut self, address: u16) -> (r: u16)
        requires
            old(self).wf(),
        ensures
            (final(self)@, r) == old(self)@.read(address),
    {
        if address == KBSR {
            self.handle_keyboard();
        }
        self.mem[address as usize]
    }
}

} // verus!
