use lc3_vm::exec::Outcome;
use lc3_vm::isa::{Flags, Operators, Registers, MR, TRAP};
use lc3_vm::machine::Vm;

const PC: usize = 8;
const COND: usize = 9;

fn machine_at(pc: u16) -> Vm {
    let mut vm = Vm::new();
    vm.reg[PC] = pc;
    vm
}

#[test]
fn sign_extend_examples() {
    assert_eq!(Vm::sign_extend(0x1F, 5), 0xFFFF);
    assert_eq!(Vm::sign_extend(0x0F, 5), 0x000F);
    assert_eq!(Vm::sign_extend(0x100, 9), 0xFF00);
    assert_eq!(Vm::sign_extend(0x0FF, 9), 0x00FF);
    assert_eq!(Vm::sign_extend(0x400, 11), 0xFC00);
    assert_eq!(Vm::sign_extend(0x20, 6), 0xFFE0);
    assert_eq!(Vm::sign_extend(0x8000, 16), 0x8000);
}

#[test]
fn sign_extend_ignores_high_bits() {
    assert_eq!(Vm::sign_extend(0xFF0F, 5), 0x000F);
    assert_eq!(Vm::sign_extend(0xFFE1, 5), 0x0001);
    assert_eq!(Vm::sign_extend(0x0031, 5), 0xFFF1);
}

#[test]
fn sign_extend_matches_twos_complement_everywhere() {
    for b in 1..16i32 {
        for v in 0..=0xFFFFu32 {
            let v = v as u16;
            let low = (v as u32) & ((1u32 << b) - 1);
            let signed: i32 = if low >= (1u32 << (b - 1)) {
                low as i32 - (1i32 << b)
            } else {
                low as i32
            };
            assert_eq!(Vm::sign_extend(v, b), signed as i16 as u16);
        }
    }
}

#[test]
fn decoders() {
    assert!(matches!(Operators::from(0), Ok(Operators::BR)));
    assert!(matches!(Operators::from(8), Ok(Operators::RTI)));
    assert!(matches!(Operators::from(13), Ok(Operators::RES)));
    assert!(matches!(Operators::from(15), Ok(Operators::TRAP)));
    assert!(matches!(Operators::from(16), Err(-1)));
    assert!(matches!(TRAP::from(0x20), Ok(TRAP::GETC)));
    assert!(matches!(TRAP::from(0x25), Ok(TRAP::HALT)));
    assert!(matches!(TRAP::from(0x26), Err(-1)));
    assert!(matches!(TRAP::from(0x1F), Err(-1)));
    assert_eq!(Registers::PC.index(), 8);
    assert_eq!(Registers::COND.index(), 9);
    assert_eq!(Registers::COUNT.index(), 10);
    assert_eq!(Flags::POS.value(), 1);
    assert_eq!(Flags::ZRO.value(), 2);
    assert_eq!(Flags::NEG.value(), 4);
    assert_eq!(MR::KBSR.address(), 0xFE00);
    assert_eq!(MR::KBDR.address(), 0xFE02);
}

#[test]
fn new_machine_is_zero() {
    let vm = Vm::new();
    assert_eq!(vm.reg.len(), 10);
    assert_eq!(vm.mem.len(), 0x10000);
    assert!(vm.reg.iter().all(|&r| r == 0));
    assert!(vm.mem.iter().all(|&w| w == 0));
}

#[test]
fn add_immediate_minus_one() {
    let mut vm = machine_at(0x3000);
    vm.reg[1] = 5;
    // ADD R0, R1, #-1
    vm.add(0b0001_000_001_1_11111);
    assert_eq!(vm.reg[0], 4);
    assert_eq!(vm.reg[COND], 1);
}

#[test]
fn add_registers_wraps_and_flags() {
    let mut vm = machine_at(0x3000);
    vm.reg[1] = 0xFFFF;
    vm.reg[2] = 1;
    // ADD R3, R1, R2
    vm.add(0b0001_011_001_0_00_010);
    assert_eq!(vm.reg[3], 0);
    assert_eq!(vm.reg[COND], 2);
    vm.reg[2] = 0x8000;
    vm.reg[1] = 0;
    vm.add(0b0001_011_001_0_00_010);
    assert_eq!(vm.reg[3], 0x8000);
    assert_eq!(vm.reg[COND], 4);
}

#[test]
fn flags_after_each_defining_instruction() {
    let mut vm = machine_at(0x3000);
    vm.reg[1] = 0x00F0;
    // AND R2, R1, #0
    vm.and(0b0101_010_001_1_00000);
    assert_eq!((vm.reg[2], vm.reg[COND]), (0, 2));
    // NOT R2, R1
    vm.not(0b1001_010_001_111111);
    assert_eq!((vm.reg[2], vm.reg[COND]), (0xFF0F, 4));
    // LEA R4, #3
    vm.lea(0b1110_100_000000011);
    assert_eq!((vm.reg[4], vm.reg[COND]), (0x3003, 1));
    vm.mem[0x3002] = 0x9000;
    // LD R5, #2
    vm.ld(0b0010_101_000000010);
    assert_eq!((vm.reg[5], vm.reg[COND]), (0x9000, 4));
    vm.mem[0x00EF] = 7;
    // LDR R6, R1, #-1
    vm.ldr(0b0110_110_001_111111);
    assert_eq!((vm.reg[6], vm.reg[COND]), (7, 1));
}

#[test]
fn and_registers() {
    let mut vm = machine_at(0x3000);
    vm.reg[1] = 0b1100;
    vm.reg[2] = 0b1010;
    vm.and(0b0101_000_001_0_00_010);
    assert_eq!(vm.reg[0], 0b1000);
    assert_eq!(vm.reg[COND], 1);
}

#[test]
fn ldi_double_indirection() {
    let mut vm = machine_at(0x3001);
    vm.mem[0x3001 + 4] = 0x4000;
    vm.mem[0x4000] = 0xBEEF;
    // LDI R2, #4
    vm.ldi(0b1010_010_000000100);
    assert_eq!(vm.reg[2], 0xBEEF);
    assert_eq!(vm.reg[COND], 4);
}

#[test]
fn store_family() {
    let mut vm = machine_at(0x3000);
    vm.reg[1] = 0x1234;
    // ST R1, #-2
    vm.st(0b0011_001_111111110);
    assert_eq!(vm.mem[0x2FFE], 0x1234);
    vm.reg[2] = 0x5000;
    // STR R1, R2, #5
    vm.str(0b0111_001_010_000101);
    assert_eq!(vm.mem[0x5005], 0x1234);
    vm.mem[0x3001] = 0x6000;
    // STI R1, #1
    vm.sti(0b1011_001_000000001);
    assert_eq!(vm.mem[0x6000], 0x1234);
}

#[test]
fn store_address_wraps() {
    let mut vm = machine_at(0xFFFF);
    vm.reg[1] = 9;
    // ST R1, #2
    vm.st(0b0011_001_000000010);
    assert_eq!(vm.mem[0x0001], 9);
}

#[test]
fn branches_and_jumps() {
    let mut vm = machine_at(0x3000);
    vm.reg[COND] = 2;
    // BRz #5
    vm.br(0b0000_010_000000101);
    assert_eq!(vm.reg[PC], 0x3005);
    // BRp #5 (not taken)
    vm.br(0b0000_001_000000101);
    assert_eq!(vm.reg[PC], 0x3005);
    // BRnzp #-5
    vm.br(0b0000_111_111111011);
    assert_eq!(vm.reg[PC], 0x3000);
    vm.reg[3] = 0x4444;
    // JMP R3
    vm.jmp(0b1100_000_011_000000);
    assert_eq!(vm.reg[PC], 0x4444);
    // JSR #16
    vm.jsr(0b0100_1_00000010000);
    assert_eq!(vm.reg[7], 0x4444);
    assert_eq!(vm.reg[PC], 0x4454);
    // JSRR R3
    vm.jsr(0b0100_0_00_011_000000);
    assert_eq!(vm.reg[7], 0x4454);
    assert_eq!(vm.reg[PC], 0x4444);
}

#[test]
fn puts_writes_until_terminator() {
    let mut vm = machine_at(0x2000);
    vm.mem[0x3000] = 0x48;
    vm.mem[0x3001] = 0x69;
    vm.mem[0x3002] = 0x0000;
    vm.mem[0x3003] = 0x21;
    vm.reg[0] = 0x3000;
    assert_eq!(vm.trap(0xF022), Outcome::Running);
    assert_eq!(vm.output, b"Hi".to_vec());
    assert_eq!(vm.reg[7], 0x2000);
    assert_eq!(vm.mem[0x3002], 0);
}

#[test]
fn puts_wraps_past_top_of_memory() {
    let mut vm = machine_at(0x3000);
    vm.mem[0xFFFF] = 0x41;
    vm.mem[0x0000] = 0x42;
    vm.mem[0x0001] = 0;
    vm.reg[0] = 0xFFFF;
    assert_eq!(vm.trap(0xF022), Outcome::Running);
    assert_eq!(vm.output, b"AB".to_vec());
    vm.output.clear();
    vm.mem[0x0000] = 0x4443; // "CD"
    assert_eq!(vm.trap(0xF024), Outcome::Running);
    assert_eq!(vm.output, b"ACD".to_vec());
}

#[test]
fn putsp_writes_packed_bytes() {
    let mut vm = machine_at(0x3000);
    vm.mem[0x4000] = 0x6548; // "He"
    vm.mem[0x4001] = 0x006C; // "l"
    vm.mem[0x4002] = 0;
    vm.reg[0] = 0x4000;
    assert_eq!(vm.trap(0xF024), Outcome::Running);
    assert_eq!(vm.output, b"Hel".to_vec());
}

#[test]
fn out_writes_low_byte() {
    let mut vm = machine_at(0x3000);
    vm.reg[0] = 0x1241;
    assert_eq!(vm.trap(0xF021), Outcome::Running);
    assert_eq!(vm.output, b"A".to_vec());
}

#[test]
fn getc_and_in_read_input() {
    let mut vm = machine_at(0x3000);
    assert_eq!(vm.trap(0xF020), Outcome::NeedInput);
    assert_eq!(vm.reg[7], 0);
    vm.input.extend_from_slice(b"xy");
    assert_eq!(vm.trap(0xF020), Outcome::Running);
    assert_eq!(vm.reg[0], b'x' as u16);
    assert!(vm.output.is_empty());
    assert_eq!(vm.trap(0xF023), Outcome::Running);
    assert_eq!(vm.reg[0], b'y' as u16);
    assert_eq!(vm.output, b"Enter a character :y".to_vec());
    assert_eq!(vm.trap(0xF023), Outcome::NeedInput);
}

#[test]
fn halt_and_bad_trap() {
    let mut vm = machine_at(0x3000);
    assert_eq!(vm.trap(0xF025), Outcome::Halted);
    assert_eq!(vm.output, b"Halt\n".to_vec());
    assert_eq!(vm.trap(0xF030), Outcome::BadTrap(0x30));
    assert_eq!(vm.reg[7], 0x3000);
}

#[test]
fn keyboard_status_polls_input() {
    let mut vm = machine_at(0x3000);
    assert_eq!(vm.mem_read(0xFE00), 0);
    vm.input.push(b'k');
    assert_eq!(vm.mem_read(0xFE00), 0x8000);
    assert_eq!(vm.mem_read(0xFE02), b'k' as u16);
    assert_eq!(vm.input_pos, 1);
    assert_eq!(vm.mem_read(0xFE00), 0);
    vm.mem_write(0x1234, 77);
    assert_eq!(vm.mem_read(0x1234), 77);
}

#[test]
fn keyboard_zero_byte_is_a_key() {
    let mut vm = machine_at(0x3000);
    vm.mem[0xFE02] = 0x55;
    vm.input.push(0);
    assert_eq!(vm.mem_read(0xFE00), 0x8000);
    assert_eq!(vm.mem[0xFE02], 0);
    assert_eq!(vm.input_pos, 1);
    assert_eq!(vm.mem_read(0xFE00), 0);
}

#[test]
fn load_image_two_words() {
    let mut vm = Vm::new();
    let n = vm.load_image(&[0x30, 0x00, 0x12, 0x34, 0xAB, 0xCD]);
    assert_eq!(n, 2);
    assert_eq!(vm.mem[0x3000], 0x1234);
    assert_eq!(vm.mem[0x3001], 0xABCD);
    assert_eq!(vm.mem[0x3002], 0);
    assert_eq!(vm.mem[0x2FFF], 0);
}

#[test]
fn load_image_edges() {
    let mut vm = Vm::new();
    assert_eq!(vm.load_image(&[]), 0);
    assert_eq!(vm.load_image(&[0x30]), 0);
    assert_eq!(vm.load_image(&[0x30, 0x00]), 0);
    assert_eq!(vm.load_image(&[0x40, 0x00, 0x12]), 1);
    assert_eq!(vm.mem[0x4000], 0x1200);
    assert_eq!(vm.load_image(&[0xFF, 0xFF, 1, 2, 3, 4]), 1);
    assert_eq!(vm.mem[0xFFFF], 0x0102);
    assert_eq!(vm.mem[0x0000], 0);
}

#[test]
fn halt_stops_the_run_loop() {
    let mut vm = machine_at(0x3000);
    vm.mem[0x3000] = 0b0001_001_001_1_00001; // ADD R1, R1, #1
    vm.mem[0x3001] = 0xF025; // HALT
    vm.mem[0x3002] = 0b0001_001_001_1_00001; // ADD R1, R1, #1
    assert_eq!(vm.run(100), Outcome::Halted);
    assert_eq!(vm.reg[1], 1);
    assert_eq!(vm.reg[PC], 0x3002);
    assert_eq!(vm.reg[7], 0x3002);
}

#[test]
fn run_limit_and_bad_trap() {
    let mut vm = machine_at(0x3000);
    vm.mem[0x3000] = 0b0001_001_001_1_00001;
    vm.mem[0x3001] = 0b0001_001_001_1_00001;
    vm.mem[0x3002] = 0xF0FF;
    assert_eq!(vm.run(1), Outcome::Running);
    assert_eq!(vm.reg[1], 1);
    assert_eq!(vm.run(10), Outcome::BadTrap(0xFF));
    assert_eq!(vm.reg[1], 2);
}

#[test]
fn reserved_opcodes_are_no_ops() {
    for word in [0x8000u16, 0x8ABC, 0xD000, 0xDFFF] {
        let mut vm = machine_at(0x3000);
        vm.mem[0x3000] = word;
        vm.reg[3] = 33;
        vm.reg[COND] = 4;
        let mem_before = vm.mem.clone();
        let reg_before = vm.reg.clone();
        assert_eq!(vm.step(), Outcome::Running);
        assert_eq!(vm.mem, mem_before);
        for r in 0..10 {
            if r == PC {
                assert_eq!(vm.reg[r], 0x3001);
            } else {
                assert_eq!(vm.reg[r], reg_before[r]);
            }
        }
    }
}

#[test]
fn step_waits_for_input_without_change() {
    let mut vm = machine_at(0x3000);
    vm.mem[0x3000] = 0xF020; // GETC
    vm.mem[0x3001] = 0xF021; // OUT
    assert_eq!(vm.step(), Outcome::NeedInput);
    assert_eq!(vm.reg[PC], 0x3000);
    vm.input.push(b'z');
    assert_eq!(vm.run(2), Outcome::Running);
    assert_eq!(vm.output, b"z".to_vec());
}

#[test]
fn execute_dispatches_on_opcode() {
    let mut vm = machine_at(0x3000);
    vm.reg[1] = 2;
    assert_eq!(vm.execute(0b0001_000_001_1_00011), Outcome::Running);
    assert_eq!(vm.reg[0], 5);
    assert_eq!(vm.execute(0xF025), Outcome::Halted);
}

#[test]
fn update_flags_classifies() {
    let mut vm = Vm::new();
    vm.reg[4] = 0x7FFF;
    vm.update_flags(4);
    assert_eq!(vm.reg[COND], 1);
    vm.reg[4] = 0x8000;
    vm.update_flags(4);
    assert_eq!(vm.reg[COND], 4);
    vm.reg[4] = 0;
    vm.update_flags(4);
    assert_eq!(vm.reg[COND], 2);
}
