use chip8_cpu::decode::Instruction;
use chip8_cpu::state::{Cpu, Fault, ProgramCounter, PROGRAM_START, RAM_SIZE};

const NO_KEYS: [bool; 16] = [false; 16];

#[test]
fn new_machine_is_zeroed() {
    let cpu = Cpu::new();
    assert_eq!(cpu.pc, PROGRAM_START);
    assert_eq!(cpu.sp, 0);
    assert_eq!(cpu.i, 0);
    assert!(cpu.v.iter().all(|r| *r == 0));
    assert!(cpu.ram.iter().all(|b| *b == 0));
}

#[test]
fn bcd_digits() {
    let mut cpu = Cpu::new();
    cpu.i = 0x400;
    cpu.v[3] = 254;
    assert_eq!(cpu.iFx33(3), Ok(ProgramCounter::Next));
    assert_eq!(&cpu.ram[0x400..0x403], &[2, 5, 4]);
    cpu.v[3] = 7;
    cpu.iFx33(3).unwrap();
    assert_eq!(&cpu.ram[0x400..0x403], &[0, 0, 7]);
}

#[test]
fn bcd_past_end_faults() {
    let mut cpu = Cpu::new();
    cpu.i = (RAM_SIZE - 2) as u16;
    assert_eq!(cpu.iFx33(0), Err(Fault::MemoryOutOfBounds(RAM_SIZE)));
}

#[test]
fn store_and_load_registers() {
    let mut cpu = Cpu::new();
    cpu.i = 0x500;
    for k in 0..16 {
        cpu.v[k] = 10 + k as u8;
    }
    assert_eq!(cpu.iFx55(3), Ok(ProgramCounter::Next));
    assert_eq!(&cpu.ram[0x500..0x505], &[10, 11, 12, 13, 0]);
    assert_eq!(cpu.i, 0x500);
    cpu.ram[0x500] = 99;
    cpu.iFx65(1).unwrap();
    assert_eq!(cpu.v[0], 99);
    assert_eq!(cpu.v[1], 11);
    assert_eq!(cpu.v[2], 12);
}

#[test]
fn store_registers_past_end_faults() {
    let mut cpu = Cpu::new();
    cpu.i = (RAM_SIZE - 4) as u16;
    assert_eq!(cpu.iFx55(4), Err(Fault::MemoryOutOfBounds(RAM_SIZE)));
    assert_eq!(cpu.iFx65(4), Err(Fault::MemoryOutOfBounds(RAM_SIZE)));
    assert_eq!(cpu.iFx55(3), Ok(ProgramCounter::Next));
}

#[test]
fn timers_and_address_register() {
    let mut cpu = Cpu::new();
    cpu.v[2] = 60;
    cpu.iFx15(2);
    assert_eq!(cpu.dt, 60);
    cpu.iFx18(2);
    assert_eq!(cpu.st, 60);
    cpu.dt = 17;
    cpu.iFx07(4);
    assert_eq!(cpu.v[4], 17);
    cpu.iAnnn(0xFFF);
    assert_eq!(cpu.i, 0xFFF);
    cpu.i = 0xFFF0;
    cpu.v[5] = 0x20;
    cpu.iFx1E(5);
    assert_eq!(cpu.i, 0x0010);
    cpu.v[6] = 0x1A;
    cpu.iFx29(6);
    assert_eq!(cpu.i, 50);
}

#[test]
fn wait_for_key() {
    let mut cpu = Cpu::new();
    cpu.pc = 0x234;
    assert_eq!(cpu.iFx0A(3, &NO_KEYS), ProgramCounter::Jump(0x234));
    let mut keys = [false; 16];
    keys[9] = true;
    keys[12] = true;
    assert_eq!(cpu.iFx0A(3, &keys), ProgramCounter::Next);
    assert_eq!(cpu.v[3], 9);
}

#[test]
fn step_decodes_and_executes() {
    let mut cpu = Cpu::new();
    assert_eq!(cpu.step(0x6A2B, &NO_KEYS, 0), Ok(ProgramCounter::Next));
    assert_eq!(cpu.v[0xA], 0x2B);
    assert_eq!(cpu.step(0x3A2B, &NO_KEYS, 0), Ok(ProgramCounter::Skip));
    assert_eq!(cpu.step(0x0123, &NO_KEYS, 0), Err(Fault::UnknownOpcode(0x0123)));
    assert_eq!(cpu.execute(Instruction::Call { nnn: 0x300 }, &NO_KEYS, 0), Ok(ProgramCounter::Jump(0x300)));
}

#[test]
fn fetch_reads_big_endian() {
    let mut cpu = Cpu::new();
    cpu.ram[0x200] = 0x12;
    cpu.ram[0x201] = 0x34;
    assert_eq!(cpu.fetch(), Ok(0x1234));
    cpu.pc = (RAM_SIZE - 1) as u16;
    assert_eq!(cpu.fetch(), Err(Fault::MemoryOutOfBounds(RAM_SIZE)));
}

#[test]
fn cycle_runs_a_small_program() {
    let mut cpu = Cpu::new();
    let program: [u8; 8] = [0x60, 0x05, 0x70, 0x03, 0xC1, 0x00, 0x12, 0x00];
    for (k, b) in program.iter().enumerate() {
        cpu.ram[0x200 + k] = *b;
    }
    cpu.v[1] = 0x77;
    cpu.cycle(&NO_KEYS).unwrap();
    assert_eq!(cpu.pc, 0x202);
    cpu.cycle(&NO_KEYS).unwrap();
    assert_eq!(cpu.v[0], 8);
    cpu.cycle(&NO_KEYS).unwrap();
    assert_eq!(cpu.v[1], 0);
    cpu.cycle(&NO_KEYS).unwrap();
    assert_eq!(cpu.pc, 0x200);
}

#[test]
fn cycle_random_byte_is_masked() {
    let mut cpu = Cpu::new();
    cpu.ram[0x200] = 0xC2;
    cpu.ram[0x201] = 0x0F;
    cpu.v[2] = 0xF0;
    cpu.cycle(&NO_KEYS).unwrap();
    assert_eq!(cpu.v[2] & 0xF0, 0);
}
