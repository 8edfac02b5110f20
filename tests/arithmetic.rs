use chip8_cpu::decode::Instruction;
use chip8_cpu::state::{Cpu, ProgramCounter};

const NO_KEYS: [bool; 16] = [false; 16];

fn with_regs(a: u8, b: u8) -> Cpu {
    let mut cpu = Cpu::new();
    cpu.v[1] = a;
    cpu.v[2] = b;
    cpu
}

#[test]
fn add_sets_carry_when_sum_overflows() {
    let mut cpu = with_regs(200, 100);
    assert_eq!(cpu.i8xy4(1, 2), ProgramCounter::Next);
    assert_eq!(cpu.v[1], 44);
    assert_eq!(cpu.v[0xF], 1);
}

#[test]
fn add_clears_carry_without_overflow() {
    let mut cpu = with_regs(10, 20);
    cpu.v[0xF] = 1;
    cpu.i8xy4(1, 2);
    assert_eq!(cpu.v[1], 30);
    assert_eq!(cpu.v[0xF], 0);
}

#[test]
fn add_at_exact_boundary() {
    let mut cpu = with_regs(255, 1);
    cpu.i8xy4(1, 2);
    assert_eq!(cpu.v[1], 0);
    assert_eq!(cpu.v[0xF], 1);
    let mut cpu = with_regs(254, 1);
    cpu.i8xy4(1, 2);
    assert_eq!(cpu.v[1], 255);
    assert_eq!(cpu.v[0xF], 0);
}

#[test]
fn add_all_byte_pairs() {
    for a in 0..=255u16 {
        for b in (0..=255u16).step_by(7) {
            let mut cpu = with_regs(a as u8, b as u8);
            cpu.i8xy4(1, 2);
            assert_eq!(cpu.v[1] as u16, (a + b) % 256);
            assert_eq!(cpu.v[0xF], if a + b > 255 { 1 } else { 0 });
        }
    }
}

#[test]
fn sub_without_borrow() {
    let mut cpu = with_regs(10, 3);
    cpu.i8xy5(1, 2);
    assert_eq!(cpu.v[1], 7);
    assert_eq!(cpu.v[0xF], 1);
}

#[test]
fn sub_with_borrow_wraps() {
    let mut cpu = with_regs(3, 10);
    cpu.v[0xF] = 1;
    cpu.i8xy5(1, 2);
    assert_eq!(cpu.v[1], 249);
    assert_eq!(cpu.v[0xF], 0);
}

#[test]
fn sub_equal_operands_clears_flag() {
    let mut cpu = with_regs(5, 5);
    cpu.i8xy5(1, 2);
    assert_eq!(cpu.v[1], 0);
    assert_eq!(cpu.v[0xF], 0);
}

#[test]
fn reverse_sub_both_directions() {
    let mut cpu = with_regs(3, 10);
    cpu.i8xy7(1, 2);
    assert_eq!(cpu.v[1], 7);
    assert_eq!(cpu.v[0xF], 1);
    let mut cpu = with_regs(10, 3);
    cpu.i8xy7(1, 2);
    assert_eq!(cpu.v[1], 249);
    assert_eq!(cpu.v[0xF], 0);
}

#[test]
fn shift_right_reads_flag_before_shift() {
    let mut cpu = with_regs(0b1000_0001, 0);
    cpu.i8xy6(1);
    assert_eq!(cpu.v[1], 0b0100_0000);
    assert_eq!(cpu.v[0xF], 1);
    let mut cpu = with_regs(0b0000_0010, 0);
    cpu.i8xy6(1);
    assert_eq!(cpu.v[1], 1);
    assert_eq!(cpu.v[0xF], 0);
}

#[test]
fn shift_left_reads_flag_before_shift() {
    let mut cpu = with_regs(0b1000_0001, 0);
    cpu.i8x0E(1);
    assert_eq!(cpu.v[1], 0b0000_0010);
    assert_eq!(cpu.v[0xF], 1);
    let mut cpu = with_regs(0b0100_0000, 0);
    cpu.i8x0E(1);
    assert_eq!(cpu.v[1], 0b1000_0000);
    assert_eq!(cpu.v[0xF], 0);
}

#[test]
fn bitwise_ops_leave_flag_alone() {
    let mut cpu = with_regs(0b1100, 0b1010);
    cpu.v[0xF] = 7;
    cpu.i8xy1(1, 2);
    assert_eq!(cpu.v[1], 0b1110);
    cpu.v[1] = 0b1100;
    cpu.i8xy2(1, 2);
    assert_eq!(cpu.v[1], 0b1000);
    cpu.v[1] = 0b1100;
    cpu.i8xy3(1, 2);
    assert_eq!(cpu.v[1], 0b0110);
    cpu.i8xy0(1, 2);
    assert_eq!(cpu.v[1], 0b1010);
    assert_eq!(cpu.v[0xF], 7);
}

#[test]
fn add_immediate_wraps_without_flag() {
    let mut cpu = with_regs(250, 0);
    cpu.i7xkk(1, 10);
    assert_eq!(cpu.v[1], 4);
    assert_eq!(cpu.v[0xF], 0);
    cpu.i6xkk(3, 0x42);
    assert_eq!(cpu.v[3], 0x42);
}

#[test]
fn random_is_masked() {
    let mut cpu = Cpu::new();
    cpu.iCxkk(4, 0x0F, 0xAB);
    assert_eq!(cpu.v[4], 0x0B);
    let r = cpu.execute(Instruction::Random { x: 5, kk: 0xF0 }, &NO_KEYS, 0xAB);
    assert_eq!(r, Ok(ProgramCounter::Next));
    assert_eq!(cpu.v[5], 0xA0);
}
