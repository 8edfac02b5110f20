use chip8_cpu::state::{Cpu, Fault, ProgramCounter};

#[test]
fn skip_if_helper() {
    assert_eq!(ProgramCounter::skip_if(true), ProgramCounter::Skip);
    assert_eq!(ProgramCounter::skip_if(false), ProgramCounter::Next);
}

#[test]
fn directive_application() {
    assert_eq!(ProgramCounter::Next.apply(0x200), 0x202);
    assert_eq!(ProgramCounter::Skip.apply(0x200), 0x204);
    assert_eq!(ProgramCounter::Jump(0x345).apply(0x200), 0x345);
    assert_eq!(ProgramCounter::Next.apply(0xFFFF), 0x0001);
}

#[test]
fn skip_register_immediate_both_branches() {
    let mut cpu = Cpu::new();
    cpu.v[3] = 0x42;
    assert_eq!(cpu.i3xkk(3, 0x42), ProgramCounter::Skip);
    assert_eq!(cpu.i3xkk(3, 0x43), ProgramCounter::Next);
    assert_eq!(cpu.i4xkk(3, 0x42), ProgramCounter::Next);
    assert_eq!(cpu.i4xkk(3, 0x43), ProgramCounter::Skip);
}

#[test]
fn skip_register_register_both_branches() {
    let mut cpu = Cpu::new();
    cpu.v[1] = 9;
    cpu.v[2] = 9;
    cpu.v[3] = 8;
    assert_eq!(cpu.i5xy0(1, 2), ProgramCounter::Skip);
    assert_eq!(cpu.i5xy0(1, 3), ProgramCounter::Next);
    assert_eq!(cpu.i9xy0(1, 2), ProgramCounter::Next);
    assert_eq!(cpu.i9xy0(1, 3), ProgramCounter::Skip);
}

#[test]
fn skip_on_key_both_branches() {
    let mut cpu = Cpu::new();
    let mut keys = [false; 16];
    keys[0xA] = true;
    cpu.v[1] = 0xA;
    cpu.v[2] = 0xB;
    cpu.v[3] = 0x20;
    assert_eq!(cpu.iEx9E(1, &keys), ProgramCounter::Skip);
    assert_eq!(cpu.iEx9E(2, &keys), ProgramCounter::Next);
    assert_eq!(cpu.iEx9E(3, &keys), ProgramCounter::Next);
    assert_eq!(cpu.iExA1(1, &keys), ProgramCounter::Next);
    assert_eq!(cpu.iExA1(2, &keys), ProgramCounter::Skip);
    assert_eq!(cpu.iExA1(3, &keys), ProgramCounter::Skip);
}

#[test]
fn jumps() {
    let mut cpu = Cpu::new();
    assert_eq!(cpu.i1nnn(0x456), ProgramCounter::Jump(0x456));
    cpu.v[0] = 0x10;
    assert_eq!(cpu.iBnnn(0x300), ProgramCounter::Jump(0x310));
    cpu.v[0] = 0xFF;
    assert_eq!(cpu.iBnnn(0xFFF), ProgramCounter::Jump(0x10FE));
}

#[test]
fn call_then_return_comes_back_after_call() {
    let mut cpu = Cpu::new();
    cpu.pc = 0x300;
    let sp = cpu.sp;
    let d = cpu.i2nnn(0x400).unwrap();
    assert_eq!(d, ProgramCounter::Jump(0x400));
    assert_eq!(cpu.sp, sp + 1);
    cpu.advance(d);
    assert_eq!(cpu.pc, 0x400);
    let d = cpu.i00ee().unwrap();
    cpu.advance(d);
    assert_eq!(cpu.pc, 0x302);
    assert_eq!(cpu.sp, sp);
}

#[test]
fn sixteen_calls_then_overflow() {
    let mut cpu = Cpu::new();
    for k in 0..16 {
        let d = cpu.i2nnn(0x500 + 2 * k as u16);
        assert_eq!(d, Ok(ProgramCounter::Jump(0x500 + 2 * k as u16)));
        cpu.advance(d.unwrap());
    }
    assert_eq!(cpu.sp, 16);
    assert_eq!(cpu.i2nnn(0x600), Err(Fault::StackOverflow));
    assert_eq!(cpu.sp, 16);
    for _ in 0..16 {
        assert!(cpu.i00ee().is_ok());
    }
    assert_eq!(cpu.i00ee(), Err(Fault::StackUnderflow));
}

#[test]
fn return_on_empty_stack_underflows() {
    let mut cpu = Cpu::new();
    assert_eq!(cpu.i00ee(), Err(Fault::StackUnderflow));
    assert_eq!(cpu.sp, 0);
}
