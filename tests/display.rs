use chip8_cpu::state::{Cpu, Fault, ProgramCounter, DISPLAY_HEIGHT, DISPLAY_WIDTH, RAM_SIZE};

fn sprite_cpu(rows: &[u8], vx: u8, vy: u8) -> Cpu {
    let mut cpu = Cpu::new();
    cpu.i = 0x300;
    for (k, b) in rows.iter().enumerate() {
        cpu.ram[0x300 + k] = *b;
    }
    cpu.v[1] = vx;
    cpu.v[2] = vy;
    cpu
}

#[test]
fn draw_sets_pixels_left_to_right() {
    let mut cpu = sprite_cpu(&[0b1010_0000], 4, 7);
    assert_eq!(cpu.iDxyn(1, 2, 1), Ok(ProgramCounter::Next));
    assert_eq!(cpu.display[7][4], 1);
    assert_eq!(cpu.display[7][5], 0);
    assert_eq!(cpu.display[7][6], 1);
    assert_eq!(cpu.display[7][7], 0);
    assert_eq!(cpu.v[0xF], 0);
}

#[test]
fn draw_twice_restores_display_and_reports_collision() {
    let mut cpu = sprite_cpu(&[0xF0, 0x90, 0x90, 0x90, 0xF0], 10, 5);
    cpu.display[0][0] = 1;
    cpu.display[6][11] = 1;
    let before = cpu.display;
    cpu.iDxyn(1, 2, 5).unwrap();
    assert_ne!(cpu.display, before);
    cpu.iDxyn(1, 2, 5).unwrap();
    assert_eq!(cpu.display, before);
    assert_eq!(cpu.v[0xF], 1);
}

#[test]
fn draw_on_blank_display_reports_no_collision() {
    let mut cpu = sprite_cpu(&[0xFF, 0xFF], 0, 0);
    cpu.v[0xF] = 1;
    cpu.iDxyn(1, 2, 2).unwrap();
    assert_eq!(cpu.v[0xF], 0);
}

#[test]
fn draw_blank_sprite_twice_reports_no_collision() {
    let mut cpu = sprite_cpu(&[0x00], 3, 3);
    cpu.iDxyn(1, 2, 1).unwrap();
    cpu.iDxyn(1, 2, 1).unwrap();
    assert_eq!(cpu.v[0xF], 0);
}

#[test]
fn draw_wraps_around_both_edges() {
    let mut cpu = sprite_cpu(&[0xFF, 0x81], 62, 31);
    assert_eq!(cpu.iDxyn(1, 2, 2), Ok(ProgramCounter::Next));
    for c in 0..8 {
        assert_eq!(cpu.display[31][(62 + c) % DISPLAY_WIDTH], 1);
    }
    assert_eq!(cpu.display[0][62], 1);
    assert_eq!(cpu.display[0][5], 1);
    assert_eq!(cpu.display[0][63], 0);
    assert_eq!(cpu.display[0][4], 0);
    let lit: usize = cpu.display.iter().map(|row| row.iter().filter(|p| **p == 1).count()).sum();
    assert_eq!(lit, 10);
}

#[test]
fn draw_position_past_the_display_wraps() {
    let mut cpu = sprite_cpu(&[0x80], 64 + 3, 32 + 2);
    cpu.iDxyn(1, 2, 1).unwrap();
    assert_eq!(cpu.display[2][3], 1);
}

#[test]
fn draw_collision_on_partial_overlap() {
    let mut cpu = sprite_cpu(&[0xC0], 0, 0);
    cpu.display[0][1] = 1;
    cpu.iDxyn(1, 2, 1).unwrap();
    assert_eq!(cpu.display[0][0], 1);
    assert_eq!(cpu.display[0][1], 0);
    assert_eq!(cpu.v[0xF], 1);
}

#[test]
fn draw_past_end_of_memory_faults() {
    let mut cpu = Cpu::new();
    cpu.i = (RAM_SIZE - 2) as u16;
    assert_eq!(cpu.iDxyn(1, 2, 3), Err(Fault::MemoryOutOfBounds(RAM_SIZE)));
    cpu.i = 0x2000;
    assert_eq!(cpu.iDxyn(1, 2, 1), Err(Fault::MemoryOutOfBounds(0x2000)));
    cpu.i = (RAM_SIZE - 2) as u16;
    assert_eq!(cpu.iDxyn(1, 2, 2), Ok(ProgramCounter::Next));
}

#[test]
fn clear_display_blanks_every_pixel() {
    let mut cpu = Cpu::new();
    cpu.display[0][0] = 1;
    cpu.display[31][63] = 1;
    cpu.display[12][40] = 1;
    assert_eq!(cpu.i00e0(), ProgramCounter::Next);
    for h in 0..DISPLAY_HEIGHT {
        for w in 0..DISPLAY_WIDTH {
            assert_eq!(cpu.display[h][w], 0);
        }
    }
}
