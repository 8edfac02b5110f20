use vstd::prelude::*;
use crate::decode::{decode, decode_spec, Instruction};
use crate::display::{clear_spec, draw_spec, first_out_of_range};
use crate::ops::{
    add_imm_spec, add_spec, bcd_spec, call_spec, key_down, load_spec, ret_spec, set_reg, shl_spec,
    shr_spec, skip_when, store_spec, sub_spec, subn_spec, wait_key_spec, FONT_BASE, FONT_SPRITE_SIZE,
};
use crate::random::random_byte;
use crate::state::{next_pc, Cpu, CpuState, Fault, ProgramCounter, RAM_SIZE};

verus! {

/// The state and outcome of executing `ins` on `s`, with `keys` the keypad
/// snapshot and `rnd` the byte drawn for the random instruction.
pub open spec fn exec_spec(s: CpuState, ins: Instruction, keys: Seq<bool>, rnd: u8) -> (CpuState, Result<ProgramCounter, Fault>) {
    match ins {
        Instruction::Clear => (clear_spec(s).0, Ok(clear_spec(s).1)),
        Instruction::Return => ret_spec(s),
        Instruction::Jump { nnn } => (s, Ok(ProgramCounter::Jump(nnn))),
        Instruction::Call { nnn } => call_spec(s, nnn),
        Instruction::SkipEqImm { x, kk } => (s, Ok(skip_when(s.v[x as int] == kk))),
        Instruction::SkipNeImm { x, kk } => (s, Ok(skip_when(s.v[x as int] != kk))),
        Instruction::SkipEqReg { x, y } => (s, Ok(skip_when(s.v[x as int] == s.v[y as int]))),
        Instruction::LoadImm { x, kk } => (set_reg(s, x as int, kk), Ok(ProgramCounter::Next)),
        Instruction::AddImm { x, kk } => (add_imm_spec(s, x as int, kk), Ok(ProgramCounter::Next)),
        Instruction::Copy { x, y } => (set_reg(s, x as int, s.v[y as int]), Ok(ProgramCounter::Next)),
        Instruction::Or { x, y } => (set_reg(s, x as int, s.v[x as int] | s.v[y as int]), Ok(ProgramCounter::Next)),
        Instruction::And { x, y } => (set_reg(s, x as int, s.v[x as int] & s.v[y as int]), Ok(ProgramCounter::Next)),
        Instruction::Xor { x, y } => (set_reg(s, x as int, s.v[x as int] ^ s.v[y as int]), Ok(ProgramCounter::Next)),
        Instruction::Add { x, y } => (add_spec(s, x as int, y as int), Ok(ProgramCounter::Next)),
        Instruction::Sub { x, y } => (sub_spec(s, x as int, y as int), Ok(ProgramCounter::Next)),
        Instruction::ShiftRight { x, .. } => (shr_spec(s, x as int), Ok(ProgramCounter::Next)),
        Instruction::SubFrom { x, y } => (subn_spec(s, x as int, y as int), Ok(ProgramCounter::Next)),
        Instruction::ShiftLeft { x, .. } => (shl_spec(s, x as int), Ok(ProgramCounter::Next)),
        Instruction::SkipNeReg { x, y } => (s, Ok(skip_when(s.v[x as int] != s.v[y as int]))),
        Instruction::LoadAddr { nnn } => (CpuState { i: nnn, ..s }, Ok(ProgramCounter::Next)),
        Instruction::JumpOffset { nnn } => (s, Ok(ProgramCounter::Jump((nnn + s.v[0]) as u16))),
        Instruction::Random { x, kk } => (set_reg(s, x as int, rnd & kk), Ok(ProgramCounter::Next)),
        Instruction::Draw { x, y, n } => draw_spec(s, x as int, y as int, n as int),
        Instruction::SkipKeyDown { x } => (s, Ok(skip_when(key_down(keys, s.v[x as int] as int)))),
        Instruction::SkipKeyUp { x } => (s, Ok(skip_when(!key_down(keys, s.v[x as int] as int)))),
        Instruction::ReadDelay { x } => (set_reg(s, x as int, s.dt), Ok(ProgramCounter::Next)),
        Instruction::WaitKey { x } => (wait_key_spec(s, x as int, keys).0, Ok(wait_key_spec(s, x as int, keys).1)),
        Instruction::SetDelay { x } => (CpuState { dt: s.v[x as int], ..s }, Ok(ProgramCounter::Next)),
        Instruction::SetSound { x } => (CpuState { st: s.v[x as int], ..s }, Ok(ProgramCounter::Next)),
        Instruction::AddAddr { x } => (
            CpuState { i: ((s.i + s.v[x as int]) % 0x10000) as u16, ..s },
            Ok(ProgramCounter::Next),
        ),
        Instruction::LoadFont { x } => (
            CpuState { i: (FONT_BASE + (s.v[x as int] % 16) * FONT_SPRITE_SIZE) as u16, ..s },
            Ok(ProgramCounter::Next),
        ),
        Instruction::StoreBcd { x } => bcd_spec(s, x as int),
        Instruction::StoreRegs { x } => store_spec(s, x as int),
        Instruction::LoadRegs { x } => load_spec(s, x as int),
    }
}

/// Decode `w` and execute it; a word that decodes to nothing leaves the
/// state as it was.
pub open spec fn step_spec(s: CpuState, w: u16, keys: Seq<bool>, rnd: u8) -> (CpuState, Result<ProgramCounter, Fault>) {
    match decode_spec(w) {
        Ok(ins) => exec_spec(s, ins, keys, rnd),
        Err(e) => (s, Err(e)),
    }
}

/// The big-endian word at the program counter.
pub open spec fn fetch_spec(s: CpuState) -> Result<u16, Fault> {
    if s.pc + 2 > RAM_SIZE {
        Err(Fault::MemoryOutOfBounds(first_out_of_range(s.pc as int)))
    } else {
        Ok((s.ram[s.pc as int] * 0x100 + s.ram[s.pc + 1]) as u16)
    }
}

/// One fetch-decode-execute cycle, the program counter moved as the
/// instruction directs.
pub open spec fn cycle_spec(s: CpuState, keys: Seq<bool>, rnd: u8) -> (CpuState, Result<(), Fault>) {
    match fetch_spec(s) {
        Err(e) => (s, Err(e)),
        Ok(w) => {
            let (t, r) = step_spec(s, w, keys, rnd);
            match r {
                Err(e) => (t, Err(e)),
                Ok(d) => (CpuState { pc: next_pc(t.pc, d), ..t }, Ok(())),
            }
        },
    }
}

impl Cpu {
    /// Execute one decoded instruction.
    pub fn execute(&mut self, ins: Instruction, keys: &[bool; 16], random: u8) -> (r: Result<ProgramCounter, Fault>)
        requires
            old(self).wf(),
            ins.wf(),
        ensures
            final(self).wf(),
            (final(self)@, r) == exec_spec(old(self)@, ins, keys@, random),
    {
        match ins {
            Instruction::Clear => Ok(self.i00e0()),
            Instruction::Return => self.i00ee(),
            Instruction::Jump { nnn } => Ok(self.i1nnn(nnn)),
            Instruction::Call { nnn } => self.i2nnn(nnn),
            Instruction::SkipEqImm { x, kk } => Ok(self.i3xkk(x as usize, kk)),
            Instruction::SkipNeImm { x, kk } => Ok(self.i4xkk(x as usize, kk)),
            Instruction::SkipEqReg { x, y } => Ok(self.i5xy0(x as usize, y as usize)),
            Instruction::LoadImm { x, kk } => Ok(self.i6xkk(x as usize, kk)),
            Instruction::AddImm { x, kk } => Ok(self.i7xkk(x as usize, kk)),
            Instruction::Copy { x, y } => Ok(self.i8xy0(x as usize, y as usize)),
            Instruction::Or { x, y } => Ok(self.i8xy1(x as usize, y as usize)),
            Instruction::And { x, y } => Ok(self.i8xy2(x as usize, y as usize)),
            Instruction::Xor { x, y } => Ok(self.i8xy3(x as usize, y as usize)),
            Instruction::Add { x, y } => Ok(self.i8xy4(x as usize, y as usize)),
            Instruction::Sub { x, y } => Ok(self.i8xy5(x as usize, y as usize)),
            Instruction::ShiftRight { x, .. } => Ok(self.i8xy6(x as usize)),
            Instruction::SubFrom { x, y } => Ok(self.i8xy7(x as usize, y as usize)),
            Instruction::ShiftLeft { x, .. } => Ok(self.i8x0E(x as usize)),
            Instruction::SkipNeReg { x, y } => Ok(self.i9xy0(x as usize, y as usize)),
            Instruction::LoadAddr { nnn } => Ok(self.iAnnn(nnn)),
            Instruction::JumpOffset { nnn } => Ok(self.iBnnn(nnn)),
            Instruction::Random { x, kk } => Ok(self.iCxkk(x as usize, kk, random)),
            Instruction::Draw { x, y, n } => self.iDxyn(x as usize, y as usize, n as usize),
            Instruction::SkipKeyDown { x } => Ok(self.iEx9E(x as usize, keys)),
            Instruction::SkipKeyUp { x } => Ok(self.iExA1(x as usize, keys)),
            Instruction::ReadDelay { x } => Ok(self.iFx07(x as usize)),
            Instruction::WaitKey { x } => Ok(self.iFx0A(x as usize, keys)),
            Instruction::SetDelay { x } => Ok(self.iFx15(x as usize)),
            Instruction::SetSound { x } => Ok(self.iFx18(x as usize)),
            Instruction::AddAddr { x } => Ok(self.iFx1E(x as usize)),
            Instruction::LoadFont { x } => Ok(self.iFx29(x as usize)),
            Instruction::StoreBcd { x } => self.iFx33(x as usize),
            Instruction::StoreRegs { x } => self.iFx55(x as usize),
            Instruction::LoadRegs { x } => self.iFx65(x as usize),
        }
    }

    /// Decode the word `w` and execute it, with `random` as the byte for the
    /// random instruction.
    pub fn step(&mut self, w: u16, keys: &[bool; 16], random: u8) -> (r: Result<ProgramCounter, Fault>)
        requires
            old(self).wf(),
        ensures
            final(self).wf(),
            (final(self)@, r) == step_spec(old(self)@, w, keys@, random),
    {
        match decode(w) {
            Ok(ins) => self.execute(ins, keys, random),
            Err(e) => Err(e),
        }
    }

    /// The instruction word at the program counter, high byte first.
    pub fn fetch(&self) -> (r: Result<u16, Fault>)
        ensures
            r == fetch_spec(self@),
    {
        let pc = self.pc as usize;
        if pc + 2 > RAM_SIZE {
            let addr = if pc >= RAM_SIZE { pc } else { RAM_SIZE };
            return Err(Fault::MemoryOutOfBounds(addr));
        }
        Ok(self.ram[pc] as u16 * 0x100 + self.ram[pc + 1] as u16)
    }

    /// Move the program counter as `d` directs.
    pub fn advance(&mut self, d: ProgramCounter)
        requires
            old(self).wf(),
        ensures
            final(self).wf(),
            final(self)@ == (CpuState { pc: next_pc(old(self)@.pc, d), ..old(self)@ }),
    {
        self.pc = d.apply(self.pc);
    }

    /// Fetch, decode and execute the instruction at the program counter and
    /// move the program counter; a random instruction draws its byte from
    /// the thread-local generator.
    pub fn cycle(&mut self, keys: &[bool; 16]) -> (r: Result<(), Fault>)
        requires
            old(self).wf(),
        ensures
            final(self).wf(),
            exists|rnd: u8| (final(self)@, r) == cycle_spec(old(self)@, keys@, rnd),
    {
        let w = match self.fetch() {
            Ok(w) => w,
            Err(e) => {
                assert((self@, Err::<(), Fault>(e)) == cycle_spec(old(self)@, keys@, 0));
                return Err(e);
            },
        };
        let random = match decode(w) {
            Ok(Instruction::Random { .. }) => random_byte(),
            _ => 0,
        };
        let r = match self.step(w, keys, random) {
            Ok(d) => {
                self.advance(d);
                Ok(())
            },
            Err(e) => Err(e),
        };
        assert((self@, r) == cycle_spec(old(self)@, keys@, random));
        r
    }
}

} // verus!
