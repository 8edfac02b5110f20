use vstd::prelude::*;
use crate::display::first_out_of_range;
use crate::state::{next_pc, Cpu, CpuState, Fault, ProgramCounter, RAM_SIZE, STACK_SIZE};

verus! {

/// Address of the first byte of the built-in sprite for hex digit 0; the
/// sprites are five bytes each, one after another.
pub const FONT_BASE: u16 = 0;

/// Bytes in each built-in digit sprite.
pub const FONT_SPRITE_SIZE: u16 = 5;

/// Key `k` is held down in the snapshot `keys`; values past the keypad's
/// sixteen keys are never held.
pub open spec fn key_down(keys: Seq<bool>, k: int) -> bool {
    0 <= k < 16 && keys[k]
}

/// The lowest held key at or above `k`.
pub open spec fn lowest_pressed(keys: Seq<bool>, k: int) -> Option<u8>
    decreases 16 - k,
{
    if k >= 16 || k < 0 {
        None
    } else if keys[k] {
        Some(k as u8)
    } else {
        lowest_pressed(keys, k + 1)
    }
}

/// Register `x` with value `val`, everything else as in `s`.
pub open spec fn set_reg(s: CpuState, x: int, val: u8) -> CpuState {
    CpuState { v: s.v.update(x, val), ..s }
}

/// The flag register set to `flag`, then register `x` to `val`.
pub open spec fn set_flag_then_reg(s: CpuState, x: int, flag: u8, val: u8) -> CpuState {
    CpuState { v: s.v.update(0xF, flag).update(x, val), ..s }
}

/// Return: pop the top return address and jump to it; an empty stack
/// underflows.
pub open spec fn ret_spec(s: CpuState) -> (CpuState, Result<ProgramCounter, Fault>) {
    if s.sp == 0 {
        (s, Err(Fault::StackUnderflow))
    } else {
        (CpuState { sp: (s.sp - 1) as nat, ..s }, Ok(ProgramCounter::Jump(s.stack[s.sp - 1])))
    }
}

/// Call: push the address of the next instruction and jump to `nnn`; a full
/// stack overflows.
pub open spec fn call_spec(s: CpuState, nnn: u16) -> (CpuState, Result<ProgramCounter, Fault>) {
    if s.sp >= STACK_SIZE {
        (s, Err(Fault::StackOverflow))
    } else {
        (
            CpuState {
                stack: s.stack.update(s.sp as int, next_pc(s.pc, ProgramCounter::Next)),
                sp: s.sp + 1,
                ..s
            },
            Ok(ProgramCounter::Jump(nnn)),
        )
    }
}

/// The directive of a conditional skip.
pub open spec fn skip_when(c: bool) -> ProgramCounter {
    if c {
        ProgramCounter::Skip
    } else {
        ProgramCounter::Next
    }
}

/// Add an immediate byte, wrapping, with no flag.
pub open spec fn add_imm_spec(s: CpuState, x: int, kk: u8) -> CpuState {
    set_reg(s, x, ((s.v[x] + kk) % 256) as u8)
}

/// Add register `y` to register `x`: flag first (the carry), then the
/// wrapped sum.
pub open spec fn add_spec(s: CpuState, x: int, y: int) -> CpuState {
    let sum = s.v[x] + s.v[y];
    set_flag_then_reg(s, x, if sum > 255 { 1 } else { 0 }, (sum % 256) as u8)
}

/// `x - y`: flag first (1 when there is no borrow), then the wrapped
/// difference.
pub open spec fn sub_spec(s: CpuState, x: int, y: int) -> CpuState {
    set_flag_then_reg(s, x, if s.v[x] > s.v[y] { 1 } else { 0 }, ((s.v[x] - s.v[y]) % 256) as u8)
}

/// `y - x` into register `x`: flag first (1 when there is no borrow), then
/// the wrapped difference.
pub open spec fn subn_spec(s: CpuState, x: int, y: int) -> CpuState {
    set_flag_then_reg(s, x, if s.v[y] > s.v[x] { 1 } else { 0 }, ((s.v[y] - s.v[x]) % 256) as u8)
}

/// Shift right by one: flag first (the low bit), then the shifted value.
pub open spec fn shr_spec(s: CpuState, x: int) -> CpuState {
    set_flag_then_reg(s, x, s.v[x] % 2, s.v[x] / 2)
}

/// Shift left by one: flag first (the high bit), then the shifted value.
pub open spec fn shl_spec(s: CpuState, x: int) -> CpuState {
    set_flag_then_reg(s, x, s.v[x] / 128, ((s.v[x] * 2) % 256) as u8)
}

/// Wait for a key: load the lowest held key and go on, or, with none held,
/// stay on this instruction.
pub open spec fn wait_key_spec(s: CpuState, x: int, keys: Seq<bool>) -> (CpuState, ProgramCounter) {
    match lowest_pressed(keys, 0) {
        Some(k) => (set_reg(s, x, k), ProgramCounter::Next),
        None => (s, ProgramCounter::Jump(s.pc)),
    }
}

/// Decimal digits of register `x` at the address register and the two
/// bytes after it.
pub open spec fn bcd_spec(s: CpuState, x: int) -> (CpuState, Result<ProgramCounter, Fault>) {
    if s.i + 3 > RAM_SIZE {
        (s, Err(Fault::MemoryOutOfBounds(first_out_of_range(s.i as int))))
    } else {
        let val = s.v[x];
        (
            CpuState {
                ram: s.ram.update(s.i as int, val / 100).update(s.i + 1, (val / 10) % 10).update(
                    s.i + 2,
                    val % 10,
                ),
                ..s
            },
            Ok(ProgramCounter::Next),
        )
    }
}

/// Registers 0 through `x` copied to memory from the address register on.
pub open spec fn store_spec(s: CpuState, x: int) -> (CpuState, Result<ProgramCounter, Fault>) {
    if s.i + x + 1 > RAM_SIZE {
        (s, Err(Fault::MemoryOutOfBounds(first_out_of_range(s.i as int))))
    } else {
        (
            CpuState {
                ram: Seq::new(
                    RAM_SIZE as nat,
                    |a: int|
                        if s.i <= a <= s.i + x {
                            s.v[a - s.i]
                        } else {
                            s.ram[a]
                        },
                ),
                ..s
            },
            Ok(ProgramCounter::Next),
        )
    }
}

/// Registers 0 through `x` loaded from memory from the address register on.
pub open spec fn load_spec(s: CpuState, x: int) -> (CpuState, Result<ProgramCounter, Fault>) {
    if s.i + x + 1 > RAM_SIZE {
        (s, Err(Fault::MemoryOutOfBounds(first_out_of_range(s.i as int))))
    } else {
        (
            CpuState {
                v: Seq::new(
                    16,
                    |k: int|
                        if k <= x {
                            s.ram[s.i + k]
                        } else {
                            s.v[k]
                        },
                ),
                ..s
            },
            Ok(ProgramCounter::Next),
        )
    }
}

impl Cpu {
    /// Return from a subroutine: pop the return address and jump to it.
    pub fn i00ee(&mut self) -> (r: Result<ProgramCounter, Fault>)
        requires
            old(self).wf(),
        ensures
            final(self).wf(),
            (final(self)@, r) == ret_spec(old(self)@),
    {
        if self.sp == 0 {
            return Err(Fault::StackUnderflow);
        }
        self.sp = self.sp - 1;
        Ok(ProgramCounter::Jump(self.stack[self.sp]))
    }

    /// Jump to `nnn`.
    pub fn i1nnn(&mut self, nnn: u16) -> (r: ProgramCounter)
        ensures
            *final(self) == *old(self),
            r == ProgramCounter::Jump(nnn),
    {
        ProgramCounter::Jump(nnn)
    }

    /// Call the subroutine at `nnn`: push the address of the next
    /// instruction and jump.
    pub fn i2nnn(&mut self, nnn: u16) -> (r: Result<ProgramCounter, Fault>)
        requires
            old(self).wf(),
        ensures
            final(self).wf(),
            (final(self)@, r) == call_spec(old(self)@, nnn),
    {
        if self.sp >= STACK_SIZE {
            return Err(Fault::StackOverflow);
        }
        self.stack[self.sp] = ProgramCounter::Next.apply(self.pc);
        self.sp = self.sp + 1;
        assert(self@.stack =~= call_spec(old(self)@, nnn).0.stack);
        Ok(ProgramCounter::Jump(nnn))
    }

    /// Skip the next instruction when register `x` equals `kk`.
    pub fn i3xkk(&self, x: usize, kk: u8) -> (r: ProgramCounter)
        requires
            x < 16,
        ensures
            r == skip_when(self@.v[x as int] == kk),
    {
        ProgramCounter::skip_if(self.v[x] == kk)
    }

    /// Skip the next instruction when register `x` differs from `kk`.
    pub fn i4xkk(&self, x: usize, kk: u8) -> (r: ProgramCounter)
        requires
            x < 16,
        ensures
            r == skip_when(self@.v[x as int] != kk),
    {
        ProgramCounter::skip_if(self.v[x] != kk)
    }

    /// Skip the next instruction when registers `x` and `y` are equal.
    pub fn i5xy0(&self, x: usize, y: usize) -> (r: ProgramCounter)
        requires
            x < 16,
            y < 16,
        ensures
            r == skip_when(self@.v[x as int] == self@.v[y as int]),
    {
        ProgramCounter::skip_if(self.v[x] == self.v[y])
    }

    /// Load `kk` into register `x`.
    pub fn i6xkk(&mut self, x: usize, kk: u8) -> (r: ProgramCounter)
        requires
            old(self).wf(),
            x < 16,
        ensures
            final(self).wf(),
            final(self)@ == set_reg(old(self)@, x as int, kk),
            r == ProgramCounter::Next,
    {
        self.v[x] = kk;
        ProgramCounter::Next
    }

    /// Add `kk` to register `x`, wrapping, with no flag.
    pub fn i7xkk(&mut self, x: usize, kk: u8) -> (r: ProgramCounter)
        requires
            old(self).wf(),
            x < 16,
        ensures
            final(self).wf(),
            final(self)@ == add_imm_spec(old(self)@, x as int, kk),
            r == ProgramCounter::Next,
    {
        self.v[x] = ((self.v[x] as u16 + kk as u16) % 256) as u8;
        ProgramCounter::Next
    }

    /// Copy register `y` into register `x`.
    pub fn i8xy0(&mut self, x: usize, y: usize) -> (r: ProgramCounter)
        requires
            old(self).wf(),
            x < 16,
            y < 16,
        ensures
            final(self).wf(),
            final(self)@ == set_reg(old(self)@, x as int, old(self)@.v[y as int]),
            r == ProgramCounter::Next,
    {
        self.v[x] = self.v[y];
        ProgramCounter::Next
    }

    /// Register `x` becomes the bitwise OR of registers `x` and `y`.
    pub fn i8xy1(&mut self, x: usize, y: usize) -> (r: ProgramCounter)
        requires
            old(self).wf(),
            x < 16,
            y < 16,
        ensures
            final(self).wf(),
            final(self)@ == set_reg(old(self)@, x as int, old(self)@.v[x as int] | old(self)@.v[y as int]),
            r == ProgramCounter::Next,
    {
        self.v[x] = self.v[x] | self.v[y];
        ProgramCounter::Next
    }

    /// Register `x` becomes the bitwise AND of registers `x` and `y`.
    pub fn i8xy2(&mut self, x: usize, y: usize) -> (r: ProgramCounter)
        requires
            old(self).wf(),
            x < 16,
            y < 16,
        ensures
            final(self).wf(),
            final(self)@ == set_reg(old(self)@, x as int, old(self)@.v[x as int] & old(self)@.v[y as int]),
            r == ProgramCounter::Next,
    {
        self.v[x] = self.v[x] & self.v[y];
        ProgramCounter::Next
    }

    /// Register `x` becomes the bitwise XOR of registers `x` and `y`.
    pub fn i8xy3(&mut self, x: usize, y: usize) -> (r: ProgramCounter)
        requires
            old(self).wf(),
            x < 16,
            y < 16,
        ensures
            final(self).wf(),
            final(self)@ == set_reg(old(self)@, x as int, old(self)@.v[x as int] ^ old(self)@.v[y as int]),
            r == ProgramCounter::Next,
    {
        self.v[x] = self.v[x] ^ self.v[y];
        ProgramCounter::Next
    }

    /// Add register `y` to register `x`, wrapping; the flag register
    /// receives the carry.
    pub fn i8xy4(&mut self, x: usize, y: usize) -> (r: ProgramCounter)
        requires
            old(self).wf(),
            x < 16,
            y < 16,
        ensures
            final(self).wf(),
            final(self)@ == add_spec(old(self)@, x as int, y as int),
            r == ProgramCounter::Next,
    {
        let sum: u16 = self.v[x] as u16 + self.v[y] as u16;
        self.v[0xF] = if sum > 0xFF { 1 } else { 0 };
        self.v[x] = (sum % 256) as u8;
        ProgramCounter::Next
    }

    /// Subtract register `y` from register `x`, wrapping; the flag register
    /// is 1 exactly when no borrow occurs (`x > y`).
    pub fn i8xy5(&mut self, x: usize, y: usize) -> (r: ProgramCounter)
        requires
            old(self).wf(),
            x < 16,
            y < 16,
        ensures
            final(self).wf(),
            final(self)@ == sub_spec(old(self)@, x as int, y as int),
            r == ProgramCounter::Next,
    {
        let vx = self.v[x];
        let vy = self.v[y];
        self.v[0xF] = if vx > vy { 1 } else { 0 };
        self.v[x] = vx.wrapping_sub(vy);
        ProgramCounter::Next
    }

    /// Shift register `x` right by one; the flag register receives the bit
    /// shifted out.
    pub fn i8xy6(&mut self, x: usize) -> (r: ProgramCounter)
        requires
            old(self).wf(),
            x < 16,
        ensures
            final(self).wf(),
            final(self)@ == shr_spec(old(self)@, x as int),
            r == ProgramCounter::Next,
    {
        let vx = self.v[x];
        self.v[0xF] = vx % 2;
        self.v[x] = vx / 2;
        ProgramCounter::Next
    }

    /// Register `x` becomes register `y` minus register `x`, wrapping; the
    /// flag register is 1 exactly when `y > x`.
    pub fn i8xy7(&mut self, x: usize, y: usize) -> (r: ProgramCounter)
        requires
            old(self).wf(),
            x < 16,
            y < 16,
        ensures
            final(self).wf(),
            final(self)@ == subn_spec(old(self)@, x as int, y as int),
            r == ProgramCounter::Next,
    {
        let vx = self.v[x];
        let vy = self.v[y];
        self.v[0xF] = if vy > vx { 1 } else { 0 };
        self.v[x] = vy.wrapping_sub(vx);
        ProgramCounter::Next
    }

    /// Shift register `x` left by one; the flag register receives the bit
    /// shifted out.
    pub fn i8x0E(&mut self, x: usize) -> (r: ProgramCounter)
        requires
            old(self).wf(),
            x < 16,
        ensures
            final(self).wf(),
            final(self)@ == shl_spec(old(self)@, x as int),
            r == ProgramCounter::Next,
    {
        let vx = self.v[x];
        self.v[0xF] = vx / 128;
        self.v[x] = ((vx as u16 * 2) % 256) as u8;
        ProgramCounter::Next
    }

    /// Skip the next instruction when registers `x` and `y` differ.
    pub fn i9xy0(&self, x: usize, y: usize) -> (r: ProgramCounter)
        requires
            x < 16,
            y < 16,
        ensures
            r == skip_when(self@.v[x as int] != self@.v[y as int]),
    {
        ProgramCounter::skip_if(self.v[x] != self.v[y])
    }

    /// Load `nnn` into the address register.
    pub fn iAnnn(&mut self, nnn: u16) -> (r: ProgramCounter)
        requires
            old(self).wf(),
        ensures
            final(self).wf(),
            final(self)@ == (CpuState { i: nnn, ..old(self)@ }),
            r == ProgramCounter::Next,
    {
        self.i = nnn;
        ProgramCounter::Next
    }

    /// Jump to `nnn` plus register 0.
    pub fn iBnnn(&self, nnn: u16) -> (r: ProgramCounter)
        requires
            nnn < 0x1000,
        ensures
            r == ProgramCounter::Jump((nnn + self@.v[0]) as u16),
    {
        ProgramCounter::Jump(nnn + self.v[0x0] as u16)
    }

    /// Register `x` becomes `random` masked with `kk`.
    pub fn iCxkk(&mut self, x: usize, kk: u8, random: u8) -> (r: ProgramCounter)
        requires
            old(self).wf(),
            x < 16,
        ensures
            final(self).wf(),
            final(self)@ == set_reg(old(self)@, x as int, random & kk),
            r == ProgramCounter::Next,
    {
        self.v[x] = random & kk;
        ProgramCounter::Next
    }
}

impl Cpu {
    /// Skip the next instruction when the key in register `x` is held.
    pub fn iEx9E(&self, x: usize, keys: &[bool; 16]) -> (r: ProgramCounter)
        requires
            x < 16,
        ensures
            r == skip_when(key_down(keys@, self@.v[x as int] as int)),
    {
        let k = self.v[x] as usize;
        ProgramCounter::skip_if(k < 16 && keys[k])
    }

    /// Skip the next instruction when the key in register `x` is not held.
    pub fn iExA1(&self, x: usize, keys: &[bool; 16]) -> (r: ProgramCounter)
        requires
            x < 16,
        ensures
            r == skip_when(!key_down(keys@, self@.v[x as int] as int)),
    {
        let k = self.v[x] as usize;
        ProgramCounter::skip_if(!(k < 16 && keys[k]))
    }

    /// Load the delay timer into register `x`.
    pub fn iFx07(&mut self, x: usize) -> (r: ProgramCounter)
        requires
            old(self).wf(),
            x < 16,
        ensures
            final(self).wf(),
            final(self)@ == set_reg(old(self)@, x as int, old(self)@.dt),
            r == ProgramCounter::Next,
    {
        self.v[x] = self.dt;
        ProgramCounter::Next
    }

    /// Wait for a key: with some key held, load the lowest one into register
    /// `x` and go on; with none, stay on this instruction.
    pub fn iFx0A(&mut self, x: usize, keys: &[bool; 16]) -> (r: ProgramCounter)
        requires
            old(self).wf(),
            x < 16,
        ensures
            final(self).wf(),
            (final(self)@, r) == wait_key_spec(old(self)@, x as int, keys@),
    {
        let mut k: usize = 0;
        while k < 16
            invariant
                k <= 16,
                x < 16,
                *self == *old(self),
                old(self).wf(),
                lowest_pressed(keys@, 0) == lowest_pressed(keys@, k as int),
            decreases 16 - k,
        {
            if keys[k] {
                self.v[x] = k as u8;
                return ProgramCounter::Next;
            }
            k += 1;
        }
        ProgramCounter::Jump(self.pc)
    }

    /// Load register `x` into the delay timer.
    pub fn iFx15(&mut self, x: usize) -> (r: ProgramCounter)
        requires
            old(self).wf(),
            x < 16,
        ensures
            final(self).wf(),
            final(self)@ == (CpuState { dt: old(self)@.v[x as int], ..old(self)@ }),
            r == ProgramCounter::Next,
    {
        self.dt = self.v[x];
        ProgramCounter::Next
    }

    /// Load register `x` into the sound timer.
    pub fn iFx18(&mut self, x: usize) -> (r: ProgramCounter)
        requires
            old(self).wf(),
            x < 16,
        ensures
            final(self).wf(),
            final(self)@ == (CpuState { st: old(self)@.v[x as int], ..old(self)@ }),
            r == ProgramCounter::Next,
    {
        self.st = self.v[x];
        ProgramCounter::Next
    }

    /// Add register `x` to the address register, wrapping at 16 bits.
    pub fn iFx1E(&mut self, x: usize) -> (r: ProgramCounter)
        requires
            old(self).wf(),
            x < 16,
        ensures
            final(self).wf(),
            final(self)@ == (CpuState {
                i: ((old(self)@.i + old(self)@.v[x as int]) % 0x10000) as u16,
                ..old(self)@
            }),
            r == ProgramCounter::Next,
    {
        self.i = self.i.wrapping_add(self.v[x] as u16);
        ProgramCounter::Next
    }

    /// Point the address register at the built-in sprite of the hex digit in
    /// the low four bits of register `x`.
    pub fn iFx29(&mut self, x: usize) -> (r: ProgramCounter)
        requires
            old(self).wf(),
            x < 16,
        ensures
            final(self).wf(),
            final(self)@ == (CpuState {
                i: (FONT_BASE + (old(self)@.v[x as int] % 16) * FONT_SPRITE_SIZE) as u16,
                ..old(self)@
            }),
            r == ProgramCounter::Next,
    {
        self.i = FONT_BASE + (self.v[x] % 16) as u16 * FONT_SPRITE_SIZE;
        ProgramCounter::Next
    }

    /// Store the hundreds, tens and units digits of register `x` at the
    /// address register and the two bytes after it.
    pub fn iFx33(&mut self, x: usize) -> (r: Result<ProgramCounter, Fault>)
        requires
            old(self).wf(),
            x < 16,
        ensures
            final(self).wf(),
            (final(self)@, r) == bcd_spec(old(self)@, x as int),
    {
        let base = self.i as usize;
        if base + 3 > RAM_SIZE {
            let addr = if base >= RAM_SIZE { base } else { RAM_SIZE };
            return Err(Fault::MemoryOutOfBounds(addr));
        }
        let val = self.v[x];
        self.ram[base] = val / 100;
        self.ram[base + 1] = (val / 10) % 10;
        self.ram[base + 2] = val % 10;
        assert(self@.ram =~= bcd_spec(old(self)@, x as int).0.ram);
        Ok(ProgramCounter::Next)
    }

    /// Store registers 0 through `x` in memory from the address register on.
    pub fn iFx55(&mut self, x: usize) -> (r: Result<ProgramCounter, Fault>)
        requires
            old(self).wf(),
            x < 16,
        ensures
            final(self).wf(),
            (final(self)@, r) == store_spec(old(self)@, x as int),
    {
        let base = self.i as usize;
        if base + x + 1 > RAM_SIZE {
            let addr = if base >= RAM_SIZE { base } else { RAM_SIZE };
            return Err(Fault::MemoryOutOfBounds(addr));
        }
        let mut k: usize = 0;
        while k <= x
            invariant
                x < 16,
                base == old(self).i,
                base + x + 1 <= RAM_SIZE,
                k <= x + 1,
                self.v == old(self).v,
                self.i == old(self).i,
                self.dt == old(self).dt,
                self.st == old(self).st,
                self.pc == old(self).pc,
                self.sp == old(self).sp,
                self.stack == old(self).stack,
                self.display == old(self).display,
                forall|a: int|
                    0 <= a < RAM_SIZE ==> #[trigger] self.ram[a] == if base <= a < base + k {
                        old(self).v[a - base]
                    } else {
                        old(self).ram[a]
                    },
            decreases x + 1 - k,
        {
            self.ram[base + k] = self.v[k];
            k += 1;
        }
        assert(self@.ram =~= store_spec(old(self)@, x as int).0.ram);
        Ok(ProgramCounter::Next)
    }

    /// Load registers 0 through `x` from memory from the address register on.
    pub fn iFx65(&mut self, x: usize) -> (r: Result<ProgramCounter, Fault>)
        requires
            old(self).wf(),
            x < 16,
        ensures
            final(self).wf(),
            (final(self)@, r) == load_spec(old(self)@, x as int),
    {
        let base = self.i as usize;
        if base + x + 1 > RAM_SIZE {
            let addr = if base >= RAM_SIZE { base } else { RAM_SIZE };
            return Err(Fault::MemoryOutOfBounds(addr));
        }
        let mut k: usize = 0;
        while k <= x
            invariant
                x < 16,
                base == old(self).i,
                base + x + 1 <= RAM_SIZE,
                k <= x + 1,
                self.ram == old(self).ram,
                self.i == old(self).i,
                self.dt == old(self).dt,
                self.st == old(self).st,
                self.pc == old(self).pc,
                self.sp == old(self).sp,
                self.stack == old(self).stack,
                self.display == old(self).display,
                forall|j: int|
                    0 <= j < 16 ==> #[trigger] self.v[j] == if j < k {
                        old(self).ram[base + j]
                    } else {
                        old(self).v[j]
                    },
            decreases x + 1 - k,
        {
            self.v[k] = self.ram[base + k];
            k += 1;
        }
        assert(self@.v =~= load_spec(old(self)@, x as int).0.v);
        Ok(ProgramCounter::Next)
    }
}

} // verus!
