use vstd::prelude::*;

verus! {

/// Bytes of addressable memory.
pub const RAM_SIZE: usize = 4096;

/// Pixel rows of the display.
pub const DISPLAY_HEIGHT: usize = 32;

/// Pixel columns of the display.
pub const DISPLAY_WIDTH: usize = 64;

/// Entries of the call stack.
pub const STACK_SIZE: usize = 16;

/// Address at which programs conventionally start.
pub const PROGRAM_START: u16 = 0x200;

/// How the program counter moves after an instruction.
#[derive(Clone, Copy, Debug, PartialEq, Eq, Structural)]
pub enum ProgramCounter {
    /// Forward by one instruction (two bytes).
    Next,
    /// Forward by two instructions (four bytes).
    Skip,
    /// To an absolute address.
    Jump(u16),
}

/// A fault of the emulated program; the fetch loop stops on any of them.
#[derive(Clone, Copy, Debug, PartialEq, Eq, Structural)]
pub enum Fault {
    /// The word matches no instruction pattern.
    UnknownOpcode(u16),
    /// A call with all stack entries in use.
    StackOverflow,
    /// A return with an empty stack.
    StackUnderflow,
    /// A memory access at the given address, which lies past the end of memory.
    MemoryOutOfBounds(usize),
}

/// The address reached from `pc` under the directive `d` (16-bit wraparound).
pub open spec fn next_pc(pc: u16, d: ProgramCounter) -> u16 {
    match d {
        ProgramCounter::Next => ((pc + 2) % 0x10000) as u16,
        ProgramCounter::Skip => ((pc + 4) % 0x10000) as u16,
        ProgramCounter::Jump(a) => a,
    }
}

impl ProgramCounter {
    /// `Skip` when `condition` holds, `Next` otherwise.
    pub fn skip_if(condition: bool) -> (r: ProgramCounter)
        ensures
            r == (if condition { ProgramCounter::Skip } else { ProgramCounter::Next }),
    {
        if condition {
            ProgramCounter::Skip
        } else {
            ProgramCounter::Next
        }
    }

    /// The address reached from `pc` under this directive.
    pub fn apply(self, pc: u16) -> (r: u16)
        ensures
            r == next_pc(pc, self),
    {
        match self {
            ProgramCounter::Next => pc.wrapping_add(2),
            ProgramCounter::Skip => pc.wrapping_add(4),
            ProgramCounter::Jump(a) => a,
        }
    }
}

/// Mathematical model of the machine state.
pub struct CpuState {
    pub v: Seq<u8>,
    pub i: u16,
    pub dt: u8,
    pub st: u8,
    pub pc: u16,
    pub sp: nat,
    pub stack: Seq<u16>,
    pub ram: Seq<u8>,
    pub display: Seq<Seq<u8>>,
}

impl CpuState {
    /// The shapes of the fields, the stack pointer's bound and the
    /// monochrome pixels.
    pub open spec fn wf(self) -> bool {
        &&& self.v.len() == 16
        &&& self.stack.len() == STACK_SIZE
        &&& self.sp <= STACK_SIZE
        &&& self.ram.len() == RAM_SIZE
        &&& self.display.len() == DISPLAY_HEIGHT
        &&& forall|h: int| 0 <= h < DISPLAY_HEIGHT ==> #[trigger] self.display[h].len() == DISPLAY_WIDTH
        &&& forall|h: int, w: int|
            0 <= h < DISPLAY_HEIGHT && 0 <= w < DISPLAY_WIDTH ==> #[trigger] self.display[h][w] <= 1
    }
}

/// The complete state of the virtual processor.
pub struct Cpu {
    /// General registers; register 0xF doubles as the flag register.
    pub v: [u8; 16],
    /// Address register.
    pub i: u16,
    /// Delay timer.
    pub dt: u8,
    /// Sound timer.
    pub st: u8,
    /// Address of the instruction being executed.
    pub pc: u16,
    /// Number of return addresses on the stack.
    pub sp: usize,
    pub ram: [u8; RAM_SIZE],
    /// Return addresses; entries below `sp` are in use.
    pub stack: [u16; STACK_SIZE],
    /// Pixels by row, then column; each is 0 or 1.
    pub display: [[u8; DISPLAY_WIDTH]; DISPLAY_HEIGHT],
}

impl View for Cpu {
    type V = CpuState;

    open spec fn view(&self) -> CpuState {
        CpuState {
            v: self.v@,
            i: self.i,
            dt: self.dt,
            st: self.st,
            pc: self.pc,
            sp: self.sp as nat,
            stack: self.stack@,
            ram: self.ram@,
            display: self.display@.map_values(|row: [u8; DISPLAY_WIDTH]| row@),
        }
    }
}

impl Cpu {
    pub open spec fn wf(&self) -> bool {
        self@.wf()
    }

    /// A machine with every field zeroed but the program counter, which
    /// holds the conventional entry address.
    pub fn new() -> (r: Cpu)
        ensures
            r.wf(),
            r@.pc == PROGRAM_START,
            r@.sp == 0,
            r@.i == 0,
            r@.dt == 0,
            r@.st == 0,
            forall|k: int| 0 <= k < 16 ==> #[trigger] r@.v[k] == 0,
            forall|a: int| 0 <= a < RAM_SIZE ==> #[trigger] r@.ram[a] == 0,
            forall|k: int| 0 <= k < STACK_SIZE ==> #[trigger] r@.stack[k] == 0,
            forall|h: int, w: int|
                0 <= h < DISPLAY_HEIGHT && 0 <= w < DISPLAY_WIDTH ==> #[trigger] r@.display[h][w] == 0,
    {
        let r = Cpu {
            v: [0u8; 16],
            i: 0,
            dt: 0,
            st: 0,
            pc: PROGRAM_START,
            sp: 0,
            ram: [0u8; RAM_SIZE],
            stack: [0u16; STACK_SIZE],
            display: [[0u8; DISPLAY_WIDTH]; DISPLAY_HEIGHT],
        };
        r
    }
}

} // verus!
