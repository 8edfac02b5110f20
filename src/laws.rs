use vstd::prelude::*;
use crate::decode::{decode_spec, encode, lemma_encode_injective, Instruction};
use crate::display::{collides, draw_spec, drawn, lemma_cell_at, sprite_at, sprite_bit, sprite_cell};
use crate::engine::exec_spec;
use crate::ops::{add_spec, call_spec, key_down, ret_spec, shl_spec, shr_spec, sub_spec, subn_spec};
use crate::state::{next_pc, CpuState, Fault, ProgramCounter, DISPLAY_HEIGHT, DISPLAY_WIDTH, RAM_SIZE, STACK_SIZE};

verus! {

/// Register add: the flag register is 1 exactly when `a + b` exceeds 255,
/// and the destination holds `(a + b) mod 256` (destination other than the
/// flag register).
pub proof fn law_add_carry(s: CpuState, x: int, y: int)
    requires
        s.wf(),
        0 <= x < 15,
        0 <= y < 16,
    ensures
        ({
            let (a, b) = (s.v[x], s.v[y]);
            let t = add_spec(s, x, y);
            &&& t.v[0xF] == (if a + b > 255 { 1u8 } else { 0u8 })
            &&& t.v[x] == (a + b) % 256
        }),
{
}

/// Subtraction both ways: the flag register is 1 exactly when the minuend
/// exceeds the subtrahend, and the destination holds the difference
/// modulo 256 (destination other than the flag register).
pub proof fn law_sub_borrow(s: CpuState, x: int, y: int)
    requires
        s.wf(),
        0 <= x < 15,
        0 <= y < 16,
    ensures
        ({
            let (a, b) = (s.v[x], s.v[y]);
            let t = sub_spec(s, x, y);
            let u = subn_spec(s, x, y);
            &&& t.v[0xF] == (if a > b { 1u8 } else { 0u8 })
            &&& t.v[x] == (a - b) % 256
            &&& u.v[0xF] == (if b > a { 1u8 } else { 0u8 })
            &&& u.v[x] == (b - a) % 256
        }),
{
}

/// Shifts: right puts `v & 1` in the flag register and `v >> 1` in the
/// register; left puts `(v >> 7) & 1` in the flag register and
/// `(v << 1) mod 256` in the register (register other than the flag
/// register).
pub proof fn law_shifts(s: CpuState, x: int)
    requires
        s.wf(),
        0 <= x < 15,
    ensures
        ({
            let v = s.v[x];
            let r = shr_spec(s, x);
            let l = shl_spec(s, x);
            &&& r.v[0xF] == v & 1
            &&& r.v[x] == v >> 1
            &&& l.v[0xF] == (v >> 7) & 1
            &&& l.v[x] == ((v as u16) << 1u16) % 256
        }),
{
    let v = s.v[x];
    assert(v % 2 == v & 1 && v / 2 == v >> 1 && v / 128 == (v >> 7) & 1) by (bit_vector);
    assert(((v * 2) % 256) as u8 == ((v as u16) << 1u16) % 256) by (bit_vector);
}

/// The first draw lit at least one pixel: a set sprite bit fell on an
/// unlit pixel.
pub open spec fn lights_some(display: Seq<Seq<u8>>, sprite: Seq<u8>, vx: u8, vy: u8, k: int) -> bool {
    exists|h: int, w: int|
        0 <= h < DISPLAY_HEIGHT && 0 <= w < DISPLAY_WIDTH && #[trigger] sprite_cell(
            sprite,
            vx,
            vy,
            k,
            h,
            w,
        ) == 1 && display[h][w] == 0
}

/// Drawing a sprite twice at one position (registers other than the flag
/// register) gives back the display as it was, and the second draw reports
/// a collision exactly when the first lit some pixel, each of which it
/// erases.
pub proof fn law_draw_twice(s: CpuState, x: int, y: int, n: int)
    requires
        s.wf(),
        0 <= x < 15,
        0 <= y < 15,
        0 <= n < 16,
        s.i + n <= RAM_SIZE,
    ensures
        ({
            let (t1, r1) = draw_spec(s, x, y, n);
            let (t2, r2) = draw_spec(t1, x, y, n);
            &&& r1 == Ok::<ProgramCounter, Fault>(ProgramCounter::Next)
            &&& r2 == Ok::<ProgramCounter, Fault>(ProgramCounter::Next)
            &&& t2.display == s.display
            &&& t2.v[0xF] == (if lights_some(s.display, sprite_at(s, n), s.v[x], s.v[y], n * 8) {
                1u8
            } else {
                0u8
            })
        }),
{
    let (t1, r1) = draw_spec(s, x, y, n);
    let sprite = sprite_at(s, n);
    let (vx, vy) = (s.v[x], s.v[y]);
    let k = n * 8;
    assert(sprite_at(t1, n) =~= sprite);
    assert forall|h: int, w: int| 0 <= h < DISPLAY_HEIGHT && 0 <= w < DISPLAY_WIDTH implies
        #[trigger] drawn(t1.display, sprite, vx, vy, k)[h][w] == s.display[h][w]
        && (sprite_cell(sprite, vx, vy, k, h, w) == 1 ==> (t1.display[h][w] == 1 <==> s.display[h][w] == 0)) by {
        let a = s.display[h][w];
        let c = sprite_cell(sprite, vx, vy, k, h, w);
        assert((a ^ c) ^ c == a) by (bit_vector);
        assert(a <= 1 ==> ((a ^ 1u8) == 1 <==> a == 0)) by (bit_vector);
    }
    let t2 = draw_spec(t1, x, y, n).0;
    assert forall|h: int| 0 <= h < DISPLAY_HEIGHT implies #[trigger] t2.display[h] =~= s.display[h] by {
        assert forall|w: int| 0 <= w < DISPLAY_WIDTH implies t2.display[h][w] == s.display[h][w] by {
            assert(drawn(t1.display, sprite, vx, vy, k)[h][w] == s.display[h][w]);
        }
    }
    assert(t2.display =~= s.display);
    if lights_some(s.display, sprite, vx, vy, k) {
        let (h, w) = choose|h: int, w: int|
            0 <= h < DISPLAY_HEIGHT && 0 <= w < DISPLAY_WIDTH && #[trigger] sprite_cell(sprite, vx, vy, k, h, w)
                == 1 && s.display[h][w] == 0;
        assert(drawn(t1.display, sprite, vx, vy, k)[h][w] == s.display[h][w]);
        assert(collides(t1.display, sprite, vx, vy, k));
    }
    if collides(t1.display, sprite, vx, vy, k) {
        let (h, w) = choose|h: int, w: int|
            0 <= h < DISPLAY_HEIGHT && 0 <= w < DISPLAY_WIDTH && #[trigger] sprite_cell(sprite, vx, vy, k, h, w)
                == 1 && t1.display[h][w] == 1;
        assert(drawn(t1.display, sprite, vx, vy, k)[h][w] == s.display[h][w]);
        assert(lights_some(s.display, sprite, vx, vy, k));
    }
}

/// A sprite placed past the right or bottom edge is not refused: row `r`,
/// column `c` of it lands on row `(vy + r) mod 32`, column `(vx + c) mod 64`.
pub proof fn law_draw_wraps(s: CpuState, x: int, y: int, n: int, r: int, c: int)
    requires
        s.wf(),
        0 <= x < 16,
        0 <= y < 16,
        0 <= n < 16,
        s.i + n <= RAM_SIZE,
        0 <= r < n,
        0 <= c < 8,
    ensures
        ({
            let (t, res) = draw_spec(s, x, y, n);
            let h = (s.v[y] + r) % (DISPLAY_HEIGHT as int);
            let w = (s.v[x] + c) % (DISPLAY_WIDTH as int);
            &&& res == Ok::<ProgramCounter, Fault>(ProgramCounter::Next)
            &&& t.display[h][w] == s.display[h][w] ^ sprite_bit(s.ram[s.i + r], c)
        }),
{
    lemma_cell_at(sprite_at(s, n), s.v[x], s.v[y], n * 8, r, c);
}

/// A call followed by a return comes back to the instruction after the
/// call, with the stack pointer as it was.
pub proof fn law_call_return(s: CpuState, nnn: u16)
    requires
        s.wf(),
        s.sp < STACK_SIZE,
    ensures
        ({
            let (t1, r1) = call_spec(s, nnn);
            let entered = CpuState { pc: next_pc(t1.pc, ProgramCounter::Jump(nnn)), ..t1 };
            let (t2, r2) = ret_spec(entered);
            &&& r1 == Ok::<ProgramCounter, Fault>(ProgramCounter::Jump(nnn))
            &&& r2 == Ok::<ProgramCounter, Fault>(ProgramCounter::Jump(next_pc(s.pc, ProgramCounter::Next)))
            &&& next_pc(t2.pc, ProgramCounter::Jump(next_pc(s.pc, ProgramCounter::Next))) == next_pc(
                s.pc,
                ProgramCounter::Next,
            )
            &&& t2.sp == s.sp
        }),
{
}

/// The state after `k` calls to `nnn` in a row, each from the entry of the
/// one before.
pub open spec fn nested_calls(s: CpuState, nnn: u16, k: nat) -> CpuState
    decreases k,
{
    if k == 0 {
        s
    } else {
        let t = call_spec(nested_calls(s, nnn, (k - 1) as nat), nnn).0;
        CpuState { pc: nnn, ..t }
    }
}

/// From an empty stack, sixteen nested calls succeed and the seventeenth
/// overflows; a return with an empty stack underflows.
pub proof fn law_stack_depth(s: CpuState, nnn: u16, k: nat)
    requires
        s.wf(),
        s.sp == 0,
        k <= STACK_SIZE,
    ensures
        nested_calls(s, nnn, k).wf(),
        nested_calls(s, nnn, k).sp == k,
        k < STACK_SIZE ==> call_spec(nested_calls(s, nnn, k), nnn).1 == Ok::<ProgramCounter, Fault>(
            ProgramCounter::Jump(nnn),
        ),
        k == STACK_SIZE ==> call_spec(nested_calls(s, nnn, k), nnn).1 == Err::<ProgramCounter, Fault>(
            Fault::StackOverflow,
        ),
        ret_spec(s).1 == Err::<ProgramCounter, Fault>(Fault::StackUnderflow),
    decreases k,
{
    if k > 0 {
        law_stack_depth(s, nnn, (k - 1) as nat);
    }
}

/// Every valid instruction decodes back from its encoding, and a word
/// decodes to an instruction only if it is that instruction's encoding.
pub proof fn law_decode_encode(ins: Instruction, w: u16)
    requires
        ins.wf(),
    ensures
        decode_spec(encode(ins)) == Ok::<Instruction, Fault>(ins),
        decode_spec(w) matches Ok(d) ==> d.wf() && encode(d) == w,
        decode_spec(w) matches Err(e) ==> e == Fault::UnknownOpcode(w) && forall|i: Instruction|
            #[trigger] i.wf() ==> encode(i) != w,
{
    let e = encode(ins);
    assert(exists|i: Instruction| i.wf() && encode(i) == e);
    let c = choose|i: Instruction| i.wf() && encode(i) == e;
    lemma_encode_injective(ins, c);
}

/// Each conditional skip answers `Skip` exactly when its condition holds
/// and `Next` otherwise, and changes nothing.
pub proof fn law_skips(s: CpuState, x: u8, y: u8, kk: u8, keys: Seq<bool>, rnd: u8)
    requires
        s.wf(),
        x < 16,
        y < 16,
    ensures
        ({
            let (a, b) = (s.v[x as int], s.v[y as int]);
            let key = key_down(keys, a as int);
            let ok = |c: bool| (s, Ok::<ProgramCounter, Fault>(if c { ProgramCounter::Skip } else { ProgramCounter::Next }));
            &&& exec_spec(s, Instruction::SkipEqImm { x, kk }, keys, rnd) == ok(a == kk)
            &&& exec_spec(s, Instruction::SkipNeImm { x, kk }, keys, rnd) == ok(a != kk)
            &&& exec_spec(s, Instruction::SkipEqReg { x, y }, keys, rnd) == ok(a == b)
            &&& exec_spec(s, Instruction::SkipNeReg { x, y }, keys, rnd) == ok(a != b)
            &&& exec_spec(s, Instruction::SkipKeyDown { x }, keys, rnd) == ok(key)
            &&& exec_spec(s, Instruction::SkipKeyUp { x }, keys, rnd) == ok(!key)
        }),
{
}

} // verus!
