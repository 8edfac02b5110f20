use vstd::prelude::*;
use crate::state::{Cpu, CpuState, Fault, ProgramCounter, DISPLAY_HEIGHT, DISPLAY_WIDTH, RAM_SIZE};

verus! {

/// Pixel `c` (0 = leftmost) of a sprite row: bit `7 - c` of the byte.
pub open spec fn sprite_bit(row: u8, c: int) -> u8 {
    (row >> ((7 - c) as u8)) & 1
}

/// What the first `k` sprite cells (row by row, eight per row) put at
/// display position `(h, w)` when the sprite's top left corner is at
/// `(vx, vy)`, with both coordinates wrapping around the display.
pub open spec fn sprite_cell(sprite: Seq<u8>, vx: u8, vy: u8, k: int, h: int, w: int) -> u8 {
    let r = (h - vy) % (DISPLAY_HEIGHT as int);
    let c = (w - vx) % (DISPLAY_WIDTH as int);
    if r < sprite.len() && c < 8 && r * 8 + c < k {
        sprite_bit(sprite[r], c)
    } else {
        0
    }
}

/// The display after the first `k` sprite cells are XORed onto it.
pub open spec fn drawn(display: Seq<Seq<u8>>, sprite: Seq<u8>, vx: u8, vy: u8, k: int) -> Seq<Seq<u8>> {
    Seq::new(
        DISPLAY_HEIGHT as nat,
        |h: int|
            Seq::new(
                DISPLAY_WIDTH as nat,
                |w: int| display[h][w] ^ sprite_cell(sprite, vx, vy, k, h, w),
            ),
    )
}

/// Some lit pixel is hit by a set bit among the first `k` sprite cells.
pub open spec fn collides(display: Seq<Seq<u8>>, sprite: Seq<u8>, vx: u8, vy: u8, k: int) -> bool {
    exists|h: int, w: int|
        0 <= h < DISPLAY_HEIGHT && 0 <= w < DISPLAY_WIDTH && #[trigger] sprite_cell(
            sprite,
            vx,
            vy,
            k,
            h,
            w,
        ) == 1 && display[h][w] == 1
}

/// The `n` sprite bytes at the address register.
pub open spec fn sprite_at(s: CpuState, n: int) -> Seq<u8> {
    Seq::new(n as nat, |r: int| s.ram[s.i + r])
}

/// The first address at or past the end of memory that an access running
/// from `base` past that end touches.
pub open spec fn first_out_of_range(base: int) -> usize {
    if base >= RAM_SIZE {
        base as usize
    } else {
        RAM_SIZE
    }
}

/// Every pixel cleared.
pub open spec fn clear_spec(s: CpuState) -> (CpuState, ProgramCounter) {
    (
        CpuState {
            display: Seq::new(
                DISPLAY_HEIGHT as nat,
                |h: int| Seq::new(DISPLAY_WIDTH as nat, |w: int| 0u8),
            ),
            ..s
        },
        ProgramCounter::Next,
    )
}

/// Draw the `n`-byte sprite at the address register at the position held in
/// registers `x` and `y`; the flag register tells whether a lit pixel was
/// erased.
pub open spec fn draw_spec(s: CpuState, x: int, y: int, n: int) -> (CpuState, Result<ProgramCounter, Fault>) {
    if n > 0 && s.i + n > RAM_SIZE {
        (s, Err(Fault::MemoryOutOfBounds(first_out_of_range(s.i as int))))
    } else {
        let sprite = sprite_at(s, n);
        let vx = s.v[x];
        let vy = s.v[y];
        let flag: u8 = if collides(s.display, sprite, vx, vy, n * 8) { 1 } else { 0 };
        (
            CpuState {
                v: s.v.update(0xF, flag),
                display: drawn(s.display, sprite, vx, vy, n * 8),
                ..s
            },
            Ok(ProgramCounter::Next),
        )
    }
}

proof fn lemma_xor_bits(a: u8)
    ensures
        a ^ 0 == a,
        a == 0 ==> a ^ 1 == 1,
        a == 1 ==> a ^ 1 == 0,
{
    assert(a ^ 0 == a) by (bit_vector);
    assert(a == 0 ==> a ^ 1 == 1) by (bit_vector);
    assert(a == 1 ==> a ^ 1 == 0) by (bit_vector);
}

proof fn lemma_pixel_bounds(a: u8, row: u8, c: int)
    requires
        a <= 1,
    ensures
        sprite_bit(row, c) <= 1,
        a ^ sprite_bit(row, c) <= 1,
{
    let s = (7 - c) as u8;
    assert((row >> s) & 1 <= 1) by (bit_vector);
    let b = (row >> s) & 1;
    assert(a <= 1 && b <= 1 ==> a ^ b <= 1) by (bit_vector);
}

/// Sprite cell `(r, c)` lands on row `vy + r` and column `vx + c`, both
/// wrapped, once the cells before it and it are drawn.
pub proof fn lemma_cell_at(sprite: Seq<u8>, vx: u8, vy: u8, k: int, r: int, c: int)
    requires
        0 <= r < sprite.len(),
        sprite.len() < DISPLAY_HEIGHT,
        0 <= c < 8,
        r * 8 + c < k,
    ensures
        sprite_cell(
            sprite,
            vx,
            vy,
            k,
            (vy + r) % (DISPLAY_HEIGHT as int),
            (vx + c) % (DISPLAY_WIDTH as int),
        ) == sprite_bit(sprite[r], c),
{
    let h = (vy + r) % (DISPLAY_HEIGHT as int);
    let w = (vx + c) % (DISPLAY_WIDTH as int);
    assert((h - vy) % 32 == r);
    assert((w - vx) % 64 == c);
}

/// Adding sprite cell `k = row * 8 + bit` changes only the display position
/// that cell lands on.
proof fn lemma_cell_step(sprite: Seq<u8>, vx: u8, vy: u8, row: int, bit: int, h: int, w: int)
    requires
        0 <= row < sprite.len(),
        sprite.len() < DISPLAY_HEIGHT,
        0 <= bit < 8,
        0 <= h < DISPLAY_HEIGHT,
        0 <= w < DISPLAY_WIDTH,
    ensures
        sprite_cell(sprite, vx, vy, row * 8 + bit + 1, h, w) == if h == (vy + row) % (
        DISPLAY_HEIGHT as int) && w == (vx + bit) % (DISPLAY_WIDTH as int) {
            sprite_bit(sprite[row], bit)
        } else {
            sprite_cell(sprite, vx, vy, row * 8 + bit, h, w)
        },
        h == (vy + row) % (DISPLAY_HEIGHT as int) && w == (vx + bit) % (DISPLAY_WIDTH as int)
            ==> sprite_cell(sprite, vx, vy, row * 8 + bit, h, w) == 0,
{
    let r = (h - vy) % (DISPLAY_HEIGHT as int);
    let c = (w - vx) % (DISPLAY_WIDTH as int);
    assert(r == row <==> h == (vy + row) % 32);
    assert(c == bit <==> w == (vx + bit) % 64);
}

impl Cpu {
    /// Clear the display.
    pub fn i00e0(&mut self) -> (r: ProgramCounter)
        requires
            old(self).wf(),
        ensures
            final(self).wf(),
            (final(self)@, r) == clear_spec(old(self)@),
    {
        let mut h: usize = 0;
        while h < DISPLAY_HEIGHT
            invariant
                h <= DISPLAY_HEIGHT,
                self.v == old(self).v,
                self.i == old(self).i,
                self.dt == old(self).dt,
                self.st == old(self).st,
                self.pc == old(self).pc,
                self.sp == old(self).sp,
                self.ram == old(self).ram,
                self.stack == old(self).stack,
                forall|a: int, b: int| 0 <= a < h && 0 <= b < DISPLAY_WIDTH ==> #[trigger] self.display[a][b] == 0,
            decreases DISPLAY_HEIGHT - h,
        {
            let mut w: usize = 0;
            while w < DISPLAY_WIDTH
                invariant
                    h < DISPLAY_HEIGHT,
                    w <= DISPLAY_WIDTH,
                    self.v == old(self).v,
                    self.i == old(self).i,
                    self.dt == old(self).dt,
                    self.st == old(self).st,
                    self.pc == old(self).pc,
                    self.sp == old(self).sp,
                    self.ram == old(self).ram,
                    self.stack == old(self).stack,
                    forall|a: int, b: int| 0 <= a < h && 0 <= b < DISPLAY_WIDTH ==> #[trigger] self.display[a][b] == 0,
                    forall|b: int| 0 <= b < w ==> #[trigger] self.display[h as int][b] == 0,
                decreases DISPLAY_WIDTH - w,
            {
                self.display[h][w] = 0;
                w += 1;
            }
            h += 1;
        }
        assert(self@.display =~~= clear_spec(old(self)@).0.display);
        ProgramCounter::Next
    }
}


impl Cpu {
    /// Draw an `n`-byte sprite from the address register at the position
    /// held in registers `x` and `y`, XORing it onto the display with both
    /// coordinates wrapping; the flag register ends 1 exactly when a lit
    /// pixel was erased.
    pub fn iDxyn(&mut self, x: usize, y: usize, n: usize) -> (r: Result<ProgramCounter, Fault>)
        requires
            old(self).wf(),
            x < 16,
            y < 16,
            n < 16,
        ensures
            final(self).wf(),
            (final(self)@, r) == draw_spec(old(self)@, x as int, y as int, n as int),
    {
        let base = self.i as usize;
        if n > 0 && base + n > RAM_SIZE {
            let addr = if base >= RAM_SIZE { base } else { RAM_SIZE };
            return Err(Fault::MemoryOutOfBounds(addr));
        }
        let ghost s0 = self@;
        let ghost sprite = sprite_at(s0, n as int);
        let vx = self.v[x];
        let vy = self.v[y];
        self.v[15] = 0;
        let mut hit = false;
        let mut row: usize = 0;
        assert forall|h: int, w: int|
            0 <= h < DISPLAY_HEIGHT && 0 <= w < DISPLAY_WIDTH implies #[trigger] self@.display[h][w]
                == s0.display[h][w] ^ sprite_cell(sprite, vx, vy, 0, h, w) by {
            lemma_xor_bits(s0.display[h][w]);
        }
        while row < n
            invariant
                s0 == old(self)@,
                sprite == sprite_at(s0, n as int),
                sprite.len() == n,
                n < 16,
                base == s0.i,
                n > 0 ==> base + n <= RAM_SIZE,
                x < 16,
                y < 16,
                vx == s0.v[x as int],
                vy == s0.v[y as int],
                row <= n,
                s0.wf(),
                self.v@ == s0.v.update(15, 0u8),
                self.i == s0.i,
                self.dt == s0.dt,
                self.st == s0.st,
                self.pc == s0.pc,
                self.sp == s0.sp,
                self.ram@ == s0.ram,
                self.stack@ == s0.stack,
                hit == collides(s0.display, sprite, vx, vy, row * 8),
                forall|h: int, w: int|
                    0 <= h < DISPLAY_HEIGHT && 0 <= w < DISPLAY_WIDTH ==> #[trigger] self@.display[h][w]
                        == s0.display[h][w] ^ sprite_cell(sprite, vx, vy, row * 8, h, w),
            decreases n - row,
        {
            let byte = self.ram[base + row];
            let h0 = (vy as usize + row) % DISPLAY_HEIGHT;
            let mut bit: usize = 0;
            while bit < 8
                invariant
                    s0 == old(self)@,
                    sprite == sprite_at(s0, n as int),
                    sprite.len() == n,
                    n < 16,
                    row < n,
                    base + n <= RAM_SIZE,
                    byte == sprite[row as int],
                    h0 == (vy + row) % (DISPLAY_HEIGHT as int),
                    bit <= 8,
                    s0.wf(),
                    self.v@ == s0.v.update(15, 0u8),
                    self.i == s0.i,
                    self.dt == s0.dt,
                    self.st == s0.st,
                    self.pc == s0.pc,
                    self.sp == s0.sp,
                    self.ram@ == s0.ram,
                    self.stack@ == s0.stack,
                    hit == collides(s0.display, sprite, vx, vy, row * 8 + bit),
                    forall|h: int, w: int|
                        0 <= h < DISPLAY_HEIGHT && 0 <= w < DISPLAY_WIDTH ==> #[trigger] self@.display[h][w]
                            == s0.display[h][w] ^ sprite_cell(sprite, vx, vy, row * 8 + bit, h, w),
                decreases 8 - bit,
            {
                let pixel: u8 = (byte >> (7 - bit as u8)) & 1;
                let w0 = (vx as usize + bit) % DISPLAY_WIDTH;
                let ghost k = row * 8 + bit;
                let ghost before = self@.display;
                assert(pixel == sprite_bit(byte, bit as int));
                proof {
                    lemma_cell_step(sprite, vx, vy, row as int, bit as int, h0 as int, w0 as int);
                    lemma_pixel_bounds(s0.display[h0 as int][w0 as int], byte, bit as int);
                    lemma_xor_bits(s0.display[h0 as int][w0 as int]);
                    assert(before[h0 as int][w0 as int] == s0.display[h0 as int][w0 as int]);
                    assert(self.display[h0 as int][w0 as int] == before[h0 as int][w0 as int]);
                }
                if pixel == 1 {
                    if self.display[h0][w0] == 1 {
                        hit = true;
                    }
                    self.display[h0][w0] = self.display[h0][w0] ^ 1;
                }
                assert forall|h: int, w: int|
                    0 <= h < DISPLAY_HEIGHT && 0 <= w < DISPLAY_WIDTH implies #[trigger] self@.display[h][w]
                        == s0.display[h][w] ^ sprite_cell(sprite, vx, vy, k + 1, h, w) by {
                    lemma_cell_step(sprite, vx, vy, row as int, bit as int, h, w);
                    lemma_xor_bits(s0.display[h][w]);
                    lemma_pixel_bounds(s0.display[h][w], byte, bit as int);
                    assert(self@.display[h][w] == if h == h0 && w == w0 && pixel == 1 {
                        before[h][w] ^ 1
                    } else {
                        before[h][w]
                    });
                }
                assert(hit == collides(s0.display, sprite, vx, vy, k + 1)) by {
                    lemma_cell_step(sprite, vx, vy, row as int, bit as int, h0 as int, w0 as int);
                    if collides(s0.display, sprite, vx, vy, k) {
                        let (h, w) = choose|h: int, w: int|
                            0 <= h < DISPLAY_HEIGHT && 0 <= w < DISPLAY_WIDTH && #[trigger] sprite_cell(
                                sprite, vx, vy, k, h, w) == 1 && s0.display[h][w] == 1;
                        lemma_cell_step(sprite, vx, vy, row as int, bit as int, h, w);
                        assert(sprite_cell(sprite, vx, vy, k + 1, h, w) == 1);
                    }
                    if collides(s0.display, sprite, vx, vy, k + 1) {
                        let (h, w) = choose|h: int, w: int|
                            0 <= h < DISPLAY_HEIGHT && 0 <= w < DISPLAY_WIDTH && #[trigger] sprite_cell(
                                sprite, vx, vy, k + 1, h, w) == 1 && s0.display[h][w] == 1;
                        lemma_cell_step(sprite, vx, vy, row as int, bit as int, h, w);
                        if !(h == h0 && w == w0) {
                            assert(sprite_cell(sprite, vx, vy, k, h, w) == 1);
                        }
                    }
                }
                bit += 1;
            }
            row += 1;
        }
        let ghost d = self@.display;
        assert(forall|h: int, w: int|
            0 <= h < DISPLAY_HEIGHT && 0 <= w < DISPLAY_WIDTH ==> #[trigger] d[h][w]
                == s0.display[h][w] ^ sprite_cell(sprite, vx, vy, n * 8, h, w));
        if hit {
            self.v[15] = 1;
        }
        assert(self@.display == d);
        let ghost expect = draw_spec(s0, x as int, y as int, n as int).0;
        assert forall|h: int| 0 <= h < DISPLAY_HEIGHT implies #[trigger] self@.display[h] =~= expect.display[h] by {
            assert(self@.display[h].len() == DISPLAY_WIDTH);
            assert forall|w: int| 0 <= w < DISPLAY_WIDTH implies self@.display[h][w] == expect.display[h][w] by {
                assert(d[h][w] == s0.display[h][w] ^ sprite_cell(sprite, vx, vy, n * 8, h, w));
            }
        }
        assert(self@.display =~~= expect.display);
        assert forall|h: int, w: int|
            0 <= h < DISPLAY_HEIGHT && 0 <= w < DISPLAY_WIDTH implies #[trigger] self@.display[h][w] <= 1 by {
            let r = (h - vy) % (DISPLAY_HEIGHT as int);
            let c = (w - vx) % (DISPLAY_WIDTH as int);
            if r < sprite.len() && c < 8 {
                lemma_pixel_bounds(s0.display[h][w], sprite[r], c);
            }
            lemma_xor_bits(s0.display[h][w]);
        }
        assert(self@.v =~= expect.v);
        Ok(ProgramCounter::Next)
    }
}

} // verus!
