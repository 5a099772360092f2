//! The 64x32 monochrome framebuffer and its XOR sprite plotter.

use vstd::arithmetic::power2::pow2;
use vstd::bits::lemma_u8_shr_is_div;
use vstd::prelude::*;

verus! {

/// Number of pixel columns.
pub const WIDTH: usize = 64;

/// Number of pixel rows.
pub const HEIGHT: usize = 32;

/// Number of pixels on the screen.
pub const PIXEL_COUNT: usize = 2048;

/// Number of pixels that one sprite byte covers.
pub const BYTE_WIDTH: usize = 8;

/// The framebuffer: one cell per pixel, row after row, each cell 0 or 1.
pub struct Display {
    screen: [u8; 2048],
}

/// Bit `index` of `byte` as 0 or 1, counting from the least significant bit.
pub open spec fn bit(byte: u8, index: nat) -> nat {
    (byte as nat / pow2(index)) % 2
}

/// The screen on which no pixel is lit.
pub open spec fn blank() -> Seq<bool> {
    Seq::new(PIXEL_COUNT as nat, |p: int| false)
}

/// Whether a sprite whose top-left corner is drawn at column `x`, row `y`
/// has a set bit over the pixel in column `col` of row `row`.
///
/// Sprite row `r` lands on screen row `(y + r) mod 32`, and bit `b` of a row,
/// counted from the most significant, lands on column `(x + b) mod 64`.
pub open spec fn sprite_covers(sprite: Seq<u8>, x: int, y: int, row: int, col: int) -> bool {
    let r = (row - y) % 32;
    let b = (col - x) % 64;
    r < sprite.len() && b < 8 && bit(sprite[r], (7 - b) as nat) == 1
}

/// The screen after `sprite` has been XORed onto `screen` at (`x`, `y`).
pub open spec fn drawn(screen: Seq<bool>, sprite: Seq<u8>, x: int, y: int) -> Seq<bool> {
    Seq::new(
        PIXEL_COUNT as nat,
        |p: int| screen[p] != sprite_covers(sprite, x, y, p / 64, p % 64),
    )
}

/// Whether drawing `sprite` at (`x`, `y`) turns off a pixel that is lit on `screen`.
pub open spec fn erases(screen: Seq<bool>, sprite: Seq<u8>, x: int, y: int) -> bool {
    exists|p: int|
        0 <= p < PIXEL_COUNT && #[trigger] screen[p] && sprite_covers(
            sprite,
            x,
            y,
            p / 64,
            p % 64,
        )
}

/// `sprite_covers` for pixel `p`, restricted to the sprite bits that come
/// before bit `bits_done` of row `rows_done` in plotting order.
spec fn plotted(sprite: Seq<u8>, x: int, y: int, p: int, rows_done: int, bits_done: int) -> bool {
    let r = (p / 64 - y) % 32;
    let b = (p % 64 - x) % 64;
    sprite_covers(sprite, x, y, p / 64, p % 64) && (r < rows_done || (r == rows_done && b
        < bits_done))
}

/// `erases`, restricted in the same way as `plotted`.
spec fn erased(
    screen: Seq<bool>,
    sprite: Seq<u8>,
    x: int,
    y: int,
    rows_done: int,
    bits_done: int,
) -> bool {
    exists|p: int|
        0 <= p < PIXEL_COUNT && #[trigger] screen[p] && plotted(sprite, x, y, p, rows_done, bits_done)
}

/// The index of the pixel on which bit `b` of sprite row `r` lands.
spec fn landing(x: int, y: int, r: int, b: int) -> int {
    ((y + r) % 32) * 64 + (x + b) % 64
}

/// Plotting bit `b` of row `r` adds the landing pixel of that bit to the
/// plotted ones if the bit is set, and changes nothing else.
proof fn lemma_plot_one_bit(sprite: Seq<u8>, x: int, y: int, r: int, b: int)
    requires
        0 <= r < sprite.len() <= 32,
        0 <= b < 8,
    ensures
        0 <= landing(x, y, r, b) < PIXEL_COUNT,
        !plotted(sprite, x, y, landing(x, y, r, b), r, b),
        plotted(sprite, x, y, landing(x, y, r, b), r, b + 1) == (bit(sprite[r], (7 - b) as nat)
            == 1),
        forall|p: int|
            0 <= p < PIXEL_COUNT && p != landing(x, y, r, b) ==> #[trigger] plotted(
                sprite,
                x,
                y,
                p,
                r,
                b + 1,
            ) == plotted(sprite, x, y, p, r, b),
{
    let t = landing(x, y, r, b);
    assert(t / 64 == (y + r) % 32 && t % 64 == (x + b) % 64);
    assert((t / 64 - y) % 32 == r);
    assert((t % 64 - x) % 64 == b);
    assert forall|p: int| 0 <= p < PIXEL_COUNT && p != t implies #[trigger] plotted(
        sprite,
        x,
        y,
        p,
        r,
        b + 1,
    ) == plotted(sprite, x, y, p, r, b) by {
        if (p / 64 - y) % 32 == r && (p % 64 - x) % 64 == b {
            assert(p / 64 == t / 64);
            assert(p % 64 == t % 64);
        }
    }
}

/// Plotting bit `b` of row `r` erases a pixel exactly if an earlier bit did,
/// or if the bit is set and its landing pixel was lit.
proof fn lemma_erase_one_bit(screen: Seq<bool>, sprite: Seq<u8>, x: int, y: int, r: int, b: int)
    requires
        0 <= r < sprite.len() <= 32,
        0 <= b < 8,
    ensures
        erased(screen, sprite, x, y, r, b + 1) == (erased(screen, sprite, x, y, r, b) || (
        screen[landing(x, y, r, b)] && bit(sprite[r], (7 - b) as nat) == 1)),
{
    lemma_plot_one_bit(sprite, x, y, r, b);
    let t = landing(x, y, r, b);
    if erased(screen, sprite, x, y, r, b + 1) {
        let p = choose|p: int|
            0 <= p < PIXEL_COUNT && #[trigger] screen[p] && plotted(sprite, x, y, p, r, b + 1);
        if p != t {
            assert(plotted(sprite, x, y, p, r, b));
        }
    }
    if erased(screen, sprite, x, y, r, b) {
        let p = choose|p: int|
            0 <= p < PIXEL_COUNT && #[trigger] screen[p] && plotted(sprite, x, y, p, r, b);
        assert(plotted(sprite, x, y, p, r, b + 1));
    }
    if screen[t] && bit(sprite[r], (7 - b) as nat) == 1 {
        assert(plotted(sprite, x, y, t, r, b + 1));
    }
}

/// Once all eight bits of row `r` are plotted, the plot stands where it
/// stands before the first bit of row `r + 1`.
proof fn lemma_row_plotted(screen: Seq<bool>, sprite: Seq<u8>, x: int, y: int, r: int)
    ensures
        forall|p: int| #[trigger]
            plotted(sprite, x, y, p, r, 8) == plotted(sprite, x, y, p, r + 1, 0),
        erased(screen, sprite, x, y, r, 8) == erased(screen, sprite, x, y, r + 1, 0),
{
    if erased(screen, sprite, x, y, r, 8) {
        let p = choose|p: int|
            0 <= p < PIXEL_COUNT && #[trigger] screen[p] && plotted(sprite, x, y, p, r, 8);
        assert(plotted(sprite, x, y, p, r + 1, 0));
    }
    if erased(screen, sprite, x, y, r + 1, 0) {
        let p = choose|p: int|
            0 <= p < PIXEL_COUNT && #[trigger] screen[p] && plotted(sprite, x, y, p, r + 1, 0);
        assert(plotted(sprite, x, y, p, r, 8));
    }
}

/// Once all rows are plotted, every bit of the sprite is.
proof fn lemma_sprite_plotted(screen: Seq<bool>, sprite: Seq<u8>, x: int, y: int)
    ensures
        forall|p: int| #[trigger]
            plotted(sprite, x, y, p, sprite.len() as int, 0) == sprite_covers(
                sprite,
                x,
                y,
                p / 64,
                p % 64,
            ),
        erased(screen, sprite, x, y, sprite.len() as int, 0) == erases(screen, sprite, x, y),
{
    let n = sprite.len() as int;
    if erased(screen, sprite, x, y, n, 0) {
        let p = choose|p: int|
            0 <= p < PIXEL_COUNT && #[trigger] screen[p] && plotted(sprite, x, y, p, n, 0);
        assert(sprite_covers(sprite, x, y, p / 64, p % 64));
    }
    if erases(screen, sprite, x, y) {
        let p = choose|p: int|
            0 <= p < PIXEL_COUNT && #[trigger] screen[p] && sprite_covers(
                sprite,
                x,
                y,
                p / 64,
                p % 64,
            );
        assert(plotted(sprite, x, y, p, n, 0));
    }
}

/// Extracts bit `index` of `byte`, counting from the least significant bit.
pub fn byte_index(byte: u8, index: usize) -> (value: u8)
    requires
        index < BYTE_WIDTH,
    ensures
        value == bit(byte, index as nat),
{
    let shift = index as u8;
    proof {
        assert((byte & (1u8 << shift)) >> shift == (byte >> shift) & 1) by (bit_vector)
            requires
                shift < 8,
        ;
        let shifted = byte >> shift;
        assert(shifted & 1 == shifted % 2) by (bit_vector);
        lemma_u8_shr_is_div(byte, shift);
    }
    (byte & (1u8 << shift)) >> shift
}

impl View for Display {
    type V = Seq<bool>;

    /// Which pixels are lit, row after row: pixel (`col`, `row`) is entry `row * 64 + col`.
    closed spec fn view(&self) -> Seq<bool> {
        Seq::new(PIXEL_COUNT as nat, |p: int| self.screen@[p] == 1)
    }
}

impl Display {
    #[verifier::type_invariant]
    spec fn cells_are_bits(self) -> bool {
        forall|p: int| 0 <= p < PIXEL_COUNT ==> #[trigger] self.screen@[p] <= 1
    }

    /// The screen always has 2048 pixels.
    pub proof fn lemma_len(&self)
        ensures
            self@.len() == PIXEL_COUNT,
    {
    }

    /// Returns a new, cleared display.
    pub fn new() -> (d: Display)
        ensures
            d@ == blank(),
    {
        let d = Display { screen: [0; 2048] };
        d
    }

    /// Clears the display.
    pub fn cls(&mut self)
        ensures
            final(self)@ == blank(),
    {
        self.screen = [0; 2048];
    }

    /// The cells of the framebuffer, row after row: 1 for a lit pixel, 0 for a dark one.
    pub fn screen_buffer(&self) -> (cells: &[u8; 2048])
        ensures
            cells@.len() == PIXEL_COUNT,
            forall|p: int|
                0 <= p < PIXEL_COUNT ==> #[trigger] cells@[p] == (if self@[p] {
                    1u8
                } else {
                    0u8
                }),
    {
        proof {
            use_type_invariant(self);
        }
        &self.screen
    }

    /// XORs a sprite onto the screen and reports whether that erased a lit pixel.
    ///
    /// The sprite is the `byte_count` bytes of `memory` that start at `address`,
    /// one byte per row, most significant bit leftmost. Its top-left corner goes
    /// to column `x`, row `y`; both coordinates wrap around the screen edges
    /// independently. A sprite is at most as tall as the screen.
    #[verifier::spinoff_prover]
    #[verifier::rlimit(40)]
    pub fn draw_sprite(
        &mut self,
        memory: &[u8],
        byte_count: usize,
        address: usize,
        x: usize,
        y: usize,
    ) -> (collision: bool)
        requires
            byte_count <= HEIGHT,
            address + byte_count <= memory.len(),
        ensures
            final(self)@ == drawn(
                old(self)@,
                memory@.subrange(address as int, address + byte_count),
                x as int,
                y as int,
            ),
            collision == erases(
                old(self)@,
                memory@.subrange(address as int, address + byte_count),
                x as int,
                y as int,
            ),
    {
        proof {
            use_type_invariant(&*self);
        }
        let ghost before = self@;
        let ghost sprite = memory@.subrange(address as int, address + byte_count);
        let mut collision = false;
        for r in 0..byte_count
            invariant
                byte_count <= HEIGHT,
                address + byte_count <= memory.len(),
                sprite == memory@.subrange(address as int, address + byte_count),
                before.len() == PIXEL_COUNT,
                forall|p: int| 0 <= p < PIXEL_COUNT ==> #[trigger] self.screen@[p] <= 1,
                forall|p: int|
                    0 <= p < PIXEL_COUNT ==> #[trigger] self@[p] == (before[p] != plotted(
                        sprite,
                        x as int,
                        y as int,
                        p,
                        r as int,
                        0,
                    )),
                collision == erased(before, sprite, x as int, y as int, r as int, 0),
        {
            let byte = memory[address + r];
            let row = (y % HEIGHT + r) % HEIGHT;
            for b in 0..BYTE_WIDTH
                invariant
                    r < byte_count <= HEIGHT,
                    sprite.len() == byte_count,
                    byte == sprite[r as int],
                    row == (y + r) % 32,
                    before.len() == PIXEL_COUNT,
                    forall|p: int| 0 <= p < PIXEL_COUNT ==> #[trigger] self.screen@[p] <= 1,
                    forall|p: int|
                        0 <= p < PIXEL_COUNT ==> #[trigger] self@[p] == (before[p] != plotted(
                            sprite,
                            x as int,
                            y as int,
                            p,
                            r as int,
                            b as int,
                        )),
                    collision == erased(before, sprite, x as int, y as int, r as int, b as int),
            {
                let col = (x % WIDTH + b) % WIDTH;
                let pixel = byte_index(byte, BYTE_WIDTH - b - 1);
                let screen_index = row * WIDTH + col;
                let lit = self.screen[screen_index];
                let ghost cells = self@;
                proof {
                    assert(screen_index == landing(x as int, y as int, r as int, b as int));
                    lemma_plot_one_bit(sprite, x as int, y as int, r as int, b as int);
                    lemma_erase_one_bit(before, sprite, x as int, y as int, r as int, b as int);
                    assert(cells[screen_index as int] == before[screen_index as int]);
                    assert(lit ^ pixel == (if lit == pixel {
                        0u8
                    } else {
                        1u8
                    })) by (bit_vector)
                        requires
                            lit <= 1,
                            pixel <= 1,
                    ;
                }
                if lit == 1 && pixel == 1 {
                    collision = true;
                }
                self.screen[screen_index] = lit ^ pixel;
                proof {
                    assert forall|p: int| 0 <= p < PIXEL_COUNT implies #[trigger] self@[p] == (
                    before[p] != plotted(sprite, x as int, y as int, p, r as int, b + 1)) by {
                        assert(p != screen_index ==> self@[p] == cells[p]);
                    }
                }
            }
            proof {
                lemma_row_plotted(before, sprite, x as int, y as int, r as int);
            }
        }
        proof {
            lemma_sprite_plotted(before, sprite, x as int, y as int);
            assert(self@ =~= drawn(before, sprite, x as int, y as int));
        }
        collision
    }
}

} // verus!
