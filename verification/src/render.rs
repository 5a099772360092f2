//! Enlarging the framebuffer into a buffer of colours for a host window.

use crate::cpu::display::{HEIGHT, PIXEL_COUNT, WIDTH};
use vstd::prelude::*;

verus! {

/// The colour of the cell that window pixel (`px`, `py`) falls on when every
/// cell is shown as a square of `scale` by `scale` window pixels: `lit` for a
/// cell that holds 1, `dark` for any other.
pub open spec fn colour_at(cells: Seq<u8>, scale: int, lit: u32, dark: u32, px: int, py: int) -> u32 {
    if cells[(py / scale) * 64 + px / scale] == 1 {
        lit
    } else {
        dark
    }
}

/// Paints the 64 x 32 cells into a buffer of `64 * scale` by `32 * scale`
/// colours, row after row, each cell becoming a square of `scale` by `scale`.
#[verifier::spinoff_prover]
#[verifier::rlimit(40)]
pub fn scale_frame(cells: &[u8; 2048], scale: usize, lit: u32, dark: u32) -> (frame: Vec<u32>)
    requires
        0 < scale,
        PIXEL_COUNT * scale * scale <= usize::MAX,
    ensures
        frame@.len() == (WIDTH * scale) * (HEIGHT * scale),
        forall|px: int, py: int|
            0 <= px < WIDTH * scale && 0 <= py < HEIGHT * scale ==> #[trigger] frame@[py * (WIDTH
                * scale) + px] == colour_at(cells@, scale as int, lit, dark, px, py),
{
    proof {
        lemma_frame_fits(scale as int);
    }
    let width = WIDTH * scale;
    let height = HEIGHT * scale;
    let mut frame: Vec<u32> = Vec::new();
    let mut py: usize = 0;
    while py < height
        invariant
            0 < scale,
            width == WIDTH * scale,
            height == HEIGHT * scale,
            width * height <= usize::MAX,
            py <= height,
            frame@.len() == py * width,
            forall|qx: int, qy: int|
                0 <= qx < width && 0 <= qy < py ==> #[trigger] frame@[qy * width + qx]
                    == colour_at(cells@, scale as int, lit, dark, qx, qy),
        decreases height - py,
    {
        let row = py / scale;
        proof {
            lemma_cell_in_range(scale as int, py as int, 32);
        }
        let mut px: usize = 0;
        while px < width
            invariant
                0 < scale,
                width == WIDTH * scale,
                height == HEIGHT * scale,
                width * height <= usize::MAX,
                py < height,
                row == py / scale,
                row < 32,
                px <= width,
                frame@.len() == py * width + px,
                forall|qx: int, qy: int|
                    0 <= qx < width && 0 <= qy < py ==> #[trigger] frame@[qy * width + qx]
                        == colour_at(cells@, scale as int, lit, dark, qx, qy),
                forall|qx: int|
                    0 <= qx < px ==> #[trigger] frame@[py * width + qx] == colour_at(
                        cells@,
                        scale as int,
                        lit,
                        dark,
                        qx,
                        py as int,
                    ),
            decreases width - px,
        {
            proof {
                lemma_cell_in_range(scale as int, px as int, 64);
                lemma_row_major(width as int, height as int, px as int, py as int);
            }
            let col = px / scale;
            let colour = if cells[row * WIDTH + col] == 1 {
                lit
            } else {
                dark
            };
            let ghost painted = frame@;
            frame.push(colour);
            proof {
                assert forall|qx: int, qy: int| 0 <= qx < width && 0 <= qy < py implies #[trigger] frame@[qy
                    * width + qx] == colour_at(cells@, scale as int, lit, dark, qx, qy) by {
                    lemma_row_major(width as int, py as int, qx, qy);
                    assert(frame@[qy * width + qx] == painted[qy * width + qx]);
                }
            }
            px += 1;
        }
        proof {
            assert(py * width + width == (py + 1) * width) by (nonlinear_arith);
            assert forall|qx: int, qy: int| 0 <= qx < width && 0 <= qy < py + 1 implies #[trigger] frame@[qy
                * width + qx] == colour_at(cells@, scale as int, lit, dark, qx, qy) by {
                if qy == py {
                    assert(frame@[py * width + qx] == colour_at(
                        cells@,
                        scale as int,
                        lit,
                        dark,
                        qx,
                        py as int,
                    ));
                }
            }
        }
        py += 1;
    }
    proof {
        assert(py == height);
        assert(height * width == width * height) by (nonlinear_arith);
    }
    frame
}

/// A frame that fits in memory has sides that fit too.
proof fn lemma_frame_fits(scale: int)
    requires
        0 < scale,
        2048 * scale * scale <= usize::MAX,
    ensures
        64 * scale <= usize::MAX,
        32 * scale <= usize::MAX,
        (64 * scale) * (32 * scale) == 2048 * scale * scale,
{
    assert((64 * scale) * (32 * scale) == 2048 * scale * scale) by (nonlinear_arith);
    assert(scale <= scale * scale) by (nonlinear_arith)
        requires
            0 < scale,
    ;
    assert(2048 * scale * scale == 2048 * (scale * scale)) by (nonlinear_arith);
}

/// A window coordinate below `cells * scale` falls on a cell below `cells`.
proof fn lemma_cell_in_range(scale: int, coordinate: int, cells: int)
    requires
        0 < scale,
        0 <= coordinate < cells * scale,
    ensures
        0 <= coordinate / scale < cells,
{
    assert(0 <= coordinate / scale < cells) by (nonlinear_arith)
        requires
            0 < scale,
            0 <= coordinate < cells * scale,
    ;
}

/// In a row-major buffer, position (`x`, `y`) lies before the end of row `y`.
proof fn lemma_row_major(width: int, height: int, x: int, y: int)
    requires
        0 <= x < width,
        0 <= y < height,
    ensures
        0 <= y * width + x < (y + 1) * width,
        (y + 1) * width <= height * width,
        height * width == width * height,
{
    assert(0 <= y * width + x < (y + 1) * width && (y + 1) * width <= height * width && height
        * width == width * height) by (nonlinear_arith)
        requires
            0 <= x < width,
            0 <= y < height,
    ;
}

} // verus!
