//! Rendering: lays a pattern grid out on a square RGB canvas.
//!
//! The canvas is `scale` pixels on each side. The border is inset from the
//! canvas edge: the pattern occupies `scale - 2*border` pixels, centered,
//! each cell a square block of `(scale - 2*border) / size` pixels, the
//! division remainder split evenly onto both sides as extra margin. A
//! border at or beyond half the scale leaves an all-background canvas.

use vstd::prelude::*;
use crate::color::Rgb;
use crate::pattern::PatternGrid;

verus! {

/// An uncompressed image: row-major RGB bytes, three per pixel.
pub struct RenderedImage {
    pub width: u32,
    pub height: u32,
    pub pixels: Vec<u8>,
}

impl RenderedImage {
    /// The byte count matches the declared dimensions.
    pub open spec fn wf(self) -> bool {
        self.pixels@.len() == 3 * self.width as int * self.height as int
    }
}

/// Side length, in pixels, of the drawing area left inside the border;
/// zero when the border swallows the canvas.
pub open spec fn inner_extent(scale: u32, border: u32) -> int {
    if 2 * border as int >= scale as int {
        0
    } else {
        scale as int - 2 * border as int
    }
}

/// Side length, in pixels, of one cell's square block.
pub open spec fn cell_px(scale: u32, border: u32, size: u32) -> int {
    if size == 0 {
        0
    } else {
        inner_extent(scale, border) / size as int
    }
}

/// Distance from the canvas edge to the pattern: the border plus half the
/// leftover of the block division.
pub open spec fn pattern_off(scale: u32, border: u32, size: u32) -> int {
    border as int + (inner_extent(scale, border) - cell_px(scale, border, size) * size as int) / 2
}

/// The color of the canvas pixel at `(x, y)`: the foreground on a filled
/// cell's block, the background everywhere else.
pub open spec fn px_at(
    size: u32,
    cells: Seq<bool>,
    fg: Rgb,
    scale: u32,
    border: u32,
    bg: Rgb,
    x: int,
    y: int,
) -> Rgb {
    let cp = cell_px(scale, border, size);
    let off = pattern_off(scale, border, size);
    if cp <= 0 {
        bg
    } else if off <= x && x < off + cp * size as int && off <= y && y < off + cp * size as int {
        let col = (x - off) / cp;
        let row = (y - off) / cp;
        if cells[row * size as int + col] {
            fg
        } else {
            bg
        }
    } else {
        bg
    }
}

/// The full canvas as row-major RGB bytes.
pub open spec fn image_bytes(
    size: u32,
    cells: Seq<bool>,
    fg: Rgb,
    scale: u32,
    border: u32,
    bg: Rgb,
) -> Seq<u8> {
    Seq::new(
        (3 * scale as nat * scale as nat),
        |i: int|
            {
                let p = i / 3;
                let ch = i % 3;
                let c = px_at(size, cells, fg, scale, border, bg, p % scale as int, p / scale as int);
                if ch == 0 {
                    c.r
                } else if ch == 1 {
                    c.g
                } else {
                    c.b
                }
            },
    )
}

/// Law: when the border reaches half the scale or more, every canvas pixel
/// is the background color.
pub proof fn lemma_degenerate_border(
    size: u32,
    cells: Seq<bool>,
    fg: Rgb,
    scale: u32,
    border: u32,
    bg: Rgb,
    x: int,
    y: int,
)
    requires
        2 * border as int >= scale as int,
    ensures
        px_at(size, cells, fg, scale, border, bg, x, y) == bg,
{
    assert(inner_extent(scale, border) == 0);
    if size != 0 {
        assert(0int / size as int == 0);
    }
}

/// The color of the canvas pixel at `(x, y)`.
fn pixel_color(grid: &PatternGrid, scale: u32, border: u32, bg: Rgb, x: u32, y: u32) -> (c: Rgb)
    requires
        grid.wf(),
        x < scale,
        y < scale,
    ensures
        c == px_at(
            grid.size,
            grid.cells@,
            grid.foreground,
            scale,
            border,
            bg,
            x as int,
            y as int,
        ),
{
    let size = grid.size;
    let b2: u64 = 2 * border as u64;
    let inner: u64 = if b2 >= scale as u64 {
        0
    } else {
        scale as u64 - b2
    };
    if size == 0 {
        return bg;
    }
    let cp: u64 = inner / size as u64;
    if cp == 0 {
        return bg;
    }
    proof {
        assert(cp as int * size as int <= inner as int) by (nonlinear_arith)
            requires
                size as int > 0,
                inner as int >= 0,
                cp as int == inner as int / size as int,
        ;
    }
    let pat: u64 = cp * size as u64;
    let off: u64 = border as u64 + (inner - pat) / 2;
    let xi = x as u64;
    let yi = y as u64;
    if xi >= off && yi >= off && xi < off + pat && yi < off + pat {
        let col: u64 = (xi - off) / cp;
        let row: u64 = (yi - off) / cp;
        proof {
            vstd::arithmetic::div_mod::lemma_multiply_divide_lt(
                xi as int - off as int, cp as int, size as int);
            vstd::arithmetic::div_mod::lemma_multiply_divide_lt(
                yi as int - off as int, cp as int, size as int);
            assert((row as int * size as int + col as int) < (size as int) * (size as int))
                by (nonlinear_arith)
                requires
                    (row as int) < size as int,
                    (col as int) < size as int,
            ;
        }
        let n = grid.cells.len();
        let idx: usize = (row * size as u64 + col) as usize;
        if grid.cells[idx] {
            grid.foreground
        } else {
            bg
        }
    } else {
        bg
    }
}

/// Renders the grid onto a `scale` by `scale` canvas: every pixel is
/// exactly the color the layout assigns to its coordinates.
pub fn render(grid: &PatternGrid, scale: u32, border: u32, bg: Rgb) -> (img: RenderedImage)
    requires
        grid.wf(),
        3 * scale as int * scale as int <= usize::MAX as int,
    ensures
        img.width == scale,
        img.height == scale,
        img.wf(),
        img.pixels@ == image_bytes(grid.size, grid.cells@, grid.foreground, scale, border, bg),
{
    let ghost target = image_bytes(grid.size, grid.cells@, grid.foreground, scale, border, bg);
    let mut pixels: Vec<u8> = Vec::new();
    let mut y: u32 = 0;
    while y < scale
        invariant
            grid.wf(),
            3 * scale as int * scale as int <= usize::MAX as int,
            target == image_bytes(grid.size, grid.cells@, grid.foreground, scale, border, bg),
            y <= scale,
            pixels@.len() == 3 * (y as int * scale as int),
            pixels@.len() <= 3 * scale as int * scale as int,
            forall|j: int| 0 <= j < pixels@.len() ==> pixels@[j] == target[j],
        decreases scale - y,
    {
        let mut x: u32 = 0;
        while x < scale
            invariant
                grid.wf(),
                3 * scale as int * scale as int <= usize::MAX as int,
                target == image_bytes(grid.size, grid.cells@, grid.foreground, scale, border, bg),
                y < scale,
                x <= scale,
                pixels@.len() == 3 * (y as int * scale as int + x as int),
                pixels@.len() <= 3 * scale as int * scale as int,
                forall|j: int| 0 <= j < pixels@.len() ==> pixels@[j] == target[j],
            decreases scale - x,
        {
            let c = pixel_color(grid, scale, border, bg, x, y);
            proof {
                let p = y as int * scale as int + x as int;
                assert(p + 1 <= scale as int * scale as int) by (nonlinear_arith)
                    requires
                        y < scale,
                        x < scale,
                        p == y as int * scale as int + x as int,
                ;
                vstd::arithmetic::div_mod::lemma_fundamental_div_mod_converse(
                    p, scale as int, y as int, x as int);
                vstd::arithmetic::div_mod::lemma_fundamental_div_mod_converse(
                    3 * p, 3, p, 0);
                vstd::arithmetic::div_mod::lemma_fundamental_div_mod_converse(
                    3 * p + 1, 3, p, 1);
                vstd::arithmetic::div_mod::lemma_fundamental_div_mod_converse(
                    3 * p + 2, 3, p, 2);
                assert(3 * (scale as int) * (scale as int)
                    == 3 * ((scale as int) * (scale as int))) by (nonlinear_arith);
                assert(target.len() == 3 * (scale as int) * (scale as int));
                assert(3 * p + 2 < target.len());
                assert((3 * p) / 3 == p && (3 * p) % 3 == 0);
                assert(p / (scale as int) == y as int && p % (scale as int) == x as int);
                assert(target[3 * p] == c.r);
                assert(target[3 * p + 1] == c.g);
                assert(target[3 * p + 2] == c.b);
            }
            pixels.push(c.r);
            pixels.push(c.g);
            pixels.push(c.b);
            x += 1;
        }
        proof {
            assert(3 * (y as int * scale as int + scale as int)
                == 3 * ((y + 1) as int * scale as int)) by (nonlinear_arith);
        }
        y += 1;
    }
    proof {
        assert(3 * (scale as int) * (scale as int)
            == 3 * ((scale as int) * (scale as int))) by (nonlinear_arith);
        assert(pixels@ =~= target);
    }
    RenderedImage { width: scale, height: scale, pixels }
}

} // verus!
