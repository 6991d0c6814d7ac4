//! Pattern generation: a seed string becomes a deterministic, left-right
//! symmetric grid of filled cells plus a foreground color.
//!
//! A SHA-512 digest of the seed supplies the bits. Only the left half of
//! each row (plus the center column when the side is odd) is drawn from the
//! digest directly; the right half mirrors it across the vertical center
//! axis.

use vstd::prelude::*;
use crate::color::{Rgb, background};

verus! {

/// The SHA-512 digest of a string's UTF-8 bytes, as a byte sequence.
pub uninterp spec fn sha512_of(s: Seq<char>) -> Seq<u8>;

/// Relies on sha2::Sha512::digest: the SHA-512 digest of the seed's UTF-8
/// bytes, a pure function of the input, 64 bytes long.
#[verifier::external_body]
fn digest_seed(seed: &str) -> (r: Vec<u8>)
    ensures
        r@ == sha512_of(seed@),
        r@.len() == 64,
{
    let d = <sha2::Sha512 as sha2::Digest>::digest(seed.as_bytes());
    d.to_vec()
}

/// Number of grid columns drawn directly from the digest: the left half,
/// plus the center column when the side is odd.
pub open spec fn half_cols(size: u32) -> int {
    (size as int + 1) / 2
}

/// The column a cell reads its bit from: itself on the left half, its
/// mirror image on the right half.
pub open spec fn folded_col(size: u32, col: int) -> int {
    if col < half_cols(size) {
        col
    } else {
        size as int - 1 - col
    }
}

/// Whether the cell at `(row, col)` is filled: the digest byte chosen by
/// the cell's folded position is even.
pub open spec fn cell_on(digest: Seq<u8>, size: u32, row: int, col: int) -> bool {
    if digest.len() == 0 {
        false
    } else {
        digest[(row * half_cols(size) + folded_col(size, col)) % (digest.len() as int)] % 2 == 0
    }
}

/// The whole grid as a row-major sequence of cell states.
pub open spec fn cells_of(digest: Seq<u8>, size: u32) -> Seq<bool> {
    Seq::new(
        (size as nat * size as nat),
        |i: int| cell_on(digest, size, i / size as int, i % size as int),
    )
}

/// The foreground color: the first three digest bytes as RGB, nudged off
/// the background color if they happen to coincide with it.
pub open spec fn fg_of(digest: Seq<u8>) -> Rgb {
    if digest.len() < 3 {
        Rgb { r: 0, g: 0, b: 0 }
    } else {
        let c = Rgb { r: digest[0], g: digest[1], b: digest[2] };
        if c == background() {
            Rgb { r: c.r, g: c.g, b: (c.b + 1) as u8 }
        } else {
            c
        }
    }
}

/// A generated identicon pattern: cell states in row-major order, one
/// derived foreground color and the fixed background color.
pub struct PatternGrid {
    /// Cells per side.
    pub size: u32,
    /// Row-major cell states, `size * size` entries.
    pub cells: Vec<bool>,
    /// Color of filled cells.
    pub foreground: Rgb,
    /// Color of empty cells and of the border.
    pub background: Rgb,
}

impl PatternGrid {
    /// The cell count matches the declared side length.
    pub open spec fn wf(self) -> bool {
        self.cells@.len() == self.size as int * self.size as int
    }

    /// The cell state at `(row, col)`.
    pub open spec fn cell(self, row: int, col: int) -> bool {
        self.cells@[row * self.size as int + col]
    }

    /// The grid is exactly the one that `digest` determines for `size`.
    pub open spec fn matches_digest(self, digest: Seq<u8>, size: u32) -> bool {
        &&& self.size == size
        &&& self.cells@ == cells_of(digest, size)
        &&& self.foreground == fg_of(digest)
        &&& self.background == background()
    }
}

/// Builds the pattern grid that `digest` determines for side length `size`.
pub fn grid_from_digest(digest: &Vec<u8>, size: u32) -> (g: PatternGrid)
    requires
        size as int * size as int <= usize::MAX as int,
    ensures
        g.matches_digest(digest@, size),
        g.wf(),
{
    let dlen = digest.len();
    let half: u64 = (size as u64 + 1) / 2;
    let mut cells: Vec<bool> = Vec::new();
    let mut row: u32 = 0;
    while row < size
        invariant
            row <= size,
            size as int * size as int <= usize::MAX as int,
            half == half_cols(size),
            dlen == digest@.len(),
            cells@.len() == row as int * size as int,
            cells@.len() <= size as int * size as int,
            forall|i: int| 0 <= i < cells@.len() ==> cells@[i] == cells_of(digest@, size)[i],
        decreases size - row,
    {
        let mut col: u32 = 0;
        while col < size
            invariant
                row < size,
                col <= size,
                size as int * size as int <= usize::MAX as int,
                half == half_cols(size),
                dlen == digest@.len(),
                cells@.len() == row as int * size as int + col as int,
                cells@.len() <= size as int * size as int,
                forall|i: int| 0 <= i < cells@.len() ==> cells@[i] == cells_of(digest@, size)[i],
            decreases size - col,
        {
            proof {
                assert(half <= 0x8000_0000u64);
                assert(row as u64 as int * half as int <= 0x7fff_ffff_8000_0000i64 as int)
                    by (nonlinear_arith)
                    requires
                        row as u64 <= 0xffff_ffffu64,
                        half <= 0x8000_0000u64,
                ;
            }
            let on: bool = if dlen == 0 {
                false
            } else {
                let folded: u64 = if (col as u64) < half {
                    col as u64
                } else {
                    size as u64 - 1 - col as u64
                };
                let pos: usize = ((row as u64 * half + folded) % dlen as u64) as usize;
                digest[pos] % 2 == 0
            };
            proof {
                let i = row as int * size as int + col as int;
                assert(i < size as int * size as int) by (nonlinear_arith)
                    requires
                        row < size,
                        col < size,
                        i == row as int * size as int + col as int,
                ;
                vstd::arithmetic::div_mod::lemma_fundamental_div_mod_converse(
                    i, size as int, row as int, col as int);
                assert(on == cell_on(digest@, size, row as int, col as int));
                assert(cells_of(digest@, size)[i] == cell_on(digest@, size, row as int, col as int));
            }
            cells.push(on);
            col += 1;
        }
        proof {
            assert(row as int * size as int + size as int == (row + 1) as int * size as int)
                by (nonlinear_arith);
        }
        row += 1;
    }
    let foreground = if dlen < 3 {
        Rgb { r: 0, g: 0, b: 0 }
    } else {
        let c = Rgb { r: digest[0], g: digest[1], b: digest[2] };
        if c.r == 240 && c.g == 240 && c.b == 240 {
            Rgb { r: c.r, g: c.g, b: c.b + 1 }
        } else {
            c
        }
    };
    let g = PatternGrid { size, cells, foreground, background: crate::color::background_color() };
    proof {
        assert(g.cells@ =~= cells_of(digest@, size));
    }
    g
}

/// Generates the identicon pattern for a seed: the grid, colors included,
/// is a pure function of the seed string and the side length.
pub fn generate(seed: &str, size: u32) -> (g: PatternGrid)
    requires
        size as int * size as int <= usize::MAX as int,
    ensures
        g.matches_digest(sha512_of(seed@), size),
        g.wf(),
{
    let digest = digest_seed(seed);
    grid_from_digest(&digest, size)
}

/// Law: the derived foreground color is never the background color, so a
/// filled cell is always visible.
pub proof fn lemma_foreground_distinct(digest: Seq<u8>)
    ensures
        fg_of(digest) != background(),
{
}

/// Law: every generated grid is symmetric about its vertical center axis —
/// the cell at `(row, col)` equals the cell at `(row, size - 1 - col)`.
pub proof fn lemma_grid_symmetry(digest: Seq<u8>, size: u32, row: int, col: int)
    requires
        0 <= row < size,
        0 <= col < size,
    ensures
        cell_on(digest, size, row, col) == cell_on(digest, size, row, size - 1 - col),
{
    let s = size as int;
    let half = half_cols(size);
    assert(2 * half >= s);
    assert(2 * half <= s + 1);
    let m = s - 1 - col;
    if col < half && m < half {
        assert(col == m);
    }
    assert(folded_col(size, col) == folded_col(size, m));
}

/// Law: a generated grid is symmetric — the cell at `(row, col)` equals
/// the cell at `(row, size - 1 - col)`, for every row and column.
pub proof fn lemma_pattern_symmetric(
    g: PatternGrid,
    digest: Seq<u8>,
    size: u32,
    row: int,
    col: int,
)
    requires
        g.matches_digest(digest, size),
        0 <= row < size,
        0 <= col < size,
    ensures
        g.cell(row, col) == g.cell(row, size - 1 - col),
{
    let s = size as int;
    let m = s - 1 - col;
    let i1 = row * s + col;
    let i2 = row * s + m;
    assert(i1 < s * s && i2 < s * s) by (nonlinear_arith)
        requires
            0 <= row < s,
            0 <= col < s,
            0 <= m < s,
            i1 == row * s + col,
            i2 == row * s + m,
    ;
    vstd::arithmetic::div_mod::lemma_fundamental_div_mod_converse(i1, s, row, col);
    vstd::arithmetic::div_mod::lemma_fundamental_div_mod_converse(i2, s, row, m);
    lemma_grid_symmetry(digest, size, row, col);
}

/// Law: pattern generation is deterministic — two grids that match the
/// same digest and side length are equal in every part.
pub proof fn lemma_generate_deterministic(
    g1: PatternGrid,
    g2: PatternGrid,
    digest: Seq<u8>,
    size: u32,
)
    requires
        g1.matches_digest(digest, size),
        g2.matches_digest(digest, size),
    ensures
        g1.size == g2.size,
        g1.cells@ == g2.cells@,
        g1.foreground == g2.foreground,
        g1.background == g2.background,
{
}

} // verus!
