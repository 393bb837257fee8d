//! The integer side of the canvas rasteriser: colours, seeded jitter, the
//! pixel buffer and the grid that finds the segments near a pixel.

use vstd::prelude::*;

verus! {

/// The most pixels per side of a canvas.
pub const MAX_SIDE_PX: u32 = 4096;

/// The size of one side of a canvas, from its rounded extent in pixels:
/// never zero, never above [`MAX_SIDE_PX`].
pub fn canvas_side(rounded: u32) -> (r: u32)
    ensures
        r == (if rounded < 1 {
            1
        } else if rounded > MAX_SIDE_PX {
            MAX_SIDE_PX
        } else {
            rounded
        }),
{
    if rounded < 1 {
        1
    } else if rounded > MAX_SIDE_PX {
        MAX_SIDE_PX
    } else {
        rounded
    }
}

/// The red, green and blue parts of a `0xRRGGBB` colour.
pub fn rgb(color: u32) -> (r: (u8, u8, u8))
    ensures
        r.0 == (color / 0x10000) % 0x100,
        r.1 == (color / 0x100) % 0x100,
        r.2 == color % 0x100,
{
    assert(((color >> 16) & 0xff) as u8 == (color / 0x10000) % 0x100) by (bit_vector);
    assert(((color >> 8) & 0xff) as u8 == (color / 0x100) % 0x100) by (bit_vector);
    assert((color & 0xff) as u8 == color % 0x100) by (bit_vector);
    (((color >> 16) & 0xff) as u8, ((color >> 8) & 0xff) as u8, (color & 0xff) as u8)
}

/// 2^64.
pub open spec fn two64() -> int {
    0x1_0000_0000_0000_0000
}

/// The odd constant that seeds are spread with.
pub const GOLDEN: u64 = 0x9E3779B97F4A7C15;

/// The start state of the jitter generator: the seed, mixed so that close
/// seeds diverge.
pub open spec fn avalanche(seed: u64) -> u64 {
    let a = ((seed + GOLDEN) % two64()) as u64;
    let b = (((a ^ (a >> 30)) * 0xBF58476D1CE4E5B9) % two64()) as u64;
    let c = (((b ^ (b >> 27)) * 0x94D049BB133111EB) % two64()) as u64;
    c ^ (c >> 31)
}

/// The next state of the jitter generator.
pub open spec fn next_state(s: u64) -> u64 {
    (((s * 6364136223846793005) % two64() + 1442695040888963407) % two64()) as u64
}

/// A seeded generator of jitter.
#[derive(Clone, Copy, Debug, PartialEq, Eq, Structural)]
pub struct Rng {
    pub state: u64,
}

impl Rng {
    /// A generator for a seed.
    pub fn new(seed: u64) -> (r: Self)
        ensures
            r.state == avalanche(seed),
    {
        let a: u64 = seed.wrapping_add(GOLDEN);
        let b: u64 = (a ^ (a >> 30)).wrapping_mul(0xBF58476D1CE4E5B9);
        let c: u64 = (b ^ (b >> 27)).wrapping_mul(0x94D049BB133111EB);
        Rng { state: c ^ (c >> 31) }
    }

    /// Advances the generator and returns 31 fresh bits.
    pub fn next_bits(&mut self) -> (r: u32)
        ensures
            final(self).state == next_state(old(self).state),
            r == final(self).state / 0x2_0000_0000,
            r < 0x8000_0000,
    {
        let s: u64 = self.state.wrapping_mul(6364136223846793005).wrapping_add(
            1442695040888963407,
        );
        self.state = s;
        assert(s >> 33 == s / 0x2_0000_0000) by (bit_vector);
        (s >> 33) as u32
    }
}

/// The seed of the `i`-th stroke of a canvas: the seed of the element, spread
/// by the place of the stroke and mixed with its number of points.
pub open spec fn stroke_seed_spec(seed: u64, i: u64, points: u64) -> u64 {
    (((seed + (i * GOLDEN) % two64()) % two64()) as u64) ^ (points << 3)
}

/// Computes the seed of a stroke.
pub fn stroke_seed(seed: u64, i: u64, points: u64) -> (r: u64)
    ensures
        r == stroke_seed_spec(seed, i, points),
{
    seed.wrapping_add(i.wrapping_mul(GOLDEN)) ^ (points << 3)
}

/// The bytes of one pixel: blue, green, red, alpha.
pub open spec fn surface_pixel(background: Option<u32>) -> Seq<u8> {
    match background {
        Some(c) => seq![
            (c % 0x100) as u8,
            ((c / 0x100) % 0x100) as u8,
            ((c / 0x10000) % 0x100) as u8,
            0xffu8,
        ],
        None => seq![0u8, 0u8, 0u8, 0u8],
    }
}

/// The bare surface of a canvas: transparent, or filled with its background.
pub fn surface(pw: u32, ph: u32, background: Option<u32>) -> (r: Vec<u8>)
    requires
        pw <= MAX_SIDE_PX,
        ph <= MAX_SIDE_PX,
    ensures
        r@.len() == pw * ph * 4,
        forall|k: int| 0 <= k < r@.len() ==> #[trigger] r@[k] == surface_pixel(background)[k % 4],
{
    assert(pw * ph <= 4096 * 4096) by (nonlinear_arith)
        requires
            pw <= 4096,
            ph <= 4096,
    ;
    let n: usize = (pw * ph) as usize;
    let px: (u8, u8, u8, u8) = match background {
        Some(c) => {
            let p: (u8, u8, u8) = rgb(c);
            (p.2, p.1, p.0, 0xff)
        },
        None => (0, 0, 0, 0),
    };
    let mut r: Vec<u8> = Vec::new();
    let mut i: usize = 0;
    while i < n
        invariant
            i <= n,
            n <= 4096 * 4096,
            r@.len() == i * 4,
            surface_pixel(background) == seq![px.0, px.1, px.2, px.3],
            forall|k: int| 0 <= k < r@.len() ==> #[trigger] r@[k] == surface_pixel(background)[k % 4],
        decreases n - i,
    {
        r.push(px.0);
        r.push(px.1);
        r.push(px.2);
        r.push(px.3);
        i += 1;
    }
    r
}

/// Whether a pixel lies on a canvas.
pub open spec fn on_canvas(pw: u32, ph: u32, x: i32, y: i32) -> bool {
    0 <= x < pw && 0 <= y < ph
}

/// The place of the first byte of a pixel.
pub open spec fn pixel_offset(pw: u32, x: i32, y: i32) -> int {
    (y * pw + x) * 4
}

proof fn lemma_offset_in_range(pw: u32, ph: u32, x: i32, y: i32)
    requires
        on_canvas(pw, ph, x, y),
        pw <= MAX_SIDE_PX,
        ph <= MAX_SIDE_PX,
    ensures
        0 <= y * pw + x < pw * ph <= 4096 * 4096,
        0 <= pixel_offset(pw, x, y),
        pixel_offset(pw, x, y) + 3 < pw * ph * 4,
{
    assert(0 <= y * pw + x < pw * ph <= 4096 * 4096) by (nonlinear_arith)
        requires
            0 <= x < pw,
            0 <= y < ph,
            pw <= 4096,
            ph <= 4096,
    ;
}

/// A buffer with one pixel set; what lies off the canvas is dropped.
pub open spec fn with_pixel(
    buf: Seq<u8>,
    pw: u32,
    ph: u32,
    x: i32,
    y: i32,
    px: Seq<u8>,
) -> Seq<u8> {
    if on_canvas(pw, ph, x, y) {
        let k = pixel_offset(pw, x, y);
        buf.update(k, px[0]).update(k + 1, px[1]).update(k + 2, px[2]).update(k + 3, px[3])
    } else {
        buf
    }
}

/// Writes the blended bytes of a pixel; a pixel off the canvas is dropped.
pub fn put_pixel(buf: &mut Vec<u8>, pw: u32, ph: u32, x: i32, y: i32, px: [u8; 4])
    requires
        pw <= MAX_SIDE_PX,
        ph <= MAX_SIDE_PX,
        old(buf)@.len() == pw * ph * 4,
    ensures
        final(buf)@ == (if on_canvas(pw, ph, x, y) {
            let k = pixel_offset(pw, x, y);
            old(buf)@.update(k, px[0]).update(k + 1, px[1]).update(k + 2, px[2]).update(
                k + 3,
                px[3],
            )
        } else {
            old(buf)@
        }),
        final(buf)@ == with_pixel(old(buf)@, pw, ph, x, y, px@),
{
    if x < 0 || y < 0 {
        return;
    }
    let ux: u32 = x as u32;
    let uy: u32 = y as u32;
    if ux >= pw || uy >= ph {
        return;
    }
    proof {
        lemma_offset_in_range(pw, ph, x, y);
        assert(uy * pw + ux == y * pw + x) by (nonlinear_arith)
            requires
                uy == y,
                ux == x,
        ;
        assert(0 <= uy * pw <= uy * pw + ux);
    }
    let k: usize = ((uy * pw + ux) * 4) as usize;
    buf[k] = px[0];
    buf[k + 1] = px[1];
    buf[k + 2] = px[2];
    buf[k + 3] = px[3];
}

/// The bytes of a pixel, or none off the canvas.
pub fn get_pixel(buf: &Vec<u8>, pw: u32, ph: u32, x: i32, y: i32) -> (r: Option<[u8; 4]>)
    requires
        pw <= MAX_SIDE_PX,
        ph <= MAX_SIDE_PX,
        buf@.len() == pw * ph * 4,
    ensures
        match r {
            Some(p) => on_canvas(pw, ph, x, y) && p@ == buf@.subrange(
                pixel_offset(pw, x, y),
                pixel_offset(pw, x, y) + 4,
            ),
            None => !on_canvas(pw, ph, x, y),
        },
{
    if x < 0 || y < 0 {
        return None;
    }
    let ux: u32 = x as u32;
    let uy: u32 = y as u32;
    if ux >= pw || uy >= ph {
        return None;
    }
    proof {
        lemma_offset_in_range(pw, ph, x, y);
        assert(uy * pw + ux == y * pw + x) by (nonlinear_arith)
            requires
                uy == y,
                ux == x,
        ;
        assert(0 <= uy * pw <= uy * pw + ux);
    }
    let k: usize = ((uy * pw + ux) * 4) as usize;
    let p: [u8; 4] = [buf[k], buf[k + 1], buf[k + 2], buf[k + 3]];
    assert(p@ =~= buf@.subrange(k as int, k + 4));
    Some(p)
}

/// The cells that a segment touches: columns `c0` to `c1` and rows `r0` to
/// `r1`, both ends included.
#[derive(Clone, Copy, Debug, PartialEq, Eq, Structural)]
pub struct SegRange {
    pub c0: i32,
    pub c1: i32,
    pub r0: i32,
    pub r1: i32,
}

/// Whether a segment touches a cell.
pub open spec fn touches(s: SegRange, col: int, row: int) -> bool {
    s.c0 <= col <= s.c1 && s.r0 <= row <= s.r1
}

/// The numbers of the first `n` segments that touch a cell, in order.
pub open spec fn touching(ranges: Seq<SegRange>, n: nat, col: int, row: int) -> Seq<u32>
    decreases n,
{
    if n == 0 {
        Seq::empty()
    } else if touches(ranges[n - 1], col, row) {
        touching(ranges, (n - 1) as nat, col, row).push((n - 1) as u32)
    } else {
        touching(ranges, (n - 1) as nat, col, row)
    }
}

/// A coarse grid that lists, for each cell, the segments that touch it.
#[derive(Debug)]
pub struct SegGrid {
    cols: usize,
    rows: usize,
    cells: Vec<Vec<u32>>,
}

impl SegGrid {
    /// The number of columns.
    pub closed spec fn cols(self) -> int {
        self.cols as int
    }

    /// The number of rows.
    pub closed spec fn rows(self) -> int {
        self.rows as int
    }

    /// The list of a cell.
    pub closed spec fn cell(self, col: int, row: int) -> Seq<u32> {
        self.cells@[row * self.cols + col]@
    }

    /// One list for each cell.
    pub closed spec fn wf(self) -> bool {
        self.cells@.len() == self.cols * self.rows && self.cols <= 0x7fff_ffff && self.rows
            <= 0x7fff_ffff
    }

    /// Whether a cell is on the grid.
    pub open spec fn has(self, col: int, row: int) -> bool {
        0 <= col < self.cols() && 0 <= row < self.rows()
    }

    /// Registers every segment in the cells that it touches.
    pub fn build(cols: i32, rows: i32, ranges: &Vec<SegRange>) -> (r: SegGrid)
        requires
            1 <= cols,
            1 <= rows,
            cols * rows <= usize::MAX,
            ranges@.len() <= u32::MAX,
        ensures
            r.wf(),
            r.cols() == cols,
            r.rows() == rows,
            forall|col: int, row: int|
                r.has(col, row) ==> #[trigger] r.cell(col, row) == touching(
                    ranges@,
                    ranges@.len(),
                    col,
                    row,
                ),
    {
        let nc: usize = cols as usize;
        let nr: usize = rows as usize;
        assert(nc * nr == cols * rows);
        let total: usize = nc * nr;
        let mut cells: Vec<Vec<u32>> = Vec::new();
        while cells.len() < total
            invariant
                cells@.len() <= total,
                forall|k: int| 0 <= k < cells@.len() ==> (#[trigger] cells@[k])@ == Seq::<u32>::empty(),
            decreases total - cells.len(),
        {
            cells.push(Vec::new());
        }
        let mut grid: SegGrid = SegGrid { cols: nc, rows: nr, cells };
        proof {
            assert forall|col: int, row: int| grid.has(col, row) implies #[trigger] grid.cell(col, row)
                == touching(ranges@, 0, col, row) by {
                lemma_cell_place(nc as int, nr as int, col, row);
            }
        }
        let mut i: usize = 0;
        while i < ranges.len()
            invariant
                i <= ranges.len(),
                ranges@.len() <= u32::MAX,
                grid.wf(),
                grid.cols == nc,
                grid.rows == nr,
                nc == cols,
                nr == rows,
                1 <= cols,
                1 <= rows,
                forall|col: int, row: int|
                    grid.has(col, row) ==> #[trigger] grid.cell(col, row) == touching(
                        ranges@,
                        i as nat,
                        col,
                        row,
                    ),
            decreases ranges.len() - i,
        {
            grid.register(i as u32, ranges[i], Ghost(ranges@));
            i += 1;
        }
        grid
    }

    /// Adds segment `seg` to the cells of `range`.
    fn register(&mut self, seg: u32, range: SegRange, Ghost(ranges): Ghost<Seq<SegRange>>)
        requires
            old(self).wf(),
            1 <= old(self).cols,
            1 <= old(self).rows,
            seg < ranges.len(),
            ranges[seg as int] == range,
            forall|col: int, row: int|
                old(self).has(col, row) ==> #[trigger] old(self).cell(col, row) == touching(
                    ranges,
                    seg as nat,
                    col,
                    row,
                ),
        ensures
            final(self).wf(),
            final(self).cols == old(self).cols,
            final(self).rows == old(self).rows,
            forall|col: int, row: int|
                final(self).has(col, row) ==> #[trigger] final(self).cell(col, row) == touching(
                    ranges,
                    (seg + 1) as nat,
                    col,
                    row,
                ),
    {
        let nc: usize = self.cols;
        let nr: usize = self.rows;
        let c0: usize = if range.c0 < 0 {
            0
        } else {
            range.c0 as usize
        };
        let r0: usize = if range.r0 < 0 {
            0
        } else {
            range.r0 as usize
        };
        // One past the last column and row, clipped to the grid.
        let c1: usize = if range.c1 < 0 {
            0
        } else if range.c1 as usize >= nc {
            nc
        } else {
            range.c1 as usize + 1
        };
        let r1: usize = if range.r1 < 0 {
            0
        } else if range.r1 as usize >= nr {
            nr
        } else {
            range.r1 as usize + 1
        };
        let ghost start = *self;
        let ghost inside = |col: int, row: int| c0 <= col < c1 && r0 <= row < r1;
        proof {
            assert forall|col: int, row: int| start.has(col, row) implies (#[trigger] inside(col, row)
                <==> touches(range, col, row)) by {}
        }
        let mut row: usize = r0;
        while row < r1
            invariant
                r0 <= row,
                r0 <= r1 ==> row <= r1,
                r0 > r1 ==> row == r0,
                r1 <= nr,
                c1 <= nc,
                self.wf(),
                self.cols == nc,
                self.rows == nr,
                start.cols == nc,
                start.rows == nr,
                start.wf(),
                forall|c: int, r: int|
                    self.has(c, r) ==> #[trigger] self.cell(c, r) == (if c0 <= c < c1 && r0 <= r < row {
                        start.cell(c, r).push(seg)
                    } else {
                        start.cell(c, r)
                    }),
            decreases r1 - row,
        {
            let mut col: usize = c0;
            while col < c1
                invariant
                    row < r1,
                    r0 <= row,
                    c0 <= col,
                    c0 <= c1 ==> col <= c1,
                    c0 > c1 ==> col == c0,
                    r1 <= nr,
                    c1 <= nc,
                    self.wf(),
                    self.cols == nc,
                    self.rows == nr,
                    start.cols == nc,
                    start.rows == nr,
                    start.wf(),
                    forall|c: int, r: int|
                        self.has(c, r) ==> #[trigger] self.cell(c, r) == (if (c0 <= c < c1 && r0 <= r
                            < row) || (r == row && c0 <= c < col) {
                            start.cell(c, r).push(seg)
                        } else {
                            start.cell(c, r)
                        }),
                decreases c1 - col,
            {
                proof {
                    lemma_cell_place(nc as int, nr as int, col as int, row as int);
                    assert(self.has(col as int, row as int));
                }
                let ghost before = *self;
                let total: usize = self.cells.len();
                assert(row * nc + col < total);
                let k: usize = row * nc + col;
                let mut list: Vec<u32> = Vec::new();
                std::mem::swap(&mut list, &mut self.cells[k]);
                list.push(seg);
                self.cells[k] = list;
                proof {
                    assert forall|c: int, r: int| self.has(c, r) implies #[trigger] self.cell(c, r) == (if (
                    c0 <= c < c1 && r0 <= r < row) || (r == row && c0 <= c < col + 1) {
                        start.cell(c, r).push(seg)
                    } else {
                        start.cell(c, r)
                    }) by {
                        assert(before.has(c, r));
                        lemma_cell_place(nc as int, nr as int, c, r);
                        lemma_cells_apart(nc as int, c, r, col as int, row as int);
                        if c == col && r == row {
                            assert(before.cell(c, r) == start.cell(c, r));
                        } else {
                            assert(self.cell(c, r) == before.cell(c, r));
                        }
                    }
                }
                col += 1;
            }
            proof {
                assert forall|c: int, r: int| self.has(c, r) implies #[trigger] self.cell(c, r) == (if c0
                    <= c < c1 && r0 <= r < row + 1 {
                    start.cell(c, r).push(seg)
                } else {
                    start.cell(c, r)
                }) by {
                    assert(c0 <= c < c1 ==> col == c1);
                }
            }
            row += 1;
        }
        proof {
            assert forall|c: int, r: int| self.has(c, r) implies #[trigger] self.cell(c, r) == touching(
                ranges,
                (seg + 1) as nat,
                c,
                r,
            ) by {
                assert(start.has(c, r));
                assert(inside(c, r) <==> touches(range, c, r));
                assert(r0 <= r < r1 ==> row == r1);
                assert(start.cell(c, r) == touching(ranges, seg as nat, c, r));
                let n: nat = (seg + 1) as nat;
                assert((n - 1) as nat == seg as nat);
                assert((n - 1) as u32 == seg);
            }
        }
    }

    /// The segments that touch a cell; none off the grid.
    pub fn at(&self, col: i32, row: i32) -> (r: Vec<u32>)
        requires
            self.wf(),
        ensures
            r@ == (if self.has(col as int, row as int) {
                self.cell(col as int, row as int)
            } else {
                Seq::empty()
            }),
    {
        if col < 0 || row < 0 || col as usize >= self.cols || row as usize >= self.rows {
            return Vec::new();
        }
        proof {
            lemma_cell_place(self.cols as int, self.rows as int, col as int, row as int);
        }
        let total: usize = self.cells.len();
        let c: usize = col as usize;
        let r: usize = row as usize;
        assert(r * self.cols + c < total);
        crate::element::copy_list(&self.cells[r * self.cols + c])
    }
}

proof fn lemma_cell_place(nc: int, nr: int, col: int, row: int)
    requires
        0 <= col < nc,
        0 <= row < nr,
    ensures
        0 <= row * nc,
        0 <= row * nc + col < nc * nr,
{
    assert(0 <= row * nc && row * nc + col < nc * nr) by (nonlinear_arith)
        requires
            0 <= col < nc,
            0 <= row < nr,
    ;
}

proof fn lemma_cells_apart(nc: int, c1: int, r1: int, c2: int, r2: int)
    requires
        0 <= c1 < nc,
        0 <= c2 < nc,
    ensures
        r1 * nc + c1 == r2 * nc + c2 ==> c1 == c2 && r1 == r2,
{
    if r1 * nc + c1 == r2 * nc + c2 {
        assert(r1 == r2) by (nonlinear_arith)
            requires
                0 <= c1 < nc,
                0 <= c2 < nc,
                r1 * nc + c1 == r2 * nc + c2,
        ;
    }
}

} // verus!
