//! The ground grid: a `width x height` occupancy-and-color grid together
//! with its flattened RGBA8 pixel-buffer mirror. The grid is the single
//! source of truth for "is this cell solid, and what color"; every cell
//! mutation immediately mirrors the same four bytes into the buffer.

use vstd::prelude::*;

use crate::color::white_spec;
use crate::color::QuantizedColor;

verus! {

/// Fixed-point scale: one grid cell spans `SCALE` subcell units, so a
/// continuous coordinate `x` is carried as the integer `x * SCALE`.
pub const SCALE: i64 = 65536;

/// Number of bottom rows preset to solid white at creation.
pub const FLOOR_ROWS: usize = 10;

/// Grid dimensions stay below this bound so that cell coordinates in
/// `SCALE` subcell units fit comfortably in `i64` arithmetic.
pub const MAX_DIM: usize = 0x7fff_ffff;

/// One cell of the ground grid: either free space or solid painted ground.
#[derive(Clone, Copy, Debug, PartialEq, Eq, Structural)]
pub enum Cell {
    Empty,
    Solid(QuantizedColor),
}

/// The red byte a cell contributes to the pixel buffer.
pub open spec fn cell_r(c: Cell) -> u8 {
    match c {
        Cell::Empty => 0,
        Cell::Solid(q) => q.r,
    }
}

/// The green byte a cell contributes to the pixel buffer.
pub open spec fn cell_g(c: Cell) -> u8 {
    match c {
        Cell::Empty => 0,
        Cell::Solid(q) => q.g,
    }
}

/// The blue byte a cell contributes to the pixel buffer.
pub open spec fn cell_b(c: Cell) -> u8 {
    match c {
        Cell::Empty => 0,
        Cell::Solid(q) => q.b,
    }
}

/// The pixel buffer mirrors the cells byte for byte: four bytes per cell,
/// row-major, `Empty` as opaque black and `Solid` as the stored RGB, with
/// alpha always 255.
pub open spec fn mirrors(cells: Seq<Cell>, buf: Seq<u8>) -> bool {
    &&& buf.len() == 4 * cells.len()
    &&& forall|i: int|
        0 <= i < cells.len() ==> {
            &&& buf[4 * i] == cell_r(#[trigger] cells[i])
            &&& buf[4 * i + 1] == cell_g(cells[i])
            &&& buf[4 * i + 2] == cell_b(cells[i])
            &&& buf[4 * i + 3] == 255u8
        }
}

/// Converting a continuous grid-local position (in `SCALE` subcell units)
/// to a flat cell index: `None` iff the position lies left of, below, or
/// past the grid; otherwise `floor(y) * width + floor(x)`.
pub open spec fn cell_index(width: int, height: int, x: int, y: int) -> Option<int> {
    if 0 <= x && 0 <= y && x / (SCALE as int) < width && y / (SCALE as int) < height {
        Some((y / (SCALE as int)) * width + x / (SCALE as int))
    } else {
        None
    }
}

/// The cells after painting cell `i` with color `c`.
pub open spec fn paint_cells(cells: Seq<Cell>, i: int, c: QuantizedColor) -> Seq<Cell> {
    cells.update(i, Cell::Solid(c))
}

/// The pixel buffer after painting cell `i` with color `c`.
pub open spec fn paint_buffer(buf: Seq<u8>, i: int, c: QuantizedColor) -> Seq<u8> {
    buf.update(4 * i, c.r).update(4 * i + 1, c.g).update(4 * i + 2, c.b).update(4 * i + 3, 255u8)
}

/// The terrain state: occupancy-and-color cells plus the RGBA8 mirror.
pub struct GroundGrid {
    pub width: usize,
    pub height: usize,
    pub cells: Vec<Cell>,
    pub buffer: Vec<u8>,
}

impl GroundGrid {
    /// Well-formedness: positive dimensions small enough for fixed-point
    /// index arithmetic, exactly `width * height` cells, and a pixel
    /// buffer synchronized byte for byte with the cells.
    pub open spec fn wf(&self) -> bool {
        &&& 1 <= self.width <= MAX_DIM
        &&& 1 <= self.height <= MAX_DIM
        &&& self.cells@.len() == self.width * self.height
        &&& mirrors(self.cells@, self.buffer@)
    }

    /// Allocates an all-`Empty` grid, presets the bottom `FLOOR_ROWS`
    /// rows to solid white, and builds the mirrored pixel buffer.
    pub fn new(width: usize, height: usize) -> (g: GroundGrid)
        requires
            1 <= width <= MAX_DIM,
            FLOOR_ROWS <= height <= MAX_DIM,
            width * height * 4 <= usize::MAX,
        ensures
            g.wf(),
            g.width == width,
            g.height == height,
            forall|i: int|
                0 <= i < width * height ==> #[trigger] g.cells@[i] == if i < FLOOR_ROWS * width {
                    Cell::Solid(white_spec())
                } else {
                    Cell::Empty
                },
    {
        let size = width * height;
        let mut cells: Vec<Cell> = Vec::new();
        let mut i: usize = 0;
        while i < size
            invariant
                i <= size,
                size == width * height,
                cells@.len() == i,
                forall|k: int| 0 <= k < i ==> cells@[k] == Cell::Empty,
            decreases size - i,
        {
            cells.push(Cell::Empty);
            i = i + 1;
        }
        assert(FLOOR_ROWS * width <= size) by (nonlinear_arith)
            requires
                size == width * height,
                FLOOR_ROWS <= height,
                0 <= width,
        ;
        let floor_cells = FLOOR_ROWS * width;
        let mut j: usize = 0;
        while j < floor_cells
            invariant
                j <= floor_cells,
                floor_cells <= size,
                cells@.len() == size,
                forall|k: int| 0 <= k < j ==> cells@[k] == Cell::Solid(white_spec()),
                forall|k: int| j <= k < size ==> cells@[k] == Cell::Empty,
            decreases floor_cells - j,
        {
            cells[j] = Cell::Solid(QuantizedColor::white());
            j = j + 1;
        }
        let buffer = bitmap_to_bytes(&cells);
        GroundGrid { width, height, cells, buffer }
    }

    /// Converts a continuous grid-local position (in `SCALE` subcell
    /// units) to a flat cell index, or `None` when out of range.
    pub fn index_of(&self, x: i64, y: i64) -> (r: Option<usize>)
        requires
            self.wf(),
        ensures
            match r {
                Some(i) => cell_index(self.width as int, self.height as int, x as int, y as int)
                    == Some(i as int) && i < self.width * self.height,
                None => cell_index(self.width as int, self.height as int, x as int, y as int)
                    is None,
            },
    {
        if x >= 0 && y >= 0 {
            let cx: i64 = x / SCALE;
            let cy: i64 = y / SCALE;
            if cx < self.width as i64 && cy < self.height as i64 {
                let cell_count = self.cells.len();
                proof {
                    assert((cy as int) * (self.width as int) + (cx as int) < self.width
                        * self.height) by (nonlinear_arith)
                        requires
                            0 <= cx < self.width as int,
                            0 <= cy < self.height as int,
                            1 <= self.width,
                            1 <= self.height,
                    ;
                    assert(self.width * self.height == cell_count);
                }
                let index = (cy as usize) * self.width + (cx as usize);
                Some(index)
            } else {
                None
            }
        } else {
            None
        }
    }

    /// Whether the cell at `index` is solid ground.
    pub fn is_solid(&self, index: usize) -> (r: bool)
        requires
            self.wf(),
            index < self.width * self.height,
        ensures
            r == (self.cells@[index as int] is Solid),
    {
        match self.cells[index] {
            Cell::Empty => false,
            Cell::Solid(_) => true,
        }
    }

    /// Sets the cell at `index` to `Solid(color)` and mirrors the four
    /// corresponding bytes into the pixel buffer (alpha always 255), in
    /// one step: no reader ever observes the cell updated with a stale
    /// buffer color. Painting an already-solid cell overwrites its color.
    pub fn paint(&mut self, index: usize, color: QuantizedColor)
        requires
            old(self).wf(),
            index < old(self).width * old(self).height,
        ensures
            final(self).wf(),
            final(self).width == old(self).width,
            final(self).height == old(self).height,
            final(self).cells@ == paint_cells(old(self).cells@, index as int, color),
            final(self).buffer@ == paint_buffer(old(self).buffer@, index as int, color),
            final(self).cells@[index as int] == Cell::Solid(color),
            final(self).buffer@[4 * index as int] == color.r,
            final(self).buffer@[4 * index as int + 1] == color.g,
            final(self).buffer@[4 * index as int + 2] == color.b,
            final(self).buffer@[4 * index as int + 3] == 255u8,
    {
        self.cells[index] = Cell::Solid(color);
        let buffer_len = self.buffer.len();
        assert(4 * index as int + 3 < buffer_len);
        let base = 4 * index;
        self.buffer[base] = color.r;
        self.buffer[base + 1] = color.g;
        self.buffer[base + 2] = color.b;
        self.buffer[base + 3] = 255;
        assert(mirrors(self.cells@, self.buffer@)) by {
            assert(forall|i: int|
                0 <= i < self.cells@.len() && i != index ==> #[trigger] self.cells@[i] == old(
                    self,
                ).cells@[i]);
        }
    }
}

/// Law: after painting cell `i` with color `c`, that cell is solid and
/// the mirrored pixel buffer's four bytes at offset `4 * i` are exactly
/// `(c.r, c.g, c.b, 255)`.
pub proof fn lemma_paint_then_solid(cells: Seq<Cell>, buf: Seq<u8>, i: int, c: QuantizedColor)
    requires
        0 <= i < cells.len(),
        buf.len() == 4 * cells.len(),
    ensures
        paint_cells(cells, i, c)[i] is Solid,
        paint_cells(cells, i, c)[i]->Solid_0 == c,
        paint_buffer(buf, i, c)[4 * i] == c.r,
        paint_buffer(buf, i, c)[4 * i + 1] == c.g,
        paint_buffer(buf, i, c)[4 * i + 2] == c.b,
        paint_buffer(buf, i, c)[4 * i + 3] == 255u8,
{
}

/// Law: the cell-index mapping is injective on in-range positions. Two
/// positions that map to the same flat index lie in the same cell, that
/// is, they agree on `floor(x)` and `floor(y)`.
pub proof fn lemma_index_of_injective(width: int, height: int, x1: int, y1: int, x2: int, y2: int)
    requires
        1 <= width,
        1 <= height,
        cell_index(width, height, x1, y1) is Some,
        cell_index(width, height, x1, y1) == cell_index(width, height, x2, y2),
    ensures
        x1 / (SCALE as int) == x2 / (SCALE as int),
        y1 / (SCALE as int) == y2 / (SCALE as int),
{
    let s = SCALE as int;
    let cx1 = x1 / s;
    let cy1 = y1 / s;
    let cx2 = x2 / s;
    let cy2 = y2 / s;
    assert(0 <= cx1 && 0 <= cy1 && 0 <= cx2 && 0 <= cy2) by (nonlinear_arith)
        requires
            0 <= x1 && 0 <= y1 && 0 <= x2 && 0 <= y2,
            cx1 == x1 / s && cy1 == y1 / s && cx2 == x2 / s && cy2 == y2 / s,
            s == SCALE as int,
    ;
    let i = cy1 * width + cx1;
    vstd::arithmetic::div_mod::lemma_fundamental_div_mod_converse(i, width, cy1, cx1);
    vstd::arithmetic::div_mod::lemma_fundamental_div_mod_converse(i, width, cy2, cx2);
}

/// Law: painting is idempotent. Painting the same cell with the same
/// color twice leaves the cells and the pixel buffer exactly as a single
/// paint does.
pub proof fn lemma_paint_idempotent(cells: Seq<Cell>, buf: Seq<u8>, i: int, c: QuantizedColor)
    requires
        0 <= i < cells.len(),
        buf.len() == 4 * cells.len(),
    ensures
        paint_cells(paint_cells(cells, i, c), i, c) == paint_cells(cells, i, c),
        paint_buffer(paint_buffer(buf, i, c), i, c) == paint_buffer(buf, i, c),
{
    assert(paint_cells(paint_cells(cells, i, c), i, c) =~= paint_cells(cells, i, c));
    assert(paint_buffer(paint_buffer(buf, i, c), i, c) =~= paint_buffer(buf, i, c));
}

/// Flattens a cell bitmap into RGBA8 bytes, four per cell, row-major:
/// `Empty` becomes opaque black, `Solid` the stored RGB, alpha always 255.
pub fn bitmap_to_bytes(cells: &Vec<Cell>) -> (bytes: Vec<u8>)
    requires
        cells@.len() * 4 <= usize::MAX,
    ensures
        mirrors(cells@, bytes@),
{
    let n = cells.len();
    let mut bytes: Vec<u8> = Vec::new();
    let mut i: usize = 0;
    while i < n
        invariant
            i <= n,
            n == cells@.len(),
            n * 4 <= usize::MAX,
            bytes@.len() == 4 * i,
            forall|k: int|
                0 <= k < i ==> {
                    &&& bytes@[4 * k] == cell_r(#[trigger] cells@[k])
                    &&& bytes@[4 * k + 1] == cell_g(cells@[k])
                    &&& bytes@[4 * k + 2] == cell_b(cells@[k])
                    &&& bytes@[4 * k + 3] == 255u8
                },
        decreases n - i,
    {
        assert(4 * (i + 1) <= 4 * n <= usize::MAX) by (nonlinear_arith)
            requires
                i < n,
                n * 4 <= usize::MAX,
        ;
        match cells[i] {
            Cell::Empty => {
                bytes.push(0);
                bytes.push(0);
                bytes.push(0);
                bytes.push(255);
            },
            Cell::Solid(q) => {
                bytes.push(q.r);
                bytes.push(q.g);
                bytes.push(q.b);
                bytes.push(255);
            },
        }
        i = i + 1;
    }
    bytes
}

} // verus!
