//! The text grid: 25 rows of 80 cells, each cell a volatile 16-bit word laid
//! out as the hardware expects (glyph in the low byte, color in the high byte).
use crate::color::ColorCode;
use vstd::prelude::*;

verus! {

/// Number of rows on the screen.
pub const BUFFER_HEIGHT: usize = 25;

/// Number of columns on the screen.
pub const BUFFER_WIDTH: usize = 80;

#[verifier::external_type_specification]
#[verifier::external_body]
#[verifier::reject_recursive_types(T)]
pub struct ExVolatile<T: Copy>(volatile::Volatile<T>);

/// The value held by a volatile cell.
pub uninterp spec fn cell_contents(c: volatile::Volatile<u16>) -> u16;

/// Relies on volatile::Volatile::new: the new cell holds `v`.
#[verifier::external_body]
fn new_cell(v: u16) -> (r: volatile::Volatile<u16>)
    ensures
        cell_contents(r) == v,
{
    volatile::Volatile::new(v)
}

/// Relies on volatile::Volatile::read: a volatile read of the held value.
#[verifier::external_body]
fn read_cell(c: &volatile::Volatile<u16>) -> (r: u16)
    ensures
        r == cell_contents(*c),
{
    c.read()
}

/// Relies on volatile::Volatile::write: a volatile write that replaces the held value.
#[verifier::external_body]
fn write_cell(c: &mut volatile::Volatile<u16>, v: u16)
    ensures
        cell_contents(*final(c)) == v,
{
    c.write(v)
}

/// One character position: a glyph byte and its packed colors.
#[derive(Debug, Clone, Copy, PartialEq, Eq, Structural)]
pub struct ScreenChar {
    pub ascii_character: u8,
    pub color_code: ColorCode,
}

/// The 16-bit word of a cell: glyph in the low byte, color in the high byte.
pub open spec fn raw_of(c: ScreenChar) -> u16 {
    (c.ascii_character as u16 + 256 * (c.color_code.0 as u16)) as u16
}

/// The cell that a 16-bit word encodes.
pub open spec fn char_of(w: u16) -> ScreenChar {
    ScreenChar { ascii_character: (w % 256) as u8, color_code: ColorCode((w / 256) as u8) }
}

impl ScreenChar {
    /// Encodes the cell as the hardware word.
    pub fn to_raw(self) -> (r: u16)
        ensures
            r == raw_of(self),
            char_of(r) == self,
    {
        let g = self.ascii_character as u16;
        let c = self.color_code.0 as u16;
        let r: u16 = g | (c << 8u16);
        assert(r == g + 256 * c && r % 256 == g && r / 256 == c) by (bit_vector)
            requires
                r == g | (c << 8u16),
                g < 256,
                c < 256,
        ;
        r
    }

    /// Decodes a hardware word.
    pub fn from_raw(w: u16) -> (r: ScreenChar)
        ensures
            r == char_of(w),
    {
        let g: u16 = w & 0xffu16;
        let c: u16 = w >> 8u16;
        assert(g == w % 256 && c == w / 256) by (bit_vector)
            requires
                g == w & 0xffu16,
                c == w >> 8u16,
        ;
        ScreenChar { ascii_character: g as u8, color_code: ColorCode(c as u8) }
    }
}

/// Index of the cell at `(row, col)` in row-major order.
pub open spec fn cell_index(row: int, col: int) -> int {
    row * BUFFER_WIDTH + col
}

/// `g` has `BUFFER_HEIGHT` rows of `BUFFER_WIDTH` cells each.
pub open spec fn grid_shaped(g: Seq<Seq<ScreenChar>>) -> bool {
    &&& g.len() == BUFFER_HEIGHT
    &&& forall|i: int| 0 <= i < BUFFER_HEIGHT ==> (#[trigger] g[i]).len() == BUFFER_WIDTH
}

/// The display grid. Every access to a cell is a volatile read or write.
pub struct Buffer {
    chars: Vec<volatile::Volatile<u16>>,
}

impl Buffer {
    /// The grid holds exactly `BUFFER_HEIGHT * BUFFER_WIDTH` cells.
    pub closed spec fn wf(&self) -> bool {
        self.chars@.len() == BUFFER_HEIGHT * BUFFER_WIDTH
    }

    /// The grid as rows of cells.
    pub closed spec fn rows(&self) -> Seq<Seq<ScreenChar>> {
        Seq::new(
            BUFFER_HEIGHT as nat,
            |r: int|
                Seq::new(
                    BUFFER_WIDTH as nat,
                    |c: int| char_of(cell_contents(self.chars@[cell_index(r, c)])),
                ),
        )
    }

    /// The grid has `BUFFER_HEIGHT` rows of `BUFFER_WIDTH` cells.
    pub proof fn lemma_shape(&self)
        ensures
            grid_shaped(self.rows()),
    {
    }

    /// A grid whose every cell is `fill`.
    pub fn new(fill: ScreenChar) -> (r: Buffer)
        ensures
            r.wf(),
            forall|i: int, j: int|
                0 <= i < BUFFER_HEIGHT && 0 <= j < BUFFER_WIDTH ==> #[trigger] r.rows()[i][j]
                    == fill,
    {
        let w = fill.to_raw();
        let mut chars: Vec<volatile::Volatile<u16>> = Vec::new();
        let n: usize = BUFFER_HEIGHT * BUFFER_WIDTH;
        let mut k: usize = 0;
        while k < n
            invariant
                n == BUFFER_HEIGHT * BUFFER_WIDTH,
                k <= n,
                chars@.len() == k,
                forall|i: int| 0 <= i < k ==> cell_contents(#[trigger] chars@[i]) == w,
            decreases n - k,
        {
            chars.push(new_cell(w));
            k += 1;
        }
        let b = Buffer { chars };
        assert forall|i: int, j: int|
            0 <= i < BUFFER_HEIGHT && 0 <= j < BUFFER_WIDTH implies #[trigger] b.rows()[i][j]
                == fill by {
            assert(0 <= cell_index(i, j) < n);
        }
        b
    }

    /// Reads the cell at `(row, col)`.
    pub fn read(&self, row: usize, col: usize) -> (r: ScreenChar)
        requires
            self.wf(),
            row < BUFFER_HEIGHT,
            col < BUFFER_WIDTH,
        ensures
            r == self.rows()[row as int][col as int],
    {
        ScreenChar::from_raw(read_cell(&self.chars[row * BUFFER_WIDTH + col]))
    }

    /// Writes `ch` into the cell at `(row, col)`; every other cell keeps its value.
    pub fn write(&mut self, row: usize, col: usize, ch: ScreenChar)
        requires
            old(self).wf(),
            row < BUFFER_HEIGHT,
            col < BUFFER_WIDTH,
        ensures
            final(self).wf(),
            final(self).rows() == old(self).rows().update(
                row as int,
                old(self).rows()[row as int].update(col as int, ch),
            ),
    {
        let w = ch.to_raw();
        let k = row * BUFFER_WIDTH + col;
        write_cell(&mut self.chars[k], w);
        let ghost new_rows = old(self).rows().update(
            row as int,
            old(self).rows()[row as int].update(col as int, ch),
        );
        assert forall|i: int| 0 <= i < BUFFER_HEIGHT implies #[trigger] self.rows()[i]
            == new_rows[i] by {
            assert forall|j: int| 0 <= j < BUFFER_WIDTH implies #[trigger] self.rows()[i][j]
                == new_rows[i][j] by {
                assert(0 <= cell_index(i, j) < BUFFER_HEIGHT * BUFFER_WIDTH);
            }
            assert(self.rows()[i] =~= new_rows[i]);
        }
        assert(self.rows() =~= new_rows);
    }
}

} // verus!
