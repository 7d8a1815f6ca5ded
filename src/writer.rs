//! The writer: a cursor on the bottom row, with write and scroll logic.
use crate::buffer::{grid_shaped, Buffer, ScreenChar, BUFFER_HEIGHT, BUFFER_WIDTH};
use crate::color::ColorCode;
use vstd::prelude::*;
use vstd::string::StringSliceAdditionalSpecFns;

verus! {

/// The glyph that stands for bytes outside printable ASCII.
pub const PLACEHOLDER_GLYPH: u8 = 0xfe;

/// A space in the given colors.
pub open spec fn blank(color: ColorCode) -> ScreenChar {
    ScreenChar { ascii_character: 0x20, color_code: color }
}

/// A row of blanks in the given colors.
pub open spec fn blank_row(color: ColorCode) -> Seq<ScreenChar> {
    Seq::new(BUFFER_WIDTH as nat, |_j: int| blank(color))
}

/// The grid after one line of scrolling: every row moves up by one, the top
/// row is lost and the bottom row becomes blank.
pub open spec fn scrolled(rows: Seq<Seq<ScreenChar>>, color: ColorCode) -> Seq<Seq<ScreenChar>> {
    rows.subrange(1, BUFFER_HEIGHT as int).push(blank_row(color))
}

/// Printable ASCII: `0x20..=0x7e`.
pub open spec fn is_printable(b: u8) -> bool {
    0x20 <= b <= 0x7e
}

/// The glyph stored for a byte other than newline.
pub open spec fn stored_glyph(b: u8) -> u8 {
    if is_printable(b) {
        b
    } else {
        PLACEHOLDER_GLYPH
    }
}

/// Grid and column after writing one byte at column `col` of the bottom row.
pub open spec fn put_byte(rows: Seq<Seq<ScreenChar>>, col: int, color: ColorCode, b: u8) -> (
    Seq<Seq<ScreenChar>>,
    int,
) {
    if b == 0x0a {
        (scrolled(rows, color), 0)
    } else {
        let rows1 = if col >= BUFFER_WIDTH {
            scrolled(rows, color)
        } else {
            rows
        };
        let c1 = if col >= BUFFER_WIDTH {
            0
        } else {
            col
        };
        let bottom = BUFFER_HEIGHT - 1;
        (
            rows1.update(
                bottom,
                rows1[bottom].update(c1, ScreenChar { ascii_character: stored_glyph(b), color_code: color }),
            ),
            c1 + 1,
        )
    }
}

/// Grid and column after writing the bytes `bs` one by one.
pub open spec fn put_bytes(rows: Seq<Seq<ScreenChar>>, col: int, color: ColorCode, bs: Seq<u8>) -> (
    Seq<Seq<ScreenChar>>,
    int,
)
    decreases bs.len(),
{
    if bs.len() == 0 {
        (rows, col)
    } else {
        let prev = put_bytes(rows, col, color, bs.drop_last());
        put_byte(prev.0, prev.1, color, bs.last())
    }
}

/// Writes text on the bottom row of a display grid, scrolling when a line ends.
pub struct Writer {
    column_position: usize,
    color_code: ColorCode,
    buffer: Buffer,
}

impl Writer {
    /// The cursor column is within the row and the grid is whole.
    pub closed spec fn wf(&self) -> bool {
        &&& self.buffer.wf()
        &&& self.column_position <= BUFFER_WIDTH
    }

    /// The displayed grid.
    pub closed spec fn rows(&self) -> Seq<Seq<ScreenChar>> {
        self.buffer.rows()
    }

    /// The column where the next byte lands on the bottom row.
    pub closed spec fn column(&self) -> int {
        self.column_position as int
    }

    /// The colors of the cells written next.
    pub closed spec fn color(&self) -> ColorCode {
        self.color_code
    }

    /// A well-formed writer has a full grid and a column in `0..=BUFFER_WIDTH`.
    pub proof fn lemma_wf(&self)
        requires
            self.wf(),
        ensures
            grid_shaped(self.rows()),
            0 <= self.column() <= BUFFER_WIDTH,
    {
        self.buffer.lemma_shape();
    }

    /// A writer at column 0 over a grid of blanks in `color_code`.
    pub fn new(color_code: ColorCode) -> (r: Writer)
        ensures
            r.wf(),
            grid_shaped(r.rows()),
            r.column() == 0,
            r.color() == color_code,
            forall|i: int, j: int|
                0 <= i < BUFFER_HEIGHT && 0 <= j < BUFFER_WIDTH ==> #[trigger] r.rows()[i][j]
                    == blank(color_code),
    {
        let buffer = Buffer::new(ScreenChar { ascii_character: 0x20u8, color_code });
        proof {
            buffer.lemma_shape();
        }
        Writer { column_position: 0, color_code, buffer }
    }

    /// The column where the next byte lands.
    pub fn column_position(&self) -> (r: usize)
        ensures
            r == self.column(),
    {
        self.column_position
    }

    /// The colors of the cells written next.
    pub fn color_code(&self) -> (r: ColorCode)
        ensures
            r == self.color(),
    {
        self.color_code
    }

    /// Reads back the cell at `(row, col)`.
    pub fn read_char(&self, row: usize, col: usize) -> (r: ScreenChar)
        requires
            self.wf(),
            row < BUFFER_HEIGHT,
            col < BUFFER_WIDTH,
        ensures
            r == self.rows()[row as int][col as int],
    {
        self.buffer.read(row, col)
    }

    /// Fills row `row` with blanks in the current colors.
    fn clear_row(&mut self, row: usize)
        requires
            old(self).wf(),
            row < BUFFER_HEIGHT,
        ensures
            final(self).wf(),
            final(self).rows() == old(self).rows().update(row as int, blank_row(old(self).color())),
            final(self).column() == old(self).column(),
            final(self).color() == old(self).color(),
    {
        let ghost g0 = self.buffer.rows();
        proof {
            self.buffer.lemma_shape();
        }
        let blank_char = ScreenChar { ascii_character: 0x20u8, color_code: self.color_code };
        let mut col: usize = 0;
        while col < BUFFER_WIDTH
            invariant
                row < BUFFER_HEIGHT,
                col <= BUFFER_WIDTH,
                self.wf(),
                self.column_position == old(self).column_position,
                self.color_code == old(self).color_code,
                blank_char == blank(self.color_code),
                g0 == old(self).rows(),
                grid_shaped(g0),
                self.rows().len() == BUFFER_HEIGHT,
                self.rows()[row as int].len() == BUFFER_WIDTH,
                forall|i: int| 0 <= i < BUFFER_HEIGHT && i != row ==> #[trigger] self.rows()[i] == g0[i],
                forall|j: int| 0 <= j < col ==> #[trigger] self.rows()[row as int][j] == blank_char,
                forall|j: int| col <= j < BUFFER_WIDTH ==> #[trigger] self.rows()[row as int][j] == g0[row as int][j],
            decreases BUFFER_WIDTH - col,
        {
            proof {
                self.buffer.lemma_shape();
            }
            self.buffer.write(row, col, blank_char);
            col += 1;
        }
        assert(self.rows()[row as int] =~= blank_row(self.color_code));
        assert(self.rows() =~= g0.update(row as int, blank_row(self.color_code)));
    }
    /// Scrolls one line: row `r` moves to row `r - 1` for each `r` in
    /// `1..BUFFER_HEIGHT`, the bottom row becomes blank in the current colors,
    /// and the cursor returns to column 0.
    fn new_line(&mut self)
        requires
            old(self).wf(),
        ensures
            final(self).wf(),
            final(self).rows() == scrolled(old(self).rows(), old(self).color()),
            final(self).column() == 0,
            final(self).color() == old(self).color(),
    {
        let ghost g0 = self.buffer.rows();
        proof {
            self.buffer.lemma_shape();
        }
        let mut row: usize = 1;
        while row < BUFFER_HEIGHT
            invariant
                1 <= row <= BUFFER_HEIGHT,
                self.wf(),
                self.color_code == old(self).color_code,
                g0 == old(self).rows(),
                grid_shaped(g0),
                grid_shaped(self.rows()),
                forall|i: int| 0 <= i < row - 1 ==> #[trigger] self.rows()[i] == g0[i + 1],
                forall|i: int| row - 1 <= i < BUFFER_HEIGHT ==> #[trigger] self.rows()[i] == g0[i],
            decreases BUFFER_HEIGHT - row,
        {
            let mut col: usize = 0;
            while col < BUFFER_WIDTH
                invariant
                    1 <= row < BUFFER_HEIGHT,
                    col <= BUFFER_WIDTH,
                    self.wf(),
                    self.color_code == old(self).color_code,
                    g0 == old(self).rows(),
                    grid_shaped(g0),
                    grid_shaped(self.rows()),
                    forall|i: int| 0 <= i < row - 1 ==> #[trigger] self.rows()[i] == g0[i + 1],
                    forall|i: int| row <= i < BUFFER_HEIGHT ==> #[trigger] self.rows()[i] == g0[i],
                    forall|j: int| 0 <= j < col ==> #[trigger] self.rows()[row - 1][j] == g0[row as int][j],
                    forall|j: int| col <= j < BUFFER_WIDTH ==> #[trigger] self.rows()[row - 1][j] == g0[row - 1][j],
                decreases BUFFER_WIDTH - col,
            {
                let ch = self.buffer.read(row, col);
                self.buffer.write(row - 1, col, ch);
                proof {
                    self.buffer.lemma_shape();
                }
                col += 1;
            }
            assert(self.rows()[row - 1] =~= g0[row as int]);
            row += 1;
        }
        self.clear_row(BUFFER_HEIGHT - 1);
        self.column_position = 0;
        proof {
            self.buffer.lemma_shape();
        }
        assert(self.rows() =~= scrolled(g0, self.color_code));
    }

    /// Writes one byte. A newline scrolls one line. Any other byte lands at the
    /// cursor on the bottom row, after a scroll when the row is full: printable
    /// ASCII as itself, every other byte as `PLACEHOLDER_GLYPH`.
    pub fn write_byte(&mut self, byte: u8)
        requires
            old(self).wf(),
        ensures
            final(self).wf(),
            (final(self).rows(), final(self).column()) == put_byte(
                old(self).rows(),
                old(self).column(),
                old(self).color(),
                byte,
            ),
            final(self).color() == old(self).color(),
    {
        if byte == 0x0au8 {
            self.new_line();
        } else {
            let glyph: u8 = if 0x20u8 <= byte && byte <= 0x7eu8 {
                byte
            } else {
                PLACEHOLDER_GLYPH
            };
            if self.column_position >= BUFFER_WIDTH {
                self.new_line();
            }
            proof {
                self.buffer.lemma_shape();
            }
            let row = BUFFER_HEIGHT - 1;
            let col = self.column_position;
            let color_code = self.color_code;
            self.buffer.write(row, col, ScreenChar { ascii_character: glyph, color_code });
            self.column_position += 1;
        }
    }
    /// Writes each byte of `s` in turn with `write_byte`. Bytes are not decoded
    /// into characters: each byte of a multi-byte character is placed on its own.
    pub fn write_string(&mut self, s: &str)
        requires
            old(self).wf(),
        ensures
            final(self).wf(),
            (final(self).rows(), final(self).column()) == put_bytes(
                old(self).rows(),
                old(self).column(),
                old(self).color(),
                s.spec_bytes(),
            ),
            final(self).color() == old(self).color(),
    {
        let bytes = s.as_bytes();
        let mut i: usize = 0;
        assert(bytes@.subrange(0, 0) =~= Seq::<u8>::empty());
        while i < bytes.len()
            invariant
                self.wf(),
                self.color() == old(self).color(),
                i <= bytes@.len(),
                bytes@ == s.spec_bytes(),
                (self.rows(), self.column()) == put_bytes(
                    old(self).rows(),
                    old(self).column(),
                    old(self).color(),
                    bytes@.subrange(0, i as int),
                ),
            decreases bytes@.len() - i,
        {
            self.write_byte(bytes[i]);
            assert(bytes@.subrange(0, i + 1).drop_last() =~= bytes@.subrange(0, i as int));
            i += 1;
        }
        assert(bytes@.subrange(0, bytes@.len() as int) =~= bytes@);
    }
}

/// Writes the rendered text of one formatted print call. The caller holds the
/// writer exclusively for the whole call, so the text lands contiguously.
pub fn _print(writer: &mut Writer, text: &str)
    requires
        old(writer).wf(),
    ensures
        final(writer).wf(),
        (final(writer).rows(), final(writer).column()) == put_bytes(
            old(writer).rows(),
            old(writer).column(),
            old(writer).color(),
            text.spec_bytes(),
        ),
        final(writer).color() == old(writer).color(),
{
    writer.write_string(text);
}

/// Writing `a` and then `b` leaves the same grid and column as writing
/// `a + b` at once: two consecutive print calls render contiguously.
pub proof fn lemma_put_bytes_append(
    rows: Seq<Seq<ScreenChar>>,
    col: int,
    color: ColorCode,
    a: Seq<u8>,
    b: Seq<u8>,
)
    ensures
        put_bytes(rows, col, color, a + b) == put_bytes(
            put_bytes(rows, col, color, a).0,
            put_bytes(rows, col, color, a).1,
            color,
            b,
        ),
    decreases b.len(),
{
    if b.len() == 0 {
        assert(a + b =~= a);
    } else {
        lemma_put_bytes_append(rows, col, color, a, b.drop_last());
        assert((a + b).drop_last() =~= a + b.drop_last());
    }
}

/// Scrolling keeps the grid's shape.
pub proof fn lemma_scrolled_shaped(rows: Seq<Seq<ScreenChar>>, color: ColorCode)
    requires
        grid_shaped(rows),
    ensures
        grid_shaped(scrolled(rows, color)),
{
    let g = scrolled(rows, color);
    assert forall|i: int| 0 <= i < BUFFER_HEIGHT implies (#[trigger] g[i]).len() == BUFFER_WIDTH by {
        if i < BUFFER_HEIGHT - 1 {
            assert(g[i] == rows[i + 1]);
        }
    }
}

/// After a scroll, row `r - 1` holds what row `r` held, for every `r` in
/// `1..BUFFER_HEIGHT`, and the bottom row is all blanks in the current colors.
pub proof fn lemma_scroll_shifts_rows(rows: Seq<Seq<ScreenChar>>, color: ColorCode)
    requires
        grid_shaped(rows),
    ensures
        grid_shaped(scrolled(rows, color)),
        forall|r: int| 1 <= r < BUFFER_HEIGHT ==> #[trigger] scrolled(rows, color)[r - 1] == rows[r],
        forall|j: int|
            0 <= j < BUFFER_WIDTH ==> #[trigger] scrolled(rows, color)[BUFFER_HEIGHT - 1][j] == blank(color),
{
    lemma_scrolled_shaped(rows, color);
}

/// Writing one byte keeps the grid's shape and the column within the row.
pub proof fn lemma_put_byte_shaped(rows: Seq<Seq<ScreenChar>>, col: int, color: ColorCode, b: u8)
    requires
        grid_shaped(rows),
        0 <= col <= BUFFER_WIDTH,
    ensures
        grid_shaped(put_byte(rows, col, color, b).0),
        0 <= put_byte(rows, col, color, b).1 <= BUFFER_WIDTH,
{
    lemma_scrolled_shaped(rows, color);
    let g = put_byte(rows, col, color, b).0;
    assert forall|i: int| 0 <= i < BUFFER_HEIGHT implies (#[trigger] g[i]).len() == BUFFER_WIDTH by {}
}

/// A printable line that fits in the rest of the bottom row is stored cell by
/// cell after the cursor, in the current colors, with no scroll: the other
/// rows and the other cells of the bottom row keep their contents.
pub proof fn lemma_read_back_line(rows: Seq<Seq<ScreenChar>>, col: int, color: ColorCode, s: Seq<u8>)
    requires
        grid_shaped(rows),
        0 <= col,
        col + s.len() <= BUFFER_WIDTH,
        forall|k: int| 0 <= k < s.len() ==> is_printable(#[trigger] s[k]),
    ensures
        grid_shaped(put_bytes(rows, col, color, s).0),
        put_bytes(rows, col, color, s).1 == col + s.len(),
        forall|i: int| 0 <= i < BUFFER_HEIGHT - 1 ==> #[trigger] put_bytes(rows, col, color, s).0[i] == rows[i],
        forall|k: int|
            0 <= k < s.len() ==> #[trigger] put_bytes(rows, col, color, s).0[BUFFER_HEIGHT - 1][col + k]
                == (ScreenChar { ascii_character: s[k], color_code: color }),
        forall|j: int|
            0 <= j < BUFFER_WIDTH && (j < col || col + s.len() <= j) ==> #[trigger] put_bytes(
                rows,
                col,
                color,
                s,
            ).0[BUFFER_HEIGHT - 1][j] == rows[BUFFER_HEIGHT - 1][j],
    decreases s.len(),
{
    if s.len() > 0 {
        let t = s.drop_last();
        lemma_read_back_line(rows, col, color, t);
        let prev = put_bytes(rows, col, color, t);
        lemma_put_byte_shaped(prev.0, prev.1, color, s.last());
        let g = put_bytes(rows, col, color, s).0;
        assert forall|k: int| 0 <= k < s.len() implies #[trigger] g[BUFFER_HEIGHT - 1][col + k]
            == (ScreenChar { ascii_character: s[k], color_code: color }) by {
            if k < t.len() {
                assert(t[k] == s[k]);
                assert(prev.0[BUFFER_HEIGHT - 1][col + k] == (ScreenChar { ascii_character: t[k], color_code: color }));
            }
        }
    }
}

/// A newline followed by a printable line of at most `BUFFER_WIDTH` bytes:
/// the old rows move up by one, and the bottom row reads back the line in the
/// current colors, then blanks.
pub proof fn lemma_read_back_after_newline(
    rows: Seq<Seq<ScreenChar>>,
    col: int,
    color: ColorCode,
    s: Seq<u8>,
)
    requires
        grid_shaped(rows),
        0 <= col <= BUFFER_WIDTH,
        s.len() <= BUFFER_WIDTH,
        forall|k: int| 0 <= k < s.len() ==> is_printable(#[trigger] s[k]),
    ensures
        put_bytes(rows, col, color, seq![0x0au8] + s).1 == s.len(),
        forall|i: int|
            0 <= i < BUFFER_HEIGHT - 1 ==> #[trigger] put_bytes(rows, col, color, seq![0x0au8] + s).0[i]
                == rows[i + 1],
        forall|k: int|
            0 <= k < s.len() ==> #[trigger] put_bytes(rows, col, color, seq![0x0au8] + s).0[BUFFER_HEIGHT
                - 1][k] == (ScreenChar { ascii_character: s[k], color_code: color }),
        forall|j: int|
            s.len() <= j < BUFFER_WIDTH ==> #[trigger] put_bytes(rows, col, color, seq![0x0au8] + s).0[BUFFER_HEIGHT
                - 1][j] == blank(color),
{
    let nl = seq![0x0au8];
    lemma_put_bytes_append(rows, col, color, nl, s);
    assert(nl.drop_last() =~= Seq::<u8>::empty());
    assert(put_bytes(rows, col, color, nl.drop_last()) == (rows, col));
    assert(nl.last() == 0x0au8);
    assert(put_bytes(rows, col, color, nl) == (scrolled(rows, color), 0int));
    lemma_scroll_shifts_rows(rows, color);
    lemma_read_back_line(scrolled(rows, color), 0, color, s);
    let g = put_bytes(rows, col, color, nl + s).0;
    assert forall|k: int| 0 <= k < s.len() implies #[trigger] g[BUFFER_HEIGHT - 1][k]
        == (ScreenChar { ascii_character: s[k], color_code: color }) by {
        assert(g[BUFFER_HEIGHT - 1][0 + k] == (ScreenChar { ascii_character: s[k], color_code: color }));
    }
}

/// Any byte that is neither printable ASCII nor a newline is stored as
/// `PLACEHOLDER_GLYPH`, and all such bytes have the same effect.
pub proof fn lemma_placeholder(rows: Seq<Seq<ScreenChar>>, col: int, color: ColorCode, b1: u8, b2: u8)
    requires
        !is_printable(b1),
        b1 != 0x0a,
        !is_printable(b2),
        b2 != 0x0a,
    ensures
        put_byte(rows, col, color, b1) == put_byte(rows, col, color, b2),
        stored_glyph(b1) == PLACEHOLDER_GLYPH,
{
}

/// Starting at column 0, `BUFFER_WIDTH` printable bytes fill the bottom row
/// with no scroll; one more byte (not a newline) causes exactly one scroll and
/// lands at column 0 of the new bottom row.
pub proof fn lemma_full_row(rows: Seq<Seq<ScreenChar>>, color: ColorCode, s: Seq<u8>, b: u8)
    requires
        grid_shaped(rows),
        s.len() == BUFFER_WIDTH,
        forall|k: int| 0 <= k < s.len() ==> is_printable(#[trigger] s[k]),
        b != 0x0a,
    ensures
        put_bytes(rows, 0, color, s).1 == BUFFER_WIDTH,
        forall|i: int| 0 <= i < BUFFER_HEIGHT - 1 ==> #[trigger] put_bytes(rows, 0, color, s).0[i] == rows[i],
        forall|k: int|
            0 <= k < BUFFER_WIDTH ==> #[trigger] put_bytes(rows, 0, color, s).0[BUFFER_HEIGHT - 1][k]
                == (ScreenChar { ascii_character: s[k], color_code: color }),
        put_bytes(rows, 0, color, s.push(b)) == (
            scrolled(put_bytes(rows, 0, color, s).0, color).update(
                BUFFER_HEIGHT - 1,
                blank_row(color).update(0, ScreenChar { ascii_character: stored_glyph(b), color_code: color }),
            ),
            1int,
        ),
{
    lemma_read_back_line(rows, 0, color, s);
    let g = put_bytes(rows, 0, color, s).0;
    assert forall|k: int| 0 <= k < BUFFER_WIDTH implies #[trigger] g[BUFFER_HEIGHT - 1][k]
        == (ScreenChar { ascii_character: s[k], color_code: color }) by {
        assert(g[BUFFER_HEIGHT - 1][0 + k] == (ScreenChar { ascii_character: s[k], color_code: color }));
    }
    assert(s.push(b).drop_last() =~= s);
}


/// Writing any bytes keeps the grid's shape and the column within the row.
pub proof fn lemma_put_bytes_shaped(rows: Seq<Seq<ScreenChar>>, col: int, color: ColorCode, bs: Seq<u8>)
    requires
        grid_shaped(rows),
        0 <= col <= BUFFER_WIDTH,
    ensures
        grid_shaped(put_bytes(rows, col, color, bs).0),
        0 <= put_bytes(rows, col, color, bs).1 <= BUFFER_WIDTH,
    decreases bs.len(),
{
    if bs.len() > 0 {
        lemma_put_bytes_shaped(rows, col, color, bs.drop_last());
        let prev = put_bytes(rows, col, color, bs.drop_last());
        lemma_put_byte_shaped(prev.0, prev.1, color, bs.last());
    }
}

/// Whatever was written before it, a newline followed by a printable last
/// line of at most `BUFFER_WIDTH` bytes leaves that line on the bottom row,
/// cell by cell in the current colors, then blanks, with the cursor after it.
pub proof fn lemma_read_back_last_line(
    rows: Seq<Seq<ScreenChar>>,
    col: int,
    color: ColorCode,
    before: Seq<u8>,
    line: Seq<u8>,
)
    requires
        grid_shaped(rows),
        0 <= col <= BUFFER_WIDTH,
        line.len() <= BUFFER_WIDTH,
        forall|k: int| 0 <= k < line.len() ==> is_printable(#[trigger] line[k]),
    ensures
        put_bytes(rows, col, color, before + seq![0x0au8] + line).1 == line.len(),
        forall|k: int|
            0 <= k < line.len() ==> #[trigger] put_bytes(rows, col, color, before + seq![0x0au8] + line).0[BUFFER_HEIGHT
                - 1][k] == (ScreenChar { ascii_character: line[k], color_code: color }),
        forall|j: int|
            line.len() <= j < BUFFER_WIDTH ==> #[trigger] put_bytes(
                rows,
                col,
                color,
                before + seq![0x0au8] + line,
            ).0[BUFFER_HEIGHT - 1][j] == blank(color),
{
    let nl = seq![0x0au8];
    lemma_put_bytes_shaped(rows, col, color, before);
    let mid = put_bytes(rows, col, color, before);
    assert(before + nl + line =~= before + (nl + line));
    lemma_put_bytes_append(rows, col, color, before, nl + line);
    lemma_read_back_after_newline(mid.0, mid.1, color, line);
}

} // verus!
