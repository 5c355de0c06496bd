use vstd::prelude::*;
use vstd::string::*;

use crate::color::ColorCode;
use crate::screen::{BUFFER_HEIGHT, BUFFER_WIDTH, ScreenBuffer, ScreenChar, filled_grid};

verus! {

/// The glyph written in place of any byte the hardware font has no glyph
/// for.
pub const PLACEHOLDER: u8 = 0xfe;

/// The abstract display state: the grid contents, the cursor, and the
/// active color.
#[verifier::ext_equal]
pub ghost struct VgaState {
    pub grid: Seq<Seq<ScreenChar>>,
    pub row: int,
    pub col: int,
    pub color: ColorCode,
}

/// A well-shaped display state: a full grid, the cursor on a real row and
/// at most one past the last column.
pub open spec fn state_wf(s: VgaState) -> bool {
    &&& s.grid.len() == BUFFER_HEIGHT
    &&& forall|r: int| 0 <= r < BUFFER_HEIGHT ==> (#[trigger] s.grid[r]).len() == BUFFER_WIDTH
    &&& 0 <= s.row < BUFFER_HEIGHT
    &&& 0 <= s.col <= BUFFER_WIDTH
}

/// A blank cell: a space in the given color.
pub open spec fn blank_char(color: ColorCode) -> ScreenChar {
    ScreenChar { ascii_character: 32, color_code: color }
}

/// A fully blank row in the given color.
pub open spec fn blank_row(color: ColorCode) -> Seq<ScreenChar> {
    Seq::new(BUFFER_WIDTH as nat, |c: int| blank_char(color))
}

/// The grid after scrolling up one line: every row's content moves to the
/// row above, the old top row is discarded, and the bottom row becomes
/// blank in the given color.
pub open spec fn scrolled(grid: Seq<Seq<ScreenChar>>, color: ColorCode) -> Seq<Seq<ScreenChar>> {
    Seq::new(
        BUFFER_HEIGHT as nat,
        |r: int|
            if r < BUFFER_HEIGHT - 1 {
                grid[r + 1]
            } else {
                blank_row(color)
            },
    )
}

/// A line advance: below the last row only the cursor moves down; on the
/// last row the grid scrolls instead and the row stays put.  Either way
/// the column returns to zero.
pub open spec fn state_new_line(s: VgaState) -> VgaState {
    if s.row < BUFFER_HEIGHT - 1 {
        VgaState { row: s.row + 1, col: 0, ..s }
    } else {
        VgaState { grid: scrolled(s.grid, s.color), col: 0, ..s }
    }
}

/// Placing one raw byte: a full line wraps first; then the byte lands at
/// the cursor in the active color and the column advances.
pub open spec fn state_put(s: VgaState, b: u8) -> VgaState {
    let t = if s.col >= BUFFER_WIDTH {
        state_new_line(s)
    } else {
        s
    };
    VgaState {
        grid: t.grid.update(
            t.row,
            t.grid[t.row].update(t.col, (ScreenChar { ascii_character: b, color_code: t.color })),
        ),
        col: t.col + 1,
        ..t
    }
}

/// One writer step: a newline advances the line, any other byte is placed
/// at the cursor.
pub open spec fn state_write_byte(s: VgaState, b: u8) -> VgaState {
    if b == 10 {
        state_new_line(s)
    } else {
        state_put(s, b)
    }
}

/// A byte the hardware font can show passes through: printable ASCII and
/// newline.  Every other byte becomes the placeholder glyph.
pub open spec fn sanitize(b: u8) -> u8 {
    if (0x20 <= b && b <= 0x7e) || b == 10 {
        b
    } else {
        PLACEHOLDER
    }
}

/// A whole byte stream: each byte is sanitized, then written, in order.
pub open spec fn state_write_bytes(s: VgaState, bytes: Seq<u8>) -> VgaState
    decreases bytes.len(),
{
    if bytes.len() == 0 {
        s
    } else {
        state_write_bytes(state_write_byte(s, sanitize(bytes[0])), bytes.drop_first())
    }
}

/// Clearing a row blanks all its cells in the active color; the cursor
/// does not move.
pub open spec fn state_clear_row(s: VgaState, row: int) -> VgaState {
    VgaState { grid: s.grid.update(row, blank_row(s.color)), ..s }
}

/// Every writer step leaves a well-shaped state well-shaped.
pub proof fn lemma_write_byte_wf(s: VgaState, b: u8)
    requires
        state_wf(s),
    ensures
        state_wf(state_write_byte(s, b)),
{
}

/// Writing a stream leaves a well-shaped state well-shaped.
pub proof fn lemma_write_bytes_wf(s: VgaState, bytes: Seq<u8>)
    requires
        state_wf(s),
    ensures
        state_wf(state_write_bytes(s, bytes)),
    decreases bytes.len(),
{
    if bytes.len() > 0 {
        lemma_write_byte_wf(s, sanitize(bytes[0]));
        lemma_write_bytes_wf(state_write_byte(s, sanitize(bytes[0])), bytes.drop_first());
    }
}

/// Writing a stream extended by one byte is writing the stream, then that
/// byte.
pub proof fn lemma_write_bytes_snoc(s: VgaState, bytes: Seq<u8>, b: u8)
    ensures
        state_write_bytes(s, bytes.push(b)) == state_write_byte(
            state_write_bytes(s, bytes),
            sanitize(b),
        ),
    decreases bytes.len(),
{
    if bytes.len() == 0 {
        assert(bytes.push(b)[0] == b);
        assert(bytes.push(b).drop_first() =~= Seq::<u8>::empty());
        assert(state_write_bytes(s, bytes.push(b)) == state_write_bytes(
            state_write_byte(s, sanitize(b)),
            Seq::<u8>::empty(),
        ));
        assert(state_write_bytes(state_write_byte(s, sanitize(b)), Seq::<u8>::empty())
            == state_write_byte(s, sanitize(b)));
        assert(state_write_bytes(s, bytes) == s);
    } else {
        assert(bytes.push(b)[0] == bytes[0]);
        assert(bytes.push(b).drop_first() =~= bytes.drop_first().push(b));
        assert(state_write_bytes(s, bytes.push(b)) == state_write_bytes(
            state_write_byte(s, sanitize(bytes[0])),
            bytes.drop_first().push(b),
        ));
        lemma_write_bytes_snoc(state_write_byte(s, sanitize(bytes[0])), bytes.drop_first(), b);
        assert(state_write_bytes(s, bytes) == state_write_bytes(
            state_write_byte(s, sanitize(bytes[0])),
            bytes.drop_first(),
        ));
    }
}

/// Law: writing the concatenation of two byte streams is writing the
/// first stream, then the second.  Callers that serialize access through
/// the global guard therefore leave the grid exactly as one sequence
/// fully applied after the other.
pub proof fn lemma_write_bytes_append(s: VgaState, a: Seq<u8>, b: Seq<u8>)
    ensures
        state_write_bytes(s, a + b) == state_write_bytes(state_write_bytes(s, a), b),
    decreases a.len(),
{
    if a.len() == 0 {
        assert(a + b =~= b);
    } else {
        assert((a + b)[0] == a[0]);
        assert((a + b).drop_first() =~= a.drop_first() + b);
        lemma_write_bytes_append(state_write_byte(s, sanitize(a[0])), a.drop_first(), b);
    }
}

/// Law: clearing a row twice in succession leaves exactly the state that
/// clearing it once leaves.
pub proof fn lemma_clear_row_idempotent(s: VgaState, row: int)
    requires
        state_wf(s),
        0 <= row < BUFFER_HEIGHT,
    ensures
        state_clear_row(state_clear_row(s, row), row) == state_clear_row(s, row),
{
    assert(state_clear_row(state_clear_row(s, row), row).grid =~~= state_clear_row(
        s,
        row,
    ).grid);
    assert(state_clear_row(state_clear_row(s, row), row) =~~= state_clear_row(s, row));
}

/// Law: a newline written on the last row scrolls.  Every row's content
/// moves up one row, the old top row is discarded, the bottom row becomes
/// blank in the active color, and the cursor stays on the last row at
/// column zero.
pub proof fn lemma_scroll_on_last_row(s: VgaState)
    requires
        state_wf(s),
        s.row == BUFFER_HEIGHT - 1,
    ensures
        state_write_byte(s, 10).row == BUFFER_HEIGHT - 1,
        state_write_byte(s, 10).col == 0,
        state_write_byte(s, 10).color == s.color,
        forall|r: int|
            0 <= r < BUFFER_HEIGHT - 1 ==> #[trigger] state_write_byte(s, 10).grid[r] == s.grid[r
                + 1],
        state_write_byte(s, 10).grid[BUFFER_HEIGHT - 1] == blank_row(s.color),
{
}

/// Law: a printable byte written while the line is full forces a line
/// advance first: the byte lands at column zero of the advanced line and
/// the column moves to one.
pub proof fn lemma_wrap_on_full_line(s: VgaState, b: u8)
    requires
        state_wf(s),
        s.col == BUFFER_WIDTH,
        0x20 <= b <= 0x7e,
    ensures
        state_write_byte(s, b).row == state_new_line(s).row,
        state_write_byte(s, b).col == 1,
        state_write_byte(s, b).grid[state_new_line(s).row][0]
            == (ScreenChar { ascii_character: b, color_code: s.color }),
{
    lemma_write_byte_wf(s, b);
}

/// Law: printable bytes that fit in the current row land consecutively at
/// the cursor, in the active color, and move only the column; every cell
/// outside that span keeps its value.  In particular a row takes exactly
/// `BUFFER_WIDTH` bytes before any line advance happens.
pub proof fn lemma_fill_row(s: VgaState, bytes: Seq<u8>)
    requires
        state_wf(s),
        s.col + bytes.len() <= BUFFER_WIDTH,
        forall|i: int| 0 <= i < bytes.len() ==> 0x20 <= #[trigger] bytes[i] <= 0x7e,
    ensures
        state_write_bytes(s, bytes).row == s.row,
        state_write_bytes(s, bytes).col == s.col + bytes.len(),
        state_write_bytes(s, bytes).color == s.color,
        forall|i: int|
            0 <= i < bytes.len() ==> #[trigger] state_write_bytes(s, bytes).grid[s.row][s.col + i]
                == (ScreenChar { ascii_character: bytes[i], color_code: s.color }),
        forall|r: int|
            0 <= r < BUFFER_HEIGHT && r != s.row ==> #[trigger] state_write_bytes(s, bytes).grid[r]
                == s.grid[r],
        forall|c: int|
            0 <= c < BUFFER_WIDTH && !(s.col <= c < s.col + bytes.len())
                ==> #[trigger] state_write_bytes(s, bytes).grid[s.row][c] == s.grid[s.row][c],
    decreases bytes.len(),
{
    if bytes.len() > 0 {
        let b = bytes[0];
        assert(sanitize(b) == b);
        let s1 = state_write_byte(s, b);
        let cell0 = ScreenChar { ascii_character: b, color_code: s.color };
        assert(s1.grid == s.grid.update(s.row, s.grid[s.row].update(s.col, cell0)));
        lemma_write_byte_wf(s, b);
        lemma_fill_row(s1, bytes.drop_first());
        let t = state_write_bytes(s, bytes);
        assert(t == state_write_bytes(s1, bytes.drop_first()));
        assert forall|i: int| 0 <= i < bytes.len() implies #[trigger] t.grid[s.row][s.col + i]
            == (ScreenChar { ascii_character: bytes[i], color_code: s.color }) by {
            if i == 0 {
                assert(t.grid[s.row][s.col] == s1.grid[s.row][s.col]);
                assert(s1.grid[s.row][s.col] == cell0);
            } else {
                assert(t.grid[s1.row][s1.col + (i - 1)] == (ScreenChar {
                    ascii_character: bytes.drop_first()[i - 1],
                    color_code: s1.color,
                }));
                assert(bytes.drop_first()[i - 1] == bytes[i]);
            }
        }
        assert forall|c: int|
            0 <= c < BUFFER_WIDTH && !(s.col <= c < s.col + bytes.len())
                implies #[trigger] t.grid[s.row][c] == s.grid[s.row][c] by {
            assert(t.grid[s.row][c] == s1.grid[s.row][c]);
            assert(s1.grid[s.row][c] == s.grid[s.row][c]);
        }
    }
}

/// Law: a byte outside printable ASCII that is not a newline is shown as
/// the placeholder glyph: writing it through the sanitizing path puts
/// `PLACEHOLDER` at the cursor, never the byte itself.
pub proof fn lemma_sanitize_placeholder(s: VgaState, b: u8)
    requires
        state_wf(s),
        s.col < BUFFER_WIDTH,
        !(0x20 <= b <= 0x7e),
        b != 10,
    ensures
        sanitize(b) == PLACEHOLDER,
        state_write_bytes(s, seq![b]).grid[s.row][s.col]
            == (ScreenChar { ascii_character: PLACEHOLDER, color_code: s.color }),
{
    assert(seq![b].len() == 1);
    assert(seq![b][0] == b);
    assert(seq![b].drop_first() =~= Seq::<u8>::empty());
    assert(state_write_bytes(s, seq![b]) == state_write_bytes(
        state_write_byte(s, PLACEHOLDER),
        Seq::<u8>::empty(),
    ));
    assert(state_write_bytes(s, seq![b]) == state_write_byte(s, PLACEHOLDER));
}

/// The cursor-tracking writer: it owns the grid and turns byte streams
/// into cell writes, wrapping full lines and scrolling past the bottom.
pub struct Writer {
    column_position: usize,
    row_position: usize,
    color_code: ColorCode,
    buffer: ScreenBuffer,
}

impl View for Writer {
    type V = VgaState;

    closed spec fn view(&self) -> VgaState {
        VgaState {
            grid: self.buffer@,
            row: self.row_position as int,
            col: self.column_position as int,
            color: self.color_code,
        }
    }
}

impl Writer {
    /// No writer with a cursor out of bounds or a misshapen grid can be
    /// reached through this interface.
    #[verifier::type_invariant]
    spec fn wf(&self) -> bool {
        &&& self.buffer.wf()
        &&& self.row_position < BUFFER_HEIGHT
        &&& self.column_position <= BUFFER_WIDTH
    }

    /// A fresh writer: cursor at the top left, the whole grid blank in
    /// the given color.
    pub fn new(color_code: ColorCode) -> (r: Writer)
        ensures
            state_wf(r@),
            r@.grid == filled_grid(blank_char(color_code)),
            r@.row == 0,
            r@.col == 0,
            r@.color == color_code,
    {
        let buffer = ScreenBuffer::new(ScreenChar { ascii_character: 32, color_code });
        let r = Writer { column_position: 0, row_position: 0, color_code, buffer };
        proof {
            r.buffer.lemma_dims();
        }
        r
    }

    /// The cursor's row.
    pub fn cursor_row(&self) -> (r: usize)
        ensures
            r as int == self@.row,
    {
        self.row_position
    }

    /// The cursor's column.
    pub fn cursor_column(&self) -> (r: usize)
        ensures
            r as int == self@.col,
    {
        self.column_position
    }

    /// The cell last written at the given coordinate.
    pub fn char_at(&self, row: usize, col: usize) -> (r: ScreenChar)
        requires
            row < BUFFER_HEIGHT,
            col < BUFFER_WIDTH,
        ensures
            r == self@.grid[row as int][col as int],
    {
        proof {
            use_type_invariant(self);
        }
        self.buffer.read(row, col)
    }

    /// Overwrites all cells of the given row with blanks in the active
    /// color.
    pub fn clear_row(&mut self, row: usize)
        requires
            row < BUFFER_HEIGHT,
        ensures
            final(self)@ == state_clear_row(old(self)@, row as int),
            state_wf(final(self)@),
    {
        proof {
            use_type_invariant(&*self);
            self.buffer.lemma_dims();
        }
        let blank = ScreenChar { ascii_character: 32, color_code: self.color_code };
        let mut col: usize = 0;
        while col < BUFFER_WIDTH
            invariant
                col <= BUFFER_WIDTH,
                row < BUFFER_HEIGHT,
                self.buffer.wf(),
                self.row_position < BUFFER_HEIGHT,
                self.column_position <= BUFFER_WIDTH,
                self.row_position == old(self).row_position,
                self.column_position == old(self).column_position,
                self.color_code == old(self).color_code,
                blank == blank_char(old(self).color_code),
                self@.grid.len() == BUFFER_HEIGHT,
                forall|r2: int|
                    0 <= r2 < BUFFER_HEIGHT ==> (#[trigger] self@.grid[r2]).len() == BUFFER_WIDTH,
                forall|r2: int|
                    0 <= r2 < BUFFER_HEIGHT && r2 != row ==> #[trigger] self@.grid[r2]
                        == old(self)@.grid[r2],
                forall|c2: int|
                    0 <= c2 < col ==> #[trigger] self@.grid[row as int][c2] == blank_char(
                        old(self).color_code,
                    ),
                forall|c2: int|
                    col <= c2 < BUFFER_WIDTH ==> #[trigger] self@.grid[row as int][c2]
                        == old(self)@.grid[row as int][c2],
            decreases BUFFER_WIDTH - col,
        {
            self.buffer.write(row, col, blank);
            col = col + 1;
        }
        proof {
            assert(self@.grid[row as int] =~= blank_row(old(self).color_code));
            assert(self@ =~~= state_clear_row(old(self)@, row as int));
        }
    }

    /// A line advance: below the last row the cursor just moves down;
    /// from the last row the grid scrolls up one line instead and the
    /// freed bottom row is blanked in the active color.
    fn new_line(&mut self)
        ensures
            final(self)@ == state_new_line(old(self)@),
            state_wf(final(self)@),
    {
        proof {
            use_type_invariant(&*self);
            self.buffer.lemma_dims();
        }
        if self.row_position < BUFFER_HEIGHT - 1 {
            self.column_position = 0;
            self.row_position = self.row_position + 1;
            proof {
                assert(self@ =~~= state_new_line(old(self)@));
            }
            return;
        }
        let mut row: usize = 1;
        while row < BUFFER_HEIGHT
            invariant
                1 <= row <= BUFFER_HEIGHT,
                self.buffer.wf(),
                self.column_position <= BUFFER_WIDTH,
                self.row_position == old(self).row_position,
                self.row_position == BUFFER_HEIGHT - 1,
                self.column_position == old(self).column_position,
                self.color_code == old(self).color_code,
                old(self)@.grid.len() == BUFFER_HEIGHT,
                forall|r2: int|
                    0 <= r2 < BUFFER_HEIGHT ==> (#[trigger] old(self)@.grid[r2]).len()
                        == BUFFER_WIDTH,
                self@.grid.len() == BUFFER_HEIGHT,
                forall|r2: int|
                    0 <= r2 < BUFFER_HEIGHT ==> (#[trigger] self@.grid[r2]).len() == BUFFER_WIDTH,
                forall|r2: int|
                    0 <= r2 < row - 1 ==> #[trigger] self@.grid[r2] == old(self)@.grid[r2 + 1],
                forall|r2: int|
                    row - 1 <= r2 < BUFFER_HEIGHT ==> #[trigger] self@.grid[r2]
                        == old(self)@.grid[r2],
            decreases BUFFER_HEIGHT - row,
        {
            let mut col: usize = 0;
            while col < BUFFER_WIDTH
                invariant
                    1 <= row < BUFFER_HEIGHT,
                    col <= BUFFER_WIDTH,
                    self.buffer.wf(),
                    self.column_position <= BUFFER_WIDTH,
                    self.row_position == old(self).row_position,
                    self.row_position == BUFFER_HEIGHT - 1,
                    self.column_position == old(self).column_position,
                    self.color_code == old(self).color_code,
                    old(self)@.grid.len() == BUFFER_HEIGHT,
                    forall|r2: int|
                        0 <= r2 < BUFFER_HEIGHT ==> (#[trigger] old(self)@.grid[r2]).len()
                            == BUFFER_WIDTH,
                    self@.grid.len() == BUFFER_HEIGHT,
                    forall|r2: int|
                        0 <= r2 < BUFFER_HEIGHT ==> (#[trigger] self@.grid[r2]).len()
                            == BUFFER_WIDTH,
                    forall|r2: int|
                        0 <= r2 < row - 1 ==> #[trigger] self@.grid[r2] == old(self)@.grid[r2 + 1],
                    forall|r2: int|
                        row <= r2 < BUFFER_HEIGHT ==> #[trigger] self@.grid[r2]
                            == old(self)@.grid[r2],
                    forall|c2: int|
                        0 <= c2 < col ==> #[trigger] self@.grid[row - 1][c2]
                            == old(self)@.grid[row as int][c2],
                    forall|c2: int|
                        col <= c2 < BUFFER_WIDTH ==> #[trigger] self@.grid[row - 1][c2]
                            == old(self)@.grid[row - 1][c2],
                decreases BUFFER_WIDTH - col,
            {
                let character = self.buffer.read(row, col);
                self.buffer.write(row - 1, col, character);
                col = col + 1;
            }
            proof {
                assert(self@.grid[row - 1] =~= old(self)@.grid[row as int]);
            }
            row = row + 1;
        }
        self.clear_row(BUFFER_HEIGHT - 1);
        proof {
            use_type_invariant(&*self);
        }
        self.column_position = 0;
        proof {
            assert forall|r2: int| 0 <= r2 < BUFFER_HEIGHT implies self@.grid[r2] == scrolled(
                old(self)@.grid,
                old(self).color_code,
            )[r2] by {};
            assert(self@.grid =~~= scrolled(old(self)@.grid, old(self).color_code));
            assert(self@ =~~= state_new_line(old(self)@));
        }
    }

    /// Writes one raw byte: newline advances the line; any other byte
    /// lands at the cursor, after a line advance if the line was full.
    pub fn write_byte(&mut self, byte: u8)
        ensures
            final(self)@ == state_write_byte(old(self)@, byte),
            state_wf(final(self)@),
    {
        proof {
            use_type_invariant(&*self);
            self.buffer.lemma_dims();
        }
        if byte == 10 {
            self.new_line();
        } else {
            if self.column_position >= BUFFER_WIDTH {
                self.new_line();
            }
            proof {
                use_type_invariant(&*self);
            }
            let row = self.row_position;
            let col = self.column_position;
            let color_code = self.color_code;
            self.buffer.write(row, col, ScreenChar { ascii_character: byte, color_code });
            self.column_position = col + 1;
            proof {
                assert(self@ =~~= state_write_byte(old(self)@, byte));
            }
        }
    }

    /// Writes a string byte by byte: printable ASCII and newline pass
    /// through, every other byte of its UTF-8 form is shown as the
    /// placeholder glyph.
    pub fn write_string(&mut self, s: &str)
        ensures
            final(self)@ == state_write_bytes(old(self)@, s.spec_bytes()),
            state_wf(final(self)@),
    {
        proof {
            use_type_invariant(&*self);
            self.buffer.lemma_dims();
        }
        let bytes = s.as_bytes();
        let n = bytes.len();
        let mut i: usize = 0;
        while i < n
            invariant
                n == bytes@.len(),
                bytes@ == s.spec_bytes(),
                i <= n,
                self@ == state_write_bytes(old(self)@, bytes@.take(i as int)),
            decreases n - i,
        {
            let b = bytes[i];
            let forwarded: u8 = if (0x20 <= b && b <= 0x7e) || b == 10 {
                b
            } else {
                PLACEHOLDER
            };
            proof {
                assert(bytes@.take(i + 1) =~= bytes@.take(i as int).push(bytes@[i as int]));
                lemma_write_bytes_snoc(old(self)@, bytes@.take(i as int), bytes@[i as int]);
            }
            self.write_byte(forwarded);
            i = i + 1;
        }
        proof {
            assert(bytes@.take(n as int) =~= bytes@);
            lemma_write_bytes_wf(old(self)@, s.spec_bytes());
        }
    }
}

/// The formatted-output entry point: pushes text some caller-side
/// formatter rendered through the given writer.
pub fn _print(writer: &mut Writer, s: &str)
    ensures
        final(writer)@ == state_write_bytes(old(writer)@, s.spec_bytes()),
        state_wf(final(writer)@),
{
    writer.write_string(s)
}

} // verus!

