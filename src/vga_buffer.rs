//! The VGA text writer: an 80 by 25 grid of characters where text is always
//! written to the last row, which scrolls up on a newline or when it is full.
//! The grid here is the writer's copy; the caller copies it to the
//! memory-mapped buffer.
use vstd::prelude::*;
use vstd::string::StringSliceAdditionalSpecFns;

verus! {

/// Height of the text buffer, in rows.
pub const BUFFER_HEIGHT: usize = 25;

/// Width of the text buffer, in columns.
pub const BUFFER_WIDTH: usize = 80;

/// Number of cells of the text buffer.
pub const BUFFER_CELLS: usize = 2000;

/// Index of the first cell of the last row.
pub const LAST_ROW_START: usize = 1920;

/// A VGA text-mode color.
#[derive(Clone, Copy, Debug, PartialEq, Eq, Structural)]
pub enum Color {
    Black,
    Blue,
    Green,
    Cyan,
    Red,
    Magenta,
    Brown,
    LightGray,
    DarkGray,
    LightBlue,
    LightGreen,
    LightCyan,
    LightRed,
    Pink,
    Yellow,
    White,
}

/// The 4-bit hardware number of a color.
pub open spec fn color_number(c: Color) -> u8 {
    match c {
        Color::Black => 0x0,
        Color::Blue => 0x1,
        Color::Green => 0x2,
        Color::Cyan => 0x3,
        Color::Red => 0x4,
        Color::Magenta => 0x5,
        Color::Brown => 0x6,
        Color::LightGray => 0x7,
        Color::DarkGray => 0x8,
        Color::LightBlue => 0x9,
        Color::LightGreen => 0xa,
        Color::LightCyan => 0xb,
        Color::LightRed => 0xc,
        Color::Pink => 0xd,
        Color::Yellow => 0xe,
        Color::White => 0xf,
    }
}

impl Color {
    /// The 4-bit hardware number of the color.
    pub fn as_u8(self) -> (r: u8)
        ensures
            r == color_number(self),
            r < 16,
    {
        match self {
            Color::Black => 0x0,
            Color::Blue => 0x1,
            Color::Green => 0x2,
            Color::Cyan => 0x3,
            Color::Red => 0x4,
            Color::Magenta => 0x5,
            Color::Brown => 0x6,
            Color::LightGray => 0x7,
            Color::DarkGray => 0x8,
            Color::LightBlue => 0x9,
            Color::LightGreen => 0xa,
            Color::LightCyan => 0xb,
            Color::LightRed => 0xc,
            Color::Pink => 0xd,
            Color::Yellow => 0xe,
            Color::White => 0xf,
        }
    }
}

/// A foreground and background color as the attribute byte of a cell:
/// background in the high four bits, foreground in the low four.
#[derive(Clone, Copy, Debug, PartialEq, Eq, Structural)]
pub struct ColorCode(pub u8);

impl ColorCode {
    /// The attribute byte for `foreground` on `background`.
    pub fn new(foreground: Color, background: Color) -> (r: ColorCode)
        ensures
            r.0 == color_number(background) * 16 + color_number(foreground),
    {
        let fg = foreground.as_u8();
        let bg = background.as_u8();
        ColorCode(bg * 16 + fg)
    }
}

/// One cell of the text buffer.
#[derive(Clone, Copy, Debug, PartialEq, Eq, Structural)]
pub struct ScreenChar {
    pub ascii_character: u8,
    pub color_code: ColorCode,
}

/// The abstract state of a writer.
pub ghost struct WriterModel {
    /// The column of the last row where the next byte goes.
    pub column: int,
    pub color: ColorCode,
    /// The cells, row by row.
    pub cells: Seq<ScreenChar>,
}

/// The byte that stands for `b` on screen: printable ASCII and newline are
/// kept, anything else shows as a filled square (0xfe).
pub open spec fn shown(b: u8) -> u8 {
    if (0x20 <= b && b <= 0x7e) || b == 10 {
        b
    } else {
        0xfe
    }
}

impl WriterModel {
    /// The grid has its 25 rows of 80 cells and the column is on the row.
    pub open spec fn wf(self) -> bool {
        self.cells.len() == BUFFER_CELLS && 0 <= self.column <= BUFFER_WIDTH
    }

    /// A blank cell in the writer's color.
    pub open spec fn blank(self) -> ScreenChar {
        ScreenChar { ascii_character: 32, color_code: self.color }
    }

    /// The state after a newline: every row moves up one, the last row is
    /// blanked and the column goes back to the start.
    pub open spec fn after_new_line(self) -> WriterModel {
        WriterModel {
            column: 0,
            cells: Seq::new(
                BUFFER_CELLS as nat,
                |i: int|
                    if i < LAST_ROW_START {
                        self.cells[i + BUFFER_WIDTH]
                    } else {
                        self.blank()
                    },
            ),
            ..self
        }
    }

    /// The state after writing byte `b`: a newline scrolls; any other byte
    /// goes to the current column of the last row, after scrolling when the
    /// row is full.
    pub open spec fn after_byte(self, b: u8) -> WriterModel {
        if b == 10 {
            self.after_new_line()
        } else {
            let m = if self.column >= BUFFER_WIDTH {
                self.after_new_line()
            } else {
                self
            };
            WriterModel {
                column: m.column + 1,
                cells: m.cells.update(
                    LAST_ROW_START + m.column,
                    ScreenChar { ascii_character: b, color_code: m.color },
                ),
                ..m
            }
        }
    }

    /// The state after writing each of `bytes` as it is shown.
    pub open spec fn after_bytes(self, bytes: Seq<u8>) -> WriterModel
        decreases bytes.len(),
    {
        if bytes.len() == 0 {
            self
        } else {
            self.after_byte(shown(bytes[0])).after_bytes(bytes.drop_first())
        }
    }
}

/// Writes text to the last row of an 80 by 25 grid in one color, scrolling
/// as needed.
pub struct Writer {
    column_position: usize,
    color_code: ColorCode,
    buffer: Vec<ScreenChar>,
}

impl View for Writer {
    type V = WriterModel;

    closed spec fn view(&self) -> WriterModel {
        WriterModel {
            column: self.column_position as int,
            color: self.color_code,
            cells: self.buffer@,
        }
    }
}

impl Writer {
    /// A writer in `color_code` over a grid whose cells are all zero, with the
    /// column at the start of the last row.
    pub fn new(color_code: ColorCode) -> (r: Writer)
        ensures
            r@.wf(),
            r@.column == 0,
            r@.color == color_code,
            forall|i: int|
                0 <= i < BUFFER_CELLS ==> #[trigger] r@.cells[i] == (ScreenChar {
                    ascii_character: 0,
                    color_code: ColorCode(0),
                }),
    {
        let zero = ScreenChar { ascii_character: 0, color_code: ColorCode(0) };
        let mut buffer: Vec<ScreenChar> = Vec::new();
        let mut i: usize = 0;
        while i < BUFFER_CELLS
            invariant
                i <= BUFFER_CELLS,
                buffer@.len() == i,
                forall|k: int| 0 <= k < i ==> #[trigger] buffer@[k] == zero,
            decreases BUFFER_CELLS - i,
        {
            buffer.push(zero);
            i = i + 1;
        }
        Writer { column_position: 0, color_code: color_code, buffer }
    }

    /// The cell at `row`, `col`.
    pub fn cell(&self, row: usize, col: usize) -> (r: ScreenChar)
        requires
            self@.wf(),
            row < BUFFER_HEIGHT,
            col < BUFFER_WIDTH,
        ensures
            r == self@.cells[row * BUFFER_WIDTH + col],
    {
        self.buffer[row * BUFFER_WIDTH + col]
    }

    /// The column of the last row where the next byte goes.
    pub fn column(&self) -> (r: usize)
        ensures
            r == self@.column,
    {
        self.column_position
    }

    /// Writes `s`, byte by byte; bytes outside printable ASCII and newline
    /// show as a filled square.
    pub fn write_string(&mut self, s: &str)
        requires
            old(self)@.wf(),
        ensures
            final(self)@ == old(self)@.after_bytes(s.spec_bytes()),
            final(self)@.wf(),
    {
        let bytes = s.as_bytes();
        let mut i: usize = 0;
        assert(bytes@.subrange(0, bytes@.len() as int) =~= bytes@);
        while i < bytes.len()
            invariant
                self@.wf(),
                i <= bytes@.len(),
                old(self)@.after_bytes(bytes@) == self@.after_bytes(bytes@.subrange(i as int, bytes@.len() as int)),
            decreases bytes@.len() - i,
        {
            proof {
                let rest = bytes@.subrange(i as int, bytes@.len() as int);
                assert(rest[0] == bytes@[i as int]);
                assert(rest.drop_first() =~= bytes@.subrange(i + 1, bytes@.len() as int));
            }
            let byte = bytes[i];
            if (0x20 <= byte && byte <= 0x7e) || byte == 10 {
                self.write_byte(byte);
            } else {
                self.write_byte(0xfe);
            }
            i = i + 1;
        }
        proof {
            assert(bytes@.subrange(bytes@.len() as int, bytes@.len() as int) =~= Seq::<u8>::empty());
        }
    }

    /// Writes one byte: a newline scrolls, any other byte goes to the current
    /// column of the last row, after scrolling when the row is full.
    pub fn write_byte(&mut self, byte: u8)
        requires
            old(self)@.wf(),
        ensures
            final(self)@ == old(self)@.after_byte(byte),
            final(self)@.wf(),
    {
        if byte == 10 {
            self.new_line();
        } else {
            if self.column_position >= BUFFER_WIDTH {
                self.new_line();
            }
            let col = self.column_position;
            let color_code = self.color_code;
            self.buffer.set(LAST_ROW_START + col, ScreenChar { ascii_character: byte, color_code });
            self.column_position = col + 1;
        }
    }

    /// Moves every row up one, blanks the last row and returns to its start.
    fn new_line(&mut self)
        requires
            old(self)@.wf(),
        ensures
            final(self)@ == old(self)@.after_new_line(),
            final(self)@.wf(),
    {
        let mut i: usize = 0;
        while i < LAST_ROW_START
            invariant
                i <= LAST_ROW_START,
                self@.cells.len() == BUFFER_CELLS,
                self@.color == old(self)@.color,
                self@.column == old(self)@.column,
                old(self)@.wf(),
                forall|k: int| 0 <= k < i ==> #[trigger] self@.cells[k] == old(self)@.cells[k + BUFFER_WIDTH],
                forall|k: int| i <= k < BUFFER_CELLS ==> #[trigger] self@.cells[k] == old(self)@.cells[k],
            decreases LAST_ROW_START - i,
        {
            let c = self.buffer[i + BUFFER_WIDTH];
            self.buffer.set(i, c);
            i = i + 1;
        }
        self.clear_row(BUFFER_HEIGHT - 1);
        self.column_position = 0;
        assert(self@.cells =~= old(self)@.after_new_line().cells);
    }

    /// Blanks every cell of `row` in the writer's color.
    fn clear_row(&mut self, row: usize)
        requires
            old(self)@.wf(),
            row < BUFFER_HEIGHT,
        ensures
            final(self)@.wf(),
            final(self)@.column == old(self)@.column,
            final(self)@.color == old(self)@.color,
            forall|k: int|
                0 <= k < BUFFER_CELLS ==> #[trigger] final(self)@.cells[k] == (if row * BUFFER_WIDTH <= k
                    < row * BUFFER_WIDTH + BUFFER_WIDTH {
                    old(self)@.blank()
                } else {
                    old(self)@.cells[k]
                }),
    {
        let blank = ScreenChar { ascii_character: 32, color_code: self.color_code };
        let start = row * BUFFER_WIDTH;
        let mut col: usize = 0;
        while col < BUFFER_WIDTH
            invariant
                col <= BUFFER_WIDTH,
                start == row * BUFFER_WIDTH,
                row < BUFFER_HEIGHT,
                self@.wf(),
                self@.column == old(self)@.column,
                self@.color == old(self)@.color,
                blank == old(self)@.blank(),
                forall|k: int|
                    0 <= k < BUFFER_CELLS ==> #[trigger] self@.cells[k] == (if start <= k < start + col {
                        blank
                    } else {
                        old(self)@.cells[k]
                    }),
            decreases BUFFER_WIDTH - col,
        {
            self.buffer.set(start + col, blank);
            col = col + 1;
        }
    }
}

} // verus!
