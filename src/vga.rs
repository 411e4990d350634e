//! Text-mode output: an 80 by 25 grid of character cells, written at a
//! cursor, scrolling up one row when the cursor leaves the last row.
use vstd::prelude::*;
use vstd::string::StringSliceAdditionalSpecFns;

verus! {

pub const BUFFER_WIDTH: usize = 80;

pub const BUFFER_HEIGHT: usize = 25;

/// Number of cells in the grid.
pub const BUFFER_CELLS: usize = 2000;

/// Glyph shown in place of a byte that is not printable ASCII.
pub const PLACEHOLDER: u8 = 0xfe;

/// The sixteen text-mode colours.
#[derive(Clone, Copy, Debug, PartialEq, Eq, Structural)]
pub enum Color {
    Black,
    Blue,
    Green,
    Cyan,
    Red,
    Magenta,
    Brown,
    LightGray,
    DarkGray,
    LightBlue,
    LightGreen,
    LightCyan,
    LightRed,
    Pink,
    Yellow,
    White,
}

/// A cell's attribute byte: background in the high nibble, foreground in
/// the low one.
#[derive(Clone, Copy, Debug, PartialEq, Eq, Structural)]
pub struct ColorCode(pub u8);

pub open spec fn color_index(c: Color) -> u8 {
    match c {
        Color::Black => 0,
        Color::Blue => 1,
        Color::Green => 2,
        Color::Cyan => 3,
        Color::Red => 4,
        Color::Magenta => 5,
        Color::Brown => 6,
        Color::LightGray => 7,
        Color::DarkGray => 8,
        Color::LightBlue => 9,
        Color::LightGreen => 10,
        Color::LightCyan => 11,
        Color::LightRed => 12,
        Color::Pink => 13,
        Color::Yellow => 14,
        Color::White => 15,
    }
}

/// The number of a colour in the text-mode palette.
pub fn color_number(c: Color) -> (n: u8)
    ensures
        n == color_index(c),
        n < 16,
{
    match c {
        Color::Black => 0,
        Color::Blue => 1,
        Color::Green => 2,
        Color::Cyan => 3,
        Color::Red => 4,
        Color::Magenta => 5,
        Color::Brown => 6,
        Color::LightGray => 7,
        Color::DarkGray => 8,
        Color::LightBlue => 9,
        Color::LightGreen => 10,
        Color::LightCyan => 11,
        Color::LightRed => 12,
        Color::Pink => 13,
        Color::Yellow => 14,
        Color::White => 15,
    }
}

impl ColorCode {
    pub fn new(foreground: Color, background: Color) -> (r: ColorCode)
        ensures
            r.0 == color_index(background) * 16 + color_index(foreground),
    {
        let f = color_number(foreground);
        let b = color_number(background);
        ColorCode(b * 16 + f)
    }
}

/// One cell of the grid: a character byte and its attribute byte.
#[derive(Clone, Copy, Debug, PartialEq, Eq, Structural)]
pub struct ScreenChar {
    pub ascii_character: u8,
    pub color_code: u8,
}

/// What the writer shows: the cells in row-major order and the cursor.
pub ghost struct Screen {
    pub cells: Seq<ScreenChar>,
    pub row: nat,
    pub col: nat,
    pub color: u8,
}

pub open spec fn blank(color: u8) -> ScreenChar {
    ScreenChar { ascii_character: 0x20, color_code: color }
}

/// Index of the cell at `row`, `col`.
pub open spec fn cell_index(row: int, col: int) -> int {
    row * 80 + col
}

/// Bytes drawn as themselves: printable ASCII and the newline.
pub open spec fn printable(b: u8) -> bool {
    (0x20 <= b && b <= 0x7e) || b == 0x0a
}

/// Every row moves up one: row 0 is lost, the last row is blank.
pub open spec fn scrolled(cells: Seq<ScreenChar>, color: u8) -> Seq<ScreenChar> {
    Seq::new(
        2000,
        |i: int|
            if i < 1920 {
                cells[i + 80]
            } else {
                blank(color)
            },
    )
}

/// The cursor moves to the start of the next row, scrolling on the last.
pub open spec fn new_line(s: Screen) -> Screen {
    if s.row == 24 {
        Screen { cells: scrolled(s.cells, s.color), row: 24, col: 0, color: s.color }
    } else {
        Screen { row: s.row + 1, col: 0, ..s }
    }
}

/// The screen after one byte that is drawn as it is: a newline moves the
/// cursor; any other byte first leaves a full row, then fills the cell at
/// the cursor and advances it.
pub open spec fn put_byte(s: Screen, b: u8) -> Screen {
    if b == 0x0a {
        new_line(s)
    } else {
        let t = if s.col >= 80 {
            new_line(s)
        } else {
            s
        };
        Screen {
            cells: t.cells.update(
                cell_index(t.row as int, t.col as int),
                ScreenChar { ascii_character: b, color_code: t.color },
            ),
            col: t.col + 1,
            ..t
        }
    }
}

/// The byte drawn for `b`.
pub open spec fn glyph(b: u8) -> u8 {
    if printable(b) {
        b
    } else {
        PLACEHOLDER
    }
}

/// The screen after the bytes `bs`, one after the other.
pub open spec fn put_bytes(s: Screen, bs: Seq<u8>) -> Screen
    decreases bs.len(),
{
    if bs.len() == 0 {
        s
    } else {
        put_byte(put_bytes(s, bs.drop_last()), glyph(bs.last()))
    }
}

pub open spec fn screen_wf(s: Screen) -> bool {
    s.cells.len() == 2000 && s.row < 25 && s.col <= 80
}

/// The text writer: cursor, colour and the grid it draws into.
pub struct Writer {
    row_position: usize,
    column_position: usize,
    color_code: ColorCode,
    buffer: Vec<ScreenChar>,
}

impl View for Writer {
    type V = Screen;

    closed spec fn view(&self) -> Screen {
        Screen {
            cells: self.buffer@,
            row: self.row_position as nat,
            col: self.column_position as nat,
            color: self.color_code.0,
        }
    }
}

impl Writer {
    pub closed spec fn wf(&self) -> bool {
        screen_wf(self@)
    }

    /// A blank grid with the cursor at the top left.
    pub fn new(color_code: ColorCode) -> (w: Writer)
        ensures
            w.wf(),
            w@.row == 0,
            w@.col == 0,
            w@.color == color_code.0,
            w@.cells == Seq::new(2000, |i: int| blank(color_code.0)),
    {
        let mut buffer: Vec<ScreenChar> = Vec::new();
        let mut i: usize = 0;
        while i < BUFFER_CELLS
            invariant
                i <= 2000,
                buffer@ == Seq::new(i as nat, |j: int| blank(color_code.0)),
            decreases 2000 - i,
        {
            buffer.push(ScreenChar { ascii_character: 0x20, color_code: color_code.0 });
            i = i + 1;
            assert(buffer@ =~= Seq::new(i as nat, |j: int| blank(color_code.0)));
        }
        Writer { row_position: 0, column_position: 0, color_code, buffer }
    }

    /// The cell at `row`, `col`.
    pub fn cell(&self, row: usize, col: usize) -> (c: ScreenChar)
        requires
            self.wf(),
            row < BUFFER_HEIGHT,
            col < BUFFER_WIDTH,
        ensures
            c == self@.cells[cell_index(row as int, col as int)],
    {
        self.buffer[row * BUFFER_WIDTH + col]
    }

    /// The cursor as row and column.
    pub fn cursor(&self) -> (r: (usize, usize))
        ensures
            r.0 == self@.row,
            r.1 == self@.col,
    {
        (self.row_position, self.column_position)
    }

    /// Moves the cursor to the start of the next row, scrolling every row
    /// up by one when it is on the last.
    pub fn new_line(&mut self)
        requires
            old(self).wf(),
        ensures
            final(self).wf(),
            final(self)@ == new_line(old(self)@),
    {
        if self.row_position + 1 < BUFFER_HEIGHT {
            self.row_position = self.row_position + 1;
        } else {
            let ghost before = self.buffer@;
            let mut i: usize = 0;
            while i < BUFFER_CELLS - BUFFER_WIDTH
                invariant
                    i <= 1920,
                    self.buffer@.len() == 2000,
                    before == old(self).buffer@,
                    self.row_position == old(self).row_position,
                    self.color_code == old(self).color_code,
                    forall|j: int| 0 <= j < i ==> self.buffer@[j] == before[j + 80],
                    forall|j: int| i <= j < 2000 ==> self.buffer@[j] == before[j],
                decreases 1920 - i,
            {
                let c = self.buffer[i + BUFFER_WIDTH];
                self.buffer.set(i, c);
                i = i + 1;
            }
            while i < BUFFER_CELLS
                invariant
                    1920 <= i <= 2000,
                    self.buffer@.len() == 2000,
                    before == old(self).buffer@,
                    self.row_position == old(self).row_position,
                    self.color_code == old(self).color_code,
                    forall|j: int| 0 <= j < 1920 ==> self.buffer@[j] == before[j + 80],
                    forall|j: int| 1920 <= j < i ==> self.buffer@[j] == blank(self.color_code.0),
                decreases 2000 - i,
            {
                self.buffer.set(i, ScreenChar { ascii_character: 0x20, color_code: self.color_code.0 });
                i = i + 1;
            }
            assert(self.buffer@ =~= scrolled(before, self.color_code.0));
        }
        self.column_position = 0;
    }

    /// Draws one byte at the cursor as it is (a newline moves the cursor).
    pub fn write_byte(&mut self, byte: u8)
        requires
            old(self).wf(),
        ensures
            final(self).wf(),
            final(self)@ == put_byte(old(self)@, byte),
    {
        if byte == 0x0a {
            self.new_line();
        } else {
            if self.column_position >= BUFFER_WIDTH {
                self.new_line();
            }
            let idx = self.row_position * BUFFER_WIDTH + self.column_position;
            self.buffer.set(idx, ScreenChar { ascii_character: byte, color_code: self.color_code.0 });
            self.column_position = self.column_position + 1;
        }
    }

    /// Draws the bytes one after the other; a byte that is neither
    /// printable ASCII nor a newline is drawn as the placeholder glyph.
    pub fn write_bytes(&mut self, bytes: &[u8])
        requires
            old(self).wf(),
        ensures
            final(self).wf(),
            final(self)@ == put_bytes(old(self)@, bytes@),
    {
        let mut i: usize = 0;
        while i < bytes.len()
            invariant
                self.wf(),
                i <= bytes@.len(),
                self@ == put_bytes(old(self)@, bytes@.take(i as int)),
            decreases bytes@.len() - i,
        {
            let b = bytes[i];
            let g = if (0x20 <= b && b <= 0x7e) || b == 0x0a {
                b
            } else {
                PLACEHOLDER
            };
            proof {
                assert(bytes@.take(i + 1).drop_last() =~= bytes@.take(i as int));
            }
            self.write_byte(g);
            i = i + 1;
        }
        proof {
            assert(bytes@.take(i as int) =~= bytes@);
        }
    }

    /// Draws the bytes of `s` as `write_bytes` does.
    pub fn write_string(&mut self, s: &str)
        requires
            old(self).wf(),
        ensures
            final(self).wf(),
            final(self)@ == put_bytes(old(self)@, s.spec_bytes()),
    {
        self.write_bytes(s.as_bytes());
    }
}

} // verus!
