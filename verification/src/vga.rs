//! Text-mode screen driver: a fixed 25x80 grid of display cells, a cursor
//! that tracks the current column, and scroll-up-and-discard semantics when
//! a line is completed.
//!
//! The grid is modelled as an owned flat vector of cells; the abstract view
//! of a [`Writer`] is a [`ScreenState`]: the grid of rows, the cursor
//! column, the active color attribute, and a ghost log of every byte ever
//! accepted, in order.

use vstd::prelude::*;

verus! {

/// Number of rows of the text buffer.
pub const BUFFER_HEIGHT: usize = 25;

/// Number of columns of the text buffer.
pub const BUFFER_WIDTH: usize = 80;

/// The newline control code: it completes the current line instead of
/// being rendered.
pub const NEWLINE_BYTE: u8 = 0x0a;

/// The blank character used to clear freshly exposed cells.
pub const BLANK_BYTE: u8 = 0x20;

/// The placeholder glyph rendered in place of a non-printable byte.
pub const PLACEHOLDER_BYTE: u8 = 0xfe;

/// One of the sixteen palette colors a cell can use.
#[derive(Debug, Clone, Copy, PartialEq, Eq, Structural)]
pub enum Color {
    Black,
    Blue,
    Green,
    Cyan,
    Red,
    Magenta,
    Brown,
    LightGray,
    DarkGray,
    LightBlue,
    LightGreen,
    LightCyan,
    LightRed,
    Pink,
    Yellow,
    White,
}

/// The 4-bit palette index of a color.
pub open spec fn color_value(c: Color) -> u8 {
    match c {
        Color::Black => 0,
        Color::Blue => 1,
        Color::Green => 2,
        Color::Cyan => 3,
        Color::Red => 4,
        Color::Magenta => 5,
        Color::Brown => 6,
        Color::LightGray => 7,
        Color::DarkGray => 8,
        Color::LightBlue => 9,
        Color::LightGreen => 10,
        Color::LightCyan => 11,
        Color::LightRed => 12,
        Color::Pink => 13,
        Color::Yellow => 14,
        Color::White => 15,
    }
}

impl Color {
    /// The 4-bit palette index of this color.
    pub fn value(self) -> (r: u8)
        ensures
            r == color_value(self),
    {
        match self {
            Color::Black => 0,
            Color::Blue => 1,
            Color::Green => 2,
            Color::Cyan => 3,
            Color::Red => 4,
            Color::Magenta => 5,
            Color::Brown => 6,
            Color::LightGray => 7,
            Color::DarkGray => 8,
            Color::LightBlue => 9,
            Color::LightGreen => 10,
            Color::LightCyan => 11,
            Color::LightRed => 12,
            Color::Pink => 13,
            Color::Yellow => 14,
            Color::White => 15,
        }
    }
}

/// A packed color attribute byte: low four bits foreground, high four bits
/// background (with the top bit doubling as the blink flag).
#[derive(Debug, Clone, Copy, PartialEq, Eq, Structural)]
pub struct ColorCode(pub u8);

impl ColorCode {
    /// Packs a foreground and a background color into one attribute byte.
    pub fn new(foreground: Color, background: Color) -> (r: ColorCode)
        ensures
            r.0 == color_value(background) * 16 + color_value(foreground),
            r.0 as int % 16 == color_value(foreground) as int,
            r.0 as int / 16 == color_value(background) as int,
    {
        ColorCode(background.value() * 16 + foreground.value())
    }
}

/// One display cell: a character code and its color attribute.
#[derive(Debug, Clone, Copy, PartialEq, Eq, Structural)]
pub struct ScreenChar {
    pub ascii_character: u8,
    pub color_code: u8,
}

/// Abstract state of the screen: the grid of rows (top row first), the
/// cursor column, the active color attribute, and the log of all bytes
/// accepted so far.
#[verifier::ext_equal]
pub struct ScreenState {
    pub grid: Seq<Seq<ScreenChar>>,
    pub col: int,
    pub color: u8,
    pub log: Seq<u8>,
}

/// A blank cell in the given color.
pub open spec fn blank_char(color: u8) -> ScreenChar {
    ScreenChar { ascii_character: BLANK_BYTE, color_code: color }
}

/// A full row of blank cells in the given color.
pub open spec fn blank_row(color: u8) -> Seq<ScreenChar> {
    Seq::new(BUFFER_WIDTH as nat, |c: int| blank_char(color))
}

/// Well-formedness of an abstract screen state: full grid dimensions and a
/// cursor column that is at most the width (it equals the width exactly
/// when the bottom row has just been filled).
pub open spec fn wf_state(s: ScreenState) -> bool {
    &&& s.grid.len() == BUFFER_HEIGHT
    &&& forall|r: int| 0 <= r < BUFFER_HEIGHT ==> (#[trigger] s.grid[r]).len() == BUFFER_WIDTH
    &&& 0 <= s.col <= BUFFER_WIDTH
}

/// Whether a byte lies in the printable range and is rendered as itself.
pub open spec fn printable(b: u8) -> bool {
    0x20 <= b <= 0x7e
}

/// The glyph actually rendered for a byte: the byte itself when printable,
/// otherwise the placeholder glyph (no byte is ever silently dropped).
pub open spec fn glyph(b: u8) -> u8 {
    if printable(b) {
        b
    } else {
        PLACEHOLDER_BYTE
    }
}

/// Scrolling: every row moves up by one, the top row is discarded, the
/// newly exposed bottom row is blank in the active color, and the cursor
/// returns to column 0. The log is untouched: scrolling accepts no byte.
pub open spec fn spec_scroll(s: ScreenState) -> ScreenState {
    ScreenState {
        grid: Seq::new(
            BUFFER_HEIGHT as nat,
            |r: int|
                if r < BUFFER_HEIGHT as int - 1 {
                    s.grid[r + 1]
                } else {
                    blank_row(s.color)
                },
        ),
        col: 0,
        ..s
    }
}

/// Placing one already-substituted glyph: scroll first if the row is full,
/// then write the cell at (bottom row, cursor) and advance the cursor.
pub open spec fn spec_place(s: ScreenState, g: u8) -> ScreenState {
    let s1 = if s.col >= BUFFER_WIDTH as int {
        spec_scroll(s)
    } else {
        s
    };
    ScreenState {
        grid: s1.grid.update(
            BUFFER_HEIGHT as int - 1,
            s1.grid[BUFFER_HEIGHT as int - 1].update(
                s1.col,
                ScreenChar { ascii_character: g, color_code: s1.color },
            ),
        ),
        col: s1.col + 1,
        ..s1
    }
}

/// Accepting one byte: a newline scrolls, any other byte places its glyph;
/// either way the byte is appended to the log.
pub open spec fn spec_write_byte(s: ScreenState, b: u8) -> ScreenState {
    let s1 = if b == NEWLINE_BYTE {
        spec_scroll(s)
    } else {
        spec_place(s, glyph(b))
    };
    ScreenState { log: s.log.push(b), ..s1 }
}

/// Accepting a sequence of bytes, first to last.
pub open spec fn spec_write_bytes(s: ScreenState, bytes: Seq<u8>) -> ScreenState
    decreases bytes.len(),
{
    if bytes.len() == 0 {
        s
    } else {
        spec_write_bytes(spec_write_byte(s, bytes[0]), bytes.drop_first())
    }
}

/// The state of a freshly created screen: all cells blank, cursor at
/// column 0, empty log.
pub open spec fn initial_state(color: u8) -> ScreenState {
    ScreenState {
        grid: Seq::new(BUFFER_HEIGHT as nat, |r: int| blank_row(color)),
        col: 0,
        color: color,
        log: Seq::<u8>::empty(),
    }
}

/// The screen writer: sole owner of the cell grid. All output funnels
/// through its write operations; no other component may address the cells.
pub struct Writer {
    column_position: usize,
    color_code: ColorCode,
    cells: Vec<ScreenChar>,
    log: Ghost<Seq<u8>>,
}

impl View for Writer {
    type V = ScreenState;

    closed spec fn view(&self) -> ScreenState {
        ScreenState {
            grid: Seq::new(
                BUFFER_HEIGHT as nat,
                |r: int|
                    Seq::new(
                        BUFFER_WIDTH as nat,
                        |c: int| self.cells@[r * BUFFER_WIDTH as int + c],
                    ),
            ),
            col: self.column_position as int,
            color: self.color_code.0,
            log: self.log@,
        }
    }
}

impl Writer {
    /// Representation invariant: a full grid of cells and a cursor column
    /// that never passes the width.
    pub closed spec fn wf(self) -> bool {
        &&& self.cells@.len() == BUFFER_HEIGHT * BUFFER_WIDTH
        &&& self.column_position <= BUFFER_WIDTH
    }

    /// Creates a blank screen with the given active color.
    pub fn new(color: ColorCode) -> (w: Writer)
        ensures
            w.wf(),
            w@ == initial_state(color.0),
    {
        let mut cells: Vec<ScreenChar> = Vec::new();
        let blank = ScreenChar { ascii_character: BLANK_BYTE, color_code: color.0 };
        let mut i: usize = 0;
        while i < BUFFER_HEIGHT * BUFFER_WIDTH
            invariant
                i <= BUFFER_HEIGHT * BUFFER_WIDTH,
                cells@.len() == i,
                forall|j: int| 0 <= j < i ==> cells@[j] == blank_char(color.0),
                blank == blank_char(color.0),
            decreases BUFFER_HEIGHT * BUFFER_WIDTH - i,
        {
            cells.push(blank);
            i += 1;
        }
        let w = Writer { column_position: 0, color_code: color, cells, log: Ghost(Seq::empty()) };
        proof {
            assert(w@.grid =~~= initial_state(color.0).grid);
            assert(w@ =~~= initial_state(color.0));
        }
        w
    }

    /// The active color attribute.
    pub fn color(&self) -> (r: ColorCode)
        ensures
            r.0 == self@.color,
    {
        self.color_code
    }

    /// The current cursor column.
    pub fn column(&self) -> (r: usize)
        ensures
            r as int == self@.col,
    {
        self.column_position
    }

    /// Reads back one cell of the grid.
    pub fn cell(&self, row: usize, col: usize) -> (r: ScreenChar)
        requires
            self.wf(),
            row < BUFFER_HEIGHT,
            col < BUFFER_WIDTH,
        ensures
            r == self@.grid[row as int][col as int],
    {
        let idx: usize = row * BUFFER_WIDTH + col;
        self.cells[idx]
    }

    /// Overwrites every cell of row `row` with a blank in the active
    /// color; the cursor, the color and the log are untouched.
    pub fn clear_row(&mut self, row: usize)
        requires
            old(self).wf(),
            row < BUFFER_HEIGHT,
        ensures
            final(self).wf(),
            final(self)@ == (ScreenState {
                grid: old(self)@.grid.update(row as int, blank_row(old(self)@.color)),
                ..old(self)@
            }),
    {
        let blank = ScreenChar { ascii_character: BLANK_BYTE, color_code: self.color_code.0 };
        let mut c: usize = 0;
        while c < BUFFER_WIDTH
            invariant
                c <= BUFFER_WIDTH,
                row < BUFFER_HEIGHT,
                self.wf(),
                self.column_position == old(self).column_position,
                self.color_code == old(self).color_code,
                self.log == old(self).log,
                blank == blank_char(self@.color),
                forall|j: int|
                    0 <= j < self.cells@.len() && !(row * BUFFER_WIDTH <= j < row * BUFFER_WIDTH
                        + c) ==> self.cells@[j] == old(self).cells@[j],
                forall|j: int|
                    row * BUFFER_WIDTH <= j < row * BUFFER_WIDTH + c ==> self.cells@[j]
                        == blank_char(self@.color),
            decreases BUFFER_WIDTH - c,
        {
            let idx: usize = row * BUFFER_WIDTH + c;
            self.cells[idx] = blank;
            c += 1;
        }
        proof {
            let target = ScreenState {
                grid: old(self)@.grid.update(row as int, blank_row(old(self)@.color)),
                ..old(self)@
            };
            assert forall|r: int, cc: int|
                0 <= r < BUFFER_HEIGHT && 0 <= cc < BUFFER_WIDTH implies self@.grid[r][cc]
                == target.grid[r][cc] by {
                if r == row as int {
                    assert(row * BUFFER_WIDTH <= r * BUFFER_WIDTH as int + cc < row * BUFFER_WIDTH
                        + BUFFER_WIDTH);
                } else {
                    assert(!(row * BUFFER_WIDTH <= r * BUFFER_WIDTH as int + cc < row
                        * BUFFER_WIDTH + BUFFER_WIDTH)) by (nonlinear_arith)
                        requires
                            0 <= r < BUFFER_HEIGHT,
                            0 <= cc < BUFFER_WIDTH,
                            0 <= row < BUFFER_HEIGHT,
                            r != row,
                    ;
                }
            }
            assert forall|r: int| 0 <= r < BUFFER_HEIGHT implies self@.grid[r] =~= target.grid[r] by {
            }
            assert(self@.grid =~~= target.grid);
            assert(self@ =~~= target);
        }
    }

    /// Completes the current line: scrolls the grid up one row, discards
    /// the former top row, exposes a blank bottom row, and returns the
    /// cursor to column 0.
    pub fn new_line(&mut self)
        requires
            old(self).wf(),
        ensures
            final(self).wf(),
            final(self)@ == spec_scroll(old(self)@),
    {
        let mut i: usize = 0;
        while i < (BUFFER_HEIGHT - 1) * BUFFER_WIDTH
            invariant
                i <= (BUFFER_HEIGHT - 1) * BUFFER_WIDTH,
                self.wf(),
                self.column_position == old(self).column_position,
                self.color_code == old(self).color_code,
                self.log == old(self).log,
                forall|j: int| 0 <= j < i ==> self.cells@[j] == old(self).cells@[j + BUFFER_WIDTH],
                forall|j: int|
                    i <= j < self.cells@.len() ==> self.cells@[j] == old(self).cells@[j],
            decreases (BUFFER_HEIGHT - 1) * BUFFER_WIDTH - i,
        {
            let from: usize = i + BUFFER_WIDTH;
            let ch = self.cells[from];
            self.cells[i] = ch;
            i += 1;
        }
        let ghost s_mid = *self;
        self.clear_row(BUFFER_HEIGHT - 1);
        self.column_position = 0;
        proof {
            let target = spec_scroll(old(self)@);
            assert(self@.grid == s_mid@.grid.update(
                BUFFER_HEIGHT as int - 1,
                blank_row(s_mid@.color),
            ));
            assert forall|r: int, cc: int|
                0 <= r < BUFFER_HEIGHT && 0 <= cc < BUFFER_WIDTH implies self@.grid[r][cc]
                == target.grid[r][cc] by {
                if r < BUFFER_HEIGHT as int - 1 {
                    assert(0 <= r * BUFFER_WIDTH as int + cc < (BUFFER_HEIGHT as int - 1)
                        * BUFFER_WIDTH) by (nonlinear_arith)
                        requires
                            0 <= r < BUFFER_HEIGHT as int - 1,
                            0 <= cc < BUFFER_WIDTH,
                    ;
                    assert(r * BUFFER_WIDTH as int + cc + BUFFER_WIDTH == (r + 1)
                        * BUFFER_WIDTH as int + cc) by (nonlinear_arith);
                }
            }
            assert forall|r: int| 0 <= r < BUFFER_HEIGHT implies self@.grid[r] =~= target.grid[r] by {
            }
            assert(self@.grid =~~= target.grid);
            assert(self@ =~~= target);
        }
    }

    /// Accepts one byte: a newline completes the line; any other byte has
    /// its glyph placed at the cursor (scrolling first if the row is
    /// full), and the cursor advances. Every byte is appended to the log.
    pub fn write_byte(&mut self, byte: u8)
        requires
            old(self).wf(),
        ensures
            final(self).wf(),
            final(self)@ == spec_write_byte(old(self)@, byte),
    {
        if byte == NEWLINE_BYTE {
            self.new_line();
        } else {
            if self.column_position >= BUFFER_WIDTH {
                self.new_line();
            }
            let ghost mid = self@;
            let g: u8 = if 0x20 <= byte && byte <= 0x7e {
                byte
            } else {
                PLACEHOLDER_BYTE
            };
            let col = self.column_position;
            let idx: usize = (BUFFER_HEIGHT - 1) * BUFFER_WIDTH + col;
            self.cells[idx] = ScreenChar { ascii_character: g, color_code: self.color_code.0 };
            self.column_position = col + 1;
            proof {
                let target = spec_place(mid, glyph(byte));
                assert forall|r: int, cc: int|
                    0 <= r < BUFFER_HEIGHT && 0 <= cc < BUFFER_WIDTH implies self@.grid[r][cc]
                    == target.grid[r][cc] by {
                    if r == BUFFER_HEIGHT as int - 1 {
                    } else {
                        assert(r * BUFFER_WIDTH as int + cc != (BUFFER_HEIGHT as int - 1)
                            * BUFFER_WIDTH + col) by (nonlinear_arith)
                            requires
                                0 <= r < BUFFER_HEIGHT as int - 1,
                                0 <= cc < BUFFER_WIDTH,
                                0 <= col < BUFFER_WIDTH,
                        ;
                    }
                }
                assert forall|r: int| 0 <= r < BUFFER_HEIGHT implies self@.grid[r]
                    =~= target.grid[r] by {
                }
                assert(self@.grid =~~= target.grid);
            }
        }
        self.log = Ghost(self.log@.push(byte));
        proof {
            assert(self@ =~~= spec_write_byte(old(self)@, byte));
        }
    }

    /// Accepts a sequence of bytes in order: equivalent to accepting each
    /// byte in turn, with no reordering and no batching.
    pub fn write_string(&mut self, s: &[u8])
        requires
            old(self).wf(),
        ensures
            final(self).wf(),
            final(self)@ == spec_write_bytes(old(self)@, s@),
    {
        let mut i: usize = 0;
        while i < s.len()
            invariant
                i <= s@.len(),
                self.wf(),
                self@ == spec_write_bytes(old(self)@, s@.take(i as int)),
            decreases s@.len() - i,
        {
            proof {
                lemma_write_bytes_snoc(old(self)@, s@.take(i as int), s@[i as int]);
                assert(s@.take(i as int).push(s@[i as int]) =~= s@.take(i as int + 1));
            }
            self.write_byte(s[i]);
            i += 1;
        }
        proof {
            assert(s@.take(s@.len() as int) =~= s@);
        }
    }
}

/// Accepting `bytes` and then one more byte `b` is the same as accepting
/// `bytes.push(b)` in one call.
pub proof fn lemma_write_bytes_snoc(s: ScreenState, bytes: Seq<u8>, b: u8)
    ensures
        spec_write_bytes(s, bytes.push(b)) == spec_write_byte(spec_write_bytes(s, bytes), b),
    decreases bytes.len(),
{
    if bytes.len() == 0 {
        assert(bytes.push(b)[0] == b);
        assert(bytes.push(b).drop_first() =~= Seq::<u8>::empty());
        assert(spec_write_bytes(s, bytes.push(b)) == spec_write_bytes(
            spec_write_byte(s, b),
            bytes.push(b).drop_first(),
        ));
        assert(spec_write_bytes(spec_write_byte(s, b), Seq::<u8>::empty()) == spec_write_byte(
            s,
            b,
        ));
    } else {
        assert(bytes.push(b)[0] == bytes[0]);
        assert(bytes.push(b).drop_first() =~= bytes.drop_first().push(b));
        assert(spec_write_bytes(s, bytes.push(b)) == spec_write_bytes(
            spec_write_byte(s, bytes[0]),
            bytes.drop_first().push(b),
        ));
        lemma_write_bytes_snoc(spec_write_byte(s, bytes[0]), bytes.drop_first(), b);
        assert(spec_write_bytes(s, bytes) == spec_write_bytes(
            spec_write_byte(s, bytes[0]),
            bytes.drop_first(),
        ));
    }
}

/// Accepting `a` and then `b` in two calls leaves exactly the state of
/// accepting the concatenation `a + b` in one call: consecutive writes
/// compose with no byte lost, duplicated or reordered.
pub proof fn lemma_write_bytes_concat(s: ScreenState, a: Seq<u8>, b: Seq<u8>)
    ensures
        spec_write_bytes(spec_write_bytes(s, a), b) == spec_write_bytes(s, a + b),
    decreases a.len(),
{
    if a.len() == 0 {
        assert(a + b =~= b);
    } else {
        assert((a + b)[0] == a[0]);
        assert((a + b).drop_first() =~= a.drop_first() + b);
        lemma_write_bytes_concat(spec_write_byte(s, a[0]), a.drop_first(), b);
        assert(spec_write_bytes(s, a + b) == spec_write_bytes(
            spec_write_byte(s, a[0]),
            a.drop_first() + b,
        ));
    }
}

/// The log after accepting `bytes` is the old log followed by `bytes`:
/// the log records every byte, in input order.
pub proof fn lemma_write_bytes_log(s: ScreenState, bytes: Seq<u8>)
    ensures
        spec_write_bytes(s, bytes).log == s.log + bytes,
    decreases bytes.len(),
{
    if bytes.len() == 0 {
        assert(s.log + bytes =~= s.log);
    } else {
        lemma_write_bytes_log(spec_write_byte(s, bytes[0]), bytes.drop_first());
        assert(s.log.push(bytes[0]) + bytes.drop_first() =~= s.log + bytes);
    }
}

/// Writing printable bytes that fit in the remainder of the current row
/// advances the cursor by their count, leaves every other cell of the
/// grid untouched, and renders each byte at its own column of the bottom
/// row in the active color.
pub proof fn lemma_write_printable_row(s0: ScreenState, bytes: Seq<u8>)
    requires
        wf_state(s0),
        forall|i: int| 0 <= i < bytes.len() ==> printable(#[trigger] bytes[i]),
        s0.col + bytes.len() <= BUFFER_WIDTH,
    ensures
        ({
            let s1 = spec_write_bytes(s0, bytes);
            &&& wf_state(s1)
            &&& s1.col == s0.col + bytes.len()
            &&& s1.color == s0.color
            &&& forall|r: int| 0 <= r < BUFFER_HEIGHT as int - 1 ==> #[trigger] s1.grid[r]
                == s0.grid[r]
            &&& forall|j: int|
                0 <= j < bytes.len() ==> s1.grid[BUFFER_HEIGHT as int - 1][s0.col + j]
                    == (ScreenChar { ascii_character: bytes[j], color_code: s0.color })
            &&& forall|j: int|
                (0 <= j < s0.col || s0.col + bytes.len() <= j < BUFFER_WIDTH) ==> #[trigger] s1.grid[
                    BUFFER_HEIGHT as int - 1][j] == s0.grid[BUFFER_HEIGHT as int - 1][j]
        }),
    decreases bytes.len(),
{
    if bytes.len() == 0 {
    } else {
        let b0 = bytes[0];
        let s_next = spec_write_byte(s0, b0);
        assert(glyph(b0) == b0);
        assert(s_next.grid =~~= s0.grid.update(
            BUFFER_HEIGHT as int - 1,
            s0.grid[BUFFER_HEIGHT as int - 1].update(
                s0.col,
                ScreenChar { ascii_character: b0, color_code: s0.color },
            ),
        ));
        assert(wf_state(s_next));
        lemma_write_printable_row(s_next, bytes.drop_first());
        let s1 = spec_write_bytes(s0, bytes);
        assert(s1 == spec_write_bytes(s_next, bytes.drop_first()));
        assert forall|j: int| 0 <= j < bytes.len() implies s1.grid[BUFFER_HEIGHT as int - 1][s0.col
            + j] == (ScreenChar { ascii_character: bytes[j], color_code: s0.color }) by {
            if j == 0 {
                assert(s1.grid[BUFFER_HEIGHT as int - 1][s0.col] == s_next.grid[BUFFER_HEIGHT as int
                    - 1][s0.col]);
            } else {
                assert(bytes.drop_first()[j - 1] == bytes[j]);
                assert(s1.grid[BUFFER_HEIGHT as int - 1][s_next.col + (j - 1)] == (ScreenChar {
                    ascii_character: bytes.drop_first()[j - 1],
                    color_code: s_next.color,
                }));
            }
        }
    }
}

/// Reading back a short line: writing a printable sequence shorter than
/// one row onto a blank bottom row with the cursor at column 0 yields
/// exactly those characters left-aligned in the active color, followed by
/// blank cells for the remainder of the row.
pub proof fn lemma_row_readback(s0: ScreenState, bytes: Seq<u8>)
    requires
        wf_state(s0),
        s0.col == 0,
        s0.grid[BUFFER_HEIGHT as int - 1] == blank_row(s0.color),
        bytes.len() < BUFFER_WIDTH,
        forall|i: int| 0 <= i < bytes.len() ==> printable(#[trigger] bytes[i]),
    ensures
        ({
            let s1 = spec_write_bytes(s0, bytes);
            &&& s1.col == bytes.len()
            &&& forall|j: int|
                0 <= j < bytes.len() ==> #[trigger] s1.grid[BUFFER_HEIGHT as int - 1][j]
                    == (ScreenChar { ascii_character: bytes[j], color_code: s0.color })
            &&& forall|j: int|
                bytes.len() <= j < BUFFER_WIDTH ==> #[trigger] s1.grid[BUFFER_HEIGHT as int - 1][j]
                    == blank_char(s0.color)
        }),
{
    lemma_write_printable_row(s0, bytes);
}

/// A newline control code resets the cursor column to 0 and carries no
/// character to the next line: the newly exposed bottom row is entirely
/// blank.
pub proof fn lemma_newline_resets_column(s0: ScreenState)
    requires
        wf_state(s0),
    ensures
        spec_write_byte(s0, NEWLINE_BYTE).col == 0,
        forall|j: int|
            0 <= j < BUFFER_WIDTH ==> #[trigger] spec_write_byte(s0, NEWLINE_BYTE).grid[
                BUFFER_HEIGHT as int - 1][j] == blank_char(s0.color),
{
}

/// Scrolling is FIFO-discard: completing a line discards the top row,
/// moves every remaining row up by one, and exposes a blank bottom row.
pub proof fn lemma_scroll_discards_top(s0: ScreenState)
    requires
        wf_state(s0),
    ensures
        ({
            let s1 = spec_write_byte(s0, NEWLINE_BYTE);
            &&& s1.col == 0
            &&& forall|r: int| 0 <= r < BUFFER_HEIGHT as int - 1 ==> #[trigger] s1.grid[r]
                == s0.grid[r + 1]
            &&& s1.grid[BUFFER_HEIGHT as int - 1] == blank_row(s0.color)
        }),
{
}

/// Writing a full line and then its newline, starting at column 0: the
/// former top row is discarded, every other row moves up, the completed
/// line sits in the next-to-bottom row, and the bottom row is blank —
/// the most recent line is the lowest content on screen.
pub proof fn lemma_line_scrolls_fifo(s0: ScreenState, line: Seq<u8>)
    requires
        wf_state(s0),
        s0.col == 0,
        line.len() <= BUFFER_WIDTH,
        forall|i: int| 0 <= i < line.len() ==> printable(#[trigger] line[i]),
    ensures
        ({
            let s1 = spec_write_bytes(s0, line.push(NEWLINE_BYTE));
            &&& s1.col == 0
            &&& forall|r: int| 0 <= r < BUFFER_HEIGHT as int - 2 ==> #[trigger] s1.grid[r]
                == s0.grid[r + 1]
            &&& forall|j: int|
                0 <= j < line.len() ==> #[trigger] s1.grid[BUFFER_HEIGHT as int - 2][j]
                    == (ScreenChar { ascii_character: line[j], color_code: s0.color })
            &&& forall|j: int|
                line.len() <= j < BUFFER_WIDTH ==> #[trigger] s1.grid[BUFFER_HEIGHT as int - 2][j]
                    == s0.grid[BUFFER_HEIGHT as int - 1][j]
            &&& s1.grid[BUFFER_HEIGHT as int - 1] == blank_row(s0.color)
        }),
{
    lemma_write_bytes_snoc(s0, line, NEWLINE_BYTE);
    lemma_write_printable_row(s0, line);
    let s_line = spec_write_bytes(s0, line);
    lemma_scroll_discards_top(s_line);
}

/// Writing exactly one row's width of printable characters fills the
/// bottom row completely; the next printable character then begins a
/// fresh line at column 0, while the filled row — its final cell
/// included — moves up intact.
pub proof fn lemma_full_row_wraps(s0: ScreenState, bytes: Seq<u8>, c: u8)
    requires
        wf_state(s0),
        s0.col == 0,
        bytes.len() == BUFFER_WIDTH,
        forall|i: int| 0 <= i < bytes.len() ==> printable(#[trigger] bytes[i]),
        printable(c),
    ensures
        ({
            let s1 = spec_write_bytes(s0, bytes);
            let s2 = spec_write_byte(s1, c);
            &&& s1.col == BUFFER_WIDTH
            &&& forall|j: int|
                0 <= j < BUFFER_WIDTH ==> #[trigger] s1.grid[BUFFER_HEIGHT as int - 1][j]
                    == (ScreenChar { ascii_character: bytes[j], color_code: s0.color })
            &&& s2.col == 1
            &&& s2.grid[BUFFER_HEIGHT as int - 1][0] == (ScreenChar {
                ascii_character: c,
                color_code: s0.color,
            })
            &&& forall|j: int|
                0 <= j < BUFFER_WIDTH ==> #[trigger] s2.grid[BUFFER_HEIGHT as int - 2][j]
                    == (ScreenChar { ascii_character: bytes[j], color_code: s0.color })
        }),
{
    lemma_write_printable_row(s0, bytes);
}

/// Serialization of whole print calls: two consecutive calls that accept
/// `a` and then `b` leave the screen exactly as one call accepting
/// `a + b`, and the log gains `a` and `b` as two contiguous blocks. The
/// combined output is an interleaving at call granularity — never a
/// byte-level interleaving of the two calls.
pub proof fn lemma_prints_serialize(s0: ScreenState, a: Seq<u8>, b: Seq<u8>)
    ensures
        spec_write_bytes(spec_write_bytes(s0, a), b) == spec_write_bytes(s0, a + b),
        spec_write_bytes(spec_write_bytes(s0, a), b).log == s0.log + a + b,
{
    lemma_write_bytes_concat(s0, a, b);
    lemma_write_bytes_log(s0, a);
    lemma_write_bytes_log(spec_write_bytes(s0, a), b);
}

} // verus!
