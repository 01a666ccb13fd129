//! The synchronized output port: the single holder of the one screen
//! writer, through which all console output funnels.
//!
//! A [`Console`] grants exclusive access to its writer for the duration of
//! one whole print call — callers hold `&mut Console`, so two logically
//! concurrent print calls are fully serialized and their bytes reach the
//! screen as two contiguous blocks, in lock-acquisition order (see
//! [`crate::vga::lemma_prints_serialize`]). In the kernel this exclusion
//! is a spinlock held with interrupts disabled; here it is the exclusive
//! borrow itself.

use vstd::prelude::*;

use crate::fmt::dec_digits;
use crate::fmt::fmt_dec;
use crate::fmt::fmt_hex;
use crate::fmt::hex_digits;
use crate::vga::ColorCode;
use crate::vga::ScreenChar;
use crate::vga::ScreenState;
use crate::vga::Writer;
use crate::vga::initial_state;
use crate::vga::spec_write_byte;
use crate::vga::spec_write_bytes;
use crate::vga::BUFFER_HEIGHT;
use crate::vga::BUFFER_WIDTH;

verus! {

/// The global output port: owns the only [`Writer`] and exposes printing
/// entry points usable from anywhere in the kernel, the panic path
/// included.
pub struct Console {
    writer: Writer,
}

impl View for Console {
    type V = ScreenState;

    closed spec fn view(&self) -> ScreenState {
        self.writer@
    }
}

impl Console {
    /// Well-formedness of the underlying writer.
    pub closed spec fn wf(self) -> bool {
        self.writer.wf()
    }

    /// Creates the output port over a blank screen in the given color.
    pub fn new(color: ColorCode) -> (c: Console)
        ensures
            c.wf(),
            c@ == initial_state(color.0),
    {
        Console { writer: Writer::new(color) }
    }

    /// Prints a whole byte string as one call: the bytes reach the screen
    /// contiguously, in order.
    pub fn print(&mut self, s: &[u8])
        requires
            old(self).wf(),
        ensures
            final(self).wf(),
            final(self)@ == spec_write_bytes(old(self)@, s@),
    {
        self.writer.write_string(s);
    }

    /// Prints one byte.
    pub fn print_byte(&mut self, b: u8)
        requires
            old(self).wf(),
        ensures
            final(self).wf(),
            final(self)@ == spec_write_byte(old(self)@, b),
    {
        self.writer.write_byte(b);
    }

    /// Prints the decimal rendering of `n`.
    pub fn print_dec(&mut self, n: usize)
        requires
            old(self).wf(),
        ensures
            final(self).wf(),
            final(self)@ == spec_write_bytes(old(self)@, dec_digits(n as nat)),
    {
        let v = fmt_dec(n);
        self.writer.write_string(v.as_slice());
    }

    /// Prints the hexadecimal rendering of `n`.
    pub fn print_hex(&mut self, n: u64)
        requires
            old(self).wf(),
        ensures
            final(self).wf(),
            final(self)@ == spec_write_bytes(old(self)@, hex_digits(n as nat)),
    {
        let v = fmt_hex(n);
        self.writer.write_string(v.as_slice());
    }

    /// Reads back one cell of the screen.
    pub fn cell(&self, row: usize, col: usize) -> (r: ScreenChar)
        requires
            self.wf(),
            row < BUFFER_HEIGHT,
            col < BUFFER_WIDTH,
        ensures
            r == self@.grid[row as int][col as int],
    {
        self.writer.cell(row, col)
    }

    /// The current cursor column.
    pub fn column(&self) -> (r: usize)
        ensures
            r as int == self@.col,
    {
        self.writer.column()
    }
}

} // verus!
