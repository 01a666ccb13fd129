//! Startup diagnostics: one read-only look at a processor control
//! structure, printed purely for display.

use vstd::prelude::*;

use crate::console::Console;
use crate::fmt::hex_digits;
use crate::vga::lemma_write_bytes_concat;
use crate::vga::lemma_write_bytes_snoc;
use crate::vga::spec_write_bytes;
use crate::vga::NEWLINE_BYTE;

verus! {

/// Relies on x86_64's `Cr3::read`: it returns the physical frame of the
/// active level-4 page table, built by masking the low twelve bits of the
/// CR3 register and aligning down to the 4096-byte frame size, so the
/// frame's start address is always 4096-byte aligned. Which address comes
/// back depends on machine state, so nothing more is stated.
#[verifier::external_body]
fn read_level_four_table() -> (addr: u64)
    ensures
        addr % 4096 == 0,
{
    let (frame, _) = x86_64::registers::control::Cr3::read();
    frame.start_address().as_u64()
}

/// Prints one diagnostic line — the caller's label, the hexadecimal
/// digits of the active level-4 page table address, and a newline — and
/// returns that address. The read is purely for display: no processor
/// state is mutated, and whatever address the hardware reports, it is
/// 4096-byte aligned and the printed digits are exactly its rendering.
pub fn report_page_table(con: &mut Console, label: &[u8]) -> (addr: u64)
    requires
        old(con).wf(),
    ensures
        final(con).wf(),
        addr % 4096 == 0,
        final(con)@ == spec_write_bytes(
            old(con)@,
            label@ + hex_digits(addr as nat) + seq![NEWLINE_BYTE],
        ),
{
    let addr = read_level_four_table();
    con.print(label);
    con.print_hex(addr);
    con.print_byte(NEWLINE_BYTE);
    proof {
        let digits = hex_digits(addr as nat);
        lemma_write_bytes_concat(old(con)@, label@, digits);
        lemma_write_bytes_snoc(old(con)@, label@ + digits, NEWLINE_BYTE);
        assert((label@ + digits).push(NEWLINE_BYTE) =~= label@ + digits + seq![NEWLINE_BYTE]);
    }
    addr
}

} // verus!
