//! Early bring-up core of a freestanding kernel, modelled as a verified
//! library: the text-mode screen driver (cell grid, cursor and scrolling
//! state machine), the serialized console port, the boot-stage flow, and
//! the test-report protocol that signals an exit status to the host.

pub mod console;
pub mod diag;
pub mod entry;
pub mod fmt;
pub mod harness;
pub mod status;
pub mod vga;
