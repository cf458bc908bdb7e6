//! Early-boot core of the Ignis kernel: the byte-level memory primitives,
//! the boot-protocol records exchanged with the Limine bootloader, and the
//! decisions of the boot sequence.
//!
//! Memory is modelled as a byte slice indexed by address, so that every
//! primitive can be stated and proved over the slice's contents.

/// Byte-level memory primitives.
pub mod memory;

/// The records of the Limine boot protocol.
pub mod limine;

/// The decisions of the boot sequence.
pub mod boot;
