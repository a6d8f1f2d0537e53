//! What the host hands to the machine.

pub mod cartridge_reader;

pub use cartridge_reader::CartridgeReader;
