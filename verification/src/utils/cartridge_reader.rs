use vstd::prelude::*;

verus! {

/// A program image as it came from storage: raw bytes, two per instruction,
/// high byte first, with no header.
pub struct CartridgeReader {
    /// The bytes of the image, in order.
    pub memory: Vec<u8>,
}

impl View for CartridgeReader {
    type V = Seq<u8>;

    open spec fn view(&self) -> Seq<u8> {
        self.memory@
    }
}

impl CartridgeReader {
    /// Wraps the bytes that were read.
    pub fn from_bytes(bytes: Vec<u8>) -> (cartridge: Self)
        ensures
            cartridge@ == bytes@,
    {
        CartridgeReader { memory: bytes }
    }
}

} // verus!
