//! Presentation of byte sequences as lowercase hex.

use vstd::prelude::*;

use crate::hash::{fmt_hex, hex_of};

verus! {

/// Wraps owned bytes for rendering as lowercase hex.
pub struct LowerHexFormatter(pub Vec<u8>);

impl LowerHexFormatter {
    /// The wrapped bytes as lowercase hex: two characters per byte, no
    /// separators, no prefix.
    pub fn hex_string(&self) -> (r: String)
        ensures
            r@ == hex_of(self.0@),
    {
        fmt_hex(self.0.as_slice())
    }
}

} // verus!
