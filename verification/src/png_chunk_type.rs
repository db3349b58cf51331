//! The 4-byte tag that identifies a chunk's kind.

use vstd::prelude::*;
use vstd::assert_seqs_equal;

verus! {

/// The tag of a text-comment chunk: the ASCII bytes `t E X t`.
pub open spec fn spec_text_type() -> Seq<u8> {
    seq![0x74u8, 0x45u8, 0x58u8, 0x74u8]
}

/// A sequence of bytes read as the characters with the same code points
/// (ASCII / Latin-1).
pub open spec fn spec_byte_chars(b: Seq<u8>) -> Seq<char> {
    b.map_values(|x: u8| x as char)
}

/// An exact 4-byte tag identifying a chunk's kind. Any 4-byte value is
/// structurally acceptable; the bytes are stored verbatim.
#[derive(Clone, Copy, PartialEq, Eq, Hash, Debug)]
pub struct PngChunkType {
    bytes: [u8; 4],
}

impl View for PngChunkType {
    type V = Seq<u8>;

    closed spec fn view(&self) -> Seq<u8> {
        self.bytes@
    }
}

impl PngChunkType {
    /// Stores the four bytes verbatim; no validation is performed.
    pub fn new(bytes: [u8; 4]) -> (r: Self)
        ensures
            r@ == bytes@,
    {
        PngChunkType { bytes }
    }

    /// The stored bytes, as a borrowed view.
    pub fn as_slice(&self) -> (r: &[u8])
        ensures
            r@ == self@,
    {
        self.bytes.as_slice()
    }

    /// True exactly when this is the text-comment tag `tEXt`.
    pub fn is_text(&self) -> (r: bool)
        ensures
            r == (self@ == spec_text_type()),
    {
        let r = self.bytes[0] == 0x74 && self.bytes[1] == 0x45 && self.bytes[2] == 0x58
            && self.bytes[3] == 0x74;
        proof {
            if r {
                assert_seqs_equal!(self@ == spec_text_type());
            }
        }
        r
    }

    /// The four tag bytes read as ASCII / Latin-1 characters.
    pub fn render(&self) -> (r: String)
        ensures
            r@ == spec_byte_chars(self@),
    {
        let mut s = String::new();
        crate::digits::push_char(&mut s, self.bytes[0] as char);
        crate::digits::push_char(&mut s, self.bytes[1] as char);
        crate::digits::push_char(&mut s, self.bytes[2] as char);
        crate::digits::push_char(&mut s, self.bytes[3] as char);
        proof {
            assert_seqs_equal!(s@ == spec_byte_chars(self@));
        }
        s
    }
}

} // verus!
