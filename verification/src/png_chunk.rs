//! The chunk codec: a length-prefixed, type-tagged, checksummed unit of
//! binary data, with stream parsing, serialization, and display rendering.

use vstd::prelude::*;
use vstd::assert_seqs_equal;
use vstd::string::StringExecFns;
use vstd::string::StrSliceExecFns;
use vstd::utf8::valid_utf8;
use vstd::utf8::decode_utf8;
use vstd::utf8::encode_utf8;
use crate::endian::spec_u32_from_be_bytes;
use crate::endian::spec_u32_to_be_bytes;
use crate::endian::lemma_u32_to_from_be_bytes;
use crate::endian::u32_from_be_bytes;
use crate::endian::u32_from_be_array;
use crate::endian::u32_to_be_bytes;
use crate::endian::u32_to_be_array;
use crate::png_chunk_type::PngChunkType;
use crate::png_chunk_type::spec_text_type;
use crate::png_chunk_type::spec_byte_chars;
use crate::source::ByteSource;
use crate::source::IoError;
use crate::source::read_exact;
use crate::source::is_suffix_of;
use crate::source::lemma_take_skip_concat;
use crate::source::lemma_suffix_of_skip;
use crate::digits::append_dec;
use crate::digits::append_hex;
use crate::digits::spec_dec_chars;
use crate::digits::spec_hex_chars;

verus! {

/// The checksum that the codec stores with each chunk it builds: the CRC-32
/// (IEEE) value of a byte sequence, as `crc32fast` computes it.
pub uninterp spec fn crc32_of(bytes: Seq<u8>) -> u32;

/// Relies on `crc32fast::hash`: the CRC-32 (IEEE) checksum of the bytes,
/// a function of the bytes alone.
#[verifier::external_body]
fn crc32(data: &Vec<u8>) -> (r: u32)
    ensures
        r == crc32_of(data@),
{
    crc32fast::hash(data.as_slice())
}

/// Relies on `String::from_utf8`: it succeeds exactly on UTF-8 input (the
/// encoding `vstd::utf8` specifies) and returns the string those bytes
/// encode.
#[verifier::external_body]
fn decode_text(v: &Vec<u8>) -> (r: Option<String>)
    ensures
        match r {
            Some(s) => valid_utf8(v@) && s@ == decode_utf8(v@),
            None => !valid_utf8(v@),
        },
{
    match String::from_utf8(v.clone()) {
        Ok(s) => Some(s),
        Err(_) => None,
    }
}

/// A chunk of the PNG-style layout: payload length, 4-byte type tag, stored
/// checksum, and the payload itself.
#[derive(Clone, PartialEq, Eq, Hash, Debug)]
pub struct PngChunk {
    pub len: u32,
    pub typ: PngChunkType,
    pub crc: [u8; 4],
    pub data: Vec<u8>,
}

/// `c` holds exactly the fields that the first `12 + c.len` bytes of `bytes`
/// spell out: big-endian length, verbatim type tag, payload of that length,
/// verbatim checksum.
pub open spec fn parses_to(bytes: Seq<u8>, c: PngChunk) -> bool {
    &&& bytes.len() >= 4
    &&& c.len == spec_u32_from_be_bytes(bytes.take(4))
    &&& bytes.len() >= 12 + c.len as int
    &&& c.typ@ == bytes.subrange(4, 8)
    &&& c.data@ == bytes.subrange(8, 8 + c.len as int)
    &&& c.crc@ == bytes.subrange(8 + c.len as int, 12 + c.len as int)
}

/// `bytes` starts with one complete chunk: a 4-byte length field and the
/// `length + 8` further bytes it announces.
pub open spec fn has_full_chunk(bytes: Seq<u8>) -> bool {
    bytes.len() >= 4 && bytes.len() >= 12 + spec_u32_from_be_bytes(bytes.take(4)) as int
}

impl PngChunk {
    /// The stored length agrees with the payload's actual byte count.
    pub open spec fn wf(&self) -> bool {
        self.len as int == self.data@.len()
    }

    /// The chunk's exact byte layout on the wire: big-endian length, type
    /// tag, payload, checksum — each field emitted verbatim.
    pub open spec fn spec_ser(&self) -> Seq<u8> {
        spec_u32_to_be_bytes(self.len) + self.typ@ + self.data@ + self.crc@
    }

    /// The chunk's display rendering, as characters.
    pub open spec fn spec_render(&self) -> Seq<char> {
        "Chunk type: "@ + spec_byte_chars(self.typ@) + ", Data len: "@ + spec_dec_chars(
            self.len as nat,
        ) + ", CRC: 0x"@ + spec_hex_chars(spec_u32_from_be_bytes(self.crc@) as nat) + (
        if self.typ@ == spec_text_type() {
            " - \""@ + decode_utf8(self.data@) + "\""@
        } else {
            Seq::<char>::empty()
        })
    }

    /// Creates a text-comment (`tEXt`) chunk. The checksum is computed over
    /// the payload bytes only — deliberately not over the type tag, matching
    /// the convention this codec reproduces.
    pub fn new_text_chunk(text: String) -> (c: Self)
        requires
            encode_utf8(text@).len() <= u32::MAX,
        ensures
            c.wf(),
            c.len as int == encode_utf8(text@).len(),
            c.typ@ == spec_text_type(),
            c.data@ == encode_utf8(text@),
            c.crc@ == spec_u32_to_be_bytes(crc32_of(encode_utf8(text@))),
    {
        let data = text.as_str().as_bytes_vec();
        let len = data.len() as u32;
        let typ = PngChunkType::new([0x74, 0x45, 0x58, 0x74]);
        let crc32 = crc32(&data);
        let crc = u32_to_be_array(crc32);
        proof {
            assert_seqs_equal!(typ@ == spec_text_type());
        }
        PngChunk { len, typ, crc, data }
    }

    /// Reads one chunk from `r`. A source that is empty at the chunk
    /// boundary is a clean end of stream, reported as `Ok(None)`; a source
    /// that ends anywhere inside a chunk is truncated input, reported as
    /// `Err(UnexpectedEof)`; a fault of the source passes through. The
    /// checksum is read verbatim and not validated against the payload.
    pub fn from_reader<R: ByteSource>(r: &mut R) -> (res: Result<Option<Self>, IoError>)
        ensures
            match res {
                Ok(None) => {
                    &&& old(r).remaining().len() == 0
                    &&& final (r).remaining() == old(r).remaining()
                },
                Ok(Some(c)) => {
                    &&& c.wf()
                    &&& parses_to(old(r).remaining(), c)
                    &&& final (r).remaining() == old(r).remaining().skip(12 + c.len as int)
                },
                Err(IoError::UnexpectedEof) => {
                    &&& old(r).remaining().len() > 0
                    &&& !has_full_chunk(old(r).remaining())
                    &&& final (r).remaining().len() == 0
                },
                Err(IoError::Other) => is_suffix_of(final (r).remaining(), old(r).remaining()),
            },
    {
        let ghost orig = r.remaining();
        let len = match Self::read_len(r) {
            Err(e) => {
                return Err(e);
            },
            Ok(None) => {
                return Ok(None);
            },
            Ok(Some(len)) => len,
        };
        let typ = match Self::read_type(r) {
            Err(e) => {
                proof {
                    if e == IoError::Other {
                        lemma_suffix_of_skip(r.remaining(), orig, 4);
                    }
                }
                return Err(e);
            },
            Ok(t) => t,
        };
        let ghost rem2 = r.remaining();
        let data = match Self::read_data(r, len) {
            Err(e) => {
                proof {
                    if e == IoError::Other {
                        lemma_take_skip_concat(orig, 4, 4);
                        lemma_suffix_of_skip(r.remaining(), orig, 8);
                    }
                }
                return Err(e);
            },
            Ok(d) => d,
        };
        let ghost rem3 = r.remaining();
        let crc = match Self::read_crc(r) {
            Err(e) => {
                proof {
                    lemma_take_skip_concat(orig, 4, 4);
                    assert(rem2 == orig.skip(8));
                    lemma_take_skip_concat(orig, 8, len as int);
                    if e == IoError::Other {
                        lemma_suffix_of_skip(r.remaining(), orig, 8 + len as int);
                    }
                }
                return Err(e);
            },
            Ok(c) => c,
        };
        let c = PngChunk { len, typ, crc, data };
        proof {
            lemma_take_skip_concat(orig, 4, 4);
            lemma_take_skip_concat(orig, 8, len as int);
            lemma_take_skip_concat(orig, 8 + len as int, 4);
            assert(c.typ@ =~= orig.subrange(4, 8));
            assert(c.data@ =~= orig.subrange(8, 8 + len as int));
            assert(c.crc@ =~= orig.subrange(8 + len as int, 12 + len as int));
        }
        Ok(Some(c))
    }

    /// Consumes the chunk and emits its wire bytes: length, type tag,
    /// payload, checksum. Whatever field values the chunk holds are emitted
    /// verbatim; nothing is recomputed.
    pub fn into_vec(self) -> (r: Vec<u8>)
        ensures
            r@ == self.spec_ser(),
    {
        let mut bin = u32_to_be_bytes(self.len);
        let mut typ = vstd::slice::slice_to_vec(self.typ.as_slice());
        bin.append(&mut typ);
        let mut data = self.data;
        bin.append(&mut data);
        let mut crc = vstd::slice::slice_to_vec(self.crc.as_slice());
        bin.append(&mut crc);
        proof {
            assert_seqs_equal!(bin@ == self.spec_ser());
        }
        bin
    }

    /// Reads the 4-byte big-endian length field. `Ok(None)` reports a source
    /// that was empty at the chunk boundary; a source that ends after one to
    /// three bytes is truncated input.
    pub fn read_len<R: ByteSource>(r: &mut R) -> (res: Result<Option<u32>, IoError>)
        ensures
            match res {
                Ok(None) => {
                    &&& old(r).remaining().len() == 0
                    &&& final (r).remaining() == old(r).remaining()
                },
                Ok(Some(len)) => {
                    &&& old(r).remaining().len() >= 4
                    &&& len == spec_u32_from_be_bytes(old(r).remaining().take(4))
                    &&& final (r).remaining() == old(r).remaining().skip(4)
                },
                Err(IoError::UnexpectedEof) => {
                    &&& 0 < old(r).remaining().len() < 4
                    &&& final (r).remaining().len() == 0
                },
                Err(IoError::Other) => is_suffix_of(final (r).remaining(), old(r).remaining()),
            },
    {
        let ghost orig = r.remaining();
        let mut first = match r.read(4) {
            Ok(v) => v,
            Err(e) => {
                proof {
                    assert(r.remaining() =~= orig.skip(0));
                }
                return Err(e);
            },
        };
        if first.len() == 0 {
            proof {
                assert(r.remaining() =~= orig);
            }
            return Ok(None);
        }
        let ghost k = first@.len() as int;
        if first.len() < 4 {
            let mut rest = match read_exact(r, 4 - first.len()) {
                Ok(v) => v,
                Err(IoError::UnexpectedEof) => {
                    return Err(IoError::UnexpectedEof);
                },
                Err(IoError::Other) => {
                    proof {
                        lemma_suffix_of_skip(r.remaining(), orig, k);
                    }
                    return Err(IoError::Other);
                },
            };
            first.append(&mut rest);
            proof {
                lemma_take_skip_concat(orig, k, 4 - k);
            }
        }
        let len = u32_from_be_bytes(&first);
        Ok(Some(len))
    }

    /// Reads the 4-byte type tag, verbatim, whatever its value.
    pub fn read_type<R: ByteSource>(r: &mut R) -> (res: Result<PngChunkType, IoError>)
        ensures
            match res {
                Ok(t) => {
                    &&& old(r).remaining().len() >= 4
                    &&& t@ == old(r).remaining().take(4)
                    &&& final (r).remaining() == old(r).remaining().skip(4)
                },
                Err(IoError::UnexpectedEof) => {
                    &&& old(r).remaining().len() < 4
                    &&& final (r).remaining().len() == 0
                },
                Err(IoError::Other) => is_suffix_of(final (r).remaining(), old(r).remaining()),
            },
    {
        let buf = match read_exact(r, 4) {
            Ok(v) => v,
            Err(e) => {
                return Err(e);
            },
        };
        let arr = [buf[0], buf[1], buf[2], buf[3]];
        proof {
            assert_seqs_equal!(arr@ == buf@);
        }
        Ok(PngChunkType::new(arr))
    }

    /// Reads exactly `len` payload bytes.
    pub fn read_data<R: ByteSource>(r: &mut R, len: u32) -> (res: Result<Vec<u8>, IoError>)
        ensures
            match res {
                Ok(v) => {
                    &&& old(r).remaining().len() >= len
                    &&& v@ == old(r).remaining().take(len as int)
                    &&& final (r).remaining() == old(r).remaining().skip(len as int)
                },
                Err(IoError::UnexpectedEof) => {
                    &&& old(r).remaining().len() < len
                    &&& final (r).remaining().len() == 0
                },
                Err(IoError::Other) => is_suffix_of(final (r).remaining(), old(r).remaining()),
            },
    {
        read_exact(r, len as usize)
    }

    /// Reads the 4-byte checksum, verbatim and unvalidated.
    pub fn read_crc<R: ByteSource>(r: &mut R) -> (res: Result<[u8; 4], IoError>)
        ensures
            match res {
                Ok(crc) => {
                    &&& old(r).remaining().len() >= 4
                    &&& crc@ == old(r).remaining().take(4)
                    &&& final (r).remaining() == old(r).remaining().skip(4)
                },
                Err(IoError::UnexpectedEof) => {
                    &&& old(r).remaining().len() < 4
                    &&& final (r).remaining().len() == 0
                },
                Err(IoError::Other) => is_suffix_of(final (r).remaining(), old(r).remaining()),
            },
    {
        let buf = match read_exact(r, 4) {
            Ok(v) => v,
            Err(e) => {
                return Err(e);
            },
        };
        let arr = [buf[0], buf[1], buf[2], buf[3]];
        proof {
            assert_seqs_equal!(arr@ == buf@);
        }
        Ok(arr)
    }

    /// Renders the chunk for display. For a text-comment chunk the payload
    /// is appended, quoted, decoded as UTF-8; a text-tagged payload that is
    /// not valid UTF-8 is undisplayable and yields `None`.
    pub fn render(&self) -> (res: Option<String>)
        ensures
            match res {
                Some(s) => {
                    &&& (self.typ@ == spec_text_type() ==> valid_utf8(self.data@))
                    &&& s@ == self.spec_render()
                },
                None => self.typ@ == spec_text_type() && !valid_utf8(self.data@),
            },
    {
        let mut s = String::new();
        s.append("Chunk type: ");
        let typ_text = self.typ.render();
        s.append(typ_text.as_str());
        s.append(", Data len: ");
        append_dec(&mut s, self.len);
        s.append(", CRC: 0x");
        let crc_value = u32_from_be_array(&self.crc);
        append_hex(&mut s, crc_value);
        if self.typ.is_text() {
            let text = match decode_text(&self.data) {
                None => {
                    return None;
                },
                Some(t) => t,
            };
            s.append(" - \"");
            s.append(text.as_str());
            s.append("\"");
        }
        proof {
            assert(s@ =~= self.spec_render());
        }
        Some(s)
    }
}

/// Round trip: a chunk read out of a well-formed byte sequence serializes
/// back to exactly the bytes it was read from.
pub proof fn lemma_round_trip(bytes: Seq<u8>, c: PngChunk)
    requires
        parses_to(bytes, c),
    ensures
        c.spec_ser() == bytes.take(12 + c.len as int),
{
    lemma_u32_to_from_be_bytes(bytes.take(4));
    assert(c.spec_ser() =~= bytes.take(12 + c.len as int));
}

} // verus!
