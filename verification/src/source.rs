//! Byte sources: the `ByteSource` trait that every stream the codec reads
//! must satisfy, an in-memory source, and exact-count reading on top of any
//! source.

use vstd::prelude::*;
use vstd::assert_seqs_equal;

verus! {

/// How a read can fail: the stream ended where more bytes were structurally
/// required, or the underlying source reported a fault of its own.
#[derive(Clone, Copy, Debug, PartialEq, Eq, Structural)]
pub enum IoError {
    UnexpectedEof,
    Other,
}

/// `suffix` is what is left of `whole` after some prefix was consumed.
pub open spec fn is_suffix_of(suffix: Seq<u8>, whole: Seq<u8>) -> bool {
    exists|k: int| 0 <= k <= whole.len() && suffix == #[trigger] whole.skip(k)
}

/// A blocking source of bytes, drained strictly from front to back.
///
/// `remaining()` models the bytes the source will still deliver, in order.
/// A successful read hands back a prefix of them: at least one byte when the
/// source is not exhausted and the caller asked for any, and never more than
/// `max`. A failing read leaves the source exactly where it was.
pub trait ByteSource: Sized {
    spec fn remaining(&self) -> Seq<u8>;

    fn read(&mut self, max: usize) -> (r: Result<Vec<u8>, IoError>)
        ensures
            match r {
                Ok(v) => {
                    &&& v@.len() <= max
                    &&& v@.len() <= old(self).remaining().len()
                    &&& v@ == old(self).remaining().take(v@.len() as int)
                    &&& final (self).remaining() == old(self).remaining().skip(v@.len() as int)
                    &&& (v@.len() == 0 ==> max == 0 || old(self).remaining().len() == 0)
                },
                Err(e) => {
                    &&& e == IoError::Other
                    &&& final (self).remaining() == old(self).remaining()
                },
            },
    ;
}

/// Taking `k` bytes and then `m` more off a sequence takes its first
/// `k + m` bytes; what is left is the sequence less those bytes.
pub proof fn lemma_take_skip_concat(s: Seq<u8>, k: int, m: int)
    requires
        0 <= k,
        0 <= m,
        k + m <= s.len(),
    ensures
        s.take(k) + s.skip(k).take(m) == s.take(k + m),
        s.skip(k).skip(m) == s.skip(k + m),
{
    assert(s.take(k) + s.skip(k).take(m) =~= s.take(k + m));
    assert(s.skip(k).skip(m) =~= s.skip(k + m));
}

/// What is a suffix of `s` with its first `j` bytes dropped is a suffix of
/// `s` itself.
pub proof fn lemma_suffix_of_skip(a: Seq<u8>, s: Seq<u8>, j: int)
    requires
        0 <= j <= s.len(),
        is_suffix_of(a, s.skip(j)),
    ensures
        is_suffix_of(a, s),
{
    let k = choose|k: int| 0 <= k <= s.skip(j).len() && a == #[trigger] s.skip(j).skip(k);
    lemma_take_skip_concat(s, j, k);
    assert(a == s.skip(j + k));
}

/// An in-memory byte source: a buffer drained from the front.
pub struct BytesReader {
    data: Vec<u8>,
    pos: usize,
}

impl BytesReader {
    /// Wraps a buffer; every byte of it is still to be read.
    pub fn new(data: Vec<u8>) -> (r: Self)
        ensures
            r.remaining() == data@,
    {
        let r = BytesReader { data, pos: 0 };
        proof {
            assert_seqs_equal!(r.remaining() == r.data@);
        }
        r
    }
}

impl ByteSource for BytesReader {
    closed spec fn remaining(&self) -> Seq<u8> {
        if self.pos <= self.data@.len() {
            self.data@.skip(self.pos as int)
        } else {
            Seq::empty()
        }
    }

    /// An in-memory read cannot fail, and it always delivers as many bytes
    /// as are there, up to `max`.
    fn read(&mut self, max: usize) -> (r: Result<Vec<u8>, IoError>)
        ensures
            r is Ok,
            r matches Ok(v) ==> v@.len() == vstd::math::min(
                max as int,
                old(self).remaining().len() as int,
            ),
    {
        let avail = if self.pos <= self.data.len() {
            self.data.len() - self.pos
        } else {
            0
        };
        let n = if max < avail {
            max
        } else {
            avail
        };
        if n == 0 {
            let out: Vec<u8> = Vec::new();
            proof {
                assert_seqs_equal!(out@ == self.remaining().take(0));
                assert_seqs_equal!(self.remaining() == self.remaining().skip(0));
            }
            return Ok(out);
        }
        let ghost pre = *self;
        let mut out: Vec<u8> = Vec::new();
        let mut i: usize = 0;
        while i < n
            invariant
                *self == pre,
                i <= n,
                n <= max,
                pre.pos + n <= pre.data@.len(),
                pre.data@.len() <= usize::MAX,
                out@ == pre.data@.subrange(pre.pos as int, pre.pos + i),
            decreases n - i,
        {
            out.push(self.data[self.pos + i]);
            i += 1;
            proof {
                assert_seqs_equal!(out@ == pre.data@.subrange(pre.pos as int, pre.pos + i));
            }
        }
        self.pos = self.pos + n;
        proof {
            assert_seqs_equal!(out@ == pre.remaining().take(n as int));
            assert_seqs_equal!(self.remaining() == pre.remaining().skip(n as int));
        }
        Ok(out)
    }
}

/// Reads exactly `n` bytes from `r`, looping over as many partial reads as
/// the source needs. Fails with `UnexpectedEof` exactly when the source runs
/// out before delivering `n` bytes; a fault of the source is passed through.
pub fn read_exact<R: ByteSource>(r: &mut R, n: usize) -> (res: Result<Vec<u8>, IoError>)
    ensures
        match res {
            Ok(v) => {
                &&& v@.len() == n
                &&& old(r).remaining().len() >= n
                &&& v@ == old(r).remaining().take(n as int)
                &&& final (r).remaining() == old(r).remaining().skip(n as int)
            },
            Err(IoError::UnexpectedEof) => {
                &&& old(r).remaining().len() < n
                &&& final (r).remaining().len() == 0
            },
            Err(IoError::Other) => is_suffix_of(final (r).remaining(), old(r).remaining()),
        },
{
    let ghost orig = r.remaining();
    let mut acc: Vec<u8> = Vec::new();
    loop
        invariant
            acc@.len() <= n,
            orig.len() >= acc@.len(),
            acc@ == orig.take(acc@.len() as int),
            r.remaining() == orig.skip(acc@.len() as int),
            orig == old(r).remaining(),
        decreases n - acc@.len(),
    {
        if acc.len() == n {
            proof {
                assert_seqs_equal!(acc@ == orig.take(n as int));
            }
            return Ok(acc);
        }
        let ghost k = acc@.len() as int;
        let want = n - acc.len();
        let mut got = match r.read(want) {
            Ok(v) => v,
            Err(e) => {
                proof {
                    assert(r.remaining() == orig.skip(k));
                }
                return Err(e);
            },
        };
        if got.len() == 0 {
            proof {
                assert(orig.skip(k).len() == 0);
                assert(orig.len() == k);
            }
            return Err(IoError::UnexpectedEof);
        }
        let ghost m = got@.len() as int;
        acc.append(&mut got);
        proof {
            lemma_take_skip_concat(orig, k, m);
        }
    }
}

} // verus!
