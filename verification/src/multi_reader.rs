//! A byte source that concatenates several byte sources into one logical
//! stream, draining each in order before advancing to the next.

use std::collections::VecDeque;
use vstd::prelude::*;
use vstd::assert_seqs_equal;
use crate::source::ByteSource;
use crate::source::IoError;

verus! {

/// The bytes still to be delivered by a queue of sources, in order.
pub open spec fn sources_bytes<R: ByteSource>(s: Seq<R>) -> Seq<u8>
    decreases s.len(),
{
    if s.len() == 0 {
        Seq::empty()
    } else {
        s[0].remaining() + sources_bytes(s.skip(1))
    }
}

/// A queue of exactly one source holds exactly that source's bytes.
pub proof fn lemma_single_source<R: ByteSource>(s: Seq<R>)
    requires
        s.len() == 1,
    ensures
        sources_bytes(s) == s[0].remaining(),
{
    assert(sources_bytes(s.skip(1)) == Seq::<u8>::empty());
    assert(sources_bytes(s) =~= s[0].remaining());
}

/// Takes multiple byte sources at once and reads them in order as one
/// stream: at most one source is active at a time, and an exhausted source
/// is discarded before the next queued one is promoted.
pub struct MultiReader<R: ByteSource> {
    readers: VecDeque<R>,
    /// Points to where we read right now.
    current: Option<R>,
}

impl<R: ByteSource> MultiReader<R> {
    /// The reader is spent: no active source is left and the queue is
    /// empty. A spent reader holds no bytes and stays spent forever.
    pub closed spec fn exhausted(&self) -> bool {
        self.current is None && self.readers@.len() == 0
    }

    /// Creates a `MultiReader`; the first queued source (if any) becomes the
    /// active one at once.
    pub fn new(mut readers: VecDeque<R>) -> (r: Self)
        ensures
            r.remaining() == sources_bytes(readers@),
    {
        let ghost orig = readers@;
        let current = readers.pop_front();
        let r = MultiReader { readers, current };
        proof {
            if orig.len() == 0 {
                assert(r.remaining() =~= sources_bytes(orig));
            } else {
                assert(r.readers@ =~= orig.skip(1));
                assert(r.remaining() =~= sources_bytes(orig));
            }
        }
        r
    }
}

impl<R: ByteSource> ByteSource for MultiReader<R> {
    closed spec fn remaining(&self) -> Seq<u8> {
        (match self.current {
            Some(r) => r.remaining(),
            None => Seq::empty(),
        }) + sources_bytes(self.readers@)
    }

    /// Reading a spent reader returns no bytes, succeeds, and leaves it
    /// spent; and a read that comes back empty though bytes were asked for
    /// proves the reader spent for good.
    fn read(&mut self, max: usize) -> (r: Result<Vec<u8>, IoError>)
        ensures
            old(self).exhausted() ==> (r matches Ok(v) && v@.len() == 0 && final (
            self).exhausted()),
            (r matches Ok(v) && v@.len() == 0 && max > 0) ==> final (self).exhausted(),
    {
        let ghost orig = self.remaining();
        loop
            invariant
                self.remaining() == orig,
                orig == old(self).remaining(),
                old(self).exhausted() ==> self.exhausted(),
            decreases 2 * self.readers@.len() + (if self.current is Some {
                1int
            } else {
                0int
            }),
        {
            match self.current.take() {
                None => {
                    match self.readers.pop_front() {
                        None => {
                            let out: Vec<u8> = Vec::new();
                            proof {
                                assert(self.remaining() =~= orig);
                                assert(orig.len() == 0);
                                assert_seqs_equal!(out@ == orig.take(0));
                                assert_seqs_equal!(self.remaining() == orig.skip(0));
                            }
                            return Ok(out);
                        },
                        Some(next) => {
                            self.current = Some(next);
                            proof {
                                assert(self.remaining() =~= orig);
                            }
                        },
                    }
                },
                Some(mut active) => {
                    let ghost before = active.remaining();
                    let res = active.read(max);
                    match res {
                        Err(e) => {
                            self.current = Some(active);
                            proof {
                                assert(self.remaining() =~= orig);
                            }
                            return Err(e);
                        },
                        Ok(v) => {
                            if v.len() > 0 || max == 0 {
                                self.current = Some(active);
                                proof {
                                    let l = v@.len() as int;
                                    assert_seqs_equal!(v@ == orig.take(l));
                                    assert_seqs_equal!(self.remaining() == orig.skip(l));
                                }
                                return Ok(v);
                            }
                            // The active source is exhausted: discard it and
                            // try the next queued one.
                            proof {
                                assert(before.len() == 0);
                                assert(self.remaining() =~= orig);
                            }
                        },
                    }
                },
            }
        }
    }
}

} // verus!
