//! Sliding-window dictionary for LZ77 back-references.
//!
//! The window holds every byte produced since the last dictionary reset
//! (with an optional preset dictionary in front), so a back-reference of
//! distance `d` reads the byte `d + 1` positions behind the write head.
//! Writes are capped by a per-call `limit`; a repeat truncated by the
//! limit is stored as pending and resumed by `repeat_pending`.  `flush`
//! hands the newly produced bytes to the caller.

use vstd::prelude::*;

use crate::error::Error;

verus! {

/// How many bytes a repeat of `len` may write when `cur` bytes exist and
/// the call is capped at `limit`.
pub open spec fn repeat_todo(len: int, cur: int, limit: int) -> int {
    if limit > cur {
        if len <= limit - cur {
            len
        } else {
            limit - cur
        }
    } else {
        0
    }
}

pub struct LZDecoder {
    /// Bytes produced since the last dictionary reset, preset dict first.
    pub buf: Vec<u8>,
    /// Dictionary capacity: distances at or above it are rejected.
    pub buf_size: usize,
    /// Bytes before this index have already been flushed to the caller.
    pub start: usize,
    /// Absolute cap on `buf.len()` for the current decode call.
    pub limit: usize,
    pub pending_len: usize,
    pub pending_dist: usize,
}

impl LZDecoder {
    pub open spec fn wf(self) -> bool {
        self.start <= self.buf@.len()
    }

    pub fn new(dict_size: usize, preset_dict: Option<&Vec<u8>>) -> (r: LZDecoder)
        ensures
            r.wf(),
            r.buf_size == dict_size,
            r.start == r.buf@.len(),
            r.limit == r.buf@.len(),
            r.pending_len == 0,
            match preset_dict {
                Some(d) => r.buf@ == d@,
                None => r.buf@ == Seq::<u8>::empty(),
            },
    {
        let buf: Vec<u8> = match preset_dict {
            Some(d) => {
                let mut b: Vec<u8> = Vec::new();
                b.extend_from_slice(d.as_slice());
                proof {
                    assert(b@ =~= d@);
                }
                b
            },
            None => Vec::new(),
        };
        let n = buf.len();
        LZDecoder {
            buf,
            buf_size: dict_size,
            start: n,
            limit: n,
            pending_len: 0,
            pending_dist: 0,
        }
    }

    /// Clears the dictionary (LZMA2 dictionary reset).
    pub fn reset(&mut self)
        ensures
            final(self).wf(),
            final(self).buf@ == Seq::<u8>::empty(),
            final(self).buf_size == old(self).buf_size,
            final(self).start == 0,
            final(self).limit == 0,
            final(self).pending_len == 0,
    {
        self.buf = Vec::new();
        self.start = 0;
        self.limit = 0;
        self.pending_len = 0;
        self.pending_dist = 0;
    }

    /// Allows `out_max` more bytes to be produced in this call.
    pub fn set_limit(&mut self, out_max: usize)
        ensures
            *final(self) == (LZDecoder { limit: final(self).limit, ..*old(self) }),
            final(self).limit >= final(self).buf@.len(),
            out_max <= usize::MAX - old(self).buf@.len() ==> final(self).limit == old(
                self,
            ).buf@.len() + out_max,
    {
        if out_max <= usize::MAX - self.buf.len() {
            self.limit = self.buf.len() + out_max;
        } else {
            self.limit = usize::MAX;
        }
    }

    pub fn has_space(&self) -> (r: bool)
        ensures
            r == (self.buf@.len() < self.limit),
    {
        self.buf.len() < self.limit
    }

    pub fn has_pending(&self) -> (r: bool)
        ensures
            r == (self.pending_len > 0),
    {
        self.pending_len > 0
    }

    /// The write position; the callers mask it, and the dictionary size is
    /// a multiple of 16, so it stands in for the global position.
    pub fn get_pos(&self) -> (r: usize)
        ensures
            r == self.buf@.len(),
    {
        self.buf.len()
    }

    /// The byte `dist + 1` positions behind the write head, or 0 if that
    /// slot has not been written yet.
    pub fn get_byte(&self, dist: usize) -> (r: u8)
        ensures
            r == if dist < self.buf@.len() {
                self.buf@[self.buf@.len() - 1 - dist]
            } else {
                0u8
            },
    {
        if dist < self.buf.len() {
            self.buf[self.buf.len() - 1 - dist]
        } else {
            0
        }
    }

    pub fn put_byte(&mut self, b: u8)
        ensures
            *final(self) == (LZDecoder { buf: final(self).buf, ..*old(self) }),
            final(self).buf@ == old(self).buf@.push(b),
    {
        self.buf.push(b);
    }

    /// Copies `len` bytes from `dist + 1` positions back, stopping at the
    /// call limit; the remainder becomes the pending repeat.  Fails when
    /// the distance reaches outside the valid dictionary contents.
    pub fn repeat(&mut self, dist: usize, len: usize) -> (r: Result<(), Error>)
        requires
            old(self).wf(),
        ensures
            match r {
                Ok(_) => {
                    let todo = repeat_todo(
                        len as int,
                        old(self).buf@.len() as int,
                        old(self).limit as int,
                    );
                    &&& final(self).buf@.len() == old(self).buf@.len() + todo
                    &&& old(self).buf@.is_prefix_of(final(self).buf@)
                    &&& forall|k: int|
                        old(self).buf@.len() <= k < final(self).buf@.len()
                            ==> #[trigger] final(self).buf@[k] == final(self).buf@[k - dist - 1]
                    &&& final(self).pending_len == len - todo
                    &&& final(self).pending_dist == dist
                    &&& final(self).start == old(self).start
                    &&& final(self).buf_size == old(self).buf_size
                    &&& final(self).limit == old(self).limit
                    &&& dist < old(self).buf@.len()
                },
                Err(_) => *final(self) == *old(self),
            },
            r is Err <==> dist >= (if old(self).buf@.len() < old(self).buf_size {
                old(self).buf@.len() as int
            } else {
                old(self).buf_size as int
            }),
            final(self).wf(),
    {
        let valid = if self.buf.len() < self.buf_size {
            self.buf.len()
        } else {
            self.buf_size
        };
        if dist >= valid {
            return Err(Error::corrupt("distance reaches outside the dictionary"));
        }
        let todo: usize = if self.limit > self.buf.len() {
            let room = self.limit - self.buf.len();
            if len <= room {
                len
            } else {
                room
            }
        } else {
            0
        };
        let ghost start_len = self.buf@.len() as int;
        let mut k: usize = 0;
        while k < todo
            invariant
                self.wf(),
                dist < start_len,
                k <= todo,
                self.buf@.len() == start_len + k,
                old(self).buf@.is_prefix_of(self.buf@),
                start_len == old(self).buf@.len(),
                self.buf_size == old(self).buf_size,
                self.start == old(self).start,
                self.limit == old(self).limit,
                self.pending_len == old(self).pending_len,
                self.pending_dist == old(self).pending_dist,
                forall|j: int|
                    start_len <= j < self.buf@.len() ==> #[trigger] self.buf@[j] == self.buf@[j
                        - dist - 1],
            decreases todo - k,
        {
            let n = self.buf.len();
            let b = self.buf[n - 1 - dist];
            self.buf.push(b);
            proof {
                assert(old(self).buf@.is_prefix_of(self.buf@));
            }
            k += 1;
        }
        self.pending_len = len - todo;
        self.pending_dist = dist;
        Ok(())
    }

    /// Drains a repeat left over from a previous limited call.
    pub fn repeat_pending(&mut self) -> (r: Result<(), Error>)
        requires
            old(self).wf(),
        ensures
            final(self).wf(),
            old(self).buf@.is_prefix_of(final(self).buf@),
            final(self).start == old(self).start,
            final(self).buf_size == old(self).buf_size,
            final(self).limit == old(self).limit,
            r is Ok && old(self).pending_len == 0 ==> final(self).buf@ == old(self).buf@
                && final(self).pending_len == 0,
            r is Ok ==> final(self).buf@.len() == old(self).buf@.len() + repeat_todo(
                old(self).pending_len as int,
                old(self).buf@.len() as int,
                old(self).limit as int,
            ),
            final(self).buf@.len() <= if old(self).limit > old(self).buf@.len() {
                old(self).limit as int
            } else {
                old(self).buf@.len() as int
            },
    {
        if self.pending_len > 0 {
            let len = self.pending_len;
            self.pending_len = 0;
            let dist = self.pending_dist;
            self.repeat(dist, len)
        } else {
            Ok(())
        }
    }

    /// Appends `len` literal bytes taken from the chunk source (LZMA2
    /// uncompressed chunks); the limit follows the new end.
    pub fn copy_uncompressed(&mut self, data: &Vec<u8>, pos: &mut usize, len: usize) -> (r: Result<
        (),
        Error,
    >)
        requires
            old(self).wf(),
            *old(pos) <= data@.len(),
        ensures
            final(self).wf(),
            *old(pos) <= *final(pos) <= data@.len(),
            old(self).buf@.is_prefix_of(final(self).buf@),
            final(self).start == old(self).start,
            final(self).buf_size == old(self).buf_size,
            final(self).pending_len == old(self).pending_len,
            r matches Ok(_) ==> final(self).buf@ == old(self).buf@ + data@.subrange(
                *old(pos) as int,
                *old(pos) + len,
            ) && *final(pos) == *old(pos) + len && final(self).limit == final(self).buf@.len(),
    {
        let chunk = crate::bytes::read_exact(data, pos, len)?;
        self.buf.extend_from_slice(chunk.as_slice());
        self.limit = self.buf.len();
        Ok(())
    }

    /// Appends the bytes produced since the last flush to `out`.
    pub fn flush_into(&mut self, out: &mut Vec<u8>) -> (count: usize)
        requires
            old(self).wf(),
        ensures
            final(self).wf(),
            final(self).buf == old(self).buf,
            final(self).buf_size == old(self).buf_size,
            final(self).limit == old(self).limit,
            final(self).pending_len == old(self).pending_len,
            final(self).pending_dist == old(self).pending_dist,
            final(self).start == final(self).buf@.len(),
            final(out)@ == old(out)@ + old(self).buf@.subrange(
                old(self).start as int,
                old(self).buf@.len() as int,
            ),
            count == old(self).buf@.len() - old(self).start,
    {
        let ghost out0 = out@;
        let mut k: usize = self.start;
        while k < self.buf.len()
            invariant
                old(self).start <= k <= self.buf@.len(),
                self == old(self),
                out@ == out0 + self.buf@.subrange(old(self).start as int, k as int),
            decreases self.buf@.len() - k,
        {
            out.push(self.buf[k]);
            proof {
                assert(out@ =~= out0 + self.buf@.subrange(old(self).start as int, k + 1));
            }
            k += 1;
        }
        let count = self.buf.len() - self.start;
        self.start = self.buf.len();
        proof {
            assert(out@ =~= out0 + self.buf@.subrange(
                old(self).start as int,
                self.buf@.len() as int,
            ));
        }
        count
    }
}

} // verus!
