//! The buffered expect engine: a lookahead buffer over a byte source,
//! driven against a needle with peek/consume semantics.
//!
//! The engine never performs input itself. The owner of the stream pulls
//! bytes from the source and hands them in through [`Stream::feed`] (or
//! reports end-of-file through [`Stream::feed_eof`]); every decision —
//! whether a needle matched, what is consumed, which error is surfaced —
//! is made here.

use vstd::prelude::*;

use crate::captures::Captures;
use crate::error::Error;
use crate::needle::{needle_found, Needle};

verus! {

/// The expect deadline budget a session starts with, in milliseconds.
pub const DEFAULT_EXPECT_TIMEOUT_MS: u64 = 30000;

/// What an expect iteration decided.
pub enum ExpectStep {
    /// The needle matched; the match was consumed from the lookahead.
    Matched(Captures),
    /// No match yet and more input may come: pull from the source.
    Pull,
}

/// A byte source of type `S` together with the lookahead buffer of bytes
/// pulled but not yet consumed, the end-of-file flag, and the expect
/// deadline budget in milliseconds.
pub struct Stream<S> {
    inner: S,
    lookahead: Vec<u8>,
    eof: bool,
    expect_timeout_ms: Option<u64>,
}

impl<S> Stream<S> {
    /// The bytes pulled from the source but not yet consumed.
    pub closed spec fn buffered(self) -> Seq<u8> {
        self.lookahead@
    }

    /// Whether end-of-file has been observed on the source.
    pub closed spec fn at_eof(self) -> bool {
        self.eof
    }

    /// The expect deadline budget in milliseconds; nothing means no deadline.
    pub closed spec fn timeout_ms(self) -> Option<u64> {
        self.expect_timeout_ms
    }

    /// The wrapped byte source.
    pub closed spec fn source(self) -> S {
        self.inner
    }

    /// Wraps a byte source with an empty lookahead and the default deadline.
    pub fn new(inner: S) -> (r: Stream<S>)
        ensures
            r.buffered() == Seq::<u8>::empty(),
            !r.at_eof(),
            r.timeout_ms() == Some(DEFAULT_EXPECT_TIMEOUT_MS),
            r.source() == inner,
    {
        Stream { inner, lookahead: Vec::new(), eof: false, expect_timeout_ms: Some(
            DEFAULT_EXPECT_TIMEOUT_MS,
        ) }
    }

    /// Hands the byte source back, dropping the engine state.
    pub fn into_inner(self) -> (r: S)
        ensures
            r == self.source(),
    {
        self.inner
    }

    /// Replaces the expect deadline budget; nothing disables the deadline.
    pub fn set_expect_timeout(&mut self, timeout_ms: Option<u64>)
        ensures
            final(self).timeout_ms() == timeout_ms,
            final(self).buffered() == old(self).buffered(),
            final(self).at_eof() == old(self).at_eof(),
            final(self).source() == old(self).source(),
    {
        self.expect_timeout_ms = timeout_ms;
    }

    /// The current expect deadline budget in milliseconds.
    pub fn expect_timeout(&self) -> (r: Option<u64>)
        ensures
            r == self.timeout_ms(),
    {
        self.expect_timeout_ms
    }

    /// Borrows the byte source, for performing input and output on it.
    pub fn source_ref(&self) -> (r: &S)
        ensures
            *r == self.source(),
    {
        &self.inner
    }

    /// Mutably borrows the byte source, for performing input and output on
    /// it; the engine state is untouched.
    pub fn source_mut(&mut self) -> (r: &mut S)
        ensures
            *r == old(self).source(),
            final(self).source() == *final(r),
            final(self).buffered() == old(self).buffered(),
            final(self).at_eof() == old(self).at_eof(),
            final(self).timeout_ms() == old(self).timeout_ms(),
    {
        &mut self.inner
    }

    /// The lookahead buffer: every byte pulled and not yet consumed, in
    /// arrival order. Never advances the stream.
    pub fn peek(&self) -> (r: &[u8])
        ensures
            r@ == self.buffered(),
    {
        self.lookahead.as_slice()
    }

    /// True iff the lookahead buffer holds no byte.
    pub fn is_empty(&self) -> (r: bool)
        ensures
            r == (self.buffered().len() == 0),
    {
        self.lookahead.len() == 0
    }

    /// Whether end-of-file has been observed on the source.
    pub fn eof_seen(&self) -> (r: bool)
        ensures
            r == self.at_eof(),
    {
        self.eof
    }

    /// Appends bytes pulled from the source to the lookahead buffer.
    #[verifier::loop_isolation(false)]
    pub fn feed(&mut self, bytes: &[u8])
        ensures
            final(self).buffered() == old(self).buffered() + bytes@,
            final(self).at_eof() == old(self).at_eof(),
            final(self).timeout_ms() == old(self).timeout_ms(),
            final(self).source() == old(self).source(),
    {
        let mut i: usize = 0;
        while i < bytes.len()
            invariant
                0 <= i <= bytes@.len(),
                self.lookahead@ == old(self).lookahead@ + bytes@.take(i as int),
                self.eof == old(self).eof,
                self.expect_timeout_ms == old(self).expect_timeout_ms,
                self.inner == old(self).inner,
            decreases bytes@.len() - i,
        {
            self.lookahead.push(bytes[i]);
            proof {
                assert(old(self).lookahead@ + bytes@.take(i + 1) =~= (old(self).lookahead@
                    + bytes@.take(i as int)).push(bytes@[i as int]));
            }
            i = i + 1;
        }
        proof {
            assert(bytes@.take(bytes@.len() as int) =~= bytes@);
        }
    }

    /// Records that the source reported end-of-file.
    pub fn feed_eof(&mut self)
        ensures
            final(self).at_eof(),
            final(self).buffered() == old(self).buffered(),
            final(self).timeout_ms() == old(self).timeout_ms(),
            final(self).source() == old(self).source(),
    {
        self.eof = true;
    }

    /// Drops the first `count` bytes of the lookahead buffer; the bytes
    /// after them remain, in order.
    pub fn consume(&mut self, count: usize)
        requires
            count <= old(self).buffered().len(),
        ensures
            final(self).buffered() == old(self).buffered().subrange(
                count as int,
                old(self).buffered().len() as int,
            ),
            final(self).at_eof() == old(self).at_eof(),
            final(self).timeout_ms() == old(self).timeout_ms(),
            final(self).source() == old(self).source(),
    {
        let rest = vstd::slice::slice_to_vec(
            vstd::slice::slice_subrange(self.lookahead.as_slice(), count, self.lookahead.len()),
        );
        self.lookahead = rest;
    }

    /// Removes and returns the first `count` buffered bytes (or all of
    /// them, when fewer are buffered), bypassing the needle machinery.
    pub fn read_available(&mut self, count: usize) -> (r: Vec<u8>)
        ensures
            r@ == old(self).buffered().take(spec_min_len(old(self).buffered(), count)),
            final(self).buffered() == old(self).buffered().skip(
                spec_min_len(old(self).buffered(), count),
            ),
            final(self).at_eof() == old(self).at_eof(),
            final(self).timeout_ms() == old(self).timeout_ms(),
            final(self).source() == old(self).source(),
    {
        let n: usize = if count < self.lookahead.len() {
            count
        } else {
            self.lookahead.len()
        };
        let taken = vstd::slice::slice_to_vec(
            vstd::slice::slice_subrange(self.lookahead.as_slice(), 0, n),
        );
        self.consume(n);
        proof {
            assert(taken@ =~= old(self).buffered().take(n as int));
        }
        taken
    }

    /// Whether the needle matches the current lookahead, without pulling
    /// and without consuming anything. Fails exactly when a
    /// regular-expression pattern inside the needle does not compile.
    pub fn is_matched(&mut self, needle: &Needle) -> (r: Result<bool, Error>)
        ensures
            *final(self) == *old(self),
            r is Ok <==> needle.valid(),
            r matches Ok(b) ==> b == (needle_found(
                *needle,
                old(self).buffered(),
                old(self).at_eof(),
            ).len() != 0),
            r matches Err(e) ==> e == Error::RegexCompile,
    {
        match needle.check(self.lookahead.as_slice(), self.eof) {
            Ok(found) => Ok(found.len() != 0),
            Err(e) => Err(e),
        }
    }

    /// Matches the needle against the current lookahead, without pulling.
    ///
    /// On a non-empty match the captures hold the searched buffer and every
    /// located range, and exactly the bytes up to the end of the first range
    /// are consumed. On no match at end-of-file the end-of-file error is
    /// surfaced. Otherwise empty captures carrying the searched buffer are
    /// returned and nothing is consumed.
    pub fn check(&mut self, needle: &Needle) -> (r: Result<Captures, Error>)
        ensures
            r is Ok ==> needle.valid(),
            r matches Ok(c) ==> {
                &&& c.wf()
                &&& c.buf_view() == old(self).buffered()
                &&& c.ranges() == needle_found(*needle, old(self).buffered(), old(self).at_eof())
                &&& final(self).buffered() == old(self).buffered().subrange(
                    c.spec_cut(),
                    old(self).buffered().len() as int,
                )
            },
            r matches Err(e) ==> {
                &&& *final(self) == *old(self)
                &&& (e == Error::RegexCompile || e == Error::Eof)
                &&& (e == Error::RegexCompile <==> !needle.valid())
                &&& (e == Error::Eof ==> needle.valid() && old(self).at_eof() && needle_found(
                    *needle,
                    old(self).buffered(),
                    old(self).at_eof(),
                ).len() == 0)
            },
            r is Ok && needle_found(*needle, old(self).buffered(), old(self).at_eof()).len() == 0
                ==> *final(self) == *old(self),
            final(self).at_eof() == old(self).at_eof(),
            final(self).timeout_ms() == old(self).timeout_ms(),
            final(self).source() == old(self).source(),
    {
        let found = match needle.check(self.lookahead.as_slice(), self.eof) {
            Ok(v) => v,
            Err(e) => {
                return Err(e);
            },
        };
        if found.len() != 0 {
            let cut: usize = found[0].1;
            proof {
                assert(crate::needle::ranges_view(found@)[0] == (
                    found@[0].0 as int,
                    found@[0].1 as int,
                ));
            }
            let buf = vstd::slice::slice_to_vec(self.lookahead.as_slice());
            let caps = Captures::new(buf, found);
            self.consume(cut);
            Ok(caps)
        } else if self.eof {
            Err(Error::Eof)
        } else {
            let buf = vstd::slice::slice_to_vec(self.lookahead.as_slice());
            let caps = Captures::new(buf, found);
            proof {
                assert(old(self).buffered().subrange(0, old(self).buffered().len() as int)
                    =~= old(self).buffered());
            }
            Ok(caps)
        }
    }

    /// One iteration of the expect loop: match the needle against the
    /// current lookahead.
    ///
    /// On a non-empty match the captures are returned and the bytes up to
    /// the end of the first range are consumed. With no match, the
    /// end-of-file error is surfaced once end-of-file has been observed;
    /// until then the caller is told to pull more bytes from the source.
    /// Nothing is consumed unless a match is returned.
    pub fn expect_step(&mut self, needle: &Needle) -> (r: Result<ExpectStep, Error>)
        ensures
            r is Ok ==> needle.valid(),
            r matches Ok(step) ==> match step {
                ExpectStep::Matched(c) => {
                    &&& c.wf()
                    &&& !c.spec_is_empty()
                    &&& c.buf_view() == old(self).buffered()
                    &&& c.ranges() == needle_found(
                        *needle,
                        old(self).buffered(),
                        old(self).at_eof(),
                    )
                    &&& final(self).buffered() == old(self).buffered().subrange(
                        c.spec_cut(),
                        old(self).buffered().len() as int,
                    )
                },
                ExpectStep::Pull => {
                    &&& *final(self) == *old(self)
                    &&& !old(self).at_eof()
                    &&& needle_found(*needle, old(self).buffered(), old(self).at_eof()).len() == 0
                },
            },
            r matches Err(e) ==> {
                &&& *final(self) == *old(self)
                &&& (e == Error::RegexCompile || e == Error::Eof)
                &&& (e == Error::RegexCompile <==> !needle.valid())
                &&& (e == Error::Eof ==> needle.valid() && old(self).at_eof() && needle_found(
                    *needle,
                    old(self).buffered(),
                    old(self).at_eof(),
                ).len() == 0)
            },
            final(self).at_eof() == old(self).at_eof(),
            final(self).timeout_ms() == old(self).timeout_ms(),
            final(self).source() == old(self).source(),
    {
        let found = match needle.check(self.lookahead.as_slice(), self.eof) {
            Ok(v) => v,
            Err(e) => {
                return Err(e);
            },
        };
        if found.len() != 0 {
            let cut: usize = found[0].1;
            proof {
                assert(crate::needle::ranges_view(found@)[0] == (
                    found@[0].0 as int,
                    found@[0].1 as int,
                ));
            }
            let buf = vstd::slice::slice_to_vec(self.lookahead.as_slice());
            let caps = Captures::new(buf, found);
            self.consume(cut);
            Ok(ExpectStep::Matched(caps))
        } else if self.eof {
            Err(Error::Eof)
        } else {
            Ok(ExpectStep::Pull)
        }
    }
}

/// Peek idempotence: `is_matched` leaves the engine unchanged and its
/// answer is a function of the engine state and the needle alone, so two
/// consecutive calls with the same needle agree and leave the lookahead as
/// it was. The premises are what the contract of `is_matched` grants for
/// each of the two calls.
pub proof fn lemma_peek_idempotent<S>(
    first_state: Stream<S>,
    second_state: Stream<S>,
    first_answer: bool,
    second_answer: bool,
    needle: Needle,
)
    requires
        second_state == first_state,
        first_answer == (needle_found(needle, first_state.buffered(), first_state.at_eof()).len()
            != 0),
        second_answer == (needle_found(needle, second_state.buffered(), second_state.at_eof()).len()
            != 0),
    ensures
        second_answer == first_answer,
        second_state.buffered() == first_state.buffered(),
{
}

/// The smaller of a requested count and the sequence's length.
pub open spec fn spec_min_len(s: Seq<u8>, count: usize) -> int {
    if count < s.len() {
        count as int
    } else {
        s.len() as int
    }
}

/// The absolute deadline that a budget of `timeout_ms` milliseconds sets
/// when the clock reads `start_ms`, saturating at the largest time value;
/// nothing means no deadline.
pub fn deadline_from(start_ms: u64, timeout_ms: Option<u64>) -> (r: Option<u64>)
    ensures
        r matches Some(d) ==> timeout_ms matches Some(t) && d == spec_saturating_add(start_ms, t),
        r is None <==> timeout_ms is None,
{
    match timeout_ms {
        Some(t) => {
            if start_ms <= u64::MAX - t {
                Some(start_ms + t)
            } else {
                Some(u64::MAX)
            }
        },
        None => None,
    }
}

/// Whether the clock reading `now_ms` is at or past the deadline; a missing
/// deadline never expires.
pub fn deadline_expired(now_ms: u64, deadline_ms: Option<u64>) -> (r: bool)
    ensures
        r == (deadline_ms matches Some(d) && now_ms >= d),
{
    match deadline_ms {
        Some(d) => now_ms >= d,
        None => false,
    }
}

/// Addition on time values that stops at the largest representable value.
pub open spec fn spec_saturating_add(a: u64, b: u64) -> u64 {
    if a + b <= u64::MAX {
        (a + b) as u64
    } else {
        u64::MAX
    }
}

} // verus!
