//! A session: a spawned process together with the expect engine over its
//! byte stream.
//!
//! The process handle `P` and the byte source `S` are whatever the owner
//! spawned; the session owns both and never touches them itself. All
//! matching decisions are delegated to the engine; the owner performs the
//! pulls, writes and process control through the handles this type exposes.

use vstd::prelude::*;
use vstd::string::StringSliceAdditionalSpecFns;

use crate::captures::Captures;
use crate::error::Error;
use crate::needle::{needle_found, Needle};
use crate::stream::{ExpectStep, Stream, DEFAULT_EXPECT_TIMEOUT_MS};

verus! {

/// A spawned process and the expect engine over its byte stream.
pub struct Session<P, S> {
    process: P,
    stream: Stream<S>,
}

impl<P, S> Session<P, S> {
    /// The owned process handle.
    pub closed spec fn proc(self) -> P {
        self.process
    }

    /// The owned expect engine.
    pub closed spec fn engine(self) -> Stream<S> {
        self.stream
    }

    /// The bytes pulled from the source but not yet consumed.
    pub open spec fn buffered(self) -> Seq<u8> {
        self.engine().buffered()
    }

    /// Whether end-of-file has been observed on the source.
    pub open spec fn at_eof(self) -> bool {
        self.engine().at_eof()
    }

    /// The expect deadline budget in milliseconds; nothing means no
    /// deadline.
    pub open spec fn timeout_ms(self) -> Option<u64> {
        self.engine().timeout_ms()
    }

    /// Combines a process handle and its byte source into a session with an
    /// empty lookahead and the default expect deadline.
    pub fn new(process: P, stream: S) -> (r: Session<P, S>)
        ensures
            r.proc() == process,
            r.engine().source() == stream,
            r.buffered() == Seq::<u8>::empty(),
            !r.at_eof(),
            r.timeout_ms() == Some(DEFAULT_EXPECT_TIMEOUT_MS),
    {
        Session { process, stream: Stream::new(stream) }
    }

    /// Replaces the expect deadline budget; nothing disables the deadline.
    pub fn set_expect_timeout(&mut self, timeout_ms: Option<u64>)
        ensures
            final(self).timeout_ms() == timeout_ms,
            final(self).proc() == old(self).proc(),
            final(self).buffered() == old(self).buffered(),
            final(self).at_eof() == old(self).at_eof(),
            final(self).engine().source() == old(self).engine().source(),
    {
        self.stream.set_expect_timeout(timeout_ms);
    }

    /// The current expect deadline budget in milliseconds.
    pub fn expect_timeout(&self) -> (r: Option<u64>)
        ensures
            r == self.timeout_ms(),
    {
        self.stream.expect_timeout()
    }

    /// A reference to the process running the program.
    pub fn get_process(&self) -> (r: &P)
        ensures
            *r == self.proc(),
    {
        &self.process
    }

    /// A mutable reference to the process running the program, for
    /// signalling, window sizing and termination.
    pub fn get_process_mut(&mut self) -> (r: &mut P)
        ensures
            *r == old(self).proc(),
            final(self).proc() == *final(r),
            final(self).engine() == old(self).engine(),
    {
        &mut self.process
    }

    /// A mutable reference to the expect engine, for pulling bytes into it
    /// and for raw stream access.
    pub fn engine_mut(&mut self) -> (r: &mut Stream<S>)
        ensures
            *r == old(self).engine(),
            final(self).engine() == *final(r),
            final(self).proc() == old(self).proc(),
    {
        &mut self.stream
    }

    /// A reference to the expect engine.
    pub fn engine_ref(&self) -> (r: &Stream<S>)
        ensures
            *r == self.engine(),
    {
        &self.stream
    }

    /// Takes the session apart into its process handle and byte source.
    pub fn into_parts(self) -> (r: (P, S))
        ensures
            r.0 == self.proc(),
            r.1 == self.engine().source(),
    {
        let Session { process, stream } = self;
        (process, stream.into_inner())
    }

    /// Whether the needle matches the buffered bytes, without pulling and
    /// without consuming anything.
    pub fn is_matched(&mut self, needle: &Needle) -> (r: Result<bool, Error>)
        ensures
            *final(self) == *old(self),
            r is Ok <==> needle.valid(),
            r matches Ok(b) ==> b == (needle_found(
                *needle,
                old(self).buffered(),
                old(self).at_eof(),
            ).len() != 0),
            r matches Err(e) ==> e == Error::RegexCompile,
    {
        self.stream.is_matched(needle)
    }

    /// Matches the needle against the buffered bytes, as the engine's
    /// single-shot check does: a non-empty match is consumed up to the end
    /// of its first range; no match at end-of-file surfaces the end-of-file
    /// error; otherwise empty captures are returned and nothing is
    /// consumed.
    pub fn check(&mut self, needle: &Needle) -> (r: Result<Captures, Error>)
        ensures
            r is Ok ==> needle.valid(),
            r matches Ok(c) ==> {
                &&& c.wf()
                &&& c.buf_view() == old(self).buffered()
                &&& c.ranges() == needle_found(*needle, old(self).buffered(), old(self).at_eof())
                &&& final(self).buffered() == old(self).buffered().subrange(
                    c.spec_cut(),
                    old(self).buffered().len() as int,
                )
            },
            r matches Err(e) ==> {
                &&& *final(self) == *old(self)
                &&& (e == Error::RegexCompile || e == Error::Eof)
                &&& (e == Error::RegexCompile <==> !needle.valid())
                &&& (e == Error::Eof ==> old(self).at_eof() && needle_found(
                    *needle,
                    old(self).buffered(),
                    old(self).at_eof(),
                ).len() == 0)
            },
            r is Ok && needle_found(*needle, old(self).buffered(), old(self).at_eof()).len() == 0
                ==> *final(self) == *old(self),
            final(self).at_eof() == old(self).at_eof(),
            final(self).timeout_ms() == old(self).timeout_ms(),
            final(self).proc() == old(self).proc(),
            final(self).engine().source() == old(self).engine().source(),
    {
        self.stream.check(needle)
    }

    /// One iteration of the expect loop, as the engine's step does: a
    /// non-empty match is returned and consumed up to the end of its first
    /// range; with no match, end-of-file surfaces the end-of-file error,
    /// and otherwise the caller is told to pull. Nothing is consumed unless
    /// a match is returned.
    pub fn expect_step(&mut self, needle: &Needle) -> (r: Result<ExpectStep, Error>)
        ensures
            r is Ok ==> needle.valid(),
            r matches Ok(step) ==> match step {
                ExpectStep::Matched(c) => {
                    &&& c.wf()
                    &&& !c.spec_is_empty()
                    &&& c.buf_view() == old(self).buffered()
                    &&& c.ranges() == needle_found(
                        *needle,
                        old(self).buffered(),
                        old(self).at_eof(),
                    )
                    &&& final(self).buffered() == old(self).buffered().subrange(
                        c.spec_cut(),
                        old(self).buffered().len() as int,
                    )
                },
                ExpectStep::Pull => {
                    &&& *final(self) == *old(self)
                    &&& !old(self).at_eof()
                    &&& needle_found(*needle, old(self).buffered(), old(self).at_eof()).len() == 0
                },
            },
            r matches Err(e) ==> {
                &&& *final(self) == *old(self)
                &&& (e == Error::RegexCompile || e == Error::Eof)
                &&& (e == Error::RegexCompile <==> !needle.valid())
                &&& (e == Error::Eof ==> old(self).at_eof() && needle_found(
                    *needle,
                    old(self).buffered(),
                    old(self).at_eof(),
                ).len() == 0)
            },
            final(self).at_eof() == old(self).at_eof(),
            final(self).timeout_ms() == old(self).timeout_ms(),
            final(self).proc() == old(self).proc(),
            final(self).engine().source() == old(self).engine().source(),
    {
        self.stream.expect_step(needle)
    }

    /// True iff no pulled byte awaits consumption.
    pub fn is_empty(&self) -> (r: bool)
        ensures
            r == (self.buffered().len() == 0),
    {
        self.stream.is_empty()
    }
}

/// The bytes `send_line` writes for a text: the text itself, then a line
/// feed.
pub fn line_message(text: &str) -> (r: Vec<u8>)
    ensures
        r@ == text.spec_bytes() + seq![10u8],
{
    let mut bytes = vstd::slice::slice_to_vec(text.as_bytes());
    bytes.push(10u8);
    bytes
}

/// A session over a plain stream, or one whose stream is logged: the two
/// shapes a spawned pty session comes in, dispatching to the same engine.
pub enum PtySession<P, S, L> {
    /// A session whose stream is read and written directly.
    Default(Session<P, S>),
    /// A session whose stream mirrors every transferred byte to a log.
    Logger(Session<P, L>),
}

impl<P, S, L> PtySession<P, S, L> {
    /// The owned process handle, whichever shape the session has.
    pub open spec fn spec_process(self) -> P {
        match self {
            PtySession::Default(session) => session.proc(),
            PtySession::Logger(session) => session.proc(),
        }
    }

    /// A reference to the process running the program.
    pub fn get_process(&self) -> (r: &P)
        ensures
            *r == self.spec_process(),
    {
        match self {
            PtySession::Default(session) => session.get_process(),
            PtySession::Logger(session) => session.get_process(),
        }
    }
}

} // verus!
