//! The streaming reader: a buffer of bytes not yet consumed, the group
//! watermark, and the decision of what to do on each pull. Reading from a
//! byte source is left to the caller, who answers `NeedBytes` with
//! [`Reader::feed`].
use vstd::prelude::*;

use crate::bytes::{Blame, Outcome, Parsed};
use crate::decode::record;
use crate::field::Value;
use crate::item::{group_of, Group, Item, Kind};

verus! {

/// std's `io::Error`, which the caller's byte source fails with; it is only
/// carried through, never looked into.
#[verifier::external_type_specification]
#[verifier::external_body]
pub struct ExIoError(std::io::Error);

/// Why a stream of records ended in failure.
#[derive(Debug)]
pub enum Error {
    /// The byte source failed.
    Io(std::io::Error),
    /// A record or field could not be decoded.
    Parse(Blame),
    /// A record's group is lower than that of a record before it.
    OutOfOrder,
}

/// What a pull produced, in spec terms.
pub enum Pulled {
    Item((Kind, Seq<Value>)),
    Io,
    Parse(Blame),
    OutOfOrder,
    NeedBytes,
    End,
}

/// What a pull produced.
#[derive(Debug)]
pub enum Step {
    /// The next record.
    Item(Item),
    /// The stream failed; it yields nothing more.
    Failed(Error),
    /// The buffered bytes do not settle the next record: feed more.
    NeedBytes,
    /// The stream has ended.
    End,
}

impl View for Step {
    type V = Pulled;

    open spec fn view(&self) -> Pulled {
        match self {
            Step::Item(i) => Pulled::Item(i@),
            Step::Failed(Error::Io(_)) => Pulled::Io,
            Step::Failed(Error::Parse(b)) => Pulled::Parse(*b),
            Step::Failed(Error::OutOfOrder) => Pulled::OutOfOrder,
            Step::NeedBytes => Pulled::NeedBytes,
            Step::End => Pulled::End,
        }
    }
}

/// The reader's state in spec terms.
pub struct ReaderState {
    /// Bytes received and not yet consumed.
    pub pending: Seq<u8>,
    /// The group of the last record handed out.
    pub watermark: Group,
    /// The source has reported that it has no more bytes.
    pub source_done: bool,
    /// The stream has ended, cleanly or with a failure.
    pub ended: bool,
}

/// The state after the caller hands over `chunk`; an empty chunk says
/// that the source has no more bytes.
pub open spec fn fed(s: ReaderState, chunk: Seq<u8>) -> ReaderState {
    ReaderState {
        pending: s.pending + chunk,
        source_done: s.source_done || chunk.len() == 0,
        ..s
    }
}

/// The reader's state and what it hands out on one pull.
pub open spec fn pull(s: ReaderState) -> (ReaderState, Pulled) {
    if s.ended {
        (s, Pulled::End)
    } else {
        match record(s.pending) {
            Outcome::Done((k, vals), n) => {
                let rest = s.pending.subrange(n, s.pending.len() as int);
                if group_of(k).rank() < s.watermark.rank() {
                    (ReaderState { pending: rest, ended: true, ..s }, Pulled::OutOfOrder)
                } else {
                    (
                        ReaderState { pending: rest, watermark: group_of(k), ..s },
                        Pulled::Item((k, vals)),
                    )
                }
            },
            Outcome::Incomplete => if s.source_done {
                (ReaderState { ended: true, ..s }, Pulled::End)
            } else {
                (s, Pulled::NeedBytes)
            },
            Outcome::Error(b) => (ReaderState { ended: true, ..s }, Pulled::Parse(b)),
            Outcome::Failure(b) => (ReaderState { ended: true, ..s }, Pulled::Parse(b)),
        }
    }
}

/// Decodes a stream of records that arrives in chunks of any size.
pub struct Reader {
    buf: Vec<u8>,
    group: Group,
    source_done: bool,
    ended: bool,
}

impl View for Reader {
    type V = ReaderState;

    closed spec fn view(&self) -> ReaderState {
        ReaderState {
            pending: self.buf@,
            watermark: self.group,
            source_done: self.source_done,
            ended: self.ended,
        }
    }
}

impl Reader {
    /// A reader with nothing buffered, before any record.
    pub fn new() -> (r: Reader)
        ensures
            r@ == (ReaderState {
                pending: seq![],
                watermark: Group::Flag,
                source_done: false,
                ended: false,
            }),
    {
        Reader { buf: Vec::new(), group: Group::Flag, source_done: false, ended: false }
    }

    /// Hand the reader the next chunk of the source; an empty chunk says
    /// that the source has no more bytes.
    pub fn feed(&mut self, chunk: &[u8])
        ensures
            final(self)@ == fed(old(self)@, chunk@),
    {
        if chunk.len() == 0 {
            self.source_done = true;
        } else {
            self.buf.extend_from_slice(chunk);
        }
        assert(self.buf@ =~= old(self).buf@ + chunk@);
    }

    /// Pull the next record. A record is handed out only when the buffered
    /// bytes settle it; a record whose group is below the watermark, and
    /// any decoding failure, end the stream. When the source is done and
    /// the bytes left do not make a whole record, the stream ends cleanly.
    pub fn next_step(&mut self) -> (r: Step)
        ensures
            (final(self)@, r@) == pull(old(self)@),
    {
        if self.ended {
            return Step::End;
        }
        match Item::parse(self.buf.as_slice()) {
            Parsed::Done(item, n) => {
                let rest = self.buf.split_off(n);
                self.buf = rest;
                let g = item.group();
                if g.order() < self.group.order() {
                    self.ended = true;
                    Step::Failed(Error::OutOfOrder)
                } else {
                    self.group = g;
                    Step::Item(item)
                }
            },
            Parsed::Incomplete => {
                if self.source_done {
                    self.ended = true;
                    Step::End
                } else {
                    Step::NeedBytes
                }
            },
            Parsed::Error(b) => {
                self.ended = true;
                Step::Failed(Error::Parse(b))
            },
            Parsed::Failure(b) => {
                self.ended = true;
                Step::Failed(Error::Parse(b))
            },
        }
    }

    /// The source failed while asked for bytes: the stream ends with that
    /// failure.
    pub fn source_failed(&mut self, e: std::io::Error) -> (r: Error)
        ensures
            final(self)@ == (ReaderState { ended: true, ..old(self)@ }),
            r == Error::Io(e),
    {
        self.ended = true;
        Error::Io(e)
    }

    /// Whether the stream has ended.
    pub fn is_ended(&self) -> (r: bool)
        ensures
            r == self@.ended,
    {
        self.ended
    }
}

} // verus!
