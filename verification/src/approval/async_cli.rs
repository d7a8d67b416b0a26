//! Cancellation-safe input for CLI approval: how bytes that arrive one at a time
//! become one bounded line, and how a prompt is written in parts.

use crate::text;
use vstd::prelude::*;
use vstd::slice::slice_subrange;
use vstd::utf8::*;

verus! {

/// The longest line that is accepted, its line feed included.
pub const MAX_APPROVAL_LINE_BYTES: usize = 1024;

/// After this many bytes the reader lets other tasks run.
pub const YIELD_INTERVAL: usize = 256;

/// A line as it arrives.
pub struct LineReader {
    line: Vec<u8>,
    overlong: bool,
    since_yield: usize,
}

/// What follows from one byte.
pub enum LineStep {
    /// Read on.
    More,
    /// Let other tasks run, then read on.
    MoreAfterYield,
    /// The line is complete.
    Line(String),
    /// The line is complete and longer than the limit.
    TooLong,
    /// The line is complete and no UTF-8.
    NotText,
}

/// What a complete line, with its line feed, comes to.
pub open spec fn line_end(bytes: Seq<u8>, step: LineStep) -> bool {
    if bytes.len() > MAX_APPROVAL_LINE_BYTES {
        step is TooLong
    } else if valid_utf8(bytes) {
        step matches LineStep::Line(s) && s@ == decode_utf8(bytes)
    } else {
        step is NotText
    }
}

/// Whether a byte sequence has no line feed.
pub open spec fn unbroken(bytes: Seq<u8>) -> bool {
    forall|i: int| 0 <= i < bytes.len() ==> #[trigger] bytes[i] != 10
}

/// What one byte makes of a reader: a line feed ends the line, any other byte is
/// taken in, with a pause whenever so many have been.
pub open spec fn takes_in(before: LineReader, after: LineReader, byte: u8, r: LineStep) -> bool {
    forall|fed: Seq<u8>|
        #![trigger before.has_read(fed)]
        before.has_read(fed) ==> {
            &&& byte == 10 ==> line_end(fed.push(byte), r) && after.has_read(Seq::empty())
            &&& byte != 10 ==> after.has_read(fed.push(byte)) && (if (fed.len() + 1) % (
            YIELD_INTERVAL as nat) == 0 {
                r is MoreAfterYield
            } else {
                r is More
            })
        }
}

impl LineReader {
    /// Whether the reader has taken in exactly `fed` since its last line.
    pub closed spec fn has_read(&self, fed: Seq<u8>) -> bool {
        &&& self.overlong == (fed.len() > MAX_APPROVAL_LINE_BYTES)
        &&& self.line@ == fed.take(
            if fed.len() <= MAX_APPROVAL_LINE_BYTES {
                fed.len() as int
            } else {
                MAX_APPROVAL_LINE_BYTES as int
            },
        )
        &&& self.since_yield == fed.len() % (YIELD_INTERVAL as nat)
    }

    /// A reader at the start of a line.
    pub fn new() -> (r: LineReader)
        ensures
            r.has_read(Seq::empty()),
    {
        let r = LineReader { line: Vec::new(), overlong: false, since_yield: 0 };
        assert(r.line@ =~= Seq::<u8>::empty().take(0));
        r
    }

    /// Takes in one byte. A line that is too long is still read to its end, so
    /// that its tail cannot answer the next prompt.
    pub fn feed(&mut self, byte: u8) -> (r: LineStep)
        ensures
            takes_in(*old(self), *final(self), byte, r),
    {
        let ghost before = *self;
        if self.line.len() == MAX_APPROVAL_LINE_BYTES {
            self.overlong = true;
        }
        if !self.overlong {
            self.line.push(byte);
        }
        assert forall|fed: Seq<u8>| before.has_read(fed) implies self.overlong == (fed.push(
            byte,
        ).len() > MAX_APPROVAL_LINE_BYTES) && self.line@ == fed.push(byte).take(
            if fed.len() + 1 <= MAX_APPROVAL_LINE_BYTES {
                (fed.len() + 1) as int
            } else {
                MAX_APPROVAL_LINE_BYTES as int
            },
        ) by {
            if fed.len() < MAX_APPROVAL_LINE_BYTES {
                assert(fed.take(fed.len() as int) =~= fed);
                assert(fed.push(byte).take((fed.len() + 1) as int) =~= fed.push(byte));
            } else {
                assert(fed.push(byte).take(MAX_APPROVAL_LINE_BYTES as int) =~= fed.take(
                    MAX_APPROVAL_LINE_BYTES as int,
                ));
            }
        }
        if byte == 10 {
            let mut line: Vec<u8> = Vec::new();
            core::mem::swap(&mut line, &mut self.line);
            let overlong: bool = self.overlong;
            self.overlong = false;
            self.since_yield = 0;
            assert(self.line@ =~= Seq::<u8>::empty().take(0));
            proof {
                assert forall|fed: Seq<u8>| before.has_read(fed) && fed.len() + 1
                    <= MAX_APPROVAL_LINE_BYTES implies line@ == #[trigger] fed.push(byte) by {
                    assert(fed.push(byte).take((fed.len() + 1) as int) =~= fed.push(byte));
                }
            }
            if overlong {
                return LineStep::TooLong;
            }
            match text::from_utf8(line) {
                Some(s) => LineStep::Line(s),
                None => LineStep::NotText,
            }
        } else {
            proof {
                assert forall|fed: Seq<u8>| #[trigger] before.has_read(fed) implies (fed.len() + 1)
                    % (YIELD_INTERVAL as nat) == (if before.since_yield + 1 == YIELD_INTERVAL {
                    0
                } else {
                    before.since_yield + 1
                }) by {
                    lemma_next_remainder(fed.len());
                }
            }
            if self.since_yield >= YIELD_INTERVAL - 1 {
                self.since_yield = 0;
                LineStep::MoreAfterYield
            } else {
                self.since_yield = self.since_yield + 1;
                LineStep::More
            }
        }
    }
}

/// How the reading of a line from a closed input ends.
pub enum LineEnd {
    /// A line, and how many bytes it took.
    Complete(LineStep, usize),
    /// The input ended before a line did.
    Closed,
}

/// Whether the first `n` bytes of `input` are its first line.
pub open spec fn is_first_line(input: Seq<u8>, n: int) -> bool {
    0 < n <= input.len() && input[n - 1] == 10 && unbroken(input.take(n - 1))
}

/// Reads the first line of `input`, byte by byte. What follows the line is left
/// for the next reader.
pub fn read_line(input: &[u8]) -> (r: LineEnd)
    ensures
        match r {
            LineEnd::Complete(step, n) => is_first_line(input@, n as int) && line_end(
                input@.take(n as int),
                step,
            ),
            LineEnd::Closed => unbroken(input@),
        },
{
    let mut reader: LineReader = LineReader::new();
    let mut i: usize = 0;
    assert(input@.take(0) =~= Seq::empty());
    while i < input.len()
        invariant
            i <= input@.len(),
            reader.has_read(input@.take(i as int)),
            unbroken(input@.take(i as int)),
        decreases input@.len() - i,
    {
        let byte: u8 = input[i];
        let ghost fed = input@.take(i as int);
        assert(input@.take(i + 1) =~= fed.push(byte));
        let step: LineStep = reader.feed(byte);
        i += 1;
        if byte == 10 {
            assert(fed == input@.take(i - 1));
            return LineEnd::Complete(step, i);
        }
    }
    assert(input@.take(i as int) =~= input@);
    LineEnd::Closed
}

/// A line is answered by its own bytes alone: whatever follows it in the input
/// changes neither the line nor where the next one begins.
pub proof fn law_line_ignores_what_follows(line: Seq<u8>, rest: Seq<u8>, n: int)
    requires
        is_first_line(line, n),
    ensures
        is_first_line(line + rest, n),
        (line + rest).take(n) == line.take(n),
        (line + rest).skip(n) == line.skip(n) + rest,
{
    assert((line + rest).take(n) =~= line.take(n));
    assert((line + rest).take(n - 1) =~= line.take(n - 1));
    assert((line + rest).skip(n) =~= line.skip(n) + rest);
}

/// What became of an attempt to write a prompt.
pub enum WriteEvent {
    /// This many bytes were written.
    Wrote(usize),
    /// A signal came first.
    Interrupted,
    /// The terminal was not ready after all.
    NotReady,
    /// The terminal refused.
    Failed,
}

/// What follows from an attempt to write.
pub enum WriteStep<'a> {
    /// These bytes are still to be written.
    More(&'a [u8]),
    Done,
    /// The terminal took nothing.
    WriteZero,
    Failed,
}

/// What is left of a prompt after an attempt to write it.
pub fn write_prompt<'a>(bytes: &'a [u8], event: WriteEvent) -> (r: WriteStep<'a>)
    requires
        bytes@.len() > 0,
        event matches WriteEvent::Wrote(n) ==> n <= bytes@.len(),
    ensures
        match event {
            WriteEvent::Wrote(n) => if n == 0 {
                r is WriteZero
            } else if n == bytes@.len() {
                r is Done
            } else {
                r matches WriteStep::More(rest) && rest@ == bytes@.skip(n as int)
            },
            WriteEvent::Failed => r is Failed,
            _ => r matches WriteStep::More(rest) && rest@ == bytes@,
        },
{
    match event {
        WriteEvent::Wrote(n) => {
            if n == 0 {
                WriteStep::WriteZero
            } else if n == bytes.len() {
                WriteStep::Done
            } else {
                let rest: &[u8] = slice_subrange(bytes, n, bytes.len());
                assert(rest@ =~= bytes@.skip(n as int));
                WriteStep::More(rest)
            }
        },
        WriteEvent::Failed => WriteStep::Failed,
        WriteEvent::Interrupted => WriteStep::More(bytes),
        WriteEvent::NotReady => WriteStep::More(bytes),
    }
}

proof fn lemma_next_remainder(n: nat)
    ensures
        (n + 1) % (YIELD_INTERVAL as nat) == (if n % (YIELD_INTERVAL as nat) + 1 == YIELD_INTERVAL {
            0
        } else {
            n % (YIELD_INTERVAL as nat) + 1
        }),
{
}

} // verus!
