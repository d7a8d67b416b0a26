//! What holds of lines that are read and prompts that are written, told by their
//! bytes.

use crate::approval::async_cli::{
    read_line, write_prompt, LineEnd, LineReader, LineStep, WriteEvent, WriteStep,
};
use vstd::prelude::*;
use vstd::string::*;
use vstd::utf8::*;

verus! {

/// Whether a step is what a complete line comes to: its text, if it has at most 1024
/// bytes and is text.
pub open spec fn answers(line: Seq<u8>, step: LineStep) -> bool {
    &&& line.len() > 1024 ==> step is TooLong
    &&& line.len() <= 1024 && !valid_utf8(line) ==> step is NotText
    &&& line.len() <= 1024 && valid_utf8(line) ==> (step matches LineStep::Line(s) && s@
        == decode_utf8(line))
}

/// The first line of an input is read up to its first line feed; what it comes to
/// depends on its own bytes alone. Without a line feed there is no line.
pub proof fn law_the_first_line_is_read(input: &[u8], r: LineEnd)
    requires
        call_ensures(read_line, (input,), r),
    ensures
        r is Closed <==> forall|i: int| 0 <= i < input@.len() ==> #[trigger] input@[i] != 10,
        r matches LineEnd::Complete(step, n) ==> {
            &&& 1 <= n <= input@.len()
            &&& input@[n - 1] == 10
            &&& forall|i: int| 0 <= i < n - 1 ==> #[trigger] input@[i] != 10
            &&& answers(input@.take(n as int), step)
        },
{
    if let LineEnd::Complete(step, n) = r {
        assert(input@[n - 1] == 10);
        assert forall|i: int| 0 <= i < n - 1 implies #[trigger] input@[i] != 10 by {
            assert(input@.take(n - 1)[i] != 10);
        }
    }
}

/// A reader starts with nothing. Each byte adds to what it has taken in until a line
/// feed ends the line and it starts anew. After every 256th byte of a line it pauses,
/// and after no other.
pub proof fn law_bytes_are_taken_in_one_by_one(
    first: LineReader,
    reader: &mut LineReader,
    fed: Seq<u8>,
    byte: u8,
    r: LineStep,
)
    requires
        call_ensures(LineReader::new, (), first),
        old(reader).has_read(fed),
        call_ensures(LineReader::feed, (reader, byte), r),
    ensures
        first.has_read(Seq::empty()),
        byte == 10 ==> answers(fed.push(byte), r) && final(reader).has_read(Seq::empty()),
        byte != 10 ==> final(reader).has_read(fed.push(byte)),
        r is More || r is MoreAfterYield <==> byte != 10,
        byte != 10 ==> (r is MoreAfterYield <==> (fed.len() + 1) % 256 == 0),
{
}

/// What is still to be written of a prompt is what was not written: all of it after
/// a signal, or where the terminal was not ready.
pub proof fn law_prompts_are_written_in_full(bytes: &[u8], event: WriteEvent, r: WriteStep)
    requires
        bytes@.len() > 0,
        event matches WriteEvent::Wrote(n) ==> n <= bytes@.len(),
        call_ensures(write_prompt, (bytes, event), r),
    ensures
        r is Failed <==> event is Failed,
        r is WriteZero <==> (event matches WriteEvent::Wrote(n) && n == 0),
        r is Done <==> (event matches WriteEvent::Wrote(n) && n == bytes@.len()),
        event is Interrupted || event is NotReady ==> (r matches WriteStep::More(rest) && rest@
            == bytes@),
        event matches WriteEvent::Wrote(n) ==> (r matches WriteStep::More(rest) ==> bytes@
            == bytes@.take(n as int) + rest@ && rest@.len() < bytes@.len()),
{
    if let WriteEvent::Wrote(n) = event {
        assert(bytes@ =~= bytes@.take(n as int) + bytes@.skip(n as int));
    }
}

} // verus!
