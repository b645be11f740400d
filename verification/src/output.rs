//! The console as text: what logging a message adds to it.
//!
//! The buffer that the functions here write to stands for the standard
//! output stream. The program that owns the stream hands over a buffer and
//! writes out what the library put in it.

use vstd::prelude::*;
use vstd::string::StringExecFns;
use crate::message::{lemma_fields_verbatim, line_text, OutboundMessage};

verus! {

/// What logging one message writes: its line, closed by a line feed.
pub open spec fn record_text(sender: Seq<char>, body: Seq<char>, destination: Seq<char>) -> Seq<
    char,
> {
    line_text(sender, body, destination) + seq!['\n']
}

/// The console after the same message was logged `n` times, one time after
/// the other, on a console that held `before`.
pub open spec fn output_after(
    before: Seq<char>,
    sender: Seq<char>,
    body: Seq<char>,
    destination: Seq<char>,
    n: nat,
) -> Seq<char>
    decreases n,
{
    if n == 0 {
        before
    } else {
        output_after(before, sender, body, destination, (n - 1) as nat) + record_text(
            sender,
            body,
            destination,
        )
    }
}

/// The `i`-th stretch of `width` characters of `text` behind its first
/// `start` characters.
pub open spec fn nth_record(text: Seq<char>, start: nat, width: nat, i: int) -> Seq<char> {
    text.subrange(start + i * width, start + i * width + width)
}

/// Logs one message: its record is added at the end of `out`, and what
/// `out` held stays in front of it.
pub fn log_message(out: &mut String, message: &OutboundMessage)
    ensures
        final(out)@ == old(out)@ + record_text(
            message@.sender,
            message@.body,
            message@.destination,
        ),
{
    let line = message.render();
    proof {
        reveal_strlit("\n");
        assert("\n"@ =~= seq!['\n']);
    }
    out.append(line.as_str());
    out.append("\n");
    assert(final(out)@ =~= old(out)@ + record_text(
        message@.sender,
        message@.body,
        message@.destination,
    ));
}

/// Where no field holds a line feed, the record is one line of the console:
/// its only line feed is its last character.
pub proof fn lemma_record_is_one_line(sender: Seq<char>, body: Seq<char>, destination: Seq<char>)
    requires
        !sender.contains('\n'),
        !body.contains('\n'),
        !destination.contains('\n'),
    ensures
        forall|i: int|
            0 <= i < record_text(sender, body, destination).len() ==> ((#[trigger] record_text(
                sender,
                body,
                destination,
            )[i] == '\n') <==> i == record_text(sender, body, destination).len() - 1),
{
    let line = line_text(sender, body, destination);
    let record = record_text(sender, body, destination);
    let s = sender.len() as int;
    let b = body.len() as int;
    let d = destination.len() as int;
    lemma_fields_verbatim(sender, body, destination);
    reveal_strlit("[RED] De: ");
    reveal_strlit(" | Msg: ");
    reveal_strlit(" | Hacia: ");
    assert forall|i: int| 0 <= i < record.len() implies ((#[trigger] record[i] == '\n') <==> i
        == record.len() - 1) by {
        if i < 10 {
            assert(record[i] == line.subrange(0, 10)[i]);
        } else if i < 10 + s {
            assert(record[i] == line.subrange(10, 10 + s)[i - 10]);
            assert(sender.contains(sender[i - 10]));
        } else if i < 18 + s {
            assert(record[i] == line.subrange(10 + s, 18 + s)[i - 10 - s]);
        } else if i < 18 + s + b {
            assert(record[i] == line.subrange(18 + s, 18 + s + b)[i - 18 - s]);
            assert(body.contains(body[i - 18 - s]));
        } else if i < 28 + s + b {
            assert(record[i] == line.subrange(18 + s + b, 28 + s + b)[i - 18 - s - b]);
        } else if i < 28 + s + b + d {
            assert(record[i] == line.subrange(28 + s + b, 28 + s + b + d)[i - 28 - s - b]);
            assert(destination.contains(destination[i - 28 - s - b]));
        }
    }
}

/// Nothing is written before the first time, and each time adds one record
/// and nothing else: the console grows by exactly the record's length.
pub proof fn lemma_one_record_each_time(
    before: Seq<char>,
    sender: Seq<char>,
    body: Seq<char>,
    destination: Seq<char>,
    n: nat,
)
    ensures
        output_after(before, sender, body, destination, 0) == before,
        output_after(before, sender, body, destination, n + 1) == output_after(
            before,
            sender,
            body,
            destination,
            n,
        ) + record_text(sender, body, destination),
        output_after(before, sender, body, destination, n).len() == before.len() + n
            * record_text(sender, body, destination).len(),
    decreases n,
{
    let width = record_text(sender, body, destination).len();
    if n > 0 {
        lemma_one_record_each_time(before, sender, body, destination, (n - 1) as nat);
        assert(n * width == (n - 1) * width + width) by (nonlinear_arith);
    } else {
        assert(0 * width == 0) by (nonlinear_arith);
    }
}

/// Logging the same message `n` times leaves what the console held in
/// front, followed by `n` records that are all the same one.
pub proof fn lemma_repeats_are_identical(
    before: Seq<char>,
    sender: Seq<char>,
    body: Seq<char>,
    destination: Seq<char>,
    n: nat,
)
    ensures
        output_after(before, sender, body, destination, n).len() == before.len() + n
            * record_text(sender, body, destination).len(),
        output_after(before, sender, body, destination, n).subrange(0, before.len() as int)
            == before,
        forall|i: int|
            0 <= i < n ==> #[trigger] nth_record(
                output_after(before, sender, body, destination, n),
                before.len(),
                record_text(sender, body, destination).len(),
                i,
            ) == record_text(sender, body, destination),
    decreases n,
{
    let record = record_text(sender, body, destination);
    let width = record.len();
    let now = output_after(before, sender, body, destination, n);
    lemma_one_record_each_time(before, sender, body, destination, n);
    if n == 0 {
        assert(now.subrange(0, before.len() as int) =~= before);
    } else {
        let earlier = output_after(before, sender, body, destination, (n - 1) as nat);
        lemma_repeats_are_identical(before, sender, body, destination, (n - 1) as nat);
        assert(n * width == (n - 1) * width + width) by (nonlinear_arith);
        assert((n - 1) * width >= 0) by (nonlinear_arith)
            requires
                n >= 1,
                width >= 0,
        ;
        assert(now.subrange(0, before.len() as int) =~= earlier.subrange(0, before.len() as int));
        assert forall|i: int| 0 <= i < n implies #[trigger] nth_record(
            now,
            before.len(),
            width,
            i,
        ) == record by {
            assert(i * width >= 0 && (i < n - 1 ==> i * width + width <= (n - 1) * width) && (i
                == n - 1 ==> i * width == (n - 1) * width)) by (nonlinear_arith)
                requires
                    0 <= i < n,
                    width >= 0,
            ;
            if i < n - 1 {
                assert(nth_record(earlier, before.len(), width, i) == record);
                assert(nth_record(now, before.len(), width, i) =~= nth_record(
                    earlier,
                    before.len(),
                    width,
                    i,
                ));
            } else {
                assert(nth_record(now, before.len(), width, i) =~= record);
            }
        }
    }
}

} // verus!
