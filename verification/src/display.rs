use vstd::prelude::*;
use vstd::utf8::{decode_utf8, encode_utf8, is_char_boundary};
use crate::result::{CheckResult, CheckResultView, Outcome, OutcomeView};
use crate::text::{decimal, push_char, push_decimal};

verus! {

/// The text that the first `n` bytes of the UTF-8 form of `s` spell.
pub open spec fn byte_prefix(s: Seq<char>, n: int) -> Seq<char> {
    decode_utf8(encode_utf8(s).subrange(0, n))
}

/// True when the UTF-8 form of `s` has more than `limit` bytes.
pub open spec fn longer_than(s: Seq<char>, limit: int) -> bool {
    encode_utf8(s).len() > limit
}

/// A text shortened to `max_len` bytes: where it is longer, and `max_len` is
/// more than three, its first `max_len - 3` bytes are followed by three dots.
pub open spec fn truncated(s: Seq<char>, max_len: int) -> Seq<char> {
    if longer_than(s, max_len) && max_len > 3 {
        byte_prefix(s, max_len - 3) + "..."@
    } else {
        s
    }
}

/// True when shortening `s` to `max_len` bytes splits no character: either
/// nothing is cut, or the cut falls between two characters.
pub open spec fn cuts_cleanly(s: Seq<char>, max_len: int) -> bool {
    longer_than(s, max_len) && max_len > 3 ==> is_char_boundary(encode_utf8(s), max_len - 3)
}

/// How many bytes the UTF-8 form of `s` has.
pub fn byte_len(s: &str) -> (n: usize)
    ensures
        n == encode_utf8(s@).len(),
{
    s.as_bytes().len()
}

/// The first `n` bytes of `s` as a text of their own.
fn prefix_bytes(s: &str, n: usize) -> (head: String)
    requires
        is_char_boundary(encode_utf8(s@), n as int),
    ensures
        head@ == byte_prefix(s@, n as int),
{
    broadcast use vstd::utf8::encode_utf8_decode_utf8;

    let (head, _) = s.split_at(n);
    assert(encode_utf8(head@) == encode_utf8(s@).subrange(0, n as int));
    assert(decode_utf8(encode_utf8(head@)) == head@);
    String::from_str(head)
}

/// Shortens a text for the table, a URL or the message of a failure: one of
/// more than `max_len` bytes is cut to `max_len - 3` bytes and gets three
/// dots, provided `max_len` is more than three; any other is left as it is.
/// The cut must not split a character.
pub fn truncate_url(url: &str, max_len: usize) -> (shown: String)
    requires
        cuts_cleanly(url@, max_len as int),
    ensures
        shown@ == truncated(url@, max_len as int),
{
    if byte_len(url) > max_len && max_len > 3 {
        let mut shown = prefix_bytes(url, max_len - 3);
        shown.append("...");
        shown
    } else {
        String::from_str(url)
    }
}

/// Tells whether shortening `s` to `max_len` bytes splits no character.
pub fn can_truncate(s: &str, max_len: usize) -> (ok: bool)
    ensures
        ok == cuts_cleanly(s@, max_len as int),
{
    !(byte_len(s) > max_len && max_len > 3) || s.is_char_boundary(max_len - 3)
}

/// How the table shows an outcome: the status code of a success; for a
/// failure `ERR: ` and its message, of which, where it is longer than 20
/// bytes, only the first 17 are shown, followed by three dots.
pub open spec fn status_text(outcome: OutcomeView) -> Seq<char> {
    match outcome {
        OutcomeView::Success(code) => decimal(code as nat),
        OutcomeView::Failure(message) => "ERR: "@ + truncated(message, 20),
    }
}

/// A text filled up with spaces at its end to `width` characters; one that is
/// as long or longer is left as it is.
pub open spec fn padded(s: Seq<char>, width: nat) -> Seq<char> {
    if s.len() >= width {
        s
    } else {
        s + Seq::new((width - s.len()) as nat, |i: int| ' ')
    }
}

/// The line of the table for one result: the URL shortened to 28 bytes in a
/// column of 30, the status in a column of 8, the elapsed milliseconds in a
/// column of 12, and the completion time in seconds.
pub open spec fn table_row(result: CheckResultView) -> Seq<char> {
    padded(truncated(result.url, 28), 30) + " | "@ + padded(status_text(result.outcome), 8)
        + " | "@ + padded(decimal((result.elapsed_nanos / 1_000_000) as nat), 12) + " | "@
        + decimal(result.completed_at as nat)
}

/// True when the table can show the result: neither the cut of a long URL nor
/// the cut of a long failure message splits a character.
pub open spec fn showable(result: CheckResultView) -> bool {
    &&& cuts_cleanly(result.url, 28)
    &&& match result.outcome {
        OutcomeView::Success(_) => true,
        OutcomeView::Failure(message) => cuts_cleanly(message, 20),
    }
}

/// Appends `s` to `out`, filled up with spaces to `width` characters.
fn push_padded(out: &mut String, s: &str, width: usize)
    ensures
        final(out)@ == old(out)@ + padded(s@, width as nat),
{
    out.append(s);
    let len = s.unicode_len();
    if len < width {
        let mut n: usize = len;
        assert(out@ =~= old(out)@ + s@ + Seq::new(0, |i: int| ' '));
        while n < width
            invariant
                len == s@.len(),
                len <= n <= width,
                out@ == old(out)@ + s@ + Seq::new((n - len) as nat, |i: int| ' '),
            decreases width - n,
        {
            push_char(out, ' ');
            n += 1;
            assert(out@ =~= old(out)@ + s@ + Seq::new((n - len) as nat, |i: int| ' '));
        }
        assert(out@ =~= old(out)@ + padded(s@, width as nat));
    }
}

/// How the table shows an outcome.
pub fn status_cell(outcome: &Outcome) -> (cell: String)
    requires
        outcome@ is Failure ==> cuts_cleanly(outcome@->Failure_0, 20),
    ensures
        cell@ == status_text(outcome@),
{
    match outcome {
        Outcome::Success(code) => {
            let mut cell = String::new();
            push_decimal(&mut cell, *code as u128);
            assert(cell@ =~= decimal(*code as nat));
            cell
        },
        Outcome::Failure(message) => {
            let mut cell = String::from_str("ERR: ");
            let shown = truncate_url(message.as_str(), 20);
            cell.append(shown.as_str());
            cell
        },
    }
}

/// Tells whether the table can show the result.
pub fn can_show(result: &CheckResult) -> (ok: bool)
    ensures
        ok == showable(result@),
{
    can_truncate(result.url.as_str(), 28) && match &result.outcome {
        Outcome::Success(_) => true,
        Outcome::Failure(message) => can_truncate(message.as_str(), 20),
    }
}

/// The line of the table for one result.
pub fn display_line(result: &CheckResult) -> (line: String)
    requires
        showable(result@),
    ensures
        line@ == table_row(result@),
{
    let url = truncate_url(result.url.as_str(), 28);
    let status = status_cell(&result.outcome);
    let mut millis = String::new();
    push_decimal(&mut millis, (result.elapsed_nanos / 1_000_000) as u128);
    assert(millis@ =~= decimal((result.elapsed_nanos / 1_000_000) as nat));
    let mut line = String::new();
    push_padded(&mut line, url.as_str(), 30);
    line.append(" | ");
    push_padded(&mut line, status.as_str(), 8);
    line.append(" | ");
    push_padded(&mut line, millis.as_str(), 12);
    line.append(" | ");
    push_decimal(&mut line, result.completed_at as u128);
    assert(line@ =~= table_row(result@));
    line
}

/// The heading of the table: the names of the four columns, in the widths of
/// the rows.
pub open spec fn table_heading() -> Seq<char> {
    padded("URL"@, 30) + " | "@ + padded("Status"@, 8) + " | "@ + padded("Time (ms)"@, 12)
        + " | "@ + "Timestamp (EpochS)"@
}

/// The rule under the heading: 75 hyphens.
pub open spec fn table_rule() -> Seq<char> {
    Seq::new(75, |i: int| '-')
}

/// The heading of the table.
pub fn heading_line() -> (line: String)
    ensures
        line@ == table_heading(),
{
    let mut line = String::new();
    push_padded(&mut line, "URL", 30);
    line.append(" | ");
    push_padded(&mut line, "Status", 8);
    line.append(" | ");
    push_padded(&mut line, "Time (ms)", 12);
    line.append(" | ");
    line.append("Timestamp (EpochS)");
    assert(line@ =~= table_heading());
    line
}

/// The rule under the heading.
pub fn rule_line() -> (line: String)
    ensures
        line@ == table_rule(),
{
    let mut line = String::new();
    let mut n: usize = 0;
    assert(line@ =~= Seq::new(0, |i: int| '-'));
    while n < 75
        invariant
            n <= 75,
            line@ == Seq::new(n as nat, |i: int| '-'),
        decreases 75 - n,
    {
        push_char(&mut line, '-');
        n += 1;
        assert(line@ =~= Seq::new(n as nat, |i: int| '-'));
    }
    line
}

} // verus!
