use vstd::prelude::*;
use crate::json::{
    escape_char, escape_text, json_document, json_object, json_objects, json_separator, json_status,
};
use crate::result::{CheckResultView, OutcomeView};
use crate::number::{digits_value, lemma_digits_value_decimal};
use crate::text::{decimal, is_digit, lemma_decimal_is_digits};

verus! {

/// What is left of `s` after the text `lead`, if `s` begins with it.
pub open spec fn after(s: Seq<char>, lead: Seq<char>) -> Option<Seq<char>> {
    if s.len() >= lead.len() && s.take(lead.len() as int) == lead {
        Some(s.skip(lead.len() as int))
    } else {
        None
    }
}

/// A text that begins with `lead` leaves what follows `lead`.
pub proof fn lemma_after(lead: Seq<char>, rest: Seq<char>)
    ensures
        after(lead + rest, lead) == Some(rest),
{
    assert((lead + rest).take(lead.len() as int) =~= lead);
    assert((lead + rest).skip(lead.len() as int) =~= rest);
}

/// The character that a backslash and `code` stand for in a string.
pub open spec fn unescaped(code: char) -> Option<char> {
    if code == '"' {
        Some('"')
    } else if code == '\\' {
        Some('\\')
    } else if code == 'n' {
        Some('\n')
    } else if code == 'r' {
        Some('\r')
    } else if code == 't' {
        Some('\t')
    } else {
        None
    }
}

/// Reads a string from behind its opening quotation mark: the text up to the
/// closing quotation mark with its escapes resolved, and what follows that
/// mark.
pub open spec fn read_text(s: Seq<char>) -> Option<(Seq<char>, Seq<char>)>
    decreases s.len(),
{
    if s.len() == 0 {
        None
    } else if s[0] == '"' {
        Some((Seq::empty(), s.skip(1)))
    } else if s[0] == '\\' {
        if s.len() < 2 {
            None
        } else {
            match (unescaped(s[1]), read_text(s.skip(2))) {
                (Some(c), Some((text, rest))) => Some((seq![c] + text, rest)),
                _ => None,
            }
        }
    } else {
        match read_text(s.skip(1)) {
            Some((text, rest)) => Some((seq![s[0]] + text, rest)),
            None => None,
        }
    }
}

/// The escaped form of two texts joined is their escaped forms joined.
pub proof fn lemma_escape_text_concat(a: Seq<char>, b: Seq<char>)
    ensures
        escape_text(a + b) == escape_text(a) + escape_text(b),
    decreases b.len(),
{
    if b.len() == 0 {
        assert(a + b =~= a);
        assert(escape_text(a) + escape_text(b) =~= escape_text(a));
    } else {
        lemma_escape_text_concat(a, b.drop_last());
        assert((a + b).drop_last() =~= a + b.drop_last());
        assert((a + b).last() == b.last());
        assert(escape_text(a + b) =~= escape_text(a) + escape_text(b));
    }
}

/// The escaped form of a text begins with the escaped form of its first
/// character.
pub proof fn lemma_escape_text_first(s: Seq<char>)
    requires
        s.len() > 0,
    ensures
        escape_text(s) == escape_char(s.first()) + escape_text(s.drop_first()),
{
    let head = seq![s.first()];
    assert(s =~= head + s.drop_first());
    lemma_escape_text_concat(head, s.drop_first());
    assert(head.drop_last() =~= Seq::<char>::empty());
    assert(escape_text(head) =~= escape_char(s.first())) by {
        reveal_with_fuel(escape_text, 2);
    }
}

/// Reading gives back what was escaped: from an escaped text, its closing
/// quotation mark and anything after it, `read_text` reads the text and
/// leaves what came after the mark.
pub proof fn lemma_read_escaped(text: Seq<char>, rest: Seq<char>)
    ensures
        read_text(escape_text(text) + seq!['"'] + rest) == Some((text, rest)),
    decreases text.len(),
{
    let s = escape_text(text) + seq!['"'] + rest;
    if text.len() == 0 {
        assert(s[0] == '"');
        assert(s.skip(1) =~= rest);
    } else {
        let c = text.first();
        let tail = text.drop_first();
        lemma_escape_text_first(text);
        lemma_read_escaped(tail, rest);
        let after_c = escape_text(tail) + seq!['"'] + rest;
        assert(s =~= escape_char(c) + after_c);
        if c == '"' || c == '\\' || c == '\n' || c == '\r' || c == '\t' {
            assert(s[0] == '\\');
            assert(unescaped(s[1]) == Some(c));
            assert(s.skip(2) =~= after_c);
        } else {
            assert(s[0] == c);
            assert(s.skip(1) =~= after_c);
        }
        assert(seq![c] + tail =~= text);
    }
}

/// How many decimal digits `s` begins with.
pub open spec fn digits_len(s: Seq<char>) -> nat
    decreases s.len(),
{
    if s.len() > 0 && is_digit(s[0]) {
        1 + digits_len(s.skip(1))
    } else {
        0
    }
}

/// Reads a number: the value of the digits that `s` begins with, and what
/// follows them. A text that begins with no digit holds no number.
pub open spec fn read_number(s: Seq<char>) -> Option<(nat, Seq<char>)> {
    let k = digits_len(s) as int;
    if k == 0 {
        None
    } else {
        Some((digits_value(s.take(k)), s.skip(k)))
    }
}

/// True when `s` does not go on with a digit.
pub open spec fn ends_number(s: Seq<char>) -> bool {
    s.len() == 0 || !is_digit(s[0])
}

/// Digits followed by something that is no digit are read to their end.
pub proof fn lemma_digits_len(digits: Seq<char>, rest: Seq<char>)
    requires
        forall|i: int| 0 <= i < digits.len() ==> is_digit(#[trigger] digits[i]),
        ends_number(rest),
    ensures
        digits_len(digits + rest) == digits.len(),
    decreases digits.len(),
{
    let s = digits + rest;
    if digits.len() == 0 {
        assert(s =~= rest);
    } else {
        assert(s[0] == digits[0]);
        assert(s.skip(1) =~= digits.skip(1) + rest);
        assert forall|i: int| 0 <= i < digits.skip(1).len() implies is_digit(
            #[trigger] digits.skip(1)[i],
        ) by {
            assert(digits.skip(1)[i] == digits[i + 1]);
        }
        lemma_digits_len(digits.skip(1), rest);
    }
}

/// Reading gives back the number that was written: from a numeral followed by
/// something that is no digit, `read_number` reads the number and leaves what
/// followed.
pub proof fn lemma_read_decimal(n: nat, rest: Seq<char>)
    requires
        ends_number(rest),
    ensures
        read_number(decimal(n) + rest) == Some((n, rest)),
{
    let s = decimal(n) + rest;
    lemma_decimal_is_digits(n);
    lemma_digits_len(decimal(n), rest);
    lemma_digits_value_decimal(n);
    assert(s.take(decimal(n).len() as int) =~= decimal(n));
    assert(s.skip(decimal(n).len() as int) =~= rest);
}

/// What the result file records of one result.
pub struct Record {
    pub url: Seq<char>,
    pub outcome: OutcomeView,
    /// The elapsed time of the final attempt in whole milliseconds.
    pub millis: nat,
    /// The completion time of the final attempt in seconds since the epoch.
    pub seconds: nat,
}

/// What the result file records of `result`.
pub open spec fn record_of(result: CheckResultView) -> Record {
    Record {
        url: result.url,
        outcome: result.outcome,
        millis: (result.elapsed_nanos / 1_000_000) as nat,
        seconds: result.completed_at as nat,
    }
}

/// Reads the value of the field `status`: a string is the message of a
/// failure, a number the status code of a success.
pub open spec fn read_status(s: Seq<char>) -> Option<(OutcomeView, Seq<char>)> {
    if s.len() > 0 && s[0] == '"' {
        match read_text(s.skip(1)) {
            Some((message, rest)) => Some((OutcomeView::Failure(message), rest)),
            None => None,
        }
    } else {
        match read_number(s) {
            Some((code, rest)) if code <= u16::MAX => Some(
                (OutcomeView::Success(code as u16), rest),
            ),
            _ => None,
        }
    }
}

/// Reads one object with its four fields, and leaves what follows it.
pub open spec fn read_object(s: Seq<char>) -> Option<(Record, Seq<char>)> {
    match after(s, "  {\n    \"url\": \""@) {
        Some(s1) => match read_text(s1) {
            Some((url, s2)) => match after(s2, ",\n    \"status\": "@) {
                Some(s3) => match read_status(s3) {
                    Some((outcome, s4)) => match after(s4, ",\n    \"responseTimeMs\": "@) {
                        Some(s5) => match read_number(s5) {
                            Some((millis, s6)) => match after(
                                s6,
                                ",\n    \"timestampEpochS\": "@,
                            ) {
                                Some(s7) => match read_number(s7) {
                                    Some((seconds, s8)) => match after(s8, "\n  }"@) {
                                        Some(rest) => Some(
                                            (Record { url, outcome, millis, seconds }, rest),
                                        ),
                                        None => None,
                                    },
                                    None => None,
                                },
                                None => None,
                            },
                            None => None,
                        },
                        None => None,
                    },
                    None => None,
                },
                None => None,
            },
            None => None,
        },
        None => None,
    }
}

/// Reading gives back the outcome that was written, provided that what
/// follows does not go on with a digit.
pub proof fn lemma_read_status(outcome: OutcomeView, rest: Seq<char>)
    requires
        ends_number(rest),
    ensures
        read_status(json_status(outcome) + rest) == Some((outcome, rest)),
{
    reveal_strlit("\"");
    let s = json_status(outcome) + rest;
    match outcome {
        OutcomeView::Success(code) => {
            lemma_decimal_is_digits(code as nat);
            assert(s[0] == decimal(code as nat)[0]);
            lemma_read_decimal(code as nat, rest);
        },
        OutcomeView::Failure(message) => {
            assert(s[0] == '"');
            assert(s.skip(1) =~= escape_text(message) + seq!['"'] + rest);
            lemma_read_escaped(message, rest);
        },
    }
}

/// Reading gives back what was written of a result: from the object of a
/// result and anything after it, `read_object` reads the record of that
/// result and leaves what came after.
pub proof fn lemma_read_object(result: CheckResultView, rest: Seq<char>)
    ensures
        read_object(json_object(result) + rest) == Some((record_of(result), rest)),
{
    let lead = "  {\n    \"url\": \""@;
    let quote_status = "\",\n    \"status\": "@;
    let status = ",\n    \"status\": "@;
    let time = ",\n    \"responseTimeMs\": "@;
    let stamp = ",\n    \"timestampEpochS\": "@;
    let close = "\n  }"@;
    reveal_strlit("  {\n    \"url\": \"");
    reveal_strlit("\",\n    \"status\": ");
    reveal_strlit(",\n    \"status\": ");
    reveal_strlit(",\n    \"responseTimeMs\": ");
    reveal_strlit(",\n    \"timestampEpochS\": ");
    reveal_strlit("\n  }");
    let record = record_of(result);
    let s8 = close + rest;
    let s7 = decimal(record.seconds) + s8;
    let s6 = stamp + s7;
    let s5 = decimal(record.millis) + s6;
    let s4 = time + s5;
    let s3 = json_status(result.outcome) + s4;
    let s2 = status + s3;
    let s1 = escape_text(result.url) + seq!['"'] + s2;
    let s = lead + s1;
    assert(quote_status =~= seq!['"'] + status);
    assert(json_object(result) + rest =~= s);
    lemma_after(lead, s1);
    lemma_read_escaped(result.url, s2);
    lemma_after(status, s3);
    assert(s4[0] == ',');
    lemma_read_status(result.outcome, s4);
    lemma_after(time, s5);
    assert(s6[0] == ',');
    lemma_read_decimal(record.millis, s6);
    lemma_after(stamp, s7);
    assert(s8[0] == '\n');
    lemma_read_decimal(record.seconds, s8);
    lemma_after(close, rest);
}

/// Reads the objects of an array up to its end: each but the last is followed
/// by a comma, the last by the closing bracket.
pub open spec fn read_rows(s: Seq<char>) -> Option<Seq<Record>>
    decreases s.len(),
{
    match read_object(s) {
        None => None,
        Some((record, rest)) => if rest == "\n]\n"@ {
            Some(seq![record])
        } else {
            match after(rest, ",\n"@) {
                Some(more) if more.len() < s.len() => match read_rows(more) {
                    Some(records) => Some(seq![record] + records),
                    None => None,
                },
                _ => None,
            }
        },
    }
}

/// Reads a result file: the records that its array holds, in their order.
/// `None` where the text is no result file.
pub open spec fn read_document(s: Seq<char>) -> Option<Seq<Record>> {
    match after(s, "[\n"@) {
        None => None,
        Some(body) => if body == "]\n"@ {
            Some(Seq::empty())
        } else {
            read_rows(body)
        },
    }
}

/// What the result file records of each result, in the order of the results.
pub open spec fn records_of(results: Seq<CheckResultView>) -> Seq<Record> {
    results.map_values(|r: CheckResultView| record_of(r))
}

/// The objects from index `from` on, each followed by its separator.
pub open spec fn objects_from(results: Seq<CheckResultView>, from: int) -> Seq<char>
    decreases results.len() - from,
{
    if from < 0 || from >= results.len() {
        Seq::empty()
    } else {
        json_object(results[from]) + json_separator(from, results.len() as int) + objects_from(
            results,
            from + 1,
        )
    }
}

/// The objects before an index and the objects from it on make up all the
/// objects.
pub proof fn lemma_objects_split(results: Seq<CheckResultView>, at: int)
    requires
        0 <= at <= results.len(),
    ensures
        json_objects(results, at as nat) + objects_from(results, at) == json_objects(
            results,
            results.len(),
        ),
    decreases results.len() - at,
{
    if at == results.len() {
        assert(json_objects(results, at as nat) + objects_from(results, at) =~= json_objects(
            results,
            results.len(),
        ));
    } else {
        lemma_objects_split(results, at + 1);
        assert(json_objects(results, at as nat) + objects_from(results, at) =~= json_objects(
            results,
            (at + 1) as nat,
        ) + objects_from(results, at + 1));
    }
}

/// Reading the objects from an index on, up to the closing bracket, gives the
/// records of the results from that index on.
pub proof fn lemma_read_rows(results: Seq<CheckResultView>, from: int)
    requires
        0 <= from < results.len(),
    ensures
        read_rows(objects_from(results, from) + "]\n"@) == Some(records_of(results).skip(from)),
    decreases results.len() - from,
{
    reveal_strlit("]\n");
    reveal_strlit("\n]\n");
    reveal_strlit(",\n");
    reveal_strlit("\n");
    reveal_strlit("  {\n    \"url\": \"");
    let s = objects_from(results, from) + "]\n"@;
    let separator = json_separator(from, results.len() as int);
    let more = objects_from(results, from + 1) + "]\n"@;
    let rest = separator + more;
    let record = record_of(results[from]);
    assert(s =~= json_object(results[from]) + rest);
    lemma_read_object(results[from], rest);
    assert(json_object(results[from]).len() > 0);
    if from + 1 == results.len() {
        assert(rest =~= "\n]\n"@);
        assert(records_of(results).skip(from) =~= seq![record]);
    } else {
        assert(rest[0] == ',');
        lemma_after(separator, more);
        lemma_read_rows(results, from + 1);
        assert(records_of(results).skip(from) =~= seq![record] + records_of(results).skip(
            from + 1,
        ));
    }
}

/// The result file of a round holds each result of the round exactly once, in
/// the order of the results: reading the file gives back, for every result,
/// its URL, its outcome, its elapsed milliseconds and its completion time, and
/// nothing else.
pub proof fn lemma_document_round_trip(results: Seq<CheckResultView>)
    ensures
        read_document(json_document(results)) == Some(records_of(results)),
{
    reveal_strlit("[\n");
    reveal_strlit("]\n");
    reveal_strlit("  {\n    \"url\": \"");
    let body = objects_from(results, 0) + "]\n"@;
    lemma_objects_split(results, 0);
    assert(json_document(results) =~= "[\n"@ + body);
    lemma_after("[\n"@, body);
    if results.len() == 0 {
        assert(body =~= "]\n"@);
        assert(records_of(results) =~= Seq::<Record>::empty());
    } else {
        assert(body[0] == ' ');
        lemma_read_rows(results, 0);
        assert(records_of(results).skip(0) =~= records_of(results));
    }
}

} // verus!
