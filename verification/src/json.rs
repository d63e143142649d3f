use vstd::prelude::*;
use crate::result::{result_views, CheckResult, CheckResultView, Outcome, OutcomeView};
use crate::text::{decimal, is_digit, lemma_decimal_is_digits, push_char, push_decimal};

verus! {

/// The escaped form of one character inside a JSON string.
pub open spec fn escape_char(c: char) -> Seq<char> {
    if c == '"' {
        seq!['\\', '"']
    } else if c == '\\' {
        seq!['\\', '\\']
    } else if c == '\n' {
        seq!['\\', 'n']
    } else if c == '\r' {
        seq!['\\', 'r']
    } else if c == '\t' {
        seq!['\\', 't']
    } else {
        seq![c]
    }
}

/// The escaped form of a whole text: the escapes of its characters, in order.
pub open spec fn escape_text(s: Seq<char>) -> Seq<char>
    decreases s.len(),
{
    if s.len() == 0 {
        Seq::empty()
    } else {
        escape_text(s.drop_last()) + escape_char(s.last())
    }
}

/// Escapes a text for use inside a JSON string: the double quote, the backslash,
/// newline, carriage return and tab are replaced by their two-character escapes;
/// every other character is passed through unchanged.
pub fn escape_json_string(s: &str) -> (escaped: String)
    ensures
        escaped@ == escape_text(s@),
{
    let mut escaped = String::new();
    for c in it: s.chars()
        invariant
            it.seq() == s@,
            escaped@ == escape_text(s@.take(it.index())),
    {
        proof {
            reveal_strlit("\\\"");
            reveal_strlit("\\\\");
            reveal_strlit("\\n");
            reveal_strlit("\\r");
            reveal_strlit("\\t");
            let next = s@.take(it.index() + 1);
            assert(next.drop_last() == s@.take(it.index()));
            assert(next.last() == c);
        }
        let ghost before = escaped@;
        match c {
            '"' => escaped.append("\\\""),
            '\\' => escaped.append("\\\\"),
            '\n' => escaped.append("\\n"),
            '\r' => escaped.append("\\r"),
            '\t' => escaped.append("\\t"),
            _ => push_char(&mut escaped, c),
        }
        assert(escaped@ =~= before + escape_char(c));
    }
    assert(s@.take(s@.len() as int) == s@);
    escaped
}

/// The value of the field `status`: the status code as a number for a
/// success, the message as a string for a failure.
pub open spec fn json_status(outcome: OutcomeView) -> Seq<char> {
    match outcome {
        OutcomeView::Success(code) => decimal(code as nat),
        OutcomeView::Failure(message) => "\""@ + escape_text(message) + "\""@,
    }
}

/// The object that stands for one result, with its four fields in their order.
pub open spec fn json_object(result: CheckResultView) -> Seq<char> {
    "  {\n    \"url\": \""@ + escape_text(result.url) + "\",\n    \"status\": "@ + json_status(
        result.outcome,
    ) + ",\n    \"responseTimeMs\": "@ + decimal((result.elapsed_nanos / 1_000_000) as nat)
        + ",\n    \"timestampEpochS\": "@ + decimal(result.completed_at as nat) + "\n  }"@
}

/// What follows the object at index `i` among `count` objects: a comma and a
/// line break, but after the last only the line break.
pub open spec fn json_separator(i: int, count: int) -> Seq<char> {
    if i + 1 < count {
        ",\n"@
    } else {
        "\n"@
    }
}

/// The objects of the first `upto` results, each followed by its separator.
pub open spec fn json_objects(results: Seq<CheckResultView>, upto: nat) -> Seq<char>
    decreases upto,
{
    if upto == 0 {
        Seq::empty()
    } else {
        json_objects(results, (upto - 1) as nat) + json_object(results[upto - 1])
            + json_separator(upto - 1, results.len() as int)
    }
}

/// The result file of a round: an array that holds one object for each
/// result, in the order of the results.
pub open spec fn json_document(results: Seq<CheckResultView>) -> Seq<char> {
    "[\n"@ + json_objects(results, results.len()) + "]\n"@
}

/// The field `status` is a number exactly for a success: its value begins
/// with a digit where the outcome is a success, and with a quotation mark
/// where it is a failure.
pub proof fn lemma_status_is_number_iff_success(outcome: OutcomeView)
    ensures
        json_status(outcome).len() > 0,
        is_digit(json_status(outcome)[0]) <==> outcome is Success,
        json_status(outcome)[0] == '"' <==> outcome is Failure,
        outcome is Success ==> forall|i: int|
            0 <= i < json_status(outcome).len() ==> is_digit(#[trigger] json_status(outcome)[i]),
{
    reveal_strlit("\"");
    match outcome {
        OutcomeView::Success(code) => {
            lemma_decimal_is_digits(code as nat);
        },
        OutcomeView::Failure(message) => {
            assert(json_status(outcome)[0] == '"');
        },
    }
}

/// Appends the object that stands for `result` to `out`.
fn push_object(out: &mut String, result: &CheckResult)
    ensures
        final(out)@ == old(out)@ + json_object(result@),
{
    out.append("  {\n    \"url\": \"");
    let url = escape_json_string(result.url.as_str());
    out.append(url.as_str());
    out.append("\",\n    \"status\": ");
    let ghost before_status = out@;
    match &result.outcome {
        Outcome::Success(code) => {
            push_decimal(out, *code as u128);
        },
        Outcome::Failure(message) => {
            out.append("\"");
            let text = escape_json_string(message.as_str());
            out.append(text.as_str());
            out.append("\"");
        },
    }
    assert(out@ =~= before_status + json_status(result@.outcome));
    out.append(",\n    \"responseTimeMs\": ");
    push_decimal(out, (result.elapsed_nanos / 1_000_000) as u128);
    out.append(",\n    \"timestampEpochS\": ");
    push_decimal(out, result.completed_at as u128);
    out.append("\n  }");
    assert(out@ =~= old(out)@ + json_object(result@));
}

/// Writes the result file of a round as a text.
pub fn render_json(results: &Vec<CheckResult>) -> (document: String)
    ensures
        document@ == json_document(result_views(results@)),
{
    let ghost all = result_views(results@);
    let mut document = String::from_str("[\n");
    let mut i: usize = 0;
    assert(document@ =~= "[\n"@ + json_objects(all, 0));
    while i < results.len()
        invariant
            i <= results.len(),
            all == result_views(results@),
            document@ == "[\n"@ + json_objects(all, i as nat),
        decreases results.len() - i,
    {
        push_object(&mut document, &results[i]);
        if i + 1 < results.len() {
            document.append(",\n");
        } else {
            document.append("\n");
        }
        i += 1;
        assert(all[i - 1] == results[i - 1]@);
        assert(document@ =~= "[\n"@ + json_objects(all, i as nat));
    }
    document.append("]\n");
    document
}

} // verus!
