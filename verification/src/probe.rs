use vstd::prelude::*;
use crate::headers::{
    entry_of, field_views, header_entries, lowercase_of, read_headers, to_lowercase, HeaderField,
    HeaderFieldView,
};
use crate::policy::{CheckPolicy, CheckPolicyView, HeaderAssertion, HeaderAssertionView};
use crate::result::{Outcome, OutcomeView};
use crate::text::same_text;

verus! {

/// The message for a response that lacks the asserted header.
pub open spec fn not_found_message(name: Seq<char>) -> Seq<char> {
    "header '"@ + name + "' not found"@
}

/// The message for an asserted header whose value is not text.
pub open spec fn not_text_message(name: Seq<char>, raw: Seq<char>) -> Seq<char> {
    "header '"@ + name + "' actual value not valid text: "@ + raw
}

/// The message for an asserted header whose value differs from the expected one.
pub open spec fn mismatch_message(name: Seq<char>, expected: Seq<char>, actual: Seq<char>) -> Seq<
    char,
> {
    "header '"@ + name + "' assertion failed: expected '"@ + expected + "', got '"@ + actual
        + "'"@
}

/// The outcome for a response with status `code`, given the header that the
/// assertion's name selected: a missing header, a value that is not text and a
/// value other than the expected one each fail with their message; the
/// expected value succeeds with the status code.
pub open spec fn judged(
    code: u16,
    assertion: HeaderAssertionView,
    found: Option<HeaderFieldView>,
) -> OutcomeView {
    match found {
        None => OutcomeView::Failure(not_found_message(assertion.name)),
        Some(field) => match field.text {
            None => OutcomeView::Failure(not_text_message(assertion.name, field.raw)),
            Some(actual) => if actual == assertion.value {
                OutcomeView::Success(code)
            } else {
                OutcomeView::Failure(mismatch_message(assertion.name, assertion.value, actual))
            },
        },
    }
}

/// True when the field's name, put in lower case, is `name`.
pub open spec fn names_header(field: HeaderFieldView, name: Seq<char>) -> bool {
    lowercase_of(field.name) == name
}

/// The first of `fields` that `name` names, if there is one.
pub open spec fn first_named(fields: Seq<HeaderFieldView>, name: Seq<char>) -> Option<
    HeaderFieldView,
>
    decreases fields.len(),
{
    if fields.len() == 0 {
        None
    } else if names_header(fields.first(), name) {
        Some(fields.first())
    } else {
        first_named(fields.drop_first(), name)
    }
}

/// The outcome of a check whose request brought a response with status `code`
/// and the headers `fields`: without a header assertion it succeeds whatever
/// the status; with one, the first header that the assertion names decides.
pub open spec fn evaluated(
    code: u16,
    fields: Seq<HeaderFieldView>,
    policy: CheckPolicyView,
) -> OutcomeView {
    match policy.header_assertion {
        None => OutcomeView::Success(code),
        Some(assertion) => judged(code, assertion, first_named(fields, assertion.name)),
    }
}

/// The headers of a response as fields, in the order of the map's iterator.
pub open spec fn response_fields(
    headers: reqwest::header::HeaderMap<reqwest::header::HeaderValue>,
) -> Seq<HeaderFieldView> {
    header_entries(headers).map_values(
        |e: (Seq<char>, Option<Seq<char>>, Seq<char>)|
            HeaderFieldView { name: e.0, text: e.1, raw: e.2 },
    )
}

/// `first_named` finds a field at an index before which no field is named, and
/// finds none only where no field is named.
pub proof fn lemma_first_named(fields: Seq<HeaderFieldView>, name: Seq<char>)
    ensures
        first_named(fields, name) is None <==> forall|i: int|
            0 <= i < fields.len() ==> !names_header(#[trigger] fields[i], name),
        first_named(fields, name) is Some ==> exists|i: int|
            0 <= i < fields.len() && #[trigger] fields[i] == first_named(fields, name)->0
                && names_header(fields[i], name) && forall|j: int|
                0 <= j < i ==> !names_header(#[trigger] fields[j], name),
    decreases fields.len(),
{
    if fields.len() > 0 {
        let rest = fields.drop_first();
        lemma_first_named(rest, name);
        assert(forall|i: int| 0 <= i < rest.len() ==> rest[i] == fields[i + 1]);
        if names_header(fields.first(), name) {
            assert(fields[0] == first_named(fields, name)->0);
        } else {
            if first_named(rest, name) is Some {
                let i = choose|i: int|
                    0 <= i < rest.len() && #[trigger] rest[i] == first_named(rest, name)->0
                        && names_header(rest[i], name) && forall|j: int|
                        0 <= j < i ==> !names_header(#[trigger] rest[j], name);
                assert(fields[i + 1] == first_named(fields, name)->0);
                assert forall|j: int| 0 <= j < i + 1 implies !names_header(
                    #[trigger] fields[j],
                    name,
                ) by {
                    if j > 0 {
                        assert(fields[j] == rest[j - 1]);
                    }
                }
            } else {
                assert forall|i: int| 0 <= i < fields.len() implies !names_header(
                    #[trigger] fields[i],
                    name,
                ) by {
                    if i > 0 {
                        assert(fields[i] == rest[i - 1]);
                    }
                }
            }
        }
    }
}

/// Finds the first field whose name, put in lower case, is `name`.
pub fn find_header<'a>(fields: &'a Vec<HeaderField>, name: &str) -> (found: Option<
    &'a HeaderField,
>)
    ensures
        found is Some == first_named(field_views(fields@), name@) is Some,
        found is Some ==> found->0@ == first_named(field_views(fields@), name@)->0,
{
    let ghost all = field_views(fields@);
    let mut i: usize = 0;
    assert(all.skip(0) == all);
    while i < fields.len()
        invariant
            i <= fields.len(),
            all == field_views(fields@),
            first_named(all, name@) == first_named(all.skip(i as int), name@),
        decreases fields.len() - i,
    {
        let lowered = to_lowercase(fields[i].name.as_str());
        proof {
            let rest = all.skip(i as int);
            assert(rest.first() == fields[i as int]@);
            assert(rest.drop_first() == all.skip(i + 1));
        }
        if same_text(lowered.as_str(), name) {
            return Some(&fields[i]);
        }
        i += 1;
    }
    None
}

/// Decides a response with status `code` by the header that the assertion's
/// name selected.
pub fn judge_header(code: u16, assertion: &HeaderAssertion, found: Option<&HeaderField>) -> (outcome:
    Outcome)
    ensures
        outcome@ == judged(
            code,
            assertion@,
            match found {
                Some(field) => Some(field@),
                None => None,
            },
        ),
{
    let mut message = String::from_str("header '");
    message.append(assertion.name.as_str());
    match found {
        None => {
            message.append("' not found");
            assert(message@ =~= not_found_message(assertion@.name));
            Outcome::Failure(message)
        },
        Some(field) => match &field.text {
            None => {
                message.append("' actual value not valid text: ");
                message.append(field.raw.as_str());
                assert(message@ =~= not_text_message(assertion@.name, field@.raw));
                Outcome::Failure(message)
            },
            Some(actual) => {
                if same_text(actual.as_str(), assertion.value.as_str()) {
                    Outcome::Success(code)
                } else {
                    message.append("' assertion failed: expected '");
                    message.append(assertion.value.as_str());
                    message.append("', got '");
                    message.append(actual.as_str());
                    message.append("'");
                    assert(message@ =~= mismatch_message(
                        assertion@.name,
                        assertion@.value,
                        actual@,
                    ));
                    Outcome::Failure(message)
                }
            },
        },
    }
}

/// Decides a response with status `code` and the headers `fields` under `policy`.
pub fn evaluate(code: u16, fields: &Vec<HeaderField>, policy: &CheckPolicy) -> (outcome: Outcome)
    ensures
        outcome@ == evaluated(code, field_views(fields@), policy@),
{
    match &policy.header_assertion {
        None => Outcome::Success(code),
        Some(assertion) => {
            let found = find_header(fields, assertion.name.as_str());
            judge_header(code, assertion, found)
        },
    }
}

/// Decides a response with status `code` and the header map `headers` under
/// `policy`.
pub fn evaluate_response(
    code: u16,
    headers: &reqwest::header::HeaderMap<reqwest::header::HeaderValue>,
    policy: &CheckPolicy,
) -> (outcome: Outcome)
    ensures
        outcome@ == evaluated(code, response_fields(*headers), policy@),
{
    let fields = read_headers(headers);
    proof {
        let views = field_views(fields@);
        let entries = views.map_values(|f: HeaderFieldView| entry_of(f));
        assert(entries == header_entries(*headers));
        assert(views.len() == response_fields(*headers).len());
        assert forall|i: int| 0 <= i < views.len() implies views[i] == response_fields(
            *headers,
        )[i] by {
            assert(entries[i] == entry_of(views[i]));
        }
        assert(views =~= response_fields(*headers));
    }
    evaluate(code, &fields, policy)
}

} // verus!
