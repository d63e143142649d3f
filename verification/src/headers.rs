use vstd::prelude::*;

verus! {

/// The header map of the `http` crate, as `reqwest` hands it out with a response.
#[verifier::external_type_specification]
#[verifier::external_body]
#[verifier::reject_recursive_types(T)]
pub struct ExHeaderMap<T>(reqwest::header::HeaderMap<T>);

/// One header value of the `http` crate.
#[verifier::external_type_specification]
#[verifier::external_body]
pub struct ExHeaderValue(reqwest::header::HeaderValue);

/// One header of a response as plain values.
#[derive(Debug)]
pub struct HeaderField {
    /// The header's name.
    pub name: String,
    /// The header's value where it is text; `None` where its bytes are not.
    pub text: Option<String>,
    /// A printable rendering of the value's bytes, whatever they hold.
    pub raw: String,
}

/// The mathematical value of a [`HeaderField`].
pub struct HeaderFieldView {
    pub name: Seq<char>,
    pub text: Option<Seq<char>>,
    pub raw: Seq<char>,
}

impl View for HeaderField {
    type V = HeaderFieldView;

    open spec fn view(&self) -> HeaderFieldView {
        HeaderFieldView {
            name: self.name@,
            text: match self.text {
                Some(text) => Some(text@),
                None => None,
            },
            raw: self.raw@,
        }
    }
}

/// The values of a sequence of header fields, in the same order.
pub open spec fn field_views(fields: Seq<HeaderField>) -> Seq<HeaderFieldView> {
    fields.map_values(|f: HeaderField| f@)
}

/// What a header map holds, in the order in which its iterator yields it: for
/// each entry the name, the value as text where it is text, and the value's
/// printable rendering.
pub uninterp spec fn header_entries(
    headers: reqwest::header::HeaderMap<reqwest::header::HeaderValue>,
) -> Seq<(Seq<char>, Option<Seq<char>>, Seq<char>)>;

/// The entry of a header map that a field stands for.
pub open spec fn entry_of(field: HeaderFieldView) -> (Seq<char>, Option<Seq<char>>, Seq<char>) {
    (field.name, field.text, field.raw)
}

/// `HeaderMap::iter`, with each pair turned into plain values: the name by
/// `HeaderName::as_str`, the text by `HeaderValue::to_str` (`None` where that
/// fails) and the rendering by the `Debug` form of `HeaderValue`. Trusted: the
/// fields come in the iterator's order, one for each pair that it yields.
#[verifier::external_body]
pub(crate) fn read_headers(
    headers: &reqwest::header::HeaderMap<reqwest::header::HeaderValue>,
) -> (fields: Vec<HeaderField>)
    ensures
        field_views(fields@).map_values(|f: HeaderFieldView| entry_of(f)) == header_entries(
            *headers,
        ),
{
    let mut fields = Vec::new();
    for (name, value) in headers.iter() {
        fields.push(
            HeaderField {
                name: name.as_str().to_string(),
                text: value.to_str().ok().map(|text| text.to_string()),
                raw: format!("{:?}", value),
            },
        );
    }
    fields
}

/// What `str::to_lowercase` returns for a text: its lower-case form as Unicode
/// defines it.
pub uninterp spec fn lowercase_of(text: Seq<char>) -> Seq<char>;

/// `str::to_lowercase`.
#[verifier::external_body]
pub(crate) fn to_lowercase(text: &str) -> (lowered: String)
    ensures
        lowered@ == lowercase_of(text@),
{
    text.to_lowercase()
}

} // verus!
