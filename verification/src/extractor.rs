//! Typed extraction: from a matched request to the values that a handler
//! asks for.

use crate::error::MadenError;
use crate::http::{crlf_terminated, Request};
use crate::scalar::{coerce, coerced, FromParam, QueryValue, QueryValueView};
use crate::string_map::{lookup, Pair, StringMap};
use vstd::prelude::*;
use vstd::string::*;
use vstd::utf8::{
    decode_utf8, decode_utf8_encode_utf8, encode_utf8, encode_utf8_decode_utf8,
    encode_utf8_valid_utf8, is_ascii_chars, is_ascii_chars_encode_utf8, valid_utf8,
};

verus! {

/// What can be read from a request.
pub trait FromRequest: Sized {
    fn from_request(req: &Request) -> Result<Self, MadenError>;
}

/// The words with which `String::from_utf8` rejects bytes.
pub uninterp spec fn utf8_rejection(bytes: Seq<u8>) -> Seq<char>;

/// Calls `String::from_utf8`. Believed, not proved: std returns the text
/// that the bytes encode where they are valid UTF-8, and rejects any other
/// bytes, with words that depend on the bytes alone.
#[verifier::external_body]
fn utf8_text(bytes: Vec<u8>) -> (out: Result<String, String>)
    ensures
        match out {
            Ok(text) => valid_utf8(bytes@) && text@ == decode_utf8(bytes@),
            Err(cause) => !valid_utf8(bytes@) && cause@ == utf8_rejection(bytes@),
        },
{
    match String::from_utf8(bytes) {
        Ok(text) => Ok(text),
        Err(e) => Err(e.to_string()),
    }
}

/// Whether an error is the client error with this message and no cause.
pub open spec fn is_bad_request(error: MadenError, message: Seq<char>) -> bool {
    error.status == 400 && error.message@ == message && error.error is None
}

/// The client error whose message is `prefix` followed by `detail`.
fn bad_request_of(prefix: &str, detail: &str) -> (error: MadenError)
    ensures
        is_bad_request(error, prefix@ + detail@),
{
    MadenError::bad_request(String::from_str(prefix).concat(detail).as_str())
}

/// Reads the path parameter `param_name` of a matched request as a scalar.
/// A request without that parameter, and a parameter that the scalar type
/// rejects, are client errors that name the parameter.
pub fn extract_path_param<T: FromParam>(req: &Request, param_name: &str) -> (out: Result<
    T,
    MadenError,
>)
    ensures
        match lookup(req.path_params.pairs(), param_name@) {
            None => out matches Err(error) && is_bad_request(
                error,
                "Missing path parameter: "@ + param_name@,
            ),
            Some(text) => match T::rejection(text) {
                None => out matches Ok(value) && T::reads_as(text, value),
                Some(cause) => out matches Err(error) && is_bad_request(
                    error,
                    "Failed to parse path parameter '"@ + param_name@ + "': "@ + cause,
                ),
            },
        },
{
    match req.path_params.get(param_name) {
        None => Err(bad_request_of("Missing path parameter: ", param_name)),
        Some(text) => match T::from_param(text.as_str()) {
            Ok(value) => Ok(value),
            Err(cause) => {
                let prefix = String::from_str("Failed to parse path parameter '").concat(
                    param_name,
                ).concat("': ");
                Err(bad_request_of(prefix.as_str(), cause.as_str()))
            },
        },
    }
}

/// The path parameters of a request, decoded into `T`.
pub struct Path<T>(pub T);

/// The query parameters of a request, decoded into `T`.
pub struct Query<T>(pub T);

/// The JSON body of a request, decoded into `T`.
pub struct Json<T>(pub T);

impl<T> Path<T> {
    /// What is decoded: the path parameters as they were captured.
    pub fn source(req: &Request) -> (params: StringMap)
        ensures
            params.pairs() == req.path_params.pairs(),
    {
        req.path_params.clone()
    }

    /// What the decoder's outcome becomes: the decoded value, or a client
    /// error that carries the words with which the decoder refused.
    pub fn decoded(outcome: Result<T, String>) -> (out: Result<Path<T>, MadenError>)
        ensures
            match outcome {
                Ok(value) => out matches Ok(wrapped) && wrapped.0 == value,
                Err(cause) => out matches Err(error) && is_bad_request(
                    error,
                    "Failed to extract path params: "@ + cause@,
                ),
            },
    {
        match outcome {
            Ok(value) => Ok(Path(value)),
            Err(cause) => Err(bad_request_of("Failed to extract path params: ", cause.as_str())),
        }
    }
}

/// The query parameters with each value typed, in the order of the
/// parameters.
pub open spec fn typed(pairs: Seq<Pair>) -> Seq<(Seq<char>, QueryValueView)> {
    Seq::new(pairs.len(), |i: int| (pairs[i].0, coerced(pairs[i].1)))
}

impl<T> Query<T> {
    /// What is decoded: the query parameters, each value with the type that
    /// its text was taken for.
    pub fn source(req: &Request) -> (values: Vec<(String, QueryValue)>)
        ensures
            values.deep_view() == typed(req.query_params.pairs()),
    {
        let entries = req.query_params.entries();
        let n = entries.len();
        let mut values: Vec<(String, QueryValue)> = Vec::new();
        let mut i: usize = 0;
        while i < n
            invariant
                n == entries.len(),
                0 <= i <= n,
                entries.deep_view() == req.query_params.pairs(),
                values.deep_view() =~= typed(req.query_params.pairs()).take(i as int),
            decreases n - i,
        {
            let ghost before = values.deep_view();
            let key = entries[i].0.clone();
            let value = coerce(entries[i].1.as_str());
            values.push((key, value));
            assert(values.deep_view() =~= before.push((key@, value.deep_view())));
            i += 1;
        }
        values
    }

    /// What the decoder's outcome becomes: the decoded value, or a client
    /// error that carries the words with which the decoder refused.
    pub fn decoded(outcome: Result<T, String>) -> (out: Result<Query<T>, MadenError>)
        ensures
            match outcome {
                Ok(value) => out matches Ok(wrapped) && wrapped.0 == value,
                Err(cause) => out matches Err(error) && is_bad_request(
                    error,
                    "Failed to extract query params: "@ + cause@,
                ),
            },
    {
        match outcome {
            Ok(value) => Ok(Query(value)),
            Err(cause) => Err(bad_request_of("Failed to extract query params: ", cause.as_str())),
        }
    }
}

/// The text of a body, or the client error for a body that is not UTF-8.
pub open spec fn body_text(body: Seq<u8>, out: Result<String, MadenError>) -> bool {
    if valid_utf8(body) {
        out matches Ok(text) && text@ == decode_utf8(body)
    } else {
        out matches Err(error) && is_bad_request(
            error,
            "Invalid UTF-8 in request body: "@ + utf8_rejection(body),
        )
    }
}

impl<T> Json<T> {
    /// What is decoded: the body as text. A body that is not valid UTF-8 is a
    /// client error.
    pub fn source(req: &Request) -> (out: Result<String, MadenError>)
        ensures
            body_text(req.body@, out),
    {
        match utf8_text(req.body.clone()) {
            Ok(text) => Ok(text),
            Err(cause) => Err(bad_request_of("Invalid UTF-8 in request body: ", cause.as_str())),
        }
    }

    /// What the decoder's outcome becomes: a body that is no JSON document of
    /// the shape asked for is a client error.
    pub fn decoded(outcome: Result<T, String>) -> (out: Result<Json<T>, MadenError>)
        ensures
            match outcome {
                Ok(value) => out matches Ok(wrapped) && wrapped.0 == value,
                Err(cause) => out matches Err(error) && is_bad_request(
                    error,
                    "Failed to parse JSON body: "@ + cause@,
                ),
            },
    {
        match outcome {
            Ok(value) => Ok(Json(value)),
            Err(cause) => Err(bad_request_of("Failed to parse JSON body: ", cause.as_str())),
        }
    }
}

/// Whether a result is the server error with this message and no cause.
pub open spec fn is_server_error<T>(out: Result<T, MadenError>, message: Seq<char>) -> bool {
    out matches Err(error) && error.status == 500 && error.message@ == message && error.error
        is None
}

impl FromRequest for String {
    /// A bare text is not read from a request as a whole: a text parameter
    /// is read with `extract_path_param`. This always fails, with a server
    /// error.
    fn from_request(req: &Request) -> (out: Result<Self, MadenError>)
        ensures
            is_server_error(out, "String extraction should be handled by macro"@),
    {
        Err(MadenError::internal_server_error("String extraction should be handled by macro"))
    }
}

impl FromRequest for u32 {
    /// A bare number is not read from a request as a whole: a number
    /// parameter is read with `extract_path_param`. This always fails, with
    /// a server error.
    fn from_request(req: &Request) -> (out: Result<Self, MadenError>)
        ensures
            is_server_error(out, "u32 extraction should be handled by macro"@),
    {
        Err(MadenError::internal_server_error("u32 extraction should be handled by macro"))
    }
}

impl FromRequest for u64 {
    /// A bare number is not read from a request as a whole: a number
    /// parameter is read with `extract_path_param`. This always fails, with
    /// a server error.
    fn from_request(req: &Request) -> (out: Result<Self, MadenError>)
        ensures
            is_server_error(out, "u64 extraction should be handled by macro"@),
    {
        Err(MadenError::internal_server_error("u64 extraction should be handled by macro"))
    }
}

impl FromRequest for i32 {
    /// A bare number is not read from a request as a whole: a number
    /// parameter is read with `extract_path_param`. This always fails, with
    /// a server error.
    fn from_request(req: &Request) -> (out: Result<Self, MadenError>)
        ensures
            is_server_error(out, "i32 extraction should be handled by macro"@),
    {
        Err(MadenError::internal_server_error("i32 extraction should be handled by macro"))
    }
}

impl FromRequest for i64 {
    /// A bare number is not read from a request as a whole: a number
    /// parameter is read with `extract_path_param`. This always fails, with
    /// a server error.
    fn from_request(req: &Request) -> (out: Result<Self, MadenError>)
        ensures
            is_server_error(out, "i64 extraction should be handled by macro"@),
    {
        Err(MadenError::internal_server_error("i64 extraction should be handled by macro"))
    }
}

impl FromRequest for Path<StringMap> {
    /// The path parameters as they were captured; this cannot fail.
    fn from_request(req: &Request) -> (out: Result<Self, MadenError>)
        ensures
            out matches Ok(path) && path.0.pairs() == req.path_params.pairs(),
    {
        Ok(Path(Path::<StringMap>::source(req)))
    }
}

impl FromRequest for Query<Vec<(String, QueryValue)>> {
    /// The query parameters with typed values; this cannot fail.
    fn from_request(req: &Request) -> (out: Result<Self, MadenError>)
        ensures
            out matches Ok(query) && query.0.deep_view() == typed(req.query_params.pairs()),
    {
        Ok(Query(Query::<Vec<(String, QueryValue)>>::source(req)))
    }
}

/// The encoding of two texts in a row is the encoding of the first followed
/// by that of the second.
pub proof fn lemma_encode_concat(a: Seq<char>, b: Seq<char>)
    ensures
        encode_utf8(a + b) == encode_utf8(a) + encode_utf8(b),
    decreases a.len(),
{
    if a.len() > 0 {
        lemma_encode_concat(a.drop_first(), b);
        assert((a + b).drop_first() =~= a.drop_first() + b);
    }
}

/// The body that a text response carries is read back, by the body
/// extractor, as the text that was sent with its line end.
pub proof fn lemma_text_body_reads_back(text: Seq<char>)
    ensures
        valid_utf8(encode_utf8(crlf_terminated(text))),
        decode_utf8(encode_utf8(crlf_terminated(text))) == crlf_terminated(text),
{
    encode_utf8_valid_utf8(crlf_terminated(text));
    encode_utf8_decode_utf8(crlf_terminated(text));
}

/// The body that a JSON response carries for a document in UTF-8 is read
/// back, by the body extractor, as the text of the document and a line end.
pub proof fn lemma_json_body_reads_back(document: Seq<u8>)
    requires
        valid_utf8(document),
    ensures
        valid_utf8(document + seq![13u8, 10u8]),
        decode_utf8(document + seq![13u8, 10u8]) == decode_utf8(document) + seq!['\r', '\n'],
{
    let text = decode_utf8(document);
    let end = seq!['\r', '\n'];
    decode_utf8_encode_utf8(document);
    is_ascii_chars_encode_utf8(end);
    assert(encode_utf8(end) =~= seq![13u8, 10u8]);
    lemma_encode_concat(text, end);
    encode_utf8_valid_utf8(text + end);
    encode_utf8_decode_utf8(text + end);
}

} // verus!
