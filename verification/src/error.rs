//! The error value that every failure becomes, and the response that it is
//! sent as.

use crate::http::{with_content, IntoResponse, Response};
use crate::string_map::Pair;
use crate::text::{decimal, decimal_text, digit};
use vstd::prelude::*;
use vstd::string::*;
use vstd::utf8::encode_utf8;

verus! {

/// The lower-case hexadecimal digit of a number below 16.
pub open spec fn hex_digit(d: nat) -> char {
    if d < 10 {
        digit(d)
    } else if d == 10 {
        'a'
    } else if d == 11 {
        'b'
    } else if d == 12 {
        'c'
    } else if d == 13 {
        'd'
    } else if d == 14 {
        'e'
    } else {
        'f'
    }
}

/// What stands for one character inside a JSON string literal: the quote,
/// the backslash and the control characters below the space are escaped,
/// every other character stands for itself.
pub open spec fn json_escape(c: char) -> Seq<char> {
    if c == '"' {
        seq!['\\', '"']
    } else if c == '\\' {
        seq!['\\', '\\']
    } else if c == '\u{8}' {
        seq!['\\', 'b']
    } else if c == '\t' {
        seq!['\\', 't']
    } else if c == '\n' {
        seq!['\\', 'n']
    } else if c == '\u{c}' {
        seq!['\\', 'f']
    } else if c == '\r' {
        seq!['\\', 'r']
    } else if ' ' > c {
        seq!['\\', 'u', '0', '0', hex_digit(c as nat / 16), hex_digit(c as nat % 16)]
    } else {
        seq![c]
    }
}

/// The characters of a text, each as it stands inside a JSON string literal.
pub open spec fn json_escaped(text: Seq<char>) -> Seq<char>
    decreases text.len(),
{
    if text.len() == 0 {
        Seq::empty()
    } else {
        json_escaped(text.drop_last()) + json_escape(text.last())
    }
}

/// The JSON string literal of a text: the escaped text between double quotes.
pub open spec fn json_quoted(text: Seq<char>) -> Seq<char> {
    seq!['"'] + json_escaped(text) + seq!['"']
}

/// A text without quotes, backslashes and control characters stands in its
/// JSON string literal as it is.
pub proof fn lemma_plain_text_quoted(text: Seq<char>)
    requires
        forall|i: int|
            0 <= i < text.len() ==> (#[trigger] text[i]) != '"' && text[i] != '\\' && text[i]
                >= ' ',
    ensures
        json_escaped(text) == text,
        json_quoted(text) == seq!['"'] + text + seq!['"'],
    decreases text.len(),
{
    if text.len() > 0 {
        let front = text.drop_last();
        assert forall|i: int| 0 <= i < front.len() implies (#[trigger] front[i]) != '"' && front[i]
            != '\\' && front[i] >= ' ' by {
            assert(front[i] == text[i]);
        }
        lemma_plain_text_quoted(front);
        assert(json_escape(text.last()) == seq![text.last()]);
        assert(json_escaped(text) =~= text);
    } else {
        assert(json_escaped(text) =~= text);
    }
}

/// Calls `serde_json::to_string` on a text. Believed, not proved: serializing
/// a text cannot fail and writes the JSON string literal of the text, in
/// which serde_json escapes the quote, the backslash and the control
/// characters below the space, the latter as `\b`, `\t`, `\n`, `\f`, `\r`
/// or `\u00` and two lower-case hexadecimal digits.
#[verifier::external_body]
fn quote_json(text: &str) -> (out: String)
    ensures
        out@ == json_quoted(text@),
{
    serde_json::to_string(text).unwrap_or_default()
}

/// The JSON document of an error: an object with the fields `status`,
/// `message` and, where a cause is attached, `error`, in this order and
/// without white space.
pub open spec fn error_document(status: u16, message: Seq<char>, error: Option<Seq<char>>) -> Seq<
    char,
> {
    let head = "{\"status\":"@ + decimal(status as nat) + ",\"message\":"@ + json_quoted(message);
    match error {
        Some(cause) => head + ",\"error\":"@ + json_quoted(cause) + "}"@,
        None => head + "}"@,
    }
}

/// The one-line description of an error.
pub open spec fn error_line(status: u16, message: Seq<char>) -> Seq<char> {
    "MadenError { status: "@ + decimal(status as nat) + ", message: "@ + message + " }"@
}

/// Which side a failure of decoding is due to.
#[derive(Clone, Copy, Debug, PartialEq, Eq, Structural)]
pub enum Fault {
    /// The transport: reading or writing a socket, decoding a header.
    Transport,
    /// The client: a body that cannot be decoded, or not into the shape
    /// asked for.
    Body,
}

/// A failure with the status it is answered with, a message for the client
/// and, optionally, the text of the cause.
#[derive(Debug)]
pub struct MadenError {
    pub status: u16,
    pub message: String,
    pub error: Option<String>,
}

impl MadenError {
    /// An error without a cause.
    pub fn new(status: u16, message: &str) -> (error: Self)
        ensures
            error.status == status,
            error.message@ == message@,
            error.error is None,
    {
        MadenError { status, message: String::from_str(message), error: None }
    }

    /// An error with the text of its cause.
    pub fn with_error(status: u16, message: &str, error: &str) -> (out: Self)
        ensures
            out.status == status,
            out.message@ == message@,
            out.error.deep_view() == Some(error@),
    {
        MadenError {
            status,
            message: String::from_str(message),
            error: Some(String::from_str(error)),
        }
    }

    /// Status 400: the request is malformed.
    pub fn bad_request(message: &str) -> (error: Self)
        ensures
            error.status == 400,
            error.message@ == message@,
            error.error is None,
    {
        Self::new(400, message)
    }

    /// Status 401: the request lacks valid credentials.
    pub fn unauthorized(message: &str) -> (error: Self)
        ensures
            error.status == 401,
            error.message@ == message@,
            error.error is None,
    {
        Self::new(401, message)
    }

    /// Status 403: the request is not allowed.
    pub fn forbidden(message: &str) -> (error: Self)
        ensures
            error.status == 403,
            error.message@ == message@,
            error.error is None,
    {
        Self::new(403, message)
    }

    /// Status 404: nothing is registered for the request.
    pub fn not_found(message: &str) -> (error: Self)
        ensures
            error.status == 404,
            error.message@ == message@,
            error.error is None,
    {
        Self::new(404, message)
    }

    /// Status 500: the server failed.
    pub fn internal_server_error(message: &str) -> (error: Self)
        ensures
            error.status == 500,
            error.message@ == message@,
            error.error is None,
    {
        Self::new(500, message)
    }

    /// The error for a failure of decoding, with the words of the failure as
    /// its message: a server error where the transport failed, a client
    /// error where the body cannot be decoded.
    pub fn from_fault(fault: Fault, words: &str) -> (error: Self)
        ensures
            error.status == match fault {
                Fault::Transport => 500u16,
                Fault::Body => 400u16,
            },
            error.message@ == words@,
            error.error is None,
    {
        match fault {
            Fault::Transport => Self::internal_server_error(words),
            Fault::Body => Self::bad_request(words),
        }
    }

    /// The one-line description `MadenError { status: .., message: .. }`.
    pub fn to_string(&self) -> (line: String)
        ensures
            line@ == error_line(self.status, self.message@),
    {
        let status = self.status as usize;
        String::from_str("MadenError { status: ").concat(decimal_text(status).as_str()).concat(
            ", message: ",
        ).concat(self.message.as_str()).concat(" }")
    }

    /// The JSON document that the error is sent as.
    pub fn to_json(&self) -> (document: String)
        ensures
            document@ == error_document(self.status, self.message@, self.error.deep_view()),
    {
        let status = self.status as usize;
        let head = String::from_str("{\"status\":").concat(decimal_text(status).as_str()).concat(
            ",\"message\":",
        ).concat(quote_json(self.message.as_str()).as_str());
        match &self.error {
            Some(cause) => head.concat(",\"error\":").concat(
                quote_json(cause.as_str()).as_str(),
            ).concat("}"),
            None => head.concat("}"),
        }
    }
}

/// The body of the response that an error is sent as: its JSON document and
/// `\r\n`.
pub open spec fn error_body(status: u16, message: Seq<char>, error: Option<Seq<char>>) -> Seq<u8> {
    encode_utf8(error_document(status, message, error)) + seq![13u8, 10u8]
}

impl IntoResponse for MadenError {
    /// The response of an error: its status, its JSON document as the body,
    /// `Content-Type: application/json` and the length of the body.
    fn into_response(self) -> (response: Response)
        ensures
            response.status_code == self.status,
            response.body@ == error_body(self.status, self.message@, self.error.deep_view()),
            response.headers.pairs() == with_content(
                Seq::<Pair>::empty(),
                "application/json"@,
                response.body@.len(),
            ),
    {
        let document = self.to_json();
        Response::new(self.status).json(document.as_str().as_bytes_vec())
    }
}

impl IntoResponse for Result<Response, MadenError> {
    /// What a handler returned, as a response: the response itself, or the
    /// response of the error.
    fn into_response(self) -> (response: Response)
        ensures
            match self {
                Ok(ready) => response == ready,
                Err(error) => {
                    &&& response.status_code == error.status
                    &&& response.body@ == error_body(
                        error.status,
                        error.message@,
                        error.error.deep_view(),
                    )
                    &&& response.headers.pairs() == with_content(
                        Seq::<Pair>::empty(),
                        "application/json"@,
                        response.body@.len(),
                    )
                },
            },
    {
        match self {
            Ok(ready) => ready,
            Err(error) => error.into_response(),
        }
    }
}

} // verus!
