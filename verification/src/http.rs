//! The request and response model.

use crate::string_map::{distinct_keys, lemma_put, lookup, put, Pair, StringMap};
use crate::text::{chars_of, decimal, decimal_text, same_text};
use vstd::utf8::encode_utf8;
use vstd::prelude::*;
use vstd::string::*;

verus! {

/// The request methods that routes can be registered for.
#[derive(Clone, Copy, Debug, PartialEq, Eq, Hash, Structural)]
pub enum HttpMethod {
    Get,
    Post,
    Put,
    Delete,
    Patch,
    Options,
    Head,
}

/// The method that a method name stands for. Names are upper case; any other
/// text names no method.
pub open spec fn method_named(name: Seq<char>) -> Option<HttpMethod> {
    if name == "GET"@ {
        Some(HttpMethod::Get)
    } else if name == "POST"@ {
        Some(HttpMethod::Post)
    } else if name == "PUT"@ {
        Some(HttpMethod::Put)
    } else if name == "DELETE"@ {
        Some(HttpMethod::Delete)
    } else if name == "PATCH"@ {
        Some(HttpMethod::Patch)
    } else if name == "OPTIONS"@ {
        Some(HttpMethod::Options)
    } else if name == "HEAD"@ {
        Some(HttpMethod::Head)
    } else {
        None
    }
}

impl HttpMethod {
    /// The name of the method as it stands in a request line.
    pub open spec fn name(self) -> Seq<char> {
        match self {
            HttpMethod::Get => "GET"@,
            HttpMethod::Post => "POST"@,
            HttpMethod::Put => "PUT"@,
            HttpMethod::Delete => "DELETE"@,
            HttpMethod::Patch => "PATCH"@,
            HttpMethod::Options => "OPTIONS"@,
            HttpMethod::Head => "HEAD"@,
        }
    }

    /// Reads a method name.
    pub fn from_name(name: &str) -> (method: Option<HttpMethod>)
        ensures
            method == method_named(name@),
    {
        if same_text(name, "GET") {
            Some(HttpMethod::Get)
        } else if same_text(name, "POST") {
            Some(HttpMethod::Post)
        } else if same_text(name, "PUT") {
            Some(HttpMethod::Put)
        } else if same_text(name, "DELETE") {
            Some(HttpMethod::Delete)
        } else if same_text(name, "PATCH") {
            Some(HttpMethod::Patch)
        } else if same_text(name, "OPTIONS") {
            Some(HttpMethod::Options)
        } else if same_text(name, "HEAD") {
            Some(HttpMethod::Head)
        } else {
            None
        }
    }

    /// The name of the method.
    pub fn as_str(&self) -> (name: &'static str)
        ensures
            name@ == self.name(),
    {
        match self {
            HttpMethod::Get => "GET",
            HttpMethod::Post => "POST",
            HttpMethod::Put => "PUT",
            HttpMethod::Delete => "DELETE",
            HttpMethod::Patch => "PATCH",
            HttpMethod::Options => "OPTIONS",
            HttpMethod::Head => "HEAD",
        }
    }
}

/// Every method is read back from its own name.
pub proof fn lemma_method_names(method: HttpMethod)
    ensures
        method_named(method.name()) == Some(method),
{
    reveal_strlit("GET");
    reveal_strlit("POST");
    reveal_strlit("PUT");
    reveal_strlit("DELETE");
    reveal_strlit("PATCH");
    reveal_strlit("OPTIONS");
    reveal_strlit("HEAD");
    assert("GET"@.len() == 3 && "GET"@[0] == 'G');
    assert("PUT"@.len() == 3 && "PUT"@[0] == 'P');
    assert("POST"@.len() == 4 && "POST"@[0] == 'P');
    assert("HEAD"@.len() == 4 && "HEAD"@[0] == 'H');
    assert("PATCH"@.len() == 5);
    assert("DELETE"@.len() == 6);
}

/// A request as handlers see it.
pub struct Request {
    pub method: HttpMethod,
    /// The path as it was sent, without the query string.
    pub path: String,
    /// Header values by header name; of several values of one name the last.
    pub headers: StringMap,
    /// What the matched route's template captured, by parameter name.
    pub path_params: StringMap,
    /// Query values by key; of several values of one key the first.
    pub query_params: StringMap,
    pub body: Vec<u8>,
}

impl Request {
    /// A request made of the given parts.
    pub fn new(
        method: HttpMethod,
        path: String,
        headers: StringMap,
        path_params: StringMap,
        query_params: StringMap,
        body: Vec<u8>,
    ) -> (request: Self)
        ensures
            request.method == method,
            request.path == path,
            request.headers == headers,
            request.path_params == path_params,
            request.query_params == query_params,
            request.body == body,
    {
        Request { method, path, headers, path_params, query_params, body }
    }
}

impl Clone for Request {
    /// A copy that holds the same in every part.
    fn clone(&self) -> (out: Self)
        ensures
            out.method == self.method,
            out.path@ == self.path@,
            out.headers.pairs() == self.headers.pairs(),
            out.path_params.pairs() == self.path_params.pairs(),
            out.query_params.pairs() == self.query_params.pairs(),
            out.body@ == self.body@,
    {
        Request {
            method: self.method,
            path: self.path.clone(),
            headers: self.headers.clone(),
            path_params: self.path_params.clone(),
            query_params: self.query_params.clone(),
            body: self.body.clone(),
        }
    }
}

/// A text that ends in a carriage return and a line feed: the text itself if
/// it ends so, else the text with `\r\n` in place of a final line feed or,
/// where there is none, behind its end.
pub open spec fn crlf_terminated(text: Seq<char>) -> Seq<char> {
    let n = text.len() as int;
    if n >= 2 && text[n - 2] == '\r' && text[n - 1] == '\n' {
        text
    } else if n >= 1 && text[n - 1] == '\n' {
        text.take(n - 1) + seq!['\r', '\n']
    } else {
        text + seq!['\r', '\n']
    }
}

/// A terminated text ends in a carriage return and a line feed, and
/// terminating it once more changes nothing.
pub proof fn lemma_crlf_terminated(text: Seq<char>)
    ensures
        crlf_terminated(text).len() >= 2,
        crlf_terminated(text)[crlf_terminated(text).len() - 2] == '\r',
        crlf_terminated(text).last() == '\n',
        crlf_terminated(crlf_terminated(text)) == crlf_terminated(text),
{
}

/// The headers after a JSON, text or HTML body was set: the content type, and
/// the length of the body in bytes, written in decimal.
pub open spec fn with_content(headers: Seq<Pair>, kind: Seq<char>, length: nat) -> Seq<Pair> {
    put(put(headers, "Content-Type"@, kind), "Content-Length"@, decimal(length))
}

/// After a body was set, the headers name its type and its length: whatever
/// stood under `Content-Type` and `Content-Length` before is replaced, and no
/// other header changes.
pub proof fn lemma_with_content(headers: Seq<Pair>, kind: Seq<char>, length: nat)
    requires
        distinct_keys(headers),
    ensures
        distinct_keys(with_content(headers, kind, length)),
        lookup(with_content(headers, kind, length), "Content-Type"@) == Some(kind),
        lookup(with_content(headers, kind, length), "Content-Length"@) == Some(decimal(length)),
        forall|name: Seq<char>|
            name != "Content-Type"@ && name != "Content-Length"@ ==> lookup(
                with_content(headers, kind, length),
                name,
            ) == lookup(headers, name),
{
    reveal_strlit("Content-Type");
    reveal_strlit("Content-Length");
    assert("Content-Type"@.len() != "Content-Length"@.len());
    lemma_put(headers, "Content-Type"@, kind);
    lemma_put(put(headers, "Content-Type"@, kind), "Content-Length"@, decimal(length));
}

/// A response as handlers build it.
pub struct Response {
    pub status_code: u16,
    pub headers: StringMap,
    pub body: Vec<u8>,
}

impl Response {
    /// A response with a status, no header and an empty body.
    pub fn new(status_code: u16) -> (response: Self)
        ensures
            response.status_code == status_code,
            response.headers.pairs() == Seq::<Pair>::empty(),
            response.body@ == Seq::<u8>::empty(),
    {
        Response { status_code, headers: StringMap::new(), body: Vec::new() }
    }

    /// Sets one header; a value set before under the same name is replaced.
    pub fn with_header(self, key: &str, value: &str) -> (response: Self)
        ensures
            response.status_code == self.status_code,
            response.headers.pairs() == put(self.headers.pairs(), key@, value@),
            response.body == self.body,
    {
        let mut response = self;
        response.headers.insert(String::from_str(key), String::from_str(value));
        response
    }

    /// Makes the body a serialized JSON document followed by `\r\n`, and sets
    /// `Content-Type: application/json` and the `Content-Length` of the body.
    pub fn json(self, document: Vec<u8>) -> (response: Self)
        ensures
            response.status_code == self.status_code,
            response.body@ == document@ + seq![13u8, 10u8],
            response.headers.pairs() == with_content(
                self.headers.pairs(),
                "application/json"@,
                response.body@.len(),
            ),
    {
        let mut response = self;
        let mut body = document;
        body.push(13u8);
        body.push(10u8);
        response.headers.insert(
            String::from_str("Content-Type"),
            String::from_str("application/json"),
        );
        response.headers.insert(String::from_str("Content-Length"), decimal_text(body.len()));
        response.body = body;
        response
    }

    /// Makes the body a text that ends in `\r\n`, and sets
    /// `Content-Type: text/plain` and the `Content-Length` of the body.
    pub fn text(self, text: &str) -> (response: Self)
        ensures
            response.status_code == self.status_code,
            response.body@ == encode_utf8(crlf_terminated(text@)),
            response.headers.pairs() == with_content(
                self.headers.pairs(),
                "text/plain"@,
                response.body@.len(),
            ),
    {
        let mut response = self;
        let chars = chars_of(text);
        let n = chars.len();
        proof {
            reveal_strlit("\r\n");
            assert("\r\n"@ =~= seq!['\r', '\n']);
        }
        let terminated = if n >= 2 && chars[n - 2] == '\r' && chars[n - 1] == '\n' {
            String::from_str(text)
        } else if n >= 1 && chars[n - 1] == '\n' {
            String::from_str(text.substring_char(0, n - 1)).concat("\r\n")
        } else {
            String::from_str(text).concat("\r\n")
        };
        let body = terminated.as_str().as_bytes_vec();
        response.headers.insert(String::from_str("Content-Type"), String::from_str("text/plain"));
        response.headers.insert(String::from_str("Content-Length"), decimal_text(body.len()));
        response.body = body;
        response
    }

    /// Makes the body an HTML text as it stands, and sets
    /// `Content-Type: text/html` and the `Content-Length` of the body.
    pub fn html(self, html: &str) -> (response: Self)
        ensures
            response.status_code == self.status_code,
            response.body@ == encode_utf8(html@),
            response.headers.pairs() == with_content(
                self.headers.pairs(),
                "text/html"@,
                response.body@.len(),
            ),
    {
        let mut response = self;
        let body = html.as_bytes_vec();
        response.headers.insert(String::from_str("Content-Type"), String::from_str("text/html"));
        response.headers.insert(String::from_str("Content-Length"), decimal_text(body.len()));
        response.body = body;
        response
    }
}

/// What can be turned into a response.
pub trait IntoResponse {
    fn into_response(self) -> Response;
}

impl IntoResponse for () {
    /// A handler that returns nothing answers with status 200 and no body.
    fn into_response(self) -> (response: Response)
        ensures
            response.status_code == 200,
            response.headers.pairs() == Seq::<Pair>::empty(),
            response.body@ == Seq::<u8>::empty(),
    {
        Response::new(200)
    }
}

impl IntoResponse for String {
    /// A handler that returns a text answers with status 200 and the text,
    /// ended by a line end, as the body.
    fn into_response(self) -> (response: Response)
        ensures
            response.status_code == 200,
            response.body@ == encode_utf8(crlf_terminated(self@)),
            response.headers.pairs() == with_content(
                Seq::<Pair>::empty(),
                "text/plain"@,
                response.body@.len(),
            ),
    {
        Response::new(200).text(self.as_str())
    }
}

impl IntoResponse for Response {
    /// A response is its own response.
    fn into_response(self) -> (response: Response)
        ensures
            response == self,
    {
        self
    }
}

} // verus!
