//! Requests and responses as they pass between the application's window
//! and its backend.

use crate::json::{members_view, push_member, Json, JsonValue, Member};
use crate::outcome::{entry, no_members, text_value};
use crate::serialize::json_text;
use crate::text::{followed_by, same_text};
use vstd::prelude::*;
use vstd::string::StrSliceExecFns;
use vstd::utf8::encode_utf8;

verus! {

broadcast use crate::outcome::group_member_sequences;

/// A request to the backend.
#[derive(Clone, Debug, PartialEq, Eq)]
pub struct LocalRequest {
    pub uri: String,
    pub method: String,
    pub body: Option<String>,
    pub headers: Vec<(String, String)>,
}

/// A response of the backend.
#[derive(Clone, Debug, PartialEq, Eq)]
pub struct LocalResponse {
    pub status_code: u16,
    pub body: Vec<u8>,
    pub headers: Vec<(String, String)>,
}

/// What the application knows of its backend.
#[derive(Clone, Copy, Debug, PartialEq, Eq)]
pub struct AppState {
    pub backend_available: bool,
}

/// The mathematical reading of a response.
pub struct Response {
    pub status_code: u16,
    pub body: Seq<u8>,
    pub headers: Seq<(Seq<char>, Seq<char>)>,
}

/// The reading of a list of headers.
pub open spec fn headers_view(headers: Seq<(String, String)>) -> Seq<(Seq<char>, Seq<char>)> {
    Seq::new(headers.len(), |i: int| (headers[i].0@, headers[i].1@))
}

impl View for LocalResponse {
    type V = Response;

    open spec fn view(&self) -> Response {
        Response {
            status_code: self.status_code,
            body: self.body@,
            headers: headers_view(self.headers@),
        }
    }
}

/// The response with the given text as its body, of the given content
/// type.
pub open spec fn typed_response(status_code: u16, content_type: Seq<char>, body: Seq<char>)
    -> Response {
    Response {
        status_code,
        body: encode_utf8(body),
        headers: seq![("content-type"@, content_type)],
    }
}

/// The document with which the backend answers a request for `uri`, and
/// the status that goes with it.
pub open spec fn backend_answer(uri: Seq<char>, version: Seq<char>) -> (u16, JsonValue) {
    if uri == "/health"@ || uri == "/api/health"@ {
        (
            200,
            JsonValue::Object(
                seq![
                    entry("message", text_value("Backend is running"@)),
                    entry("status", JsonValue::Bool(true)),
                ],
            ),
        )
    } else if uri == "/api/config"@ {
        (
            200,
            JsonValue::Object(
                seq![
                    entry(
                        "features",
                        JsonValue::Object(
                            seq![
                                entry("auth", JsonValue::Bool(false)),
                                entry("enable_api_key", JsonValue::Bool(false)),
                                entry("enable_login_form", JsonValue::Bool(false)),
                                entry("enable_signup", JsonValue::Bool(false)),
                                entry("enable_version_update_check", JsonValue::Bool(false)),
                                entry("enable_websocket", JsonValue::Bool(false)),
                            ],
                        ),
                    ),
                    entry("name", text_value("Open CoreUI"@)),
                    entry("status", JsonValue::Bool(true)),
                    entry("version", text_value(version)),
                ],
            ),
        )
    } else if uri == "/api/models"@ {
        (200, JsonValue::Object(seq![entry("data", JsonValue::Array(Seq::empty()))]))
    } else {
        (404, JsonValue::Object(seq![entry("error", text_value("Not Found"@))]))
    }
}

/// One header.
fn one_header(name: &str, value: &str) -> (r: Vec<(String, String)>)
    ensures
        headers_view(r@) == seq![(name@, value@)],
{
    let mut headers: Vec<(String, String)> = Vec::new();
    headers.push((name.to_owned(), value.to_owned()));
    assert(headers_view(headers@) =~= seq![(name@, value@)]);
    headers
}

impl LocalRequest {
    /// The backend's answer to the request, for a backend of the given
    /// version: a JSON document without headers.
    pub fn process_with_backend(self, version: &str) -> (r: LocalResponse)
        ensures
            r@.status_code == backend_answer(self.uri@, version@).0,
            r@.body == encode_utf8(json_text(backend_answer(self.uri@, version@).1)),
            r@.headers.len() == 0,
    {
        let uri = self.uri.as_str();
        let mut members = no_members();
        let status_code: u16 = if same_text(uri, "/health") || same_text(uri, "/api/health") {
            push_member(&mut members, "message", Json::string("Backend is running"));
            push_member(&mut members, "status", Json::Bool(true));
            200
        } else if same_text(uri, "/api/config") {
            let mut features = no_members();
            push_member(&mut features, "auth", Json::Bool(false));
            push_member(&mut features, "enable_api_key", Json::Bool(false));
            push_member(&mut features, "enable_login_form", Json::Bool(false));
            push_member(&mut features, "enable_signup", Json::Bool(false));
            push_member(&mut features, "enable_version_update_check", Json::Bool(false));
            push_member(&mut features, "enable_websocket", Json::Bool(false));
            assert(members_view(features@) =~= seq![
                entry("auth", JsonValue::Bool(false)),
                entry("enable_api_key", JsonValue::Bool(false)),
                entry("enable_login_form", JsonValue::Bool(false)),
                entry("enable_signup", JsonValue::Bool(false)),
                entry("enable_version_update_check", JsonValue::Bool(false)),
                entry("enable_websocket", JsonValue::Bool(false)),
            ]);
            push_member(&mut members, "features", Json::object(features));
            push_member(&mut members, "name", Json::string("Open CoreUI"));
            push_member(&mut members, "status", Json::Bool(true));
            push_member(&mut members, "version", Json::string(version));
            200
        } else if same_text(uri, "/api/models") {
            let none: Vec<Json> = Vec::new();
            assert(none.deep_view() =~= Seq::<JsonValue>::empty());
            push_member(&mut members, "data", Json::array(none));
            200
        } else {
            push_member(&mut members, "error", Json::string("Not Found"));
            404
        };
        let body = Json::object(members).to_text();
        let headers: Vec<(String, String)> = Vec::new();
        LocalResponse { status_code, body: body.as_str().as_bytes_vec(), headers }
    }
}

impl LocalResponse {
    /// The response that reports an internal error.
    pub fn internal_server_error(error: String) -> (r: LocalResponse)
        ensures
            r@.status_code == 500,
            r@.body == encode_utf8("Internal Server Error: "@ + error@),
            r@.headers.len() == 0,
    {
        let body = followed_by("Internal Server Error: ", error.as_str());
        let headers: Vec<(String, String)> = Vec::new();
        LocalResponse { status_code: 500, body: body.as_str().as_bytes_vec(), headers }
    }

    /// The successful response with a JSON document as its body.
    pub fn json(data: &Json) -> (r: LocalResponse)
        ensures
            r@ == typed_response(200, "application/json"@, json_text(data@)),
    {
        let body = data.to_text();
        LocalResponse {
            status_code: 200,
            body: body.as_str().as_bytes_vec(),
            headers: one_header("content-type", "application/json"),
        }
    }

    /// The successful response with a plain text as its body.
    pub fn text(text: String) -> (r: LocalResponse)
        ensures
            r@ == typed_response(200, "text/plain"@, text@),
    {
        LocalResponse {
            status_code: 200,
            body: text.as_str().as_bytes_vec(),
            headers: one_header("content-type", "text/plain"),
        }
    }

    /// The successful response with an HTML page as its body.
    pub fn html(html: String) -> (r: LocalResponse)
        ensures
            r@ == typed_response(200, "text/html; charset=utf-8"@, html@),
    {
        LocalResponse {
            status_code: 200,
            body: html.as_str().as_bytes_vec(),
            headers: one_header("content-type", "text/html; charset=utf-8"),
        }
    }

    /// The value of the first header of the given name.
    pub fn header(&self, name: &str) -> (r: Option<&String>)
        ensures
            match r {
                Some(value) => exists|i: int|
                    0 <= i < self@.headers.len() && (#[trigger] self@.headers[i]).0 == name@
                        && self@.headers[i].1 == value@ && forall|j: int|
                        0 <= j < i ==> (#[trigger] self@.headers[j]).0 != name@,
                None => forall|i: int|
                    0 <= i < self@.headers.len() ==> (#[trigger] self@.headers[i]).0 != name@,
            },
    {
        let wanted = name.to_owned();
        let mut i: usize = 0;
        while i < self.headers.len()
            invariant
                0 <= i <= self.headers.len(),
                wanted@ == name@,
                forall|j: int| 0 <= j < i ==> (#[trigger] self@.headers[j]).0 != name@,
            decreases self.headers.len() - i,
        {
            assert(self@.headers[i as int].0 == self.headers@[i as int].0@);
            if self.headers[i].0 == wanted {
                assert(self@.headers[i as int].1 == self.headers@[i as int].1@);
                return Some(&self.headers[i].1);
            }
            i = i + 1;
        }
        None
    }
}

} // verus!
