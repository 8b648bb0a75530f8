//! The answers of a small web server: which page a request line asks for,
//! and the response that carries a page.

use vstd::prelude::*;
use vstd::string::{StringExecFns, StringSliceAdditionalSpecFns};
use crate::text::{decimal, same_text, to_decimal};

verus! {

/// What the server does with a request.
pub struct Route {
    /// The status line of the response.
    pub status_line: &'static str,
    /// The name of the file whose contents are the body of the response.
    pub filename: &'static str,
    /// How many seconds the server waits before it answers.
    pub delay_secs: u64,
}

/// The request line that asks for the front page.
pub open spec fn front_page_request() -> Seq<char> {
    "GET / HTTP/1.1"@
}

/// The request line that asks for the front page after a pause.
pub open spec fn slow_page_request() -> Seq<char> {
    "GET /sleep HTTP/1.1"@
}

/// Decides what a request line asks for. The front page is served at once
/// for `GET /`, and after five seconds for `GET /sleep`; every other request
/// gets the page for what is not found.
pub fn route(request_line: &str) -> (route: Route)
    ensures
        request_line@ == front_page_request() ==> route.status_line@ == "HTTP/1.1 200 OK"@
            && route.filename@ == "hello.html"@ && route.delay_secs == 0,
        request_line@ != front_page_request() && request_line@ == slow_page_request()
            ==> route.status_line@ == "HTTP/1.1 200 OK"@ && route.filename@ == "hello.html"@
            && route.delay_secs == 5,
        request_line@ != front_page_request() && request_line@ != slow_page_request()
            ==> route.status_line@ == "HTTP/1.1 404 NOT FOUND"@ && route.filename@ == "404.html"@
            && route.delay_secs == 0,
{
    if same_text(request_line, "GET / HTTP/1.1") {
        Route { status_line: "HTTP/1.1 200 OK", filename: "hello.html", delay_secs: 0 }
    } else if same_text(request_line, "GET /sleep HTTP/1.1") {
        Route { status_line: "HTTP/1.1 200 OK", filename: "hello.html", delay_secs: 5 }
    } else {
        Route { status_line: "HTTP/1.1 404 NOT FOUND", filename: "404.html", delay_secs: 0 }
    }
}

/// The response to a request: the status line, the length of the body in
/// bytes as a header, an empty line, and the body.
pub open spec fn response_text(status_line: Seq<char>, length: nat, contents: Seq<char>) -> Seq<
    char,
> {
    status_line + "\r\nContent-Length: "@ + decimal(length) + "\r\n\r\n"@ + contents
}

/// Builds the response that carries `contents` under `status_line`.
pub fn response(status_line: &str, contents: &str) -> (text: String)
    ensures
        text@ == response_text(status_line@, contents.spec_bytes().len(), contents@),
{
    let length = to_decimal(contents.as_bytes().len());
    let mut text = String::from_str(status_line);
    text.append("\r\nContent-Length: ");
    text.append(length.as_str());
    text.append("\r\n\r\n");
    text.append(contents);
    text
}

} // verus!
