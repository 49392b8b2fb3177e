use vstd::prelude::*;
use vstd::string::StringSliceAdditionalSpecFns;

verus! {

/// The two pages that the server sends.
#[derive(Debug, Clone, Copy, PartialEq, Eq, Structural)]
pub enum Page {
    /// The greeting, sent for a `GET` of the root.
    Hello,
    /// The error page, sent for everything else.
    NotFound,
}

/// The request line that is answered with the greeting, as bytes.
pub open spec fn root_request_line() -> Seq<u8> {
    "GET / HTTP/1.1\r\n".spec_bytes()
}

/// The page that answers `request`: the greeting exactly when the request
/// starts with the request line for the root.
pub open spec fn page_for(request: Seq<u8>) -> Page {
    if root_request_line().is_prefix_of(request) {
        Page::Hello
    } else {
        Page::NotFound
    }
}

/// The decimal digits of `n`, most significant first, as ASCII bytes.
pub open spec fn decimal(n: nat) -> Seq<u8>
    decreases n,
{
    if n < 10 {
        seq![(48 + n) as u8]
    } else {
        decimal(n / 10).push((48 + n % 10) as u8)
    }
}

/// The bytes of a response: the status line, a header with the length of the
/// body in bytes, an empty line, and the body.
pub open spec fn response_bytes(status_line: Seq<u8>, body: Seq<u8>) -> Seq<u8> {
    status_line + "\r\nContent-Length: ".spec_bytes() + decimal(body.len()) + "\r\n\r\n".spec_bytes()
        + body
}

impl Page {
    /// The status line of the page, as a specification value.
    pub open spec fn spec_status_line(self) -> Seq<char> {
        match self {
            Page::Hello => "HTTP/1.1 200 OK"@,
            Page::NotFound => "HTTP/1.1 404 NOT FOUND"@,
        }
    }

    /// The name of the file that holds the page, as a specification value.
    pub open spec fn spec_file_name(self) -> Seq<char> {
        match self {
            Page::Hello => "hello.html"@,
            Page::NotFound => "404.html"@,
        }
    }

    /// The status line that goes with the page.
    pub fn status_line(&self) -> (line: &'static str)
        ensures
            line@ == self.spec_status_line(),
    {
        match self {
            Page::Hello => "HTTP/1.1 200 OK",
            Page::NotFound => "HTTP/1.1 404 NOT FOUND",
        }
    }

    /// The name of the file that holds the page.
    pub fn file_name(&self) -> (name: &'static str)
        ensures
            name@ == self.spec_file_name(),
    {
        match self {
            Page::Hello => "hello.html",
            Page::NotFound => "404.html",
        }
    }
}

/// Decides which page answers the bytes read from a connection.
pub fn classify(request: &[u8]) -> (page: Page)
    ensures
        page == page_for(request@),
{
    let line = "GET / HTTP/1.1\r\n".as_bytes();
    if request.len() < line.len() {
        return Page::NotFound;
    }
    let mut i: usize = 0;
    while i < line.len()
        invariant
            i <= line@.len() <= request@.len(),
            line@ == root_request_line(),
            forall|k: int| 0 <= k < i ==> request@[k] == line@[k],
        decreases line@.len() - i,
    {
        if request[i] != line[i] {
            return Page::NotFound;
        }
        i = i + 1;
    }
    Page::Hello
}

/// Appends `bytes` to `out`.
fn append(out: &mut Vec<u8>, bytes: &[u8])
    ensures
        final(out)@ == old(out)@ + bytes@,
{
    let mut i: usize = 0;
    while i < bytes.len()
        invariant
            i <= bytes@.len(),
            out@ == old(out)@ + bytes@.subrange(0, i as int),
        decreases bytes@.len() - i,
    {
        out.push(bytes[i]);
        i = i + 1;
    }
}

/// Appends the decimal digits of `n` to `out`.
fn append_decimal(out: &mut Vec<u8>, n: usize)
    ensures
        final(out)@ == old(out)@ + decimal(n as nat),
    decreases n,
{
    if n >= 10 {
        append_decimal(out, n / 10);
    }
    let digit: u8 = (n % 10) as u8;
    out.push(48 + digit);
}

/// Builds the response that carries `body` under `status_line`.
pub fn render_response(status_line: &str, body: &str) -> (response: Vec<u8>)
    ensures
        response@ == response_bytes(status_line.spec_bytes(), body.spec_bytes()),
{
    let body_bytes = body.as_bytes();
    let mut response: Vec<u8> = Vec::new();
    append(&mut response, status_line.as_bytes());
    append(&mut response, "\r\nContent-Length: ".as_bytes());
    append_decimal(&mut response, body_bytes.len());
    append(&mut response, "\r\n\r\n".as_bytes());
    append(&mut response, body_bytes);
    response
}

} // verus!
