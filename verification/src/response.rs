//! The response side of HTTP/1.x: status line, header block and body.

use crate::text::{decimal, decimal_of};
use vstd::prelude::*;

verus! {

/// The only content type that the server answers with.
pub const TEXT_HTML: &'static str = "text/html";

/// The body of every answer with status 404.
pub const NOT_FOUND_BODY: &'static str =
    "<html><head><title>404 Not Found</title></head><body>404 Not Found</body></html>";

/// The body of every answer with status 501.
pub const NOT_IMPLEMENTED_BODY: &'static str =
    "<html><head><title>501 Not Implemented</title></head><body>501 Not Implemented</body></html>";

/// The reason phrase that goes with a status code.
pub open spec fn reason(code: u16) -> Seq<char> {
    if code == 200 {
        "OK"@
    } else if code == 404 {
        "Not Found"@
    } else {
        "Not Implemented"@
    }
}

/// The head of a response: the status line, then the content type and the
/// content length, each line ended by CR LF. The blank line that ends the
/// header block on the wire is not part of it.
pub open spec fn header_spec(code: u16, mime: Seq<char>, length: nat) -> Seq<char> {
    "HTTP/1.1 "@ + decimal(code as nat) + " "@ + reason(code) + "\r\nContent-Type: "@ + mime
        + "\r\nContent-Length: "@ + decimal(length) + "\r\n"@
}

/// What a response is made of. The head is not among these parts: they
/// determine it.
pub struct ResponseView {
    pub code: u16,
    pub mime: Seq<char>,
    pub body: Seq<char>,
}

impl ResponseView {
    /// The head that goes with these parts. The content length that it
    /// announces is the number of characters of the body.
    pub open spec fn head(self) -> Seq<char> {
        header_spec(self.code, self.mime, self.body.len())
    }

    /// What goes over the wire for these parts: the head alone, or the head,
    /// a blank line and the body.
    pub open spec fn wire(self, head_only: bool) -> Seq<char> {
        if head_only {
            self.head()
        } else {
            self.head() + "\r\n"@ + self.body
        }
    }
}

/// The response to a request for what is not there.
pub open spec fn not_found() -> ResponseView {
    ResponseView { code: 404, mime: TEXT_HTML@, body: NOT_FOUND_BODY@ }
}

/// The response to a request whose method the server does not serve.
pub open spec fn not_implemented() -> ResponseView {
    ResponseView { code: 501, mime: TEXT_HTML@, body: NOT_IMPLEMENTED_BODY@ }
}

/// One outgoing reply. Its head is always the one that its status code, its
/// content type and its body give.
pub struct Response {
    code: u16,
    mime: String,
    head: String,
    body: String,
}

impl View for Response {
    type V = ResponseView;

    open spec fn view(&self) -> ResponseView {
        self.parts()
    }
}

impl Response {
    #[verifier::type_invariant]
    spec fn head_matches(&self) -> bool {
        self.head@ == header_spec(self.code, self.mime@, self.body@.len())
    }

    /// The status code, the content type and the body.
    pub closed spec fn parts(&self) -> ResponseView {
        ResponseView { code: self.code, mime: self.mime@, body: self.body@ }
    }

    /// A response with status `code` and content type `mime` for `content`.
    pub fn new(code: u16, mime: &str, content: String) -> (r: Response)
        ensures
            r@ == (ResponseView { code, mime: mime@, body: content@ }),
    {
        let head = Self::header(code, mime, content.as_str().unicode_len());
        Self::with_head_body(code, mime, head, content)
    }

    /// Puts the parts of a response and the head that they give together.
    fn with_head_body(code: u16, mime: &str, head: String, body: String) -> (r: Response)
        requires
            head@ == header_spec(code, mime@, body@.len()),
        ensures
            r@ == (ResponseView { code, mime: mime@, body: body@ }),
    {
        Response { code, mime: String::from_str(mime), head, body }
    }

    /// The answer to a request for what is not there.
    pub fn code404() -> (r: Response)
        ensures
            r@ == not_found(),
    {
        let body = String::from_str(NOT_FOUND_BODY);
        let head = Self::header(404, TEXT_HTML, NOT_FOUND_BODY.unicode_len());
        Self::with_head_body(404, TEXT_HTML, head, body)
    }

    /// The answer to a request whose method the server does not serve.
    pub fn code501() -> (r: Response)
        ensures
            r@ == not_implemented(),
    {
        let body = String::from_str(NOT_IMPLEMENTED_BODY);
        let head = Self::header(501, TEXT_HTML, NOT_IMPLEMENTED_BODY.unicode_len());
        Self::with_head_body(501, TEXT_HTML, head, body)
    }

    /// The head of a response with status `code` that announces content of
    /// type `mime` and of `length` characters.
    pub fn header(code: u16, mime: &str, length: usize) -> (head: String)
        ensures
            head@ == header_spec(code, mime@, length as nat),
    {
        let m = if code == 200 {
            "OK"
        } else if code == 404 {
            "Not Found"
        } else {
            "Not Implemented"
        };
        let mut head = String::from_str("HTTP/1.1 ");
        head.append(decimal_of(code as usize).as_str());
        head.append(" ");
        head.append(m);
        head.append("\r\nContent-Type: ");
        head.append(mime);
        head.append("\r\nContent-Length: ");
        head.append(decimal_of(length).as_str());
        head.append("\r\n");
        head
    }

    /// The status code.
    pub fn code(&self) -> (code: u16)
        ensures
            code == self@.code,
    {
        self.code
    }

    /// The content type.
    pub fn mime(&self) -> (mime: &str)
        ensures
            mime@ == self@.mime,
    {
        self.mime.as_str()
    }

    /// The status line and the header block.
    pub fn head(&self) -> (head: &str)
        ensures
            head@ == self@.head(),
    {
        proof {
            use_type_invariant(self);
        }
        self.head.as_str()
    }

    /// The content.
    pub fn body(&self) -> (body: &str)
        ensures
            body@ == self@.body,
    {
        self.body.as_str()
    }

    /// What is written to the connection for this response: the head, a blank
    /// line and the body.
    pub fn full_text(&self) -> (text: String)
        ensures
            text@ == self@.wire(false),
    {
        proof {
            use_type_invariant(self);
        }
        let mut text = self.head.clone();
        text.append("\r\n");
        text.append(self.body.as_str());
        text
    }

    /// What is written to the connection in answer to a HEAD request: the
    /// head, and nothing of the body.
    pub fn head_text(&self) -> (text: String)
        ensures
            text@ == self@.wire(true),
    {
        proof {
            use_type_invariant(self);
        }
        self.head.clone()
    }
}

/// A response with status 200 and content type `text/html`, written out: the
/// content length is the number of characters of the body, and the body
/// follows the blank line unchanged.
pub proof fn lemma_success_written_out(body: Seq<char>)
    ensures
        (ResponseView { code: 200, mime: TEXT_HTML@, body }).head()
            == "HTTP/1.1 200 OK\r\nContent-Type: text/html\r\nContent-Length: "@ + decimal(
            body.len(),
        ) + "\r\n"@,
        (ResponseView { code: 200, mime: TEXT_HTML@, body }).wire(false)
            == "HTTP/1.1 200 OK\r\nContent-Type: text/html\r\nContent-Length: "@ + decimal(
            body.len(),
        ) + "\r\n\r\n"@ + body,
{
    reveal_strlit("HTTP/1.1 ");
    reveal_strlit(" ");
    reveal_strlit("OK");
    reveal_strlit("\r\nContent-Type: ");
    reveal_strlit("text/html");
    reveal_strlit("\r\nContent-Length: ");
    reveal_strlit("\r\n");
    reveal_strlit("\r\n\r\n");
    reveal_strlit("HTTP/1.1 200 OK\r\nContent-Type: text/html\r\nContent-Length: ");
    reveal_with_fuel(decimal, 3);
    let r = ResponseView { code: 200, mime: TEXT_HTML@, body };
    assert(r.head() =~= "HTTP/1.1 200 OK\r\nContent-Type: text/html\r\nContent-Length: "@
        + decimal(body.len()) + "\r\n"@);
    assert(r.wire(false) =~= "HTTP/1.1 200 OK\r\nContent-Type: text/html\r\nContent-Length: "@
        + decimal(body.len()) + "\r\n\r\n"@ + body);
}

/// The 404 response, written out: its body has 80 characters, and its head
/// says so.
pub proof fn lemma_not_found_written_out()
    ensures
        not_found().body.len() == 80,
        not_found().head()
            == "HTTP/1.1 404 Not Found\r\nContent-Type: text/html\r\nContent-Length: 80\r\n"@,
        not_found().wire(false) == not_found().head() + "\r\n"@ + NOT_FOUND_BODY@,
{
    reveal_strlit("HTTP/1.1 ");
    reveal_strlit(" ");
    reveal_strlit("Not Found");
    reveal_strlit("\r\nContent-Type: ");
    reveal_strlit("text/html");
    reveal_strlit("\r\nContent-Length: ");
    reveal_strlit("\r\n");
    reveal_strlit(
        "<html><head><title>404 Not Found</title></head><body>404 Not Found</body></html>",
    );
    reveal_strlit("HTTP/1.1 404 Not Found\r\nContent-Type: text/html\r\nContent-Length: 80\r\n");
    reveal_with_fuel(decimal, 3);
    assert(not_found().head()
        =~= "HTTP/1.1 404 Not Found\r\nContent-Type: text/html\r\nContent-Length: 80\r\n"@);
}

/// The 501 response, written out: its body has 92 characters, and its head
/// says so.
pub proof fn lemma_not_implemented_written_out()
    ensures
        not_implemented().body.len() == 92,
        not_implemented().head()
            == "HTTP/1.1 501 Not Implemented\r\nContent-Type: text/html\r\nContent-Length: 92\r\n"@,
        not_implemented().wire(false) == not_implemented().head() + "\r\n"@
            + NOT_IMPLEMENTED_BODY@,
{
    reveal_strlit("HTTP/1.1 ");
    reveal_strlit(" ");
    reveal_strlit("Not Implemented");
    reveal_strlit("\r\nContent-Type: ");
    reveal_strlit("text/html");
    reveal_strlit("\r\nContent-Length: ");
    reveal_strlit("\r\n");
    reveal_strlit(
        "<html><head><title>501 Not Implemented</title></head><body>501 Not Implemented</body></html>",
    );
    reveal_strlit(
        "HTTP/1.1 501 Not Implemented\r\nContent-Type: text/html\r\nContent-Length: 92\r\n",
    );
    reveal_with_fuel(decimal, 3);
    assert(not_implemented().head()
        =~= "HTTP/1.1 501 Not Implemented\r\nContent-Type: text/html\r\nContent-Length: 92\r\n"@);
}

} // verus!
