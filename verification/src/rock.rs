//! The server: how a request path becomes a file path, and what each
//! connection is answered with.

use crate::config::RockConfig;
use crate::request::{parse_spec, Request};
use crate::response::{
    lemma_not_found_written_out, lemma_success_written_out, not_found, not_implemented, Response,
    ResponseView, NOT_FOUND_BODY, TEXT_HTML,
};
use crate::text::{chars_of, decimal, string_of};
use vstd::prelude::*;

verus! {

/// The file that is served for a path of one character.
pub const INDEX: &'static str = "index.html";

/// The path that `std::path::Path::join` gives for `rel` under `root`, as
/// text: `None` where that path is not valid Unicode. The rule is the one of
/// the platform that the library is built for.
pub uninterp spec fn joined(root: Seq<char>, rel: Seq<char>) -> Option<Seq<char>>;

/// The view of a text that may be absent.
pub open spec fn text_view(t: Option<String>) -> Option<Seq<char>> {
    match t {
        Some(s) => Some(s@),
        None => None,
    }
}

/// `std::path::Path::join`: the path of `rel` under `root`, by the platform's
/// own rule. Both go in as text and the path comes back as text, or as `None`
/// where `Path::to_str` finds it not to be valid Unicode. Nothing is claimed
/// of the path but that the two texts determine it.
#[verifier::external_body]
fn join_path(root: &str, rel: &str) -> (path: Option<String>)
    ensures
        text_view(path) == joined(root@, rel@),
{
    match std::path::Path::new(root).join(rel).to_str() {
        Some(text) => Some(text.to_string()),
        None => None,
    }
}

/// The path, relative to the root directory, of the file that a request path
/// names: `index.html` for a path of one character, which for a path that
/// begins with `/` is the path `/`; else the path without its first
/// character.
pub open spec fn relative_path_spec(path: Seq<char>) -> Seq<char> {
    if path.len() == 1 {
        INDEX@
    } else if path.len() == 0 {
        path
    } else {
        path.skip(1)
    }
}

/// The file path that a request path resolves to under `root`.
pub open spec fn resolve_spec(root: Seq<char>, path: Seq<char>) -> Option<Seq<char>> {
    joined(root, relative_path_spec(path))
}

/// What the worker of a connection is to do next.
pub enum Action {
    /// Read the file at `path` and write what `Rock::reply` makes of it.
    Fetch { path: String, head_only: bool },
    /// Write `text`.
    Send { text: String },
}

/// An `Action` as plain text.
pub enum ActionView {
    Fetch { path: Seq<char>, head_only: bool },
    Send { text: Seq<char> },
}

impl View for Action {
    type V = ActionView;

    open spec fn view(&self) -> ActionView {
        match self {
            Action::Fetch { path, head_only } => ActionView::Fetch {
                path: path@,
                head_only: *head_only,
            },
            Action::Send { text } => ActionView::Send { text: text@ },
        }
    }
}

/// What follows when a request path has been resolved: the file is to be
/// read, or, where the path resolved to none, the 404 response is sent.
pub open spec fn fetch_spec(file: Option<Seq<char>>, head_only: bool) -> ActionView {
    match file {
        Some(path) => ActionView::Fetch { path, head_only },
        None => ActionView::Send { text: reply_spec(None, head_only) },
    }
}

/// What a request with this method and path is answered with. GET and HEAD
/// ask for the file that the path resolves to; HEAD gets heads only. Every
/// other method gets the 501 response in full, whatever the path.
pub open spec fn serve_spec(root: Seq<char>, method: Seq<char>, path: Seq<char>) -> ActionView {
    if method == "GET"@ {
        fetch_spec(resolve_spec(root, path), false)
    } else if method == "HEAD"@ {
        fetch_spec(resolve_spec(root, path), true)
    } else {
        ActionView::Send { text: not_implemented().wire(false) }
    }
}

/// The response to a request for a file: with status 200 and the file's
/// content where `content` holds it, the 404 response where the file could
/// not be opened.
pub open spec fn static_response_spec(content: Option<Seq<char>>) -> ResponseView {
    match content {
        Some(body) => ResponseView { code: 200, mime: TEXT_HTML@, body },
        None => not_found(),
    }
}

/// What is written in answer to a request for a file.
pub open spec fn reply_spec(content: Option<Seq<char>>, head_only: bool) -> Seq<char> {
    static_response_spec(content).wire(head_only)
}

/// What handling a connection comes to: the request that was read and the
/// action that answers it.
pub struct Handled {
    pub request: Request,
    pub action: Action,
}

/// A server of the files under one root directory.
pub struct Rock {
    pub host: String,
    pub port: u16,
    pub config: RockConfig,
}

impl Rock {
    /// A server with the settings of `c`.
    pub fn new(c: RockConfig) -> (r: Rock)
        ensures
            r.host@ == c.host@,
            r.port == c.port,
            r.config == c,
    {
        Rock { host: c.host.clone(), port: c.port, config: c }
    }

    /// The path, relative to the root directory, of the file that the request
    /// path `path` names.
    pub fn relative_path(path: &str) -> (rel: String)
        ensures
            rel@ == relative_path_spec(path@),
    {
        let chars = chars_of(path);
        if chars.len() == 1 {
            String::from_str(INDEX)
        } else if chars.len() == 0 {
            String::new()
        } else {
            string_of(vstd::slice::slice_subrange(chars.as_slice(), 1, chars.len()))
        }
    }

    /// The file path that the request path `path` resolves to under the root
    /// directory, or `None` where the joined path is no valid text. The path
    /// is joined as it stands: no `..` is taken out of it, and nothing keeps
    /// the result under the root directory.
    pub fn resolve(&self, path: &str) -> (file: Option<String>)
        ensures
            text_view(file) == resolve_spec(self.config.root@, path@),
    {
        let rel = Self::relative_path(path);
        join_path(self.config.root.as_str(), rel.as_str())
    }

    /// What follows when a request path has been resolved to `file`: that
    /// file is to be read, or, where there is none, the 404 response is sent.
    pub fn fetch(file: Option<String>, head_only: bool) -> (action: Action)
        ensures
            action@ == fetch_spec(text_view(file), head_only),
    {
        match file {
            Some(path) => Action::Fetch { path, head_only },
            None => Action::Send { text: Self::reply(None, head_only) },
        }
    }

    /// Decides by the method of `req` what it is answered with.
    pub fn serve(&self, req: &Request) -> (action: Action)
        ensures
            action@ == serve_spec(self.config.root@, req.method@, req.path@),
    {
        if req.method == String::from_str("GET") {
            Self::fetch(self.resolve(req.path.as_str()), false)
        } else if req.method == String::from_str("HEAD") {
            Self::fetch(self.resolve(req.path.as_str()), true)
        } else {
            Action::Send { text: Response::code501().full_text() }
        }
    }

    /// The response to a request for a file: `content` is what the file
    /// holds, or `None` where it could not be opened.
    pub fn static_response(content: Option<String>) -> (r: Response)
        ensures
            r@ == static_response_spec(text_view(content)),
    {
        match content {
            Some(body) => Response::new(200, TEXT_HTML, body),
            None => Response::code404(),
        }
    }

    /// What is written in answer to a request for a file, in full or, for a
    /// HEAD request, the head only.
    pub fn reply(content: Option<String>, head_only: bool) -> (text: String)
        ensures
            text@ == reply_spec(text_view(content), head_only),
    {
        let r = Self::static_response(content);
        if head_only {
            r.head_text()
        } else {
            r.full_text()
        }
    }

    /// Handles what was read from one connection. Bytes that hold no request
    /// get no answer: the connection is closed without a word. Bytes that
    /// hold one give it back together with the action that answers it.
    pub fn handle_client(&self, bytes: &[u8]) -> (r: Option<Handled>)
        ensures
            match parse_spec(bytes@) {
                Some(req) => r matches Some(h) && h.request@ == req && h.action@ == serve_spec(
                    self.config.root@,
                    req.method,
                    req.path,
                ),
                None => r is None,
            },
    {
        match Request::parse(bytes) {
            Some(request) => {
                let action = self.serve(&request);
                Some(Handled { request, action })
            },
            None => None,
        }
    }
}

/// The path `/` resolves to `index.html` under the root directory.
pub proof fn lemma_root_path_is_index(root: Seq<char>)
    ensures
        relative_path_spec(seq!['/']) == INDEX@,
        resolve_spec(root, seq!['/']) == joined(root, INDEX@),
{
}

/// A path that begins with `/` and goes on resolves to what follows that `/`
/// under the root directory.
pub proof fn lemma_longer_path_loses_its_slash(root: Seq<char>, rest: Seq<char>)
    requires
        rest.len() > 0,
    ensures
        relative_path_spec(seq!['/'] + rest) == rest,
        resolve_spec(root, seq!['/'] + rest) == joined(root, rest),
{
    assert((seq!['/'] + rest).skip(1) =~= rest);
}

/// A request for a file that is there is answered with status 200, the
/// content type `text/html`, the number of characters of the file as content
/// length, and the file's content as body.
pub proof fn lemma_reply_with_file(content: Seq<char>)
    ensures
        static_response_spec(Some(content)) == (ResponseView {
            code: 200,
            mime: TEXT_HTML@,
            body: content,
        }),
        reply_spec(Some(content), false)
            == "HTTP/1.1 200 OK\r\nContent-Type: text/html\r\nContent-Length: "@ + decimal(
            content.len(),
        ) + "\r\n\r\n"@ + content,
{
    lemma_success_written_out(content);
}

/// A request for a file that is not there is answered with status 404, the
/// fixed body, and that body's 80 characters as content length.
pub proof fn lemma_reply_without_file()
    ensures
        static_response_spec(None) == not_found(),
        reply_spec(None, false)
            == "HTTP/1.1 404 Not Found\r\nContent-Type: text/html\r\nContent-Length: 80\r\n"@
            + "\r\n"@ + NOT_FOUND_BODY@,
{
    lemma_not_found_written_out();
}

/// A request with a method other than GET and HEAD is answered with the 501
/// response, whatever its path and whatever the root directory.
pub proof fn lemma_other_method_is_not_implemented(
    root: Seq<char>,
    method: Seq<char>,
    path: Seq<char>,
)
    requires
        method != "GET"@,
        method != "HEAD"@,
    ensures
        serve_spec(root, method, path) == (ActionView::Send {
            text: not_implemented().wire(false),
        }),
{
}

/// DELETE is such a method: it is answered with the 501 response, whatever
/// its path.
pub proof fn lemma_delete_is_not_implemented(root: Seq<char>, path: Seq<char>)
    ensures
        serve_spec(root, "DELETE"@, path) == (ActionView::Send {
            text: not_implemented().wire(false),
        }),
{
    reveal_strlit("DELETE");
    reveal_strlit("GET");
    reveal_strlit("HEAD");
    assert("DELETE"@.len() == 6 && "GET"@.len() == 3 && "HEAD"@.len() == 4);
}

/// What is written in answer to HEAD is the head of what is written in answer
/// to GET: GET adds a blank line and the body, and HEAD no byte of the body.
pub proof fn lemma_head_is_head_of_get(content: Option<Seq<char>>)
    ensures
        reply_spec(content, true) == static_response_spec(content).head(),
        reply_spec(content, false) == reply_spec(content, true) + "\r\n"@ + static_response_spec(
            content,
        ).body,
{
}

/// GET and HEAD ask for the same file: a path resolves for both or for
/// neither, and to one file path.
pub proof fn lemma_head_fetches_what_get_fetches(root: Seq<char>, path: Seq<char>)
    ensures
        serve_spec(root, "GET"@, path) == fetch_spec(resolve_spec(root, path), false),
        serve_spec(root, "HEAD"@, path) == fetch_spec(resolve_spec(root, path), true),
{
    reveal_strlit("GET");
    reveal_strlit("HEAD");
    assert("GET"@.len() == 3 && "HEAD"@.len() == 4);
}

} // verus!
