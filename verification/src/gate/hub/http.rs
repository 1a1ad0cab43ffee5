//! The small web page a front line can serve: request parsing, choice of
//! file and content type, and the response head.

use vstd::prelude::*;
use vstd::utf8::*;
use super::line_header::{died, Line, LineStatus, LineView};
use crate::text::{
    contains_bytes, find_byte, index_of, lemma_index_of_bounds, push_decimal,
    lossy_text, seq_contains_sub, spec_decimal, utf8_lossy,
};

verus! {

/// Content types the page server knows.
#[derive(Debug, Clone, Copy, PartialEq, Eq, Structural)]
pub enum Mime {
    Html,
    Javascript,
    Css,
    Png,
    ProxyAutoConfig,
}

pub open spec fn mime_text(m: Mime) -> Seq<char> {
    match m {
        Mime::Html => "text/html"@,
        Mime::Javascript => "text/javascript"@,
        Mime::Css => "text/css"@,
        Mime::Png => "image/png"@,
        Mime::ProxyAutoConfig => "application/x-ns-proxy-autoconfig"@,
    }
}

impl Mime {
    /// The content type as it appears in the response head.
    pub fn as_str(&self) -> (r: &'static str)
        ensures
            r@ == mime_text(*self),
    {
        match self {
            Mime::Html => "text/html",
            Mime::Javascript => "text/javascript",
            Mime::Css => "text/css",
            Mime::Png => "image/png",
            Mime::ProxyAutoConfig => "application/x-ns-proxy-autoconfig",
        }
    }
}

/// Where the body of an answer comes from.
#[derive(Debug, PartialEq, Eq)]
pub enum ContentSource {
    /// The path is too long: the answer is 403 with an empty body.
    Forbidden,
    /// The file to read: 200 with its bytes, or 404 with an empty body
    /// where it cannot be read.
    File(String),
}

/// What a front line does with an HTTP request.
#[derive(Debug, PartialEq, Eq)]
pub enum HttpStep {
    /// The request had no path: the line has died, and `shutdown` tells
    /// whether its socket must be shut down.
    Close { shutdown: bool },
    /// Answer with this body source and content type.
    Serve { source: ContentSource, mime: Mime },
}

pub open spec fn ext_js() -> Seq<u8> {
    seq![46u8, 106u8, 115u8]
}

pub open spec fn ext_css() -> Seq<u8> {
    seq![46u8, 99u8, 115u8, 115u8]
}

pub open spec fn ext_png() -> Seq<u8> {
    seq![46u8, 112u8, 110u8, 103u8]
}

pub open spec fn ext_pac() -> Seq<u8> {
    seq![46u8, 112u8, 97u8, 99u8]
}

/// The content type chosen by the first extension found anywhere in the
/// path, in the order `.js`, `.css`, `.png` and, where `with_pac`, `.pac`.
pub open spec fn mime_for(path: Seq<u8>, with_pac: bool) -> Mime {
    if seq_contains_sub(path, ext_js()) {
        Mime::Javascript
    } else if seq_contains_sub(path, ext_css()) {
        Mime::Css
    } else if seq_contains_sub(path, ext_png()) {
        Mime::Png
    } else if with_pac && seq_contains_sub(path, ext_pac()) {
        Mime::ProxyAutoConfig
    } else {
        Mime::Html
    }
}

/// The page asked for: `/` means `index.html`.
pub open spec fn served_path(path: Seq<char>) -> Seq<char> {
    if encode_utf8(path) == seq![47u8] {
        "index.html"@
    } else {
        path
    }
}

/// Paths longer than this many bytes are refused.
pub open spec fn max_path_len() -> int {
    256
}

/// Whether a plan (`source`, `mime`) is the one for `path`.
pub open spec fn is_content_plan(
    path: Seq<char>,
    with_pac: bool,
    source: ContentSource,
    mime: Mime,
) -> bool {
    if encode_utf8(path).len() > max_path_len() {
        source is Forbidden && mime == Mime::Html
    } else {
        &&& source matches ContentSource::File(f) && f@ == "dist/"@ + served_path(path)
        &&& mime == mime_for(encode_utf8(served_path(path)), with_pac)
    }
}

/// The bytes of the request path: between the first space and the next
/// space (or the end).
pub open spec fn request_path_bytes(buf: Seq<u8>) -> Seq<u8> {
    let a = index_of(buf, 32u8, 0);
    buf.subrange(a + 1, index_of(buf, 32u8, a + 1))
}

/// A request has a path when it holds a space.
pub open spec fn has_request_path(buf: Seq<u8>) -> bool {
    index_of(buf, 32u8, 0) < buf.len()
}

/// The response head for a status code and content type.
pub open spec fn http_head(code: u16, mime: Mime) -> Seq<char> {
    "HTTP/1.1 "@ + spec_decimal(code as nat) + " OK\r\nContent-Type: "@ + mime_text(mime)
        + "; charset=utf-8\r\n\r\n"@
}

/// The response head for a path names the content type of its first
/// extension found: `text/javascript` for `.js`, else `text/css` for
/// `.css`, else `image/png` for `.png`, else (where `.pac` files are
/// served) `application/x-ns-proxy-autoconfig` for `.pac`, else
/// `text/html`.
pub proof fn lemma_head_content_type(path: Seq<u8>, with_pac: bool, code: u16)
    ensures
        http_head(code, mime_for(path, with_pac)) == "HTTP/1.1 "@ + spec_decimal(code as nat)
            + " OK\r\nContent-Type: "@ + (if seq_contains_sub(path, seq![46u8, 106u8, 115u8]) {
            "text/javascript"@
        } else if seq_contains_sub(path, seq![46u8, 99u8, 115u8, 115u8]) {
            "text/css"@
        } else if seq_contains_sub(path, seq![46u8, 112u8, 110u8, 103u8]) {
            "image/png"@
        } else if with_pac && seq_contains_sub(path, seq![46u8, 112u8, 97u8, 99u8]) {
            "application/x-ns-proxy-autoconfig"@
        } else {
            "text/html"@
        }) + "; charset=utf-8\r\n\r\n"@,
{
}

/// Chooses the body source and content type for a request path.
pub fn content_plan(path: &str, with_pac: bool) -> (r: (ContentSource, Mime))
    ensures
        is_content_plan(path@, with_pac, r.0, r.1),
{
    let bytes = path.as_bytes();
    if bytes.len() > 256 {
        return (ContentSource::Forbidden, Mime::Html);
    }
    let served: &str = if bytes.len() == 1 && bytes[0] == 47u8 {
        assert(bytes@ =~= seq![47u8]);
        "index.html"
    } else {
        assert(bytes@ != seq![47u8]) by {
            if bytes@ == seq![47u8] {
                assert(bytes@.len() == 1 && bytes@[0] == 47u8);
            }
        }
        path
    };
    let sb = served.as_bytes();
    let js: [u8; 3] = [46u8, 106u8, 115u8];
    let css: [u8; 4] = [46u8, 99u8, 115u8, 115u8];
    let png: [u8; 4] = [46u8, 112u8, 110u8, 103u8];
    let pac: [u8; 4] = [46u8, 112u8, 97u8, 99u8];
    assert(js@ =~= ext_js());
    assert(css@ =~= ext_css());
    assert(png@ =~= ext_png());
    assert(pac@ =~= ext_pac());
    let mime = if contains_bytes(sb, &js) {
        Mime::Javascript
    } else if contains_bytes(sb, &css) {
        Mime::Css
    } else if contains_bytes(sb, &png) {
        Mime::Png
    } else if with_pac && contains_bytes(sb, &pac) {
        Mime::ProxyAutoConfig
    } else {
        Mime::Html
    };
    let mut file = String::new();
    file.append("dist/");
    file.append(served);
    assert(file@ =~= "dist/"@ + served_path(path@));
    (ContentSource::File(file), mime)
}

/// The path of a request that has one, decoded as UTF-8 (invalid
/// sequences replaced); `None` when the request holds no space.
pub fn request_path(buf: &[u8]) -> (r: Option<String>)
    ensures
        r is Some <==> has_request_path(buf@),
        r matches Some(p) ==> p@ == lossy_text(request_path_bytes(buf@)),
        r matches Some(p) ==> (valid_utf8(request_path_bytes(buf@)) ==> p@ == decode_utf8(
            request_path_bytes(buf@),
        )),
{
    let a = find_byte(buf, 32u8, 0);
    proof {
        lemma_index_of_bounds(buf@, 32u8, 0);
    }
    if a >= buf.len() {
        return None;
    }
    let b = find_byte(buf, 32u8, a + 1);
    proof {
        lemma_index_of_bounds(buf@, 32u8, a + 1);
    }
    let mut path: Vec<u8> = Vec::new();
    let mut i: usize = a + 1;
    while i < b
        invariant
            a < buf@.len(),
            a + 1 <= i <= b <= buf@.len(),
            path@ == buf@.subrange(a + 1, i as int),
        decreases b - i,
    {
        path.push(buf[i]);
        i = i + 1;
    }
    Some(utf8_lossy(path.as_slice()))
}

/// Builds the response head.
pub fn response_head(code: u16, mime: Mime) -> (r: String)
    ensures
        r@ == http_head(code, mime),
{
    let mut head = String::new();
    head.append("HTTP/1.1 ");
    push_decimal(&mut head, code as u64);
    head.append(" OK\r\nContent-Type: ");
    head.append(mime.as_str());
    head.append("; charset=utf-8\r\n\r\n");
    assert(head@ =~= http_head(code, mime));
    head
}

/// The status code and body of an answer, given what reading the file
/// gave: 403 and nothing for a refused path, 200 and the file's bytes, or
/// 404 and nothing where the file could not be read.
pub fn http_reply(source: &ContentSource, body: Option<Vec<u8>>) -> (r: (u16, Vec<u8>))
    ensures
        source is Forbidden ==> r.0 == 403 && r.1@.len() == 0,
        source is File && body is Some ==> r.0 == 200 && r.1@ == body->0@,
        source is File && body is None ==> r.0 == 404 && r.1@.len() == 0,
{
    match source {
        ContentSource::Forbidden => (403, Vec::new()),
        ContentSource::File(_) => match body {
            Some(data) => (200, data),
            None => (404, Vec::new()),
        },
    }
}

impl Line {
    /// Reads an HTTP request: without a path the line dies; otherwise the
    /// answer's body source and content type are chosen from the path.
    pub fn http_data(&mut self, buf: Vec<u8>) -> (r: HttpStep)
        ensures
            !has_request_path(buf@) ==> (r matches HttpStep::Close { shutdown } && final(self)@
                == died(old(self)@) && shutdown == (old(self)@.status == LineStatus::Connected
                || old(self)@.status == LineStatus::Occupied)),
            has_request_path(buf@) ==> final(self)@ == old(self)@ && (
            r matches HttpStep::Serve { source, mime } && is_content_plan(
                lossy_text(request_path_bytes(buf@)),
                true,
                source,
                mime,
            )),
            has_request_path(buf@) && valid_utf8(request_path_bytes(buf@)) ==> (
            r matches HttpStep::Serve { source, mime } && is_content_plan(
                decode_utf8(request_path_bytes(buf@)),
                true,
                source,
                mime,
            )),
    {
        match request_path(buf.as_slice()) {
            None => {
                let shutdown = self.go_die();
                HttpStep::Close { shutdown }
            },
            Some(path) => {
                let (source, mime) = self.get_content(path.as_str());
                HttpStep::Serve { source, mime }
            },
        }
    }

    fn get_content(&self, path: &str) -> (r: (ContentSource, Mime))
        ensures
            is_content_plan(path@, true, r.0, r.1),
    {
        content_plan(path, true)
    }

    /// Queues the answer: the head for `code` and `mime`, then the body.
    pub fn respond(&mut self, code: u16, mime: Mime, content: Vec<u8>)
        ensures
            final(self)@ == (LineView {
                queue: old(self)@.queue + encode_utf8(http_head(code, mime)) + content@,
                ..old(self)@
            }),
    {
        let head = response_head(code, mime);
        let mut bytes: Vec<u8> = Vec::new();
        bytes.extend_from_slice(head.as_str().as_bytes());
        self.add_queue(bytes);
        self.add_queue(content);
        assert(final(self)@.queue =~= old(self)@.queue + encode_utf8(http_head(code, mime))
            + content@);
    }
}

} // verus!
