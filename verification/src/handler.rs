use vstd::prelude::*;

use crate::config::ServerConfig;
use crate::error::IoErrorKind;
use crate::headers::Headers;
use crate::method::Method;
use crate::request::HttpRequest;
use crate::response::HttpResponse;
use crate::version::Version;

verus! {

/// The filesystem path a resource names: the relative resource joined
/// onto the document root, an absolute resource replacing the root
/// outright (as path pushing does).
pub open spec fn path_join(root: Seq<char>, rel: Seq<char>) -> Seq<char> {
    if rel.len() > 0 && rel[0] == '/' {
        rel
    } else if root.len() == 0 {
        rel
    } else if root.last() == '/' {
        root + rel
    } else {
        root + seq!['/'] + rel
    }
}

/// What the handler decides for a parsed request, before any
/// filesystem work happens.
pub enum Directive {
    /// The major version is not allowed: drop the connection without
    /// answering.
    Abort,
    /// Answer at once with this response and stop.
    Respond(HttpResponse),
    /// Serve the file at `path`; `canonicalize` says whether the path
    /// must be canonicalized first (the traversal protection default).
    Fetch { path: String, canonicalize: bool },
}

/// Whether a major version is on the configured allow-list.
pub fn version_allowed(config: &ServerConfig, version: Version) -> (r: bool)
    ensures
        r == config.allowed_http_vers@.contains(version.major),
{
    let n = config.allowed_http_vers.len();
    let mut i: usize = 0;
    while i < n
        invariant
            0 <= i <= n,
            n == config.allowed_http_vers@.len(),
            forall|j: int| 0 <= j < i ==> config.allowed_http_vers@[j] != version.major,
        decreases n - i,
    {
        if config.allowed_http_vers[i] == version.major {
            return true;
        }
        i = i + 1;
    }
    false
}

/// The decisions for one parsed request: a disallowed major
/// version aborts the connection, a verb other than retrieval is
/// answered with the not-implemented response, and a retrieval goes on
/// to fetch the joined path, canonicalized unless traversal is allowed.
pub fn plan_request(req: &HttpRequest, config: &ServerConfig) -> (r: Directive)
    ensures
        !config.allowed_http_vers@.contains(req.http_ver.major) ==> r is Abort,
        config.allowed_http_vers@.contains(req.http_ver.major) && req.method != Method::Get ==> (
        match r {
            Directive::Respond(resp) => {
                &&& resp.http_ver == (Version { major: 1, minor: 1 })
                &&& resp.status == crate::response_code::HttpStatus::NotImplemented
                &&& resp.headers@ == Seq::<(Seq<char>, Seq<char>)>::empty()
                &&& resp.body@ == Seq::<char>::empty()
                &&& resp.wf()
            },
            _ => false,
        }),
        config.allowed_http_vers@.contains(req.http_ver.major) && req.method == Method::Get ==> (
        match r {
            Directive::Fetch { path, canonicalize } => {
                &&& path@ == path_join(config.root@, req.resource@)
                &&& canonicalize == !config.path_traversal
            },
            _ => false,
        }),
{
    if !version_allowed(config, req.http_ver) {
        return Directive::Abort;
    }
    if !matches!(req.method, Method::Get) {
        return Directive::Respond(HttpResponse::not_implemented());
    }
    let path = join_path(&config.root, &req.resource);
    Directive::Fetch { path, canonicalize: !config.path_traversal }
}

/// Joins a relative resource onto the document root.
pub fn join_path(root: &str, rel: &str) -> (r: String)
    ensures
        r@ == path_join(root@, rel@),
{
    let rel_n = rel.unicode_len();
    if rel_n > 0 && rel.get_char(0) == '/' {
        return rel.to_owned();
    }
    let root_n = root.unicode_len();
    if root_n == 0 {
        return rel.to_owned();
    }
    let mut out = root.to_owned();
    if root.get_char(root_n - 1) != '/' {
        out.append("/");
        proof {
            reveal_strlit("/");
            assert("/"@ =~= seq!['/']);
        }
    }
    out.append(rel);
    proof {
        assert(out@ =~= path_join(root@, rel@));
    }
    out
}

/// Names what the MIME crate derives from a path: a value of the
/// path's extension alone, the same on every machine.
pub uninterp spec fn mime_of(path: Seq<char>) -> Seq<char>;

/// Relies on mime_guess::from_path and Mime::essence_str: the essence
/// of the first guess for the path's extension, or text/plain when the
/// extension is unknown. The result depends on the path alone.
#[verifier::external_body]
fn guess_mime(path: &str) -> (r: String)
    ensures
        r@ == mime_of(path@),
{
    let mime = mime_guess::from_path(path).first_or_text_plain();
    mime.essence_str().to_string()
}

/// The response for a fetch outcome: content is served as a successful
/// response typed by the resolved path's extension; a filesystem
/// failure (canonicalization or read) becomes the canonical empty
/// response for its error kind.
pub fn conclude_request(http_ver: Version, path: &str, outcome: Result<String, IoErrorKind>) -> (r:
    HttpResponse)
    ensures
        match outcome {
            Ok(content) => {
                &&& r.http_ver == http_ver
                &&& r.status == crate::response_code::HttpStatus::Okay
                &&& r.headers@ == crate::headers::sorted_insert(
                    crate::headers::sorted_insert(
                        Seq::<(Seq<char>, Seq<char>)>::empty(),
                        "Content-Type"@,
                        mime_of(path@),
                    ),
                    "Content-Length"@,
                    crate::text::dec_digits(crate::response::body_byte_len(content@)),
                )
                &&& r.body == content
                &&& r.wf()
            },
            Err(kind) => {
                &&& r.http_ver == (Version { major: 1, minor: 1 })
                &&& r.status == HttpResponse::status_for_io(kind)
                &&& r.headers@ == Seq::<(Seq<char>, Seq<char>)>::empty()
                &&& r.body@ == Seq::<char>::empty()
                &&& r.wf()
            },
        },
{
    match outcome {
        Ok(content) => {
            let mime = guess_mime(path);
            HttpResponse::new_with_content(http_ver, Headers::new(), mime.as_str(), content)
        },
        Err(kind) => HttpResponse::from_io(kind),
    }
}

} // verus!
