use vstd::prelude::*;

use crate::error::IoErrorKind;
use crate::headers::{has_name, sorted_insert, HeaderSeq, Headers};
use crate::response_code::{status_code, status_description, HttpStatus};
use crate::text::{dec_digits, u64_to_dec};
use crate::version::{version_display, Version};

verus! {

/// How many bytes a body occupies on the wire: the length of its UTF-8
/// encoding, which is what `Content-Length` counts.
pub open spec fn body_byte_len(s: Seq<char>) -> nat {
    vstd::utf8::encode_utf8(s).len()
}

/// The header set actually emitted: `Content-Type` and `Content-Length`
/// are filled in with defaults when the caller did not set them.
pub open spec fn with_defaults(hs: HeaderSeq, body: Seq<char>) -> HeaderSeq {
    let h1 = if has_name(hs, "Content-Type"@) {
        hs
    } else {
        sorted_insert(hs, "Content-Type"@, "text/html; charset=UTF-8"@)
    };
    if has_name(h1, "Content-Length"@) {
        h1
    } else {
        sorted_insert(h1, "Content-Length"@, dec_digits(body_byte_len(body)))
    }
}

/// One header line on the wire.
pub open spec fn render_header(p: (Seq<char>, Seq<char>)) -> Seq<char> {
    p.0 + ": "@ + p.1 + "\r\n"@
}

/// All header lines, in the mapping's (sorted) iteration order.
pub open spec fn render_headers(hs: HeaderSeq) -> Seq<char>
    decreases hs.len(),
{
    if hs.len() == 0 {
        Seq::<char>::empty()
    } else {
        render_headers(hs.drop_last()) + render_header(hs.last())
    }
}

/// The full wire form of a response: status line, headers with defaults
/// filled in, a blank line, then the body verbatim.
pub open spec fn serialize_spec(
    ver: Version,
    status: HttpStatus,
    hs: HeaderSeq,
    body: Seq<char>,
) -> Seq<char> {
    "HTTP/"@ + version_display(ver) + " "@ + dec_digits(status_code(status) as nat) + " "@
        + status_description(status) + "\r\n"@ + render_headers(with_defaults(hs, body)) + "\r\n"@
        + body
}

/// A structured response, consumed once by serialization.
#[derive(Debug, Clone)]
pub struct HttpResponse {
    pub http_ver: Version,
    pub status: HttpStatus,
    pub headers: Headers,
    pub body: String,
}

impl HttpResponse {
    pub open spec fn wf(&self) -> bool {
        self.headers.wf()
    }

    pub fn new(http_ver: Version, status: HttpStatus, headers: Headers, body: String) -> (r: Self)
        ensures
            r.http_ver == http_ver,
            r.status == status,
            r.headers == headers,
            r.body == body,
    {
        HttpResponse { http_ver, status, headers, body }
    }

    /// The canonical empty-body response for a status, at the baseline
    /// protocol version.
    pub fn empty_status(status: HttpStatus) -> (r: Self)
        ensures
            r.http_ver == (Version { major: 1, minor: 1 }),
            r.status == status,
            r.headers@ == Seq::<(Seq<char>, Seq<char>)>::empty(),
            r.body@ == Seq::<char>::empty(),
            r.wf(),
    {
        Self::new(Version::new(1, 1), status, Headers::new(), String::new())
    }

    pub fn not_found() -> (r: Self)
        ensures
            r.http_ver == (Version { major: 1, minor: 1 }),
            r.status == HttpStatus::NotFound,
            r.headers@ == Seq::<(Seq<char>, Seq<char>)>::empty(),
            r.body@ == Seq::<char>::empty(),
            r.wf(),
    {
        Self::empty_status(HttpStatus::NotFound)
    }

    pub fn internal_error() -> (r: Self)
        ensures
            r.http_ver == (Version { major: 1, minor: 1 }),
            r.status == HttpStatus::InternalServerError,
            r.headers@ == Seq::<(Seq<char>, Seq<char>)>::empty(),
            r.body@ == Seq::<char>::empty(),
            r.wf(),
    {
        Self::empty_status(HttpStatus::InternalServerError)
    }

    pub fn not_implemented() -> (r: Self)
        ensures
            r.http_ver == (Version { major: 1, minor: 1 }),
            r.status == HttpStatus::NotImplemented,
            r.headers@ == Seq::<(Seq<char>, Seq<char>)>::empty(),
            r.body@ == Seq::<char>::empty(),
            r.wf(),
    {
        Self::empty_status(HttpStatus::NotImplemented)
    }

    pub fn forbidden() -> (r: Self)
        ensures
            r.http_ver == (Version { major: 1, minor: 1 }),
            r.status == HttpStatus::Forbidden,
            r.headers@ == Seq::<(Seq<char>, Seq<char>)>::empty(),
            r.body@ == Seq::<char>::empty(),
            r.wf(),
    {
        Self::empty_status(HttpStatus::Forbidden)
    }

    /// A successful response carrying content: the caller's MIME type and
    /// the body's byte length are written into the header mapping.
    pub fn new_with_content(http_ver: Version, headers: Headers, mime: &str, body: String) -> (r:
        Self)
        requires
            headers.wf(),
        ensures
            r.http_ver == http_ver,
            r.status == HttpStatus::Okay,
            r.headers@ == sorted_insert(
                sorted_insert(headers@, "Content-Type"@, mime@),
                "Content-Length"@,
                dec_digits(body_byte_len(body@)),
            ),
            r.body == body,
            r.wf(),
    {
        let mut headers = headers;
        headers.insert("Content-Type".to_owned(), mime.to_owned());
        let byte_count = body.as_str().as_bytes().len();
        assert(byte_count == body_byte_len(body@));
        let len_text = u64_to_dec(byte_count as u64);
        headers.insert("Content-Length".to_owned(), len_text);
        Self::new(http_ver, HttpStatus::Okay, headers, body)
    }

    /// The status an I/O failure turns into: missing and directory
    /// resources read as not found, permission failures as forbidden,
    /// anything else as an internal error.
    pub open spec fn status_for_io(kind: IoErrorKind) -> HttpStatus {
        match kind {
            IoErrorKind::NotFound => HttpStatus::NotFound,
            IoErrorKind::PermissionDenied => HttpStatus::Forbidden,
            IoErrorKind::IsADirectory => HttpStatus::NotFound,
            IoErrorKind::Other => HttpStatus::InternalServerError,
        }
    }

    /// The canonical empty response for a filesystem failure; this
    /// mapping itself never fails.
    pub fn from_io(kind: IoErrorKind) -> (r: Self)
        ensures
            r.http_ver == (Version { major: 1, minor: 1 }),
            r.status == Self::status_for_io(kind),
            r.headers@ == Seq::<(Seq<char>, Seq<char>)>::empty(),
            r.body@ == Seq::<char>::empty(),
            r.wf(),
    {
        match kind {
            IoErrorKind::NotFound => Self::not_found(),
            IoErrorKind::PermissionDenied => Self::forbidden(),
            IoErrorKind::IsADirectory => Self::not_found(),
            IoErrorKind::Other => Self::internal_error(),
        }
    }

    /// Fills the default `Content-Type` and `Content-Length` headers if
    /// they are absent; everything else is untouched.
    pub fn ensure_headers(&mut self)
        requires
            old(self).headers.wf(),
        ensures
            final(self).headers@ == with_defaults(old(self).headers@, old(self).body@),
            final(self).headers.wf(),
            final(self).http_ver == old(self).http_ver,
            final(self).status == old(self).status,
            final(self).body == old(self).body,
    {
        if !self.headers.contains_key("Content-Type") {
            self.headers.insert("Content-Type".to_owned(), "text/html; charset=UTF-8".to_owned());
        }
        if !self.headers.contains_key("Content-Length") {
            let byte_count = self.body.as_str().as_bytes().len();
            assert(byte_count == body_byte_len(self.body@));
            let len_text = u64_to_dec(byte_count as u64);
            self.headers.insert("Content-Length".to_owned(), len_text);
        }
    }

    /// Serializes the response to its wire form. This is the one place
    /// default headers are injected, and it cannot fail.
    pub fn finalize(self) -> (r: String)
        requires
            self.headers.wf(),
        ensures
            r@ == serialize_spec(self.http_ver, self.status, self.headers@, self.body@),
    {
        let mut this = self;
        this.ensure_headers();
        let ghost hs = this.headers@;
        let mut buf = "HTTP/".to_owned();
        let ver_token = this.http_ver.to_token();
        buf.append(ver_token.as_str());
        buf.append(" ");
        let code_text = u64_to_dec(this.status.code() as u64);
        buf.append(code_text.as_str());
        buf.append(" ");
        buf.append(this.status.description());
        buf.append("\r\n");
        let ghost status_line = buf@;
        let n = this.headers.len();
        let mut i: usize = 0;
        proof {
            assert(hs.take(0) =~= Seq::<(Seq<char>, Seq<char>)>::empty());
        }
        while i < n
            invariant
                0 <= i <= n,
                n == this.headers@.len(),
                hs == this.headers@,
                buf@ == status_line + render_headers(hs.take(i as int)),
            decreases n - i,
        {
            buf.append(this.headers.name_at(i).as_str());
            buf.append(": ");
            buf.append(this.headers.value_at(i).as_str());
            buf.append("\r\n");
            proof {
                reveal_strlit(": ");
                reveal_strlit("\r\n");
                assert(hs.take(i + 1).drop_last() =~= hs.take(i as int));
                assert(hs.take(i + 1).last() == hs[i as int]);
                assert(buf@ =~= status_line + render_headers(hs.take(i + 1)));
            }
            i = i + 1;
        }
        proof {
            assert(hs.take(n as int) =~= hs);
        }
        buf.append("\r\n");
        buf.append(this.body.as_str());
        proof {
            assert(buf@ =~= serialize_spec(self.http_ver, self.status, self.headers@, self.body@));
        }
        buf
    }
}

/// Serialization is a function of the response's contents alone: two
/// responses equal in all fields serialize to byte-identical output, so
/// repeating it without mutation repeats the bytes.
pub proof fn lemma_serialize_deterministic(a: HttpResponse, b: HttpResponse)
    requires
        a.http_ver == b.http_ver,
        a.status == b.status,
        a.headers@ == b.headers@,
        a.body@ == b.body@,
    ensures
        serialize_spec(a.http_ver, a.status, a.headers@, a.body@) == serialize_spec(
            b.http_ver,
            b.status,
            b.headers@,
            b.body@,
        ),
{
}

} // verus!
