use vstd::prelude::*;

use crate::config::ServerConfig;
use crate::error::{Error, ErrorV};
use crate::headers::{sorted_insert, HeaderSeq, Headers};
use crate::method::{method_from_token, Method};
use crate::text::{find_char, find_char_from, lemma_find_char_at, lemma_find_char_none};
use crate::version::{version_from_token, Version};

verus! {

/// Index just past the first newline, or the end when there is none.
pub open spec fn line_end(s: Seq<char>) -> int {
    let nl = find_char(s, '\n');
    if 0 <= nl < s.len() {
        nl + 1
    } else {
        s.len() as int
    }
}

/// A header line arrives without its newline and without a carriage
/// return that stood right before it.
pub open spec fn strip_line_terminator(raw: Seq<char>) -> Seq<char> {
    if raw.len() > 0 && raw.last() == '\n' {
        let t = raw.drop_last();
        if t.len() > 0 && t.last() == '\r' {
            t.drop_last()
        } else {
            t
        }
    } else {
        raw
    }
}

/// Index of the first `": "` separator in a header line, or -1.
pub open spec fn find_colon_space(s: Seq<char>) -> int
    decreases s.len(),
{
    if s.len() < 2 {
        -1
    } else if s[0] == ':' && s[1] == ' ' {
        0
    } else {
        let r = find_colon_space(s.drop_first());
        if r < 0 {
            -1
        } else {
            r + 1
        }
    }
}

proof fn lemma_find_colon_space_at(s: Seq<char>, i: int)
    requires
        0 <= i < s.len() - 1,
        s[i] == ':' && s[i + 1] == ' ',
        forall|j: int| 0 <= j < i ==> !((#[trigger] s[j]) == ':' && s[j + 1] == ' '),
    ensures
        find_colon_space(s) == i,
    decreases s.len(),
{
    if i > 0 {
        let t = s.drop_first();
        assert forall|j: int| 0 <= j < i - 1 implies !((#[trigger] t[j]) == ':' && t[j + 1]
            == ' ') by {
            assert(t[j] == s[j + 1] && t[j + 1] == s[j + 2]);
        }
        assert(t[i - 1] == s[i] && t[i] == s[i + 1]);
        lemma_find_colon_space_at(t, i - 1);
    }
}

proof fn lemma_find_colon_space_none(s: Seq<char>)
    requires
        forall|j: int| 0 <= j < s.len() - 1 ==> !((#[trigger] s[j]) == ':' && s[j + 1] == ' '),
    ensures
        find_colon_space(s) == -1,
    decreases s.len(),
{
    if s.len() >= 2 {
        let t = s.drop_first();
        assert forall|j: int| 0 <= j < t.len() - 1 implies !((#[trigger] t[j]) == ':' && t[j + 1]
            == ' ') by {
            assert(t[j] == s[j + 1] && t[j + 1] == s[j + 2]);
        }
        lemma_find_colon_space_none(t);
    }
}

/// Splits a header line on its first `": "` into name and value.
pub open spec fn header_line_parse(line: Seq<char>) -> Option<(Seq<char>, Seq<char>)> {
    let p = find_colon_space(line);
    if p < 0 {
        None
    } else {
        Some((line.take(p), line.skip(p + 2)))
    }
}

/// What the request line denotes: it must close with the two-character
/// terminator and split on single spaces into exactly a method token, a
/// resource token and a version token. One leading slash is stripped
/// from the resource; an empty resource becomes the default index.
pub open spec fn init_parse(line: Seq<char>, index: Seq<char>) -> Result<
    (Method, Seq<char>, Version),
    ErrorV,
> {
    if !(line.len() >= 2 && line[line.len() - 1] == '\n' && line[line.len() - 2] == '\r') {
        Err(ErrorV::Syntax("Missing \\r\\n in init header"@))
    } else {
        let body = line.take(line.len() - 2);
        let sp1 = find_char(body, ' ');
        if sp1 < 0 {
            Err(ErrorV::Syntax("Missing resource"@))
        } else {
            let after1 = body.skip(sp1 + 1);
            let sp2 = find_char(after1, ' ');
            if sp2 < 0 {
                Err(ErrorV::Syntax("Missing HTTP version"@))
            } else {
                let after2 = after1.skip(sp2 + 1);
                if find_char(after2, ' ') >= 0 {
                    Err(ErrorV::Syntax("Extra data left in init header"@))
                } else {
                    let method_tok = body.take(sp1);
                    let resource_tok = after1.take(sp2);
                    let stripped = if resource_tok.len() > 0 && resource_tok[0] == '/' {
                        resource_tok.drop_first()
                    } else {
                        resource_tok
                    };
                    match method_from_token(method_tok) {
                        None => Err(ErrorV::UnknownMethod),
                        Some(m) => match version_from_token(after2) {
                            None => Err(ErrorV::InvalidHttpVersion),
                            Some(ver) => {
                                let resource = if stripped.len() == 0 {
                                    index
                                } else {
                                    stripped
                                };
                                Ok((m, resource, ver))
                            },
                        },
                    }
                }
            }
        }
    }
}

/// The header block: lines up to a blank line (or the end of input)
/// fill the mapping in order, a later duplicate name overwriting the
/// earlier value; whatever follows the blank line is the body verbatim.
pub open spec fn headers_parse(s: Seq<char>, acc: HeaderSeq) -> Result<
    (HeaderSeq, Seq<char>),
    ErrorV,
>
    decreases s.len(),
{
    if s.len() == 0 {
        Ok((acc, Seq::<char>::empty()))
    } else {
        let le = line_end(s);
        let line = strip_line_terminator(s.take(le));
        if line.len() == 0 {
            Ok((acc, s.skip(le)))
        } else {
            match header_line_parse(line) {
                None => Err(ErrorV::Syntax("Can't parse header"@)),
                Some(kv) => headers_parse(s.skip(le), sorted_insert(acc, kv.0, kv.1)),
            }
        }
    }
}

/// What a whole raw request buffer denotes.
pub open spec fn request_parse(s: Seq<char>, index: Seq<char>) -> Result<ReqV, ErrorV> {
    if s.len() == 0 {
        Err(ErrorV::EmptyStream)
    } else {
        let le = line_end(s);
        match init_parse(s.take(le), index) {
            Err(e) => Err(e),
            Ok(init) => match headers_parse(s.skip(le), Seq::<(Seq<char>, Seq<char>)>::empty()) {
                Err(e) => Err(e),
                Ok(hb) => Ok(
                    ReqV {
                        http_ver: init.2,
                        method: init.0,
                        headers: hb.0,
                        resource: init.1,
                        body: hb.1,
                    },
                ),
            },
        }
    }
}

/// Mathematical image of a parsed request.
pub struct ReqV {
    pub http_ver: Version,
    pub method: Method,
    pub headers: HeaderSeq,
    pub resource: Seq<char>,
    pub body: Seq<char>,
}

/// A structured request, created once per connection by the parser and
/// read-only thereafter.
#[derive(Debug, Clone)]
pub struct HttpRequest {
    pub http_ver: Version,
    pub method: Method,
    pub headers: Headers,
    pub resource: String,
    pub body: String,
}

impl View for HttpRequest {
    type V = ReqV;

    open spec fn view(&self) -> ReqV {
        ReqV {
            http_ver: self.http_ver,
            method: self.method,
            headers: self.headers@,
            resource: self.resource@,
            body: self.body@,
        }
    }
}

impl HttpRequest {
    pub open spec fn wf(&self) -> bool {
        self.headers.wf()
    }

    /// Parses a raw request buffer into its structured form, or reports
    /// exactly why it is malformed.
    #[verifier::rlimit(100)]
    pub fn parse(req: &str, config: &ServerConfig) -> (r: Result<HttpRequest, Error>)
        ensures
            match r {
                Ok(out) => request_parse(req@, config.index_file@) == Ok::<ReqV, ErrorV>(out@)
                    && out.wf(),
                Err(e) => request_parse(req@, config.index_file@) == Err::<ReqV, ErrorV>(e@),
            },
    {
        let n = req.unicode_len();
        if n == 0 {
            return Err(Error::EmptyStream);
        }
        let le = match find_char_from(req, 0, '\n') {
            Some(i) => {
                proof {
                    lemma_find_char_at(req@, '\n', i as int);
                }
                i + 1
            },
            None => {
                proof {
                    lemma_find_char_none(req@, '\n');
                }
                n
            },
        };
        assert(le as int == line_end(req@));
        let first_line = req.substring_char(0, le);
        proof {
            assert(first_line@ =~= req@.take(le as int));
        }
        let (method, resource, version) = match Self::parse_init(first_line, config) {
            Ok(init) => init,
            Err(e) => {
                return Err(e);
            },
        };
        let mut headers = Headers::new();
        let mut pos = le;
        proof {
            assert(req@.skip(le as int).len() == n - le);
        }
        loop
            invariant_except_break
                headers_parse(req@.skip(le as int), Seq::<(Seq<char>, Seq<char>)>::empty())
                    == headers_parse(req@.skip(pos as int), headers@),
            invariant
                le <= pos <= n,
                n == req@.len(),
                n > 0,
                le as int == line_end(req@),
                headers.wf(),
                init_parse(req@.take(le as int), config.index_file@) == Ok::<
                    (Method, Seq<char>, Version),
                    ErrorV,
                >((method, resource@, version)),
            ensures
                le <= pos <= n,
                n == req@.len(),
                le as int == line_end(req@),
                init_parse(req@.take(le as int), config.index_file@) == Ok::<
                    (Method, Seq<char>, Version),
                    ErrorV,
                >((method, resource@, version)),
                headers.wf(),
                headers_parse(req@.skip(le as int), Seq::<(Seq<char>, Seq<char>)>::empty())
                    == Ok::<(HeaderSeq, Seq<char>), ErrorV>((headers@, req@.skip(pos as int))),
            decreases n - pos,
        {
            let ghost s = req@.skip(pos as int);
            if pos == n {
                proof {
                    assert(s.len() == 0);
                    assert(s =~= Seq::<char>::empty());
                    assert(req@.skip(pos as int) =~= Seq::<char>::empty());
                }
                break ;
            }
            assert(s.len() > 0);
            let le2 = match find_char_from(req, pos, '\n') {
                Some(i) => {
                    proof {
                        assert forall|j: int| 0 <= j < i - pos implies s[j] != '\n' by {
                            assert(s[j] == req@[j + pos]);
                        }
                        assert(s[i - pos] == req@[i as int]);
                        lemma_find_char_at(s, '\n', i as int - pos);
                    }
                    i + 1
                },
                None => {
                    proof {
                        assert forall|j: int| 0 <= j < s.len() implies s[j] != '\n' by {
                            assert(s[j] == req@[j + pos]);
                        }
                        lemma_find_char_none(s, '\n');
                    }
                    n
                },
            };
            assert(le2 as int - pos == line_end(s));
            let ghost raw = s.take(le2 as int - pos);
            let mut line_e = le2;
            if le2 > pos && req.get_char(le2 - 1) == '\n' {
                line_e = le2 - 1;
                if line_e > pos && req.get_char(line_e - 1) == '\r' {
                    line_e = line_e - 1;
                }
            }
            proof {
                assert forall|j: int| 0 <= j < raw.len() implies raw[j] == req@[j + pos] by {}
                assert(req@.subrange(pos as int, line_e as int) =~= strip_line_terminator(raw));
            }
            if line_e == pos {
                proof {
                    assert(strip_line_terminator(raw).len() == 0);
                    assert(headers_parse(s, headers@) == Ok::<(HeaderSeq, Seq<char>), ErrorV>(
                        (headers@, s.skip(le2 as int - pos as int)),
                    ));
                    assert(s.skip(le2 as int - pos as int) =~= req@.skip(le2 as int));
                }
                pos = le2;
                break ;
            }
            let line = req.substring_char(pos, line_e);
            proof {
                assert(line@ =~= strip_line_terminator(raw));
            }
            let (name, value) = match Self::parse_header(line) {
                Ok(kv) => kv,
                Err(e) => {
                    return Err(e);
                },
            };
            let ghost kn = name@;
            let ghost kv_ = value@;
            let ghost before = headers@;
            headers.insert(name, value);
            proof {
                assert(header_line_parse(line@) == Some((kn, kv_)));
                assert(s.skip(le2 as int - pos) =~= req@.skip(le2 as int));
                assert(headers_parse(s, before) == headers_parse(
                    req@.skip(le2 as int),
                    headers@,
                ));
            }
            pos = le2;
        }
        let body = req.substring_char(pos, n);
        proof {
            assert(body@ =~= req@.skip(pos as int));
        }
        let out = HttpRequest {
            http_ver: version,
            method,
            headers,
            resource,
            body: body.to_owned(),
        };
        proof {
            assert(request_parse(req@, config.index_file@) == Ok::<ReqV, ErrorV>(out@));
        }
        Ok(out)
    }

    /// Splits one header line on its first `": "` into name and value;
    /// a line without that separator is malformed.
    pub fn parse_header(line: &str) -> (r: Result<(String, String), Error>)
        ensures
            match r {
                Ok(kv) => header_line_parse(line@) == Some((kv.0@, kv.1@)),
                Err(e) => header_line_parse(line@) is None && e@ == ErrorV::Syntax(
                    "Can't parse header"@,
                ),
            },
    {
        let line_n = line.unicode_len();
        let mut sep: usize = 0;
        let mut found = false;
        loop
            invariant
                0 <= sep,
                line_n == line@.len(),
                !found ==> sep <= line_n,
                !found ==> forall|j: int|
                    0 <= j < sep ==> !((#[trigger] line@[j]) == ':' && j + 1 < line@.len()
                        && line@[j + 1] == ' '),
                found ==> sep < line_n - 1 && line@[sep as int] == ':' && line@[sep as int + 1]
                    == ' ' && forall|j: int|
                    0 <= j < sep ==> !((#[trigger] line@[j]) == ':' && line@[j + 1] == ' '),
            ensures
                found ==> sep < line_n - 1 && find_colon_space(line@) == sep,
                !found ==> find_colon_space(line@) == -1,
            decreases line_n - sep + (if found {
                0int
            } else {
                1int
            }),
        {
            if line_n == 0 || sep >= line_n - 1 {
                proof {
                    assert forall|j: int| 0 <= j < line@.len() - 1 implies !((#[trigger] line@[j])
                        == ':' && line@[j + 1] == ' ') by {}
                    lemma_find_colon_space_none(line@);
                }
                break ;
            }
            if line.get_char(sep) == ':' && line.get_char(sep + 1) == ' ' {
                found = true;
                proof {
                    assert forall|j: int| 0 <= j < sep implies !((#[trigger] line@[j]) == ':'
                        && line@[j + 1] == ' ') by {}
                    lemma_find_colon_space_at(line@, sep as int);
                }
                break ;
            }
            sep = sep + 1;
        }
        if !found {
            return Err(Error::syntax("Can't parse header"));
        }
        let name = line.substring_char(0, sep);
        let value = line.substring_char(sep + 2, line_n);
        proof {
            assert(name@ =~= line@.take(sep as int));
            assert(value@ =~= line@.skip(sep as int + 2));
        }
        Ok((name.to_owned(), value.to_owned()))
    }

    /// Parses the request line. Public so that a caller can hold the
    /// first line of a buffer against the same rules the parser applies.
    pub fn parse_init(line: &str, config: &ServerConfig) -> (r: Result<
        (Method, String, Version),
        Error,
    >)
        ensures
            match r {
                Ok(init) => init_parse(line@, config.index_file@) == Ok::<
                    (Method, Seq<char>, Version),
                    ErrorV,
                >((init.0, init.1@, init.2)),
                Err(e) => init_parse(line@, config.index_file@) == Err::<
                    (Method, Seq<char>, Version),
                    ErrorV,
                >(e@),
            },
    {
        let n = line.unicode_len();
        if n < 2 {
            return Err(Error::syntax("Missing \\r\\n in init header"));
        }
        if !(line.get_char(n - 2) == '\r' && line.get_char(n - 1) == '\n') {
            return Err(Error::syntax("Missing \\r\\n in init header"));
        }
        let body = line.substring_char(0, n - 2);
        let bn = n - 2;
        proof {
            assert(body@ =~= line@.take(n as int - 2));
        }
        let sp1 = match find_char_from(body, 0, ' ') {
            Some(i) => {
                proof {
                    lemma_find_char_at(body@, ' ', i as int);
                }
                i
            },
            None => {
                proof {
                    lemma_find_char_none(body@, ' ');
                }
                return Err(Error::syntax("Missing resource"));
            },
        };
        let after1 = body.substring_char(sp1 + 1, bn);
        let a1n = bn - (sp1 + 1);
        proof {
            assert(after1@ =~= body@.skip(sp1 as int + 1));
        }
        let sp2 = match find_char_from(after1, 0, ' ') {
            Some(i) => {
                proof {
                    lemma_find_char_at(after1@, ' ', i as int);
                }
                i
            },
            None => {
                proof {
                    lemma_find_char_none(after1@, ' ');
                }
                return Err(Error::syntax("Missing HTTP version"));
            },
        };
        let after2 = after1.substring_char(sp2 + 1, a1n);
        proof {
            assert(after2@ =~= after1@.skip(sp2 as int + 1));
        }
        match find_char_from(after2, 0, ' ') {
            Some(i) => {
                proof {
                    lemma_find_char_at(after2@, ' ', i as int);
                }
                return Err(Error::syntax("Extra data left in init header"));
            },
            None => {
                proof {
                    lemma_find_char_none(after2@, ' ');
                }
            },
        }
        let method_tok = body.substring_char(0, sp1);
        let resource_tok = after1.substring_char(0, sp2);
        proof {
            assert(method_tok@ =~= body@.take(sp1 as int));
            assert(resource_tok@ =~= after1@.take(sp2 as int));
        }
        let rt_n = resource_tok.unicode_len();
        let stripped = if rt_n > 0 && resource_tok.get_char(0) == '/' {
            let t = resource_tok.substring_char(1, rt_n);
            proof {
                assert(t@ =~= resource_tok@.drop_first());
            }
            t
        } else {
            resource_tok
        };
        let method = match Method::parse(method_tok) {
            Ok(m) => m,
            Err(e) => {
                return Err(e);
            },
        };
        let version = match Version::parse(after2) {
            Ok(v) => v,
            Err(e) => {
                return Err(e);
            },
        };
        let resource = if stripped.unicode_len() == 0 {
            config.index_file.clone()
        } else {
            stripped.to_owned()
        };
        Ok((method, resource, version))
    }
}

} // verus!
