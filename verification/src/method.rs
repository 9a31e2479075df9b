use vstd::prelude::*;

use crate::error::{Error, ErrorV};
use crate::text::str_eq;

verus! {

/// The closed set of recognized HTTP verbs.
#[derive(Debug, Clone, Copy, PartialEq, Eq, Structural)]
pub enum Method {
    Get,
    Post,
    Put,
    Delete,
    Options,
}

/// The literal each verb is written as on the wire.
pub open spec fn method_token(m: Method) -> Seq<char> {
    match m {
        Method::Get => "GET"@,
        Method::Post => "POST"@,
        Method::Put => "PUT"@,
        Method::Delete => "DELETE"@,
        Method::Options => "OPTIONS"@,
    }
}

/// The verb a request-line token denotes: an exact, case-sensitive
/// match against the five literals, nothing else.
pub open spec fn method_from_token(s: Seq<char>) -> Option<Method> {
    if s == "GET"@ {
        Some(Method::Get)
    } else if s == "POST"@ {
        Some(Method::Post)
    } else if s == "PUT"@ {
        Some(Method::Put)
    } else if s == "DELETE"@ {
        Some(Method::Delete)
    } else if s == "OPTIONS"@ {
        Some(Method::Options)
    } else {
        None
    }
}

impl Method {
    /// Parses a request-line verb token.
    pub fn parse(token: &str) -> (r: Result<Method, Error>)
        ensures
            match r {
                Ok(m) => method_from_token(token@) == Some(m),
                Err(e) => method_from_token(token@) is None && e@ == ErrorV::UnknownMethod,
            },
    {
        if str_eq(token, "GET") {
            Ok(Method::Get)
        } else if str_eq(token, "POST") {
            Ok(Method::Post)
        } else if str_eq(token, "PUT") {
            Ok(Method::Put)
        } else if str_eq(token, "DELETE") {
            Ok(Method::Delete)
        } else if str_eq(token, "OPTIONS") {
            Ok(Method::Options)
        } else {
            Err(Error::UnknownMethod)
        }
    }

    /// The literal this verb is written as.
    pub fn as_token(&self) -> (r: &'static str)
        ensures
            r@ == method_token(*self),
    {
        match self {
            Method::Get => "GET",
            Method::Post => "POST",
            Method::Put => "PUT",
            Method::Delete => "DELETE",
            Method::Options => "OPTIONS",
        }
    }
}

/// Parsing a verb's own literal gives that verb back: the five literals
/// are pairwise distinct, so serialization round-trips.
pub proof fn lemma_method_round_trip(m: Method)
    ensures
        method_from_token(method_token(m)) == Some(m),
{
    reveal_strlit("GET");
    reveal_strlit("POST");
    reveal_strlit("PUT");
    reveal_strlit("DELETE");
    reveal_strlit("OPTIONS");
    match m {
        Method::Get => {
            assert(method_from_token("GET"@) == Some(Method::Get));
        },
        Method::Post => {
            assert("POST"@.len() != "GET"@.len());
            assert(method_from_token("POST"@) == Some(Method::Post));
        },
        Method::Put => {
            assert("PUT"@[0] != "GET"@[0]);
            assert("PUT"@.len() != "POST"@.len());
            assert(method_from_token("PUT"@) == Some(Method::Put));
        },
        Method::Delete => {
            assert("DELETE"@.len() != "GET"@.len());
            assert("DELETE"@.len() != "POST"@.len());
            assert("DELETE"@.len() != "PUT"@.len());
            assert(method_from_token("DELETE"@) == Some(Method::Delete));
        },
        Method::Options => {
            assert("OPTIONS"@.len() != "GET"@.len());
            assert("OPTIONS"@.len() != "POST"@.len());
            assert("OPTIONS"@.len() != "PUT"@.len());
            assert("OPTIONS"@.len() != "DELETE"@.len());
            assert(method_from_token("OPTIONS"@) == Some(Method::Options));
        },
    }
}

} // verus!
