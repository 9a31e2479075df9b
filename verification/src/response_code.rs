use vstd::prelude::*;

verus! {

/// The closed set of response status codes this server emits.
#[derive(Debug, Clone, Copy, PartialEq, Eq, Structural)]
pub enum HttpStatus {
    Okay,
    NotFound,
    NotImplemented,
    InternalServerError,
    Forbidden,
}

/// The numeric code of each status.
pub open spec fn status_code(s: HttpStatus) -> u16 {
    match s {
        HttpStatus::Okay => 200,
        HttpStatus::NotFound => 404,
        HttpStatus::NotImplemented => 501,
        HttpStatus::InternalServerError => 500,
        HttpStatus::Forbidden => 401,
    }
}

/// The reason phrase of each status.
pub open spec fn status_description(s: HttpStatus) -> Seq<char> {
    match s {
        HttpStatus::Okay => "OK"@,
        HttpStatus::NotFound => "Not Found"@,
        HttpStatus::NotImplemented => "Not Implemented"@,
        HttpStatus::InternalServerError => "Internal Server Error"@,
        HttpStatus::Forbidden => "Forbidden"@,
    }
}

impl HttpStatus {
    pub fn code(self) -> (r: u16)
        ensures
            r == status_code(self),
    {
        match self {
            HttpStatus::Okay => 200,
            HttpStatus::NotFound => 404,
            HttpStatus::NotImplemented => 501,
            HttpStatus::InternalServerError => 500,
            HttpStatus::Forbidden => 401,
        }
    }

    pub fn description(self) -> (r: &'static str)
        ensures
            r@ == status_description(self),
    {
        match self {
            HttpStatus::Okay => "OK",
            HttpStatus::NotFound => "Not Found",
            HttpStatus::NotImplemented => "Not Implemented",
            HttpStatus::InternalServerError => "Internal Server Error",
            HttpStatus::Forbidden => "Forbidden",
        }
    }
}

} // verus!
