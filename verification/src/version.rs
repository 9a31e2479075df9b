use vstd::prelude::*;

use crate::error::{Error, ErrorV};
use crate::text::{dec_digits, find_char, is_digit, lemma_dec_digits_val, lemma_find_char_at,
    lemma_find_char_none, parse_u8, parse_uint, strip_plus};

verus! {

/// An HTTP protocol version: a major and a minor number, each small
/// enough for an 8-bit range.
#[derive(Debug, Clone, Copy, PartialEq, Eq, Structural)]
pub struct Version {
    pub major: u8,
    pub minor: u8,
}

/// How a version is written on the wire after the protocol prefix:
/// `<major>.<minor>` in decimal.
pub open spec fn version_display(v: Version) -> Seq<char> {
    dec_digits(v.major as nat) + seq!['.'] + dec_digits(v.minor as nat)
}

/// The version a request-line token denotes. The first five characters
/// are the protocol prefix and are skipped by fixed offset; the rest
/// must be two unsigned numbers split on the first dot.
pub open spec fn version_from_token(s: Seq<char>) -> Option<Version> {
    if s.len() < 5 {
        None
    } else {
        let rest = s.skip(5);
        let dot = find_char(rest, '.');
        if dot < 0 {
            None
        } else {
            match (parse_uint(rest.take(dot), 255), parse_uint(rest.skip(dot + 1), 255)) {
                (Some(major), Some(minor)) => Some(
                    Version { major: major as u8, minor: minor as u8 },
                ),
                _ => None,
            }
        }
    }
}

impl Version {
    pub fn new(major: u8, minor: u8) -> (r: Self)
        ensures
            r == (Version { major, minor }),
    {
        Version { major, minor }
    }

    pub fn major(self) -> (r: u8)
        ensures
            r == self.major,
    {
        self.major
    }

    pub fn minor(self) -> (r: u8)
        ensures
            r == self.minor,
    {
        self.minor
    }

    /// Parses a version token: five prefix characters, then
    /// `<major>.<minor>`. Anything else is an invalid version.
    pub fn parse(token: &str) -> (r: Result<Version, Error>)
        ensures
            match r {
                Ok(v) => version_from_token(token@) == Some(v),
                Err(e) => version_from_token(token@) is None && e@ == ErrorV::InvalidHttpVersion,
            },
    {
        let n = token.unicode_len();
        if n < 5 {
            return Err(Error::InvalidHttpVersion);
        }
        let rest = token.substring_char(5, n);
        let rest_n = rest.unicode_len();
        match crate::text::find_char_from(rest, 0, '.') {
            None => {
                proof {
                    lemma_find_char_none(rest@, '.');
                }
                Err(Error::InvalidHttpVersion)
            },
            Some(dot) => {
                proof {
                    lemma_find_char_at(rest@, '.', dot as int);
                }
                let major_part = rest.substring_char(0, dot);
                let minor_part = rest.substring_char(dot + 1, rest_n);
                proof {
                    assert(major_part@ =~= rest@.take(dot as int));
                    assert(minor_part@ =~= rest@.skip(dot as int + 1));
                }
                let major = match parse_u8(major_part) {
                    Some(v) => v,
                    None => {
                        return Err(Error::InvalidHttpVersion);
                    },
                };
                let minor = match parse_u8(minor_part) {
                    Some(v) => v,
                    None => {
                        return Err(Error::InvalidHttpVersion);
                    },
                };
                Ok(Version { major, minor })
            },
        }
    }

    /// Renders the version as `<major>.<minor>`.
    pub fn to_token(&self) -> (r: String)
        ensures
            r@ == version_display(*self),
    {
        let mut buf = crate::text::u64_to_dec(self.major as u64);
        buf.append(".");
        let minor = crate::text::u64_to_dec(self.minor as u64);
        buf.append(minor.as_str());
        proof {
            reveal_strlit(".");
            assert("."@ =~= seq!['.']);
            assert(buf@ =~= version_display(*self));
        }
        buf
    }
}

/// Round trip: a token made of the protocol prefix and the canonical
/// decimal rendering of any major and minor number parses back to that
/// version, whose serialization is that `<major>.<minor>` rendering again.
pub proof fn lemma_version_round_trip(major: u8, minor: u8)
    ensures
        version_from_token("HTTP/"@ + version_display(Version { major, minor })) == Some(
            Version { major, minor },
        ),
        version_display(Version { major, minor }) == dec_digits(major as nat) + seq!['.']
            + dec_digits(minor as nat),
{
    reveal_strlit("HTTP/");
    let dm = dec_digits(major as nat);
    let dn = dec_digits(minor as nat);
    let token = "HTTP/"@ + version_display(Version { major, minor });
    let rest = token.skip(5);
    lemma_dec_digits_val(major as nat);
    lemma_dec_digits_val(minor as nat);
    assert(rest =~= dm + seq!['.'] + dn);
    let dot = dm.len() as int;
    assert(rest[dot] == '.');
    assert forall|j: int| 0 <= j < dot implies rest[j] != '.' by {
        assert(rest[j] == dm[j]);
        assert(is_digit(dm[j]));
    }
    lemma_find_char_at(rest, '.', dot);
    assert(rest.take(dot) =~= dm);
    assert(rest.skip(dot + 1) =~= dn);
    assert(is_digit(dm[0]) && dm[0] != '+');
    assert(is_digit(dn[0]) && dn[0] != '+');
    assert(strip_plus(dm) == dm);
    assert(strip_plus(dn) == dn);
    assert(parse_uint(dm, 255) == Some(major as nat));
    assert(parse_uint(dn, 255) == Some(minor as nat));
}

} // verus!
