//! URLs: what the `url` crate reads from one, and percent-encoding of query
//! text through the `urlencoding` crate.

use vstd::prelude::*;
use vstd::utf8::encode_utf8;
use crate::text::opt_text;

verus! {

/// The parts of a parsed URL that the tab logic reads.
pub struct UrlParts {
    pub host: Option<String>,
    pub path: String,
}

impl View for UrlParts {
    type V = (Option<Seq<char>>, Seq<char>);

    open spec fn view(&self) -> (Option<Seq<char>>, Seq<char>) {
        (opt_text(self.host), self.path@)
    }
}

/// What `url::Url::parse` makes of a string: `None` where it refuses it, else
/// the host and the path of the parsed URL.
pub uninterp spec fn url_parts(s: Seq<char>) -> Option<(Option<Seq<char>>, Seq<char>)>;

/// Relies on `url::Url::parse` to accept or refuse `s`, and on `Url::host_str`
/// and `Url::path` of the parsed value; the result depends on `s` alone.
#[verifier::external_body]
pub(crate) fn parse_url(s: &str) -> (r: Option<UrlParts>)
    ensures
        match r {
            Some(p) => url_parts(s@) == Some(p@),
            None => url_parts(s@) is None,
        },
{
    match url::Url::parse(s) {
        Ok(u) => Some(UrlParts { host: u.host_str().map(String::from), path: u.path().to_string() }),
        Err(_) => None,
    }
}

/// ASCII letters, digits and `-`, `.`, `_`, `~`.
pub open spec fn unreserved(b: u8) -> bool {
    (48 <= b && b <= 57) || (65 <= b && b <= 90) || (97 <= b && b <= 122) || b == 45 || b == 46
        || b == 95 || b == 126
}

/// An upper-case hexadecimal digit.
pub open spec fn hex_digit(n: u8) -> char {
    if n < 10 {
        (48 + n) as u8 as char
    } else {
        (55 + n) as u8 as char
    }
}

pub open spec fn byte_code(b: u8) -> Seq<char> {
    if unreserved(b) {
        seq![b as char]
    } else {
        seq!['%', hex_digit(b / 16), hex_digit(b % 16)]
    }
}

/// Every byte but the unreserved ones written as `%` and two hex digits.
pub open spec fn percent_encode(bs: Seq<u8>) -> Seq<char>
    decreases bs.len(),
{
    if bs.len() == 0 {
        Seq::empty()
    } else {
        percent_encode(bs.drop_last()) + byte_code(bs.last())
    }
}

/// Relies on `urlencoding::encode`: each byte of the UTF-8 form of `s` but
/// alphanumerics and `-`, `_`, `.`, `~` becomes `%` and two upper-case hex digits.
#[verifier::external_body]
pub(crate) fn url_encode(s: &str) -> (r: String)
    ensures
        r@ == percent_encode(encode_utf8(s@)),
{
    urlencoding::encode(s).into_owned()
}

} // verus!
