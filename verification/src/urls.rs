//! URL parsing and percent-coding, done by the `url` and `urlencoding`
//! crates. The parsed URL is held here as plain values.
use vstd::prelude::*;
use vstd::utf8::{decode_utf8, encode_utf8, valid_utf8};

verus! {

/// The parts of a parsed URL that the library reads.
#[derive(Debug, Clone)]
pub struct ParsedUrl {
    /// The URL's serialization (`Url::as_str`).
    pub serialization: String,
    /// `Url::scheme`.
    pub scheme: String,
    /// `Url::host_str`.
    pub host: Option<String>,
    /// `Url::port` (absent when it is the scheme's default).
    pub port: Option<u16>,
    /// `Url::path`.
    pub path: String,
}

/// The mathematical value of a [`ParsedUrl`].
pub struct UrlView {
    pub serialization: Seq<char>,
    pub scheme: Seq<char>,
    pub host: Option<Seq<char>>,
    pub port: Option<u16>,
    pub path: Seq<char>,
}

pub open spec fn opt_view(o: Option<String>) -> Option<Seq<char>> {
    match o {
        Some(s) => Some(s@),
        None => None,
    }
}

impl View for ParsedUrl {
    type V = UrlView;

    open spec fn view(&self) -> UrlView {
        UrlView {
            serialization: self.serialization@,
            scheme: self.scheme@,
            host: opt_view(self.host),
            port: self.port,
            path: self.path@,
        }
    }
}

pub open spec fn opt_url_view(o: Option<ParsedUrl>) -> Option<UrlView> {
    match o {
        Some(u) => Some(u@),
        None => None,
    }
}

/// What `url::Url::parse` makes of a text: the URL, or the text of the
/// error where it refuses it.
pub uninterp spec fn url_parse(s: Seq<char>) -> Result<UrlView, Seq<char>>;

/// The URL that `url::Url::parse` makes of a text, if it accepts it.
pub open spec fn url_parsed(s: Seq<char>) -> Option<UrlView> {
    match url_parse(s) {
        Ok(u) => Some(u),
        Err(_) => None,
    }
}

pub open spec fn url_result(r: Result<ParsedUrl, String>) -> Result<UrlView, Seq<char>> {
    match r {
        Ok(u) => Ok(u@),
        Err(e) => Err(e@),
    }
}

/// The value of a hexadecimal digit byte (either case).
pub open spec fn hex_value(b: u8) -> Option<int> {
    if 0x30 <= b && b <= 0x39 {
        Some(b - 0x30)
    } else if 0x41 <= b && b <= 0x46 {
        Some(b - 0x41 + 10)
    } else if 0x61 <= b && b <= 0x66 {
        Some(b - 0x61 + 10)
    } else {
        None
    }
}

/// Bytes with each `%` followed by two hexadecimal digits replaced by the
/// byte they spell; every other byte, a lone `%` among them, is kept.
pub open spec fn decoded_bytes(b: Seq<u8>) -> Seq<u8>
    decreases b.len(),
{
    if b.len() == 0 {
        Seq::empty()
    } else if b[0] == 0x25 && b.len() >= 3 && hex_value(b[1]) is Some && hex_value(b[2]) is Some {
        seq![(hex_value(b[1])->0 * 16 + hex_value(b[2])->0) as u8] + decoded_bytes(b.subrange(3, b.len() as int))
    } else {
        seq![b[0]] + decoded_bytes(b.drop_first())
    }
}

/// What `urlencoding::decode` returns for a text: its UTF-8 bytes with the
/// `%XX` escapes decoded, read back as UTF-8 (`None` where they are not).
pub open spec fn percent_decoded(s: Seq<char>) -> Option<Seq<char>> {
    let d = decoded_bytes(encode_utf8(s));
    if valid_utf8(d) {
        Some(decode_utf8(d))
    } else {
        None
    }
}

/// The bytes that percent-encoding keeps as they are: ASCII letters and
/// digits, `-`, `.`, `_` and `~`.
pub open spec fn unreserved_byte(b: u8) -> bool {
    (0x30 <= b && b <= 0x39) || (0x41 <= b && b <= 0x5a) || (0x61 <= b && b <= 0x7a) || b == 0x2d
        || b == 0x2e || b == 0x5f || b == 0x7e
}

/// The upper-case hexadecimal digit of a value below 16.
pub open spec fn hex_digit_upper(d: int) -> char {
    if d < 10 {
        (0x30 + d) as char
    } else {
        (0x41 + d - 10) as char
    }
}

/// One byte, percent-encoded: itself where it is unreserved, else `%XX`.
pub open spec fn encoded_byte(b: u8) -> Seq<char> {
    if unreserved_byte(b) {
        seq![b as char]
    } else {
        seq!['%', hex_digit_upper(b as int / 16), hex_digit_upper(b as int % 16)]
    }
}

/// A byte string, percent-encoded byte by byte.
pub open spec fn encoded_bytes(bytes: Seq<u8>) -> Seq<char>
    decreases bytes.len(),
{
    if bytes.len() == 0 {
        Seq::empty()
    } else {
        encoded_byte(bytes[0]) + encoded_bytes(bytes.drop_first())
    }
}

/// The percent-encoding of a text: its UTF-8 bytes, each encoded.
pub open spec fn percent_encoded(s: Seq<char>) -> Seq<char> {
    encoded_bytes(encode_utf8(s))
}

/// Parses `s` with `url::Url::parse` and reads its serialization, scheme,
/// host, port and path, or the text (`Display`) of its error. The contract
/// names the result; nothing more of the URL grammar is claimed.
#[verifier::external_body]
pub(crate) fn parse_url(s: &str) -> (r: Result<ParsedUrl, String>)
    ensures
        url_result(r) == url_parse(s@),
{
    match ::url::Url::parse(s) {
        Ok(u) => Ok(ParsedUrl {
            serialization: u.as_str().to_string(),
            scheme: u.scheme().to_string(),
            host: u.host_str().map(str::to_string),
            port: u.port(),
            path: u.path().to_string(),
        }),
        Err(e) => Err(e.to_string()),
    }
}

/// The URL that `url::Url::parse` makes of `s`, if it accepts it.
pub fn parse_url_opt(s: &str) -> (r: Option<ParsedUrl>)
    ensures
        opt_url_view(r) == url_parsed(s@),
{
    match parse_url(s) {
        Ok(u) => Some(u),
        Err(_) => None,
    }
}

/// Decodes `%XX` escapes with `urlencoding::decode`: the text's UTF-8
/// bytes with each `%` and two hexadecimal digits (either case) replaced by
/// that byte, other bytes kept, and the result read as UTF-8; `None` where
/// it is not UTF-8.
#[verifier::external_body]
pub(crate) fn percent_decode(s: &str) -> (r: Option<String>)
    ensures
        opt_view(r) == percent_decoded(s@),
{
    match ::urlencoding::decode(s) {
        Ok(d) => Some(d.into_owned()),
        Err(_) => None,
    }
}

/// Percent-encodes with `urlencoding::encode`: the text's UTF-8 bytes, each
/// ASCII letter, digit, `-`, `.`, `_` and `~` kept and every other byte
/// written as `%` and two upper-case hexadecimal digits.
#[verifier::external_body]
pub(crate) fn percent_encode(s: &str) -> (r: String)
    ensures
        r@ == percent_encoded(s@),
{
    ::urlencoding::encode(s).into_owned()
}

} // verus!
