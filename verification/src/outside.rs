//! Calls into other crates and into parts of the standard library that carry no
//! contract of their own. What is claimed of each of them stands beside it.
use vstd::prelude::*;
use vstd::string::*;
use vstd::utf8::*;

use crate::json::opt_string;
use crate::text::{ascii_lowered, pairs};

verus! {

/// The base64 digit of a number below 64.
pub open spec fn base64_digit(n: nat) -> char {
    if n < 26 {
        (('A' as u8 + n) as u8) as char
    } else if n < 52 {
        (('a' as u8 + (n - 26)) as u8) as char
    } else if n < 62 {
        (('0' as u8 + (n - 52)) as u8) as char
    } else if n == 62 {
        '+'
    } else {
        '/'
    }
}

/// The standard base64 text of some bytes, filled up with `=`: each three bytes
/// give four digits, six bits a digit.
pub open spec fn base64_text(bytes: Seq<u8>) -> Seq<char>
    decreases bytes.len(),
{
    if bytes.len() == 0 {
        Seq::<char>::empty()
    } else {
        let b1: nat = if bytes.len() > 1 {
            bytes[1] as nat
        } else {
            0
        };
        let b2: nat = if bytes.len() > 2 {
            bytes[2] as nat
        } else {
            0
        };
        let n: nat = bytes[0] as nat * 65536 + b1 * 256 + b2;
        let third = if bytes.len() > 1 {
            base64_digit(n / 64 % 64)
        } else {
            '='
        };
        let fourth = if bytes.len() > 2 {
            base64_digit(n % 64)
        } else {
            '='
        };
        let group = seq![base64_digit(n / 262144), base64_digit(n / 4096 % 64), third, fourth];
        if bytes.len() > 3 {
            group + base64_text(bytes.skip(3))
        } else {
            group
        }
    }
}

/// The bytes are few enough for their base64 text to fit in memory.
pub open spec fn encodable(bytes: Seq<u8>) -> bool {
    bytes.len() <= usize::MAX / 8 * 3
}

/// `base64::Engine::encode` with the engine `STANDARD` gives the standard base64
/// text of the bytes, with padding. It panics where the size of that text
/// overflows, so the bytes have to be few enough.
#[verifier::external_body]
fn encode_standard(bytes: &[u8]) -> (r: String)
    requires
        encodable(bytes@),
    ensures
        r@ == base64_text(bytes@),
{
    base64::Engine::encode(&base64::engine::general_purpose::STANDARD, bytes)
}

/// The standard base64 text of a text's UTF-8 bytes; nothing where it would not
/// fit in memory.
pub fn base64_of(text: &str) -> (r: Option<String>)
    ensures
        r is Some == encodable(encode_utf8(text@)),
        match r {
            Some(t) => t@ == base64_text(encode_utf8(text@)),
            None => true,
        },
{
    let bytes = text.as_bytes();
    if bytes.len() <= usize::MAX / 8 * 3 {
        Some(encode_standard(bytes))
    } else {
        None
    }
}

/// What is read of a parsed URL.
#[derive(PartialEq, Eq, Debug)]
pub struct UrlParts {
    pub scheme: String,
    pub host: Option<String>,
    pub origin: String,
    pub query: Vec<(String, String)>,
}

/// The contents of `UrlParts`.
pub ghost struct UrlView {
    pub scheme: Seq<char>,
    pub host: Option<Seq<char>>,
    pub origin: Seq<char>,
    pub query: Seq<(Seq<char>, Seq<char>)>,
}

impl UrlParts {
    /// The contents of the parts.
    pub open spec fn view(self) -> UrlView {
        UrlView {
            scheme: self.scheme@,
            host: opt_string(self.host),
            origin: self.origin@,
            query: pairs(self.query@),
        }
    }
}

/// The contents of optional `UrlParts`.
pub open spec fn opt_url(u: Option<UrlParts>) -> Option<UrlView> {
    match u {
        Some(u) => Some(u.view()),
        None => None,
    }
}

/// What `url::Url::parse` reads from a text: nothing where the text is no
/// absolute URL.
pub uninterp spec fn url_of(text: Seq<char>) -> Option<UrlView>;

/// `url::Url::parse`, and of the URL it gives `scheme`, `host_str`, the
/// `ascii_serialization` of `origin`, and the decoded `query_pairs` in order. They
/// depend on the text alone.
#[verifier::external_body]
pub(crate) fn parse_url(text: &str) -> (r: Option<UrlParts>)
    ensures
        opt_url(r) == url_of(text@),
{
    match url::Url::parse(text) {
        Ok(u) => Some(UrlParts {
            scheme: u.scheme().to_string(),
            host: u.host_str().map(String::from),
            origin: u.origin().ascii_serialization(),
            query: u.query_pairs().into_owned().collect(),
        }),
        Err(_) => None,
    }
}

/// The RFC 3339 text of a moment in UTC, given in nanoseconds since the start of
/// 1970.
pub uninterp spec fn rfc3339_text(nanos: int) -> Seq<char>;

/// The moment lies in the years 0 to 9999, which RFC 3339 can write.
pub open spec fn rfc3339_writes(nanos: int) -> bool {
    -62_167_219_200_000_000_000 <= nanos < 253_402_300_800_000_000_000
}

/// `time::OffsetDateTime::from_unix_timestamp_nanos`, then `format` as `Rfc3339`.
/// The first fails outside the years -9999 to 9999, the second outside the years
/// 0 to 9999; otherwise the text depends on the moment alone.
#[verifier::external_body]
pub(crate) fn format_rfc3339(nanos: i128) -> (r: Option<String>)
    ensures
        r is Some == rfc3339_writes(nanos as int),
        r is Some ==> r.unwrap()@ == rfc3339_text(nanos as int),
{
    time::OffsetDateTime::from_unix_timestamp_nanos(nanos)
        .ok()
        .and_then(|t| t.format(&time::format_description::well_known::Rfc3339).ok())
}

/// `time::OffsetDateTime::now_utc`, then `format` as `Rfc3339`. Which moment it is depends
/// on the clock; where it can be written, the text is that of a moment in UTC.
#[verifier::external_body]
pub(crate) fn format_now() -> (r: Option<String>)
    ensures
        r matches Some(t) ==> exists|n: int|
            rfc3339_writes(n) && t@ == #[trigger] rfc3339_text(n),
{
    time::OffsetDateTime::now_utc().format(&time::format_description::well_known::Rfc3339).ok()
}

/// The lower-case hexadecimal digit of a number below 16.
pub open spec fn hex_digit(n: nat) -> char {
    if n < 10 {
        (('0' as u8 + n) as u8) as char
    } else {
        (('a' as u8 + (n - 10)) as u8) as char
    }
}

/// How a character is written inside a JSON string.
pub open spec fn json_escape(c: char) -> Seq<char> {
    if c == '"' || c == '\\' {
        seq!['\\', c]
    } else if c == '\u{8}' {
        seq!['\\', 'b']
    } else if c == '\u{c}' {
        seq!['\\', 'f']
    } else if c == '\n' {
        seq!['\\', 'n']
    } else if c == '\r' {
        seq!['\\', 'r']
    } else if c == '\t' {
        seq!['\\', 't']
    } else if c as u32 <= 31 {
        seq!['\\', 'u', '0', '0', hex_digit(c as nat / 16), hex_digit(c as nat % 16)]
    } else {
        seq![c]
    }
}

/// The characters of a text as they are written inside a JSON string.
pub open spec fn json_escaped(s: Seq<char>) -> Seq<char>
    decreases s.len(),
{
    if s.len() == 0 {
        Seq::<char>::empty()
    } else {
        json_escaped(s.drop_last()) + json_escape(s.last())
    }
}

/// The JSON string that stands for a text.
pub open spec fn json_literal(s: Seq<char>) -> Seq<char> {
    seq!['"'] + json_escaped(s) + seq!['"']
}

proof fn lemma_escape_chars(c: char, k: int)
    requires
        0 <= k < json_escape(c).len(),
    ensures
        json_escape(c)[k] as u32 > 31,
{
    assert(c as u32 <= 31 ==> hex_digit(c as nat / 16) as u32 > 31);
    assert(hex_digit(c as nat % 16) as u32 > 31);
}

proof fn lemma_escaped_chars(s: Seq<char>, i: int)
    requires
        0 <= i < json_escaped(s).len(),
    ensures
        json_escaped(s)[i] as u32 > 31,
    decreases s.len(),
{
    let before = json_escaped(s.drop_last());
    if i < before.len() {
        lemma_escaped_chars(s.drop_last(), i);
    } else {
        lemma_escape_chars(s.last(), i - before.len());
    }
}

/// A JSON string holds no control characters, so that it never breaks a line of the
/// script it stands in.
pub proof fn law_literal_has_no_control_characters(s: Seq<char>, i: int)
    requires
        0 <= i < json_literal(s).len(),
    ensures
        json_literal(s)[i] as u32 > 31,
{
    if 0 < i < json_escaped(s).len() + 1 {
        lemma_escaped_chars(s, i - 1);
    }
}

/// `serde_json::to_string` of a string slice gives the JSON string for it, with
/// quotes, backslashes and control characters escaped. It cannot fail there.
#[verifier::external_body]
pub(crate) fn json_string(s: &str) -> (r: Option<String>)
    ensures
        r is Some,
        r.unwrap()@ == json_literal(s@),
{
    serde_json::to_string(s).ok()
}

/// The lower-case form of a text.
pub uninterp spec fn lowercase(s: Seq<char>) -> Seq<char>;

/// `str::to_lowercase` lower-cases by the rules of Unicode. Of ASCII text it
/// changes the letters `A` to `Z` only.
#[verifier::external_body]
pub(crate) fn to_lowercase(s: &str) -> (r: String)
    ensures
        r@ == lowercase(s@),
        is_ascii_chars(s@) ==> r@ == ascii_lowered(s@),
{
    s.to_lowercase()
}

/// A moment by the system clock.
#[verifier::external_type_specification]
#[verifier::external_body]
pub struct ExSystemTime(std::time::SystemTime);

/// `SystemTime::now`. What the clock shows is open.
pub assume_specification [std::time::SystemTime::now]() -> (r: std::time::SystemTime);

/// `SystemTime::duration_since` back to `UNIX_EPOCH`, the `Duration` taken as its whole
/// seconds and the nanoseconds of the last second begun; nothing where the moment lies
/// before the epoch. A `Duration` holds fewer than a thousand million nanoseconds
/// beside its seconds. How a moment counts its time is not stated: the standard library
/// leaves that to the system.
#[verifier::external_body]
fn since_epoch(moment: std::time::SystemTime) -> (r: Option<(u64, u32)>)
    ensures
        r matches Some((_, nanos)) ==> nanos < 1_000_000_000,
{
    moment.duration_since(std::time::UNIX_EPOCH).ok().map(|d| (d.as_secs(), d.subsec_nanos()))
}

/// The whole milliseconds of an elapsed time in seconds and nanoseconds; none where
/// nothing has elapsed.
pub fn whole_millis(elapsed: Option<(u64, u32)>) -> (r: u128)
    ensures
        r == match elapsed {
            Some((seconds, nanos)) => seconds * 1000 + nanos as int / 1_000_000,
            None => 0,
        },
{
    match elapsed {
        Some((seconds, nanos)) => seconds as u128 * 1000 + (nanos / 1_000_000) as u128,
        None => 0,
    }
}

/// The milliseconds since the start of 1970 by the system clock, or 0 where the
/// clock stands before that. What the clock shows is open; the most that it can
/// show in seconds is `u64::MAX`.
pub fn unix_timestamp_millis() -> (r: u128)
    ensures
        r <= u64::MAX * 1000 + 999,
{
    whole_millis(since_epoch(std::time::SystemTime::now()))
}

} // verus!
