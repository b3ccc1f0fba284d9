//! Outside types that the library carries through its logic without looking
//! inside them, and the calls it makes into outside crates.

use vstd::prelude::*;
use sha2::Digest;

verus! {

/// `url::Url`, carried as the target of HTTP ping and web shell tasks.
#[verifier::external_type_specification]
#[verifier::external_body]
pub struct ExUrl(url::Url);

/// What `uuid::Uuid`'s `FromStr` makes of a text: the UUID's 128-bit value
/// when the text parses, else the text of the parse error.
pub uninterp spec fn uuid_text_parse(s: Seq<char>) -> Result<u128, Seq<char>>;

/// Parses a UUID with `uuid::Uuid::from_str` and keeps its 128-bit value
/// (`as_u128`), or the error's text when it does not parse. The contract
/// claims that both depend on the text alone.
#[verifier::external_body]
pub(crate) fn parse_uuid_text(s: &str) -> (res: Result<u128, String>)
    ensures
        match res {
            Ok(v) => uuid_text_parse(s@) == Ok::<u128, Seq<char>>(v),
            Err(m) => uuid_text_parse(s@) == Err::<u128, Seq<char>>(m@),
        },
{
    match s.parse::<uuid::Uuid>() {
        Ok(u) => Ok(u.as_u128()),
        Err(e) => Err(e.to_string()),
    }
}

/// What parsing a cron expression with `cron::Schedule`'s `FromStr` gives:
/// `None` when the expression parses, else the text of the parse error.
pub uninterp spec fn cron_parse_failure(expr: Seq<char>) -> Option<Seq<char>>;

/// Parses `expr` with `cron::Schedule::from_str` and keeps only whether it
/// parsed, and the error's text when it did not. The contract claims that
/// both depend on the expression alone.
#[verifier::external_body]
pub(crate) fn cron_schedule_failure(expr: &str) -> (res: Option<String>)
    ensures
        match res {
            None => cron_parse_failure(expr@) is None,
            Some(msg) => cron_parse_failure(expr@) == Some(msg@),
        },
{
    match expr.parse::<cron::Schedule>() {
        Ok(_) => None,
        Err(e) => Some(e.to_string()),
    }
}

/// The SHA-256 digest of a byte sequence.
pub uninterp spec fn sha256(data: Seq<u8>) -> Seq<u8>;

/// Hashes `data` with `sha2::Sha256` (new, update, finalize). The contract
/// claims that the digest depends on the data alone and has 32 bytes, the
/// output size of SHA-256.
#[verifier::external_body]
pub(crate) fn sha256_digest(data: &[u8]) -> (res: Vec<u8>)
    ensures
        res@ == sha256(data@),
        res@.len() == 32,
{
    let mut hasher = sha2::Sha256::new();
    hasher.update(data);
    hasher.finalize().to_vec()
}

/// The lower-case hexadecimal digit of a value below 16.
pub open spec fn hex_digit(d: u8) -> char {
    if d < 10 {
        ('0' as u8 + d) as char
    } else {
        ('a' as u8 + d - 10) as char
    }
}

/// Bytes written as lower-case hexadecimal, two digits per byte, the high
/// half first.
pub open spec fn hex_lower(data: Seq<u8>) -> Seq<char>
    decreases data.len(),
{
    if data.len() == 0 {
        Seq::empty()
    } else {
        hex_lower(data.drop_last()) + seq![hex_digit(data.last() / 16), hex_digit(data.last() % 16)]
    }
}

/// Encodes bytes with `hex::encode`, which writes each byte as two
/// lower-case hexadecimal digits, the high half first; the contract claims
/// exactly that.
#[verifier::external_body]
pub(crate) fn hex_encode(data: &[u8]) -> (res: String)
    ensures
        res@ == hex_lower(data@),
{
    hex::encode(data)
}

/// How `serde_json` writes one character inside a JSON string: `"` and `\`
/// behind a backslash, backspace, form feed, line feed, carriage return and
/// tab by their short escapes, the other control characters below 0x20 as
/// `\u00` and two lower-case hexadecimal digits, any other character as it
/// is.
pub open spec fn json_escape_char(c: char) -> Seq<char> {
    if c == '"' {
        seq!['\\', '"']
    } else if c == '\\' {
        seq!['\\', '\\']
    } else if c == '\u{8}' {
        seq!['\\', 'b']
    } else if c == '\u{c}' {
        seq!['\\', 'f']
    } else if c == '\n' {
        seq!['\\', 'n']
    } else if c == '\r' {
        seq!['\\', 'r']
    } else if c == '\t' {
        seq!['\\', 't']
    } else if (c as u32) < 0x20 {
        seq!['\\', 'u', '0', '0', hex_digit((c as u32 / 16) as u8), hex_digit((c as u32 % 16) as u8)]
    } else {
        seq![c]
    }
}

/// The characters of a text as `serde_json` writes them inside a string.
pub open spec fn json_escape(s: Seq<char>) -> Seq<char>
    decreases s.len(),
{
    if s.len() == 0 {
        Seq::empty()
    } else {
        json_escape(s.drop_last()) + json_escape_char(s.last())
    }
}

/// A text written as a JSON string: its escaped characters between quotes.
pub open spec fn json_quote(s: Seq<char>) -> Seq<char> {
    seq!['"'] + json_escape(s) + seq!['"']
}

/// Writes a text as a JSON string with `serde_json::to_string`, whose
/// string serializer escapes each character by a fixed table
/// (`format_escaped_str_contents`); the contract claims exactly that table.
/// Serializing a `str` never fails.
#[verifier::external_body]
pub(crate) fn json_string_literal(s: &str) -> (res: String)
    ensures
        res@ == json_quote(s@),
{
    match serde_json::to_string(s) {
        Ok(t) => t,
        Err(_) => String::new(),
    }
}

/// `serde_json::Value`, carried as the stored JSON of a job's kind.
#[verifier::external_type_specification]
#[verifier::external_body]
pub struct ExJsonValue(serde_json::Value);

/// Copies a JSON value with its derived `Clone`, which copies it field by
/// field; the contract claims that the copy equals the original.
#[verifier::external_body]
pub(crate) fn clone_json(v: &serde_json::Value) -> (res: serde_json::Value)
    ensures
        res == *v,
{
    v.clone()
}

} // verus!
