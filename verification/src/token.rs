//! Token strings: splitting a full token into key and secret, a login into
//! username and password, and the salted hash under which secrets are kept.

use vstd::prelude::*;
use vstd::string::*;
use crate::permission::RpcError;
use crate::text::{decimal, push_decimal};
use crate::external::{sha256, sha256_digest, hex_lower, hex_encode, hex_digit};
use vstd::utf8::encode_utf8;

verus! {

/// Finds the first occurrence of `sep` in `s`.
fn find_char(s: &str, sep: char) -> (res: Option<usize>)
    ensures
        match res {
            Some(i) => i < s@.len() && s@[i as int] == sep && !s@.take(i as int).contains(sep),
            None => !s@.contains(sep),
        },
{
    let n = s.unicode_len();
    let mut i: usize = 0;
    while i < n
        invariant
            n == s@.len(),
            i <= n,
            forall|j: int| 0 <= j < i ==> s@[j] != sep,
        decreases n - i,
    {
        if s.get_char(i) == sep {
            assert forall|j: int| 0 <= j < i implies s@.take(i as int)[j] != sep by {}
            return Some(i);
        }
        i = i + 1;
    }
    None
}

/// Splits `s` at its first `sep`: the text before and the text after it.
fn split_at_first<'a>(s: &'a str, sep: char) -> (res: Option<(&'a str, &'a str)>)
    ensures
        match res {
            Some((a, b)) => s@ == a@ + seq![sep] + b@ && !a@.contains(sep),
            None => !s@.contains(sep),
        },
{
    match find_char(s, sep) {
        Some(i) => {
            let n = s.unicode_len();
            let before = s.substring_char(0, i);
            let after = s.substring_char(i + 1, n);
            assert(s@ =~= before@ + seq![sep] + after@);
            assert(before@ =~= s@.take(i as int));
            Some((before, after))
        },
        None => None,
    }
}

/// Splits a full token `key:secret` at its first `:`.
pub fn split_token(full_token: &str) -> (res: Result<(&str, &str), String>)
    ensures
        match res {
            Ok((key, secret)) => full_token@ == key@ + seq![':'] + secret@ && !key@.contains(':'),
            Err(msg) => !full_token@.contains(':') && msg@ == "Invalid token format: missing ':' separator"@,
        },
{
    match split_at_first(full_token, ':') {
        Some(parts) => Ok(parts),
        None => Err(String::from_str("Invalid token format: missing ':' separator")),
    }
}

/// Splits a login `username|password` at its first `|`, so a password may
/// hold `|` as long as the username does not.
pub fn split_username_password(full_auth: &str) -> (res: Result<(&str, &str), String>)
    ensures
        match res {
            Ok((username, password)) => full_auth@ == username@ + seq!['|'] + password@ && !username@.contains('|'),
            Err(msg) => !full_auth@.contains('|') && msg@ == "Invalid auth format: missing '|' separator"@,
        },
{
    match split_at_first(full_auth, '|') {
        Some(parts) => Ok(parts),
        None => Err(String::from_str("Invalid auth format: missing '|' separator")),
    }
}

/// Splitting a text at its first separator gives back the parts it was
/// joined from, as long as the first part holds no separator: the text
/// after the separator may hold more of them.
pub proof fn lemma_split_gives_back_parts(sep: char, head: Seq<char>, tail: Seq<char>, a: Seq<char>, b: Seq<char>)
    requires
        !head.contains(sep),
        !a.contains(sep),
        a + seq![sep] + b == head + seq![sep] + tail,
    ensures
        a == head,
        b == tail,
{
    let s = head + seq![sep] + tail;
    if a.len() < head.len() {
        assert(s[a.len() as int] == sep);
        assert(head[a.len() as int] == sep);
        assert(head.contains(sep));
    } else if a.len() > head.len() {
        assert(s[head.len() as int] == sep);
        assert(a[head.len() as int] == sep);
        assert(a.contains(sep));
    } else {
        assert(a =~= s.take(a.len() as int));
        assert(head =~= s.take(head.len() as int));
        assert(b =~= s.skip(a.len() as int + 1));
        assert(tail =~= s.skip(head.len() as int + 1));
    }
}

/// Which token a delete request removes.
pub struct TokenDeletion {
    /// The key of the token to remove.
    pub key: String,
    /// Whether a super token names the token; otherwise a token removes itself.
    pub by_super_token: bool,
}

/// Decides which token a delete request removes. A super token must name
/// the token to remove; any other token may only remove itself, and names
/// none.
pub fn plan_token_deletion(is_super_token: bool, target_token_key: Option<String>, own_key: &String) -> (res: Result<TokenDeletion, RpcError>)
    ensures
        is_super_token ==> match target_token_key {
            Some(k) => res matches Ok(d) && d.key@ == k@ && d.by_super_token,
            None => res matches Err((code, msg)) && code == 102
                && msg@ == "Target token key is required for SuperToken deletion"@,
        },
        !is_super_token ==> match target_token_key {
            Some(_) => res matches Err((code, msg)) && code == 102
                && msg@ == "Insufficient permission to delete other tokens"@,
            None => res matches Ok(d) && d.key@ == own_key@ && !d.by_super_token,
        },
{
    if is_super_token {
        match target_token_key {
            Some(k) => Ok(TokenDeletion { key: k, by_super_token: true }),
            None => Err((102, String::from_str("Target token key is required for SuperToken deletion"))),
        }
    } else {
        match target_token_key {
            Some(_) => Err((102, String::from_str("Insufficient permission to delete other tokens"))),
            None => Ok(TokenDeletion { key: own_key.clone(), by_super_token: false }),
        }
    }
}

/// The answer to a deletion that removed `rows` rows.
pub open spec fn deletion_json(key: Seq<char>, by_super_token: bool, rows: nat) -> Seq<char> {
    if by_super_token {
        if rows > 0 {
            "{\"success\":true,\"message\":\"Token "@ + key + " deleted successfully by SuperToken\",\"rows_affected\":"@
                + decimal(rows) + "}"@
        } else {
            "{\"success\":false,\"message\":\"Token "@ + key + " not found\"}"@
        }
    } else {
        if rows > 0 {
            "{\"success\":true,\"message\":\"Own token deleted successfully\",\"rows_affected\":"@ + decimal(rows)
                + "}"@
        } else {
            "{\"success\":false,\"message\":\"Own token not found\"}"@
        }
    }
}

/// The answer to a deletion reports success exactly when a row went; a
/// deletion of the caller's own token that removed rows reports success with
/// their number, and reports `Own token not found` only when none went.
pub proof fn lemma_deletion_reports_success_iff_removed(key: Seq<char>, by_super_token: bool, rows: nat)
    ensures
        deletion_json(key, by_super_token, rows).take(15) == "{\"success\":true"@ <==> rows > 0,
        !by_super_token && rows > 0 ==> deletion_json(key, false, rows)
            == "{\"success\":true,\"message\":\"Own token deleted successfully\",\"rows_affected\":"@ + decimal(rows)
            + "}"@,
        !by_super_token ==> (deletion_json(key, false, rows) == "{\"success\":false,\"message\":\"Own token not found\"}"@
            <==> rows == 0),
{
    reveal_strlit("{\"success\":true");
    reveal_strlit("{\"success\":true,\"message\":\"Token ");
    reveal_strlit("{\"success\":false,\"message\":\"Token ");
    reveal_strlit("{\"success\":true,\"message\":\"Own token deleted successfully\",\"rows_affected\":");
    reveal_strlit("{\"success\":false,\"message\":\"Own token not found\"}");
    let ok = "{\"success\":true"@;
    let d = deletion_json(key, by_super_token, rows);
    if rows > 0 {
        if by_super_token {
            let p = "{\"success\":true,\"message\":\"Token "@;
            assert(d.take(15) =~= p.take(15));
        } else {
            let p = "{\"success\":true,\"message\":\"Own token deleted successfully\",\"rows_affected\":"@;
            assert(d.take(15) =~= p.take(15));
            assert(d[11] == 't');
            assert(d != "{\"success\":false,\"message\":\"Own token not found\"}"@);
        }
        assert(d.take(15) =~= ok);
    } else {
        let p = if by_super_token {
            "{\"success\":false,\"message\":\"Token "@
        } else {
            "{\"success\":false,\"message\":\"Own token not found\"}"@
        };
        assert(d.take(15)[11] == p[11]);
        assert(d.take(15)[11] != ok[11]);
    }
}

/// The answer to a token deletion, given how many rows it removed.
pub fn token_deletion_response_json(deletion: &TokenDeletion, rows_affected: u64) -> (res: String)
    ensures
        res@ == deletion_json(deletion.key@, deletion.by_super_token, rows_affected as nat),
        res@.take(15) == "{\"success\":true"@ <==> rows_affected > 0,
{
    proof {
        lemma_deletion_reports_success_iff_removed(deletion.key@, deletion.by_super_token, rows_affected as nat);
    }
    if deletion.by_super_token {
        if rows_affected > 0 {
            let mut out = String::from_str("{\"success\":true,\"message\":\"Token ");
            out.append(deletion.key.as_str());
            out.append(" deleted successfully by SuperToken\",\"rows_affected\":");
            push_decimal(&mut out, rows_affected as u128);
            out.append("}");
            out
        } else {
            let mut out = String::from_str("{\"success\":false,\"message\":\"Token ");
            out.append(deletion.key.as_str());
            out.append(" not found\"}");
            out
        }
    } else {
        if rows_affected > 0 {
            let mut out = String::from_str("{\"success\":true,\"message\":\"Own token deleted successfully\",\"rows_affected\":");
            push_decimal(&mut out, rows_affected as u128);
            out.append("}");
            out
        } else {
            String::from_str("{\"success\":false,\"message\":\"Own token not found\"}")
        }
    }
}

/// The stored form of a secret: the lower-case hexadecimal SHA-256 digest
/// of its UTF-8 bytes after the prefix `NODEGET`.
pub open spec fn spec_hash_string(s: Seq<char>) -> Seq<char> {
    hex_lower(sha256(encode_utf8("NODEGET"@ + s)))
}

/// Hashes a secret as it is stored.
pub fn hash_string(need_hash: &str) -> (res: String)
    ensures
        res@ == spec_hash_string(need_hash@),
        res@.len() == 64,
        forall|i: int| 0 <= i < 64 ==> is_lower_hex_digit(#[trigger] res@[i]),
{
    let mut salted = String::from_str("NODEGET");
    salted.append(need_hash);
    let digest = sha256_digest(salted.as_str().as_bytes());
    proof {
        lemma_hex_lower_shape(digest@);
    }
    hex_encode(digest.as_slice())
}

/// The hexadecimal text of `n` bytes has `2 n` digits, each a lower-case
/// hexadecimal digit.
pub proof fn lemma_hex_lower_shape(data: Seq<u8>)
    ensures
        hex_lower(data).len() == 2 * data.len(),
        forall|i: int| 0 <= i < hex_lower(data).len() ==> is_lower_hex_digit(#[trigger] hex_lower(data)[i]),
    decreases data.len(),
{
    if data.len() > 0 {
        lemma_hex_lower_shape(data.drop_last());
        let rest = hex_lower(data.drop_last());
        let b = data.last();
        assert(b / 16 < 16 && b % 16 < 16);
        assert forall|i: int| 0 <= i < hex_lower(data).len() implies is_lower_hex_digit(#[trigger] hex_lower(data)[i]) by {
            if i < rest.len() {
                assert(hex_lower(data)[i] == rest[i]);
            } else if i == rest.len() {
                assert(hex_lower(data)[i] == hex_digit(b / 16));
            } else {
                assert(hex_lower(data)[i] == hex_digit(b % 16));
            }
        }
    }
}

/// Whether a character is a lower-case hexadecimal digit.
pub open spec fn is_lower_hex_digit(c: char) -> bool {
    ('0' <= c && c <= '9') || ('a' <= c && c <= 'f')
}


/// How a caller identifies itself: a full token, or a login.
#[derive(Debug, PartialEq, Eq)]
pub enum Credentials {
    /// `key:secret`.
    Token(String),
    /// `username|password`.
    Login(String, String),
}

/// Tells a login `username|password` from a token: a text holding `|` is a
/// login, split at its first `|`; any other text is a token.
pub fn classify_credentials(token: String) -> (res: Credentials)
    ensures
        match res {
            Credentials::Login(u, p) => token@ == u@ + seq!['|'] + p@ && !u@.contains('|'),
            Credentials::Token(t) => !token@.contains('|') && t@ == token@,
        },
{
    let login = match split_username_password(token.as_str()) {
        Ok((u, p)) => Some((u.to_owned(), p.to_owned())),
        Err(_) => None,
    };
    match login {
        Some((u, p)) => Credentials::Login(u, p),
        None => Credentials::Token(token),
    }
}

/// Which token a lookup names.
#[derive(Debug, PartialEq, Eq)]
pub enum TokenTarget {
    /// A full token or a login.
    Credentials(Credentials),
    /// A username or a token key; a super token may name a token this way.
    NameOrKey(String),
}

/// Tells what a token lookup names. Next to a super token, a text that is
/// neither `key:secret` nor `username|password` is a username or token
/// key; otherwise the text is read as credentials.
pub fn classify_token_target(token: String, has_supertoken: bool) -> (res: TokenTarget)
    ensures
        match res {
            TokenTarget::NameOrKey(n) => has_supertoken && !token@.contains(':') && !token@.contains('|') && n@
                == token@,
            TokenTarget::Credentials(Credentials::Login(u, p)) => token@ == u@ + seq!['|'] + p@ && !u@.contains(
                '|',
            ),
            TokenTarget::Credentials(Credentials::Token(t)) => !(has_supertoken && !token@.contains(':'))
                && !token@.contains('|') && t@ == token@,
        },
{
    if has_supertoken {
        let shorthand = match split_token(token.as_str()) {
            Ok((key, _)) => {
                assert(token@[key@.len() as int] == ':');
                false
            },
            Err(_) => match split_username_password(token.as_str()) {
                Ok((user, _)) => {
                    assert(token@[user@.len() as int] == '|');
                    false
                },
                Err(_) => true,
            },
        };
        if shorthand {
            return TokenTarget::NameOrKey(token);
        }
    }
    TokenTarget::Credentials(classify_credentials(token))
}

/// A caller's credentials, split into their parts.
#[derive(Debug, PartialEq, Eq)]
pub enum TokenOrAuth {
    /// A token `key:secret`.
    Token(String, String),
    /// A login `username|password`.
    Auth(String, String),
}

/// Whether a text can be read as credentials: it holds `|` or `:`.
pub open spec fn credentials_readable(full: Seq<char>) -> bool {
    full.contains('|') || full.contains(':')
}

/// Whether `toa` is what reading `full` as credentials gives: a text
/// holding `|` is a login split at its first `|`; any other text is a
/// token `key:secret` split at its first `:`.
pub open spec fn reads_as(full: Seq<char>, toa: TokenOrAuth) -> bool {
    match toa {
        TokenOrAuth::Auth(u, p) => full == u@ + seq!['|'] + p@ && !u@.contains('|'),
        TokenOrAuth::Token(k, s) => !full.contains('|') && full == k@ + seq![':'] + s@
            && !k@.contains(':'),
    }
}

/// Why credentials without `|` and `:` cannot be read.
pub open spec fn missing_separator_message() -> Seq<char> {
    "Invalid token format: missing ':' separator"@
}

impl TokenOrAuth {
    /// Reads credentials: a text holding `|` is a login split at its first
    /// `|`; any other text must be a token `key:secret`, split at its first
    /// `:`, or it is refused.
    pub fn from_full_token(full: &str) -> (res: Result<TokenOrAuth, String>)
        ensures
            res is Ok <==> credentials_readable(full@),
            match res {
                Ok(toa) => reads_as(full@, toa),
                Err(msg) => msg@ == missing_separator_message(),
            },
    {
        match split_username_password(full) {
            Ok((u, p)) => {
                assert(full@[u@.len() as int] == '|') by {
                    assert(full@ == u@ + seq!['|'] + p@);
                }
                Ok(TokenOrAuth::Auth(u.to_owned(), p.to_owned()))
            },
            Err(_) => match split_token(full) {
                Ok((k, s)) => {
                    assert(full@[k@.len() as int] == ':') by {
                        assert(full@ == k@ + seq![':'] + s@);
                    }
                    Ok(TokenOrAuth::Token(k.to_owned(), s.to_owned()))
                },
                Err(e) => Err(e),
            },
        }
    }
}

/// The answer to credentials that cannot be read: code 101 and the reason.
pub fn token_parse_error(reason: &str) -> (res: RpcError)
    ensures
        res.0 == 101,
        res.1@ == "Failed to parse token: "@ + reason@,
{
    let mut msg = String::from_str("Failed to parse token: ");
    msg.append(reason);
    (101, msg)
}

} // verus!
