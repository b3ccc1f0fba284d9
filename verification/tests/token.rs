use nodeget::token::{
    classify_credentials, classify_token_target, token_parse_error, Credentials, TokenOrAuth, TokenTarget,
    hash_string, plan_token_deletion, split_token, split_username_password, token_deletion_response_json,
};

#[test]
fn split_token_at_first_colon() {
    assert_eq!(split_token("key:secret"), Ok(("key", "secret")));
    assert_eq!(split_token("key:sec:ret"), Ok(("key", "sec:ret")));
    assert_eq!(split_token(":"), Ok(("", "")));
    assert_eq!(split_token("ключ:秘密"), Ok(("ключ", "秘密")));
}

#[test]
fn split_token_without_colon_fails() {
    assert_eq!(
        split_token("no-separator"),
        Err("Invalid token format: missing ':' separator".to_string())
    );
    assert!(split_token("").is_err());
}

#[test]
fn split_login_keeps_bars_in_password() {
    assert_eq!(split_username_password("alice|p|a|ss"), Ok(("alice", "p|a|ss")));
    assert_eq!(split_username_password("alice|"), Ok(("alice", "")));
    assert_eq!(
        split_username_password("alice"),
        Err("Invalid auth format: missing '|' separator".to_string())
    );
}

#[test]
fn split_gives_back_joined_parts() {
    for (user, pass) in [("bob", "x|y"), ("", "pw"), ("u", "")] {
        let joined = format!("{user}|{pass}");
        assert_eq!(split_username_password(&joined), Ok((user, pass)));
    }
    for (key, secret) in [("k", "s:t"), ("", "")] {
        let joined = format!("{key}:{secret}");
        assert_eq!(split_token(&joined), Ok((key, secret)));
    }
}

#[test]
fn hash_string_is_salted_sha256_hex() {
    assert_eq!(
        hash_string("secret"),
        "5e518a2b8c20e232fbd2ac5005da73a4c2a8c0666a7cdf01703b8bd427a07cb6"
    );
    assert_eq!(
        hash_string(""),
        "30576fada89e5f6cd7282e53edafb36e58a95886b208bb4db95754876e8709b3"
    );
    assert_eq!(
        hash_string("pässwörd"),
        "96237efad7679dbca7e50a906889c374f3e978e42d101b0c677684f6fa8b9d75"
    );
}

#[test]
fn hash_string_has_64_lower_hex_digits() {
    for s in ["a", "longer secret with spaces", "NODEGET"] {
        let h = hash_string(s);
        assert_eq!(h.len(), 64);
        assert!(h.chars().all(|c| c.is_ascii_digit() || ('a'..='f').contains(&c)));
    }
}

#[test]
fn super_token_must_name_the_target() {
    let own = "own-key".to_string();
    let d = plan_token_deletion(true, Some("other".to_string()), &own).ok().unwrap();
    assert_eq!(d.key, "other");
    assert!(d.by_super_token);
    let e = plan_token_deletion(true, None, &own).err().unwrap();
    assert_eq!(e, (102, "Target token key is required for SuperToken deletion".to_string()));
}

#[test]
fn plain_token_only_deletes_itself() {
    let own = "own-key".to_string();
    let d = plan_token_deletion(false, None, &own).ok().unwrap();
    assert_eq!(d.key, "own-key");
    assert!(!d.by_super_token);
    let e = plan_token_deletion(false, Some("other".to_string()), &own).err().unwrap();
    assert_eq!(e, (102, "Insufficient permission to delete other tokens".to_string()));
}

#[test]
fn deletion_answers() {
    let own = "k1".to_string();
    let by_super = plan_token_deletion(true, Some("abc".to_string()), &own).ok().unwrap();
    assert_eq!(
        token_deletion_response_json(&by_super, 1),
        "{\"success\":true,\"message\":\"Token abc deleted successfully by SuperToken\",\"rows_affected\":1}"
    );
    assert_eq!(
        token_deletion_response_json(&by_super, 0),
        "{\"success\":false,\"message\":\"Token abc not found\"}"
    );
    let by_self = plan_token_deletion(false, None, &own).ok().unwrap();
    assert_eq!(
        token_deletion_response_json(&by_self, 12),
        "{\"success\":true,\"message\":\"Own token deleted successfully\",\"rows_affected\":12}"
    );
    assert_eq!(
        token_deletion_response_json(&by_self, 0),
        "{\"success\":false,\"message\":\"Own token not found\"}"
    );
}

#[test]
fn credentials_are_login_when_they_hold_a_bar() {
    assert_eq!(
        classify_credentials("admin|pa|ss".to_string()),
        Credentials::Login("admin".to_string(), "pa|ss".to_string())
    );
    assert_eq!(
        classify_credentials("key:secret".to_string()),
        Credentials::Token("key:secret".to_string())
    );
    assert_eq!(classify_credentials("|".to_string()), Credentials::Login(String::new(), String::new()));
}

#[test]
fn super_token_lookup_accepts_name_or_key() {
    assert_eq!(
        classify_token_target("alice".to_string(), true),
        TokenTarget::NameOrKey("alice".to_string())
    );
    assert_eq!(
        classify_token_target("k:s".to_string(), true),
        TokenTarget::Credentials(Credentials::Token("k:s".to_string()))
    );
    assert_eq!(
        classify_token_target("u|p".to_string(), true),
        TokenTarget::Credentials(Credentials::Login("u".to_string(), "p".to_string()))
    );
    assert_eq!(
        classify_token_target("alice".to_string(), false),
        TokenTarget::Credentials(Credentials::Token("alice".to_string()))
    );
}

#[test]
fn full_token_reads_logins_and_tokens() {
    assert_eq!(
        TokenOrAuth::from_full_token("admin|pw:x"),
        Ok(TokenOrAuth::Auth("admin".to_string(), "pw:x".to_string()))
    );
    assert_eq!(
        TokenOrAuth::from_full_token("key:sec:ret"),
        Ok(TokenOrAuth::Token("key".to_string(), "sec:ret".to_string()))
    );
    assert_eq!(
        TokenOrAuth::from_full_token("garbage"),
        Err("Invalid token format: missing ':' separator".to_string())
    );
    assert_eq!(
        token_parse_error("Invalid token format: missing ':' separator"),
        (101, "Failed to parse token: Invalid token format: missing ':' separator".to_string())
    );
}
