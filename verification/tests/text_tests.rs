use bingo::codes::{code_from_bytes, generate_code, ALPHABET, CODE_LEN};
use bingo::decimal::{parse_decimal, to_decimal};
use bingo::kv::{meta_key, roster_key, state_key, ROOM_TTL_SECS, ROSTER_TTL_SECS};
use bingo::roster::{parse_team_id, RosterError, DEFAULT_TEAM_ID};
use bingo::state::parse_version;
use bingo::util::{bearer_token, constant_time_eq, generate_id, generate_token, hex_encode};

#[test]
fn constant_time_eq_compares_strings() {
    assert!(constant_time_eq("secret", "secret"));
    assert!(constant_time_eq("", ""));
    assert!(!constant_time_eq("secret", "secreT"));
    assert!(!constant_time_eq("secret", "secrets"));
    assert!(!constant_time_eq("é", "e"));
}

#[test]
fn bearer_token_strips_the_scheme() {
    assert_eq!(bearer_token("Bearer abc123"), "abc123");
    assert_eq!(bearer_token("Bearer "), "");
    assert_eq!(bearer_token("bearer abc"), "");
    assert_eq!(bearer_token("Basic abc"), "");
    assert_eq!(bearer_token(""), "");
    assert_eq!(bearer_token("Bearer  two"), " two");
}

#[test]
fn parse_decimal_follows_str_parse() {
    assert_eq!(parse_decimal("42", u64::MAX), Some(42));
    assert_eq!(parse_decimal("+42", u64::MAX), Some(42));
    assert_eq!(parse_decimal("007", u64::MAX), Some(7));
    assert_eq!(parse_decimal("", u64::MAX), None);
    assert_eq!(parse_decimal("+", u64::MAX), None);
    assert_eq!(parse_decimal("-1", u64::MAX), None);
    assert_eq!(parse_decimal("1a", u64::MAX), None);
    assert_eq!(parse_decimal(" 1", u64::MAX), None);
    assert_eq!(parse_decimal("18446744073709551615", u64::MAX), Some(u64::MAX));
    assert_eq!(parse_decimal("18446744073709551616", u64::MAX), None);
    assert_eq!(parse_decimal("4294967296", u32::MAX as u64), None);
    for s in ["0", "12", "+5", "x", "", "99999999999999999999"] {
        assert_eq!(parse_decimal(s, u64::MAX), s.parse::<u64>().ok());
    }
}

#[test]
fn parse_version_defaults_to_zero() {
    assert_eq!(parse_version("17"), 17);
    assert_eq!(parse_version("abc"), 0);
    assert_eq!(parse_version(""), 0);
}

#[test]
fn parse_team_id_defaults_and_rejects() {
    assert_eq!(parse_team_id(None), Ok(114));
    assert_eq!(DEFAULT_TEAM_ID, 114);
    assert_eq!(parse_team_id(Some("147")), Ok(147));
    assert_eq!(parse_team_id(Some("4294967295")), Ok(u32::MAX));
    assert_eq!(parse_team_id(Some("4294967296")), Err(RosterError::InvalidTeamId));
    assert_eq!(parse_team_id(Some("team")), Err(RosterError::InvalidTeamId));
}

#[test]
fn to_decimal_writes_numbers() {
    assert_eq!(to_decimal(0), "0");
    assert_eq!(to_decimal(7), "7");
    assert_eq!(to_decimal(114), "114");
    assert_eq!(to_decimal(u64::MAX), "18446744073709551615");
}

#[test]
fn decimal_round_trip() {
    for n in [0u64, 1, 9, 10, 99, 100, 12345, u32::MAX as u64, u64::MAX] {
        assert_eq!(parse_decimal(&to_decimal(n), u64::MAX), Some(n));
    }
}

#[test]
fn store_keys() {
    assert_eq!(meta_key("ABCDE"), "room:ABCDE:meta");
    assert_eq!(state_key("ABCDE"), "room:ABCDE:state");
    assert_eq!(roster_key(114), "roster:114");
    assert_eq!(roster_key(0), "roster:0");
    assert_eq!(ROOM_TTL_SECS, 14400);
    assert_eq!(ROSTER_TTL_SECS, 3600);
}

#[test]
fn hex_encode_matches_hex_crate() {
    let data: Vec<u8> = (0..=255u8).collect();
    assert_eq!(hex_encode(&data), hex::encode(&data));
    assert_eq!(hex_encode(&[0xde, 0xad, 0x01]), "dead01");
    assert_eq!(hex_encode(&[]), "");
}

#[test]
fn tokens_and_ids_are_lowercase_hex() {
    let t = generate_token().unwrap();
    assert_eq!(t.len(), 32);
    assert!(t.chars().all(|c| c.is_ascii_hexdigit() && !c.is_ascii_uppercase()));
    let id = generate_id().unwrap();
    assert_eq!(id.len(), 16);
    assert!(id.chars().all(|c| c.is_ascii_hexdigit() && !c.is_ascii_uppercase()));
    // The random source really fills the buffer: two tokens do not agree.
    assert_ne!(generate_token().unwrap(), generate_token().unwrap());
    assert_ne!(t, "0".repeat(32));
}

#[test]
fn code_from_bytes_uses_the_alphabet() {
    assert_eq!(code_from_bytes(&[0, 1, 30, 31, 255]), "AB9AH");
    assert_eq!(ALPHABET.len(), 31);
    assert_eq!(std::str::from_utf8(&ALPHABET).unwrap(), "ABCDEFGHJKMNPQRSTUVWXYZ23456789");
}

#[test]
fn generated_codes_use_the_alphabet() {
    let code = generate_code().unwrap();
    assert_eq!(code.len(), CODE_LEN);
    assert!(code.bytes().all(|b| ALPHABET.contains(&b)));
}

#[test]
fn roster_url_names_the_team() {
    assert_eq!(
        bingo::roster::roster_url(114),
        "https://statsapi.mlb.com/api/v1/teams/114/roster/active"
    );
}

#[test]
fn cors_headers_for_responses_and_preflight() {
    let plain = bingo::cors::cors_headers(false);
    assert_eq!(
        plain,
        vec![
            ("Access-Control-Allow-Origin".to_string(), "*".to_string()),
            ("Access-Control-Allow-Methods".to_string(), "GET,POST,OPTIONS".to_string()),
            ("Access-Control-Allow-Headers".to_string(), "Content-Type,Authorization".to_string()),
        ]
    );
    let pre = bingo::cors::cors_headers(true);
    assert_eq!(pre.len(), 4);
    assert_eq!(pre[3], ("Access-Control-Max-Age".to_string(), "86400".to_string()));
}
