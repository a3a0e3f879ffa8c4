use typesense::scoped::{assemble_raw_key, canonical_params};
use typesense::{ClientKeys, ScopedKeyError};

const ROOT_KEY: &str = "S2AYPRIzX2AK4l5QfTu4AQ7fwbp32MXE";

fn inner_layer(token: &str) -> Vec<u8> {
    base64::decode(token).expect("token is base64")
}

#[test]
fn generate_scoped_search_key_reference_token() {
    let token =
        ClientKeys::generate_scoped_search_key(ROOT_KEY, "company_id:=124", 1636075201).unwrap();
    assert_eq!(
        token,
        "Nm4rMkVha3NqMVlrWU95UllDSklmV21aUmlseUEzMTUxcU1vcTRrU0VMaz1TMkFZeyJmaWx0ZXJfYnkiOiJjb21wYW55X2lkOj0xMjQiLCJleHBpcmVzX2F0IjoxNjM2MDc1MjAxfQ=="
    );
}

#[test]
fn generate_empty_filter_and_zero_expiry() {
    let token = ClientKeys::generate_scoped_search_key("abcd", "", 0).unwrap();
    assert_eq!(
        token,
        "UXBxb21EVGh2N0xBd3lIYmplbVo4ajFXeVhOR1pldzk1akx3RDlHQWVtdz1hYmNkeyJmaWx0ZXJfYnkiOiIiLCJleHBpcmVzX2F0IjowfQ=="
    );
}

#[test]
fn generate_escapes_the_filter() {
    let token = ClientKeys::generate_scoped_search_key("abcd", "a\"b\\c\n\u{1}", 5).unwrap();
    assert_eq!(
        token,
        "eVdZK2hhamI3bUJrNnk0NnNnZkwvYXI0L3VSeHB6R0w1OVJ1Q3lveVdsQT1hYmNkeyJmaWx0ZXJfYnkiOiJhXCJiXFxjXG5cdTAwMDEiLCJleHBpcmVzX2F0Ijo1fQ=="
    );
    let raw = inner_layer(&token);
    assert_eq!(&raw[48..], b"{\"filter_by\":\"a\\\"b\\\\c\\n\\u0001\",\"expires_at\":5}");
}

#[test]
fn generate_is_deterministic() {
    let a = ClientKeys::generate_scoped_search_key(ROOT_KEY, "company_id:=124", 1636075201);
    let b = ClientKeys::generate_scoped_search_key(ROOT_KEY, "company_id:=124", 1636075201);
    assert_eq!(a, b);
    assert!(a.is_ok());
}

#[test]
fn generate_is_sensitive_to_each_input() {
    let base = ClientKeys::generate_scoped_search_key(ROOT_KEY, "company_id:=124", 1636075201)
        .unwrap();
    let other_key = ClientKeys::generate_scoped_search_key(
        "S2AYPRIzX2AK4l5QfTu4AQ7fwbp32MXF",
        "company_id:=124",
        1636075201,
    )
    .unwrap();
    let other_prefix =
        ClientKeys::generate_scoped_search_key("X2AYPRIzX2AK4l5QfTu4AQ7fwbp32MXE", "company_id:=124", 1636075201)
            .unwrap();
    let other_filter = ClientKeys::generate_scoped_search_key(ROOT_KEY, "company_id:=125", 1636075201)
        .unwrap();
    let other_expiry = ClientKeys::generate_scoped_search_key(ROOT_KEY, "company_id:=124", 1636075202)
        .unwrap();
    assert_ne!(base, other_key);
    assert_ne!(base, other_prefix);
    assert_ne!(base, other_filter);
    assert_ne!(base, other_expiry);
}

#[test]
fn token_carries_the_key_prefix() {
    let token =
        ClientKeys::generate_scoped_search_key(ROOT_KEY, "company_id:=124", 1636075201).unwrap();
    let raw = inner_layer(&token);
    assert_eq!(&raw[44..48], b"S2AY");
    assert_eq!(token.len(), 140);
}

#[test]
fn short_root_keys_are_invalid() {
    assert_eq!(
        ClientKeys::generate_scoped_search_key("", "company_id:=124", 1),
        Err(ScopedKeyError::InvalidKey)
    );
    assert_eq!(
        ClientKeys::generate_scoped_search_key("abc", "company_id:=124", 1),
        Err(ScopedKeyError::InvalidKey)
    );
    assert!(ClientKeys::generate_scoped_search_key("abcd", "company_id:=124", 1).is_ok());
}

#[test]
fn key_prefix_is_taken_in_bytes() {
    // "é" is two bytes: the prefix ends on a character boundary here.
    let token = ClientKeys::generate_scoped_search_key("ééé", "x", 1).unwrap();
    let raw = inner_layer(&token);
    assert_eq!(&raw[44..48], &"ééé".as_bytes()[0..4]);
}

#[test]
fn key_prefix_may_end_inside_a_character() {
    // Bytes 3 and 4 of "aééé" are the two halves of its second "é".
    let token = ClientKeys::generate_scoped_search_key("aééé", "x", 1).unwrap();
    let raw = inner_layer(&token);
    assert_eq!(&raw[44..48], &"aééé".as_bytes()[0..4]);
    assert_eq!(token.len(), 4 * ((raw.len() + 2) / 3));
}

#[test]
fn canonical_parameters_round_trip() {
    let token =
        ClientKeys::generate_scoped_search_key(ROOT_KEY, "company_id:=124", 1636075201).unwrap();
    let raw = inner_layer(&token);
    let params: serde_json::Value = serde_json::from_slice(&raw[48..]).unwrap();
    assert_eq!(params.get("filter_by").and_then(|v| v.as_str()), Some("company_id:=124"));
    assert_eq!(params.get("expires_at").and_then(|v| v.as_u64()), Some(1636075201));
}

#[test]
fn canonical_params_layout() {
    assert_eq!(
        canonical_params(b"\"x\"", 42),
        b"{\"filter_by\":\"x\",\"expires_at\":42}".to_vec()
    );
    assert_eq!(
        canonical_params(b"\"\"", 0),
        b"{\"filter_by\":\"\",\"expires_at\":0}".to_vec()
    );
    assert_eq!(
        canonical_params(b"\"q\"", usize::MAX),
        format!("{{\"filter_by\":\"q\",\"expires_at\":{}}}", usize::MAX).into_bytes()
    );
}

#[test]
fn assemble_raw_key_layout() {
    assert_eq!(assemble_raw_key(b"DG", b"abcdef", b"{}"), b"DGabcd{}".to_vec());
    assert_eq!(assemble_raw_key(b"", b"wxyz", b""), b"wxyz".to_vec());
}
