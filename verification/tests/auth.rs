use stammw_blog::auth::{password_digest, UserToken};
use stammw_blog::claims::{claims_of_payload, claims_text, Payload};

const SECRET: &'static str = "secret";

#[test]
fn encoded_can_be_decoded() {
    let jwt = UserToken { id: 1, name: "name12".to_string() }.to_jwt(&SECRET.to_string());
    let token = UserToken::from_jwt(jwt, &SECRET.to_string()).unwrap();
    assert!(token.id == 1);
    assert!(token.name == "name12".to_string());
}

#[test]
fn from_jwt_fails_if_invalid() {
    let token = UserToken::from_jwt("not a real jwt".to_string(), &SECRET.to_string());
    assert!(token.is_none());
}

#[test]
fn from_jwt_fails_if_empty() {
    let token = UserToken::from_jwt(String::new(), &SECRET.to_string());
    assert!(token.is_none());
}

#[test]
fn token_signed_with_another_secret_is_refused() {
    let jwt = UserToken { id: 7, name: "someone".to_string() }.to_jwt(&"first secret".to_string());
    assert!(UserToken::from_jwt(jwt, &"second secret".to_string()).is_none());
}

#[test]
fn try_to_jwt_signs_like_to_jwt() {
    let secret = "test_secret".to_string();
    let a = UserToken { id: 3, name: "user3".to_string() }.try_to_jwt(&secret).unwrap();
    let b = UserToken { id: 3, name: "user3".to_string() }.to_jwt(&secret);
    assert_eq!(a, b);
    assert_eq!(a.split('.').count(), 3);
}

#[test]
fn tokens_with_awkward_names_roundtrip() {
    let secret = "test_secret".to_string();
    for (id, name) in [
        (0, ""),
        (-1, "quote \" backslash \\ slash /"),
        (i32::MIN, "tab\tnewline\ncr\rbell\u{7}"),
        (i32::MAX, "unicode: été ✓ 日本"),
    ] {
        let jwt = UserToken { id, name: name.to_string() }.to_jwt(&secret);
        let token = UserToken::from_jwt(jwt, &secret).unwrap();
        assert_eq!(token.id, id);
        assert_eq!(token.name, name);
    }
}

#[test]
fn claims_text_is_compact_json() {
    assert_eq!(claims_text(1, "name12"), "{\"id\":1,\"name\":\"name12\"}");
    assert_eq!(claims_text(-42, "a\"b"), "{\"id\":-42,\"name\":\"a\\\"b\"}");
    assert_eq!(claims_text(5, "\u{1}\u{8}"), "{\"id\":5,\"name\":\"\\u0001\\b\"}");
    let mut map = serde_json::Map::new();
    map.insert("name".to_string(), serde_json::Value::String("a\"b\n\u{1f}".to_string()));
    map.insert("id".to_string(), serde_json::Value::from(-42));
    let serde_text = serde_json::Value::Object(map).to_string();
    assert_eq!(claims_text(-42, "a\"b\n\u{1f}"), serde_text);
}

fn object(pairs: &[(&str, &str)]) -> Payload {
    Payload::Object(pairs.iter().map(|(k, v)| (k.to_string(), v.to_string())).collect())
}

fn array(items: &[&str]) -> Payload {
    Payload::Array(items.iter().map(|v| v.to_string()).collect())
}

#[test]
fn claims_are_read_from_payloads() {
    for (id, name) in [(1, "name12"), (-2147483648, "x\u{0}y"), (2147483647, "\\\"")] {
        let name_text = serde_json::Value::String(name.to_string()).to_string();
        let id_text = id.to_string();
        let (i, n) = claims_of_payload(&object(&[("id", &id_text), ("name", &name_text)])).unwrap();
        assert_eq!(i, id);
        assert_eq!(n, name);
        let (i, n) = claims_of_payload(&array(&[&id_text, &name_text])).unwrap();
        assert_eq!(i, id);
        assert_eq!(n, name);
    }
    let (i, n) =
        claims_of_payload(&object(&[("exp", "12"), ("id", "4"), ("name", "\"a\\nb\""), ("zz", "[]")]))
            .unwrap();
    assert_eq!(i, 4);
    assert_eq!(n, "a\nb");
    let (_, n) = claims_of_payload(&object(&[("id", "4"), ("name", "\"\\u0041\"")])).unwrap();
    assert_eq!(n, "A");
}

#[test]
fn payloads_without_a_user_are_refused() {
    for pairs in [
        vec![],
        vec![("id", "1")],
        vec![("name", "\"a\"")],
        vec![("id", "1.0"), ("name", "\"a\"")],
        vec![("id", "2147483648"), ("name", "\"a\"")],
        vec![("id", "\"1\""), ("name", "\"a\"")],
        vec![("id", "1"), ("name", "5")],
        vec![("id", "1"), ("name", "\"a")],
    ] {
        assert!(claims_of_payload(&object(&pairs)).is_none(), "accepted {:?}", pairs);
    }
    assert!(claims_of_payload(&array(&["1"])).is_none());
    assert!(claims_of_payload(&array(&["1", "\"a\"", "2"])).is_none());
    assert!(claims_of_payload(&array(&["\"a\"", "1"])).is_none());
    assert!(claims_of_payload(&Payload::Other).is_none());
}

fn signed(payload: serde_json::Value, secret: &str) -> String {
    let header = serde_json::Value::Object(serde_json::Map::new());
    frank_jwt::encode(header, &secret.to_string(), &payload, frank_jwt::Algorithm::HS256).unwrap()
}

#[test]
fn token_with_more_claims_is_read() {
    let mut map = serde_json::Map::new();
    map.insert("iat".to_string(), serde_json::Value::from(1_600_000_000i64));
    map.insert("id".to_string(), serde_json::Value::from(9));
    map.insert("name".to_string(), serde_json::Value::String("nine".to_string()));
    let jwt = signed(serde_json::Value::Object(map), SECRET);
    let token = UserToken::from_jwt(jwt, &SECRET.to_string()).unwrap();
    assert_eq!(token.id, 9);
    assert_eq!(token.name, "nine");
}

#[test]
fn token_with_an_array_payload_is_read() {
    let items = vec![serde_json::Value::from(12), serde_json::Value::String("twelve".to_string())];
    let jwt = signed(serde_json::Value::Array(items), SECRET);
    let token = UserToken::from_jwt(jwt, &SECRET.to_string()).unwrap();
    assert_eq!(token.id, 12);
    assert_eq!(token.name, "twelve");
}

#[test]
fn tampered_token_is_refused() {
    let jwt = UserToken { id: 1, name: "name12".to_string() }.to_jwt(&SECRET.to_string());
    let parts: Vec<&str> = jwt.split('.').collect();
    let mut map = serde_json::Map::new();
    map.insert("id".to_string(), serde_json::Value::from(2));
    map.insert("name".to_string(), serde_json::Value::String("name12".to_string()));
    let forged = signed(serde_json::Value::Object(map), "guessed secret");
    let forged_payload = forged.split('.').nth(1).unwrap();
    let tampered = format!("{}.{}.{}", parts[0], forged_payload, parts[2]);
    assert!(UserToken::from_jwt(tampered, &SECRET.to_string()).is_none());
    assert!(UserToken::from_jwt(forged, &SECRET.to_string()).is_none());
}

#[test]
fn token_without_a_user_is_refused() {
    let jwt = signed(serde_json::Value::from(5), SECRET);
    assert!(UserToken::from_jwt(jwt, &SECRET.to_string()).is_none());
    let mut map = serde_json::Map::new();
    map.insert("id".to_string(), serde_json::Value::String("9".to_string()));
    map.insert("name".to_string(), serde_json::Value::String("nine".to_string()));
    let jwt = signed(serde_json::Value::Object(map), SECRET);
    assert!(UserToken::from_jwt(jwt, &SECRET.to_string()).is_none());
    assert!(UserToken::from_jwt("a.b.c".to_string(), &SECRET.to_string()).is_none());
}

#[test]
fn password_digest_is_base64_of_32_bytes() {
    let a = password_digest("password1", "test_secret");
    let b = password_digest("password1", "test_secret");
    let c = password_digest("password2", "test_secret");
    let d = password_digest("password1", "other_secret");
    assert_eq!(a, b);
    assert_ne!(a, c);
    assert_ne!(a, d);
    assert_eq!(a.len(), 44);
    assert!(a.ends_with('='));
    assert_eq!(a, base64::encode(argon2rs::argon2i_simple("password1", "test_secret")));
}
