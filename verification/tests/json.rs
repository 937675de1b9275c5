use just_proxy_lib::cli::BinOpt;
use just_proxy_lib::json::{merge, JsonValue};
use just_proxy_lib::opt::{CryptoConfig, QuicConfig};

fn obj(entries: Vec<(&str, JsonValue)>) -> JsonValue {
    JsonValue::Object(entries.into_iter().map(|(k, v)| (k.to_string(), v)).collect())
}

fn num(s: &str) -> JsonValue {
    JsonValue::Number(s.to_string())
}

fn text(s: &str) -> JsonValue {
    JsonValue::Str(s.to_string())
}

fn keys(v: &JsonValue) -> Vec<String> {
    match v {
        JsonValue::Object(e) => e.iter().map(|(k, _)| k.clone()).collect(),
        _ => panic!("not an object"),
    }
}

fn get<'a>(v: &'a JsonValue, key: &str) -> &'a JsonValue {
    match v {
        JsonValue::Object(e) => &e.iter().find(|(k, _)| k == key).unwrap().1,
        _ => panic!("not an object"),
    }
}

#[test]
fn merge_adds_and_replaces_entries() {
    let mut a = obj(vec![("x", num("1")), ("y", text("old"))]);
    let b = obj(vec![("y", text("new")), ("z", JsonValue::Bool(true))]);
    merge(&mut a, &b);
    assert_eq!(keys(&a), vec!["x", "y", "z"]);
    assert!(matches!(get(&a, "x"), JsonValue::Number(n) if n == "1"));
    assert!(matches!(get(&a, "y"), JsonValue::Str(s) if s == "new"));
    assert!(matches!(get(&a, "z"), JsonValue::Bool(true)));
}

#[test]
fn merge_goes_into_nested_objects() {
    let mut a = obj(vec![("inner", obj(vec![("p", num("1")), ("q", num("2"))]))]);
    let b = obj(vec![("inner", obj(vec![("q", num("3")), ("r", JsonValue::Null)]))]);
    merge(&mut a, &b);
    let inner = get(&a, "inner");
    assert_eq!(keys(inner), vec!["p", "q", "r"]);
    assert!(matches!(get(inner, "p"), JsonValue::Number(n) if n == "1"));
    assert!(matches!(get(inner, "q"), JsonValue::Number(n) if n == "3"));
    assert!(matches!(get(inner, "r"), JsonValue::Null));
}

#[test]
fn merge_of_non_objects_copies() {
    let mut a = obj(vec![("k", num("1"))]);
    merge(&mut a, &JsonValue::Array(vec![num("7"), JsonValue::Null]));
    match &a {
        JsonValue::Array(items) => {
            assert_eq!(items.len(), 2);
            assert!(matches!(&items[0], JsonValue::Number(n) if n == "7"));
        }
        _ => panic!("expected the array"),
    }
    let mut s = text("a");
    merge(&mut s, &obj(vec![("k", num("2"))]));
    assert_eq!(keys(&s), vec!["k"]);
    // An array is replaced, not merged element by element.
    let mut arr = JsonValue::Array(vec![num("1"), num("2")]);
    merge(&mut arr, &JsonValue::Array(vec![num("3")]));
    assert!(matches!(&arr, JsonValue::Array(items) if items.len() == 1));
}

#[test]
fn merge_into_null_entry_takes_the_value() {
    let mut a = obj(vec![("k", JsonValue::Null)]);
    merge(&mut a, &obj(vec![("k", obj(vec![("deep", JsonValue::Bool(false))]))]));
    assert_eq!(keys(get(&a, "k")), vec!["deep"]);
}

#[test]
fn duplicate_copies_deeply() {
    let v = obj(vec![("a", JsonValue::Array(vec![text("x"), obj(vec![("b", num("-2.5"))])]))]);
    let c = v.duplicate();
    match (&c, &v) {
        (JsonValue::Object(x), JsonValue::Object(y)) => assert_eq!(x.len(), y.len()),
        _ => panic!(),
    }
    match get(&c, "a") {
        JsonValue::Array(items) => {
            assert!(matches!(&items[0], JsonValue::Str(s) if s == "x"));
            assert!(matches!(get(&items[1], "b"), JsonValue::Number(n) if n == "-2.5"));
        }
        _ => panic!(),
    }
}

#[test]
fn quic_settings_as_json() {
    let mut q = QuicConfig::default();
    q.idle_timeout = Some(60000);
    q.time_threshold = Some(7);
    let j = q.to_json();
    assert_eq!(keys(&j).len(), 15);
    assert_eq!(keys(&j)[0], "stream_window_bidi");
    assert_eq!(keys(&j)[13], "presistent_cognestion_threshold");
    assert_eq!(keys(&j)[14], "local_cid_len");
    assert!(matches!(get(&j, "local_cid_len"), JsonValue::Null));
    assert!(matches!(get(&j, "idle_timeout"), JsonValue::Number(n) if n == "60000"));
    assert!(matches!(get(&j, "time_threshold"), JsonValue::Number(n) if n == "7"));
    assert!(matches!(get(&j, "initial_rtt"), JsonValue::Null));
    let mut big = QuicConfig::default();
    big.receive_window = Some(u64::MAX);
    assert!(matches!(get(&big.to_json(), "receive_window"), JsonValue::Number(n) if n == "18446744073709551615"));
}

#[test]
fn crypto_config_as_json() {
    let j = CryptoConfig::default().to_json();
    assert_eq!(keys(&j), vec!["key", "salt", "crypto_method", "digest_method", "digest_iteration"]);
    assert!(matches!(get(&j, "key"), JsonValue::Str(s) if s == "12312"));
    assert!(matches!(get(&j, "digest_iteration"), JsonValue::Number(n) if n == "1"));
}

#[test]
fn dumped_configuration() {
    let j = BinOpt::dump_config();
    let k = keys(&j);
    assert_eq!(k.len(), 20);
    assert_eq!(k[0], "stream_window_bidi");
    assert_eq!(k[14], "local_cid_len");
    assert_eq!(&k[15..], &["key", "salt", "crypto_method", "digest_method", "digest_iteration"]);
    assert!(matches!(get(&j, "local_cid_len"), JsonValue::Null));
    assert!(matches!(get(&j, "crypto_method"), JsonValue::Str(s) if s == "aes-256-gcm"));
    assert!(matches!(get(&j, "digest_method"), JsonValue::Str(s) if s == "sha256"));
    assert!(matches!(get(&j, "salt"), JsonValue::Str(s) if s == "2121"));
    assert!(matches!(get(&j, "max_tlps"), JsonValue::Null));
}
