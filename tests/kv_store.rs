use catch::kv_store::{new, KeyValueStore};
use catch::negotiate::{negotiate, read_kv, respond, JsonKind, Reply};
use std::sync::Mutex;

fn text_of(r: Reply) -> (u16, &'static str, String) {
    let status = r.status();
    let ct = r.content_type();
    (status, ct, r.body())
}

#[test]
fn set_then_get_round_trip() {
    let mut s = new();
    s.set("default", "k", "some value".to_string());
    assert_eq!(s.get("default", "k"), Some("some value".to_string()));
    s.set("default", "k", "other".to_string());
    assert_eq!(s.get("default", "k"), Some("other".to_string()));
}

#[test]
fn get_unwritten_is_not_found() {
    let mut s = new();
    assert_eq!(s.get("never", "k"), None);
    s.set("ctx", "a", "1".to_string());
    assert_eq!(s.get("ctx", "b"), None);
    let (st1, _, b1) = text_of(read_kv(&s, "never", "k"));
    let (st2, _, b2) = text_of(read_kv(&s, "ctx", "b"));
    assert_eq!((st1, b1.clone()), (404, "Key not found".to_string()));
    assert_eq!((st1, b1), (st2, b2));
}

#[test]
fn delete_is_idempotent() {
    let mut s = new();
    s.set("default", "k", "v".to_string());
    s.set("default", "j", "w".to_string());
    s.delete("default", "k");
    assert_eq!(s.get("default", "k"), None);
    s.delete("default", "k");
    assert_eq!(s.get("default", "k"), None);
    assert_eq!(s.get("default", "j"), Some("w".to_string()));
    s.delete("missing", "k");
    assert_eq!(s.get("missing", "k"), None);
}

#[test]
fn json_object_read_as_json() {
    let mut s = new();
    s.set("default", "K", "{\"a\":1}".to_string());
    let (st, ct, body) = text_of(read_kv(&s, "default", "K"));
    assert_eq!(st, 200);
    assert_eq!(ct, "application/json");
    assert_eq!(body, "{\"a\":1}");
}

#[test]
fn json_number_read_as_text() {
    let mut s = new();
    s.set("default", "K", "42".to_string());
    let (st, ct, body) = text_of(read_kv(&s, "default", "K"));
    assert_eq!(st, 200);
    assert_eq!(ct, "text/plain; charset=utf-8");
    assert_eq!(body, "42");
}

#[test]
fn plain_text_read_as_text() {
    let mut s = new();
    s.set("default", "K", "hello".to_string());
    let (_, ct, body) = text_of(read_kv(&s, "default", "K"));
    assert_eq!(ct, "text/plain; charset=utf-8");
    assert_eq!(body, "hello");
}

#[test]
fn json_scalars_kept_raw() {
    for raw in ["\"quoted\"", "true", " 7 ", "null"] {
        match respond(raw.to_string()) {
            Reply::Text(t) => assert_eq!(t, raw),
            _ => panic!("scalar served as JSON"),
        }
    }
}

#[test]
fn json_structures_reencoded() {
    match respond("[ 1, 2,\n 3 ]".to_string()) {
        Reply::Json(j) => assert_eq!(j, "[1,2,3]"),
        _ => panic!("array not served as JSON"),
    }
    match respond("{ \"a\" : { \"b\" : [] } }".to_string()) {
        Reply::Json(j) => assert_eq!(j, "{\"a\":{\"b\":[]}}"),
        _ => panic!("object not served as JSON"),
    }
}

#[test]
fn negotiate_follows_reading() {
    match negotiate("raw".to_string(), None) {
        Reply::Text(t) => assert_eq!(t, "raw"),
        _ => panic!("non-JSON served as JSON"),
    }
    for kind in [JsonKind::Object, JsonKind::Array] {
        match negotiate("raw".to_string(), Some((kind, "{}".to_string()))) {
            Reply::Json(j) => assert_eq!(j, "{}"),
            _ => panic!("structure served as text"),
        }
    }
    for kind in [JsonKind::Null, JsonKind::Bool, JsonKind::Number, JsonKind::Str] {
        match negotiate(" 1 ".to_string(), Some((kind, "1".to_string()))) {
            Reply::Text(t) => assert_eq!(t, " 1 "),
            _ => panic!("scalar served as JSON"),
        }
    }
}

#[test]
fn contexts_are_isolated() {
    let mut s = new();
    s.set("default", "K", "one".to_string());
    s.set("other", "K", "two".to_string());
    assert_eq!(s.get("default", "K"), Some("one".to_string()));
    assert_eq!(s.get("other", "K"), Some("two".to_string()));
    s.delete("other", "K");
    assert_eq!(s.get("default", "K"), Some("one".to_string()));
}

#[test]
fn serialised_writers_all_readable() {
    let store: Mutex<KeyValueStore> = Mutex::new(new());
    let n = 50;
    for i in 0..n {
        let mut guard = store.lock().unwrap();
        let ctx = format!("ctx{}", i % 3);
        guard.set(&ctx, &format!("key{i}"), format!("value{i}"));
    }
    let guard = store.lock().unwrap();
    for i in 0..n {
        let ctx = format!("ctx{}", i % 3);
        assert_eq!(guard.get(&ctx, &format!("key{i}")), Some(format!("value{i}")));
    }
}

#[test]
fn snapshot_is_a_full_copy() {
    let mut s = new();
    s.set("a", "x", "1".to_string());
    s.set("a", "y", "2".to_string());
    s.set("b", "x", "3".to_string());
    let snap = s.snapshot();
    s.set("a", "x", "changed".to_string());
    let mut flat: Vec<(String, String, String)> = Vec::new();
    for (c, part) in &snap {
        for (k, v) in part {
            flat.push((c.clone(), k.clone(), v.clone()));
        }
    }
    flat.sort();
    assert_eq!(
        flat,
        vec![
            ("a".to_string(), "x".to_string(), "1".to_string()),
            ("a".to_string(), "y".to_string(), "2".to_string()),
            ("b".to_string(), "x".to_string(), "3".to_string()),
        ]
    );
}

#[test]
fn any_value_accepted() {
    let mut s = new();
    s.set("default", "", "".to_string());
    assert_eq!(s.get("default", ""), Some(String::new()));
    let (st, ct, body) = text_of(read_kv(&s, "default", ""));
    assert_eq!((st, ct, body.as_str()), (200, "text/plain; charset=utf-8", ""));
}
