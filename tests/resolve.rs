use ring::ingest::{build_request, IngestError};
use ring::labels::{resolve_labels, set_label};
use ring::secrets::{resolve_secret, resolve_secrets, secret_reference};

fn pair(k: &str, v: &str) -> (String, String) {
    (k.to_string(), v.to_string())
}

#[test]
fn later_label_entry_wins() {
    let entries = vec![vec![pair("a", "1")], vec![pair("a", "2")]];
    let r = resolve_labels(&entries);
    assert_eq!(r, vec![pair("a", "2")]);
}

#[test]
fn label_sets_flatten_in_order() {
    let entries = vec![vec![pair("a", "1"), pair("b", "x")], vec![], vec![pair("c", "3"), pair("b", "y")]];
    let r = resolve_labels(&entries);
    assert_eq!(r, vec![pair("a", "1"), pair("b", "y"), pair("c", "3")]);
    assert!(resolve_labels(&vec![]).is_empty());
}

#[test]
fn set_label_replaces_or_appends() {
    let mut v = vec![pair("a", "1")];
    set_label(&mut v, &"a".to_string(), &"9".to_string());
    set_label(&mut v, &"b".to_string(), &"2".to_string());
    assert_eq!(v, vec![pair("a", "9"), pair("b", "2")]);
}

#[test]
fn literal_secret_is_kept() {
    let v = "plain-value".to_string();
    assert_eq!(secret_reference(&v), None);
    assert_eq!(resolve_secret(&v, Some("ignored".to_string())), "plain-value");
}

#[test]
fn unset_reference_falls_back_to_literal() {
    let v = "$RING_UNSET_VARIABLE".to_string();
    assert_eq!(secret_reference(&v), Some("RING_UNSET_VARIABLE".to_string()));
    assert_eq!(resolve_secret(&v, None), "$RING_UNSET_VARIABLE");
}

#[test]
fn set_reference_is_replaced() {
    let v = "$DB_PASSWORD".to_string();
    assert_eq!(resolve_secret(&v, Some("s3cret".to_string())), "s3cret");
    let raw = vec![pair("db", "$DB_PASSWORD"), pair("user", "admin"), pair("key", "$MISSING")];
    let r = resolve_secrets(&raw, &vec![Some("s3cret".to_string()), None, None]);
    assert_eq!(r, vec![pair("db", "s3cret"), pair("user", "admin"), pair("key", "$MISSING")]);
    assert_eq!(secret_reference(&"$".to_string()), Some(String::new()));
    assert_eq!(secret_reference(&String::new()), None);
}

#[test]
fn request_encodes_resolved_maps() {
    let entries = vec![vec![pair("a", "1")], vec![pair("a", "2")]];
    let secrets = vec![pair("pw", "$RING_UNSET_VARIABLE"), pair("token", "$TOKEN")];
    let lookups = vec![None, Some("abc".to_string())];
    let req = build_request(
        &"web".to_string(),
        &"nginx:latest".to_string(),
        &"docker".to_string(),
        &"prod".to_string(),
        2,
        &entries,
        &secrets,
        &lookups,
    )
    .ok()
    .unwrap();
    assert_eq!(req.labels, "{\"a\":\"2\"}");
    assert_eq!(req.secrets, "{\"pw\":\"$RING_UNSET_VARIABLE\",\"token\":\"abc\"}");
    assert_eq!(req.replicas, 2);
    assert_eq!(req.namespace, "prod");

    let empty = build_request(
        &"web".to_string(),
        &"nginx".to_string(),
        &"docker".to_string(),
        &"default".to_string(),
        0,
        &vec![],
        &vec![],
        &vec![],
    )
    .ok()
    .unwrap();
    assert_eq!(empty.labels, "{}");
    assert_eq!(empty.secrets, "{}");
}

#[test]
fn request_errors() {
    let r = build_request(
        &"web".to_string(),
        &"nginx".to_string(),
        &"podman".to_string(),
        &"prod".to_string(),
        1,
        &vec![],
        &vec![],
        &vec![],
    );
    assert!(matches!(r, Err(IngestError::UnsupportedRuntime)));
    let r = build_request(
        &"web".to_string(),
        &"nginx".to_string(),
        &"docker".to_string(),
        &"prod".to_string(),
        -1,
        &vec![],
        &vec![],
        &vec![],
    );
    assert!(matches!(r, Err(IngestError::NegativeReplicas)));
}
