use scs::item::Secret;
use scs::item::secret::SecretError;
use scs::json::encode_secrets;
use scs::json::parse_secrets;
use scs::secret::Secret as BulkSecret;

#[test]
fn column_delimited_secret() {
    let secret = Secret::secret_from_string("hi:there".to_string());
    assert!(secret.is_err());
    let err = secret.unwrap_err();
    assert!(err.message().contains("Key or Value not found for"));
}

#[test]
fn secret() {
    let secret = Secret::secret_from_string("hi,there".to_string()).unwrap();
    assert_eq!(secret.key, "hi");
    assert_eq!(secret.value, "there");
}

#[test]
fn save_secret() {
    let secret = Secret::secret_from_string("foo,bar".to_string()).unwrap();
    let contents = encode_secrets(&vec![secret]);
    assert!(contents.contains(r#"[{"key":"foo","value":"bar"}]"#));
}

#[test]
fn too_many_commas() {
    let secret = Secret::secret_from_string("a,b,c".to_string());
    assert!(secret.is_err());
    assert_eq!(secret.unwrap_err(), SecretError::Incompatible);
}

#[test]
fn empty_secret_string() {
    let secret = Secret::secret_from_string(String::new());
    assert!(secret.is_err());
    assert!(matches!(secret.unwrap_err(), SecretError::NotFound(_)));
}

#[test]
fn empty_value_kept() {
    let secret = Secret::secret_from_string("k,".to_string()).unwrap();
    assert_eq!(secret.key, "k");
    assert_eq!(secret.value, "");
}

#[test]
fn bulk_secrets_drop_malformed() {
    let parsed = BulkSecret::secrets_from_string(vec![
        "a,1".to_string(),
        "bad".to_string(),
        "b,2".to_string(),
        "x,y,z".to_string(),
    ]);
    assert_eq!(parsed.len(), 2);
    assert_eq!(parsed[0].key, "a");
    assert_eq!(parsed[0].value, "1");
    assert_eq!(parsed[1].key, "b");
    assert_eq!(parsed[1].value, "2");
}

#[test]
fn validate_secrets_texts() {
    let out = BulkSecret::validate_secrets(vec![
        "ok,fine".to_string(),
        "a,b,c".to_string(),
        "plain".to_string(),
    ])
    .unwrap();
    assert_eq!(out.len(), 3);
    assert_eq!(out[0], "ok,fine");
    assert_eq!(out[1], "Secret must contain just key and value. a,b,c violates that rule");
    assert_eq!(out[2], "Secret cannot be empty. Please check your arguments");
}

#[test]
fn secrets_file_round_trip() {
    let list = vec![
        Secret::secret_from_string("u,p".to_string()).unwrap(),
        Secret::secret_from_string("host,example".to_string()).unwrap(),
    ];
    let text = encode_secrets(&list);
    assert_eq!(text, r#"[{"key":"u","value":"p"},{"key":"host","value":"example"}]"#);
    let back = parse_secrets(&text).unwrap();
    assert_eq!(back, list);
}

#[test]
fn secrets_file_escapes() {
    let list = vec![Secret {
        key: "qu\"ote".to_string(),
        value: "back\\slash\nline".to_string(),
    }];
    let text = encode_secrets(&list);
    assert_eq!(text, "[{\"key\":\"qu\\\"ote\",\"value\":\"back\\\\slash\\nline\"}]");
    let back = parse_secrets(&text).unwrap();
    assert_eq!(back, list);
}

#[test]
fn secrets_file_empty() {
    let empty: Vec<Secret> = Vec::new();
    let text = encode_secrets(&empty);
    assert_eq!(text, "[]");
    let back = parse_secrets(&text).unwrap();
    assert!(back.is_empty());
}

#[test]
fn secrets_file_append_cycle() {
    let first = Secret::secret_from_string("a,1".to_string()).unwrap();
    let text = encode_secrets(&vec![first.clone()]);
    let mut list = parse_secrets(&text).unwrap();
    list.push(Secret::secret_from_string("b,2".to_string()).unwrap());
    let text = encode_secrets(&list);
    let back = parse_secrets(&text).unwrap();
    assert_eq!(back.len(), 2);
    assert_eq!(back[0], first);
    assert_eq!(back[1].key, "b");
    assert_eq!(back[1].value, "2");
}

#[test]
fn secrets_file_rejects_noise() {
    assert!(parse_secrets("").is_none());
    assert!(parse_secrets("[").is_none());
    assert!(parse_secrets("{}").is_none());
    assert!(parse_secrets(r#"[{"key":"a"}]"#).is_none());
    assert!(parse_secrets(r#"[ {"key":"a","value":"b"} ]"#).is_none());
}
