use coderouter_proxy::credential_file::CredentialFile;
use coderouter_proxy::json::{parse_json, to_json_string};
use coderouter_proxy::json_model::to_pretty_string;

#[test]
fn store_get_remove() {
    let mut f = CredentialFile::new();
    assert_eq!(f.get("p1"), Err("Credential not found".to_string()));
    f.store("p1", "sk-1");
    f.store("p2", "sk-2");
    assert_eq!(f.get("p1"), Ok("sk-1".to_string()));
    f.store("p1", "sk-1b");
    assert_eq!(f.get("p1"), Ok("sk-1b".to_string()));
    f.remove("p1");
    assert_eq!(f.get("p1"), Err("Credential not found".to_string()));
    assert_eq!(f.get("p2"), Ok("sk-2".to_string()));
    f.remove("missing");
    assert_eq!(f.get("p2"), Ok("sk-2".to_string()));
}

#[test]
fn fallback_file_round_trip() {
    let mut f = CredentialFile::new();
    f.store("coderouter-test-fallback-credential", "test-key-123");
    f.store("other", "k\"2");
    let text = to_pretty_string(&f.to_json());
    assert_eq!(text, "{\n  \"coderouter-test-fallback-credential\": \"test-key-123\",\n  \"other\": \"k\\\"2\"\n}");
    let back = CredentialFile::from_json(&parse_json(&text).unwrap());
    assert_eq!(back.get("coderouter-test-fallback-credential"), Ok("test-key-123".to_string()));
    assert_eq!(back.get("other"), Ok("k\"2".to_string()));
}

#[test]
fn unreadable_documents_hold_no_credentials() {
    let bad = CredentialFile::from_json(&parse_json(r#"{"a":"x","b":5}"#).unwrap());
    assert_eq!(bad.get("a"), Err("Credential not found".to_string()));
    let arr = CredentialFile::from_json(&parse_json("[]").unwrap());
    assert_eq!(arr.get("a"), Err("Credential not found".to_string()));
    let empty = CredentialFile::new();
    assert_eq!(to_json_string(&empty.to_json()), "{}");
}
