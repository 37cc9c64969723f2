use armory::encoding::{decode_content, encode_content};
use armory::digest::{content_digest, same_bytes};
use armory::model::{
    GetInfoError, GetInfoInput, GetInput, ListInput, PublishError, PublishInput, Triple,
};
use armory::service::{Registry, Reply};
use armory::store::{decide, ArtifactStore, PutAction, PutError};
use armory::model::GetError;

fn put(store: &mut ArtifactStore, name: &str, triple: Triple, version: &str, content: &[u8]) -> Result<PutAction, PutError> {
    store.put(name.to_string(), triple, version.to_string(), content.to_vec())
}

fn publish_input(name: &str, triple: Triple, version: &str, content: &str) -> PublishInput {
    PublishInput {
        name: name.to_string(),
        version: version.to_string(),
        triple,
        content: content.to_string(),
    }
}

fn get_input(name: &str, triple: Triple, version: Option<&str>) -> GetInput {
    GetInput { name: name.to_string(), version: version.map(|v| v.to_string()), triple }
}

fn hex(bytes: &[u8]) -> String {
    bytes.iter().map(|b| format!("{b:02x}")).collect()
}

#[test]
fn put_then_get_returns_bytes() {
    let mut store = ArtifactStore::new();
    assert_eq!(put(&mut store, "tool", Triple::X86_64Linux, "1.0.0", b"\x00\x01binary"), Ok(PutAction::Write));
    let a = store.get("tool", Triple::X86_64Linux, Some("1.0.0")).unwrap();
    assert_eq!(a.content, b"\x00\x01binary".to_vec());
    assert_eq!(a.version, "1.0.0");
    assert!(store.get("tool", Triple::X86_64Linux, Some("1.0.1")).is_none());
}

#[test]
fn republish_identical_is_a_no_op() {
    let mut store = ArtifactStore::new();
    assert_eq!(put(&mut store, "tool", Triple::X86_64Linux, "1.0.0", b"abc"), Ok(PutAction::Write));
    assert_eq!(put(&mut store, "tool", Triple::X86_64Linux, "1.0.0", b"abc"), Ok(PutAction::Unchanged));
    assert_eq!(store.list_versions("tool", Triple::X86_64Linux), vec!["1.0.0".to_string()]);
}

#[test]
fn republish_different_content_conflicts() {
    let mut store = ArtifactStore::new();
    assert_eq!(put(&mut store, "tool", Triple::X86_64Linux, "1.0.0", b"abc"), Ok(PutAction::Write));
    assert_eq!(put(&mut store, "tool", Triple::X86_64Linux, "1.0.0", b"abd"), Err(PutError::Conflict));
    let a = store.lookup("tool", Triple::X86_64Linux, "1.0.0").unwrap();
    assert_eq!(a.content, b"abc".to_vec());
}

#[test]
fn latest_is_lexicographic_maximum() {
    let mut store = ArtifactStore::new();
    for v in ["1.9.0", "2.0.0", "1.0.0"] {
        put(&mut store, "tool", Triple::Aarch64Darwin, v, v.as_bytes()).unwrap();
    }
    let a = store.get("tool", Triple::Aarch64Darwin, None).unwrap();
    assert_eq!(a.version, "2.0.0");
    assert_eq!(a.content, b"2.0.0".to_vec());
}

#[test]
fn latest_of_two_and_ten_is_two() {
    let mut store = ArtifactStore::new();
    put(&mut store, "tool", Triple::X86_64Linux, "10", b"ten").unwrap();
    put(&mut store, "tool", Triple::X86_64Linux, "2", b"two").unwrap();
    let a = store.get("tool", Triple::X86_64Linux, None).unwrap();
    assert_eq!(a.version, "2");
    assert_eq!(a.content, b"two".to_vec());
}

#[test]
fn versions_are_listed_in_order() {
    let mut store = ArtifactStore::new();
    for v in ["2.0.0", "10", "1.0.0", "1.9.0"] {
        put(&mut store, "tool", Triple::X86_64Linux, v, b"x").unwrap();
    }
    put(&mut store, "tool", Triple::X86_64Windows, "9.9.9", b"x").unwrap();
    put(&mut store, "other", Triple::X86_64Linux, "3.0.0", b"x").unwrap();
    assert_eq!(store.list_versions("tool", Triple::X86_64Linux), vec!["1.0.0", "1.9.0", "10", "2.0.0"]);
    assert!(store.list_versions("tool", Triple::Aarch64Linux).is_empty());
}

#[test]
fn listing_is_scoped_by_triple() {
    let mut store = ArtifactStore::new();
    put(&mut store, "zeta", Triple::X86_64Linux, "1", b"z").unwrap();
    put(&mut store, "alpha", Triple::X86_64Linux, "1", b"a").unwrap();
    put(&mut store, "alpha", Triple::X86_64Linux, "2", b"b").unwrap();
    put(&mut store, "beta", Triple::Aarch64Linux, "1", b"c").unwrap();
    assert_eq!(store.list_package_names(Triple::X86_64Linux), vec!["alpha", "zeta"]);
    assert_eq!(store.list_package_names(Triple::Aarch64Linux), vec!["beta"]);
    assert!(store.list_package_names(Triple::X86_64Windows).is_empty());
}

#[test]
fn same_key_under_other_triple_is_distinct() {
    let mut store = ArtifactStore::new();
    assert_eq!(put(&mut store, "tool", Triple::X86_64Linux, "1", b"linux"), Ok(PutAction::Write));
    assert_eq!(put(&mut store, "tool", Triple::X86_64Darwin, "1", b"darwin"), Ok(PutAction::Write));
    assert_eq!(store.lookup("tool", Triple::X86_64Darwin, "1").unwrap().content, b"darwin".to_vec());
}

#[test]
fn decide_by_digest() {
    let d1 = content_digest(b"one");
    let d2 = content_digest(b"two");
    assert_eq!(decide(None, &d1), Ok(PutAction::Write));
    assert_eq!(decide(Some(&d1), &d1), Ok(PutAction::Unchanged));
    assert_eq!(decide(Some(&d1), &d2), Err(PutError::Conflict));
}

#[test]
fn digest_is_sha256() {
    assert_eq!(
        hex(&content_digest(b"abc")),
        "ba7816bf8f01cfea414140de5dae2223b00361a396177a9cb410ff61f20015ad"
    );
    assert_eq!(
        hex(&content_digest(b"")),
        "e3b0c44298fc1c149afbf4c8996fb92427ae41e4649b934ca495991b7852b855"
    );
}

#[test]
fn byte_equality() {
    assert!(same_bytes(b"abc", b"abc"));
    assert!(!same_bytes(b"abc", b"abd"));
    assert!(!same_bytes(b"abc", b"ab"));
    assert!(same_bytes(b"", b""));
}

#[test]
fn publish_decodes_base64() {
    let mut reg = Registry::new(ArtifactStore::new(), None);
    reg.publish(&publish_input("tool", Triple::X86_64Linux, "1.0.0", "aGVsbG8=")).unwrap();
    let a = reg.store().lookup("tool", Triple::X86_64Linux, "1.0.0").unwrap();
    assert_eq!(a.content, b"hello".to_vec());
}

#[test]
fn publish_rejects_invalid_encoding() {
    let mut reg = Registry::new(ArtifactStore::new(), None);
    let r = reg.publish(&publish_input("tool", Triple::X86_64Linux, "1.0.0", "not base64!"));
    assert_eq!(r.unwrap_err(), PublishError::InvalidEncoding);
    assert!(reg.store().list_package_names(Triple::X86_64Linux).is_empty());
}

#[test]
fn publish_conflict_is_version_exists() {
    let mut reg = Registry::new(ArtifactStore::new(), None);
    reg.publish(&publish_input("tool", Triple::X86_64Linux, "1.0.0", "aGVsbG8=")).unwrap();
    reg.publish(&publish_input("tool", Triple::X86_64Linux, "1.0.0", "aGVsbG8=")).unwrap();
    let r = reg.publish(&publish_input("tool", Triple::X86_64Linux, "1.0.0", "d29ybGQ="));
    assert_eq!(r.unwrap_err(), PublishError::VersionExists);
    let out = reg.get(&get_input("tool", Triple::X86_64Linux, Some("1.0.0"))).unwrap();
    assert_eq!(out.content, "aGVsbG8=");
}

#[test]
fn plan_then_commit() {
    let mut reg = Registry::new(ArtifactStore::new(), None);
    let input = publish_input("tool", Triple::X86_64Linux, "1.0.0", "aGVsbG8=");
    let plan = reg.plan_publish(&input).unwrap();
    assert_eq!(plan.action, PutAction::Write);
    assert_eq!(plan.content, b"hello".to_vec());
    assert!(reg.store().lookup("tool", Triple::X86_64Linux, "1.0.0").is_none());
    reg.commit(&input, plan).unwrap();
    assert_eq!(reg.plan_publish(&input).unwrap().action, PutAction::Unchanged);
}

#[test]
fn get_encodes_base64_and_resolves_latest() {
    let mut reg = Registry::new(ArtifactStore::new(), None);
    reg.publish(&publish_input("tool", Triple::X86_64Linux, "1.0.0", "b2xk")).unwrap();
    reg.publish(&publish_input("tool", Triple::X86_64Linux, "1.1.0", "aGVsbG8=")).unwrap();
    let out = reg.get(&get_input("tool", Triple::X86_64Linux, None)).unwrap();
    assert_eq!(out.name, "tool");
    assert_eq!(out.version, "1.1.0");
    assert_eq!(out.content, "aGVsbG8=");
    let out = reg.get(&get_input("tool", Triple::X86_64Linux, Some("1.0.0"))).unwrap();
    assert_eq!(out.content, "b2xk");
}

#[test]
fn empty_store_queries() {
    let reg = Registry::new(ArtifactStore::new(), None);
    let info = GetInfoInput { name: "tool".to_string(), triple: Triple::X86_64Linux };
    assert_eq!(reg.get_info(&info).unwrap_err(), GetInfoError::PackageNotFound);
    assert_eq!(reg.get(&get_input("tool", Triple::X86_64Linux, None)).unwrap_err(), GetError::PackageNotFound);
    assert_eq!(reg.get(&get_input("tool", Triple::X86_64Linux, Some("1"))).unwrap_err(), GetError::PackageNotFound);
    let out = reg.list(&ListInput { triple: Triple::X86_64Linux }).unwrap();
    assert!(out.packages.is_empty());
}

#[test]
fn get_info_lists_versions() {
    let mut reg = Registry::new(ArtifactStore::new(), None);
    reg.publish(&publish_input("tool", Triple::X86_64Linux, "2", "eA==")).unwrap();
    reg.publish(&publish_input("tool", Triple::X86_64Linux, "10", "eA==")).unwrap();
    let info = GetInfoInput { name: "tool".to_string(), triple: Triple::X86_64Linux };
    let out = reg.get_info(&info).unwrap();
    assert_eq!(out.name, "tool");
    assert_eq!(out.versions, vec!["10", "2"]);
    let other = GetInfoInput { name: "tool".to_string(), triple: Triple::Aarch64Windows };
    assert_eq!(reg.get_info(&other).unwrap_err(), GetInfoError::PackageNotFound);
}

#[test]
fn list_excludes_other_triples() {
    let mut reg = Registry::new(ArtifactStore::new(), None);
    reg.publish(&publish_input("tool", Triple::X86_64Linux, "1", "eA==")).unwrap();
    let out = reg.list(&ListInput { triple: Triple::Aarch64Darwin }).unwrap();
    assert!(out.packages.is_empty());
    let out = reg.list(&ListInput { triple: Triple::X86_64Linux }).unwrap();
    assert_eq!(out.packages, vec!["tool"]);
}

fn failure_code<T>(r: &Reply<T>) -> Option<String> {
    match r {
        Reply::Failure(i) => Some(i.code.clone()),
        Reply::Success(_) => None,
    }
}

#[test]
fn credential_gate() {
    let mut reg = Registry::new(ArtifactStore::new(), Some("s3cret".to_string()));
    let list = ListInput { triple: Triple::X86_64Linux };
    let r = reg.handle_list(None, &list);
    assert_eq!(failure_code(&r).as_deref(), Some("password_missing"));
    assert_eq!(r.ok_header(), "false");
    let r = reg.handle_list(Some("wrong"), &list);
    assert_eq!(failure_code(&r).as_deref(), Some("password_invalid"));
    let r = reg.handle_list(Some("s3cret"), &list);
    assert!(matches!(r, Reply::Success(_)));
    assert_eq!(r.ok_header(), "true");

    let input = publish_input("tool", Triple::X86_64Linux, "1", "eA==");
    let r = reg.handle_publish(Some("s3cre"), &input);
    assert_eq!(failure_code(&r).as_deref(), Some("password_invalid"));
    assert!(reg.store().list_package_names(Triple::X86_64Linux).is_empty());
    let r = reg.handle_publish(Some("s3cret"), &input);
    assert!(matches!(r, Reply::Success(_)));
    let info = GetInfoInput { name: "tool".to_string(), triple: Triple::X86_64Linux };
    let r = reg.handle_get_info(None, &info);
    assert_eq!(failure_code(&r).as_deref(), Some("password_missing"));
    let r = reg.handle_get(Some("s3cret"), &get_input("tool", Triple::X86_64Linux, None));
    match r {
        Reply::Success(o) => assert_eq!(o.content, "eA=="),
        Reply::Failure(i) => panic!("unexpected failure {}", i.code),
    }
}

#[test]
fn no_secret_admits_everything() {
    let reg = Registry::new(ArtifactStore::new(), None);
    assert_eq!(reg.authenticate(None), Ok(()));
    assert_eq!(reg.authenticate(Some("anything")), Ok(()));
}

#[test]
fn operation_errors_pass_through_the_gate() {
    let mut reg = Registry::new(ArtifactStore::new(), Some("pw".to_string()));
    let r = reg.handle_get(Some("pw"), &get_input("missing", Triple::X86_64Linux, None));
    assert_eq!(failure_code(&r).as_deref(), Some("package_not_found"));
    let r = reg.handle_publish(Some("pw"), &publish_input("tool", Triple::X86_64Linux, "1", "%%"));
    assert_eq!(failure_code(&r).as_deref(), Some("invalid_encoding"));
    reg.handle_publish(Some("pw"), &publish_input("tool", Triple::X86_64Linux, "1", "eA=="));
    let r = reg.handle_publish(Some("pw"), &publish_input("tool", Triple::X86_64Linux, "1", "eQ=="));
    assert_eq!(failure_code(&r).as_deref(), Some("version_exists"));
}

#[test]
fn content_encoding() {
    assert_eq!(encode_content(b"hello").as_deref(), Some("aGVsbG8="));
    assert_eq!(encode_content(b"").as_deref(), Some(""));
    assert_eq!(decode_content("aGVsbG8="), Some(b"hello".to_vec()));
    assert_eq!(decode_content("aGVsbG8"), None);
    assert_eq!(decode_content("not base64!"), None);
    let bytes: Vec<u8> = (0..=255).collect();
    let text = encode_content(&bytes).unwrap();
    assert_eq!(decode_content(&text), Some(bytes));
}
