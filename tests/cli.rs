use armory::cli::{
    host_triple, latest_version, names_self, Identifier, IdentifierError, Manifest, Package,
    PackageManifest, PackageRecord, Target, TargetError,
};
use armory::model::Triple;

fn strings(v: &[&str]) -> Vec<String> {
    v.iter().map(|s| s.to_string()).collect()
}

#[test]
fn identifier_without_version() {
    let id = Identifier::parse("ripgrep").unwrap();
    assert_eq!(id.name, "ripgrep");
    assert_eq!(id.version, None);
}

#[test]
fn identifier_with_version() {
    let id = Identifier::parse("ripgrep@14.1.0").unwrap();
    assert_eq!(id.name, "ripgrep");
    assert_eq!(id.version.as_deref(), Some("14.1.0"));
    let id = Identifier::parse("tool@").unwrap();
    assert_eq!(id.name, "tool");
    assert_eq!(id.version.as_deref(), Some(""));
}

#[test]
fn identifier_with_two_separators() {
    assert_eq!(Identifier::parse("a@1@2").unwrap_err(), IdentifierError::TooManyComponents);
    assert_eq!(Identifier::parse("@@").unwrap_err(), IdentifierError::TooManyComponents);
}

#[test]
fn version_given_twice() {
    let id = Identifier::parse("tool@1").unwrap();
    assert_eq!(id.requested_version(Some("2".to_string())), None);
    assert_eq!(id.requested_version(None), Some(Some("1".to_string())));
    let id = Identifier::parse("tool").unwrap();
    assert_eq!(id.requested_version(Some("2".to_string())), Some(Some("2".to_string())));
    assert_eq!(id.requested_version(None), Some(None));
}

#[test]
fn host_triples() {
    assert_eq!(host_triple("x86_64", "linux"), Some(Triple::X86_64Linux));
    assert_eq!(host_triple("aarch64", "linux"), Some(Triple::Aarch64Linux));
    assert_eq!(host_triple("x86_64", "macos"), Some(Triple::X86_64Darwin));
    assert_eq!(host_triple("aarch64", "macos"), Some(Triple::Aarch64Darwin));
    assert_eq!(host_triple("x86_64", "windows"), Some(Triple::X86_64Windows));
    assert_eq!(host_triple("aarch64", "windows"), Some(Triple::Aarch64Windows));
    assert_eq!(host_triple("riscv64", "linux"), None);
    assert_eq!(host_triple("x86_64", "freebsd"), None);
}

#[test]
fn latest_of_listed_versions() {
    let v = strings(&["1.0.0", "2.0.0", "1.9.0"]);
    assert_eq!(latest_version(&v), Some(1));
    let v = strings(&["10", "2"]);
    assert_eq!(latest_version(&v), Some(1));
    assert_eq!(latest_version(&Vec::new()), None);
}

fn manifest(triples: &[Triple]) -> PackageManifest {
    PackageManifest {
        package: Package { name: "tool".to_string(), version: "1.0.0".to_string() },
        targets: triples
            .iter()
            .enumerate()
            .map(|(i, t)| Target { triple: *t, path: format!("bin/{i}") })
            .collect(),
    }
}

#[test]
fn target_selection() {
    assert_eq!(manifest(&[]).select_target(None).unwrap_err(), TargetError::NoTargets);
    let one = manifest(&[Triple::X86_64Linux]);
    assert_eq!(one.select_target(Some(Triple::Aarch64Darwin)).unwrap().path, "bin/0");
    let many = manifest(&[Triple::X86_64Linux, Triple::Aarch64Darwin, Triple::Aarch64Darwin]);
    assert_eq!(many.select_target(None).unwrap_err(), TargetError::NoneSelected);
    assert_eq!(many.select_target(Some(Triple::Aarch64Darwin)).unwrap().path, "bin/1");
    assert_eq!(many.select_target(Some(Triple::X86_64Windows)).unwrap_err(), TargetError::NotDefined);
}

#[test]
fn uninstall_of_self() {
    assert!(names_self("self"));
    assert!(names_self("armory"));
    assert!(!names_self("tool"));
    assert!(!names_self("Self"));
}

fn names(m: &Manifest) -> Vec<(String, String)> {
    m.packages().iter().map(|p| (p.name.clone(), p.version.clone())).collect()
}

#[test]
fn manifest_add_and_remove() {
    let mut m = Manifest::new();
    m.add_package("b".to_string(), "1".to_string());
    m.add_package("a".to_string(), "2".to_string());
    m.add_package("b".to_string(), "3".to_string());
    m.remove_package("b".to_string());
    assert_eq!(names(&m), vec![("a".to_string(), "2".to_string()), ("b".to_string(), "3".to_string())]);
    m.remove_package("zzz".to_string());
    assert_eq!(m.packages().len(), 2);
}

#[test]
fn manifest_sorted_by_name() {
    let m = Manifest::from_packages(vec![
        PackageRecord { name: "zeta".to_string(), version: "1".to_string() },
        PackageRecord { name: "alpha".to_string(), version: "2".to_string() },
        PackageRecord { name: "mid".to_string(), version: "3".to_string() },
        PackageRecord { name: "alpha".to_string(), version: "4".to_string() },
    ]);
    let s = m.sorted();
    assert_eq!(
        names(&s),
        vec![
            ("alpha".to_string(), "2".to_string()),
            ("alpha".to_string(), "4".to_string()),
            ("mid".to_string(), "3".to_string()),
            ("zeta".to_string(), "1".to_string()),
        ]
    );
    assert_eq!(names(&m)[0].0, "zeta");
}
