use minecraft_auth::error::Error;
use minecraft_auth::parse::{
    parse_artifact, parse_assets, parse_classifier, parse_manifest_version, parse_package,
};

fn package_json() -> String {
    String::from(
        r#"{
        "assetIndex": {"id": "3", "sha1": "abc", "size": 11, "totalSize": 30, "url": "http://h/idx.json"},
        "assets": "3",
        "complianceLevel": 1,
        "downloads": {
            "client": {"sha1": "c1", "size": 5000000, "url": "http://h/client.jar"},
            "server": {"sha1": "s1", "size": 4, "url": "http://h/server.jar"}
        },
        "id": "1.19",
        "javaVersion": {"component": "java-runtime-gamma", "majorVersion": 17},
        "libraries": [
            {"name": "org.a:a:1", "downloads": {"artifact": {"path": "org/a/a.jar", "sha1": "h1", "size": 120000, "url": "http://h/a.jar"}}},
            {"name": "org.b:b:2", "downloads": {"artifact": {"path": "org/b/b.jar", "sha1": "h2", "size": 45000, "url": "http://h/b.jar"}}}
        ],
        "mainClass": "net.minecraft.client.main.Main",
        "type": "release"
    }"#,
    )
}

#[test]
fn package_fields_are_extracted() {
    let v: serde_json::Value = serde_json::from_str(&package_json()).unwrap();
    let p = parse_package(&v).unwrap();
    assert_eq!(p.id, "1.19");
    assert_eq!(p.main_class, "net.minecraft.client.main.Main");
    assert_eq!(p.t, "release");
    assert_eq!(p.assets, "3");
    assert_eq!(p.compliance_level, 1);
    assert_eq!(p.java_version.major_version, 17);
    assert_eq!(p.java_version.component, "java-runtime-gamma");
    assert_eq!(p.asset_index.id, "3");
    assert_eq!(p.asset_index.size, 11);
    assert_eq!(p.asset_index.total_size, 30);
    assert_eq!(p.downloads.client.size, 5000000);
    assert_eq!(p.downloads.client.url, "http://h/client.jar");
    assert_eq!(p.libraries.len(), 2);
    assert_eq!(p.libraries[0].name, "org.a:a:1");
    let art = p.libraries[0].downloads.artifact.as_ref().unwrap();
    assert_eq!(art.path.as_deref(), Some("org/a/a.jar"));
    assert_eq!(art.size, 120000);
}

#[test]
fn missing_required_field_is_malformed() {
    let v: serde_json::Value = serde_json::from_str(r#"{"id": "1.19"}"#).unwrap();
    match parse_package(&v) {
        Err(Error::MalformedManifest(_)) => (),
        other => panic!("expected a malformed-manifest error, got {:?}", other),
    }
}

#[test]
fn wrong_field_kind_is_malformed() {
    let v: serde_json::Value =
        serde_json::from_str(r#"{"url": "u", "sha1": "s", "size": "not a number"}"#).unwrap();
    match parse_artifact(&v) {
        Err(Error::MalformedManifest(_)) => (),
        other => panic!("expected a malformed-manifest error, got {:?}", other),
    }
}

#[test]
fn artifact_without_path_has_none() {
    let v: serde_json::Value =
        serde_json::from_str(r#"{"url": "u", "sha1": "s", "size": 3}"#).unwrap();
    let a = parse_artifact(&v).unwrap();
    assert_eq!(a.path, None);
    assert_eq!(a.sha1, "s");
    assert_eq!(a.size, 3);
    assert_eq!(a.url, "u");
}

#[test]
fn classifier_map_is_parsed() {
    let v: serde_json::Value = serde_json::from_str(
        r#"{
            "natives-linux": {"path": "l.jar", "sha1": "x", "size": 1, "url": "ul"},
            "natives-windows": {"path": "w.jar", "sha1": "y", "size": 2, "url": "uw"}
        }"#,
    )
    .unwrap();
    match parse_classifier(&v).unwrap() {
        minecraft_auth::data::download::Classifier::Complex(entries) => {
            assert_eq!(entries.len(), 2);
            let linux = entries.iter().find(|e| e.0 == "natives-linux").unwrap();
            assert_eq!(linux.1.path.as_deref(), Some("l.jar"));
        },
        other => panic!("expected the platform map form, got {:?}", other),
    }
}

#[test]
fn catalog_is_parsed() {
    let v: serde_json::Value = serde_json::from_str(
        r#"{
            "latest": {"release": "1.19", "snapshot": "22w"},
            "versions": [
                {"id": "1.19", "type": "release", "url": "http://h/1.19.json"},
                {"id": "22w", "type": "snapshot", "url": "http://h/22w.json"}
            ]
        }"#,
    )
    .unwrap();
    let mv = parse_manifest_version(&v).unwrap();
    assert_eq!(mv.latest.release, "1.19");
    assert_eq!(mv.latest.snapshot, "22w");
    assert_eq!(mv.versions.len(), 2);
    assert_eq!(mv.versions[1].t, "snapshot");
}

#[test]
fn assets_are_parsed() {
    let v: serde_json::Value = serde_json::from_str(
        r#"{"objects": {
            "icons/a.png": {"hash": "aa00000000000000000000000000000000000000", "size": 10},
            "icons/b.png": {"hash": "bb00000000000000000000000000000000000000", "size": 20}
        }}"#,
    )
    .unwrap();
    let a = parse_assets(&v).unwrap();
    assert_eq!(a.objects.len(), 2);
    let first = a.objects.iter().find(|e| e.0 == "icons/a.png").unwrap();
    assert_eq!(first.1.size, 10);
    assert_eq!(first.1.hash, "aa00000000000000000000000000000000000000");
}

#[test]
fn short_asset_hash_is_malformed() {
    let v: serde_json::Value =
        serde_json::from_str(r#"{"objects": {"x": {"hash": "a", "size": 1}}}"#).unwrap();
    match parse_assets(&v) {
        Err(Error::MalformedManifest(_)) => (),
        other => panic!("expected a malformed-manifest error, got {:?}", other),
    }
}
