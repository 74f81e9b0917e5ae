use minecraft_auth::error::Error;
use minecraft_auth::store::{LoadOutcome, Manifest, ManifestKind, ManifestStore};

fn catalog_bytes() -> Vec<u8> {
    br#"{
        "latest": {"release": "1.19", "snapshot": "22w"},
        "versions": [{"id": "1.19", "type": "release", "url": "http://h/1.19.json"}]
    }"#
    .to_vec()
}

#[test]
fn cache_reuse_avoids_second_fetch() {
    let mut store = ManifestStore::new("/tmp/root".to_string());
    let path = "/tmp/root/versions/manifest_version.json".to_string();

    match store.load_or_fetch(&path) {
        LoadOutcome::FetchNeeded => (),
        LoadOutcome::Ready(_) => panic!("an empty store cannot hit"),
    }
    assert_eq!(store.fetch_count, 1);

    store.admit_fetched(&path, ManifestKind::Catalog, &catalog_bytes()).unwrap();

    match store.load_or_fetch(&path) {
        LoadOutcome::Ready(Manifest::Catalog(mv)) => {
            assert_eq!(mv.latest.release, "1.19");
            assert_eq!(mv.versions.len(), 1);
        },
        _ => panic!("the second load must be served from the cache"),
    }
    assert_eq!(store.fetch_count, 1, "a cache hit must not ask the network");
}

#[test]
fn malformed_body_leaves_cache_unchanged() {
    let mut store = ManifestStore::new("/r".to_string());
    let path = "/r/versions/1.19.json".to_string();
    match store.admit_fetched(&path, ManifestKind::Package, &b"not json at all".to_vec()) {
        Err(Error::MalformedManifest(_)) => (),
        other => panic!("expected a malformed-manifest error, got {:?}", other),
    }
    assert!(store.lookup(&path).is_none(), "a failed admit must not write a cache entry");
}

#[test]
fn wrong_shape_is_malformed() {
    let mut store = ManifestStore::new("/r".to_string());
    let path = "/r/assets/indexes/3.json".to_string();
    match store.admit_fetched(&path, ManifestKind::AssetSet, &catalog_bytes()) {
        Err(Error::MalformedManifest(_)) => (),
        other => panic!("expected a malformed-manifest error, got {:?}", other),
    }
}

#[test]
fn lookup_finds_admitted_manifest() {
    let mut store = ManifestStore::new("/r".to_string());
    let path = "/r/versions/manifest_version.json".to_string();
    assert!(store.lookup(&path).is_none());
    store.admit_fetched(&path, ManifestKind::Catalog, &catalog_bytes()).unwrap();
    match store.lookup(&path) {
        Some(Manifest::Catalog(mv)) => assert_eq!(mv.latest.snapshot, "22w"),
        _ => panic!("the admitted catalog must be found under its path"),
    }
}
