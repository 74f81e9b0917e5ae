use minecraft_auth::data::download::{Artifact, Classifier, Download};
use minecraft_auth::data::library::Library;
use minecraft_auth::data::version::Version;
use minecraft_auth::error::Error;
use minecraft_auth::native::OsKind;
use minecraft_auth::version::{
    asset_index_path, asset_object_path, asset_url, catalog_path, client_path, find_version,
    library_path, package_path, select_library_target, shard,
};

fn art(path: Option<&str>, url: &str, size: u64) -> Artifact {
    Artifact {
        path: path.map(|p| p.to_string()),
        sha1: "h".to_string(),
        size,
        url: url.to_string(),
    }
}

#[test]
fn cache_layout_paths() {
    assert_eq!(catalog_path("/r"), "/r/versions/manifest_version.json");
    assert_eq!(package_path("/r", "1.19"), "/r/versions/1.19.json");
    assert_eq!(asset_index_path("/r", "3"), "/r/assets/indexes/3.json");
    assert_eq!(client_path("/r", "1.19"), "/r/clients/1.19/client.jar");
    assert_eq!(library_path("/r", "org/a/a.jar"), "/r/libraries/org/a/a.jar");
}

#[test]
fn asset_sharding() {
    let hash = "ab12000000000000000000000000000000000000";
    assert_eq!(shard(hash), "ab");
    assert_eq!(
        asset_object_path("/r", hash),
        format!("/r/assets/objects/ab/{}", hash)
    );
    assert_eq!(
        asset_url(hash),
        format!("http://resources.download.minecraft.net/ab/{}", hash)
    );
}

#[test]
fn find_version_by_exact_id() {
    let versions = vec![
        Version { id: "1.18".into(), t: "release".into(), url: "u18".into() },
        Version { id: "1.19".into(), t: "release".into(), url: "u19".into() },
    ];
    let v = find_version(&versions, &"1.19".to_string()).unwrap();
    assert_eq!(v.url, "u19");
    match find_version(&versions, &"1.19.1".to_string()) {
        Err(Error::VersionNotFound(id)) => assert_eq!(id, "1.19.1"),
        other => panic!("expected version-not-found, got {:?}", other),
    }
}

#[test]
fn native_classifier_is_preferred() {
    let lib = Library {
        name: "org.lwjgl:lwjgl:3".into(),
        downloads: Download {
            artifact: Some(art(Some("generic.jar"), "ug", 1)),
            classifiers: Some(Classifier::Complex(vec![
                ("natives-linux".to_string(), art(Some("linux.jar"), "ul", 2)),
                ("natives-windows".to_string(), art(Some("win.jar"), "uw", 3)),
            ])),
        },
    };
    let a = select_library_target(&lib, OsKind::Linux).unwrap();
    assert_eq!(a.path.as_deref(), Some("linux.jar"));
    let w = select_library_target(&lib, OsKind::Windows).unwrap();
    assert_eq!(w.path.as_deref(), Some("win.jar"));
    // No matching native for this platform: the generic artifact is used.
    let m = select_library_target(
        &Library {
            name: "x".into(),
            downloads: Download {
                artifact: Some(art(Some("generic.jar"), "ug", 1)),
                classifiers: Some(Classifier::Complex(vec![(
                    "natives-windows".to_string(),
                    art(Some("win.jar"), "uw", 3),
                )])),
            },
        },
        OsKind::Linux,
    )
    .unwrap();
    assert_eq!(m.path.as_deref(), Some("generic.jar"));
}

#[test]
fn library_with_nothing_resolves_to_none() {
    let lib = Library {
        name: "org.empty:e:1".into(),
        downloads: Download { artifact: None, classifiers: None },
    };
    assert!(select_library_target(&lib, OsKind::Linux).is_none());
}

#[test]
fn simple_classifier_is_a_fallback() {
    let lib = Library {
        name: "s".into(),
        downloads: Download {
            artifact: None,
            classifiers: Some(Classifier::Simple(art(Some("s.jar"), "us", 9))),
        },
    };
    let a = select_library_target(&lib, OsKind::Linux).unwrap();
    assert_eq!(a.path.as_deref(), Some("s.jar"));
}
