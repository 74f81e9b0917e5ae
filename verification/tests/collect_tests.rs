use minecraft_auth::collect::{collect, file_to_download_for_version, DiskState};
use minecraft_auth::data::asset::{Asset, AssetIndex, Assets};
use minecraft_auth::data::download::{Artifact, Download};
use minecraft_auth::data::java::JavaVersion;
use minecraft_auth::data::library::Library;
use minecraft_auth::data::package::{Downloads, Package};
use minecraft_auth::native::OsKind;
use minecraft_auth::version::{resolve, ResolvedVersion};
use minecraft_auth::MinecraftAuth;

const HASH_A: &str = "aa00000000000000000000000000000000000000";
const HASH_B: &str = "bb00000000000000000000000000000000000000";

fn art(path: Option<&str>, url: &str, sha1: &str, size: u64) -> Artifact {
    Artifact {
        path: path.map(|p| p.to_string()),
        sha1: sha1.to_string(),
        size,
        url: url.to_string(),
    }
}

fn lib(name: &str, a: Artifact) -> Library {
    Library {
        name: name.to_string(),
        downloads: Download { artifact: Some(a), classifiers: None },
    }
}

fn sample_package() -> Package {
    Package {
        asset_index: AssetIndex {
            id: "3".into(),
            sha1: "x".into(),
            size: 11,
            total_size: 30,
            url: "http://h/idx.json".into(),
        },
        assets: "3".into(),
        compliance_level: 1,
        downloads: Downloads {
            client: art(None, "http://h/client.jar", "c1", 5_000_000),
            server: art(None, "http://h/server.jar", "s1", 4),
        },
        id: "1.19".into(),
        java_version: JavaVersion { component: "gamma".into(), major_version: 17 },
        libraries: vec![
            lib("org.a:a:1", art(Some("org/a/a.jar"), "http://h/a.jar", "h1", 120_000)),
            lib("org.b:b:2", art(Some("org/b/b.jar"), "http://h/b.jar", "h2", 45_000)),
        ],
        main_class: "Main".into(),
        t: "release".into(),
    }
}

fn sample_assets(hash_b: &str) -> Assets {
    Assets {
        objects: vec![
            ("icons/a.png".to_string(), Asset { hash: HASH_A.to_string(), size: 10 }),
            ("icons/b.png".to_string(), Asset { hash: hash_b.to_string(), size: 20 }),
        ],
    }
}

fn sample_resolved(hash_b: &str) -> ResolvedVersion {
    let (resolved, warnings) = resolve(sample_package(), sample_assets(hash_b), OsKind::Linux);
    assert!(warnings.is_empty());
    resolved
}

fn app() -> MinecraftAuth {
    MinecraftAuth::new("launcher".to_string(), "/r".to_string())
}

#[test]
fn empty_disk_yields_every_requirement() {
    let resolved = sample_resolved(HASH_B);
    let reqs = collect(&app(), &resolved, &DiskState::new(), false);
    assert_eq!(reqs.len(), 5, "client + two libraries + two assets");
    assert_eq!(reqs[0].path, "/r/clients/1.19/client.jar");
    assert_eq!(reqs[0].size, 5_000_000);
    assert_eq!(reqs[1].path, "/r/libraries/org/a/a.jar");
    assert_eq!(reqs[2].path, "/r/libraries/org/b/b.jar");
    assert_eq!(reqs[3].path, format!("/r/assets/objects/aa/{}", HASH_A));
    assert_eq!(reqs[3].url, format!("http://resources.download.minecraft.net/aa/{}", HASH_A));
    assert_eq!(reqs[4].path, format!("/r/assets/objects/bb/{}", HASH_B));
    assert_eq!(reqs[4].sha1.as_deref(), Some(HASH_B));
}

#[test]
fn collection_is_idempotent() {
    let resolved = sample_resolved(HASH_B);
    let a = app();
    let mut disk = DiskState::new();
    disk.record("/r/libraries/org/a/a.jar".to_string(), 120_000, None);
    let first = collect(&a, &resolved, &disk, false);
    let second = collect(&a, &resolved, &disk, false);
    assert_eq!(first, second);
}

#[test]
fn exact_size_on_disk_skips_the_requirement() {
    let resolved = sample_resolved(HASH_B);
    let a = app();
    let mut disk = DiskState::new();
    disk.record("/r/clients/1.19/client.jar".to_string(), 5_000_000, None);
    let reqs = collect(&a, &resolved, &disk, false);
    assert_eq!(reqs.len(), 4);
    assert!(reqs.iter().all(|r| r.path != "/r/clients/1.19/client.jar"));
}

#[test]
fn size_off_by_one_byte_re_emits() {
    let resolved = sample_resolved(HASH_B);
    let a = app();
    let mut disk = DiskState::new();
    disk.record("/r/clients/1.19/client.jar".to_string(), 4_999_999, None);
    let reqs = collect(&a, &resolved, &disk, false);
    assert_eq!(reqs.len(), 5);
    assert!(reqs.iter().any(|r| r.path == "/r/clients/1.19/client.jar"));
}

#[test]
fn shared_asset_hash_is_deduplicated() {
    // Both asset names map to the same content hash, hence one path.
    let resolved = sample_resolved(HASH_A);
    let reqs = collect(&app(), &resolved, &DiskState::new(), false);
    assert_eq!(reqs.len(), 4, "client + two libraries + one shared asset object");
    let asset_paths: Vec<&str> = reqs
        .iter()
        .filter(|r| r.path.starts_with("/r/assets/"))
        .map(|r| r.path.as_str())
        .collect();
    assert_eq!(asset_paths.len(), 1);
    // The first of the two entities for that path survives.
    let kept = reqs.iter().find(|r| r.path.starts_with("/r/assets/")).unwrap();
    assert_eq!(kept.size, 10);
}

#[test]
fn strict_mode_requires_a_known_matching_hash() {
    let resolved = sample_resolved(HASH_B);
    let a = app();
    let client = "/r/clients/1.19/client.jar".to_string();

    // Size matches but the recorded hash differs: strict mode re-emits.
    let mut disk = DiskState::new();
    disk.record(client.clone(), 5_000_000, Some("deadbeef".to_string()));
    let reqs = collect(&a, &resolved, &disk, true);
    assert!(reqs.iter().any(|r| r.path == client));

    // Size matches and the recorded hash equals the declared one: skipped.
    let mut disk2 = DiskState::new();
    disk2.record(client.clone(), 5_000_000, Some("c1".to_string()));
    let reqs2 = collect(&a, &resolved, &disk2, true);
    assert!(reqs2.iter().all(|r| r.path != client));

    // Size matches but no hash is known: strict mode re-emits.
    let mut disk3 = DiskState::new();
    disk3.record(client.clone(), 5_000_000, None);
    let reqs3 = collect(&a, &resolved, &disk3, true);
    assert!(reqs3.iter().any(|r| r.path == client));

    // The lax mode skips on size alone.
    let reqs4 = collect(&a, &resolved, &disk3, false);
    assert!(reqs4.iter().all(|r| r.path != client));
}

#[test]
fn library_without_relative_path_is_skipped() {
    let mut package = sample_package();
    package.libraries.push(lib("org.c:c:3", art(None, "http://h/c.jar", "h3", 7)));
    let (resolved, warnings) = resolve(package, sample_assets(HASH_B), OsKind::Linux);
    assert!(warnings.is_empty());
    let reqs = collect(&app(), &resolved, &DiskState::new(), false);
    assert_eq!(reqs.len(), 5, "the pathless library cannot be placed and is skipped");
}

#[test]
fn unresolvable_library_is_a_warning_not_an_error() {
    let mut package = sample_package();
    package.libraries.push(Library {
        name: "org.ghost:g:1".into(),
        downloads: Download { artifact: None, classifiers: None },
    });
    let (resolved, warnings) = resolve(package, sample_assets(HASH_B), OsKind::Linux);
    assert_eq!(warnings, vec!["org.ghost:g:1".to_string()]);
    assert_eq!(resolved.artifacts.len(), 2);
}

#[test]
fn lax_entry_point_uses_size_only() {
    let resolved = sample_resolved(HASH_B);
    let a = app();
    let mut disk = DiskState::new();
    disk.record("/r/clients/1.19/client.jar".to_string(), 5_000_000, Some("bad".to_string()));
    let reqs = file_to_download_for_version(&a, &resolved, &disk);
    assert!(reqs.iter().all(|r| r.path != "/r/clients/1.19/client.jar"));
}
