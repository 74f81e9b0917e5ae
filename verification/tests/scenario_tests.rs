//! End-to-end run: one client jar, two libraries, two assets, an empty
//! disk, and a stub transport that always succeeds.

use minecraft_auth::collect::{collect, DiskState};
use minecraft_auth::data::asset::{Asset, AssetIndex, Assets};
use minecraft_auth::data::download::{Artifact, Download};
use minecraft_auth::data::java::JavaVersion;
use minecraft_auth::data::library::Library;
use minecraft_auth::data::package::{Downloads, Package};
use minecraft_auth::downloader::{Downloader, TaskStatus};
use minecraft_auth::native::OsKind;
use minecraft_auth::version::resolve;
use minecraft_auth::MinecraftAuth;

#[test]
fn full_run_completes_every_requirement() {
    let package = Package {
        asset_index: AssetIndex {
            id: "3".into(),
            sha1: "x".into(),
            size: 11,
            total_size: 30,
            url: "http://h/idx.json".into(),
        },
        assets: "3".into(),
        compliance_level: 1,
        downloads: Downloads {
            client: Artifact {
                path: None,
                sha1: "c1".into(),
                size: 5_000_000,
                url: "http://h/client.jar".into(),
            },
            server: Artifact { path: None, sha1: "s1".into(), size: 4, url: "http://h/server.jar".into() },
        },
        id: "1.19".into(),
        java_version: JavaVersion { component: "gamma".into(), major_version: 17 },
        libraries: vec![
            Library {
                name: "org.a:a:1".into(),
                downloads: Download {
                    artifact: Some(Artifact {
                        path: Some("org/a/a.jar".into()),
                        sha1: "h1".into(),
                        size: 120_000,
                        url: "http://h/a.jar".into(),
                    }),
                    classifiers: None,
                },
            },
            Library {
                name: "org.b:b:2".into(),
                downloads: Download {
                    artifact: Some(Artifact {
                        path: Some("org/b/b.jar".into()),
                        sha1: "h2".into(),
                        size: 45_000,
                        url: "http://h/b.jar".into(),
                    }),
                    classifiers: None,
                },
            },
        ],
        main_class: "Main".into(),
        t: "release".into(),
    };
    let assets = Assets {
        objects: vec![
            (
                "icons/a.png".to_string(),
                Asset { hash: "aa00000000000000000000000000000000000000".into(), size: 10 },
            ),
            (
                "icons/b.png".to_string(),
                Asset { hash: "bb00000000000000000000000000000000000000".into(), size: 20 },
            ),
        ],
    };

    let app = MinecraftAuth::new("launcher".to_string(), "/r".to_string());
    let (resolved, warnings) = resolve(package, assets, OsKind::Linux);
    assert!(warnings.is_empty());

    let reqs = collect(&app, &resolved, &DiskState::new(), false);
    assert_eq!(reqs.len(), 5, "client + two libraries + two assets");

    let expected_sizes: Vec<u64> = reqs.iter().map(|r| r.size).collect();
    let mut d = Downloader::new(4);
    d.submit(&reqs);

    // A stub transport that always succeeds: every started task receives
    // exactly its expected bytes and then finishes.
    loop {
        let mut made_progress = false;
        while let Some(id) = d.start_next() {
            made_progress = true;
            let size = expected_sizes[id as usize];
            d.record_chunk(id, size);
            assert_eq!(d.complete(id, None), Some(TaskStatus::Completed));
        }
        if !made_progress {
            break;
        }
    }

    let mut terminal_completed = 0;
    for id in 0..5u64 {
        match d.status_of(id).unwrap() {
            TaskStatus::Completed => terminal_completed += 1,
            other => panic!("task {} should be completed, is {:?}", id, other),
        }
    }
    assert_eq!(terminal_completed, 5);

    // Each terminal event carries a task that transferred its full size.
    let mut completed_events = 0;
    while let Some(e) = d.poll_event() {
        if matches!(e.status, TaskStatus::Completed) {
            completed_events += 1;
        }
    }
    assert_eq!(completed_events, 5, "five completed terminal events");
}
