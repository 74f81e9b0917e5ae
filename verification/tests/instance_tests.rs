use minecraft_auth::client::Client;
use minecraft_auth::data::asset::AssetIndex;
use minecraft_auth::error::Error;
use minecraft_auth::data::download::{Artifact, Download};
use minecraft_auth::data::java::JavaVersion;
use minecraft_auth::data::library::Library;
use minecraft_auth::data::package::{Downloads, Package};
use minecraft_auth::instance::{
    get_all_libs_of_version, parse_config_line, Config, DataParam, Instance, Param,
};
use minecraft_auth::native::OsKind;
use minecraft_auth::user::User;
use minecraft_auth::MinecraftAuth;

fn app() -> MinecraftAuth {
    MinecraftAuth::new("launcher".to_string(), "/r".to_string())
}

fn sample_package() -> Package {
    Package {
        asset_index: AssetIndex {
            id: "3".into(),
            sha1: "x".into(),
            size: 1,
            total_size: 2,
            url: "u".into(),
        },
        assets: "3".into(),
        compliance_level: 1,
        downloads: Downloads {
            client: Artifact { path: None, sha1: "c".into(), size: 1, url: "uc".into() },
            server: Artifact { path: None, sha1: "s".into(), size: 1, url: "us".into() },
        },
        id: "1.19".into(),
        java_version: JavaVersion { component: "gamma".into(), major_version: 17 },
        libraries: vec![
            Library {
                name: "org.a:a:1".into(),
                downloads: Download {
                    artifact: Some(Artifact {
                        path: Some("org/a/a.jar".into()),
                        sha1: "h1".into(),
                        size: 1,
                        url: "ua".into(),
                    }),
                    classifiers: None,
                },
            },
        ],
        main_class: "Main".into(),
        t: "release".into(),
    }
}

#[test]
fn data_param_truthiness() {
    assert!(DataParam::Int(1).is_true());
    assert!(!DataParam::Int(0).is_true());
    assert!(!DataParam::Int(-3).is_true());
    assert!(DataParam::Str("true".to_string()).is_true());
    assert!(!DataParam::Str("false".to_string()).is_true());
    assert!(!DataParam::Empty.is_true());
}

#[test]
fn data_param_accessors() {
    assert_eq!(DataParam::Int(7).as_int(), Some(7));
    assert_eq!(DataParam::Str("x".into()).as_int(), None);
    assert_eq!(DataParam::Str("x".into()).as_string(), Some("x".to_string()));
    assert_eq!(DataParam::Empty.as_string(), None);
    assert_eq!(DataParam::Int(-5).render(), "-5");
    assert_eq!(DataParam::Str("v".into()).render(), "v");
    assert_eq!(DataParam::Empty.render(), "");
}

#[test]
fn params_insert_lookup_update() {
    let mut i = Instance::empty(true);
    assert!(matches!(i.param("version"), DataParam::Empty));
    let old = i.add_param("version", Param::new(DataParam::Str("1.19".into()), true));
    assert!(old.is_none());
    assert_eq!(i.param("version").as_string(), Some("1.19".to_string()));
    let old = i.add_param("version", Param::new(DataParam::Str("1.20".into()), true));
    assert_eq!(old.unwrap().data.as_string(), Some("1.19".to_string()));
    assert!(i.update_param("version", DataParam::Str("1.20.1".into())).is_some());
    assert_eq!(i.param("version").as_string(), Some("1.20.1".to_string()));
    assert!(i.update_param("missing", DataParam::Int(1)).is_none());
}

#[test]
fn classpath_of_a_version() {
    let cp = get_all_libs_of_version(&app(), &sample_package(), "1.19", OsKind::Linux);
    assert_eq!(cp, "/r/libraries/org/a/a.jar:/r/clients/1.19/client.jar");
    let cp_win = get_all_libs_of_version(&app(), &sample_package(), "1.19", OsKind::Windows);
    assert_eq!(cp_win, "/r/libraries/org/a/a.jar;/r/clients/1.19/client.jar");
}

#[test]
fn init_fills_derived_params() {
    let mut i = Instance::empty(true);
    i.add_param("version", Param::new(DataParam::Str("1.19".into()), true));
    i.end_init_instance(&app(), &sample_package(), "home", "1.19", OsKind::Linux);
    assert_eq!(i.param("name").as_string(), Some("home".to_string()));
    assert_eq!(i.param("path").as_string(), Some("/r/instances/home".to_string()));
    assert_eq!(i.param("gameDir").as_string(), Some("/r/instances/home/.minecraft".to_string()));
    assert_eq!(i.param("nativeDir").as_string(), Some("/r/instances/home/natives".to_string()));
    assert_eq!(i.param("assetsDir").as_string(), Some("/r/assets".to_string()));
    assert_eq!(i.param("javaVersion").as_int(), Some(17));
    assert_eq!(i.param("assetIndex").as_string(), Some("3".to_string()));
    assert_eq!(i.param("versionType").as_string(), Some("release".to_string()));
    assert_eq!(i.param("mainClass").as_string(), Some("Main".to_string()));
    assert_eq!(
        i.param("libs").as_string(),
        Some("/r/libraries/org/a/a.jar:/r/clients/1.19/client.jar".to_string())
    );
}

#[test]
fn forge_redirects_launch_params() {
    let mut i = Instance::empty(true);
    i.add_param("version", Param::new(DataParam::Str("1.12".into()), true));
    i.end_init_instance(&app(), &sample_package(), "forgey", "1.12", OsKind::Linux);
    i.install_forge().unwrap();
    assert!(i.param("useForge").is_true());
    assert_eq!(i.param("versionType").as_string(), Some("Forge".to_string()));
    assert_eq!(
        i.param("mainClass").as_string(),
        Some("net.minecraft.launchwrapper.Launch".to_string())
    );
    assert_eq!(
        i.param("tweakClass").as_string(),
        Some("net.minecraftforge.fml.common.launcher.FMLTweaker".to_string())
    );
}

#[test]
fn args_lists_the_launch_arguments() {
    let mut i = Instance::empty(true);
    i.add_param("ramMin", Param::new(DataParam::Int(512), true));
    i.add_param("ramMax", Param::new(DataParam::Int(1024), true));
    i.add_param("windowWidth", Param::new(DataParam::Int(800), true));
    i.add_param("windowHeight", Param::new(DataParam::Int(600), true));
    i.add_param("version", Param::new(DataParam::Str("1.19".into()), true));
    i.end_init_instance(&app(), &sample_package(), "home", "1.19", OsKind::Linux);
    let user = User::new("alice".into(), "uuid-1".into(), "ct".into(), "at".into());
    let args = i.args(&app(), &user);
    assert_eq!(args[0], "-Xms512m");
    assert_eq!(args[1], "-Xmx1024m");
    assert!(args.contains(&"-cp".to_string()));
    assert!(args.contains(&"/r/libraries/org/a/a.jar:/r/clients/1.19/client.jar".to_string()));
    let u = args.iter().position(|a| a == "--username").unwrap();
    assert_eq!(args[u + 1], "alice");
    let t = args.iter().position(|a| a == "--accessToken").unwrap();
    assert_eq!(args[t + 1], "at");
    assert!(!args.contains(&"--tweakClass".to_string()));

    i.install_forge().unwrap();
    let args2 = i.args(&app(), &user);
    let k = args2.iter().position(|a| a == "--tweakClass").unwrap();
    assert_eq!(args2[k + 1], "net.minecraftforge.fml.common.launcher.FMLTweaker");
}

#[test]
fn config_round_trip() {
    let mut i = Instance::empty(true);
    i.add_param("version", Param::new(DataParam::Str("1.19".into()), true));
    i.add_param("ramMin", Param::new(DataParam::Int(512), true));
    i.add_param("secret", Param::new(DataParam::Str("hidden".into()), false));
    let text = i.config_to_string();
    assert_eq!(text, "version=1.19\nramMin=512\n");
    for line in text.lines() {
        let (name, value) = parse_config_line(line).unwrap();
        assert_eq!(i.param(&name).render(), value);
    }
    assert_eq!(parse_config_line("no separator"), None);
    assert_eq!(
        parse_config_line("a=b=c"),
        Some(("a".to_string(), "b=c".to_string()))
    );
}

#[test]
fn client_and_config_defaults() {
    let c = Client::default();
    assert_eq!(c.ram_min, 512);
    assert_eq!(c.ram_max, 1024);
    assert_eq!(c.window_width, 854);
    assert_eq!(c.window_height, 480);
    assert_eq!(c.current_language, "en");
    let c2 = Client::new(1, 2, 3, 4, "fr".into());
    assert_eq!(c2.window_height, 4);

    let cfg = Config::default();
    assert_eq!((cfg.ram_min, cfg.ram_max, cfg.window_width, cfg.window_height), (512, 1024, 800, 600));
    let cfg2 = Config::new(1, 2, 3, 4);
    assert_eq!((cfg2.ram_min, cfg2.ram_max, cfg2.window_width, cfg2.window_height), (1, 2, 3, 4));
}

#[test]
fn error_categories() {
    assert_eq!(Error::NetworkError("x".into()).category(), "network error");
    assert_eq!(Error::MalformedManifest("x".into()).category(), "malformed manifest");
    assert_eq!(Error::FilesystemError("x".into()).category(), "filesystem error");
    assert_eq!(Error::IntegrityMismatch.category(), "integrity mismatch");
    assert_eq!(Error::Timeout.category(), "timeout");
    assert_eq!(Error::VersionNotFound("x".into()).category(), "version not found");
    assert_eq!(Error::LibraryUnresolvable("x".into()).category(), "library unresolvable");
}

#[test]
fn user_and_auth_roots() {
    let u = User::new("a".into(), "b".into(), "c".into(), "d".into());
    assert_eq!((u.username.as_str(), u.uuid.as_str()), ("a", "b"));
    let m = MinecraftAuth::new("name".into(), "/p".into());
    assert_eq!((m.name.as_str(), m.path.as_str()), ("name", "/p"));
}
