use minecraft_auth::downloader::{just_path, total_size, FileInfo};
use minecraft_auth::native::{os_native_name, OsKind};
use minecraft_auth::util::{i32_to_string, join2, join3, u64_to_string};

#[test]
fn decimal_rendering_of_zero_and_digits() {
    assert_eq!(u64_to_string(0), "0");
    assert_eq!(u64_to_string(7), "7");
}

#[test]
fn decimal_rendering_of_larger_numbers() {
    assert_eq!(u64_to_string(12345), "12345");
    assert_eq!(u64_to_string(1024), "1024");
    assert_eq!(u64_to_string(u64::MAX), "18446744073709551615");
}

#[test]
fn signed_rendering() {
    assert_eq!(i32_to_string(512), "512");
    assert_eq!(i32_to_string(-42), "-42");
    assert_eq!(i32_to_string(0), "0");
    assert_eq!(i32_to_string(i32::MIN), "-2147483648");
}

#[test]
fn join_concatenates() {
    assert_eq!(join2("a", "b"), "ab");
    assert_eq!(join3("a/", "b/", "c"), "a/b/c");
}

#[test]
fn just_path_strips_file_name() {
    assert_eq!(just_path("a/b/c.txt"), "a/b/");
    assert_eq!(just_path("c.txt"), "");
    assert_eq!(just_path("/root/x"), "/root/");
    assert_eq!(just_path("dir/"), "dir/");
}

#[test]
fn total_size_sums_and_saturates() {
    let reqs = vec![
        FileInfo::new("u1".into(), "p1".into(), 10),
        FileInfo::new("u2".into(), "p2".into(), 32),
    ];
    assert_eq!(total_size(&reqs), 42);
    let big = vec![
        FileInfo::new("u1".into(), "p1".into(), u64::MAX),
        FileInfo::new("u2".into(), "p2".into(), 1),
    ];
    assert_eq!(total_size(&big), u64::MAX);
    assert_eq!(total_size(&Vec::new()), 0);
}

#[test]
fn native_names_per_platform() {
    assert_eq!(os_native_name(OsKind::Linux), "natives-linux");
    assert_eq!(os_native_name(OsKind::Windows), "natives-windows");
    assert_eq!(os_native_name(OsKind::MacOs), "natives-osx");
}
