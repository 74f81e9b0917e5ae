//! The manifest grammar: what shape each JSON manifest must have, and the
//! verified readers that turn a parsed document into the typed entities of
//! [`crate::data`]. A document that lacks a required field, or holds one of
//! the wrong kind, is a malformed manifest.

use vstd::prelude::*;
use vstd::string::StrSliceExecFns;
use crate::data::asset::{Asset, AssetIndex, Assets};
use crate::data::download::{Artifact, Classifier, Download};
use crate::data::java::JavaVersion;
use crate::data::library::Library;
use crate::data::package::{Downloads, Package};
use crate::data::version::{Latest, ManifestVersion, Version};
use crate::error::Error;
use crate::json::{
    json_as_array, json_as_str, json_as_u64, json_entries, json_get, json_is_object, json_model,
    num_val, str_val, JsonVal,
};

verus! {

/// The members of a JSON value, when it is an object.
pub open spec fn obj_of(j: JsonVal) -> Map<Seq<char>, JsonVal>
    recommends
        j is Obj,
{
    match j {
        JsonVal::Obj(m) => m,
        _ => Map::empty(),
    }
}

/// The object has a string member under this key.
pub open spec fn obj_has_str(m: Map<Seq<char>, JsonVal>, k: Seq<char>) -> bool {
    m.contains_key(k) && m[k] is Str
}

/// The object has a numeric member under this key, representable as `u64`.
pub open spec fn obj_has_num(m: Map<Seq<char>, JsonVal>, k: Seq<char>) -> bool {
    m.contains_key(k) && num_val(m[k]) is Some
}

fn malformed(what: &str) -> (r: Error)
    ensures
        r is MalformedManifest,
{
    Error::MalformedManifest(what.to_owned())
}

/// Reads a required string member.
fn get_str(v: &serde_json::Value, key: &str) -> (r: Result<String, Error>)
    ensures
        r matches Ok(s) ==> json_model(*v) is Obj && obj_has_str(obj_of(json_model(*v)), key@)
            && s@ == str_val(obj_of(json_model(*v))[key@]),
        r is Err <==> !(json_model(*v) is Obj && obj_has_str(obj_of(json_model(*v)), key@)),
        r matches Err(e) ==> e is MalformedManifest,
{
    match json_get(v, key) {
        Some(x) => match json_as_str(x) {
            Some(s) => Ok(s.to_owned()),
            None => Err(malformed(key)),
        },
        None => Err(malformed(key)),
    }
}

/// Reads a required numeric member.
fn get_u64(v: &serde_json::Value, key: &str) -> (r: Result<u64, Error>)
    ensures
        r matches Ok(n) ==> json_model(*v) is Obj && obj_has_num(obj_of(json_model(*v)), key@)
            && Some(n) == num_val(obj_of(json_model(*v))[key@]),
        r is Err <==> !(json_model(*v) is Obj && obj_has_num(obj_of(json_model(*v)), key@)),
        r matches Err(e) ==> e is MalformedManifest,
{
    match json_get(v, key) {
        Some(x) => match json_as_u64(x) {
            Some(n) => Ok(n),
            None => Err(malformed(key)),
        },
        None => Err(malformed(key)),
    }
}

/// An artifact record: `url`, `sha1` and `size` are required; `path` is
/// optional but must be a string when present.
pub open spec fn artifact_ok(j: JsonVal) -> bool {
    &&& j is Obj
    &&& obj_has_str(obj_of(j), "url"@)
    &&& obj_has_str(obj_of(j), "sha1"@)
    &&& obj_has_num(obj_of(j), "size"@)
    &&& (obj_of(j).contains_key("path"@) ==> obj_of(j)["path"@] is Str)
}

/// The typed artifact a well-shaped artifact record denotes.
pub open spec fn artifact_rel(j: JsonVal, a: Artifact) -> bool {
    &&& artifact_ok(j)
    &&& a.url@ == str_val(obj_of(j)["url"@])
    &&& a.sha1@ == str_val(obj_of(j)["sha1"@])
    &&& Some(a.size) == num_val(obj_of(j)["size"@])
    &&& (obj_of(j).contains_key("path"@) ==> (a.path matches Some(p) && p@ == str_val(
        obj_of(j)["path"@],
    )))
    &&& (!obj_of(j).contains_key("path"@) ==> a.path is None)
}

pub fn parse_artifact(v: &serde_json::Value) -> (r: Result<Artifact, Error>)
    ensures
        r matches Ok(a) ==> artifact_rel(json_model(*v), a),
        r is Err <==> !artifact_ok(json_model(*v)),
        r matches Err(e) ==> e is MalformedManifest,
{
    let url = match get_str(v, "url") {
        Ok(s) => s,
        Err(e) => return Err(e),
    };
    let sha1 = match get_str(v, "sha1") {
        Ok(s) => s,
        Err(e) => return Err(e),
    };
    let size = match get_u64(v, "size") {
        Ok(n) => n,
        Err(e) => return Err(e),
    };
    let path = match json_get(v, "path") {
        Some(x) => match json_as_str(x) {
            Some(s) => Some(s.to_owned()),
            None => return Err(malformed("path")),
        },
        None => None,
    };
    Ok(Artifact { path, sha1, size, url })
}

/// A list of named artifact records: distinct names, each entry a
/// well-formed artifact, and together covering every member of `m`.
pub open spec fn artifact_entries_rel(
    m: Map<Seq<char>, JsonVal>,
    es: Seq<(String, Artifact)>,
) -> bool {
    &&& forall|i: int, j: int|
        0 <= i < j < es.len() ==> (#[trigger] es[i].0)@ != (#[trigger] es[j].0)@
    &&& forall|i: int|
        0 <= i < es.len() ==> m.contains_key((#[trigger] es[i].0)@) && artifact_rel(
            m[es[i].0@],
            es[i].1,
        )
    &&& forall|k: Seq<char>|
        #[trigger] m.contains_key(k) ==> exists|i: int| 0 <= i < es.len() && (#[trigger] es[i].0)@
            == k
}

/// A classifier member: either itself an artifact record, or an object
/// whose every member is one.
pub open spec fn classifier_ok(j: JsonVal) -> bool {
    ||| artifact_ok(j)
    ||| (j is Obj && forall|k: Seq<char>|
        #[trigger] obj_of(j).contains_key(k) ==> artifact_ok(obj_of(j)[k]))
}

/// The typed classifier a well-shaped classifier member denotes. An
/// artifact-shaped member is the simple form; any other object maps
/// platform keys to artifacts.
pub open spec fn classifier_rel(j: JsonVal, c: Classifier) -> bool {
    if artifact_ok(j) {
        c matches Classifier::Simple(a) && artifact_rel(j, a)
    } else {
        j is Obj && (c matches Classifier::Complex(es) && artifact_entries_rel(obj_of(j), es@))
    }
}

pub fn parse_classifier(v: &serde_json::Value) -> (r: Result<Classifier, Error>)
    ensures
        r matches Ok(c) ==> classifier_rel(json_model(*v), c),
        r is Err <==> !classifier_ok(json_model(*v)),
        r matches Err(e) ==> e is MalformedManifest,
{
    match parse_artifact(v) {
        Ok(a) => Ok(Classifier::Simple(a)),
        Err(_) => {
            let entries = match json_entries(v) {
                Some(es) => es,
                None => return Err(malformed("classifiers")),
            };
            let mut out: Vec<(String, Artifact)> = Vec::new();
            let mut i: usize = 0;
            while i < entries.len()
                invariant
                    i <= entries.len(),
                    out@.len() == i,
                    json_model(*v) is Obj,
                    !artifact_ok(json_model(*v)),
                    forall|k: int, l: int|
                        0 <= k < l < entries@.len() ==> (#[trigger] entries@[k].0)@ != (
                        #[trigger] entries@[l].0)@,
                    forall|k: int|
                        0 <= k < entries@.len() ==> obj_of(json_model(*v)).contains_key(
                            (#[trigger] entries@[k].0)@,
                        ) && json_model(entries@[k].1) == obj_of(json_model(*v))[entries@[k].0@],
                    forall|k: Seq<char>|
                        #[trigger] obj_of(json_model(*v)).contains_key(k) ==> exists|l: int|
                            0 <= l < entries@.len() && (#[trigger] entries@[l].0)@ == k,
                    forall|k: int|
                        0 <= k < i ==> (#[trigger] out@[k].0)@ == entries@[k].0@ && artifact_rel(
                            obj_of(json_model(*v))[entries@[k].0@],
                            out@[k].1,
                        ),
                decreases entries.len() - i,
            {
                let name = entries[i].0.clone();
                let art = match parse_artifact(&entries[i].1) {
                    Ok(a) => a,
                    Err(e) => {
                        proof {
                            let gm = obj_of(json_model(*v));
                            assert(gm.contains_key((entries@[i as int].0)@));
                            assert(!artifact_ok(gm[(entries@[i as int].0)@]));
                        }
                        return Err(e);
                    },
                };
                out.push((name, art));
                i += 1;
            }
            proof {
                let gm = obj_of(json_model(*v));
                assert forall|k: int, l: int| 0 <= k < l < out@.len() implies (#[trigger] out@[k].0)@
                    != (#[trigger] out@[l].0)@ by {
                    assert((entries@[k].0)@ != (entries@[l].0)@);
                }
                assert forall|k: int| 0 <= k < out@.len() implies gm.contains_key(
                    (#[trigger] out@[k].0)@,
                ) && artifact_rel(gm[out@[k].0@], out@[k].1) by {
                    assert((out@[k].0)@ == (entries@[k].0)@);
                }
                assert forall|k: Seq<char>| #[trigger] gm.contains_key(k) implies exists|l: int|
                    0 <= l < out@.len() && (#[trigger] out@[l].0)@ == k by {
                    let l = choose|l: int|
                        0 <= l < entries@.len() && (#[trigger] entries@[l].0)@ == k;
                    assert(0 <= l < out@.len() && (out@[l].0)@ == k);
                }
                assert(artifact_entries_rel(gm, out@));
            }
            Ok(Classifier::Complex(out))
        },
    }
}

/// A `downloads` member of a library: `artifact` and `classifiers` are both
/// optional, but must be well-shaped when present.
pub open spec fn download_ok(j: JsonVal) -> bool {
    &&& j is Obj
    &&& (obj_of(j).contains_key("artifact"@) ==> artifact_ok(obj_of(j)["artifact"@]))
    &&& (obj_of(j).contains_key("classifiers"@) ==> classifier_ok(obj_of(j)["classifiers"@]))
}

/// The typed download record a well-shaped `downloads` member denotes.
pub open spec fn download_rel(j: JsonVal, d: Download) -> bool {
    &&& download_ok(j)
    &&& (obj_of(j).contains_key("artifact"@) ==> (d.artifact matches Some(a) && artifact_rel(
        obj_of(j)["artifact"@],
        a,
    )))
    &&& (!obj_of(j).contains_key("artifact"@) ==> d.artifact is None)
    &&& (obj_of(j).contains_key("classifiers"@) ==> (d.classifiers matches Some(c)
        && classifier_rel(obj_of(j)["classifiers"@], c)))
    &&& (!obj_of(j).contains_key("classifiers"@) ==> d.classifiers is None)
}

pub fn parse_download(v: &serde_json::Value) -> (r: Result<Download, Error>)
    ensures
        r matches Ok(d) ==> download_rel(json_model(*v), d),
        r is Err <==> !download_ok(json_model(*v)),
        r matches Err(e) ==> e is MalformedManifest,
{
    if !json_is_object(v) {
        return Err(malformed("downloads"));
    }
    let artifact = match json_get(v, "artifact") {
        Some(x) => match parse_artifact(x) {
            Ok(a) => Some(a),
            Err(e) => return Err(e),
        },
        None => None,
    };
    let classifiers = match json_get(v, "classifiers") {
        Some(x) => match parse_classifier(x) {
            Ok(c) => Some(c),
            Err(e) => return Err(e),
        },
        None => None,
    };
    Ok(Download { artifact, classifiers })
}

/// A library entry: a `name` string and a `downloads` record.
pub open spec fn library_ok(j: JsonVal) -> bool {
    &&& j is Obj
    &&& obj_has_str(obj_of(j), "name"@)
    &&& obj_of(j).contains_key("downloads"@)
    &&& download_ok(obj_of(j)["downloads"@])
}

/// The typed library a well-shaped library entry denotes.
pub open spec fn library_rel(j: JsonVal, l: Library) -> bool {
    &&& library_ok(j)
    &&& l.name@ == str_val(obj_of(j)["name"@])
    &&& download_rel(obj_of(j)["downloads"@], l.downloads)
}

pub fn parse_library(v: &serde_json::Value) -> (r: Result<Library, Error>)
    ensures
        r matches Ok(l) ==> library_rel(json_model(*v), l),
        r is Err <==> !library_ok(json_model(*v)),
        r matches Err(e) ==> e is MalformedManifest,
{
    let name = match get_str(v, "name") {
        Ok(s) => s,
        Err(e) => return Err(e),
    };
    let downloads = match json_get(v, "downloads") {
        Some(x) => match parse_download(x) {
            Ok(d) => d,
            Err(e) => return Err(e),
        },
        None => return Err(malformed("downloads")),
    };
    Ok(Library { downloads, name })
}

/// The elements of a JSON value, when it is an array.
pub open spec fn arr_of(j: JsonVal) -> Seq<JsonVal>
    recommends
        j is Arr,
{
    match j {
        JsonVal::Arr(s) => s,
        _ => Seq::empty(),
    }
}

/// A catalog entry: `id`, `type` and `url` strings.
pub open spec fn version_ok(j: JsonVal) -> bool {
    &&& j is Obj
    &&& obj_has_str(obj_of(j), "id"@)
    &&& obj_has_str(obj_of(j), "type"@)
    &&& obj_has_str(obj_of(j), "url"@)
}

/// The typed catalog entry a well-shaped one denotes.
pub open spec fn version_rel(j: JsonVal, v: Version) -> bool {
    &&& version_ok(j)
    &&& v.id@ == str_val(obj_of(j)["id"@])
    &&& v.t@ == str_val(obj_of(j)["type"@])
    &&& v.url@ == str_val(obj_of(j)["url"@])
}

pub fn parse_version(v: &serde_json::Value) -> (r: Result<Version, Error>)
    ensures
        r matches Ok(ver) ==> version_rel(json_model(*v), ver),
        r is Err <==> !version_ok(json_model(*v)),
        r matches Err(e) ==> e is MalformedManifest,
{
    let id = match get_str(v, "id") {
        Ok(s) => s,
        Err(e) => return Err(e),
    };
    let t = match get_str(v, "type") {
        Ok(s) => s,
        Err(e) => return Err(e),
    };
    let url = match get_str(v, "url") {
        Ok(s) => s,
        Err(e) => return Err(e),
    };
    Ok(Version { id, t, url })
}

/// The `latest` member of the catalog: `release` and `snapshot` ids.
pub open spec fn latest_ok(j: JsonVal) -> bool {
    &&& j is Obj
    &&& obj_has_str(obj_of(j), "release"@)
    &&& obj_has_str(obj_of(j), "snapshot"@)
}

/// The typed `latest` record a well-shaped one denotes.
pub open spec fn latest_rel(j: JsonVal, l: Latest) -> bool {
    &&& latest_ok(j)
    &&& l.release@ == str_val(obj_of(j)["release"@])
    &&& l.snapshot@ == str_val(obj_of(j)["snapshot"@])
}

/// The version catalog: a `latest` record and an array of entries.
pub open spec fn manifest_version_ok(j: JsonVal) -> bool {
    &&& j is Obj
    &&& obj_of(j).contains_key("latest"@)
    &&& latest_ok(obj_of(j)["latest"@])
    &&& obj_of(j).contains_key("versions"@)
    &&& obj_of(j)["versions"@] is Arr
    &&& forall|i: int|
        0 <= i < arr_of(obj_of(j)["versions"@]).len() ==> version_ok(
            #[trigger] arr_of(obj_of(j)["versions"@])[i],
        )
}

/// The typed catalog a well-shaped one denotes.
pub open spec fn manifest_version_rel(j: JsonVal, mv: ManifestVersion) -> bool {
    &&& manifest_version_ok(j)
    &&& latest_rel(obj_of(j)["latest"@], mv.latest)
    &&& mv.versions@.len() == arr_of(obj_of(j)["versions"@]).len()
    &&& forall|i: int|
        0 <= i < mv.versions@.len() ==> version_rel(
            arr_of(obj_of(j)["versions"@])[i],
            #[trigger] mv.versions@[i],
        )
}

pub fn parse_manifest_version(v: &serde_json::Value) -> (r: Result<ManifestVersion, Error>)
    ensures
        r matches Ok(mv) ==> manifest_version_rel(json_model(*v), mv),
        r is Err <==> !manifest_version_ok(json_model(*v)),
        r matches Err(e) ==> e is MalformedManifest,
{
    let latest = match json_get(v, "latest") {
        Some(x) => {
            let release = match get_str(x, "release") {
                Ok(s) => s,
                Err(e) => return Err(e),
            };
            let snapshot = match get_str(x, "snapshot") {
                Ok(s) => s,
                Err(e) => return Err(e),
            };
            Latest { release, snapshot }
        },
        None => return Err(malformed("latest")),
    };
    let arr = match json_get(v, "versions") {
        Some(x) => match json_as_array(x) {
            Some(a) => a,
            None => return Err(malformed("versions")),
        },
        None => return Err(malformed("versions")),
    };
    let ghost gs = arr_of(obj_of(json_model(*v))["versions"@]);
    let mut versions: Vec<Version> = Vec::new();
    let mut i: usize = 0;
    while i < arr.len()
        invariant
            i <= arr.len(),
            versions@.len() == i,
            json_model(*v) is Obj,
            obj_of(json_model(*v)).contains_key("versions"@),
            gs == arr_of(obj_of(json_model(*v))["versions"@]),
            arr@.len() == gs.len(),
            forall|k: int| 0 <= k < gs.len() ==> #[trigger] json_model(arr@[k]) == gs[k],
            forall|k: int| 0 <= k < i ==> version_rel(gs[k], #[trigger] versions@[k]),
        decreases arr.len() - i,
    {
        let ver = match parse_version(&arr[i]) {
            Ok(x) => x,
            Err(e) => {
                proof {
                    assert(json_model(arr@[i as int]) == gs[i as int]);
                    assert(!version_ok(arr_of(obj_of(json_model(*v))["versions"@])[i as int]));
                }
                return Err(e);
            },
        };
        versions.push(ver);
        i += 1;
    }
    proof {
        let garr = arr_of(obj_of(json_model(*v))["versions"@]);
        assert forall|k: int| 0 <= k < versions@.len() implies version_rel(
            garr[k],
            #[trigger] versions@[k],
        ) by {
            assert(version_rel(gs[k], versions@[k]));
        }
        assert forall|k: int| 0 <= k < garr.len() implies version_ok(#[trigger] garr[k]) by {
            assert(version_rel(gs[k], versions@[k]));
        }
    }
    Ok(ManifestVersion { latest, versions })
}

/// An asset-index reference: `id`, `sha1` and `url` strings, `size` and
/// `totalSize` numbers.
pub open spec fn asset_index_ok(j: JsonVal) -> bool {
    &&& j is Obj
    &&& obj_has_str(obj_of(j), "id"@)
    &&& obj_has_str(obj_of(j), "sha1"@)
    &&& obj_has_num(obj_of(j), "size"@)
    &&& obj_has_num(obj_of(j), "totalSize"@)
    &&& obj_has_str(obj_of(j), "url"@)
}

/// The typed asset-index reference a well-shaped one denotes.
pub open spec fn asset_index_rel(j: JsonVal, a: AssetIndex) -> bool {
    &&& asset_index_ok(j)
    &&& a.id@ == str_val(obj_of(j)["id"@])
    &&& a.sha1@ == str_val(obj_of(j)["sha1"@])
    &&& Some(a.size) == num_val(obj_of(j)["size"@])
    &&& Some(a.total_size) == num_val(obj_of(j)["totalSize"@])
    &&& a.url@ == str_val(obj_of(j)["url"@])
}

pub fn parse_asset_index(v: &serde_json::Value) -> (r: Result<AssetIndex, Error>)
    ensures
        r matches Ok(a) ==> asset_index_rel(json_model(*v), a),
        r is Err <==> !asset_index_ok(json_model(*v)),
        r matches Err(e) ==> e is MalformedManifest,
{
    let id = match get_str(v, "id") {
        Ok(s) => s,
        Err(e) => return Err(e),
    };
    let sha1 = match get_str(v, "sha1") {
        Ok(s) => s,
        Err(e) => return Err(e),
    };
    let size = match get_u64(v, "size") {
        Ok(n) => n,
        Err(e) => return Err(e),
    };
    let total_size = match get_u64(v, "totalSize") {
        Ok(n) => n,
        Err(e) => return Err(e),
    };
    let url = match get_str(v, "url") {
        Ok(s) => s,
        Err(e) => return Err(e),
    };
    Ok(AssetIndex { id, sha1, size, total_size, url })
}

/// A Java requirement: a `component` string and a `majorVersion` number
/// small enough for an `i32`.
pub open spec fn java_version_ok(j: JsonVal) -> bool {
    &&& j is Obj
    &&& obj_has_str(obj_of(j), "component"@)
    &&& obj_has_num(obj_of(j), "majorVersion"@)
    &&& num_val(obj_of(j)["majorVersion"@]) matches Some(n) && n <= i32::MAX
}

/// The typed Java requirement a well-shaped one denotes.
pub open spec fn java_version_rel(j: JsonVal, jv: JavaVersion) -> bool {
    &&& java_version_ok(j)
    &&& jv.component@ == str_val(obj_of(j)["component"@])
    &&& jv.major_version >= 0
    &&& Some(jv.major_version as u64) == num_val(obj_of(j)["majorVersion"@])
}

pub fn parse_java_version(v: &serde_json::Value) -> (r: Result<JavaVersion, Error>)
    ensures
        r matches Ok(jv) ==> java_version_rel(json_model(*v), jv),
        r is Err <==> !java_version_ok(json_model(*v)),
        r matches Err(e) ==> e is MalformedManifest,
{
    let component = match get_str(v, "component") {
        Ok(s) => s,
        Err(e) => return Err(e),
    };
    let n = match get_u64(v, "majorVersion") {
        Ok(n) => n,
        Err(e) => return Err(e),
    };
    if n > i32::MAX as u64 {
        return Err(malformed("majorVersion"));
    }
    Ok(JavaVersion { component, major_version: n as i32 })
}

/// The `downloads` member of a package: client and server artifacts.
pub open spec fn downloads_ok(j: JsonVal) -> bool {
    &&& j is Obj
    &&& obj_of(j).contains_key("client"@)
    &&& artifact_ok(obj_of(j)["client"@])
    &&& obj_of(j).contains_key("server"@)
    &&& artifact_ok(obj_of(j)["server"@])
}

/// The typed package downloads a well-shaped member denotes.
pub open spec fn downloads_rel(j: JsonVal, d: Downloads) -> bool {
    &&& downloads_ok(j)
    &&& artifact_rel(obj_of(j)["client"@], d.client)
    &&& artifact_rel(obj_of(j)["server"@], d.server)
}

pub fn parse_downloads(v: &serde_json::Value) -> (r: Result<Downloads, Error>)
    ensures
        r matches Ok(d) ==> downloads_rel(json_model(*v), d),
        r is Err <==> !downloads_ok(json_model(*v)),
        r matches Err(e) ==> e is MalformedManifest,
{
    let client = match json_get(v, "client") {
        Some(x) => match parse_artifact(x) {
            Ok(a) => a,
            Err(e) => return Err(e),
        },
        None => return Err(malformed("client")),
    };
    let server = match json_get(v, "server") {
        Some(x) => match parse_artifact(x) {
            Ok(a) => a,
            Err(e) => return Err(e),
        },
        None => return Err(malformed("server")),
    };
    Ok(Downloads { client, server })
}

/// A package descriptor: id, asset references, downloads, the Java
/// requirement, the library list, and its main class and release kind.
pub open spec fn package_ok(j: JsonVal) -> bool {
    &&& j is Obj
    &&& obj_of(j).contains_key("assetIndex"@)
    &&& asset_index_ok(obj_of(j)["assetIndex"@])
    &&& obj_has_str(obj_of(j), "assets"@)
    &&& obj_has_num(obj_of(j), "complianceLevel"@)
    &&& num_val(obj_of(j)["complianceLevel"@]) matches Some(n) && n <= i32::MAX
    &&& obj_of(j).contains_key("downloads"@)
    &&& downloads_ok(obj_of(j)["downloads"@])
    &&& obj_has_str(obj_of(j), "id"@)
    &&& obj_of(j).contains_key("javaVersion"@)
    &&& java_version_ok(obj_of(j)["javaVersion"@])
    &&& obj_of(j).contains_key("libraries"@)
    &&& obj_of(j)["libraries"@] is Arr
    &&& (forall|i: int|
        0 <= i < arr_of(obj_of(j)["libraries"@]).len() ==> library_ok(
            #[trigger] arr_of(obj_of(j)["libraries"@])[i],
        ))
    &&& obj_has_str(obj_of(j), "mainClass"@)
    &&& obj_has_str(obj_of(j), "type"@)
}

/// The typed package descriptor a well-shaped one denotes.
pub open spec fn package_rel(j: JsonVal, p: Package) -> bool {
    &&& package_ok(j)
    &&& asset_index_rel(obj_of(j)["assetIndex"@], p.asset_index)
    &&& p.assets@ == str_val(obj_of(j)["assets"@])
    &&& p.compliance_level >= 0
    &&& Some(p.compliance_level as u64) == num_val(obj_of(j)["complianceLevel"@])
    &&& downloads_rel(obj_of(j)["downloads"@], p.downloads)
    &&& p.id@ == str_val(obj_of(j)["id"@])
    &&& java_version_rel(obj_of(j)["javaVersion"@], p.java_version)
    &&& p.libraries@.len() == arr_of(obj_of(j)["libraries"@]).len()
    &&& (forall|i: int|
        0 <= i < p.libraries@.len() ==> library_rel(
            arr_of(obj_of(j)["libraries"@])[i],
            #[trigger] p.libraries@[i],
        ))
    &&& p.main_class@ == str_val(obj_of(j)["mainClass"@])
    &&& p.t@ == str_val(obj_of(j)["type"@])
}

pub fn parse_package(v: &serde_json::Value) -> (r: Result<Package, Error>)
    ensures
        r matches Ok(p) ==> package_rel(json_model(*v), p),
        r is Err <==> !package_ok(json_model(*v)),
        r matches Err(e) ==> e is MalformedManifest,
{
    let asset_index = match json_get(v, "assetIndex") {
        Some(x) => match parse_asset_index(x) {
            Ok(a) => a,
            Err(e) => return Err(e),
        },
        None => return Err(malformed("assetIndex")),
    };
    let assets = match get_str(v, "assets") {
        Ok(s) => s,
        Err(e) => return Err(e),
    };
    let compliance = match get_u64(v, "complianceLevel") {
        Ok(n) => n,
        Err(e) => return Err(e),
    };
    if compliance > i32::MAX as u64 {
        return Err(malformed("complianceLevel"));
    }
    let downloads = match json_get(v, "downloads") {
        Some(x) => match parse_downloads(x) {
            Ok(d) => d,
            Err(e) => return Err(e),
        },
        None => return Err(malformed("downloads")),
    };
    let id = match get_str(v, "id") {
        Ok(s) => s,
        Err(e) => return Err(e),
    };
    let java_version = match json_get(v, "javaVersion") {
        Some(x) => match parse_java_version(x) {
            Ok(jv) => jv,
            Err(e) => return Err(e),
        },
        None => return Err(malformed("javaVersion")),
    };
    let arr = match json_get(v, "libraries") {
        Some(x) => match json_as_array(x) {
            Some(a) => a,
            None => return Err(malformed("libraries")),
        },
        None => return Err(malformed("libraries")),
    };
    let ghost gs = arr_of(obj_of(json_model(*v))["libraries"@]);
    let mut libraries: Vec<Library> = Vec::new();
    let mut i: usize = 0;
    while i < arr.len()
        invariant
            i <= arr.len(),
            libraries@.len() == i,
            json_model(*v) is Obj,
            obj_of(json_model(*v)).contains_key("libraries"@),
            gs == arr_of(obj_of(json_model(*v))["libraries"@]),
            arr@.len() == gs.len(),
            forall|k: int| 0 <= k < gs.len() ==> #[trigger] json_model(arr@[k]) == gs[k],
            forall|k: int| 0 <= k < i ==> library_rel(gs[k], #[trigger] libraries@[k]),
        decreases arr.len() - i,
    {
        let lib = match parse_library(&arr[i]) {
            Ok(x) => x,
            Err(e) => {
                proof {
                    assert(json_model(arr@[i as int]) == gs[i as int]);
                    assert(!library_ok(arr_of(obj_of(json_model(*v))["libraries"@])[i as int]));
                }
                return Err(e);
            },
        };
        libraries.push(lib);
        i += 1;
    }
    proof {
        let garr = arr_of(obj_of(json_model(*v))["libraries"@]);
        assert forall|k: int| 0 <= k < libraries@.len() implies library_rel(
            garr[k],
            #[trigger] libraries@[k],
        ) by {
            assert(library_rel(gs[k], libraries@[k]));
        }
        assert forall|k: int| 0 <= k < garr.len() implies library_ok(#[trigger] garr[k]) by {
            assert(library_rel(gs[k], libraries@[k]));
        }
    }
    let main_class = match get_str(v, "mainClass") {
        Ok(s) => s,
        Err(e) => return Err(e),
    };
    let t = match get_str(v, "type") {
        Ok(s) => s,
        Err(e) => return Err(e),
    };
    Ok(Package { asset_index, assets, compliance_level: compliance as i32, downloads, id, java_version, libraries, main_class, t })
}

/// One asset object: a `hash` string of at least two characters (the first
/// two form its shard directory) and a `size` number.
pub open spec fn asset_ok(j: JsonVal) -> bool {
    &&& j is Obj
    &&& obj_has_str(obj_of(j), "hash"@)
    &&& str_val(obj_of(j)["hash"@]).len() >= 2
    &&& obj_has_num(obj_of(j), "size"@)
}

/// The typed asset object a well-shaped one denotes.
pub open spec fn asset_rel(j: JsonVal, a: Asset) -> bool {
    &&& asset_ok(j)
    &&& a.hash@ == str_val(obj_of(j)["hash"@])
    &&& Some(a.size) == num_val(obj_of(j)["size"@])
}

pub fn parse_asset(v: &serde_json::Value) -> (r: Result<Asset, Error>)
    ensures
        r matches Ok(a) ==> asset_rel(json_model(*v), a),
        r is Err <==> !asset_ok(json_model(*v)),
        r matches Err(e) ==> e is MalformedManifest,
{
    let hash = match get_str(v, "hash") {
        Ok(s) => s,
        Err(e) => return Err(e),
    };
    if hash.as_str().unicode_len() < 2 {
        return Err(malformed("hash"));
    }
    let size = match get_u64(v, "size") {
        Ok(n) => n,
        Err(e) => return Err(e),
    };
    Ok(Asset { hash, size })
}

/// A list of named asset objects: distinct names, each one well-formed,
/// together covering every member of `m`.
pub open spec fn asset_entries_rel(m: Map<Seq<char>, JsonVal>, es: Seq<(String, Asset)>) -> bool {
    &&& forall|i: int, j: int|
        0 <= i < j < es.len() ==> (#[trigger] es[i].0)@ != (#[trigger] es[j].0)@
    &&& forall|i: int|
        0 <= i < es.len() ==> m.contains_key((#[trigger] es[i].0)@) && asset_rel(
            m[es[i].0@],
            es[i].1,
        )
    &&& forall|k: Seq<char>|
        #[trigger] m.contains_key(k) ==> exists|i: int| 0 <= i < es.len() && (#[trigger] es[i].0)@
            == k
}

/// An asset-index body: an `objects` object whose every member is an asset.
pub open spec fn assets_ok(j: JsonVal) -> bool {
    &&& j is Obj
    &&& obj_of(j).contains_key("objects"@)
    &&& obj_of(j)["objects"@] is Obj
    &&& forall|k: Seq<char>|
        #[trigger] obj_of(obj_of(j)["objects"@]).contains_key(k) ==> asset_ok(
            obj_of(obj_of(j)["objects"@])[k],
        )
}

/// The typed asset set a well-shaped asset-index body denotes.
pub open spec fn assets_rel(j: JsonVal, a: Assets) -> bool {
    &&& assets_ok(j)
    &&& asset_entries_rel(obj_of(obj_of(j)["objects"@]), a.objects@)
}

pub fn parse_assets(v: &serde_json::Value) -> (r: Result<Assets, Error>)
    ensures
        r matches Ok(a) ==> assets_rel(json_model(*v), a),
        r is Err <==> !assets_ok(json_model(*v)),
        r matches Err(e) ==> e is MalformedManifest,
{
    let objects = match json_get(v, "objects") {
        Some(x) => x,
        None => return Err(malformed("objects")),
    };
    let entries = match json_entries(objects) {
        Some(es) => es,
        None => return Err(malformed("objects")),
    };
    let ghost gm = obj_of(json_model(*objects));
    let mut out: Vec<(String, Asset)> = Vec::new();
    let mut i: usize = 0;
    while i < entries.len()
        invariant
            i <= entries.len(),
            out@.len() == i,
            json_model(*v) is Obj,
            obj_of(json_model(*v)).contains_key("objects"@),
            json_model(*objects) == obj_of(json_model(*v))["objects"@],
            json_model(*objects) is Obj,
            gm == obj_of(json_model(*objects)),
            forall|k: int, l: int|
                0 <= k < l < entries@.len() ==> (#[trigger] entries@[k].0)@ != (
                #[trigger] entries@[l].0)@,
            forall|k: int|
                0 <= k < entries@.len() ==> gm.contains_key((#[trigger] entries@[k].0)@)
                    && json_model(entries@[k].1) == gm[entries@[k].0@],
            forall|k: Seq<char>|
                #[trigger] gm.contains_key(k) ==> exists|l: int|
                    0 <= l < entries@.len() && (#[trigger] entries@[l].0)@ == k,
            forall|k: int|
                0 <= k < i ==> (#[trigger] out@[k].0)@ == entries@[k].0@ && asset_rel(
                    gm[entries@[k].0@],
                    out@[k].1,
                ),
        decreases entries.len() - i,
    {
        let name = entries[i].0.clone();
        let asset = match parse_asset(&entries[i].1) {
            Ok(a) => a,
            Err(e) => {
                proof {
                    let gk = (entries@[i as int].0)@;
                    assert(gm.contains_key(gk) && json_model(entries@[i as int].1) == gm[gk]);
                    assert(obj_of(obj_of(json_model(*v))["objects"@]).contains_key(gk));
                    assert(!asset_ok(obj_of(obj_of(json_model(*v))["objects"@])[gk]));
                }
                return Err(e);
            },
        };
        out.push((name, asset));
        i += 1;
    }
    proof {
        assert forall|k: int, l: int| 0 <= k < l < out@.len() implies (#[trigger] out@[k].0)@ != (
        #[trigger] out@[l].0)@ by {
            assert((entries@[k].0)@ != (entries@[l].0)@);
        }
        assert forall|k: int| 0 <= k < out@.len() implies gm.contains_key((#[trigger] out@[k].0)@)
            && asset_rel(gm[out@[k].0@], out@[k].1) by {
            assert((out@[k].0)@ == (entries@[k].0)@);
        }
        assert forall|k: Seq<char>| #[trigger] gm.contains_key(k) implies exists|l: int|
            0 <= l < out@.len() && (#[trigger] out@[l].0)@ == k by {
            let l = choose|l: int| 0 <= l < entries@.len() && (#[trigger] entries@[l].0)@ == k;
            assert(0 <= l < out@.len() && (out@[l].0)@ == k);
        }
        assert(asset_entries_rel(gm, out@));
    }
    Ok(Assets { objects: out })
}

} // verus!
