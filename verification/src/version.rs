//! Version resolution: the cache layout of manifests and downloaded files,
//! catalog lookup by exact id, and the per-platform selection of library
//! download targets that flattens a package into a [`ResolvedVersion`].

use vstd::prelude::*;
use vstd::string::StrSliceExecFns;
use crate::data::asset::Assets;
use crate::data::download::{Artifact, Classifier};
use crate::data::library::Library;
use crate::data::package::Package;
use crate::data::version::Version;
use crate::error::Error;
use crate::native::{os_native_name, os_native_name_spec, OsKind};
use crate::util::{join2, join3, join4, join5};

verus! {

/// Where the version catalog is cached under a root directory.
pub open spec fn catalog_path_spec(root: Seq<char>) -> Seq<char> {
    root + "/versions/manifest_version.json"@
}

/// Where a package descriptor is cached under a root directory.
pub open spec fn package_path_spec(root: Seq<char>, id: Seq<char>) -> Seq<char> {
    root + "/versions/"@ + id + ".json"@
}

/// Where an asset index is cached under a root directory.
pub open spec fn asset_index_path_spec(root: Seq<char>, id: Seq<char>) -> Seq<char> {
    root + "/assets/indexes/"@ + id + ".json"@
}

/// Where the client jar of a version lives under a root directory.
pub open spec fn client_path_spec(root: Seq<char>, version: Seq<char>) -> Seq<char> {
    root + "/clients/"@ + version + "/client.jar"@
}

/// Where a library artifact lives, by its repository-relative path.
pub open spec fn library_path_spec(root: Seq<char>, rel: Seq<char>) -> Seq<char> {
    root + "/libraries/"@ + rel
}

/// The shard directory of a content hash: its first two characters.
pub open spec fn shard_spec(hash: Seq<char>) -> Seq<char>
    recommends
        hash.len() >= 2,
{
    hash.subrange(0, 2)
}

/// Where an asset object lives: sharded by the first two hash characters.
pub open spec fn asset_object_path_spec(root: Seq<char>, hash: Seq<char>) -> Seq<char>
    recommends
        hash.len() >= 2,
{
    root + "/assets/objects/"@ + shard_spec(hash) + "/"@ + hash
}

/// The CDN URL of an asset object, sharded the same way.
pub open spec fn asset_url_spec(hash: Seq<char>) -> Seq<char>
    recommends
        hash.len() >= 2,
{
    "http://resources.download.minecraft.net/"@ + shard_spec(hash) + "/"@ + hash
}

pub fn catalog_path(root: &str) -> (r: String)
    ensures
        r@ == catalog_path_spec(root@),
{
    join2(root, "/versions/manifest_version.json")
}

pub fn package_path(root: &str, id: &str) -> (r: String)
    ensures
        r@ == package_path_spec(root@, id@),
{
    join4(root, "/versions/", id, ".json")
}

pub fn asset_index_path(root: &str, id: &str) -> (r: String)
    ensures
        r@ == asset_index_path_spec(root@, id@),
{
    join4(root, "/assets/indexes/", id, ".json")
}

pub fn client_path(root: &str, version: &str) -> (r: String)
    ensures
        r@ == client_path_spec(root@, version@),
{
    join4(root, "/clients/", version, "/client.jar")
}

pub fn library_path(root: &str, rel: &str) -> (r: String)
    ensures
        r@ == library_path_spec(root@, rel@),
{
    join3(root, "/libraries/", rel)
}

/// The first two characters of a content hash.
pub fn shard(hash: &str) -> (r: &str)
    requires
        hash@.len() >= 2,
    ensures
        r@ == shard_spec(hash@),
{
    hash.substring_char(0, 2)
}

pub fn asset_object_path(root: &str, hash: &str) -> (r: String)
    requires
        hash@.len() >= 2,
    ensures
        r@ == asset_object_path_spec(root@, hash@),
{
    join5(root, "/assets/objects/", shard(hash), "/", hash)
}

pub fn asset_url(hash: &str) -> (r: String)
    requires
        hash@.len() >= 2,
    ensures
        r@ == asset_url_spec(hash@),
{
    join4("http://resources.download.minecraft.net/", shard(hash), "/", hash)
}

/// The catalog holds an entry with this exact id.
pub open spec fn catalog_has(versions: Seq<Version>, id: Seq<char>) -> bool {
    exists|i: int| 0 <= i < versions.len() && (#[trigger] versions[i]).id@ == id
}

/// Looks a version id up in the catalog, by exact match only.
pub fn find_version<'a>(versions: &'a Vec<Version>, id: &String) -> (r: Result<&'a Version, Error>)
    ensures
        r matches Ok(v) ==> exists|i: int|
            0 <= i < versions@.len() && *v == #[trigger] versions@[i] && versions@[i].id@ == id@,
        r is Err <==> !catalog_has(versions@, id@),
        r matches Err(e) ==> e is VersionNotFound,
{
    let mut i: usize = 0;
    while i < versions.len()
        invariant
            i <= versions@.len(),
            forall|k: int| 0 <= k < i ==> (#[trigger] versions@[k]).id@ != id@,
        decreases versions@.len() - i,
    {
        if versions[i].id == *id {
            return Ok(&versions[i]);
        }
        i += 1;
    }
    Err(Error::VersionNotFound(id.clone()))
}

/// First-match lookup in a platform-keyed artifact list.
pub open spec fn assoc_artifact(es: Seq<(String, Artifact)>, k: Seq<char>) -> Option<Artifact>
    decreases es.len(),
{
    if es.len() == 0 {
        None
    } else if es[0].0@ == k {
        Some(es[0].1)
    } else {
        assoc_artifact(es.drop_first(), k)
    }
}

/// The one download target a library resolves to on a platform: the native
/// classifier for that platform when the library carries one, else the
/// generic artifact, else a directly-given classifier artifact; `None`
/// when the library offers nothing for this platform.
pub open spec fn select_target(lib: Library, os: OsKind) -> Option<Artifact> {
    let native = match lib.downloads.classifiers {
        Some(c) => match c {
            Classifier::Complex(es) => assoc_artifact(es@, os_native_name_spec(os)),
            Classifier::Simple(_) => None,
        },
        None => None,
    };
    if native is Some {
        native
    } else if lib.downloads.artifact is Some {
        lib.downloads.artifact
    } else {
        match lib.downloads.classifiers {
            Some(c) => match c {
                Classifier::Simple(a) => Some(a),
                Classifier::Complex(_) => None,
            },
            None => None,
        }
    }
}

/// Selects the download target of one library for one platform.
pub fn select_library_target(lib: &Library, os: OsKind) -> (r: Option<Artifact>)
    ensures
        r == select_target(*lib, os),
{
    if let Some(Classifier::Complex(es)) = &lib.downloads.classifiers {
        let key = os_native_name(os).to_owned();
        let mut i: usize = 0;
        proof {
            assert(es@.subrange(0, es@.len() as int) =~= es@);
        }
        while i < es.len()
            invariant
                i <= es@.len(),
                key@ == os_native_name_spec(os),
                lib.downloads.classifiers matches Some(c2) && c2 matches Classifier::Complex(v2)
                    && v2 == *es,
                assoc_artifact(es@, key@) == assoc_artifact(
                    es@.subrange(i as int, es@.len() as int),
                    key@,
                ),
            decreases es@.len() - i,
        {
            proof {
                assert(es@.subrange(i as int, es@.len() as int).drop_first() =~= es@.subrange(
                    i as int + 1,
                    es@.len() as int,
                ));
                assert(es@.subrange(i as int, es@.len() as int)[0] == es@[i as int]);
            }
            if es[i].0 == key {
                return Some(es[i].1.clone());
            }
            i += 1;
        }
        proof {
            assert(es@.subrange(es@.len() as int, es@.len() as int) =~= Seq::<(
                String,
                Artifact,
            )>::empty());
        }
    }
    match &lib.downloads.artifact {
        Some(a) => Some(a.clone()),
        None => match &lib.downloads.classifiers {
            Some(Classifier::Simple(a)) => Some(a.clone()),
            _ => None,
        },
    }
}

/// The artifacts the libraries of a package resolve to on a platform, in
/// library order, one per resolvable library.
pub open spec fn selected_artifacts(libs: Seq<Library>, os: OsKind) -> Seq<Artifact>
    decreases libs.len(),
{
    if libs.len() == 0 {
        Seq::empty()
    } else {
        selected_artifacts(libs.drop_last(), os) + (match select_target(libs.last(), os) {
            Some(a) => seq![a],
            None => Seq::empty(),
        })
    }
}

/// The names of the libraries that resolve to nothing on a platform: soft
/// warnings, each omitting one library instead of failing the resolution.
pub open spec fn skipped_names(libs: Seq<Library>, os: OsKind) -> Seq<Seq<char>>
    decreases libs.len(),
{
    if libs.len() == 0 {
        Seq::empty()
    } else {
        skipped_names(libs.drop_last(), os) + (match select_target(libs.last(), os) {
            Some(_) => Seq::empty(),
            None => seq![libs.last().name@],
        })
    }
}

/// Resolves every library of a package for one platform: the selected
/// artifacts, and the names of the libraries that had to be skipped.
pub fn resolve_libraries(libs: &Vec<Library>, os: OsKind) -> (r: (Vec<Artifact>, Vec<String>))
    ensures
        r.0@ == selected_artifacts(libs@, os),
        r.1@.map_values(|s: String| s@) == skipped_names(libs@, os),
{
    let mut arts: Vec<Artifact> = Vec::new();
    let mut warns: Vec<String> = Vec::new();
    let mut i: usize = 0;
    while i < libs.len()
        invariant
            i <= libs@.len(),
            arts@ == selected_artifacts(libs@.take(i as int), os),
            warns@.map_values(|s: String| s@) == skipped_names(libs@.take(i as int), os),
        decreases libs@.len() - i,
    {
        proof {
            assert(libs@.take(i as int + 1).drop_last() =~= libs@.take(i as int));
            assert(libs@.take(i as int + 1).last() == libs@[i as int]);
        }
        match select_library_target(&libs[i], os) {
            Some(a) => {
                arts.push(a);
                proof {
                    assert(arts@ =~= selected_artifacts(libs@.take(i as int + 1), os));
                    assert(warns@.map_values(|s: String| s@) =~= skipped_names(
                        libs@.take(i as int + 1),
                        os,
                    ));
                }
            },
            None => {
                warns.push(libs[i].name.clone());
                proof {
                    assert(arts@ =~= selected_artifacts(libs@.take(i as int + 1), os));
                    assert(warns@.map_values(|s: String| s@) =~= skipped_names(
                        libs@.take(i as int + 1),
                        os,
                    ));
                }
            },
        }
        i += 1;
    }
    proof {
        assert(libs@.take(libs@.len() as int) =~= libs@);
    }
    (arts, warns)
}

/// A fully resolved version: its package descriptor, its asset set, and
/// the flattened list of library artifacts selected for the running
/// platform. It exists only transiently, between resolution and download.
#[derive(Debug, Clone, PartialEq)]
pub struct ResolvedVersion {
    pub package: Package,
    pub assets: Assets,
    pub artifacts: Vec<Artifact>,
}

/// Aggregates a package and its asset set into a resolved version for one
/// platform, flattening the library list; unresolvable libraries come back
/// as warnings, not failures.
pub fn resolve(package: Package, assets: Assets, os: OsKind) -> (r: (ResolvedVersion, Vec<String>))
    ensures
        r.0.package == package,
        r.0.assets == assets,
        r.0.artifacts@ == selected_artifacts(package.libraries@, os),
        r.1@.map_values(|s: String| s@) == skipped_names(package.libraries@, os),
{
    let (artifacts, warnings) = resolve_libraries(&package.libraries, os);
    (ResolvedVersion { package, assets, artifacts }, warnings)
}

} // verus!
