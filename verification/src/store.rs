//! The durable manifest cache. A [`ManifestStore`] mirrors the manifests
//! that exist on disk under the cache root, keyed by their local path, and
//! counts how many remote fetches it has asked for. Looking a path up never
//! asks for a fetch when the cache already holds it: version metadata is
//! immutable once published, so a cached manifest never goes stale.
//!
//! The store itself performs no I/O. A caller drives it: a load either
//! returns the cached manifest or reports that a fetch is needed; the
//! fetched bytes are then handed back, and only a body that parses as the
//! expected shape is admitted into the cache — a malformed body changes
//! nothing, so no corrupt entry can ever be returned later.

use vstd::prelude::*;
use vstd::pervasive::VecAdditionalExecFns;
use crate::data::asset::Assets;
use crate::data::package::Package;
use crate::data::version::ManifestVersion;
use crate::error::Error;
use crate::json::{json_of, json_model, parse_json_bytes, JsonVal};
use crate::parse::{
    assets_ok, assets_rel, manifest_version_ok, manifest_version_rel, package_ok, package_rel,
    parse_assets, parse_manifest_version, parse_package,
};

verus! {

/// A parsed manifest of any of the shapes the resolver walks.
#[derive(Debug, Clone, PartialEq)]
pub enum Manifest {
    /// The top-level version catalog.
    Catalog(ManifestVersion),
    /// A per-version package descriptor.
    Package(Package),
    /// An asset-index body.
    AssetSet(Assets),
}

/// Which manifest shape a cache entry is expected to have.
#[derive(Debug, Clone, Copy, PartialEq, Eq, Structural)]
pub enum ManifestKind {
    Catalog,
    Package,
    AssetSet,
}

/// The shape check for one expected kind.
pub open spec fn kind_ok(kind: ManifestKind, j: JsonVal) -> bool {
    match kind {
        ManifestKind::Catalog => manifest_version_ok(j),
        ManifestKind::Package => package_ok(j),
        ManifestKind::AssetSet => assets_ok(j),
    }
}

/// The manifest a well-shaped document of the expected kind denotes.
pub open spec fn manifest_rel(kind: ManifestKind, j: JsonVal, m: Manifest) -> bool {
    match kind {
        ManifestKind::Catalog => m matches Manifest::Catalog(mv) && manifest_version_rel(j, mv),
        ManifestKind::Package => m matches Manifest::Package(p) && package_rel(j, p),
        ManifestKind::AssetSet => m matches Manifest::AssetSet(a) && assets_rel(j, a),
    }
}

/// The map an association list denotes; a later entry would shadow an
/// earlier one, but a well-formed store keeps its keys distinct.
pub open spec fn entries_map(s: Seq<(String, Manifest)>) -> Map<Seq<char>, Manifest>
    decreases s.len(),
{
    if s.len() == 0 {
        Map::empty()
    } else {
        entries_map(s.drop_last()).insert(s.last().0@, s.last().1)
    }
}

/// Membership in the denoted map is membership among the entry keys.
proof fn lemma_entries_map_contains(s: Seq<(String, Manifest)>, k: Seq<char>)
    ensures
        entries_map(s).contains_key(k) <==> exists|i: int|
            0 <= i < s.len() && (#[trigger] s[i].0)@ == k,
    decreases s.len(),
{
    if s.len() > 0 {
        lemma_entries_map_contains(s.drop_last(), k);
        if entries_map(s).contains_key(k) {
            if s.last().0@ != k {
                let i = choose|i: int|
                    0 <= i < s.drop_last().len() && (#[trigger] s.drop_last()[i].0)@ == k;
                assert((s[i].0)@ == k);
            } else {
                assert((s[s.len() - 1].0)@ == k);
            }
        }
        if exists|i: int| 0 <= i < s.len() && (#[trigger] s[i].0)@ == k {
            let i = choose|i: int| 0 <= i < s.len() && (#[trigger] s[i].0)@ == k;
            if i < s.len() - 1 {
                assert((s.drop_last()[i].0)@ == k);
            }
        }
    }
}

/// With distinct keys, the denoted map sends each entry key to its entry.
proof fn lemma_entries_map_at(s: Seq<(String, Manifest)>, i: int)
    requires
        0 <= i < s.len(),
        forall|k: int, l: int| 0 <= k < l < s.len() ==> (#[trigger] s[k].0)@ != (#[trigger] s[l].0)@,
    ensures
        entries_map(s).contains_key(s[i].0@),
        entries_map(s)[s[i].0@] == s[i].1,
    decreases s.len(),
{
    if i == s.len() - 1 {
    } else {
        assert(forall|k: int, l: int|
            0 <= k < l < s.drop_last().len() ==> (#[trigger] s.drop_last()[k].0)@ != (
            #[trigger] s.drop_last()[l].0)@);
        lemma_entries_map_at(s.drop_last(), i);
        assert((s[i].0)@ != (s[s.len() - 1].0)@);
    }
}

/// The filesystem-backed manifest cache, as a value: the cache root, the
/// manifests already persisted under it, and how many remote fetches have
/// been requested so far.
pub struct ManifestStore {
    pub root: String,
    pub entries: Vec<(String, Manifest)>,
    pub fetch_count: u64,
}

/// The answer of a cache load: the manifest is already present, or the
/// caller must fetch the named URL and admit the bytes.
pub enum LoadOutcome<'a> {
    Ready(&'a Manifest),
    FetchNeeded,
}

impl ManifestStore {
    /// Entry keys are distinct: one cache entry per local path.
    pub open spec fn wf(self) -> bool {
        forall|k: int, l: int|
            0 <= k < l < self.entries@.len() ==> (#[trigger] self.entries@[k].0)@ != (
            #[trigger] self.entries@[l].0)@
    }

    /// The cached manifests, keyed by local path.
    pub open spec fn cache(self) -> Map<Seq<char>, Manifest> {
        entries_map(self.entries@)
    }

    /// The cache holds a manifest under this path.
    pub open spec fn has_path(self, p: Seq<char>) -> bool {
        self.cache().contains_key(p)
    }

    /// An empty store over a cache root.
    pub fn new(root: String) -> (r: Self)
        ensures
            r.wf(),
            r.root == root,
            r.fetch_count == 0,
            r.cache() == Map::<Seq<char>, Manifest>::empty(),
    {
        ManifestStore { root, entries: Vec::new(), fetch_count: 0 }
    }

    fn find(&self, path: &String) -> (r: Option<usize>)
        requires
            self.wf(),
        ensures
            r matches Some(i) ==> i < self.entries@.len() && (self.entries@[i as int].0)@ == path@,
            r is None <==> !self.has_path(path@),
    {
        proof {
            lemma_entries_map_contains(self.entries@, path@);
        }
        let mut i: usize = 0;
        while i < self.entries.len()
            invariant
                i <= self.entries@.len(),
                forall|k: int| 0 <= k < i ==> (#[trigger] self.entries@[k].0)@ != path@,
            decreases self.entries@.len() - i,
        {
            if self.entries[i].0 == *path {
                proof {
                    lemma_entries_map_contains(self.entries@, path@);
                }
                return Some(i);
            }
            i += 1;
        }
        None
    }

    /// Borrows the cached manifest under a path, if one is present.
    pub fn lookup(&self, path: &String) -> (r: Option<&Manifest>)
        requires
            self.wf(),
        ensures
            r is Some <==> self.has_path(path@),
            r matches Some(m) ==> *m == self.cache()[path@],
    {
        match self.find(path) {
            Some(i) => {
                proof {
                    lemma_entries_map_at(self.entries@, i as int);
                }
                Some(&self.entries[i].1)
            },
            None => None,
        }
    }

    /// One cache load. A hit returns the cached manifest and leaves the
    /// store — in particular its fetch count — untouched: no network access
    /// for a manifest that is already present. Only a miss asks the caller
    /// to fetch, and counts as one requested fetch.
    pub fn load_or_fetch<'a>(&'a mut self, path: &String) -> (r: LoadOutcome<'a>)
        requires
            old(self).wf(),
        ensures
            final(self).wf(),
            old(self).has_path(path@) ==> (r matches LoadOutcome::Ready(m) && *m == old(
                self,
            ).cache()[path@]) && *final(self) == *old(self),
            !old(self).has_path(path@) ==> r is FetchNeeded && final(self).entries == old(
                self,
            ).entries && final(self).root == old(self).root && final(self).fetch_count == (
            if old(self).fetch_count < u64::MAX {
                old(self).fetch_count + 1
            } else {
                old(self).fetch_count as int
            }),
    {
        match self.find(path) {
            Some(i) => {
                proof {
                    lemma_entries_map_at(self.entries@, i as int);
                }
                LoadOutcome::Ready(&self.entries[i].1)
            },
            None => {
                if self.fetch_count < u64::MAX {
                    self.fetch_count = self.fetch_count + 1;
                }
                LoadOutcome::FetchNeeded
            },
        }
    }

    /// Admits the body fetched for a path: parses it, checks it against the
    /// expected shape, and only then persists it under the path. A body
    /// that does not parse, or parses to the wrong shape, is a malformed
    /// manifest and leaves the cache exactly as it was.
    pub fn admit_fetched(&mut self, path: &String, kind: ManifestKind, bytes: &Vec<u8>) -> (r:
        Result<(), Error>)
        requires
            old(self).wf(),
        ensures
            final(self).wf(),
            final(self).root == old(self).root,
            final(self).fetch_count == old(self).fetch_count,
            r is Ok <==> (json_of(bytes@) matches Some(j) && kind_ok(kind, j)),
            r is Ok ==> final(self).has_path(path@) && (json_of(bytes@) matches Some(j)
                && manifest_rel(kind, j, final(self).cache()[path@])) && final(self).cache() == old(
                self,
            ).cache().insert(path@, final(self).cache()[path@]),
            r is Err ==> *final(self) == *old(self),
            r matches Err(e) ==> e is MalformedManifest,
    {
        let v = match parse_json_bytes(bytes) {
            Some(v) => v,
            None => {
                return Err(Error::MalformedManifest("unparsable body".to_owned()));
            },
        };
        let m = match kind {
            ManifestKind::Catalog => match parse_manifest_version(&v) {
                Ok(mv) => Manifest::Catalog(mv),
                Err(e) => return Err(e),
            },
            ManifestKind::Package => match parse_package(&v) {
                Ok(p) => Manifest::Package(p),
                Err(e) => return Err(e),
            },
            ManifestKind::AssetSet => match parse_assets(&v) {
                Ok(a) => Manifest::AssetSet(a),
                Err(e) => return Err(e),
            },
        };
        match self.find(path) {
            Some(i) => {
                let ghost olds = self.entries@;
                self.entries.set(i, (path.clone(), m));
                proof {
                    lemma_entries_map_update(olds, i as int, self.entries@[i as int]);
                    lemma_entries_map_at(self.entries@, i as int);
                    assert(self.cache() =~= old(self).cache().insert(path@, self.cache()[path@]));
                }
                Ok(())
            },
            None => {
                let ghost olds = self.entries@;
                self.entries.push((path.clone(), m));
                proof {
                    assert(self.entries@.drop_last() =~= olds);
                    lemma_entries_map_contains(olds, path@);
                    lemma_entries_map_at(self.entries@, self.entries@.len() - 1);
                    assert forall|k: int, l: int|
                        0 <= k < l < self.entries@.len() implies (#[trigger] self.entries@[k].0)@
                        != (#[trigger] self.entries@[l].0)@ by {
                        if l < self.entries@.len() - 1 {
                            assert((olds[k].0)@ != (olds[l].0)@);
                        } else {
                            assert((olds[k].0)@ != path@);
                        }
                    }
                    assert(self.cache() =~= old(self).cache().insert(path@, self.cache()[path@]));
                }
                Ok(())
            },
        }
    }
}

/// Updating the entry of an existing key denotes inserting over it.
proof fn lemma_entries_map_update(s: Seq<(String, Manifest)>, i: int, x: (String, Manifest))
    requires
        0 <= i < s.len(),
        forall|k: int, l: int| 0 <= k < l < s.len() ==> (#[trigger] s[k].0)@ != (#[trigger] s[l].0)@,
        x.0@ == s[i].0@,
    ensures
        entries_map(s.update(i, x)) == entries_map(s).insert(x.0@, x.1),
        forall|k: int, l: int|
            0 <= k < l < s.update(i, x).len() ==> (#[trigger] s.update(i, x)[k].0)@ != (
            #[trigger] s.update(i, x)[l].0)@,
    decreases s.len(),
{
    let t = s.update(i, x);
    assert(forall|k: int| 0 <= k < s.len() ==> (#[trigger] t[k].0)@ == s[k].0@);
    if i == s.len() - 1 {
        assert(t.drop_last() =~= s.drop_last());
        assert(entries_map(t) =~= entries_map(s).insert(x.0@, x.1));
    } else {
        assert(t.drop_last() =~= s.drop_last().update(i, x));
        assert(forall|k: int, l: int|
            0 <= k < l < s.drop_last().len() ==> (#[trigger] s.drop_last()[k].0)@ != (
            #[trigger] s.drop_last()[l].0)@);
        lemma_entries_map_update(s.drop_last(), i, x);
        assert((s.last().0)@ != x.0@);
        assert(entries_map(t) =~= entries_map(s).insert(x.0@, x.1));
    }
}

/// Cache reuse: a manifest admitted under a path is found under that path,
/// exactly as admitted, so a later load of the same path is a hit and asks
/// for no fetch.
pub proof fn lemma_cache_reuse(cache: Map<Seq<char>, Manifest>, p: Seq<char>, m: Manifest)
    ensures
        cache.insert(p, m).contains_key(p),
        cache.insert(p, m)[p] == m,
{
}

} // verus!
