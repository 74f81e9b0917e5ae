//! The requirement collector: flattens a [`ResolvedVersion`] into the
//! deduplicated list of files that must be fetched, dropping every
//! requirement that the local disk already satisfies.
//!
//! The local disk is passed in explicitly as a [`DiskState`], so the
//! collector is a function of its inputs alone: collecting twice over the
//! same resolved version and the same disk state yields the same
//! requirements.

use vstd::prelude::*;
use crate::data::asset::Asset;
use crate::data::download::Artifact;
use crate::downloader::{req_view, FileInfo, ReqView};
use crate::version::{
    asset_object_path_spec, asset_object_path, asset_url, asset_url_spec, client_path,
    client_path_spec, library_path, library_path_spec, ResolvedVersion,
};
use crate::MinecraftAuth;

verus! {

/// What is known of one file on disk: its path, its size, and its content
/// hash where the caller has computed one (`None` means unknown, not
/// absent). Where two records name the same path, the first wins.
#[derive(Debug, Clone, PartialEq)]
pub struct DiskState {
    pub files: Vec<(String, u64, Option<String>)>,
}

/// First-match lookup of a path among the disk records: the recorded size
/// and hash knowledge.
pub open spec fn disk_find(
    files: Seq<(String, u64, Option<String>)>,
    p: Seq<char>,
) -> Option<(u64, Option<Seq<char>>)>
    decreases files.len(),
{
    if files.len() == 0 {
        None
    } else if files[0].0@ == p {
        Some(
            (
                files[0].1,
                match files[0].2 {
                    Some(h) => Some(h@),
                    None => None,
                },
            ),
        )
    } else {
        disk_find(files.drop_first(), p)
    }
}

/// A requirement is already satisfied on disk: a file exists at its path
/// with exactly the expected size; in strict mode a requirement that
/// carries a hash additionally needs the recorded hash to be known and
/// equal.
pub open spec fn satisfied(
    files: Seq<(String, u64, Option<String>)>,
    q: ReqView,
    strict: bool,
) -> bool {
    match disk_find(files, q.path) {
        Some(entry) => entry.0 == q.size && ((strict && q.sha1 is Some) ==> entry.1 == q.sha1),
        None => false,
    }
}

impl DiskState {
    /// An empty disk: nothing recorded.
    pub fn new() -> (r: Self)
        ensures
            r.files@ == Seq::<(String, u64, Option<String>)>::empty(),
    {
        DiskState { files: Vec::new() }
    }

    /// Records one file. The first record for a path wins.
    pub fn record(&mut self, path: String, size: u64, sha1: Option<String>)
        ensures
            final(self).files@ == old(self).files@.push((path, size, sha1)),
    {
        self.files.push((path, size, sha1));
    }

    /// Looks a path up among the records.
    pub fn stat(&self, path: &String) -> (r: Option<(u64, Option<String>)>)
        ensures
            (match r {
                Some(entry) => Some(
                    (
                        entry.0,
                        match entry.1 {
                            Some(h) => Some(h@),
                            None => None,
                        },
                    ),
                ),
                None => None,
            }) == disk_find(self.files@, path@),
    {
        let mut i: usize = 0;
        proof {
            assert(self.files@.subrange(0, self.files@.len() as int) =~= self.files@);
        }
        while i < self.files.len()
            invariant
                i <= self.files@.len(),
                disk_find(self.files@, path@) == disk_find(
                    self.files@.subrange(i as int, self.files@.len() as int),
                    path@,
                ),
            decreases self.files@.len() - i,
        {
            proof {
                assert(self.files@.subrange(i as int, self.files@.len() as int).drop_first()
                    =~= self.files@.subrange(i as int + 1, self.files@.len() as int));
                assert(self.files@.subrange(i as int, self.files@.len() as int)[0] == self.files@[
                i as int]);
            }
            if self.files[i].0 == *path {
                let hash = match &self.files[i].2 {
                    Some(h) => Some(h.clone()),
                    None => None,
                };
                return Some((self.files[i].1, hash));
            }
            i += 1;
        }
        proof {
            assert(self.files@.subrange(self.files@.len() as int, self.files@.len() as int) =~= Seq::<
                (String, u64, Option<String>),
            >::empty());
        }
        None
    }
}

/// The requirement for the client jar of a resolved version.
pub open spec fn client_candidate(root: Seq<char>, r: ResolvedVersion) -> ReqView {
    ReqView {
        url: r.package.downloads.client.url@,
        path: client_path_spec(root, r.package.id@),
        size: r.package.downloads.client.size,
        sha1: Some(r.package.downloads.client.sha1@),
    }
}

/// The requirements of the selected library artifacts, in order. An
/// artifact without a repository-relative path cannot be deterministically
/// placed and is skipped.
pub open spec fn library_candidates(root: Seq<char>, arts: Seq<Artifact>) -> Seq<ReqView>
    decreases arts.len(),
{
    if arts.len() == 0 {
        Seq::empty()
    } else {
        library_candidates(root, arts.drop_last()) + (match arts.last().path {
            Some(rel) => seq![
                ReqView {
                    url: arts.last().url@,
                    path: library_path_spec(root, rel@),
                    size: arts.last().size,
                    sha1: Some(arts.last().sha1@),
                },
            ],
            None => Seq::empty(),
        })
    }
}

/// The requirements of the asset objects, in index order. The expected
/// hash of an asset object is its own content hash; an object whose hash
/// has fewer than two characters cannot be sharded and is skipped.
pub open spec fn asset_candidates(root: Seq<char>, objs: Seq<(String, Asset)>) -> Seq<ReqView>
    decreases objs.len(),
{
    if objs.len() == 0 {
        Seq::empty()
    } else {
        asset_candidates(root, objs.drop_last()) + (if objs.last().1.hash@.len() >= 2 {
            seq![
                ReqView {
                    url: asset_url_spec(objs.last().1.hash@),
                    path: asset_object_path_spec(root, objs.last().1.hash@),
                    size: objs.last().1.size,
                    sha1: Some(objs.last().1.hash@),
                },
            ]
        } else {
            Seq::empty()
        })
    }
}

/// Every requirement a resolved version implies, before deduplication and
/// the disk check: the client jar, then the libraries, then the assets.
pub open spec fn candidates(root: Seq<char>, r: ResolvedVersion) -> Seq<ReqView> {
    seq![client_candidate(root, r)] + library_candidates(root, r.artifacts@) + asset_candidates(
        root,
        r.assets.objects@,
    )
}

/// Some requirement in the sequence targets this path.
pub open spec fn contains_path(s: Seq<ReqView>, p: Seq<char>) -> bool {
    exists|i: int| 0 <= i < s.len() && (#[trigger] s[i]).path == p
}

/// Deduplication by destination path: of several requirements for one
/// path, the first survives.
pub open spec fn dedup(s: Seq<ReqView>) -> Seq<ReqView>
    decreases s.len(),
{
    if s.len() == 0 {
        Seq::empty()
    } else {
        let front = dedup(s.drop_last());
        if contains_path(s.drop_last(), s.last().path) {
            front
        } else {
            front.push(s.last())
        }
    }
}

/// The requirements that the disk does not already satisfy, in order.
pub open spec fn keep_unsatisfied(
    s: Seq<ReqView>,
    files: Seq<(String, u64, Option<String>)>,
    strict: bool,
) -> Seq<ReqView>
    decreases s.len(),
{
    if s.len() == 0 {
        Seq::empty()
    } else {
        let front = keep_unsatisfied(s.drop_last(), files, strict);
        if satisfied(files, s.last(), strict) {
            front
        } else {
            front.push(s.last())
        }
    }
}

/// What collection returns: the deduplicated candidates, minus those the
/// disk already satisfies.
pub open spec fn collect_spec(
    root: Seq<char>,
    r: ResolvedVersion,
    files: Seq<(String, u64, Option<String>)>,
    strict: bool,
) -> Seq<ReqView> {
    keep_unsatisfied(dedup(candidates(root, r)), files, strict)
}

/// Deduplication keeps exactly the paths of its input.
pub proof fn lemma_dedup_paths(s: Seq<ReqView>, p: Seq<char>)
    ensures
        contains_path(dedup(s), p) <==> contains_path(s, p),
    decreases s.len(),
{
    if s.len() > 0 {
        lemma_dedup_paths(s.drop_last(), p);
        let d = dedup(s);
        if contains_path(s, p) {
            let i = choose|i: int| 0 <= i < s.len() && (#[trigger] s[i]).path == p;
            if i < s.len() - 1 {
                assert(s.drop_last()[i].path == p);
                assert(contains_path(s.drop_last(), p));
                let j = choose|j: int|
                    0 <= j < dedup(s.drop_last()).len() && (#[trigger] dedup(s.drop_last())[j]).path
                        == p;
                if !contains_path(s.drop_last(), s.last().path) {
                    assert(d[j] == dedup(s.drop_last())[j]);
                }
                assert(contains_path(d, p));
            } else {
                if contains_path(s.drop_last(), s.last().path) {
                    assert(contains_path(d, p));
                } else {
                    assert(d.last().path == p);
                    assert(contains_path(d, p));
                }
            }
        }
        if contains_path(d, p) {
            let i = choose|i: int| 0 <= i < d.len() && (#[trigger] d[i]).path == p;
            if contains_path(s.drop_last(), s.last().path) {
                assert(contains_path(s.drop_last(), p));
                let j = choose|j: int|
                    0 <= j < s.drop_last().len() && (#[trigger] s.drop_last()[j]).path == p;
                assert(s[j].path == p);
            } else {
                if i < d.len() - 1 {
                    assert(dedup(s.drop_last())[i].path == p);
                    assert(contains_path(s.drop_last(), p));
                    let j = choose|j: int|
                        0 <= j < s.drop_last().len() && (#[trigger] s.drop_last()[j]).path == p;
                    assert(s[j].path == p);
                } else {
                    assert(s[s.len() - 1].path == p);
                }
            }
            assert(contains_path(s, p));
        }
    }
}

/// After deduplication, no two requirements share a destination path.
pub proof fn lemma_dedup_distinct(s: Seq<ReqView>)
    ensures
        forall|i: int, j: int|
            0 <= i < j < dedup(s).len() ==> (#[trigger] dedup(s)[i]).path != (
            #[trigger] dedup(s)[j]).path,
    decreases s.len(),
{
    if s.len() > 0 {
        lemma_dedup_distinct(s.drop_last());
        let d = dedup(s);
        let front = dedup(s.drop_last());
        if !contains_path(s.drop_last(), s.last().path) {
            assert forall|i: int, j: int| 0 <= i < j < d.len() implies (#[trigger] d[i]).path != (
            #[trigger] d[j]).path by {
                if j < d.len() - 1 {
                    assert(front[i].path != front[j].path);
                } else {
                    assert(d[i] == front[i]);
                    lemma_dedup_paths(s.drop_last(), front[i].path);
                    assert(contains_path(front, front[i].path));
                }
            }
        }
    }
}

/// Whatever collection keeps is not satisfied on disk; in particular, a
/// file present at its destination with exactly the expected size yields
/// no requirement.
pub proof fn lemma_collect_skips_satisfied(
    root: Seq<char>,
    r: ResolvedVersion,
    files: Seq<(String, u64, Option<String>)>,
    strict: bool,
    i: int,
)
    requires
        0 <= i < collect_spec(root, r, files, strict).len(),
    ensures
        !satisfied(files, collect_spec(root, r, files, strict)[i], strict),
{
    lemma_keep_unsatisfied_pred(dedup(candidates(root, r)), files, strict, i);
}

proof fn lemma_keep_unsatisfied_pred(
    s: Seq<ReqView>,
    files: Seq<(String, u64, Option<String>)>,
    strict: bool,
    i: int,
)
    requires
        0 <= i < keep_unsatisfied(s, files, strict).len(),
    ensures
        !satisfied(files, keep_unsatisfied(s, files, strict)[i], strict),
        exists|j: int| 0 <= j < s.len() && #[trigger] s[j] == keep_unsatisfied(s, files, strict)[i],
    decreases s.len(),
{
    if s.len() > 0 {
        let front = keep_unsatisfied(s.drop_last(), files, strict);
        if i < front.len() {
            lemma_keep_unsatisfied_pred(s.drop_last(), files, strict, i);
            let j = choose|j: int|
                0 <= j < s.drop_last().len() && #[trigger] s.drop_last()[j] == front[i];
            assert(s[j] == keep_unsatisfied(s, files, strict)[i]);
        } else {
            assert(s[s.len() - 1] == keep_unsatisfied(s, files, strict)[i]);
        }
    }
}

/// Whatever deduplication kept and the disk does not satisfy is emitted:
/// a file whose recorded size differs from the expected size — by even one
/// byte — yields a requirement.
pub proof fn lemma_collect_emits_unsatisfied(
    root: Seq<char>,
    r: ResolvedVersion,
    files: Seq<(String, u64, Option<String>)>,
    strict: bool,
    i: int,
)
    requires
        0 <= i < dedup(candidates(root, r)).len(),
        !satisfied(files, dedup(candidates(root, r))[i], strict),
    ensures
        exists|j: int|
            0 <= j < collect_spec(root, r, files, strict).len() && #[trigger] collect_spec(
                root,
                r,
                files,
                strict,
            )[j] == dedup(candidates(root, r))[i],
{
    let s = dedup(candidates(root, r));
    lemma_keep_unsatisfied_emits(s, files, strict, i);
    let j = choose|j: int|
        0 <= j < keep_unsatisfied(s, files, strict).len() && #[trigger] keep_unsatisfied(
            s,
            files,
            strict,
        )[j] == s[i];
    assert(collect_spec(root, r, files, strict)[j] == s[i]);
}

proof fn lemma_keep_unsatisfied_emits(
    s: Seq<ReqView>,
    files: Seq<(String, u64, Option<String>)>,
    strict: bool,
    i: int,
)
    requires
        0 <= i < s.len(),
        !satisfied(files, s[i], strict),
    ensures
        exists|j: int|
            0 <= j < keep_unsatisfied(s, files, strict).len() && #[trigger] keep_unsatisfied(
                s,
                files,
                strict,
            )[j] == s[i],
    decreases s.len(),
{
    if s.len() > 0 {
        let out = keep_unsatisfied(s, files, strict);
        let front = keep_unsatisfied(s.drop_last(), files, strict);
        if i == s.len() - 1 {
            assert(out[out.len() - 1] == s[i]);
        } else {
            assert(s.drop_last()[i] == s[i]);
            lemma_keep_unsatisfied_emits(s.drop_last(), files, strict, i);
            let j = choose|j: int| 0 <= j < front.len() && #[trigger] front[j] == s[i];
            assert(out[j] == s[i]);
        }
    }
}

/// No two collected requirements share a destination path: of resolved
/// entities mapping to one path, exactly one requirement survives.
pub proof fn lemma_collect_distinct_paths(
    root: Seq<char>,
    r: ResolvedVersion,
    files: Seq<(String, u64, Option<String>)>,
    strict: bool,
)
    ensures
        forall|i: int, j: int|
            0 <= i < j < collect_spec(root, r, files, strict).len() ==> (#[trigger] collect_spec(
                root,
                r,
                files,
                strict,
            )[i]).path != (#[trigger] collect_spec(root, r, files, strict)[j]).path,
{
    let d = dedup(candidates(root, r));
    lemma_dedup_distinct(candidates(root, r));
    let out = collect_spec(root, r, files, strict);
    assert forall|i: int, j: int| 0 <= i < j < out.len() implies (#[trigger] out[i]).path != (
    #[trigger] out[j]).path by {
        lemma_keep_unsatisfied_distinct(d, files, strict, i, j);
    }
}

proof fn lemma_keep_unsatisfied_distinct(
    s: Seq<ReqView>,
    files: Seq<(String, u64, Option<String>)>,
    strict: bool,
    i: int,
    j: int,
)
    requires
        forall|k: int, l: int|
            0 <= k < l < s.len() ==> (#[trigger] s[k]).path != (#[trigger] s[l]).path,
        0 <= i < j < keep_unsatisfied(s, files, strict).len(),
    ensures
        keep_unsatisfied(s, files, strict)[i].path != keep_unsatisfied(s, files, strict)[j].path,
    decreases s.len(),
{
    if s.len() > 0 {
        let out = keep_unsatisfied(s, files, strict);
        let front = keep_unsatisfied(s.drop_last(), files, strict);
        assert(forall|k: int, l: int|
            0 <= k < l < s.drop_last().len() ==> (#[trigger] s.drop_last()[k]).path != (
            #[trigger] s.drop_last()[l]).path);
        if j < front.len() {
            lemma_keep_unsatisfied_distinct(s.drop_last(), files, strict, i, j);
        } else {
            lemma_keep_unsatisfied_pred(s.drop_last(), files, strict, i);
            let k = choose|k: int|
                0 <= k < s.drop_last().len() && #[trigger] s.drop_last()[k] == front[i];
            assert(s[k].path != s[s.len() - 1].path);
        }
    }
}

/// Collection is a function of the resolved version and the disk state
/// alone: two runs over the same inputs yield the same requirements.
pub proof fn lemma_collect_idempotent(
    out1: Seq<ReqView>,
    out2: Seq<ReqView>,
    root: Seq<char>,
    r: ResolvedVersion,
    files: Seq<(String, u64, Option<String>)>,
    strict: bool,
)
    requires
        out1 == collect_spec(root, r, files, strict),
        out2 == collect_spec(root, r, files, strict),
    ensures
        out1 == out2,
{
}

fn req_contains_path(v: &Vec<FileInfo>, p: &String) -> (r: bool)
    ensures
        r == contains_path(v@.map_values(|f: FileInfo| req_view(f)), p@),
{
    let ghost vs = v@.map_values(|f: FileInfo| req_view(f));
    let mut i: usize = 0;
    while i < v.len()
        invariant
            i <= v@.len(),
            vs == v@.map_values(|f: FileInfo| req_view(f)),
            forall|k: int| 0 <= k < i ==> (#[trigger] vs[k]).path != p@,
        decreases v@.len() - i,
    {
        if v[i].path == *p {
            proof {
                assert(vs[i as int].path == p@);
            }
            return true;
        }
        i += 1;
    }
    false
}

/// Collects the file requirements of a resolved version against the given
/// disk state: client jar, selected library artifacts, and asset objects,
/// deduplicated by destination path, skipping whatever the disk already
/// satisfies. In strict mode a requirement with a declared hash is only
/// skipped when the recorded hash is known and equal.
pub fn collect(app: &MinecraftAuth, resolved: &ResolvedVersion, disk: &DiskState, strict: bool) -> (r:
    Vec<FileInfo>)
    ensures
        r@.map_values(|f: FileInfo| req_view(f)) == collect_spec(
            app.path@,
            *resolved,
            disk.files@,
            strict,
        ),
{
    let root: &str = app.path.as_str();
    let client = &resolved.package.downloads.client;
    let mut cands: Vec<FileInfo> = Vec::new();
    cands.push(
        FileInfo::with_sha1(
            client.url.clone(),
            client_path(root, resolved.package.id.as_str()),
            client.size,
            client.sha1.clone(),
        ),
    );
    proof {
        assert(cands@.map_values(|f: FileInfo| req_view(f)) =~= seq![
            client_candidate(app.path@, *resolved),
        ]);
    }
    let mut i: usize = 0;
    while i < resolved.artifacts.len()
        invariant
            i <= resolved.artifacts@.len(),
            cands@.map_values(|f: FileInfo| req_view(f)) == seq![
                client_candidate(app.path@, *resolved),
            ] + library_candidates(app.path@, resolved.artifacts@.take(i as int)),
            root@ == app.path@,
        decreases resolved.artifacts@.len() - i,
    {
        proof {
            assert(resolved.artifacts@.take(i as int + 1).drop_last() =~= resolved.artifacts@.take(
                i as int,
            ));
            assert(resolved.artifacts@.take(i as int + 1).last() == resolved.artifacts@[i as int]);
        }
        let art = &resolved.artifacts[i];
        match &art.path {
            Some(rel) => {
                cands.push(
                    FileInfo::with_sha1(
                        art.url.clone(),
                        library_path(root, rel.as_str()),
                        art.size,
                        art.sha1.clone(),
                    ),
                );
            },
            None => (),
        }
        proof {
            let ga = resolved.artifacts@[i as int];
            let tail: Seq<ReqView> = match ga.path {
                Some(rel) => seq![
                    ReqView {
                        url: ga.url@,
                        path: library_path_spec(app.path@, rel@),
                        size: ga.size,
                        sha1: Some(ga.sha1@),
                    },
                ],
                None => Seq::empty(),
            };
            assert(library_candidates(app.path@, resolved.artifacts@.take(i as int + 1))
                == library_candidates(app.path@, resolved.artifacts@.take(i as int)) + tail);
            assert(cands@.map_values(|f: FileInfo| req_view(f)) =~= (seq![
                client_candidate(app.path@, *resolved),
            ] + library_candidates(app.path@, resolved.artifacts@.take(i as int))) + tail);
            assert(cands@.map_values(|f: FileInfo| req_view(f)) =~= seq![
                client_candidate(app.path@, *resolved),
            ] + library_candidates(app.path@, resolved.artifacts@.take(i as int + 1)));
        }
        i += 1;
    }
    proof {
        assert(resolved.artifacts@.take(resolved.artifacts@.len() as int) =~= resolved.artifacts@);
    }
    let mut k: usize = 0;
    while k < resolved.assets.objects.len()
        invariant
            k <= resolved.assets.objects@.len(),
            cands@.map_values(|f: FileInfo| req_view(f)) == seq![
                client_candidate(app.path@, *resolved),
            ] + library_candidates(app.path@, resolved.artifacts@) + asset_candidates(
                app.path@,
                resolved.assets.objects@.take(k as int),
            ),
            root@ == app.path@,
        decreases resolved.assets.objects@.len() - k,
    {
        proof {
            assert(resolved.assets.objects@.take(k as int + 1).drop_last()
                =~= resolved.assets.objects@.take(k as int));
            assert(resolved.assets.objects@.take(k as int + 1).last() == resolved.assets.objects@[
            k as int]);
        }
        let obj = &resolved.assets.objects[k];
        if obj.1.hash.as_str().unicode_len() >= 2 {
            cands.push(
                FileInfo::with_sha1(
                    asset_url(obj.1.hash.as_str()),
                    asset_object_path(root, obj.1.hash.as_str()),
                    obj.1.size,
                    obj.1.hash.clone(),
                ),
            );
        }
        proof {
            let go = resolved.assets.objects@[k as int];
            let tail: Seq<ReqView> = if go.1.hash@.len() >= 2 {
                seq![
                    ReqView {
                        url: asset_url_spec(go.1.hash@),
                        path: asset_object_path_spec(app.path@, go.1.hash@),
                        size: go.1.size,
                        sha1: Some(go.1.hash@),
                    },
                ]
            } else {
                Seq::empty()
            };
            assert(asset_candidates(app.path@, resolved.assets.objects@.take(k as int + 1))
                == asset_candidates(app.path@, resolved.assets.objects@.take(k as int)) + tail);
            assert(cands@.map_values(|f: FileInfo| req_view(f)) =~= (seq![
                client_candidate(app.path@, *resolved),
            ] + library_candidates(app.path@, resolved.artifacts@) + asset_candidates(
                app.path@,
                resolved.assets.objects@.take(k as int),
            )) + tail);
            assert(cands@.map_values(|f: FileInfo| req_view(f)) =~= seq![
                client_candidate(app.path@, *resolved),
            ] + library_candidates(app.path@, resolved.artifacts@) + asset_candidates(
                app.path@,
                resolved.assets.objects@.take(k as int + 1),
            ));
        }
        k += 1;
    }
    proof {
        assert(resolved.assets.objects@.take(resolved.assets.objects@.len() as int)
            =~= resolved.assets.objects@);
        assert(cands@.map_values(|f: FileInfo| req_view(f)) =~= candidates(app.path@, *resolved));
    }
    let ghost cs = candidates(app.path@, *resolved);
    let mut deduped: Vec<FileInfo> = Vec::new();
    let mut d: usize = 0;
    while d < cands.len()
        invariant
            d <= cands@.len(),
            cs == candidates(app.path@, *resolved),
            cands@.map_values(|f: FileInfo| req_view(f)) == cs,
            deduped@.map_values(|f: FileInfo| req_view(f)) == dedup(cs.take(d as int)),
        decreases cands@.len() - d,
    {
        proof {
            assert(cs.take(d as int + 1).drop_last() =~= cs.take(d as int));
            assert(cs.take(d as int + 1).last() == cs[d as int]);
            assert(req_view(cands@[d as int]) == cs[d as int]);
        }
        let seen = req_contains_path(&deduped, &cands[d].path);
        proof {
            lemma_dedup_paths(cs.take(d as int), cs[d as int].path);
        }
        if !seen {
            deduped.push(cands[d].clone());
            proof {
                assert(deduped@.map_values(|f: FileInfo| req_view(f)) =~= dedup(
                    cs.take(d as int),
                ).push(cs[d as int]));
            }
        }
        d += 1;
    }
    proof {
        assert(cs.take(cs.len() as int) =~= cs);
    }
    let ghost ds = dedup(cs);
    let mut out: Vec<FileInfo> = Vec::new();
    let mut f: usize = 0;
    while f < deduped.len()
        invariant
            f <= deduped@.len(),
            cs == candidates(app.path@, *resolved),
            ds == dedup(cs),
            deduped@.map_values(|g: FileInfo| req_view(g)) == ds,
            out@.map_values(|g: FileInfo| req_view(g)) == keep_unsatisfied(
                ds.take(f as int),
                disk.files@,
                strict,
            ),
        decreases deduped@.len() - f,
    {
        proof {
            assert(ds.take(f as int + 1).drop_last() =~= ds.take(f as int));
            assert(ds.take(f as int + 1).last() == ds[f as int]);
            assert(req_view(deduped@[f as int]) == ds[f as int]);
        }
        let q = &deduped[f];
        let mut keep: bool = true;
        match disk.stat(&q.path) {
            Some(entry) => {
                if entry.0 == q.size {
                    if strict {
                        match (&entry.1, &q.sha1) {
                            (Some(h), Some(want)) => {
                                if *h == *want {
                                    keep = false;
                                }
                            },
                            (_, None) => {
                                keep = false;
                            },
                            (None, Some(_)) => (),
                        }
                    } else {
                        keep = false;
                    }
                }
            },
            None => (),
        }
        proof {
            assert(keep == !satisfied(disk.files@, ds[f as int], strict));
        }
        if keep {
            out.push(q.clone());
            proof {
                assert(out@.map_values(|g: FileInfo| req_view(g)) =~= keep_unsatisfied(
                    ds.take(f as int),
                    disk.files@,
                    strict,
                ).push(ds[f as int]));
            }
        }
        f += 1;
    }
    proof {
        assert(ds.take(ds.len() as int) =~= ds);
    }
    out
}

/// The requirements still missing for a version, with the lax skip rule:
/// size alone decides whether a file is already present, so no asset has
/// to be hashed on every run.
pub fn file_to_download_for_version(
    app: &MinecraftAuth,
    resolved: &ResolvedVersion,
    disk: &DiskState,
) -> (r: Vec<FileInfo>)
    ensures
        r@.map_values(|f: FileInfo| req_view(f)) == collect_spec(
            app.path@,
            *resolved,
            disk.files@,
            false,
        ),
{
    collect(app, resolved, disk, false)
}

} // verus!
