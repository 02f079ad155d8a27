//! Two-phase duplicate detection. Phase one buckets files by exact byte
//! size and keeps only files whose size occurs at least twice — a file
//! with a unique size cannot have a duplicate and is never hashed. Phase
//! two, given each remaining file with its content digest (computed by
//! the caller, streaming each file through `hashing::ContentHasher`),
//! groups the files by digest and returns the groups of two or more.

use vstd::prelude::*;

verus! {

/// A candidate file for duplicate detection: its path and its byte size.
#[derive(Debug)]
pub struct SizedFile {
    pub path: String,
    pub size: u64,
}

/// The mathematical model of a sized file.
pub struct SizedFileModel {
    pub path: Seq<char>,
    pub size: u64,
}

impl DeepView for SizedFile {
    type V = SizedFileModel;

    open spec fn deep_view(&self) -> SizedFileModel {
        SizedFileModel { path: self.path@, size: self.size }
    }
}

/// A candidate file with its content digest.
#[derive(Debug)]
pub struct HashedFile {
    pub path: String,
    pub hash: Vec<u8>,
}

/// The mathematical model of a hashed file.
pub struct HashedFileModel {
    pub path: Seq<char>,
    pub hash: Seq<u8>,
}

impl DeepView for HashedFile {
    type V = HashedFileModel;

    open spec fn deep_view(&self) -> HashedFileModel {
        HashedFileModel { path: self.path@, hash: self.hash@ }
    }
}

/// How many of the files have exactly this size.
pub open spec fn count_with_size(files: Seq<SizedFileModel>, sz: u64) -> int
    decreases files.len(),
{
    if files.len() == 0 {
        0
    } else {
        count_with_size(files.drop_last(), sz) + (if files.last().size == sz {
            1int
        } else {
            0
        })
    }
}

/// The files of `files` whose size occurs at least twice in `all`, in
/// input order.
pub open spec fn size_candidates_of(all: Seq<SizedFileModel>, files: Seq<SizedFileModel>) -> Seq<
    SizedFileModel,
>
    decreases files.len(),
{
    if files.len() == 0 {
        Seq::empty()
    } else {
        let prefix = size_candidates_of(all, files.drop_last());
        if count_with_size(all, files.last().size) >= 2 {
            prefix.push(files.last())
        } else {
            prefix
        }
    }
}

/// How many of the files have exactly this digest.
pub open spec fn count_with_hash(files: Seq<HashedFileModel>, h: Seq<u8>) -> int
    decreases files.len(),
{
    if files.len() == 0 {
        0
    } else {
        count_with_hash(files.drop_last(), h) + (if files.last().hash == h {
            1int
        } else {
            0
        })
    }
}

/// The paths of the files with exactly this digest, in input order.
pub open spec fn paths_with_hash(files: Seq<HashedFileModel>, h: Seq<u8>) -> Seq<Seq<char>>
    decreases files.len(),
{
    if files.len() == 0 {
        Seq::empty()
    } else {
        let prefix = paths_with_hash(files.drop_last(), h);
        if files.last().hash == h {
            prefix.push(files.last().path)
        } else {
            prefix
        }
    }
}

/// The distinct digests of the files, in order of first appearance.
pub open spec fn distinct_hashes(files: Seq<HashedFileModel>) -> Seq<Seq<u8>>
    decreases files.len(),
{
    if files.len() == 0 {
        Seq::empty()
    } else {
        let prefix = distinct_hashes(files.drop_last());
        if prefix.contains(files.last().hash) {
            prefix
        } else {
            prefix.push(files.last().hash)
        }
    }
}

/// One group per digest of `hs` that at least two files share: the paths
/// of those files, in input order.
pub open spec fn dup_groups_of(files: Seq<HashedFileModel>, hs: Seq<Seq<u8>>) -> Seq<
    Seq<Seq<char>>,
>
    decreases hs.len(),
{
    if hs.len() == 0 {
        Seq::empty()
    } else {
        let prefix = dup_groups_of(files, hs.drop_last());
        if count_with_hash(files, hs.last()) >= 2 {
            prefix.push(paths_with_hash(files, hs.last()))
        } else {
            prefix
        }
    }
}

/// The duplicate groups of the files: one group per digest shared by at
/// least two of them.
pub open spec fn duplicate_groups(files: Seq<HashedFileModel>) -> Seq<Seq<Seq<char>>> {
    dup_groups_of(files, distinct_hashes(files))
}

/// Byte-for-byte equality of two digests.
fn bytes_eq(a: &Vec<u8>, b: &Vec<u8>) -> (r: bool)
    ensures
        r == (a@ == b@),
{
    if a.len() != b.len() {
        return false;
    }
    let n = a.len();
    let mut i: usize = 0;
    while i < n
        invariant
            i <= n,
            n == a@.len(),
            n == b@.len(),
            forall|k: int| 0 <= k < i ==> a@[k] == b@[k],
        decreases n - i,
    {
        if a[i] != b[i] {
            return false;
        }
        i = i + 1;
    }
    proof {
        assert(a@ =~= b@);
    }
    true
}

/// A verified copy of a digest.
fn copy_bytes(a: &Vec<u8>) -> (r: Vec<u8>)
    ensures
        r@ == a@,
{
    let n = a.len();
    let mut r: Vec<u8> = Vec::new();
    let mut i: usize = 0;
    while i < n
        invariant
            i <= n,
            n == a@.len(),
            r@ == a@.subrange(0, i as int),
        decreases n - i,
    {
        r.push(a[i]);
        proof {
            assert(a@.subrange(0, i as int).push(a@[i as int]) =~= a@.subrange(0, i + 1 as int));
        }
        i = i + 1;
    }
    proof {
        assert(a@.subrange(0, n as int) =~= a@);
    }
    r
}

/// Whether a digest is among the collected distinct digests.
fn hashes_contain(dh: &Vec<Vec<u8>>, h: &Vec<u8>) -> (r: bool)
    ensures
        r == dh.deep_view().contains(h@),
{
    let n = dh.len();
    let mut i: usize = 0;
    while i < n
        invariant
            i <= n,
            n == dh@.len(),
            forall|k: int| 0 <= k < i ==> dh.deep_view()[k] != h@,
        decreases n - i,
    {
        if bytes_eq(&dh[i], h) {
            proof {
                assert(dh.deep_view()[i as int] == h@);
            }
            return true;
        }
        proof {
            assert(dh.deep_view()[i as int] =~= dh@[i as int]@);
            assert(dh.deep_view()[i as int] != h@);
        }
        i = i + 1;
    }
    proof {
        assert(!dh.deep_view().contains(h@));
    }
    false
}

pub struct DuplicateFinder {}

impl DuplicateFinder {
    pub fn new() -> (f: Self) {
        DuplicateFinder {  }
    }

    /// How many of the files have exactly this size, executable form.
    fn count_size(files: &Vec<SizedFile>, sz: u64) -> (c: usize)
        ensures
            c as int == count_with_size(files.deep_view(), sz),
            c <= files.deep_view().len(),
    {
        let ghost fms = files.deep_view();
        let n = files.len();
        let mut c: usize = 0;
        let mut i: usize = 0;
        while i < n
            invariant
                i <= n,
                n == files@.len(),
                fms == files.deep_view(),
                c <= i,
                c as int == count_with_size(fms.subrange(0, i as int), sz),
            decreases n - i,
        {
            proof {
                assert(fms.subrange(0, i + 1 as int).drop_last() =~= fms.subrange(0, i as int));
                assert(fms.subrange(0, i + 1 as int).last() == fms[i as int]);
            }
            if files[i].size == sz {
                c = c + 1;
            }
            i = i + 1;
        }
        proof {
            assert(fms.subrange(0, n as int) =~= fms);
        }
        c
    }

    /// Phase one: keep exactly the files whose byte size occurs at least
    /// twice in the input; only these can have duplicates, and only these
    /// are ever handed to the hasher.
    pub fn size_candidates(&self, files: &Vec<SizedFile>) -> (r: Vec<SizedFile>)
        ensures
            r.deep_view() == size_candidates_of(files.deep_view(), files.deep_view()),
    {
        let ghost fms = files.deep_view();
        let n = files.len();
        let mut r: Vec<SizedFile> = Vec::new();
        let mut i: usize = 0;
        while i < n
            invariant
                i <= n,
                n == files@.len(),
                fms == files.deep_view(),
                r.deep_view() == size_candidates_of(fms, fms.subrange(0, i as int)),
            decreases n - i,
        {
            proof {
                assert(fms.subrange(0, i + 1 as int).drop_last() =~= fms.subrange(0, i as int));
                assert(fms.subrange(0, i + 1 as int).last() == fms[i as int]);
            }
            let c = Self::count_size(files, files[i].size);
            if c >= 2 {
                r.push(SizedFile { path: files[i].path.clone(), size: files[i].size });
            }
            proof {
                assert(r.deep_view() =~= size_candidates_of(fms, fms.subrange(0, i + 1 as int)));
            }
            i = i + 1;
        }
        proof {
            assert(fms.subrange(0, n as int) =~= fms);
        }
        r
    }

    /// Phase two: group the hashed candidates by digest, in order of each
    /// digest's first appearance, and return the groups of two or more
    /// paths.
    pub fn find_duplicates(&self, hashed: &Vec<HashedFile>) -> (groups: Vec<Vec<String>>)
        ensures
            groups.deep_view() == duplicate_groups(hashed.deep_view()),
    {
        let ghost fms = hashed.deep_view();
        let n = hashed.len();
        let mut dh: Vec<Vec<u8>> = Vec::new();
        let mut i: usize = 0;
        while i < n
            invariant
                i <= n,
                n == hashed@.len(),
                fms == hashed.deep_view(),
                dh.deep_view() == distinct_hashes(fms.subrange(0, i as int)),
            decreases n - i,
        {
            proof {
                assert(fms.subrange(0, i + 1 as int).drop_last() =~= fms.subrange(0, i as int));
                assert(fms.subrange(0, i + 1 as int).last() == fms[i as int]);
            }
            if !hashes_contain(&dh, &hashed[i].hash) {
                let h = copy_bytes(&hashed[i].hash);
                dh.push(h);
                proof {
                    assert(!distinct_hashes(fms.subrange(0, i as int)).contains(fms[i as int].hash));
                    assert(dh.deep_view() =~~= distinct_hashes(fms.subrange(0, i as int)).push(
                        fms[i as int].hash,
                    ));
                    assert(dh.deep_view() =~~= distinct_hashes(fms.subrange(0, i + 1 as int)));
                }
            } else {
                proof {
                    assert(distinct_hashes(fms.subrange(0, i as int)).contains(fms[i as int].hash));
                    assert(dh.deep_view() =~~= distinct_hashes(fms.subrange(0, i + 1 as int)));
                }
            }
            i = i + 1;
        }
        proof {
            assert(fms.subrange(0, n as int) =~= fms);
        }
        let ghost dhs = dh.deep_view();
        let dn = dh.len();
        let mut groups: Vec<Vec<String>> = Vec::new();
        let mut k: usize = 0;
        while k < dn
            invariant
                k <= dn,
                dn == dh@.len(),
                n == hashed@.len(),
                fms == hashed.deep_view(),
                dhs == dh.deep_view(),
                groups.deep_view() == dup_groups_of(fms, dhs.subrange(0, k as int)),
            decreases dn - k,
        {
            proof {
                assert(dhs.subrange(0, k + 1 as int).drop_last() =~= dhs.subrange(0, k as int));
                assert(dhs.subrange(0, k + 1 as int).last() == dhs[k as int]);
            }
            let mut paths: Vec<String> = Vec::new();
            let mut j: usize = 0;
            while j < n
                invariant
                    j <= n,
                    n == hashed@.len(),
                    k < dn,
                    dn == dh@.len(),
                    fms == hashed.deep_view(),
                    dhs == dh.deep_view(),
                    paths.deep_view() == paths_with_hash(fms.subrange(0, j as int), dhs[k as int]),
                decreases n - j,
            {
                proof {
                    assert(fms.subrange(0, j + 1 as int).drop_last() =~= fms.subrange(0, j as int));
                    assert(fms.subrange(0, j + 1 as int).last() == fms[j as int]);
                }
                if bytes_eq(&hashed[j].hash, &dh[k]) {
                    paths.push(hashed[j].path.clone());
                    proof {
                        assert(fms[j as int].hash == dhs[k as int]);
                        assert(paths.deep_view() =~~= paths_with_hash(
                            fms.subrange(0, j + 1 as int),
                            dhs[k as int],
                        ));
                    }
                } else {
                    proof {
                        assert(dhs[k as int] =~= dh@[k as int]@);
                        assert(fms[j as int].hash != dhs[k as int]);
                        assert(paths.deep_view() =~~= paths_with_hash(
                            fms.subrange(0, j + 1 as int),
                            dhs[k as int],
                        ));
                    }
                }
                j = j + 1;
            }
            proof {
                assert(fms.subrange(0, n as int) =~= fms);
                lemma_paths_with_hash_count(fms, dhs[k as int]);
            }
            if paths.len() >= 2 {
                groups.push(paths);
            }
            proof {
                assert(groups.deep_view() =~= dup_groups_of(fms, dhs.subrange(0, k + 1 as int)));
            }
            k = k + 1;
        }
        proof {
            assert(dhs.subrange(0, dn as int) =~= dhs);
        }
        groups
    }
}

/// A digest's group holds exactly as many paths as there are files with
/// that digest.
proof fn lemma_paths_with_hash_count(files: Seq<HashedFileModel>, h: Seq<u8>)
    ensures
        paths_with_hash(files, h).len() == count_with_hash(files, h),
    decreases files.len(),
{
    if files.len() > 0 {
        lemma_paths_with_hash_count(files.drop_last(), h);
    }
}

/// Every size candidate has a size that occurs at least twice in the
/// input.
proof fn lemma_candidate_counted(
    all: Seq<SizedFileModel>,
    files: Seq<SizedFileModel>,
    x: SizedFileModel,
)
    requires
        size_candidates_of(all, files).contains(x),
    ensures
        count_with_size(all, x.size) >= 2,
    decreases files.len(),
{
    if files.len() == 0 {
    } else {
        let prefix = size_candidates_of(all, files.drop_last());
        let r = size_candidates_of(all, files);
        if count_with_size(all, files.last().size) >= 2 {
            let idx = choose|idx: int| 0 <= idx < r.len() && r[idx] == x;
            if idx < prefix.len() {
                assert(prefix[idx] == x);
                assert(prefix.contains(x));
                lemma_candidate_counted(all, files.drop_last(), x);
            } else {
                assert(x == files.last());
            }
        } else {
            lemma_candidate_counted(all, files.drop_last(), x);
        }
    }
}

/// The deletion candidates among duplicate groups, by the keep-the-first
/// convention: every path of every group except each group's first.
pub open spec fn group_tails(groups: Seq<Seq<Seq<char>>>) -> Seq<Seq<char>>
    decreases groups.len(),
{
    if groups.len() == 0 {
        Seq::empty()
    } else {
        group_tails(groups.drop_last()) + (if groups.last().len() > 1 {
            groups.last().subrange(1, groups.last().len() as int)
        } else {
            Seq::empty()
        })
    }
}

impl DuplicateFinder {
    /// The files a cleanup of the duplicate groups would remove: each
    /// group's first path is kept, the rest are candidates. The order
    /// within a group is the detector's output order; treating the first
    /// as canonical is this caller-level convention, not a detector
    /// guarantee.
    pub fn delete_candidates(&self, groups: &Vec<Vec<String>>) -> (r: Vec<String>)
        ensures
            r.deep_view() == group_tails(groups.deep_view()),
    {
        let ghost gms = groups.deep_view();
        let mut r: Vec<String> = Vec::new();
        let mut k: usize = 0;
        while k < groups.len()
            invariant
                k <= groups@.len(),
                gms == groups.deep_view(),
                r.deep_view() == group_tails(gms.subrange(0, k as int)),
            decreases groups@.len() - k,
        {
            proof {
                assert(gms.subrange(0, k + 1 as int).drop_last() =~= gms.subrange(0, k as int));
                assert(gms.subrange(0, k + 1 as int).last() == gms[k as int]);
            }
            let g = &groups[k];
            if g.len() > 1 {
                let gn = g.len();
                let mut j: usize = 1;
                while j < gn
                    invariant
                        1 <= j <= gn,
                        gn == g@.len(),
                        1 < gn,
                        k < groups@.len(),
                        gms == groups.deep_view(),
                        g.deep_view() == gms[k as int],
                        r.deep_view() == group_tails(gms.subrange(0, k as int))
                            + gms[k as int].subrange(1, j as int),
                    decreases gn - j,
                {
                    r.push(g[j].clone());
                    proof {
                        assert(r.deep_view() =~= (group_tails(gms.subrange(0, k as int))
                            + gms[k as int].subrange(1, j as int)).push(gms[k as int][j as int]));
                        assert((group_tails(gms.subrange(0, k as int)) + gms[k as int].subrange(
                            1,
                            j as int,
                        )).push(gms[k as int][j as int]) =~= group_tails(gms.subrange(0, k as int))
                            + gms[k as int].subrange(1, j + 1 as int));
                    }
                    j = j + 1;
                }
                proof {
                    assert(gms[k as int].subrange(1, gn as int) == gms[k as int].subrange(
                        1,
                        gms[k as int].len() as int,
                    ));
                    assert(r.deep_view() =~= group_tails(gms.subrange(0, k + 1 as int)));
                }
            } else {
                proof {
                    assert(r.deep_view() =~= group_tails(gms.subrange(0, k + 1 as int)));
                }
            }
            k = k + 1;
        }
        proof {
            assert(gms.subrange(0, gms.len() as int) =~= gms);
        }
        r
    }
}

/// No digest is counted a negative number of times.
proof fn lemma_count_with_hash_nonneg(files: Seq<HashedFileModel>, h: Seq<u8>)
    ensures
        count_with_hash(files, h) >= 0,
    decreases files.len(),
{
    if files.len() > 0 {
        lemma_count_with_hash_nonneg(files.drop_last(), h);
    }
}

/// A digest carried by some file is counted at least once.
proof fn lemma_count_from_index(files: Seq<HashedFileModel>, h: Seq<u8>, i: int)
    requires
        0 <= i < files.len(),
        files[i].hash == h,
    ensures
        count_with_hash(files, h) >= 1,
    decreases files.len(),
{
    lemma_count_with_hash_nonneg(files.drop_last(), h);
    if i == files.len() - 1 {
    } else {
        lemma_count_from_index(files.drop_last(), h, i);
    }
}

/// A digest carried by two distinct files is counted at least twice.
proof fn lemma_count_from_two(files: Seq<HashedFileModel>, h: Seq<u8>, i: int, j: int)
    requires
        0 <= i < j < files.len(),
        files[i].hash == h,
        files[j].hash == h,
    ensures
        count_with_hash(files, h) >= 2,
    decreases files.len(),
{
    if j == files.len() - 1 {
        lemma_count_from_index(files.drop_last(), h, i);
    } else {
        lemma_count_from_two(files.drop_last(), h, i, j);
        lemma_count_with_hash_nonneg(files, h);
    }
}

/// A path stands in a digest's path list exactly when some file carries
/// that path and that digest.
proof fn lemma_paths_member(files: Seq<HashedFileModel>, h: Seq<u8>, p: Seq<char>)
    ensures
        paths_with_hash(files, h).contains(p) <==> (exists|i: int|
            0 <= i < files.len() && files[i].path == p && files[i].hash == h),
    decreases files.len(),
{
    if files.len() == 0 {
    } else {
        lemma_paths_member(files.drop_last(), h, p);
        let prefix = paths_with_hash(files.drop_last(), h);
        let r = paths_with_hash(files, h);
        if r.contains(p) {
            let idx = choose|idx: int| 0 <= idx < r.len() && r[idx] == p;
            if files.last().hash == h && idx == prefix.len() {
                assert(files[files.len() - 1].path == p && files[files.len() - 1].hash == h);
            } else {
                assert(prefix[idx] == p);
                assert(prefix.contains(p));
                let i = choose|i: int|
                    0 <= i < files.drop_last().len() && files.drop_last()[i].path == p
                        && files.drop_last()[i].hash == h;
                assert(files[i].path == p && files[i].hash == h);
            }
        }
        if exists|i: int| 0 <= i < files.len() && files[i].path == p && files[i].hash == h {
            let i = choose|i: int|
                0 <= i < files.len() && files[i].path == p && files[i].hash == h;
            if i == files.len() - 1 {
                assert(r[r.len() - 1] == p);
                assert(r.contains(p));
            } else {
                assert(files.drop_last()[i].path == p && files.drop_last()[i].hash == h);
                assert(prefix.contains(p));
                let idx = choose|idx: int| 0 <= idx < prefix.len() && prefix[idx] == p;
                assert(r[idx] == p);
                assert(r.contains(p));
            }
        }
    }
}

/// Every file's digest stands among the distinct digests.
proof fn lemma_distinct_contains(files: Seq<HashedFileModel>, i: int)
    requires
        0 <= i < files.len(),
    ensures
        distinct_hashes(files).contains(files[i].hash),
    decreases files.len(),
{
    let prefix = distinct_hashes(files.drop_last());
    let d = distinct_hashes(files);
    if i == files.len() - 1 {
        if prefix.contains(files.last().hash) {
        } else {
            assert(d[d.len() - 1] == files.last().hash);
            assert(d.contains(files.last().hash));
        }
    } else {
        lemma_distinct_contains(files.drop_last(), i);
        assert(files.drop_last()[i] == files[i]);
        let idx = choose|idx: int| 0 <= idx < prefix.len() && prefix[idx] == files[i].hash;
        assert(d[idx] == files[i].hash);
        assert(d.contains(files[i].hash));
    }
}

/// The distinct digests hold no digest twice.
proof fn lemma_distinct_no_dup(files: Seq<HashedFileModel>)
    ensures
        forall|a: int, b: int|
            0 <= a < b < distinct_hashes(files).len() ==> distinct_hashes(files)[a]
                != distinct_hashes(files)[b],
    decreases files.len(),
{
    if files.len() == 0 {
    } else {
        lemma_distinct_no_dup(files.drop_last());
        let prefix = distinct_hashes(files.drop_last());
        let d = distinct_hashes(files);
        if prefix.contains(files.last().hash) {
        } else {
            assert forall|a: int, b: int| 0 <= a < b < d.len() implies d[a] != d[b] by {
                if b < prefix.len() {
                } else {
                    assert(d[b] == files.last().hash);
                    if d[a] == d[b] {
                        assert(prefix[a] == files.last().hash);
                        assert(prefix.contains(files.last().hash));
                    }
                }
            }
        }
    }
}

/// Every returned group is the path list of some listed digest that at
/// least two files share.
proof fn lemma_dup_groups_member(files: Seq<HashedFileModel>, hs: Seq<Seq<u8>>, k: int)
    requires
        0 <= k < dup_groups_of(files, hs).len(),
    ensures
        exists|m: int|
            0 <= m < hs.len() && dup_groups_of(files, hs)[k] == paths_with_hash(files, hs[m])
                && count_with_hash(files, hs[m]) >= 2,
    decreases hs.len(),
{
    let g = dup_groups_of(files, hs);
    let pg = dup_groups_of(files, hs.drop_last());
    if count_with_hash(files, hs.last()) >= 2 && k == g.len() - 1 {
        let m = hs.len() - 1;
        assert(0 <= m < hs.len() && g[k] == paths_with_hash(files, hs[m]) && count_with_hash(
            files,
            hs[m],
        ) >= 2);
    } else {
        lemma_dup_groups_member(files, hs.drop_last(), k);
        let m = choose|m: int|
            0 <= m < hs.drop_last().len() && pg[k] == paths_with_hash(files, hs.drop_last()[m])
                && count_with_hash(files, hs.drop_last()[m]) >= 2;
        assert(hs.drop_last()[m] == hs[m]);
        assert(g[k] == pg[k]);
        assert(0 <= m < hs.len() && g[k] == paths_with_hash(files, hs[m]) && count_with_hash(
            files,
            hs[m],
        ) >= 2);
    }
}

/// Every listed digest that at least two files share has a returned
/// group: its path list.
proof fn lemma_dup_groups_complete(files: Seq<HashedFileModel>, hs: Seq<Seq<u8>>, m: int)
    requires
        0 <= m < hs.len(),
        count_with_hash(files, hs[m]) >= 2,
    ensures
        exists|k: int|
            0 <= k < dup_groups_of(files, hs).len() && dup_groups_of(files, hs)[k]
                == paths_with_hash(files, hs[m]),
    decreases hs.len(),
{
    let g = dup_groups_of(files, hs);
    let pg = dup_groups_of(files, hs.drop_last());
    if m == hs.len() - 1 {
        assert(g[g.len() - 1] == paths_with_hash(files, hs[m]));
        assert(0 <= g.len() - 1 < g.len() && g[g.len() - 1] == paths_with_hash(files, hs[m]));
    } else {
        assert(hs.drop_last()[m] == hs[m]);
        lemma_dup_groups_complete(files, hs.drop_last(), m);
        let k = choose|k: int| 0 <= k < pg.len() && pg[k] == paths_with_hash(files, hs[m]);
        assert(g[k] == paths_with_hash(files, hs[m]));
        assert(0 <= k < g.len() && g[k] == paths_with_hash(files, hs[m]));
    }
}

/// Two returned groups at distinct positions are the path lists of two
/// distinct listed digests, in order.
proof fn lemma_dup_groups_pair(files: Seq<HashedFileModel>, hs: Seq<Seq<u8>>, k1: int, k2: int)
    requires
        0 <= k1 < k2 < dup_groups_of(files, hs).len(),
    ensures
        exists|m1: int, m2: int|
            0 <= m1 < m2 < hs.len() && dup_groups_of(files, hs)[k1] == paths_with_hash(
                files,
                hs[m1],
            ) && dup_groups_of(files, hs)[k2] == paths_with_hash(files, hs[m2]),
    decreases hs.len(),
{
    let g = dup_groups_of(files, hs);
    let pg = dup_groups_of(files, hs.drop_last());
    if count_with_hash(files, hs.last()) >= 2 && k2 == g.len() - 1 {
        lemma_dup_groups_member(files, hs.drop_last(), k1);
        let m1 = choose|m1: int|
            0 <= m1 < hs.drop_last().len() && pg[k1] == paths_with_hash(files, hs.drop_last()[m1])
                && count_with_hash(files, hs.drop_last()[m1]) >= 2;
        let m2 = hs.len() - 1;
        assert(hs.drop_last()[m1] == hs[m1]);
        assert(g[k1] == pg[k1]);
        assert(0 <= m1 < m2 < hs.len() && g[k1] == paths_with_hash(files, hs[m1]) && g[k2]
            == paths_with_hash(files, hs[m2]));
    } else {
        lemma_dup_groups_pair(files, hs.drop_last(), k1, k2);
        let (m1, m2) = choose|m1: int, m2: int|
            0 <= m1 < m2 < hs.drop_last().len() && pg[k1] == paths_with_hash(
                files,
                hs.drop_last()[m1],
            ) && pg[k2] == paths_with_hash(files, hs.drop_last()[m2]);
        assert(hs.drop_last()[m1] == hs[m1] && hs.drop_last()[m2] == hs[m2]);
        assert(g[k1] == pg[k1] && g[k2] == pg[k2]);
        assert(0 <= m1 < m2 < hs.len() && g[k1] == paths_with_hash(files, hs[m1]) && g[k2]
            == paths_with_hash(files, hs[m2]));
    }
}

/// Every returned duplicate group holds at least two paths: a group is
/// made only of a digest that at least two files share.
pub proof fn lemma_groups_at_least_two(files: Seq<HashedFileModel>, k: int)
    requires
        0 <= k < duplicate_groups(files).len(),
    ensures
        duplicate_groups(files)[k].len() >= 2,
{
    let hs = distinct_hashes(files);
    lemma_dup_groups_member(files, hs, k);
    let m = choose|m: int|
        0 <= m < hs.len() && duplicate_groups(files)[k] == paths_with_hash(files, hs[m])
            && count_with_hash(files, hs[m]) >= 2;
    lemma_paths_with_hash_count(files, hs[m]);
}

/// Among files with pairwise distinct paths, a file whose path stands in
/// a group carries the group's digest.
proof fn lemma_group_member_hash(files: Seq<HashedFileModel>, h: Seq<u8>, i: int)
    requires
        0 <= i < files.len(),
        forall|a: int, b: int| 0 <= a < b < files.len() ==> files[a].path != files[b].path,
        paths_with_hash(files, h).contains(files[i].path),
    ensures
        files[i].hash == h,
{
    lemma_paths_member(files, h, files[i].path);
    let w = choose|w: int|
        0 <= w < files.len() && files[w].path == files[i].path && files[w].hash == h;
    if w < i {
        assert(files[w].path != files[i].path);
    } else if i < w {
        assert(files[i].path != files[w].path);
    }
}

/// Duplicate detection round-trip: among files with pairwise distinct
/// paths, two files appear together in a returned group exactly when
/// their content digests are equal — and any one path stands in at most
/// one group, so two duplicates share exactly one group.
pub proof fn lemma_duplicates_round_trip(files: Seq<HashedFileModel>, i: int, j: int)
    requires
        0 <= i < files.len(),
        0 <= j < files.len(),
        i != j,
        forall|a: int, b: int| 0 <= a < b < files.len() ==> files[a].path != files[b].path,
    ensures
        (files[i].hash == files[j].hash) <==> (exists|k: int|
            0 <= k < duplicate_groups(files).len() && duplicate_groups(files)[k].contains(
                files[i].path,
            ) && duplicate_groups(files)[k].contains(files[j].path)),
        forall|k1: int, k2: int|
            0 <= k1 < duplicate_groups(files).len() && 0 <= k2 < duplicate_groups(files).len()
                && duplicate_groups(files)[k1].contains(files[i].path) && duplicate_groups(
                files,
            )[k2].contains(files[i].path) ==> k1 == k2,
{
    let hs = distinct_hashes(files);
    let g = duplicate_groups(files);
    lemma_distinct_no_dup(files);
    if files[i].hash == files[j].hash {
        let h = files[i].hash;
        if i < j {
            lemma_count_from_two(files, h, i, j);
        } else {
            lemma_count_from_two(files, h, j, i);
        }
        lemma_distinct_contains(files, i);
        let m = choose|m: int| 0 <= m < hs.len() && hs[m] == h;
        lemma_dup_groups_complete(files, hs, m);
        let k = choose|k: int| 0 <= k < g.len() && g[k] == paths_with_hash(files, hs[m]);
        lemma_paths_member(files, h, files[i].path);
        lemma_paths_member(files, h, files[j].path);
        assert(g[k].contains(files[i].path) && g[k].contains(files[j].path));
    }
    if exists|k: int|
        0 <= k < g.len() && g[k].contains(files[i].path) && g[k].contains(files[j].path) {
        let k = choose|k: int|
            0 <= k < g.len() && g[k].contains(files[i].path) && g[k].contains(files[j].path);
        lemma_dup_groups_member(files, hs, k);
        let m = choose|m: int|
            0 <= m < hs.len() && g[k] == paths_with_hash(files, hs[m]) && count_with_hash(
                files,
                hs[m],
            ) >= 2;
        lemma_group_member_hash(files, hs[m], i);
        lemma_group_member_hash(files, hs[m], j);
    }
    assert forall|k1: int, k2: int|
        0 <= k1 < g.len() && 0 <= k2 < g.len() && g[k1].contains(files[i].path) && g[k2].contains(
            files[i].path,
        ) implies k1 == k2 by {
        if k1 < k2 {
            lemma_dup_groups_pair(files, hs, k1, k2);
            let (m1, m2) = choose|m1: int, m2: int|
                0 <= m1 < m2 < hs.len() && g[k1] == paths_with_hash(files, hs[m1]) && g[k2]
                    == paths_with_hash(files, hs[m2]);
            lemma_group_member_hash(files, hs[m1], i);
            lemma_group_member_hash(files, hs[m2], i);
            assert(hs[m1] == hs[m2]);
            assert(false);
        } else if k2 < k1 {
            lemma_dup_groups_pair(files, hs, k2, k1);
            let (m1, m2) = choose|m1: int, m2: int|
                0 <= m1 < m2 < hs.len() && g[k2] == paths_with_hash(files, hs[m1]) && g[k1]
                    == paths_with_hash(files, hs[m2]);
            lemma_group_member_hash(files, hs[m1], i);
            lemma_group_member_hash(files, hs[m2], i);
            assert(hs[m1] == hs[m2]);
            assert(false);
        }
    }
}

/// A file whose size is unique among the inputs is never a hashing
/// candidate: phase one drops it, so phase two never sees it.
pub proof fn lemma_unique_size_never_hashed(files: Seq<SizedFileModel>, i: int)
    requires
        0 <= i < files.len(),
        count_with_size(files, files[i].size) < 2,
    ensures
        !size_candidates_of(files, files).contains(files[i]),
{
    if size_candidates_of(files, files).contains(files[i]) {
        lemma_candidate_counted(files, files, files[i]);
        assert(false);
    }
}

} // verus!
