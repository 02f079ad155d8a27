//! The scan core: given the walked entries of a directory tree — each a
//! path with its size and age, read once by the caller — apply the policy
//! filters in order (minimum size, maximum age, hidden files, exclusions),
//! classify every retained file, and aggregate totals per category. A
//! separate pass reports directories with nothing beneath them as empty
//! folders. The walk itself, being filesystem work, is the caller's.

use vstd::prelude::*;

use crate::config::{spec_is_excluded, Config};
use crate::file_category::{spec_categorize, FileCategory};
use crate::text::{chars_of, file_name_chars, file_name_of, is_sep};

verus! {

/// One walked regular file: its path, and the size and age its metadata
/// gave, `None` where that read failed.
#[derive(Debug, Clone)]
pub struct FileEntry {
    pub path: String,
    pub size: Option<u64>,
    pub age_days: Option<u64>,
}

/// The mathematical model of a walked file.
pub struct FileEntryModel {
    pub path: Seq<char>,
    pub size: Option<u64>,
    pub age_days: Option<u64>,
}

impl DeepView for FileEntry {
    type V = FileEntryModel;

    open spec fn deep_view(&self) -> FileEntryModel {
        FileEntryModel { path: self.path@, size: self.size, age_days: self.age_days }
    }
}

/// A retained file together with the category the classifier assigned.
#[derive(Debug, Clone)]
pub struct CategorizedFile {
    pub path: String,
    pub category: FileCategory,
}

/// The mathematical model of a categorized file.
pub struct CategorizedFileModel {
    pub path: Seq<char>,
    pub category: FileCategory,
}

impl DeepView for CategorizedFile {
    type V = CategorizedFileModel;

    open spec fn deep_view(&self) -> CategorizedFileModel {
        CategorizedFileModel { path: self.path@, category: self.category }
    }
}

/// The outcome of a scan: how many entries were processed, the total size
/// of the retained files, every retained file with its category, and the
/// wall-clock duration the caller measured for the walk.
#[derive(Debug, Clone)]
pub struct ScanResult {
    pub total_files: usize,
    pub total_size: u64,
    pub files: Vec<CategorizedFile>,
    pub scan_duration_ms: u64,
}

pub struct Scanner {
    pub config: Config,
}

/// The path names a hidden file: its file name begins with a dot.
pub open spec fn is_hidden_name(path: Seq<char>) -> bool {
    file_name_of(path).len() > 0 && file_name_of(path)[0] == '.'
}

/// Whether the policy retains a walked file: its metadata was readable,
/// it meets the minimum size, it is not older than the maximum age, it is
/// not hidden (unless hidden files are included), and no exclusion rule
/// vetoes it.
pub open spec fn entry_retained(cfg: Config, e: FileEntryModel) -> bool {
    &&& (match e.size {
        Some(s) => s >= cfg.min_file_size,
        None => false,
    })
    &&& (match e.age_days {
        Some(a) => a <= cfg.max_file_age_days as u64,
        None => true,
    })
    &&& (cfg.include_hidden_files || !is_hidden_name(e.path))
    &&& !spec_is_excluded(cfg, e.path)
}

/// The category of a retained file.
pub open spec fn entry_category(e: FileEntryModel) -> FileCategory {
    spec_categorize(e.path, e.size, e.age_days)
}

/// `child` lies strictly beneath the directory `parent`.
pub open spec fn path_under(parent: Seq<char>, child: Seq<char>) -> bool {
    &&& child.len() > parent.len()
    &&& child.subrange(0, parent.len() as int) == parent
    &&& is_sep(child[parent.len() as int])
}

/// A directory is empty when no walked file and no other walked directory
/// lies beneath it.
pub open spec fn dir_is_empty(d: Seq<char>, entries: Seq<FileEntryModel>, dirs: Seq<Seq<char>>) -> bool {
    &&& (forall|i: int| 0 <= i < entries.len() ==> !path_under(d, entries[i].path))
    &&& (forall|i: int| 0 <= i < dirs.len() ==> !path_under(d, dirs[i]))
}

/// The listing entry a retained file contributes.
pub open spec fn listed_file(e: FileEntryModel) -> CategorizedFileModel {
    CategorizedFileModel { path: e.path, category: entry_category(e) }
}

/// The retained files of the walked entries, in walk order, each with its
/// category.
pub open spec fn retained_files(cfg: Config, entries: Seq<FileEntryModel>) -> Seq<
    CategorizedFileModel,
>
    decreases entries.len(),
{
    if entries.len() == 0 {
        Seq::empty()
    } else {
        let prefix = retained_files(cfg, entries.drop_last());
        if entry_retained(cfg, entries.last()) {
            prefix.push(listed_file(entries.last()))
        } else {
            prefix
        }
    }
}

/// The empty directories among a prefix of the walked directories, judged
/// against all walked entries and directories.
pub open spec fn empty_dir_files_of(
    entries: Seq<FileEntryModel>,
    all_dirs: Seq<Seq<char>>,
    dirs: Seq<Seq<char>>,
) -> Seq<CategorizedFileModel>
    decreases dirs.len(),
{
    if dirs.len() == 0 {
        Seq::empty()
    } else {
        let prefix = empty_dir_files_of(entries, all_dirs, dirs.drop_last());
        if dir_is_empty(dirs.last(), entries, all_dirs) {
            prefix.push(
                CategorizedFileModel { path: dirs.last(), category: FileCategory::EmptyFolders },
            )
        } else {
            prefix
        }
    }
}

/// The full listing a scan produces: the retained files, then the empty
/// directories.
pub open spec fn scan_listing(
    cfg: Config,
    entries: Seq<FileEntryModel>,
    dirs: Seq<Seq<char>>,
) -> Seq<CategorizedFileModel> {
    retained_files(cfg, entries) + empty_dir_files_of(entries, dirs, dirs)
}

/// The total size of the retained files among the walked entries.
pub open spec fn retained_size(cfg: Config, entries: Seq<FileEntryModel>) -> int
    decreases entries.len(),
{
    if entries.len() == 0 {
        0
    } else {
        retained_size(cfg, entries.drop_last()) + (if entry_retained(cfg, entries.last()) {
            match entries.last().size {
                Some(s) => s as int,
                None => 0,
            }
        } else {
            0
        })
    }
}

/// What a scan result must report of the walked tree; everything but the
/// measured duration.
pub open spec fn scan_matches(
    cfg: Config,
    entries: Seq<FileEntryModel>,
    dirs: Seq<Seq<char>>,
    r: ScanResult,
) -> bool {
    &&& r.total_files == entries.len()
    &&& r.total_size as int == retained_size(cfg, entries)
    &&& r.files.deep_view() == scan_listing(cfg, entries, dirs)
}

/// The total size of retained files is never negative.
proof fn lemma_retained_size_nonneg(cfg: Config, entries: Seq<FileEntryModel>)
    ensures
        retained_size(cfg, entries) >= 0,
    decreases entries.len(),
{
    if entries.len() > 0 {
        lemma_retained_size_nonneg(cfg, entries.drop_last());
    }
}

/// The total size of a prefix of the entries is at most the total size of
/// all of them.
proof fn lemma_retained_size_prefix(cfg: Config, entries: Seq<FileEntryModel>, i: int)
    requires
        0 <= i <= entries.len(),
    ensures
        retained_size(cfg, entries.subrange(0, i)) <= retained_size(cfg, entries),
    decreases entries.len() - i,
{
    if i == entries.len() {
        assert(entries.subrange(0, i) =~= entries);
    } else {
        lemma_retained_size_prefix(cfg, entries, i + 1);
        assert(entries.subrange(0, i + 1).drop_last() =~= entries.subrange(0, i));
    }
}

/// `child` lies strictly beneath `parent`, executable form.
fn path_under_check(parent: &Vec<char>, child: &str) -> (r: bool)
    ensures
        r == path_under(parent@, child@),
{
    let c = chars_of(child);
    let plen = parent.len();
    if c.len() <= plen {
        return false;
    }
    let mut j: usize = 0;
    while j < plen
        invariant
            j <= plen,
            plen == parent@.len(),
            plen < c@.len(),
            c@ == child@,
            forall|k: int| 0 <= k < j ==> c@[k] == parent@[k],
        decreases plen - j,
    {
        if c[j] != parent[j] {
            proof {
                assert(child@.subrange(0, plen as int)[j as int] != parent@[j as int]);
            }
            return false;
        }
        j = j + 1;
    }
    proof {
        assert(child@.subrange(0, plen as int) =~= parent@);
    }
    let sep = c[plen];
    sep == '/' || sep == '\\'
}

/// A directory has nothing beneath it among the walked entries and
/// directories, executable form.
fn dir_empty_check(d: &str, entries: &Vec<FileEntry>, dirs: &Vec<String>) -> (r: bool)
    ensures
        r == dir_is_empty(d@, entries.deep_view(), dirs.deep_view()),
{
    let dc = chars_of(d);
    let mut i: usize = 0;
    while i < entries.len()
        invariant
            i <= entries@.len(),
            dc@ == d@,
            forall|k: int| 0 <= k < i ==> !path_under(d@, entries.deep_view()[k].path),
        decreases entries@.len() - i,
    {
        if path_under_check(&dc, entries[i].path.as_str()) {
            proof {
                assert(path_under(d@, entries.deep_view()[i as int].path));
                assert(!dir_is_empty(d@, entries.deep_view(), dirs.deep_view()));
            }
            return false;
        }
        i = i + 1;
    }
    let mut j: usize = 0;
    while j < dirs.len()
        invariant
            j <= dirs@.len(),
            dc@ == d@,
            forall|k: int| 0 <= k < entries.deep_view().len() ==> !path_under(
                d@,
                entries.deep_view()[k].path,
            ),
            forall|k: int| 0 <= k < j ==> !path_under(d@, dirs.deep_view()[k]),
        decreases dirs@.len() - j,
    {
        if path_under_check(&dc, dirs[j].as_str()) {
            proof {
                assert(path_under(d@, dirs.deep_view()[j as int]));
                assert(!dir_is_empty(d@, entries.deep_view(), dirs.deep_view()));
            }
            return false;
        }
        j = j + 1;
    }
    true
}

impl Scanner {
    pub fn new(config: Config) -> (s: Self)
        ensures
            s.config == config,
    {
        Scanner { config }
    }

    /// Whether the policy retains a walked file, executable form.
    fn retain_entry(&self, e: &FileEntry) -> (r: bool)
        ensures
            r == entry_retained(self.config, e.deep_view()),
    {
        match e.size {
            None => false,
            Some(sz) => {
                if sz < self.config.min_file_size {
                    return false;
                }
                if let Some(a) = e.age_days {
                    if a > self.config.max_file_age_days as u64 {
                        return false;
                    }
                }
                if !self.config.include_hidden_files {
                    let chars = chars_of(e.path.as_str());
                    let fname = file_name_chars(&chars);
                    if fname.len() > 0 && fname[0] == '.' {
                        return false;
                    }
                }
                !self.config.is_path_excluded(e.path.as_str())
            },
        }
    }

    /// Process the walked entries of a tree: count them all, filter and
    /// classify the retained files, total their sizes, and report the
    /// empty directories. `elapsed_ms` is the wall-clock duration the
    /// caller measured for the walk, reported back unchanged.
    pub fn scan(&self, entries: &Vec<FileEntry>, dirs: &Vec<String>, elapsed_ms: u64) -> (r:
        ScanResult)
        requires
            retained_size(self.config, entries.deep_view()) <= u64::MAX,
        ensures
            scan_matches(self.config, entries.deep_view(), dirs.deep_view(), r),
            r.scan_duration_ms == elapsed_ms,
    {
        let ghost ems = entries.deep_view();
        let cfg = Ghost(self.config);
        let mut files: Vec<CategorizedFile> = Vec::new();
        let mut total_size: u64 = 0;
        let mut i: usize = 0;
        while i < entries.len()
            invariant
                i <= entries@.len(),
                ems == entries.deep_view(),
                cfg@ == self.config,
                retained_size(cfg@, ems) <= u64::MAX,
                files.deep_view() == retained_files(cfg@, ems.subrange(0, i as int)),
                total_size as int == retained_size(cfg@, ems.subrange(0, i as int)),
            decreases entries@.len() - i,
        {
            proof {
                assert(ems.subrange(0, i + 1 as int).drop_last() =~= ems.subrange(0, i as int));
                assert(ems.subrange(0, i as int).push(ems[i as int]) =~= ems.subrange(
                    0,
                    i + 1 as int,
                ));
                lemma_retained_size_prefix(cfg@, ems, i + 1);
            }
            let e = &entries[i];
            if self.retain_entry(e) {
                let cat = FileCategory::categorize(e.path.as_str(), e.size, e.age_days);
                let sz = e.size.unwrap();
                files.push(CategorizedFile { path: e.path.clone(), category: cat });
                total_size = total_size + sz;
                proof {
                    assert(files.deep_view() =~= retained_files(cfg@, ems.subrange(0, i + 1 as int)));
                }
            } else {
                proof {
                    assert(files.deep_view() =~= retained_files(cfg@, ems.subrange(0, i + 1 as int)));
                }
            }
            i = i + 1;
        }
        proof {
            assert(ems.subrange(0, ems.len() as int) =~= ems);
        }
        let ghost dms = dirs.deep_view();
        let mut d: usize = 0;
        while d < dirs.len()
            invariant
                d <= dirs@.len(),
                ems == entries.deep_view(),
                dms == dirs.deep_view(),
                cfg@ == self.config,
                total_size as int == retained_size(cfg@, ems),
                files.deep_view() == retained_files(cfg@, ems) + empty_dir_files_of(
                    ems,
                    dms,
                    dms.subrange(0, d as int),
                ),
            decreases dirs@.len() - d,
        {
            proof {
                assert(dms.subrange(0, d as int).push(dms[d as int]) =~= dms.subrange(
                    0,
                    d + 1 as int,
                ));
                assert(dms.subrange(0, d + 1 as int).drop_last() =~= dms.subrange(0, d as int));
                assert(dms.subrange(0, d + 1 as int).last() == dms[d as int]);
            }
            if dir_empty_check(dirs[d].as_str(), entries, dirs) {
                files.push(CategorizedFile { path: dirs[d].clone(), category: FileCategory::EmptyFolders });
                proof {
                    let m = CategorizedFileModel {
                        path: dms[d as int],
                        category: FileCategory::EmptyFolders,
                    };
                    assert(dir_is_empty(dms[d as int], ems, dms));
                    assert(empty_dir_files_of(ems, dms, dms.subrange(0, d + 1 as int))
                        == empty_dir_files_of(ems, dms, dms.subrange(0, d as int)).push(m));
                    assert(files.deep_view() =~= (retained_files(cfg@, ems) + empty_dir_files_of(
                        ems,
                        dms,
                        dms.subrange(0, d as int),
                    )).push(m));
                    assert((retained_files(cfg@, ems) + empty_dir_files_of(
                        ems,
                        dms,
                        dms.subrange(0, d as int),
                    )).push(m) =~= retained_files(cfg@, ems) + empty_dir_files_of(
                        ems,
                        dms,
                        dms.subrange(0, d as int),
                    ).push(m));
                }
            } else {
                proof {
                    assert(files.deep_view() =~= retained_files(cfg@, ems) + empty_dir_files_of(
                        ems,
                        dms,
                        dms.subrange(0, d + 1 as int),
                    ));
                }
            }
            d = d + 1;
        }
        proof {
            assert(dms.subrange(0, dms.len() as int) =~= dms);
        }
        ScanResult { total_files: entries.len(), total_size, files, scan_duration_ms: elapsed_ms }
    }
}

/// The paths a scan listing assigns to one category, in listing order.
pub open spec fn paths_in_category(files: Seq<CategorizedFileModel>, c: FileCategory) -> Seq<
    Seq<char>,
>
    decreases files.len(),
{
    if files.len() == 0 {
        Seq::empty()
    } else {
        let prefix = paths_in_category(files.drop_last(), c);
        if files.last().category == c {
            prefix.push(files.last().path)
        } else {
            prefix
        }
    }
}

impl ScanResult {
    /// The paths this result assigned to one category.
    pub fn files_in_category(&self, c: FileCategory) -> (r: Vec<String>)
        ensures
            r.deep_view() == paths_in_category(self.files.deep_view(), c),
    {
        let ghost fms = self.files.deep_view();
        let mut r: Vec<String> = Vec::new();
        let mut i: usize = 0;
        while i < self.files.len()
            invariant
                i <= self.files@.len(),
                fms == self.files.deep_view(),
                r.deep_view() == paths_in_category(fms.subrange(0, i as int), c),
            decreases self.files@.len() - i,
        {
            proof {
                assert(fms.subrange(0, i as int).push(fms[i as int]) =~= fms.subrange(
                    0,
                    i + 1 as int,
                ));
                assert(fms.subrange(0, i + 1 as int).drop_last() =~= fms.subrange(0, i as int));
                assert(fms.subrange(0, i + 1 as int).last() == fms[i as int]);
            }
            if self.files[i].category == c {
                r.push(self.files[i].path.clone());
            }
            proof {
                assert(r.deep_view() =~= paths_in_category(fms.subrange(0, i + 1 as int), c));
            }
            i = i + 1;
        }
        proof {
            assert(fms.subrange(0, fms.len() as int) =~= fms);
        }
        r
    }
}

/// Scanning an unchanged tree twice yields the same result apart from the
/// measured duration: the outcome is a function of the walked entries,
/// the walked directories and the policy alone.
pub proof fn lemma_scan_deterministic(
    cfg: Config,
    entries: Seq<FileEntryModel>,
    dirs: Seq<Seq<char>>,
    r1: ScanResult,
    r2: ScanResult,
)
    requires
        scan_matches(cfg, entries, dirs, r1),
        scan_matches(cfg, entries, dirs, r2),
    ensures
        r1.total_files == r2.total_files,
        r1.total_size == r2.total_size,
        r1.files.deep_view() == r2.files.deep_view(),
{
}

} // verus!
