//! File classification: a deterministic, prioritized rule chain that maps a
//! path and its metadata to a cleanup category. The first matching rule
//! wins; the name- and extension-based rules precede the size- and
//! age-based ones, and `SystemJunk` is the default.

use vstd::prelude::*;

use crate::text::{
    chars_of, contains_ci, ends_with_ci, ends_with_ci_chars, eq_ci, eq_ci_chars, extension_chars,
    extension_of, file_name_chars, file_name_of, find_ci, starts_with_ci, starts_with_ci_chars,
};

verus! {

/// A file strictly larger than this many bytes is a large file.
pub const LARGE_FILE_BYTES: u64 = 100 * 1024 * 1024;

/// A file strictly older than this many days is an old file.
pub const OLD_FILE_DAYS: u64 = 30;

#[derive(Debug, Clone, Copy, PartialEq, Eq, Hash, Structural)]
pub enum FileCategory {
    TemporaryFiles,
    CacheFiles,
    LogFiles,
    BrowserData,
    SystemJunk,
    EmptyFolders,
    LargeFiles,
    OldFiles,
    Downloads,
    RecycleBin,
}

/// The path's extension equals `pat` up to ASCII case.
pub open spec fn has_ext_ci(path: Seq<char>, pat: Seq<char>) -> bool {
    match extension_of(file_name_of(path)) {
        Some(e) => eq_ci(e, pat),
        None => false,
    }
}

/// The temporary-file rule.
pub open spec fn is_temporary(path: Seq<char>) -> bool {
    ||| has_ext_ci(path, "tmp"@)
    ||| has_ext_ci(path, "temp"@)
    ||| starts_with_ci(file_name_of(path), "~"@)
    ||| starts_with_ci(file_name_of(path), ".#"@)
    ||| contains_ci(path, "/tmp/"@)
    ||| contains_ci(path, "\\temp\\"@)
    ||| contains_ci(path, "/var/tmp/"@)
    ||| contains_ci(path, "\\windows\\temp\\"@)
}

/// The cache-file rule.
pub open spec fn is_cache(path: Seq<char>) -> bool {
    ||| contains_ci(path, "cache"@)
    ||| contains_ci(path, ".cache"@)
    ||| has_ext_ci(path, "cache"@)
    ||| contains_ci(path, "/var/cache/"@)
    ||| contains_ci(path, "\\appdata\\local\\"@)
}

/// The log-file rule.
pub open spec fn is_log(path: Seq<char>) -> bool {
    ||| has_ext_ci(path, "log"@)
    ||| has_ext_ci(path, "out"@)
    ||| has_ext_ci(path, "err"@)
    ||| ends_with_ci(file_name_of(path), ".log"@)
    ||| ends_with_ci(file_name_of(path), ".out"@)
    ||| contains_ci(path, "/var/log/"@)
    ||| contains_ci(path, "\\logs\\"@)
}

/// The browser-data rule.
pub open spec fn is_browser_data(path: Seq<char>) -> bool {
    ||| contains_ci(path, "browser"@)
    ||| contains_ci(path, "firefox"@)
    ||| contains_ci(path, "chrome"@)
    ||| contains_ci(path, "safari"@)
    ||| contains_ci(path, "cookies"@)
    ||| contains_ci(path, "history"@)
    ||| (has_ext_ci(path, "sqlite"@) && contains_ci(path, "mozilla"@))
}

/// The downloads rule.
pub open spec fn is_downloads(path: Seq<char>) -> bool {
    ||| contains_ci(path, "download"@)
    ||| contains_ci(path, "downloads"@)
}

/// The recycle-bin rule.
pub open spec fn is_recycle_bin(path: Seq<char>) -> bool {
    ||| contains_ci(path, "recycle"@)
    ||| contains_ci(path, "trash"@)
    ||| contains_ci(path, ".trash"@)
    ||| contains_ci(path, "$recycle.bin"@)
}

/// The name-based system-junk rule.
pub open spec fn is_system_junk_name(path: Seq<char>) -> bool {
    ||| has_ext_ci(path, "bak"@)
    ||| has_ext_ci(path, "old"@)
    ||| has_ext_ci(path, "backup"@)
    ||| starts_with_ci(file_name_of(path), "core."@)
    ||| eq_ci(file_name_of(path), "thumbs.db"@)
    ||| eq_ci(file_name_of(path), ".ds_store"@)
    ||| eq_ci(file_name_of(path), "desktop.ini"@)
}

/// The category of a file: the first rule of the priority chain that
/// matches its path or, failing those, its size and age; `SystemJunk`
/// when none matches. `size` and `age_days` are `None` when the metadata
/// could not be read.
pub open spec fn spec_categorize(path: Seq<char>, size: Option<u64>, age_days: Option<u64>) -> FileCategory {
    if is_temporary(path) {
        FileCategory::TemporaryFiles
    } else if is_cache(path) {
        FileCategory::CacheFiles
    } else if is_log(path) {
        FileCategory::LogFiles
    } else if is_browser_data(path) {
        FileCategory::BrowserData
    } else if is_downloads(path) {
        FileCategory::Downloads
    } else if is_recycle_bin(path) {
        FileCategory::RecycleBin
    } else if is_system_junk_name(path) {
        FileCategory::SystemJunk
    } else if size matches Some(s) && s > LARGE_FILE_BYTES {
        FileCategory::LargeFiles
    } else if age_days matches Some(a) && a > OLD_FILE_DAYS {
        FileCategory::OldFiles
    } else {
        FileCategory::SystemJunk
    }
}

/// Every category, in declaration order.
pub open spec fn all_categories() -> Seq<FileCategory> {
    seq![
        FileCategory::TemporaryFiles,
        FileCategory::CacheFiles,
        FileCategory::LogFiles,
        FileCategory::BrowserData,
        FileCategory::SystemJunk,
        FileCategory::EmptyFolders,
        FileCategory::LargeFiles,
        FileCategory::OldFiles,
        FileCategory::Downloads,
        FileCategory::RecycleBin,
    ]
}

/// The human description of a category.
pub open spec fn spec_description(c: FileCategory) -> Seq<char> {
    match c {
        FileCategory::TemporaryFiles => "Temporary files that can be safely deleted"@,
        FileCategory::CacheFiles => "Application cache files"@,
        FileCategory::LogFiles => "Log files from applications and system"@,
        FileCategory::BrowserData => "Browser cache, cookies, and temporary data"@,
        FileCategory::SystemJunk => "System junk files and backups"@,
        FileCategory::EmptyFolders => "Empty directories"@,
        FileCategory::LargeFiles => "Large files over 100MB"@,
        FileCategory::OldFiles => "Files older than 30 days"@,
        FileCategory::Downloads => "Files in download directories"@,
        FileCategory::RecycleBin => "Files in trash/recycle bin"@,
    }
}

/// Whether a category may be deleted without explicit confirmation.
pub open spec fn spec_is_safe_to_delete(c: FileCategory) -> bool {
    match c {
        FileCategory::TemporaryFiles => true,
        FileCategory::CacheFiles => true,
        FileCategory::LogFiles => true,
        FileCategory::SystemJunk => true,
        FileCategory::EmptyFolders => true,
        FileCategory::RecycleBin => true,
        FileCategory::BrowserData => false,
        FileCategory::LargeFiles => false,
        FileCategory::OldFiles => false,
        FileCategory::Downloads => false,
    }
}

impl FileCategory {
    /// Every category, in declaration order.
    pub fn all() -> (r: Vec<FileCategory>)
        ensures
            r@ == all_categories(),
    {
        let mut r: Vec<FileCategory> = Vec::new();
        r.push(FileCategory::TemporaryFiles);
        r.push(FileCategory::CacheFiles);
        r.push(FileCategory::LogFiles);
        r.push(FileCategory::BrowserData);
        r.push(FileCategory::SystemJunk);
        r.push(FileCategory::EmptyFolders);
        r.push(FileCategory::LargeFiles);
        r.push(FileCategory::OldFiles);
        r.push(FileCategory::Downloads);
        r.push(FileCategory::RecycleBin);
        proof {
            assert(r@ =~= all_categories());
        }
        r
    }

    /// Classify a file by its path, size in bytes, and age in days;
    /// `None` metadata means the corresponding value could not be read.
    pub fn categorize(path: &str, size: Option<u64>, age_days: Option<u64>) -> (c: FileCategory)
        ensures
            c == spec_categorize(path@, size, age_days),
    {
        let chars = chars_of(path);
        let fname = file_name_chars(&chars);
        let ext = extension_chars(&fname);

        if check_temporary(&chars, &fname, &ext) {
            return FileCategory::TemporaryFiles;
        }
        if check_cache(&chars, &ext) {
            return FileCategory::CacheFiles;
        }
        if check_log(&chars, &fname, &ext) {
            return FileCategory::LogFiles;
        }
        if check_browser_data(&chars, &ext) {
            return FileCategory::BrowserData;
        }
        if check_downloads(&chars) {
            return FileCategory::Downloads;
        }
        if check_recycle_bin(&chars) {
            return FileCategory::RecycleBin;
        }
        if check_system_junk_name(&chars, &fname, &ext) {
            return FileCategory::SystemJunk;
        }
        if let Some(s) = size {
            if s > LARGE_FILE_BYTES {
                return FileCategory::LargeFiles;
            }
        }
        if let Some(a) = age_days {
            if a > OLD_FILE_DAYS {
                return FileCategory::OldFiles;
            }
        }
        FileCategory::SystemJunk
    }

    /// The human description of this category.
    pub fn description(&self) -> (d: &'static str)
        ensures
            d@ == spec_description(*self),
    {
        match self {
            FileCategory::TemporaryFiles => "Temporary files that can be safely deleted",
            FileCategory::CacheFiles => "Application cache files",
            FileCategory::LogFiles => "Log files from applications and system",
            FileCategory::BrowserData => "Browser cache, cookies, and temporary data",
            FileCategory::SystemJunk => "System junk files and backups",
            FileCategory::EmptyFolders => "Empty directories",
            FileCategory::LargeFiles => "Large files over 100MB",
            FileCategory::OldFiles => "Files older than 30 days",
            FileCategory::Downloads => "Files in download directories",
            FileCategory::RecycleBin => "Files in trash/recycle bin",
        }
    }

    /// Whether this category may be deleted without explicit confirmation.
    pub fn is_safe_to_delete(&self) -> (r: bool)
        ensures
            r == spec_is_safe_to_delete(*self),
    {
        match self {
            FileCategory::TemporaryFiles
            | FileCategory::CacheFiles
            | FileCategory::LogFiles
            | FileCategory::SystemJunk
            | FileCategory::EmptyFolders
            | FileCategory::RecycleBin => true,
            FileCategory::BrowserData
            | FileCategory::LargeFiles
            | FileCategory::OldFiles
            | FileCategory::Downloads => false,
        }
    }
}

/// The path's extension equals `pat` up to ASCII case, given the already
/// extracted extension.
fn check_ext(ext: &Option<Vec<char>>, pat: &str, Ghost(path): Ghost<Seq<char>>) -> (r: bool)
    requires
        match *ext {
            Some(e) => extension_of(file_name_of(path)) == Some(e@),
            None => extension_of(file_name_of(path)) is None,
        },
    ensures
        r == has_ext_ci(path, pat@),
{
    match ext {
        Some(e) => {
            let p = chars_of(pat);
            eq_ci_chars(e, &p)
        },
        None => false,
    }
}

/// `pat` occurs in `s`, up to ASCII case.
fn check_contains(s: &Vec<char>, pat: &str) -> (r: bool)
    ensures
        r == contains_ci(s@, pat@),
{
    let p = chars_of(pat);
    find_ci(s, &p)
}

/// The temporary-file rule, executable form.
fn check_temporary(chars: &Vec<char>, fname: &Vec<char>, ext: &Option<Vec<char>>) -> (r: bool)
    requires
        fname@ == file_name_of(chars@),
        match *ext {
            Some(e) => extension_of(fname@) == Some(e@),
            None => extension_of(fname@) is None,
        },
    ensures
        r == is_temporary(chars@),
{
    if check_ext(ext, "tmp", Ghost(chars@)) {
        return true;
    }
    if check_ext(ext, "temp", Ghost(chars@)) {
        return true;
    }
    let tilde = chars_of("~");
    if starts_with_ci_chars(fname, &tilde) {
        return true;
    }
    let dot_hash = chars_of(".#");
    if starts_with_ci_chars(fname, &dot_hash) {
        return true;
    }
    check_contains(chars, "/tmp/") || check_contains(chars, "\\temp\\") || check_contains(
        chars,
        "/var/tmp/",
    ) || check_contains(chars, "\\windows\\temp\\")
}

/// The cache-file rule, executable form.
fn check_cache(chars: &Vec<char>, ext: &Option<Vec<char>>) -> (r: bool)
    requires
        match *ext {
            Some(e) => extension_of(file_name_of(chars@)) == Some(e@),
            None => extension_of(file_name_of(chars@)) is None,
        },
    ensures
        r == is_cache(chars@),
{
    check_contains(chars, "cache") || check_contains(chars, ".cache") || check_ext(
        ext,
        "cache",
        Ghost(chars@),
    ) || check_contains(chars, "/var/cache/") || check_contains(chars, "\\appdata\\local\\")
}

/// The log-file rule, executable form.
fn check_log(chars: &Vec<char>, fname: &Vec<char>, ext: &Option<Vec<char>>) -> (r: bool)
    requires
        fname@ == file_name_of(chars@),
        match *ext {
            Some(e) => extension_of(fname@) == Some(e@),
            None => extension_of(fname@) is None,
        },
    ensures
        r == is_log(chars@),
{
    if check_ext(ext, "log", Ghost(chars@)) || check_ext(ext, "out", Ghost(chars@)) || check_ext(
        ext,
        "err",
        Ghost(chars@),
    ) {
        return true;
    }
    let dot_log = chars_of(".log");
    if ends_with_ci_chars(fname, &dot_log) {
        return true;
    }
    let dot_out = chars_of(".out");
    if ends_with_ci_chars(fname, &dot_out) {
        return true;
    }
    check_contains(chars, "/var/log/") || check_contains(chars, "\\logs\\")
}

/// The browser-data rule, executable form.
fn check_browser_data(chars: &Vec<char>, ext: &Option<Vec<char>>) -> (r: bool)
    requires
        match *ext {
            Some(e) => extension_of(file_name_of(chars@)) == Some(e@),
            None => extension_of(file_name_of(chars@)) is None,
        },
    ensures
        r == is_browser_data(chars@),
{
    check_contains(chars, "browser") || check_contains(chars, "firefox") || check_contains(
        chars,
        "chrome",
    ) || check_contains(chars, "safari") || check_contains(chars, "cookies") || check_contains(
        chars,
        "history",
    ) || (check_ext(ext, "sqlite", Ghost(chars@)) && check_contains(chars, "mozilla"))
}

/// The downloads rule, executable form.
fn check_downloads(chars: &Vec<char>) -> (r: bool)
    ensures
        r == is_downloads(chars@),
{
    check_contains(chars, "download") || check_contains(chars, "downloads")
}

/// The recycle-bin rule, executable form.
fn check_recycle_bin(chars: &Vec<char>) -> (r: bool)
    ensures
        r == is_recycle_bin(chars@),
{
    check_contains(chars, "recycle") || check_contains(chars, "trash") || check_contains(
        chars,
        ".trash",
    ) || check_contains(chars, "$recycle.bin")
}

/// The name-based system-junk rule, executable form.
fn check_system_junk_name(chars: &Vec<char>, fname: &Vec<char>, ext: &Option<Vec<char>>) -> (r:
    bool)
    requires
        fname@ == file_name_of(chars@),
        match *ext {
            Some(e) => extension_of(fname@) == Some(e@),
            None => extension_of(fname@) is None,
        },
    ensures
        r == is_system_junk_name(chars@),
{
    if check_ext(ext, "bak", Ghost(chars@)) || check_ext(ext, "old", Ghost(chars@)) || check_ext(
        ext,
        "backup",
        Ghost(chars@),
    ) {
        return true;
    }
    let core_dot = chars_of("core.");
    if starts_with_ci_chars(fname, &core_dot) {
        return true;
    }
    let thumbs = chars_of("thumbs.db");
    if eq_ci_chars(fname, &thumbs) {
        return true;
    }
    let ds_store = chars_of(".ds_store");
    if eq_ci_chars(fname, &ds_store) {
        return true;
    }
    let desktop = chars_of("desktop.ini");
    eq_ci_chars(fname, &desktop)
}

/// Classification is decided by the rule chain alone: any path that the
/// temporary-file rule does not claim and that contains "cache" (in any
/// letter case) classifies as `CacheFiles`, whatever its size or age.
pub proof fn lemma_cache_rule(path: Seq<char>, size: Option<u64>, age_days: Option<u64>)
    requires
        contains_ci(path, "cache"@),
        !is_temporary(path),
    ensures
        spec_categorize(path, size, age_days) == FileCategory::CacheFiles,
{
}

/// The temporary-file rule precedes every other rule: a path it matches
/// classifies as `TemporaryFiles`, whatever else would match.
pub proof fn lemma_temporary_rule_first(path: Seq<char>, size: Option<u64>, age_days: Option<u64>)
    requires
        is_temporary(path),
    ensures
        spec_categorize(path, size, age_days) == FileCategory::TemporaryFiles,
{
}

} // verus!
