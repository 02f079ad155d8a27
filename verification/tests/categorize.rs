use disk_cleaner::file_category::FileCategory;

#[test]
fn temporary_by_extension() {
    assert_eq!(FileCategory::categorize("work/report.tmp", None, None), FileCategory::TemporaryFiles);
    assert_eq!(FileCategory::categorize("work/REPORT.TMP", None, None), FileCategory::TemporaryFiles);
    assert_eq!(FileCategory::categorize("work/draft.temp", None, None), FileCategory::TemporaryFiles);
}

#[test]
fn temporary_by_name_and_directory() {
    assert_eq!(FileCategory::categorize("docs/~lock.doc", None, None), FileCategory::TemporaryFiles);
    assert_eq!(FileCategory::categorize("src/.#main.rs", None, None), FileCategory::TemporaryFiles);
    assert_eq!(FileCategory::categorize("/tmp/build.o", None, None), FileCategory::TemporaryFiles);
    assert_eq!(FileCategory::categorize("/var/tmp/x.dat", None, None), FileCategory::TemporaryFiles);
    assert_eq!(
        FileCategory::categorize("C:\\Windows\\Temp\\x.dat", None, None),
        FileCategory::TemporaryFiles
    );
}

#[test]
fn any_path_containing_cache_is_cache() {
    // Classification is decided by the path alone: "cache" anywhere wins,
    // whatever the extension and whatever the metadata says.
    assert_eq!(FileCategory::categorize("app/mycache/data.bin", None, None), FileCategory::CacheFiles);
    assert_eq!(
        FileCategory::categorize("app/Cache/data.bin", Some(1), Some(1)),
        FileCategory::CacheFiles
    );
    assert_eq!(
        FileCategory::categorize("app/CACHE/video.mp4", Some(500 * 1024 * 1024), Some(900)),
        FileCategory::CacheFiles
    );
    assert_eq!(FileCategory::categorize("notes/page.cache", None, None), FileCategory::CacheFiles);
    assert_eq!(
        FileCategory::categorize("C:\\Users\\x\\AppData\\Local\\app.bin", None, None),
        FileCategory::CacheFiles
    );
}

#[test]
fn temporary_rule_precedes_cache_rule() {
    // A temporary file inside a cache folder is still temporary.
    assert_eq!(
        FileCategory::categorize("cache/~notes.tmp", None, None),
        FileCategory::TemporaryFiles
    );
    assert_eq!(FileCategory::categorize("cache/plain.tmp", None, None), FileCategory::TemporaryFiles);
}

#[test]
fn cache_rule_precedes_log_rule() {
    assert_eq!(FileCategory::categorize("var/cache/app.log", None, None), FileCategory::CacheFiles);
}

#[test]
fn log_files() {
    assert_eq!(FileCategory::categorize("app/run.log", None, None), FileCategory::LogFiles);
    assert_eq!(FileCategory::categorize("app/job.out", None, None), FileCategory::LogFiles);
    assert_eq!(FileCategory::categorize("app/job.err", None, None), FileCategory::LogFiles);
    assert_eq!(FileCategory::categorize("/var/log/syslog", None, None), FileCategory::LogFiles);
    assert_eq!(FileCategory::categorize("app\\logs\\trace.txt", None, None), FileCategory::LogFiles);
    // A bare ".log" file name has no extension, yet still ends with ".log".
    assert_eq!(FileCategory::categorize("app/.log", None, None), FileCategory::LogFiles);
}

#[test]
fn browser_data() {
    assert_eq!(FileCategory::categorize("lib/firefox/x.bin", None, None), FileCategory::BrowserData);
    assert_eq!(FileCategory::categorize("app/cookies.txt", None, None), FileCategory::BrowserData);
    assert_eq!(FileCategory::categorize("app/History", None, None), FileCategory::BrowserData);
    assert_eq!(
        FileCategory::categorize("mozilla/places.sqlite", None, None),
        FileCategory::BrowserData
    );
    // A sqlite file outside a mozilla path is not browser data by itself.
    assert_eq!(FileCategory::categorize("app/data.sqlite", None, None), FileCategory::SystemJunk);
}

#[test]
fn downloads_and_recycle_bin() {
    assert_eq!(FileCategory::categorize("home/Downloads/x.pdf", None, None), FileCategory::Downloads);
    assert_eq!(FileCategory::categorize("home/.Trash/x.pdf", None, None), FileCategory::RecycleBin);
    assert_eq!(
        FileCategory::categorize("C:\\$Recycle.Bin\\x.pdf", None, None),
        FileCategory::RecycleBin
    );
}

#[test]
fn system_junk_by_name() {
    assert_eq!(FileCategory::categorize("etc/passwd.bak", None, None), FileCategory::SystemJunk);
    assert_eq!(FileCategory::categorize("etc/passwd.old", None, None), FileCategory::SystemJunk);
    assert_eq!(FileCategory::categorize("data/db.backup", None, None), FileCategory::SystemJunk);
    assert_eq!(FileCategory::categorize("app/core.1234", None, None), FileCategory::SystemJunk);
    assert_eq!(FileCategory::categorize("pics/Thumbs.db", None, None), FileCategory::SystemJunk);
    assert_eq!(FileCategory::categorize("pics/.DS_Store", None, None), FileCategory::SystemJunk);
    assert_eq!(FileCategory::categorize("pics/desktop.ini", None, None), FileCategory::SystemJunk);
}

#[test]
fn large_and_old_files() {
    let just_large = 100 * 1024 * 1024 + 1;
    assert_eq!(
        FileCategory::categorize("media/video.mkv", Some(just_large), None),
        FileCategory::LargeFiles
    );
    // Exactly the threshold is not over it.
    assert_eq!(
        FileCategory::categorize("media/video.mkv", Some(100 * 1024 * 1024), None),
        FileCategory::SystemJunk
    );
    assert_eq!(FileCategory::categorize("media/note.txt", Some(1), Some(31)), FileCategory::OldFiles);
    assert_eq!(
        FileCategory::categorize("media/note.txt", Some(1), Some(30)),
        FileCategory::SystemJunk
    );
    // Unreadable metadata reaches the default.
    assert_eq!(FileCategory::categorize("media/note.txt", None, None), FileCategory::SystemJunk);
}

#[test]
fn size_rule_precedes_age_rule() {
    let just_large = 100 * 1024 * 1024 + 1;
    assert_eq!(
        FileCategory::categorize("media/ancient.mkv", Some(just_large), Some(900)),
        FileCategory::LargeFiles
    );
}

#[test]
fn all_lists_every_category_once() {
    let all = FileCategory::all();
    assert_eq!(all.len(), 10);
    for i in 0..all.len() {
        for j in (i + 1)..all.len() {
            assert_ne!(all[i], all[j]);
        }
    }
    assert_eq!(all[0], FileCategory::TemporaryFiles);
    assert_eq!(all[9], FileCategory::RecycleBin);
}

#[test]
fn descriptions() {
    assert_eq!(
        FileCategory::TemporaryFiles.description(),
        "Temporary files that can be safely deleted"
    );
    assert_eq!(FileCategory::CacheFiles.description(), "Application cache files");
    assert_eq!(FileCategory::EmptyFolders.description(), "Empty directories");
    assert_eq!(FileCategory::RecycleBin.description(), "Files in trash/recycle bin");
}

#[test]
fn safety_flags() {
    assert!(FileCategory::TemporaryFiles.is_safe_to_delete());
    assert!(FileCategory::CacheFiles.is_safe_to_delete());
    assert!(FileCategory::LogFiles.is_safe_to_delete());
    assert!(FileCategory::SystemJunk.is_safe_to_delete());
    assert!(FileCategory::EmptyFolders.is_safe_to_delete());
    assert!(FileCategory::RecycleBin.is_safe_to_delete());
    assert!(!FileCategory::BrowserData.is_safe_to_delete());
    assert!(!FileCategory::LargeFiles.is_safe_to_delete());
    assert!(!FileCategory::OldFiles.is_safe_to_delete());
    assert!(!FileCategory::Downloads.is_safe_to_delete());
}
