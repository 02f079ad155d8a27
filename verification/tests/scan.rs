use disk_cleaner::config::Config;
use disk_cleaner::file_category::FileCategory;
use disk_cleaner::scanner::{FileEntry, Scanner};

fn entry(path: &str, size: u64) -> FileEntry {
    FileEntry { path: path.to_string(), size: Some(size), age_days: Some(1) }
}

fn scenario_entries() -> Vec<FileEntry> {
    vec![
        entry("root/a.tmp", 10),
        entry("root/cache/b.dat", 10),
        entry("root/log/app.log", 5),
    ]
}

fn scenario_dirs() -> Vec<String> {
    vec!["root".to_string(), "root/cache".to_string(), "root/log".to_string()]
}

#[test]
fn default_config_values() {
    let c = Config::default();
    assert!(c.use_trash);
    assert!(!c.include_hidden_files);
    assert!(!c.follow_symlinks);
    assert_eq!(c.min_file_size, 0);
    assert_eq!(c.max_file_age_days, 365);
    assert_eq!(c.excluded_paths.len(), 8);
    assert_eq!(c.excluded_paths[0], "/bin");
    assert_eq!(c.excluded_extensions.len(), 5);
    assert_eq!(c.excluded_extensions[0], ".exe");
}

#[test]
fn exclusion_by_path_prefix_and_extension() {
    let c = Config::default();
    assert!(c.is_path_excluded("/bin/ls"));
    assert!(c.is_path_excluded("/usr/sbin/sshd"));
    assert!(!c.is_path_excluded("/home/user/notes.txt"));
    // Extension matching is case-insensitive.
    assert!(c.is_path_excluded("setup.exe"));
    assert!(c.is_path_excluded("SETUP.EXE"));
    assert!(c.is_path_excluded("C:\\app\\driver.SYS"));
    assert!(!c.is_path_excluded("archive.exe.txt"));
    // A dotfile has no extension to match.
    assert!(!c.is_path_excluded("home/.exe"));
}

#[test]
fn end_to_end_scan_scenario() {
    let scanner = Scanner::new(Config::default());
    let entries = scenario_entries();
    let dirs = scenario_dirs();
    let result = scanner.scan(&entries, &dirs, 12);

    assert_eq!(result.total_files, 3);
    assert_eq!(result.total_size, 25);
    assert_eq!(result.scan_duration_ms, 12);
    assert_eq!(
        result.files_in_category(FileCategory::TemporaryFiles),
        vec!["root/a.tmp".to_string()]
    );
    assert_eq!(
        result.files_in_category(FileCategory::CacheFiles),
        vec!["root/cache/b.dat".to_string()]
    );
    assert_eq!(
        result.files_in_category(FileCategory::LogFiles),
        vec!["root/log/app.log".to_string()]
    );
    assert!(result.files_in_category(FileCategory::Downloads).is_empty());
    assert!(result.files_in_category(FileCategory::EmptyFolders).is_empty());
}

#[test]
fn scanning_twice_is_identical_except_duration() {
    let scanner = Scanner::new(Config::default());
    let entries = scenario_entries();
    let dirs = scenario_dirs();
    let r1 = scanner.scan(&entries, &dirs, 5);
    let r2 = scanner.scan(&entries, &dirs, 99);

    assert_eq!(r1.total_files, r2.total_files);
    assert_eq!(r1.total_size, r2.total_size);
    assert_eq!(r1.files.len(), r2.files.len());
    for i in 0..r1.files.len() {
        assert_eq!(r1.files[i].path, r2.files[i].path);
        assert_eq!(r1.files[i].category, r2.files[i].category);
    }
    assert_ne!(r1.scan_duration_ms, r2.scan_duration_ms);
}

#[test]
fn empty_directory_is_reported() {
    let scanner = Scanner::new(Config::default());
    let entries = vec![entry("root/doc/x.txt", 4)];
    let dirs = vec![
        "root".to_string(),
        "root/doc".to_string(),
        "root/void".to_string(),
    ];
    let result = scanner.scan(&entries, &dirs, 0);
    assert_eq!(
        result.files_in_category(FileCategory::EmptyFolders),
        vec!["root/void".to_string()]
    );
}

#[test]
fn minimum_size_filter() {
    let mut c = Config::default();
    c.min_file_size = 5;
    let scanner = Scanner::new(c);
    let entries = vec![entry("root/small.txt", 4), entry("root/big.txt", 5)];
    let result = scanner.scan(&entries, &vec![], 0);
    // Every walked entry is counted, but only the retained one adds size.
    assert_eq!(result.total_files, 2);
    assert_eq!(result.total_size, 5);
    assert_eq!(result.files.len(), 1);
    assert_eq!(result.files[0].path, "root/big.txt");
}

#[test]
fn maximum_age_filter() {
    let scanner = Scanner::new(Config::default());
    let mut old_entry = entry("root/ancient.txt", 7);
    old_entry.age_days = Some(366);
    let entries = vec![old_entry, entry("root/fresh.txt", 3)];
    let result = scanner.scan(&entries, &vec![], 0);
    assert_eq!(result.total_files, 2);
    assert_eq!(result.total_size, 3);
    assert_eq!(result.files.len(), 1);
    assert_eq!(result.files[0].path, "root/fresh.txt");
}

#[test]
fn hidden_files_are_skipped_unless_included() {
    let entries = vec![entry("root/.secret", 8), entry("root/plain", 2)];

    let scanner = Scanner::new(Config::default());
    let skipped = scanner.scan(&entries, &vec![], 0);
    assert_eq!(skipped.files.len(), 1);
    assert_eq!(skipped.total_size, 2);

    let mut c = Config::default();
    c.include_hidden_files = true;
    let scanner = Scanner::new(c);
    let kept = scanner.scan(&entries, &vec![], 0);
    assert_eq!(kept.files.len(), 2);
    assert_eq!(kept.total_size, 10);
}

#[test]
fn excluded_paths_are_skipped() {
    let scanner = Scanner::new(Config::default());
    let entries = vec![entry("/bin/ls", 100), entry("root/tool.exe", 50), entry("root/ok.txt", 7)];
    let result = scanner.scan(&entries, &vec![], 0);
    assert_eq!(result.total_files, 3);
    assert_eq!(result.total_size, 7);
    assert_eq!(result.files.len(), 1);
    assert_eq!(result.files[0].path, "root/ok.txt");
}

#[test]
fn unreadable_metadata_is_counted_but_not_retained() {
    let scanner = Scanner::new(Config::default());
    let entries = vec![
        FileEntry { path: "root/ghost.txt".to_string(), size: None, age_days: None },
        entry("root/real.txt", 9),
    ];
    let result = scanner.scan(&entries, &vec![], 0);
    assert_eq!(result.total_files, 2);
    assert_eq!(result.total_size, 9);
    assert_eq!(result.files.len(), 1);
}

#[test]
fn unknown_age_passes_the_age_filter() {
    let scanner = Scanner::new(Config::default());
    let entries = vec![FileEntry { path: "root/x.txt".to_string(), size: Some(3), age_days: None }];
    let result = scanner.scan(&entries, &vec![], 0);
    assert_eq!(result.files.len(), 1);
    assert_eq!(result.total_size, 3);
}
