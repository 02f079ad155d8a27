//! The cleanup policy: deletion strategy, traversal options, size and age
//! thresholds, and the exclusion rules that veto a path from scanning.

use vstd::prelude::*;
use vstd::string::StringExecFns;

use crate::text::{
    chars_of, eq_ci, eq_ci_chars, extension_chars, extension_of, file_name_chars, file_name_of,
    starts_with, starts_with_chars,
};

verus! {

#[derive(Debug, Clone)]
pub struct Config {
    pub use_trash: bool,
    pub include_hidden_files: bool,
    pub follow_symlinks: bool,
    pub min_file_size: u64,
    pub max_file_age_days: u32,
    pub excluded_paths: Vec<String>,
    pub excluded_extensions: Vec<String>,
}

/// System directories that are never cleaned by default.
pub open spec fn default_excluded_paths() -> Seq<Seq<char>> {
    seq![
        "/bin"@,
        "/sbin"@,
        "/usr/bin"@,
        "/usr/sbin"@,
        "/System"@,
        "C:\\Windows"@,
        "C:\\Program Files"@,
        "C:\\Program Files (x86)"@,
    ]
}

/// Extensions of critical files that are never cleaned by default.
pub open spec fn default_excluded_extensions() -> Seq<Seq<char>> {
    seq![".exe"@, ".dll"@, ".sys"@, ".ini"@, ".cfg"@]
}

/// A path is excluded when one of the excluded paths is a prefix of it,
/// or when its dotted extension equals one of the excluded extensions up
/// to ASCII case.
pub open spec fn spec_is_excluded(cfg: Config, path: Seq<char>) -> bool {
    ||| (exists|i: int|
        0 <= i < cfg.excluded_paths@.len() && starts_with(path, cfg.excluded_paths@[i]@))
    ||| (match extension_of(file_name_of(path)) {
        Some(e) => exists|i: int|
            0 <= i < cfg.excluded_extensions@.len() && eq_ci(
                seq!['.'] + e,
                cfg.excluded_extensions@[i]@,
            ),
        None => false,
    })
}

impl Default for Config {
    /// The default policy: recoverable deletion, hidden files skipped,
    /// symlinks not followed, no minimum size, files up to a year old,
    /// and the stock exclusion lists.
    fn default() -> (c: Self)
        ensures
            c.use_trash,
            !c.include_hidden_files,
            !c.follow_symlinks,
            c.min_file_size == 0,
            c.max_file_age_days == 365,
            c.excluded_paths.deep_view() == default_excluded_paths(),
            c.excluded_extensions.deep_view() == default_excluded_extensions(),
    {
        let mut excluded_paths: Vec<String> = Vec::new();
        excluded_paths.push(String::from_str("/bin"));
        excluded_paths.push(String::from_str("/sbin"));
        excluded_paths.push(String::from_str("/usr/bin"));
        excluded_paths.push(String::from_str("/usr/sbin"));
        excluded_paths.push(String::from_str("/System"));
        excluded_paths.push(String::from_str("C:\\Windows"));
        excluded_paths.push(String::from_str("C:\\Program Files"));
        excluded_paths.push(String::from_str("C:\\Program Files (x86)"));
        let mut excluded_extensions: Vec<String> = Vec::new();
        excluded_extensions.push(String::from_str(".exe"));
        excluded_extensions.push(String::from_str(".dll"));
        excluded_extensions.push(String::from_str(".sys"));
        excluded_extensions.push(String::from_str(".ini"));
        excluded_extensions.push(String::from_str(".cfg"));
        proof {
            assert(excluded_paths.deep_view() =~~= default_excluded_paths());
            assert(excluded_extensions.deep_view() =~~= default_excluded_extensions());
        }
        Config {
            use_trash: true,
            include_hidden_files: false,
            follow_symlinks: false,
            min_file_size: 0,
            max_file_age_days: 365,
            excluded_paths,
            excluded_extensions,
        }
    }
}

impl Config {
    /// Whether the policy vetoes this path: an excluded path is a prefix
    /// of it, or its dotted extension matches an excluded extension up to
    /// ASCII case.
    pub fn is_path_excluded(&self, path: &str) -> (r: bool)
        ensures
            r == spec_is_excluded(*self, path@),
    {
        let chars = chars_of(path);
        let mut i: usize = 0;
        while i < self.excluded_paths.len()
            invariant
                i <= self.excluded_paths@.len(),
                chars@ == path@,
                forall|k: int|
                    0 <= k < i ==> !starts_with(path@, self.excluded_paths@[k]@),
            decreases self.excluded_paths@.len() - i,
        {
            let p = chars_of(self.excluded_paths[i].as_str());
            if starts_with_chars(&chars, &p) {
                return true;
            }
            i = i + 1;
        }
        let fname = file_name_chars(&chars);
        match extension_chars(&fname) {
            Some(e) => {
                let mut dotted: Vec<char> = Vec::new();
                dotted.push('.');
                let mut j: usize = 0;
                while j < e.len()
                    invariant
                        j <= e@.len(),
                        dotted@ == seq!['.'] + e@.subrange(0, j as int),
                    decreases e@.len() - j,
                {
                    dotted.push(e[j]);
                    proof {
                        assert((seq!['.'] + e@.subrange(0, j as int)).push(e@[j as int]) =~= seq![
                            '.',
                        ] + e@.subrange(0, j + 1 as int));
                    }
                    j = j + 1;
                }
                proof {
                    assert(e@.subrange(0, e@.len() as int) =~= e@);
                }
                let mut k: usize = 0;
                while k < self.excluded_extensions.len()
                    invariant
                        k <= self.excluded_extensions@.len(),
                        dotted@ == seq!['.'] + e@,
                        extension_of(file_name_of(path@)) == Some(e@),
                        forall|m: int|
                            0 <= m < k ==> !eq_ci(seq!['.'] + e@, self.excluded_extensions@[m]@),
                    decreases self.excluded_extensions@.len() - k,
                {
                    let x = chars_of(self.excluded_extensions[k].as_str());
                    if eq_ci_chars(&dotted, &x) {
                        return true;
                    }
                    k = k + 1;
                }
                false
            },
            None => false,
        }
    }
}

} // verus!
