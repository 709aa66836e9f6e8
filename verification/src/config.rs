//! The settings of a scan: thresholds, exclusions, and where to look.

use crate::cli::{option_view, string_views, ScanOptions, ScanOptionsView};
use crate::text::{
    begins_with, chars_of, contains, ends_with, find_first, find_last, first_index_of,
    last_index_of, occurs_in, parse_u64, read_u64, same_text, to_uppercase, trim, trimmed,
    uppercased,
};
use vstd::prelude::*;

verus! {

/// The settings of a scan.
#[derive(Debug, Clone)]
pub struct Config {
    /// Files not accessed for this many days count as old.
    pub min_age_days: u32,
    /// Files of at least this many megabytes count as large.
    pub min_large_size_mb: u64,
    /// Projects touched within this many days count as recently used.
    pub project_recent_days: u32,
    /// Downloads not accessed for this many days are candidates.
    pub download_age_days: u32,
    /// Patterns of paths that are never reported.
    pub excluded_paths: Vec<String>,
    /// Cache directories to scan besides the usual ones.
    pub cache_paths: Vec<String>,
    /// Where to scan, in place of the home directory.
    pub base_path: Option<String>,
}

/// The mathematical content of a `Config`.
pub struct ConfigView {
    pub min_age_days: u32,
    pub min_large_size_mb: u64,
    pub project_recent_days: u32,
    pub download_age_days: u32,
    pub excluded_paths: Seq<Seq<char>>,
    pub cache_paths: Seq<Seq<char>>,
    pub base_path: Option<Seq<char>>,
}

impl View for Config {
    type V = ConfigView;

    open spec fn view(&self) -> ConfigView {
        ConfigView {
            min_age_days: self.min_age_days,
            min_large_size_mb: self.min_large_size_mb,
            project_recent_days: self.project_recent_days,
            download_age_days: self.download_age_days,
            excluded_paths: string_views(self.excluded_paths@),
            cache_paths: string_views(self.cache_paths@),
            base_path: option_view(self.base_path),
        }
    }
}

/// The number of bytes in a megabyte, as sizes are counted here.
pub const BYTES_PER_MB: u64 = 1024 * 1024;

/// The settings that hold where nothing else is said.
pub open spec fn default_config() -> ConfigView {
    ConfigView {
        min_age_days: 30,
        min_large_size_mb: 100,
        project_recent_days: 14,
        download_age_days: 30,
        excluded_paths: Seq::empty(),
        cache_paths: Seq::empty(),
        base_path: None,
    }
}

/// The age in days from which a file counts as old, unless set otherwise.
pub fn default_min_age_days() -> (r: u32)
    ensures
        r == 30,
{
    30
}

/// The size in megabytes from which a file counts as large, unless set
/// otherwise.
pub fn default_min_large_size_mb() -> (r: u64)
    ensures
        r == 100,
{
    100
}

/// The number of days within which a project counts as recently used,
/// unless set otherwise.
pub fn default_project_recent_days() -> (r: u32)
    ensures
        r == 14,
{
    14
}

/// The age in days from which a download is a candidate, unless set
/// otherwise.
pub fn default_download_age_days() -> (r: u32)
    ensures
        r == 30,
{
    30
}

impl Default for Config {
    fn default() -> (r: Self)
        ensures
            r@ == default_config(),
    {
        let r = Config {
            min_age_days: default_min_age_days(),
            min_large_size_mb: default_min_large_size_mb(),
            project_recent_days: default_project_recent_days(),
            download_age_days: default_download_age_days(),
            excluded_paths: Vec::new(),
            cache_paths: Vec::new(),
            base_path: None,
        };
        assert(r@.excluded_paths == Seq::<Seq<char>>::empty());
        assert(r@.cache_paths == Seq::<Seq<char>>::empty());
        r
    }
}

/// Whether a path matches an exclusion pattern. A pattern with exactly one
/// `*` matches a path that begins with what stands before the `*` and ends
/// with what stands after it; any other pattern matches a path in which it
/// occurs as it is written.
pub open spec fn pattern_matches(pattern: Seq<char>, path: Seq<char>) -> bool {
    let first = first_index_of(pattern, '*');
    if first >= 0 && first == last_index_of(pattern, '*') {
        pattern.take(first).is_prefix_of(path) && pattern.skip(first + 1).is_suffix_of(path)
    } else {
        occurs_in(path, pattern)
    }
}

/// Whether one of the patterns matches the path.
pub open spec fn excluded_by(patterns: Seq<Seq<char>>, path: Seq<char>) -> bool {
    exists|i: int| 0 <= i < patterns.len() && pattern_matches(#[trigger] patterns[i], path)
}

/// `s` without `suffix` at its end, if it ends with it.
pub open spec fn without_suffix(s: Seq<char>, suffix: Seq<char>) -> Option<Seq<char>> {
    if suffix.is_suffix_of(s) {
        Some(s.take(s.len() - suffix.len()))
    } else {
        None
    }
}

/// The number written in `digits`, white space at its ends aside, times
/// 1024; nothing if that is no number or does not fit.
pub open spec fn times_1024(digits: Seq<char>) -> Option<u64> {
    match parse_u64(trimmed(digits)) {
        Some(n) => if n * 1024 <= u64::MAX {
            Some((n * 1024) as u64)
        } else {
            None
        },
        None => None,
    }
}

/// The number written in `digits`, white space at its ends aside, divided
/// by 1024 and rounded down.
pub open spec fn over_1024(digits: Seq<char>) -> Option<u64> {
    match parse_u64(trimmed(digits)) {
        Some(n) => Some(n / 1024),
        None => None,
    }
}

/// The megabytes that a size in upper case without white space around it
/// names: a number followed by `GB`, `MB`, `KB`, `G`, `M` or `K`, or a bare
/// number, which counts megabytes. Gigabytes are 1024 megabytes each,
/// kilobytes are rounded down to whole megabytes.
pub open spec fn size_in_mb(u: Seq<char>) -> Option<u64> {
    if let Some(n) = without_suffix(u, seq!['G', 'B']) {
        times_1024(n)
    } else if let Some(n) = without_suffix(u, seq!['M', 'B']) {
        parse_u64(trimmed(n))
    } else if let Some(n) = without_suffix(u, seq!['K', 'B']) {
        over_1024(n)
    } else if let Some(n) = without_suffix(u, seq!['G']) {
        times_1024(n)
    } else if let Some(n) = without_suffix(u, seq!['M']) {
        parse_u64(trimmed(n))
    } else if let Some(n) = without_suffix(u, seq!['K']) {
        over_1024(n)
    } else {
        parse_u64(u)
    }
}

/// The megabytes that a size as a person writes it names: white space
/// around it and the case of its letters do not count.
pub open spec fn parsed_size_mb(s: Seq<char>) -> Option<u64> {
    size_in_mb(uppercased(trimmed(s)))
}

/// The exclusions `acc` with each of `more` added at the end, in order,
/// unless it is among them already.
pub open spec fn with_exclusions(acc: Seq<Seq<char>>, more: Seq<Seq<char>>) -> Seq<Seq<char>>
    decreases more.len(),
{
    if more.len() == 0 {
        acc
    } else {
        let sofar = with_exclusions(acc, more.drop_last());
        if sofar.contains(more.last()) {
            sofar
        } else {
            sofar.push(more.last())
        }
    }
}

impl ConfigView {
    /// These settings with what a request sets laid over them.
    pub open spec fn overridden_by(self, options: ScanOptionsView) -> ConfigView {
        ConfigView {
            min_age_days: match options.min_age {
                Some(days) => days,
                None => self.min_age_days,
            },
            min_large_size_mb: match options.min_size {
                Some(text) => match parsed_size_mb(text) {
                    Some(mb) => mb,
                    None => self.min_large_size_mb,
                },
                None => self.min_large_size_mb,
            },
            project_recent_days: match options.project_age {
                Some(days) => days,
                None => self.project_recent_days,
            },
            download_age_days: self.download_age_days,
            excluded_paths: with_exclusions(self.excluded_paths, options.exclude),
            cache_paths: self.cache_paths,
            base_path: match options.path {
                Some(path) => Some(path),
                None => self.base_path,
            },
        }
    }

    /// Where the scan starts: the base path if one is set, else the home
    /// directory if there is one, else the current directory.
    pub open spec fn scan_root(self, home: Option<Seq<char>>) -> Seq<char> {
        match self.base_path {
            Some(path) => path,
            None => match home {
                Some(home) => home,
                None => seq!['.'],
            },
        }
    }

    /// The size in bytes from which a file counts as large; the largest
    /// size there is, where the megabytes exceed it.
    pub open spec fn large_size_bytes(self) -> u64 {
        if self.min_large_size_mb * 1024 * 1024 <= u64::MAX {
            (self.min_large_size_mb * 1024 * 1024) as u64
        } else {
            u64::MAX
        }
    }
}

fn pattern_matches_chars(pattern: &Vec<char>, path: &Vec<char>) -> (r: bool)
    ensures
        r == pattern_matches(pattern@, path@),
{
    match find_first(pattern, '*') {
        Some(first) => {
            let last = find_last(pattern, '*');
            if last == Some(first) {
                let mut prefix: Vec<char> = Vec::new();
                let mut i: usize = 0;
                while i < first
                    invariant
                        i <= first < pattern.len(),
                        prefix@ == pattern@.take(i as int),
                    decreases first - i,
                {
                    prefix.push(pattern[i]);
                    i += 1;
                }
                let mut suffix: Vec<char> = Vec::new();
                let mut j: usize = first + 1;
                while j < pattern.len()
                    invariant
                        first < j <= pattern.len(),
                        suffix@ == pattern@.subrange(first + 1, j as int),
                    decreases pattern.len() - j,
                {
                    suffix.push(pattern[j]);
                    j += 1;
                }
                assert(suffix@ == pattern@.skip(first + 1));
                begins_with(path, &prefix) && ends_with(path, &suffix)
            } else {
                contains(path, pattern)
            }
        },
        None => contains(path, pattern),
    }
}

/// Whether one of `patterns` matches `path`.
pub fn matches_any(patterns: &Vec<String>, path: &str) -> (r: bool)
    ensures
        r == excluded_by(string_views(patterns@), path@),
{
    let p = chars_of(path);
    let mut i: usize = 0;
    while i < patterns.len()
        invariant
            i <= patterns.len(),
            p@ == path@,
            forall|k: int| 0 <= k < i ==> !pattern_matches(string_views(patterns@)[k], path@),
        decreases patterns.len() - i,
    {
        let pattern = chars_of(patterns[i].as_str());
        if pattern_matches_chars(&pattern, &p) {
            assert(pattern_matches(string_views(patterns@)[i as int], path@));
            return true;
        }
        i += 1;
    }
    false
}

fn strip_end(s: &Vec<char>, suffix: &Vec<char>) -> (r: Option<Vec<char>>)
    ensures
        match r {
            Some(rest) => without_suffix(s@, suffix@) == Some(rest@),
            None => without_suffix(s@, suffix@) is None,
        },
{
    if !ends_with(s, suffix) {
        return None;
    }
    let n = s.len() - suffix.len();
    let mut out: Vec<char> = Vec::new();
    let mut i: usize = 0;
    while i < n
        invariant
            i <= n <= s.len(),
            out@ == s@.take(i as int),
        decreases n - i,
    {
        out.push(s[i]);
        i += 1;
    }
    Some(out)
}

fn read_times_1024(digits: &Vec<char>) -> (r: Option<u64>)
    ensures
        r == times_1024(digits@),
{
    match read_u64(&trim(digits)) {
        Some(n) => if n <= u64::MAX / 1024 {
            Some(n * 1024)
        } else {
            None
        },
        None => None,
    }
}

fn read_over_1024(digits: &Vec<char>) -> (r: Option<u64>)
    ensures
        r == over_1024(digits@),
{
    match read_u64(&trim(digits)) {
        Some(n) => Some(n / 1024),
        None => None,
    }
}

fn letters(a: char) -> (r: Vec<char>)
    ensures
        r@ == seq![a],
{
    let mut r: Vec<char> = Vec::new();
    r.push(a);
    r
}

fn letters2(a: char, b: char) -> (r: Vec<char>)
    ensures
        r@ == seq![a, b],
{
    let mut r: Vec<char> = Vec::new();
    r.push(a);
    r.push(b);
    r
}

/// Reads a size whose letters are in upper case and which has no white
/// space around it, in megabytes.
pub fn parse_size_normalized(upper: &str) -> (r: Option<u64>)
    ensures
        r == size_in_mb(upper@),
{
    let u = chars_of(upper);
    if let Some(n) = strip_end(&u, &letters2('G', 'B')) {
        return read_times_1024(&n);
    }
    if let Some(n) = strip_end(&u, &letters2('M', 'B')) {
        return read_u64(&trim(&n));
    }
    if let Some(n) = strip_end(&u, &letters2('K', 'B')) {
        return read_over_1024(&n);
    }
    if let Some(n) = strip_end(&u, &letters('G')) {
        return read_times_1024(&n);
    }
    if let Some(n) = strip_end(&u, &letters('M')) {
        return read_u64(&trim(&n));
    }
    if let Some(n) = strip_end(&u, &letters('K')) {
        return read_over_1024(&n);
    }
    read_u64(&u)
}

/// Reads a size as a person writes it, such as `100MB`, `1GB` or `500`, in
/// megabytes.
pub fn parse_size_mb(s: &str) -> (r: Option<u64>)
    ensures
        r == parsed_size_mb(s@),
{
    let t = crate::text::text_of(&trim(&chars_of(s)));
    let upper = to_uppercase(t.as_str());
    parse_size_normalized(upper.as_str())
}

fn holds_text(list: &Vec<String>, wanted: &String) -> (r: bool)
    ensures
        r == string_views(list@).contains(wanted@),
{
    let mut i: usize = 0;
    while i < list.len()
        invariant
            i <= list.len(),
            forall|k: int| 0 <= k < i ==> string_views(list@)[k] != wanted@,
        decreases list.len() - i,
    {
        if same_text(list[i].as_str(), wanted.as_str()) {
            assert(string_views(list@)[i as int] == wanted@);
            return true;
        }
        i += 1;
    }
    false
}

impl Config {
    /// Lays what a request sets over these settings: its thresholds where
    /// it names them (a size that cannot be read changes nothing), its path,
    /// and its exclusions, each added unless it is there already.
    pub fn apply_cli_options(&mut self, options: &ScanOptions)
        ensures
            final(self)@ == old(self)@.overridden_by(options@),
    {
        if let Some(min_age) = options.min_age {
            self.min_age_days = min_age;
        }
        if let Some(min_size) = &options.min_size {
            if let Some(size_mb) = parse_size_mb(min_size.as_str()) {
                self.min_large_size_mb = size_mb;
            }
        }
        if let Some(project_age) = options.project_age {
            self.project_recent_days = project_age;
        }
        if let Some(path) = &options.path {
            self.base_path = Some(path.clone());
        }
        let ghost before = old(self)@.excluded_paths;
        let mut i: usize = 0;
        assert(string_views(options.exclude@).take(0) == Seq::<Seq<char>>::empty());
        while i < options.exclude.len()
            invariant
                i <= options.exclude.len(),
                string_views(self.excluded_paths@) == with_exclusions(
                    before,
                    string_views(options.exclude@).take(i as int),
                ),
                self.min_age_days == old(self)@.overridden_by(options@).min_age_days,
                self.min_large_size_mb == old(self)@.overridden_by(options@).min_large_size_mb,
                self.project_recent_days == old(self)@.overridden_by(
                    options@,
                ).project_recent_days,
                self.download_age_days == old(self).download_age_days,
                self.cache_paths == old(self).cache_paths,
                option_view(self.base_path) == old(self)@.overridden_by(options@).base_path,
            decreases options.exclude.len() - i,
        {
            let exclude = &options.exclude[i];
            proof {
                let all = string_views(options.exclude@);
                assert(all.take(i + 1).drop_last() == all.take(i as int));
                assert(all.take(i + 1).last() == exclude@);
            }
            if !holds_text(&self.excluded_paths, exclude) {
                let ghost sofar = string_views(self.excluded_paths@);
                self.excluded_paths.push(exclude.clone());
                assert(string_views(self.excluded_paths@) == sofar.push(exclude@));
            }
            i += 1;
        }
        assert(string_views(options.exclude@).take(options.exclude.len() as int)
            == string_views(options.exclude@));
    }

    /// Where the scan starts, given the home directory if there is one.
    pub fn get_base_path(&self, home: Option<&str>) -> (r: String)
        ensures
            r@ == self@.scan_root(option_str_view(home)),
    {
        match &self.base_path {
            Some(path) => path.clone(),
            None => match home {
                Some(home) => crate::text::text_of(&chars_of(home)),
                None => {
                    let mut dot: Vec<char> = Vec::new();
                    dot.push('.');
                    crate::text::text_of(&dot)
                },
            },
        }
    }

    /// The size in bytes from which a file counts as large.
    pub fn min_large_size_bytes(&self) -> (r: u64)
        ensures
            r == self@.large_size_bytes(),
    {
        if self.min_large_size_mb <= u64::MAX / BYTES_PER_MB {
            self.min_large_size_mb * BYTES_PER_MB
        } else {
            u64::MAX
        }
    }

    /// Whether the path is left out of every report.
    pub fn is_excluded(&self, path: &str) -> (r: bool)
        ensures
            r == excluded_by(self@.excluded_paths, path@),
    {
        matches_any(&self.excluded_paths, path)
    }
}

/// The text of an optional string slice.
pub open spec fn option_str_view(s: Option<&str>) -> Option<Seq<char>> {
    match s {
        Some(s) => Some(s@),
        None => None,
    }
}

} // verus!
