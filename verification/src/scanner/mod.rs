//! What a scan reports, what it is given, and how reports are ordered.
//!
//! A scanner reads nothing from the file system itself. The caller walks the
//! directories that the scanner names and hands over what it observed, one
//! `FileProbe` for each entry; the scanner decides which entries are
//! candidates for deletion and describes them.

pub mod build_artifacts;
pub mod cache;
pub mod downloads;
pub mod duplicates;
pub mod large_files;
pub mod old_files;
pub mod scope;
pub mod temp;
pub mod thresholds;
pub mod trash;

use crate::cli::{option_view, string_views};
use crate::config::{Config, ConfigView};
use crate::path::{file_name, file_name_chars};
use crate::ranking::{ranked, sort_files, sort_files_within, Ranking};
use crate::sorting::first_n;
use crate::scanner::build_artifacts::{
    artifact_candidate, global_cache_candidate, BuildArtifactsScanner, GlobalCacheScanner,
};
use crate::scanner::cache::{
    cache_candidate, known_cache_candidate, CacheScanner, KnownCacheScanner,
};
use crate::scanner::downloads::{download_candidate, DownloadsScanner};
use crate::scanner::duplicates::{duplicates_report, DuplicatesScanner};
use crate::scanner::large_files::{large_file_candidate, LargeFilesScanner, MAX_LARGE_FILES};
use crate::scanner::old_files::{old_file_candidate, OldFilesScanner, MAX_OLD_FILES};
use crate::scanner::scope::{placed, scope_of, Scope};
use crate::scanner::temp::{temp_candidate, TempScanner};
use crate::scanner::trash::{trash_candidate, TrashScanner};
use crate::text::{append_chars, append_str, chars_of, text_of};
use crate::time::{touched_within, was_touched_within, Timestamp};
use vstd::prelude::*;

verus! {

/// The kinds of cleanable files.
#[derive(Debug, Clone, Copy, PartialEq, Eq, Hash, Structural)]
pub enum Category {
    Cache,
    Trash,
    Temp,
    Downloads,
    BuildArtifact,
    LargeFile,
    Duplicate,
    OldFile,
}

/// The name under which a category is shown.
pub open spec fn category_name(category: Category) -> Seq<char> {
    match category {
        Category::Cache => "System Cache"@,
        Category::Trash => "Trash"@,
        Category::Temp => "Temp Files"@,
        Category::Downloads => "Old Downloads"@,
        Category::BuildArtifact => "Build Artifacts"@,
        Category::LargeFile => "Large Files"@,
        Category::Duplicate => "Duplicates"@,
        Category::OldFile => "Old Files"@,
    }
}

/// The sentence that describes a category.
pub open spec fn category_description(category: Category) -> Seq<char> {
    match category {
        Category::Cache => "Cached data from applications and system"@,
        Category::Trash => "Files in the trash bin"@,
        Category::Temp => "Temporary files from /tmp and similar"@,
        Category::Downloads => "Old files in Downloads folder"@,
        Category::BuildArtifact => "Build outputs and dependencies (node_modules, target, etc.)"@,
        Category::LargeFile => "Large files that may not be needed"@,
        Category::Duplicate => "Duplicate files wasting space"@,
        Category::OldFile => "Files not accessed for a long time"@,
    }
}

impl Category {
    /// The name under which this category is shown.
    pub fn display_name(&self) -> (r: &'static str)
        ensures
            r@ == category_name(*self),
    {
        match self {
            Category::Cache => "System Cache",
            Category::Trash => "Trash",
            Category::Temp => "Temp Files",
            Category::Downloads => "Old Downloads",
            Category::BuildArtifact => "Build Artifacts",
            Category::LargeFile => "Large Files",
            Category::Duplicate => "Duplicates",
            Category::OldFile => "Old Files",
        }
    }

    /// A short description of this category.
    pub fn description(&self) -> (r: &'static str)
        ensures
            r@ == category_description(*self),
    {
        match self {
            Category::Cache => "Cached data from applications and system",
            Category::Trash => "Files in the trash bin",
            Category::Temp => "Temporary files from /tmp and similar",
            Category::Downloads => "Old files in Downloads folder",
            Category::BuildArtifact => "Build outputs and dependencies (node_modules, target, etc.)",
            Category::LargeFile => "Large files that may not be needed",
            Category::Duplicate => "Duplicate files wasting space",
            Category::OldFile => "Files not accessed for a long time",
        }
    }
}

/// A file or directory that can be cleaned up.
#[derive(Debug, Clone)]
pub struct CleanableFile {
    /// The path of the file or directory.
    pub path: String,
    /// Its size in bytes; for a directory, the sizes of the files in it.
    pub size: u64,
    /// The category it was found under.
    pub category: Category,
    /// When it was last accessed, as far as that is known.
    pub last_accessed: Timestamp,
    /// Why it is cleanable, for people to read.
    pub reason: String,
    /// Whether it is a directory, which is removed with all it holds.
    pub is_directory: bool,
}

/// The mathematical content of a `CleanableFile`.
pub struct FileView {
    pub path: Seq<char>,
    pub size: u64,
    pub category: Category,
    pub last_accessed: Timestamp,
    pub reason: Seq<char>,
    pub is_directory: bool,
}

impl View for CleanableFile {
    type V = FileView;

    open spec fn view(&self) -> FileView {
        FileView {
            path: self.path@,
            size: self.size,
            category: self.category,
            last_accessed: self.last_accessed,
            reason: self.reason@,
            is_directory: self.is_directory,
        }
    }
}

/// The contents of a sequence of files.
pub open spec fn file_views(files: Seq<CleanableFile>) -> Seq<FileView> {
    files.map_values(|f: CleanableFile| f@)
}

impl CleanableFile {
    /// A copy of this file.
    pub fn duplicate(&self) -> (r: CleanableFile)
        ensures
            r@ == self@,
    {
        CleanableFile {
            path: self.path.clone(),
            size: self.size,
            category: self.category,
            last_accessed: self.last_accessed,
            reason: self.reason.clone(),
            is_directory: self.is_directory,
        }
    }
}

/// A file beside or in a project directory, and when it was last modified.
#[derive(Debug, Clone)]
pub struct ProjectFile {
    /// The path of the file from the project directory.
    pub name: String,
    /// When it was last modified, if that could be read.
    pub modified: Option<Timestamp>,
}

/// The mathematical content of a `ProjectFile`.
pub struct ProjectFileView {
    pub name: Seq<char>,
    pub modified: Option<Timestamp>,
}

impl View for ProjectFile {
    type V = ProjectFileView;

    open spec fn view(&self) -> ProjectFileView {
        ProjectFileView { name: self.name@, modified: self.modified }
    }
}

/// The contents of a sequence of project files.
pub open spec fn project_views(files: Seq<ProjectFile>) -> Seq<ProjectFileView> {
    files.map_values(|f: ProjectFile| f@)
}

/// What a walk observed of one entry of the file system. A field that the
/// scanner at hand does not read may hold anything.
#[derive(Debug, Clone)]
pub struct FileProbe {
    /// The path of the entry.
    pub path: String,
    /// Whether the entry is a regular file.
    pub is_file: bool,
    /// Whether the entry is a directory.
    pub is_dir: bool,
    /// Whether the metadata of the entry could be read.
    pub metadata_ok: bool,
    /// The size in bytes: of a file its length; of a directory whose
    /// contents are measured, the lengths of the files in it.
    pub size: u64,
    /// Whether the entry is marked read-only.
    pub readonly: bool,
    /// When the entry was last modified, if that could be read.
    pub modified: Option<Timestamp>,
    /// When the entry was last accessed, if that could be read.
    pub accessed: Option<Timestamp>,
    /// Whether the file that marks a project stands beside the entry.
    pub project_marker: bool,
    /// The files of the project that the entry belongs to.
    pub project_files: Vec<ProjectFile>,
    /// The digest of the contents, where it was computed.
    pub digest: Option<String>,
}

/// The mathematical content of a `FileProbe`.
pub struct ProbeView {
    pub path: Seq<char>,
    pub is_file: bool,
    pub is_dir: bool,
    pub metadata_ok: bool,
    pub size: u64,
    pub readonly: bool,
    pub modified: Option<Timestamp>,
    pub accessed: Option<Timestamp>,
    pub project_marker: bool,
    pub project_files: Seq<ProjectFileView>,
    pub digest: Option<Seq<char>>,
}

impl View for FileProbe {
    type V = ProbeView;

    open spec fn view(&self) -> ProbeView {
        ProbeView {
            path: self.path@,
            is_file: self.is_file,
            is_dir: self.is_dir,
            metadata_ok: self.metadata_ok,
            size: self.size,
            readonly: self.readonly,
            modified: self.modified,
            accessed: self.accessed,
            project_marker: self.project_marker,
            project_files: project_views(self.project_files@),
            digest: option_view(self.digest),
        }
    }
}

/// The contents of a sequence of probes.
pub open spec fn probe_views(probes: Seq<FileProbe>) -> Seq<ProbeView> {
    probes.map_values(|p: FileProbe| p@)
}

/// The operating systems whose directory conventions are known.
#[derive(Debug, Clone, Copy, PartialEq, Eq, Structural)]
pub enum Platform {
    MacOs,
    Linux,
    Other,
}

/// The content of an optional file.
pub open spec fn option_file_view(file: Option<CleanableFile>) -> Option<FileView> {
    match file {
        Some(f) => Some(f@),
        None => None,
    }
}

/// The file name of a path, or the word `Unknown` where it has none.
pub open spec fn name_or_unknown(path: Seq<char>) -> Seq<char> {
    match file_name(path) {
        Some(name) => name,
        None => "Unknown"@,
    }
}

/// The file name of a path, or the word `Unknown` where it has none.
pub fn shown_name(path: &str) -> (r: Vec<char>)
    ensures
        r@ == name_or_unknown(path@),
{
    match file_name_chars(path) {
        Some(name) => name,
        None => chars_of("Unknown"),
    }
}

/// The text `label` followed by `rest`.
pub fn labelled(label: &str, rest: &Vec<char>) -> (r: Vec<char>)
    ensures
        r@ == label@ + rest@,
{
    let mut out: Vec<char> = Vec::new();
    append_str(&mut out, label);
    assert(out@ == label@);
    append_chars(&mut out, rest);
    out
}

/// A cleanable file with the given contents.
pub fn new_file(
    path: &String,
    size: u64,
    category: Category,
    last_accessed: Timestamp,
    reason: &Vec<char>,
    is_directory: bool,
) -> (f: CleanableFile)
    ensures
        f@ == (FileView {
            path: path@,
            size,
            category,
            last_accessed,
            reason: reason@,
            is_directory,
        }),
{
    CleanableFile {
        path: path.clone(),
        size,
        category,
        last_accessed,
        reason: text_of(reason),
        is_directory,
    }
}

/// The scanners.
#[derive(Debug, Clone, Copy, PartialEq, Eq, Structural)]
pub enum ScannerKind {
    Cache,
    KnownCache,
    Trash,
    Temp,
    Downloads,
    BuildArtifacts,
    GlobalCache,
    LargeFiles,
    Duplicates,
    OldFiles,
}

/// The name of a scanner, under which its failures are recorded.
pub open spec fn scanner_name(kind: ScannerKind) -> Seq<char> {
    match kind {
        ScannerKind::Cache => "Cache Scanner"@,
        ScannerKind::KnownCache => "Known Cache Scanner"@,
        ScannerKind::Trash => "Trash Scanner"@,
        ScannerKind::Temp => "Temp Scanner"@,
        ScannerKind::Downloads => "Downloads Scanner"@,
        ScannerKind::BuildArtifacts => "Build Artifacts Scanner"@,
        ScannerKind::GlobalCache => "Global Cache Scanner"@,
        ScannerKind::LargeFiles => "Large Files Scanner"@,
        ScannerKind::Duplicates => "Duplicates Scanner"@,
        ScannerKind::OldFiles => "Old Files Scanner"@,
    }
}

/// Where and when the file system was looked at.
#[derive(Debug, Clone)]
pub struct Environment {
    /// When the file system was looked at.
    pub now: Timestamp,
    /// The home directory, if there is one.
    pub home: Option<String>,
    /// The platform, which settles where caches and the trash lie.
    pub platform: Platform,
    /// The directory for temporary files that the environment names, if it
    /// names one.
    pub temp_dir: Option<String>,
    /// The directory for downloads, if there is one.
    pub downloads_dir: Option<String>,
}

/// The mathematical content of an `Environment`.
pub struct EnvView {
    pub now: Timestamp,
    pub home: Option<Seq<char>>,
    pub platform: Platform,
    pub temp_dir: Option<Seq<char>>,
    pub downloads_dir: Option<Seq<char>>,
}

impl View for Environment {
    type V = EnvView;

    open spec fn view(&self) -> EnvView {
        EnvView {
            now: self.now,
            home: option_view(self.home),
            platform: self.platform,
            temp_dir: option_view(self.temp_dir),
            downloads_dir: option_view(self.downloads_dir),
        }
    }
}

/// What a walk of the file system observed: for each scanner the entries
/// that it is to decide on, or why they could not be gathered.
#[derive(Debug)]
pub struct Survey {
    /// Where and when the file system was looked at.
    pub env: Environment,
    /// The children of the cache directories.
    pub cache: Result<Vec<FileProbe>, String>,
    /// The known caches that exist.
    pub known_caches: Result<Vec<FileProbe>, String>,
    /// The children of the trash directories.
    pub trash: Result<Vec<FileProbe>, String>,
    /// What lies below the directories for temporary files.
    pub temp: Result<Vec<FileProbe>, String>,
    /// What lies in the downloads directory.
    pub downloads: Result<Vec<FileProbe>, String>,
    /// What a walk for build artifacts visited.
    pub artifacts: Result<Vec<FileProbe>, String>,
    /// The caches of package managers that exist.
    pub global_caches: Result<Vec<FileProbe>, String>,
    /// What a walk for large files visited.
    pub large_files: Result<Vec<FileProbe>, String>,
    /// What a walk for duplicates visited, with the digests that were
    /// asked for.
    pub duplicates: Result<Vec<FileProbe>, String>,
    /// What walks of the directories of user data visited.
    pub old_files: Result<Vec<FileProbe>, String>,
}

/// The content of what was observed for one scanner.
pub open spec fn section_view(section: Result<Vec<FileProbe>, String>) -> Result<
    Seq<ProbeView>,
    Seq<char>,
> {
    match section {
        Ok(probes) => Ok(probe_views(probes@)),
        Err(e) => Err(e@),
    }
}

/// The mathematical content of a `Survey`.
pub struct SurveyView {
    pub env: EnvView,
    pub cache: Result<Seq<ProbeView>, Seq<char>>,
    pub known_caches: Result<Seq<ProbeView>, Seq<char>>,
    pub trash: Result<Seq<ProbeView>, Seq<char>>,
    pub temp: Result<Seq<ProbeView>, Seq<char>>,
    pub downloads: Result<Seq<ProbeView>, Seq<char>>,
    pub artifacts: Result<Seq<ProbeView>, Seq<char>>,
    pub global_caches: Result<Seq<ProbeView>, Seq<char>>,
    pub large_files: Result<Seq<ProbeView>, Seq<char>>,
    pub duplicates: Result<Seq<ProbeView>, Seq<char>>,
    pub old_files: Result<Seq<ProbeView>, Seq<char>>,
}

impl View for Survey {
    type V = SurveyView;

    open spec fn view(&self) -> SurveyView {
        SurveyView {
            env: self.env@,
            cache: section_view(self.cache),
            known_caches: section_view(self.known_caches),
            trash: section_view(self.trash),
            temp: section_view(self.temp),
            downloads: section_view(self.downloads),
            artifacts: section_view(self.artifacts),
            global_caches: section_view(self.global_caches),
            large_files: section_view(self.large_files),
            duplicates: section_view(self.duplicates),
            old_files: section_view(self.old_files),
        }
    }
}

impl SurveyView {
    /// What was observed for one scanner.
    pub open spec fn section(self, kind: ScannerKind) -> Result<Seq<ProbeView>, Seq<char>> {
        match kind {
            ScannerKind::Cache => self.cache,
            ScannerKind::KnownCache => self.known_caches,
            ScannerKind::Trash => self.trash,
            ScannerKind::Temp => self.temp,
            ScannerKind::Downloads => self.downloads,
            ScannerKind::BuildArtifacts => self.artifacts,
            ScannerKind::GlobalCache => self.global_caches,
            ScannerKind::LargeFiles => self.large_files,
            ScannerKind::Duplicates => self.duplicates,
            ScannerKind::OldFiles => self.old_files,
        }
    }
}

impl Survey {
    /// What was observed for one scanner.
    pub fn section(&self, kind: ScannerKind) -> (r: &Result<Vec<FileProbe>, String>)
        ensures
            section_view(*r) == self@.section(kind),
    {
        match kind {
            ScannerKind::Cache => &self.cache,
            ScannerKind::KnownCache => &self.known_caches,
            ScannerKind::Trash => &self.trash,
            ScannerKind::Temp => &self.temp,
            ScannerKind::Downloads => &self.downloads,
            ScannerKind::BuildArtifacts => &self.artifacts,
            ScannerKind::GlobalCache => &self.global_caches,
            ScannerKind::LargeFiles => &self.large_files,
            ScannerKind::Duplicates => &self.duplicates,
            ScannerKind::OldFiles => &self.old_files,
        }
    }
}

/// What a scanner reports of one entry that lies where it looks. The
/// duplicates scanner decides on no entry alone.
pub open spec fn judged(kind: ScannerKind, cfg: ConfigView, env: EnvView, p: ProbeView) -> Option<
    FileView,
> {
    match kind {
        ScannerKind::Cache => cache_candidate(cfg, env.now, p),
        ScannerKind::KnownCache => known_cache_candidate(cfg, env.home, env.now, p),
        ScannerKind::Trash => trash_candidate(cfg, env.now, p),
        ScannerKind::Temp => temp_candidate(cfg, env.now, p),
        ScannerKind::Downloads => download_candidate(cfg, env.now, p),
        ScannerKind::BuildArtifacts => artifact_candidate(cfg, env.now, p),
        ScannerKind::GlobalCache => global_cache_candidate(cfg, env.home, env.now, p),
        ScannerKind::LargeFiles => large_file_candidate(cfg, env.now, p),
        ScannerKind::Duplicates => None,
        ScannerKind::OldFiles => old_file_candidate(cfg, env.now, p),
    }
}

/// The rule by which a scanner decides on one entry: an entry that does not
/// lie where the scanner looks is no candidate; of any other the scanner
/// judges by its own rule.
pub open spec fn candidate(kind: ScannerKind, cfg: ConfigView, env: EnvView) -> spec_fn(
    ProbeView,
) -> Option<FileView> {
    |p: ProbeView|
        if placed(kind, cfg, env, p) {
            judged(kind, cfg, env, p)
        } else {
            None
        }
}

/// The order in which a scanner lists what it found.
pub open spec fn ranking_of(kind: ScannerKind) -> Ranking {
    match kind {
        ScannerKind::OldFiles => Ranking::OldestThenLargest,
        _ => Ranking::LargestFirst,
    }
}

/// How many files a scanner reports at most, if it has a limit.
pub open spec fn limit_of(kind: ScannerKind) -> Option<nat> {
    match kind {
        ScannerKind::LargeFiles => Some(MAX_LARGE_FILES as nat),
        ScannerKind::OldFiles => Some(MAX_OLD_FILES as nat),
        _ => None,
    }
}

/// The first files of `s`, up to the limit.
pub open spec fn within_limit(s: Seq<FileView>, limit: Option<nat>) -> Seq<FileView> {
    match limit {
        Some(n) => first_n(s, n),
        None => s,
    }
}

/// What a scanner reports of the entries it was shown: the candidates
/// among them, in the order of the scanner, cut at its limit. The duplicates
/// scanner compares the entries with each other.
pub open spec fn report_of(
    kind: ScannerKind,
    cfg: ConfigView,
    env: EnvView,
    probes: Seq<ProbeView>,
) -> Seq<FileView> {
    if kind == ScannerKind::Duplicates {
        duplicates_report(cfg, env, probes)
    } else {
        within_limit(
            ranked(ranking_of(kind), probes.filter_map(candidate(kind, cfg, env))),
            limit_of(kind),
        )
    }
}

/// How a scan ends: with what the scanner reports of the entries it was
/// shown, or with the failure to gather them.
pub open spec fn scan_outcome(kind: ScannerKind, cfg: ConfigView, survey: SurveyView) -> Result<
    Seq<FileView>,
    Seq<char>,
> {
    match survey.section(kind) {
        Ok(probes) => Ok(report_of(kind, cfg, survey.env, probes)),
        Err(e) => Err(e),
    }
}

/// The content of the result of a scan.
pub open spec fn outcome_view(r: Result<Vec<CleanableFile>, String>) -> Result<
    Seq<FileView>,
    Seq<char>,
> {
    match r {
        Ok(files) => Ok(file_views(files@)),
        Err(e) => Err(e@),
    }
}

/// The text of an optional string, as a slice.
pub fn as_option_str(s: &Option<String>) -> (r: Option<&str>)
    ensures
        crate::config::option_str_view(r) == option_view(*s),
{
    match s {
        Some(s) => Some(s.as_str()),
        None => None,
    }
}

/// What a scanner reports of one entry that lies where it looks.
pub fn judge(kind: ScannerKind, config: &Config, env: &Environment, probe: &FileProbe) -> (r:
    Option<CleanableFile>)
    ensures
        option_file_view(r) == judged(kind, config@, env@, probe@),
{
    let home = as_option_str(&env.home);
    let now = env.now;
    match kind {
        ScannerKind::Cache => CacheScanner::examine(config, now, probe),
        ScannerKind::KnownCache => KnownCacheScanner::examine(config, home, now, probe),
        ScannerKind::Trash => TrashScanner::examine(config, now, probe),
        ScannerKind::Temp => TempScanner::examine(config, now, probe),
        ScannerKind::Downloads => DownloadsScanner::examine(config, now, probe),
        ScannerKind::BuildArtifacts => BuildArtifactsScanner::examine(config, now, probe),
        ScannerKind::GlobalCache => GlobalCacheScanner::examine(config, home, now, probe),
        ScannerKind::LargeFiles => LargeFilesScanner::examine(config, now, probe),
        ScannerKind::Duplicates => None,
        ScannerKind::OldFiles => OldFilesScanner::examine(config, now, probe),
    }
}

/// Decides on one entry by the rule of a scanner, given where the scanner
/// looks.
pub fn examine_within(
    scope: &Scope,
    kind: ScannerKind,
    config: &Config,
    env: &Environment,
    probe: &FileProbe,
) -> (r: Option<CleanableFile>)
    requires
        scope.covers(kind, config@, env@),
    ensures
        option_file_view(r) == candidate(kind, config@, env@)(probe@),
{
    if scope.holds(probe.path.as_str(), probe.is_dir) {
        judge(kind, config, env, probe)
    } else {
        None
    }
}

/// Decides on one entry by the rule of a scanner.
pub fn examine(kind: ScannerKind, config: &Config, env: &Environment, probe: &FileProbe) -> (r:
    Option<CleanableFile>)
    ensures
        option_file_view(r) == candidate(kind, config@, env@)(probe@),
{
    let scope = scope_of(kind, config, env);
    examine_within(&scope, kind, config, env, probe)
}

/// The candidates among the entries, in the order of the entries.
pub fn candidates(
    kind: ScannerKind,
    config: &Config,
    env: &Environment,
    probes: &Vec<FileProbe>,
) -> (r: Vec<CleanableFile>)
    ensures
        file_views(r@) == probe_views(probes@).filter_map(candidate(kind, config@, env@)),
{
    let scope = scope_of(kind, config, env);
    let ghost views = probe_views(probes@);
    let ghost rule = candidate(kind, config@, env@);
    let mut out: Vec<CleanableFile> = Vec::new();
    let mut i: usize = 0;
    assert(views.take(0).filter_map(rule) == Seq::<FileView>::empty());
    assert(file_views(out@) == Seq::<FileView>::empty());
    while i < probes.len()
        invariant
            i <= probes.len(),
            scope.covers(kind, config@, env@),
            views == probe_views(probes@),
            rule == candidate(kind, config@, env@),
            file_views(out@) == views.take(i as int).filter_map(rule),
        decreases probes.len() - i,
    {
        let probe = &probes[i];
        proof {
            assert(views.take(i + 1).drop_last() == views.take(i as int));
            assert(views.take(i + 1).last() == probe@);
        }
        match examine_within(&scope, kind, config, env, probe) {
            Some(file) => {
                let ghost before = file_views(out@);
                assert(rule(probe@) == Some(file@));
                out.push(file);
                assert(file_views(out@) == before.push(file@));
                assert(before.push(file@) == before + seq![file@]);
            },
            None => {
                assert(rule(probe@) is None);
            },
        }
        i += 1;
    }
    assert(views.take(probes.len() as int) == views);
    out
}

/// What a scanner reports of the entries it was shown.
pub fn report(kind: ScannerKind, config: &Config, env: &Environment, probes: &Vec<FileProbe>) -> (r:
    Vec<CleanableFile>)
    ensures
        file_views(r@) == report_of(kind, config@, env@, probe_views(probes@)),
{
    match kind {
        ScannerKind::Duplicates => DuplicatesScanner::find_duplicates(config, env, probes),
        ScannerKind::LargeFiles => {
            let found = candidates(kind, config, env, probes);
            sort_files_within(found, Ranking::LargestFirst, MAX_LARGE_FILES)
        },
        ScannerKind::OldFiles => {
            let found = candidates(kind, config, env, probes);
            sort_files_within(found, Ranking::OldestThenLargest, MAX_OLD_FILES)
        },
        _ => {
            let found = candidates(kind, config, env, probes);
            sort_files(found, Ranking::LargestFirst)
        },
    }
}

/// Runs the scanner of the given kind on what was observed for it.
pub fn scan_section(kind: ScannerKind, config: &Config, survey: &Survey) -> (r: Result<
    Vec<CleanableFile>,
    String,
>)
    ensures
        outcome_view(r) == scan_outcome(kind, config@, survey@),
{
    match survey.section(kind) {
        Ok(probes) => Ok(report(kind, config, &survey.env, probes)),
        Err(e) => Err(e.clone()),
    }
}

/// One way of finding cleanable files.
pub trait Scanner: Send + Sync {
    /// Which scanner this is.
    spec fn kind(&self) -> ScannerKind;

    /// The name of the scanner.
    fn name(&self) -> (r: &'static str)
        ensures
            r@ == scanner_name(self.kind()),
    ;

    /// What the scanner reports of what was observed for it, or why that
    /// could not be gathered.
    fn scan(&self, config: &Config, survey: &Survey) -> (r: Result<Vec<CleanableFile>, String>)
        ensures
            outcome_view(r) == scan_outcome(self.kind(), config@, survey@),
    ;
}

impl Scanner for CacheScanner {
    open spec fn kind(&self) -> ScannerKind {
        ScannerKind::Cache
    }

    fn name(&self) -> (r: &'static str) {
        "Cache Scanner"
    }

    fn scan(&self, config: &Config, survey: &Survey) -> (r: Result<Vec<CleanableFile>, String>) {
        scan_section(ScannerKind::Cache, config, survey)
    }
}

impl Scanner for KnownCacheScanner {
    open spec fn kind(&self) -> ScannerKind {
        ScannerKind::KnownCache
    }

    fn name(&self) -> (r: &'static str) {
        "Known Cache Scanner"
    }

    fn scan(&self, config: &Config, survey: &Survey) -> (r: Result<Vec<CleanableFile>, String>) {
        scan_section(ScannerKind::KnownCache, config, survey)
    }
}

impl Scanner for TrashScanner {
    open spec fn kind(&self) -> ScannerKind {
        ScannerKind::Trash
    }

    fn name(&self) -> (r: &'static str) {
        "Trash Scanner"
    }

    fn scan(&self, config: &Config, survey: &Survey) -> (r: Result<Vec<CleanableFile>, String>) {
        scan_section(ScannerKind::Trash, config, survey)
    }
}

impl Scanner for TempScanner {
    open spec fn kind(&self) -> ScannerKind {
        ScannerKind::Temp
    }

    fn name(&self) -> (r: &'static str) {
        "Temp Scanner"
    }

    fn scan(&self, config: &Config, survey: &Survey) -> (r: Result<Vec<CleanableFile>, String>) {
        scan_section(ScannerKind::Temp, config, survey)
    }
}

impl Scanner for DownloadsScanner {
    open spec fn kind(&self) -> ScannerKind {
        ScannerKind::Downloads
    }

    fn name(&self) -> (r: &'static str) {
        "Downloads Scanner"
    }

    fn scan(&self, config: &Config, survey: &Survey) -> (r: Result<Vec<CleanableFile>, String>) {
        scan_section(ScannerKind::Downloads, config, survey)
    }
}

impl Scanner for BuildArtifactsScanner {
    open spec fn kind(&self) -> ScannerKind {
        ScannerKind::BuildArtifacts
    }

    fn name(&self) -> (r: &'static str) {
        "Build Artifacts Scanner"
    }

    fn scan(&self, config: &Config, survey: &Survey) -> (r: Result<Vec<CleanableFile>, String>) {
        scan_section(ScannerKind::BuildArtifacts, config, survey)
    }
}

impl Scanner for GlobalCacheScanner {
    open spec fn kind(&self) -> ScannerKind {
        ScannerKind::GlobalCache
    }

    fn name(&self) -> (r: &'static str) {
        "Global Cache Scanner"
    }

    fn scan(&self, config: &Config, survey: &Survey) -> (r: Result<Vec<CleanableFile>, String>) {
        scan_section(ScannerKind::GlobalCache, config, survey)
    }
}

impl Scanner for LargeFilesScanner {
    open spec fn kind(&self) -> ScannerKind {
        ScannerKind::LargeFiles
    }

    fn name(&self) -> (r: &'static str) {
        "Large Files Scanner"
    }

    fn scan(&self, config: &Config, survey: &Survey) -> (r: Result<Vec<CleanableFile>, String>) {
        scan_section(ScannerKind::LargeFiles, config, survey)
    }
}

impl Scanner for DuplicatesScanner {
    open spec fn kind(&self) -> ScannerKind {
        ScannerKind::Duplicates
    }

    fn name(&self) -> (r: &'static str) {
        "Duplicates Scanner"
    }

    fn scan(&self, config: &Config, survey: &Survey) -> (r: Result<Vec<CleanableFile>, String>) {
        scan_section(ScannerKind::Duplicates, config, survey)
    }
}

impl Scanner for OldFilesScanner {
    open spec fn kind(&self) -> ScannerKind {
        ScannerKind::OldFiles
    }

    fn name(&self) -> (r: &'static str) {
        "Old Files Scanner"
    }

    fn scan(&self, config: &Config, survey: &Survey) -> (r: Result<Vec<CleanableFile>, String>) {
        scan_section(ScannerKind::OldFiles, config, survey)
    }
}

/// What a scan found: the files, and the failures of scanners.
#[derive(Debug, Clone)]
pub struct ScanResult {
    pub files: Vec<CleanableFile>,
    pub errors: Vec<String>,
}

/// The mathematical content of a `ScanResult`.
pub struct ScanResultView {
    pub files: Seq<FileView>,
    pub errors: Seq<Seq<char>>,
}

impl View for ScanResult {
    type V = ScanResultView;

    open spec fn view(&self) -> ScanResultView {
        ScanResultView { files: file_views(self.files@), errors: string_views(self.errors@) }
    }
}

/// The sizes of the files added up.
pub open spec fn total_bytes(files: Seq<FileView>) -> nat
    decreases files.len(),
{
    if files.len() == 0 {
        0
    } else {
        total_bytes(files.drop_last()) + files.last().size as nat
    }
}

/// A number of bytes as far as 64 bits can hold it.
pub open spec fn capped(n: nat) -> u64 {
    if n <= u64::MAX {
        n as u64
    } else {
        u64::MAX
    }
}

/// The sizes of the files added up, as far as 64 bits can hold the sum.
pub fn sum_sizes(files: &Vec<CleanableFile>) -> (r: u64)
    ensures
        r == capped(total_bytes(file_views(files@))),
{
    let ghost views = file_views(files@);
    let mut sum: u64 = 0;
    let mut i: usize = 0;
    assert(views.take(0) == Seq::<FileView>::empty());
    while i < files.len()
        invariant
            i <= files.len(),
            views == file_views(files@),
            sum == capped(total_bytes(views.take(i as int))),
        decreases files.len() - i,
    {
        proof {
            assert(views.take(i + 1).drop_last() == views.take(i as int));
            assert(views.take(i + 1).last() == files@[i as int]@);
        }
        let size = files[i].size;
        if sum > u64::MAX - size {
            sum = u64::MAX;
        } else {
            sum = sum + size;
        }
        i += 1;
    }
    assert(views.take(files.len() as int) == views);
    sum
}

impl ScanResult {
    /// A result without files and without errors.
    pub fn new() -> (r: Self)
        ensures
            r@.files == Seq::<FileView>::empty(),
            r@.errors == Seq::<Seq<char>>::empty(),
    {
        let r = ScanResult { files: Vec::new(), errors: Vec::new() };
        assert(r@.files == Seq::<FileView>::empty());
        assert(r@.errors == Seq::<Seq<char>>::empty());
        r
    }

    /// Adds files at the end.
    pub fn add_files(&mut self, files: Vec<CleanableFile>)
        ensures
            final(self)@.files == old(self)@.files + file_views(files@),
            final(self)@.errors == old(self)@.errors,
    {
        let ghost added = files@;
        let mut rest = files;
        self.files.append(&mut rest);
        assert(file_views(self.files@) == file_views(old(self).files@) + file_views(added));
    }

    /// Records the failure of a scanner.
    pub fn add_error(&mut self, error: String)
        ensures
            final(self)@.files == old(self)@.files,
            final(self)@.errors == old(self)@.errors.push(error@),
    {
        self.errors.push(error);
        assert(string_views(self.errors@) == string_views(old(self).errors@).push(error@));
    }

    /// The sizes of all files added up; the largest number of 64 bits
    /// where the sum is beyond them.
    pub fn total_size(&self) -> (r: u64)
        ensures
            r == capped(total_bytes(self@.files)),
    {
        sum_sizes(&self.files)
    }

    /// The number of files.
    pub fn total_count(&self) -> (r: usize)
        ensures
            r == self@.files.len(),
    {
        self.files.len()
    }
}

impl Default for ScanResult {
    fn default() -> (r: Self)
        ensures
            r@.files == Seq::<FileView>::empty(),
            r@.errors == Seq::<Seq<char>>::empty(),
    {
        ScanResult::new()
    }
}

/// The lengths added up.
pub open spec fn sum_of(lengths: Seq<u64>) -> nat
    decreases lengths.len(),
{
    if lengths.len() == 0 {
        0
    } else {
        sum_of(lengths.drop_last()) + lengths.last() as nat
    }
}

/// The size of a directory, given the lengths of the files in it and
/// below it: their sum, as far as 64 bits can hold it.
pub fn calculate_dir_size(file_lengths: &Vec<u64>) -> (r: u64)
    ensures
        r == capped(sum_of(file_lengths@)),
{
    let mut sum: u64 = 0;
    let mut i: usize = 0;
    assert(file_lengths@.take(0) == Seq::<u64>::empty());
    while i < file_lengths.len()
        invariant
            i <= file_lengths.len(),
            sum == capped(sum_of(file_lengths@.take(i as int))),
        decreases file_lengths.len() - i,
    {
        proof {
            assert(file_lengths@.take(i + 1).drop_last() == file_lengths@.take(i as int));
            assert(file_lengths@.take(i + 1).last() == file_lengths@[i as int]);
        }
        let length = file_lengths[i];
        if sum > u64::MAX - length {
            sum = u64::MAX;
        } else {
            sum = sum + length;
        }
        i += 1;
    }
    assert(file_lengths@.take(file_lengths.len() as int) == file_lengths@);
    sum
}

/// Whether an entry was accessed within the last `days` days before `now`,
/// given the time of its last access if that could be read. An entry whose
/// time of access is not known counts as accessed lately.
pub fn was_accessed_within_days(accessed: Option<Timestamp>, days: u32, now: Timestamp) -> (r: bool)
    ensures
        r == touched_within(accessed, days, now),
{
    was_touched_within(accessed, days, now)
}

/// Whether an entry was modified within the last `days` days before `now`,
/// given the time of its last change if that could be read. An entry whose
/// time of change is not known counts as modified lately.
pub fn was_modified_within_days(modified: Option<Timestamp>, days: u32, now: Timestamp) -> (r: bool)
    ensures
        r == touched_within(modified, days, now),
{
    was_touched_within(modified, days, now)
}

impl Survey {
    /// A survey in which nothing was observed.
    pub fn empty(env: Environment) -> (r: Survey)
        ensures
            r.env == env,
            forall|kind: ScannerKind| #[trigger] r@.section(kind)
                == Ok::<Seq<ProbeView>, Seq<char>>(Seq::empty()),
    {
        let r = Survey {
            env,
            cache: Ok(Vec::new()),
            known_caches: Ok(Vec::new()),
            trash: Ok(Vec::new()),
            temp: Ok(Vec::new()),
            downloads: Ok(Vec::new()),
            artifacts: Ok(Vec::new()),
            global_caches: Ok(Vec::new()),
            large_files: Ok(Vec::new()),
            duplicates: Ok(Vec::new()),
            old_files: Ok(Vec::new()),
        };
        proof {
            let none = Ok::<Seq<ProbeView>, Seq<char>>(Seq::empty());
            assert(r@.cache == none) by {
                assert(probe_views(r.cache->Ok_0@) =~= Seq::<ProbeView>::empty());
            }
            assert(r@.known_caches == none) by {
                assert(probe_views(r.known_caches->Ok_0@) =~= Seq::<ProbeView>::empty());
            }
            assert(r@.trash == none) by {
                assert(probe_views(r.trash->Ok_0@) =~= Seq::<ProbeView>::empty());
            }
            assert(r@.temp == none) by {
                assert(probe_views(r.temp->Ok_0@) =~= Seq::<ProbeView>::empty());
            }
            assert(r@.downloads == none) by {
                assert(probe_views(r.downloads->Ok_0@) =~= Seq::<ProbeView>::empty());
            }
            assert(r@.artifacts == none) by {
                assert(probe_views(r.artifacts->Ok_0@) =~= Seq::<ProbeView>::empty());
            }
            assert(r@.global_caches == none) by {
                assert(probe_views(r.global_caches->Ok_0@) =~= Seq::<ProbeView>::empty());
            }
            assert(r@.large_files == none) by {
                assert(probe_views(r.large_files->Ok_0@) =~= Seq::<ProbeView>::empty());
            }
            assert(r@.duplicates == none) by {
                assert(probe_views(r.duplicates->Ok_0@) =~= Seq::<ProbeView>::empty());
            }
            assert(r@.old_files == none) by {
                assert(probe_views(r.old_files->Ok_0@) =~= Seq::<ProbeView>::empty());
            }
        }
        r
    }
}

impl FileProbe {
    /// A probe of the entry at `path` of which nothing else is known yet: a
    /// regular file of no size.
    pub fn at(path: String) -> (r: FileProbe)
        ensures
            r@ == (ProbeView {
                path: path@,
                is_file: true,
                is_dir: false,
                metadata_ok: true,
                size: 0,
                readonly: false,
                modified: None,
                accessed: None,
                project_marker: false,
                project_files: Seq::empty(),
                digest: None,
            }),
    {
        let r = FileProbe {
            path,
            is_file: true,
            is_dir: false,
            metadata_ok: true,
            size: 0,
            readonly: false,
            modified: None,
            accessed: None,
            project_marker: false,
            project_files: Vec::new(),
            digest: None,
        };
        assert(r@.project_files =~= Seq::<ProjectFileView>::empty());
        r
    }
}

} // verus!
