//! Build outputs and dependency directories of projects that have not been
//! worked on lately, and the caches of package managers.

use crate::config::{excluded_by, option_str_view, Config, ConfigView};
use crate::path::{
    entry_name, entry_name_chars, extension, extension_of, file_name, file_name_chars,
    has_component, names, parent_name, parent_name_chars,
};
use crate::scanner::cache::{examine_listed, listed_candidate, pair_views};
use crate::scanner::{
    new_file, option_file_view, project_views, Category, CleanableFile, FileProbe, FileView,
    ProbeView, ProjectFile, ProjectFileView,
};
use crate::text::{among, append_chars, append_str, chars_of, same_chars, str_views};
use crate::time::{known_or_now, touched_within, was_touched_within, Timestamp};
use vstd::prelude::*;

verus! {

/// Reports build outputs and dependency directories of idle projects.
#[derive(Debug, Clone, Copy)]
pub struct BuildArtifactsScanner;

/// Reports the caches that package managers keep for all projects.
#[derive(Debug, Clone, Copy)]
pub struct GlobalCacheScanner;

/// The smallest size at which a build artifact is reported.
pub const MIN_ARTIFACT_BYTES: u64 = 1024 * 1024;

/// A kind of build artifact: the name of its directory, the file beside it
/// that marks a project (empty where none is asked for), and what it is.
pub struct ArtifactPattern {
    pub dir_name: &'static str,
    pub project_file: &'static str,
    pub description: &'static str,
}

/// The mathematical content of an `ArtifactPattern`.
pub struct PatternView {
    pub dir_name: Seq<char>,
    pub project_file: Seq<char>,
    pub description: Seq<char>,
}

impl View for ArtifactPattern {
    type V = PatternView;

    open spec fn view(&self) -> PatternView {
        PatternView {
            dir_name: self.dir_name@,
            project_file: self.project_file@,
            description: self.description@,
        }
    }
}

/// The contents of a list of patterns.
pub open spec fn pattern_views(list: Seq<ArtifactPattern>) -> Seq<PatternView> {
    list.map_values(|p: ArtifactPattern| p@)
}

/// One kind of build artifact.
pub open spec fn pattern(dir_name: &str, project_file: &str, description: &str) -> PatternView {
    PatternView {
        dir_name: dir_name@,
        project_file: project_file@,
        description: description@,
    }
}

/// The kinds of build artifacts that are looked for.
pub open spec fn artifact_pattern_list() -> Seq<PatternView> {
    seq![
        pattern("node_modules", "package.json", "Node.js dependencies"),
        pattern("target", "Cargo.toml", "Rust build artifacts"),
        pattern("__pycache__", "", "Python bytecode cache"),
        pattern(".pytest_cache", "", "pytest cache"),
        pattern(".gradle", "build.gradle", "Gradle cache"),
        pattern("build", "build.gradle", "Gradle build output"),
        pattern(".next", "next.config.js", "Next.js build cache"),
        pattern(".nuxt", "nuxt.config.js", "Nuxt.js build cache"),
        pattern("dist", "package.json", "Build distribution"),
        pattern("vendor", "composer.json", "PHP Composer dependencies"),
        pattern("Pods", "Podfile", "CocoaPods dependencies"),
        pattern(".tox", "tox.ini", "tox virtual environments"),
        pattern("venv", "", "Python virtual environment"),
        pattern(".venv", "", "Python virtual environment"),
    ]
}

/// The first pattern of `list` for a directory of the given name.
pub open spec fn pattern_named(list: Seq<PatternView>, dir_name: Seq<char>) -> Option<PatternView>
    decreases list.len(),
{
    if list.len() == 0 {
        None
    } else if list[0].dir_name == dir_name {
        Some(list[0])
    } else {
        pattern_named(list.skip(1), dir_name)
    }
}

/// The files whose recent change shows that a project is in use, by their
/// paths from the project directory.
pub open spec fn project_file_names() -> Seq<Seq<char>> {
    seq![
        "package.json"@,
        "package-lock.json"@,
        "yarn.lock"@,
        "pnpm-lock.yaml"@,
        "Cargo.toml"@,
        "Cargo.lock"@,
        "requirements.txt"@,
        "pyproject.toml"@,
        "build.gradle"@,
        "pom.xml"@,
        "go.mod"@,
        "composer.json"@,
        "Gemfile"@,
        "Podfile"@,
        ".git/HEAD"@,
        ".git/index"@,
    ]
}

/// The extensions of source files.
pub open spec fn source_extensions() -> Seq<Seq<char>> {
    seq!["rs"@, "js"@, "ts"@, "tsx"@, "jsx"@, "py"@, "go"@, "java"@, "rb"@, "php"@]
}

/// Whether a file tells of work on a project: one of the project files by
/// its name, or a file with the extension of a source file.
pub open spec fn tells_of_work(name: Seq<char>) -> bool {
    project_file_names().contains(name) || match extension(name) {
        Some(ext) => source_extensions().contains(ext),
        None => false,
    }
}

/// Whether a project was used within the last `days` days: one of the files
/// that tell of work was modified within them, or its time of modification
/// cannot be read.
pub open spec fn project_recently_used(
    files: Seq<ProjectFileView>,
    days: u32,
    now: Timestamp,
) -> bool {
    exists|i: int|
        0 <= i < files.len() && tells_of_work(#[trigger] files[i].name) && touched_within(
            files[i].modified,
            days,
            now,
        )
}

/// The hidden directories that a walk for build artifacts enters.
pub open spec fn hidden_artifact_dirs() -> Seq<Seq<char>> {
    seq![".next"@, ".nuxt"@, ".gradle"@, ".tox"@, ".venv"@, ".pytest_cache"@]
}

/// Whether a walk for build artifacts visits the entry at `path`, and
/// enters it if it is a directory. An entry whose name begins with a `.` is
/// visited only if it is one of the hidden artifact directories. Any other
/// entry is visited unless it lies in a `node_modules` directory and is not
/// itself called so.
pub open spec fn artifact_walk_visits(path: Seq<char>) -> bool {
    let name = entry_name(path);
    if name.len() > 0 && name[0] == '.' {
        hidden_artifact_dirs().contains(name)
    } else {
        !(names(path).contains("node_modules"@) && name != "node_modules"@)
    }
}

/// The sentence that says what an artifact is and of which project.
pub open spec fn artifact_reason(description: Seq<char>, project: Option<Seq<char>>) -> Seq<char> {
    description + " in project '"@ + (match project {
        Some(name) => name,
        None => "Unknown"@,
    }) + "'"@
}

/// What the scanner reports of one entry that a walk for build artifacts
/// visited. A candidate is a directory named as one of the patterns; it is
/// none if its path is excluded, if the pattern asks for a project file and
/// none stands beside the directory, if the project was used within the days
/// that the settings give, or if the directory holds less than 1 MiB.
pub open spec fn artifact_candidate(cfg: ConfigView, now: Timestamp, p: ProbeView) -> Option<
    FileView,
> {
    if !p.is_dir {
        None
    } else {
        match file_name(p.path) {
            None => None,
            Some(dir_name) => match pattern_named(artifact_pattern_list(), dir_name) {
                None => None,
                Some(pat) => if excluded_by(cfg.excluded_paths, p.path) || (pat.project_file.len()
                    > 0 && !p.project_marker) || project_recently_used(
                    p.project_files,
                    cfg.project_recent_days,
                    now,
                ) || p.size < MIN_ARTIFACT_BYTES {
                    None
                } else {
                    Some(
                        FileView {
                            path: p.path,
                            size: p.size,
                            category: Category::BuildArtifact,
                            last_accessed: known_or_now(p.modified, now),
                            reason: artifact_reason(pat.description, parent_name(p.path)),
                            is_directory: true,
                        },
                    )
                },
            },
        }
    }
}

/// The caches that package managers keep for all projects: where each lies
/// below the home directory, and what it is.
pub open spec fn global_cache_list() -> Seq<(Seq<char>, Seq<char>)> {
    seq![
        (".cargo/registry/cache"@, "Cargo registry cache"@),
        (".cargo/git/checkouts"@, "Cargo git checkouts"@),
        (".rustup/tmp"@, "Rustup temp files"@),
        (".npm/_cacache"@, "npm cache"@),
        (".yarn/cache"@, "Yarn cache"@),
        (".pnpm-store"@, "pnpm store"@),
        (".gradle/caches"@, "Gradle caches"@),
        (".m2/repository"@, "Maven repository"@),
        (".cache/pip"@, "pip cache"@),
        (".cache/go-build"@, "Go build cache"@),
    ]
}

/// What the global-cache scanner reports of one directory.
pub open spec fn global_cache_candidate(
    cfg: ConfigView,
    home: Option<Seq<char>>,
    now: Timestamp,
    p: ProbeView,
) -> Option<FileView> {
    listed_candidate(
        global_cache_list(),
        Category::BuildArtifact,
        cfg,
        home,
        now,
        p.path,
        p.size,
        p.modified,
    )
}

fn make_pattern(
    dir_name: &'static str,
    project_file: &'static str,
    description: &'static str,
) -> (r: ArtifactPattern)
    ensures
        r@ == pattern(dir_name, project_file, description),
{
    ArtifactPattern { dir_name, project_file, description }
}

/// The kinds of build artifacts that are looked for.
pub fn artifact_patterns() -> (r: Vec<ArtifactPattern>)
    ensures
        pattern_views(r@) == artifact_pattern_list(),
{
    let mut v: Vec<ArtifactPattern> = Vec::new();
    v.push(make_pattern("node_modules", "package.json", "Node.js dependencies"));
    v.push(make_pattern("target", "Cargo.toml", "Rust build artifacts"));
    v.push(make_pattern("__pycache__", "", "Python bytecode cache"));
    v.push(make_pattern(".pytest_cache", "", "pytest cache"));
    v.push(make_pattern(".gradle", "build.gradle", "Gradle cache"));
    v.push(make_pattern("build", "build.gradle", "Gradle build output"));
    v.push(make_pattern(".next", "next.config.js", "Next.js build cache"));
    v.push(make_pattern(".nuxt", "nuxt.config.js", "Nuxt.js build cache"));
    v.push(make_pattern("dist", "package.json", "Build distribution"));
    v.push(make_pattern("vendor", "composer.json", "PHP Composer dependencies"));
    v.push(make_pattern("Pods", "Podfile", "CocoaPods dependencies"));
    v.push(make_pattern(".tox", "tox.ini", "tox virtual environments"));
    v.push(make_pattern("venv", "", "Python virtual environment"));
    v.push(make_pattern(".venv", "", "Python virtual environment"));
    assert(pattern_views(v@) =~= artifact_pattern_list());
    v
}

/// The pattern for a directory of the given name, by its place in the list.
pub fn find_pattern(list: &Vec<ArtifactPattern>, dir_name: &Vec<char>) -> (r: Option<usize>)
    ensures
        match r {
            Some(k) => k < list.len() && pattern_named(pattern_views(list@), dir_name@) == Some(
                list@[k as int]@,
            ),
            None => pattern_named(pattern_views(list@), dir_name@) is None,
        },
{
    let mut i: usize = 0;
    assert(pattern_views(list@).skip(0) == pattern_views(list@));
    while i < list.len()
        invariant
            i <= list.len(),
            pattern_named(pattern_views(list@), dir_name@) == pattern_named(
                pattern_views(list@).skip(i as int),
                dir_name@,
            ),
        decreases list.len() - i,
    {
        proof {
            let rest = pattern_views(list@).skip(i as int);
            assert(rest[0] == list@[i as int]@);
            assert(rest.skip(1) == pattern_views(list@).skip(i + 1));
        }
        let name = chars_of(list[i].dir_name);
        if same_chars(&name, dir_name) {
            return Some(i);
        }
        i += 1;
    }
    None
}

/// The files whose recent change shows that a project is in use, by their
/// paths from the project directory.
pub fn project_files_list() -> (r: Vec<&'static str>)
    ensures
        str_views(r@) == project_file_names(),
{
    let mut v: Vec<&'static str> = Vec::new();
    v.push("package.json");
    v.push("package-lock.json");
    v.push("yarn.lock");
    v.push("pnpm-lock.yaml");
    v.push("Cargo.toml");
    v.push("Cargo.lock");
    v.push("requirements.txt");
    v.push("pyproject.toml");
    v.push("build.gradle");
    v.push("pom.xml");
    v.push("go.mod");
    v.push("composer.json");
    v.push("Gemfile");
    v.push("Podfile");
    v.push(".git/HEAD");
    v.push(".git/index");
    assert(str_views(v@) =~= project_file_names());
    v
}

fn source_extension_list() -> (r: Vec<&'static str>)
    ensures
        str_views(r@) == source_extensions(),
{
    let mut v: Vec<&'static str> = Vec::new();
    v.push("rs");
    v.push("js");
    v.push("ts");
    v.push("tsx");
    v.push("jsx");
    v.push("py");
    v.push("go");
    v.push("java");
    v.push("rb");
    v.push("php");
    assert(str_views(v@) =~= source_extensions());
    v
}

/// The hidden directories that a walk for build artifacts enters.
pub fn hidden_dir_list() -> (r: Vec<&'static str>)
    ensures
        str_views(r@) == hidden_artifact_dirs(),
{
    let mut v: Vec<&'static str> = Vec::new();
    v.push(".next");
    v.push(".nuxt");
    v.push(".gradle");
    v.push(".tox");
    v.push(".venv");
    v.push(".pytest_cache");
    assert(str_views(v@) =~= hidden_artifact_dirs());
    v
}

/// Whether a file of the given name tells of work on a project.
pub fn file_tells_of_work(name: &str) -> (r: bool)
    ensures
        r == tells_of_work(name@),
{
    if among(&chars_of(name), &project_files_list()) {
        return true;
    }
    match extension_of(name) {
        Some(ext) => among(&chars_of(ext.as_str()), &source_extension_list()),
        None => false,
    }
}

/// Whether a project was used within the last `days` days, by the files
/// found in its directory.
pub fn is_project_recently_used(files: &Vec<ProjectFile>, days: u32, now: Timestamp) -> (r: bool)
    ensures
        r == project_recently_used(project_views(files@), days, now),
{
    let mut i: usize = 0;
    while i < files.len()
        invariant
            i <= files.len(),
            forall|k: int|
                0 <= k < i ==> !(tells_of_work(#[trigger] project_views(files@)[k].name)
                    && touched_within(project_views(files@)[k].modified, days, now)),
        decreases files.len() - i,
    {
        let file = &files[i];
        assert(project_views(files@)[i as int] == file@);
        if file_tells_of_work(file.name.as_str()) && was_touched_within(file.modified, days, now) {
            assert(tells_of_work(project_views(files@)[i as int].name) && touched_within(
                project_views(files@)[i as int].modified,
                days,
                now,
            ));
            return true;
        }
        i += 1;
    }
    false
}

/// Writes the sentence that says what an artifact is and of which project.
pub fn write_artifact_reason(description: &str, project: &Option<Vec<char>>) -> (r: Vec<char>)
    ensures
        r@ == artifact_reason(
            description@,
            match project {
                Some(name) => Some(name@),
                None => None,
            },
        ),
{
    let mut out: Vec<char> = Vec::new();
    append_str(&mut out, description);
    assert(out@ == description@);
    append_str(&mut out, " in project '");
    match project {
        Some(name) => {
            append_chars(&mut out, name);
        },
        None => {
            append_str(&mut out, "Unknown");
        },
    }
    append_str(&mut out, "'");
    out
}

impl BuildArtifactsScanner {
    /// The scanner.
    pub fn new() -> (r: Self) {
        BuildArtifactsScanner
    }

    /// Whether a walk for build artifacts visits the entry at `path`, and
    /// enters it if it is a directory.
    pub fn should_visit(path: &str) -> (r: bool)
        ensures
            r == artifact_walk_visits(path@),
    {
        let name = entry_name_chars(path);
        if name.len() > 0 && name[0] == '.' {
            return among(&name, &hidden_dir_list());
        }
        if has_component(path, "node_modules") {
            let wanted = chars_of("node_modules");
            return same_chars(&name, &wanted);
        }
        true
    }

    /// Decides on one entry that the walk visited.
    pub fn examine(config: &Config, now: Timestamp, probe: &FileProbe) -> (r: Option<
        CleanableFile,
    >)
        ensures
            option_file_view(r) == artifact_candidate(config@, now, probe@),
    {
        if !probe.is_dir {
            return None;
        }
        let dir_name = match file_name_chars(probe.path.as_str()) {
            Some(name) => name,
            None => {
                return None;
            },
        };
        let patterns = artifact_patterns();
        let k = match find_pattern(&patterns, &dir_name) {
            Some(k) => k,
            None => {
                return None;
            },
        };
        let pat = &patterns[k];
        if config.is_excluded(probe.path.as_str()) {
            return None;
        }
        if pat.project_file.unicode_len() > 0 && !probe.project_marker {
            return None;
        }
        if is_project_recently_used(&probe.project_files, config.project_recent_days, now) {
            return None;
        }
        if probe.size < MIN_ARTIFACT_BYTES {
            return None;
        }
        let project = parent_name_chars(probe.path.as_str());
        let reason = write_artifact_reason(pat.description, &project);
        Some(
            new_file(
                &probe.path,
                probe.size,
                Category::BuildArtifact,
                Timestamp::known_or(probe.modified, now),
                &reason,
                true,
            ),
        )
    }
}

impl Default for BuildArtifactsScanner {
    /// The scanner.
    fn default() -> (r: Self) {
        BuildArtifactsScanner::new()
    }
}

impl GlobalCacheScanner {
    /// The scanner.
    pub fn new() -> (r: Self) {
        GlobalCacheScanner
    }

    /// The caches that package managers keep for all projects: where each
    /// lies below the home directory, and what it is.
    pub fn global_caches() -> (r: Vec<(&'static str, &'static str)>)
        ensures
            pair_views(r@) == global_cache_list(),
    {
        let mut v: Vec<(&'static str, &'static str)> = Vec::new();
        v.push((".cargo/registry/cache", "Cargo registry cache"));
        v.push((".cargo/git/checkouts", "Cargo git checkouts"));
        v.push((".rustup/tmp", "Rustup temp files"));
        v.push((".npm/_cacache", "npm cache"));
        v.push((".yarn/cache", "Yarn cache"));
        v.push((".pnpm-store", "pnpm store"));
        v.push((".gradle/caches", "Gradle caches"));
        v.push((".m2/repository", "Maven repository"));
        v.push((".cache/pip", "pip cache"));
        v.push((".cache/go-build", "Go build cache"));
        assert(pair_views(v@) =~= global_cache_list());
        v
    }

    /// Decides on one directory.
    pub fn examine(config: &Config, home: Option<&str>, now: Timestamp, probe: &FileProbe) -> (r:
        Option<CleanableFile>)
        ensures
            option_file_view(r) == global_cache_candidate(
                config@,
                option_str_view(home),
                now,
                probe@,
            ),
    {
        let list = GlobalCacheScanner::global_caches();
        examine_listed(&list, Category::BuildArtifact, config, home, now, probe, probe.modified)
    }
}

impl Default for GlobalCacheScanner {
    /// The scanner.
    fn default() -> (r: Self) {
        GlobalCacheScanner::new()
    }
}

} // verus!
