//! What a caller may ask of a scan.

use vstd::prelude::*;

verus! {

/// The categories that a scan can be asked for.
#[derive(Debug, Clone, Copy, PartialEq, Eq, Structural)]
pub enum ScanCategory {
    Cache,
    Trash,
    Temp,
    Downloads,
    Build,
    Large,
    Duplicates,
    Old,
}

/// The request for one scan: which categories to look at, with which
/// thresholds, where, and what to leave out.
#[derive(Debug, Clone)]
pub struct ScanOptions {
    /// Scan all categories.
    pub all: bool,
    /// Include system and application caches.
    pub cache: bool,
    /// Include the trash bin.
    pub trash: bool,
    /// Include temporary files.
    pub temp: bool,
    /// Include old downloads.
    pub downloads: bool,
    /// Include build artifacts.
    pub build: bool,
    /// Include large files.
    pub large: bool,
    /// Include duplicate files.
    pub duplicates: bool,
    /// Include old unused files.
    pub old: bool,
    /// Minimum age in days for a file to count as old.
    pub min_age: Option<u32>,
    /// Minimum size for a file to count as large, such as `100MB` or `1GB`.
    pub min_size: Option<String>,
    /// A project counts as recently used if touched within this many days.
    pub project_age: Option<u32>,
    /// The path to scan, in place of the home directory.
    pub path: Option<String>,
    /// Patterns of paths to leave out.
    pub exclude: Vec<String>,
    /// Whether the result is wanted as JSON.
    pub json: bool,
}

/// The mathematical content of a `ScanOptions`.
pub struct ScanOptionsView {
    pub all: bool,
    pub cache: bool,
    pub trash: bool,
    pub temp: bool,
    pub downloads: bool,
    pub build: bool,
    pub large: bool,
    pub duplicates: bool,
    pub old: bool,
    pub min_age: Option<u32>,
    pub min_size: Option<Seq<char>>,
    pub project_age: Option<u32>,
    pub path: Option<Seq<char>>,
    pub exclude: Seq<Seq<char>>,
    pub json: bool,
}

/// The texts of a sequence of strings.
pub open spec fn string_views(v: Seq<String>) -> Seq<Seq<char>> {
    v.map_values(|s: String| s@)
}

/// The text of an optional string.
pub open spec fn option_view(s: Option<String>) -> Option<Seq<char>> {
    match s {
        Some(s) => Some(s@),
        None => None,
    }
}

impl View for ScanOptions {
    type V = ScanOptionsView;

    open spec fn view(&self) -> ScanOptionsView {
        ScanOptionsView {
            all: self.all,
            cache: self.cache,
            trash: self.trash,
            temp: self.temp,
            downloads: self.downloads,
            build: self.build,
            large: self.large,
            duplicates: self.duplicates,
            old: self.old,
            min_age: self.min_age,
            min_size: option_view(self.min_size),
            project_age: self.project_age,
            path: option_view(self.path),
            exclude: string_views(self.exclude@),
            json: self.json,
        }
    }
}

impl ScanOptionsView {
    /// No category was named.
    pub open spec fn none_selected(self) -> bool {
        !self.cache && !self.trash && !self.temp && !self.downloads && !self.build && !self.large
            && !self.duplicates && !self.old
    }

    /// The flag of one category.
    pub open spec fn flag(self, category: ScanCategory) -> bool {
        match category {
            ScanCategory::Cache => self.cache,
            ScanCategory::Trash => self.trash,
            ScanCategory::Temp => self.temp,
            ScanCategory::Downloads => self.downloads,
            ScanCategory::Build => self.build,
            ScanCategory::Large => self.large,
            ScanCategory::Duplicates => self.duplicates,
            ScanCategory::Old => self.old,
        }
    }

    /// A category is scanned if all are asked for, if none is named, or if
    /// it is named itself.
    pub open spec fn wants(self, category: ScanCategory) -> bool {
        self.all || self.none_selected() || self.flag(category)
    }
}

impl ScanOptions {
    /// Whether no category was named, which asks for all of them.
    pub fn no_categories_selected(&self) -> (r: bool)
        ensures
            r == self@.none_selected(),
    {
        !self.cache && !self.trash && !self.temp && !self.downloads && !self.build && !self.large
            && !self.duplicates && !self.old
    }

    /// Whether a category is part of the scan.
    pub fn should_scan(&self, category: ScanCategory) -> (r: bool)
        ensures
            r == self@.wants(category),
    {
        if self.all || self.no_categories_selected() {
            return true;
        }
        match category {
            ScanCategory::Cache => self.cache,
            ScanCategory::Trash => self.trash,
            ScanCategory::Temp => self.temp,
            ScanCategory::Downloads => self.downloads,
            ScanCategory::Build => self.build,
            ScanCategory::Large => self.large,
            ScanCategory::Duplicates => self.duplicates,
            ScanCategory::Old => self.old,
        }
    }
}

/// The request to clean: a scan, and whether to skip the confirmation.
#[derive(Debug)]
pub struct CleanOptions {
    pub scan: ScanOptions,
    /// Skip confirmation prompts.
    pub yes: bool,
}

/// The request to analyze: a scan.
#[derive(Debug)]
pub struct AnalyzeOptions {
    pub scan: ScanOptions,
}

/// The request to show the room on a disk.
#[derive(Debug, Clone)]
pub struct SpaceOptions {
    /// The path whose disk is asked for, in place of the home directory.
    pub path: Option<String>,
    /// Whether the answer is wanted as JSON.
    pub json: bool,
}

/// What the program is asked to do.
#[derive(Debug)]
pub enum Command {
    /// Find cleanable files and report them; delete nothing.
    Scan(ScanOptions),
    /// Delete files after confirmation.
    Clean(CleanOptions),
    /// Show disk usage by category.
    Analyze(AnalyzeOptions),
    /// Show the room on the disk that holds a path.
    Space(SpaceOptions),
    /// Show the configuration.
    Config,
}

/// The command line as a whole.
#[derive(Debug)]
pub struct Cli {
    pub command: Command,
}

} // verus!
