//! The scan and its results as a graphical front end exchanges them: plain
//! records of numbers and texts.

use crate::analyzer::{all_categories, category_list, in_category, measure_category};
use crate::cleaner::CleanupResult;
use crate::cli::{option_view, string_views, ScanOptions, ScanOptionsView};
use crate::config::{Config, ConfigView};
use crate::scanner::{
    capped, category_description, category_name, file_views, total_bytes, Category, CleanableFile,
    FileView, ScanResult, ScanResultView,
};
use crate::text::{append_str, chars_of, decimal, push_decimal, same_text, text_of};
use crate::time::Timestamp;
use crate::ui::{hundredths, hundredths_of, push_two_decimals, two_decimals, GB, KB, MB};
use vstd::prelude::*;

verus! {

/// A point in time written to the minute, as `2024-03-09 17:05` (UTC);
/// nothing for a time beyond the calendar.
pub uninterp spec fn minute_text(secs: i64, nanos: u32) -> Option<Seq<char>>;

/// `chrono::DateTime::from_timestamp`, then `DateTime::format` with
/// `%Y-%m-%d %H:%M`: the time in UTC written to the minute, or nothing where
/// the calendar of the crate does not reach. The text is left unstated and
/// only given a name.
#[verifier::external_body]
fn format_minute(secs: i64, nanos: u32) -> (r: Option<String>)
    ensures
        option_view(r) == minute_text(secs, nanos),
{
    match chrono::DateTime::from_timestamp(secs, nanos) {
        Some(t) => Some(t.format("%Y-%m-%d %H:%M").to_string()),
        None => None,
    }
}

/// A file of a scan result, with its size and category spelled out.
#[derive(Debug, Clone)]
pub struct UiCleanableFile {
    pub path: String,
    pub size: u64,
    pub size_formatted: String,
    pub category: String,
    pub category_key: String,
    pub last_accessed: String,
    pub reason: String,
    pub is_directory: bool,
}

/// The mathematical content of a `UiCleanableFile`.
pub struct UiFileView {
    pub path: Seq<char>,
    pub size: u64,
    pub size_formatted: Seq<char>,
    pub category: Seq<char>,
    pub category_key: Seq<char>,
    pub last_accessed: Seq<char>,
    pub reason: Seq<char>,
    pub is_directory: bool,
}

impl View for UiCleanableFile {
    type V = UiFileView;

    open spec fn view(&self) -> UiFileView {
        UiFileView {
            path: self.path@,
            size: self.size,
            size_formatted: self.size_formatted@,
            category: self.category@,
            category_key: self.category_key@,
            last_accessed: self.last_accessed@,
            reason: self.reason@,
            is_directory: self.is_directory,
        }
    }
}

/// A category with the number and size of its files.
#[derive(Debug, Clone)]
pub struct UiCategoryStats {
    pub key: String,
    pub name: String,
    pub description: String,
    pub count: usize,
    pub size: u64,
    pub size_formatted: String,
}

/// The mathematical content of a `UiCategoryStats`.
pub struct UiStatsView {
    pub key: Seq<char>,
    pub name: Seq<char>,
    pub description: Seq<char>,
    pub count: usize,
    pub size: u64,
    pub size_formatted: Seq<char>,
}

impl View for UiCategoryStats {
    type V = UiStatsView;

    open spec fn view(&self) -> UiStatsView {
        UiStatsView {
            key: self.key@,
            name: self.name@,
            description: self.description@,
            count: self.count,
            size: self.size,
            size_formatted: self.size_formatted@,
        }
    }
}

/// A scan result with its totals and its categories.
#[derive(Debug, Clone)]
pub struct UiScanResult {
    pub files: Vec<UiCleanableFile>,
    pub errors: Vec<String>,
    pub total_size: u64,
    pub total_count: usize,
    pub by_category: Vec<UiCategoryStats>,
}

/// The mathematical content of a `UiScanResult`.
pub struct UiResultView {
    pub files: Seq<UiFileView>,
    pub errors: Seq<Seq<char>>,
    pub total_size: u64,
    pub total_count: usize,
    pub by_category: Seq<UiStatsView>,
}

/// The contents of a sequence of files of the front end.
pub open spec fn ui_file_views(files: Seq<UiCleanableFile>) -> Seq<UiFileView> {
    files.map_values(|f: UiCleanableFile| f@)
}

/// The contents of a sequence of categories of the front end.
pub open spec fn ui_stats_views(stats: Seq<UiCategoryStats>) -> Seq<UiStatsView> {
    stats.map_values(|s: UiCategoryStats| s@)
}

impl View for UiScanResult {
    type V = UiResultView;

    open spec fn view(&self) -> UiResultView {
        UiResultView {
            files: ui_file_views(self.files@),
            errors: string_views(self.errors@),
            total_size: self.total_size,
            total_count: self.total_count,
            by_category: ui_stats_views(self.by_category@),
        }
    }
}

/// The settings as the front end shows them.
#[derive(Debug, Clone)]
pub struct UiConfig {
    pub min_age_days: u32,
    pub min_large_size_mb: u64,
    pub project_recent_days: u32,
    pub download_age_days: u32,
    pub excluded_paths: Vec<String>,
}

/// The request for a scan as the front end states it.
#[derive(Debug, Clone)]
pub struct UiScanOptions {
    pub categories: Vec<String>,
    pub min_age: Option<u32>,
    pub min_size_mb: Option<u64>,
    pub project_age: Option<u32>,
    pub path: Option<String>,
}

/// The account of a deletion with the freed bytes spelled out.
#[derive(Debug, Clone)]
pub struct UiCleanupResult {
    pub deleted_count: usize,
    pub freed_bytes: u64,
    pub freed_formatted: String,
    pub errors: Vec<String>,
}

/// A size as the front end shows it: in bytes below a kilobyte, else in the
/// largest of kilobytes, megabytes and gigabytes that it reaches, with two
/// decimal places.
pub open spec fn precise_size_text(bytes: u64) -> Seq<char> {
    if bytes >= GB {
        two_decimals(hundredths_of(bytes, GB)) + " GB"@
    } else if bytes >= MB {
        two_decimals(hundredths_of(bytes, MB)) + " MB"@
    } else if bytes >= KB {
        two_decimals(hundredths_of(bytes, KB)) + " KB"@
    } else {
        decimal(bytes as nat) + " B"@
    }
}

/// The word by which the front end names a category.
pub open spec fn category_key(category: Category) -> Seq<char> {
    match category {
        Category::Cache => "cache"@,
        Category::Trash => "trash"@,
        Category::Temp => "temp"@,
        Category::Downloads => "downloads"@,
        Category::BuildArtifact => "build"@,
        Category::LargeFile => "large"@,
        Category::Duplicate => "duplicates"@,
        Category::OldFile => "old"@,
    }
}

/// The time of the last access as the front end shows it; empty for a time
/// beyond the calendar.
pub open spec fn shown_time(t: Timestamp) -> Seq<char> {
    match minute_text(t.secs, t.nanos) {
        Some(text) => text,
        None => Seq::empty(),
    }
}

/// A file as the front end shows it.
pub open spec fn shown_file(f: FileView) -> UiFileView {
    UiFileView {
        path: f.path,
        size: f.size,
        size_formatted: precise_size_text(f.size),
        category: category_name(f.category),
        category_key: category_key(f.category),
        last_accessed: shown_time(f.last_accessed),
        reason: f.reason,
        is_directory: f.is_directory,
    }
}

/// The rule that shows a file.
pub open spec fn shown_files() -> spec_fn(FileView) -> UiFileView {
    |f: FileView| shown_file(f)
}

/// A category as the front end shows it, with the number and the size of
/// its files.
pub open spec fn shown_category(category: Category, count: usize, size: u64) -> UiStatsView {
    UiStatsView {
        key: category_key(category),
        name: category_name(category),
        description: category_description(category),
        count,
        size,
        size_formatted: precise_size_text(size),
    }
}

/// The rule that shows a category among the files, if it has any.
pub open spec fn shown_group(files: Seq<FileView>) -> spec_fn(Category) -> Option<UiStatsView> {
    |c: Category|
        if in_category(files, c).len() > 0 {
            Some(
                shown_category(
                    c,
                    in_category(files, c).len() as usize,
                    capped(total_bytes(in_category(files, c))),
                ),
            )
        } else {
            None
        }
}

/// The rule that shows a category without files.
pub open spec fn shown_empty() -> spec_fn(Category) -> UiStatsView {
    |c: Category| shown_category(c, 0, 0)
}

/// A scan result as the front end shows it: every file, the errors, the
/// totals, and each category that has files, in the order of the categories.
pub open spec fn shown_result(result: ScanResultView) -> UiResultView {
    UiResultView {
        files: result.files.map_values(shown_files()),
        errors: result.errors,
        total_size: capped(total_bytes(result.files)),
        total_count: result.files.len() as usize,
        by_category: all_categories().filter_map(shown_group(result.files)),
    }
}

/// A size as the front end shows it, such as `1.50 KB`.
pub fn format_size(bytes: u64) -> (r: String)
    ensures
        r@ == precise_size_text(bytes),
{
    let mut out: Vec<char> = Vec::new();
    if bytes >= KB {
        let (unit, label) = if bytes >= GB {
            (GB, " GB")
        } else if bytes >= MB {
            (MB, " MB")
        } else {
            (KB, " KB")
        };
        let h = hundredths(bytes, unit);
        push_two_decimals(&mut out, h);
        assert(out@ == two_decimals(h as nat)) by {
            assert(Seq::<char>::empty() + two_decimals(h as nat) == two_decimals(h as nat));
        }
        append_str(&mut out, label);
    } else {
        push_decimal(&mut out, bytes);
        assert(out@ == decimal(bytes as nat)) by {
            assert(Seq::<char>::empty() + decimal(bytes as nat) == decimal(bytes as nat));
        }
        append_str(&mut out, " B");
    }
    text_of(&out)
}

/// The word by which the front end names a category.
pub fn category_to_key(category: &Category) -> (r: String)
    ensures
        r@ == category_key(*category),
{
    let key = match category {
        Category::Cache => "cache",
        Category::Trash => "trash",
        Category::Temp => "temp",
        Category::Downloads => "downloads",
        Category::BuildArtifact => "build",
        Category::LargeFile => "large",
        Category::Duplicate => "duplicates",
        Category::OldFile => "old",
    };
    text_of(&chars_of(key))
}

/// A file as the front end shows it.
pub fn convert_file(file: &CleanableFile) -> (r: UiCleanableFile)
    ensures
        r@ == shown_file(file@),
{
    let last_accessed = match format_minute(file.last_accessed.secs, file.last_accessed.nanos) {
        Some(text) => text,
        None => String::new(),
    };
    UiCleanableFile {
        path: file.path.clone(),
        size: file.size,
        size_formatted: format_size(file.size),
        category: text_of(&chars_of(file.category.display_name())),
        category_key: category_to_key(&file.category),
        last_accessed,
        reason: file.reason.clone(),
        is_directory: file.is_directory,
    }
}

/// A category as the front end shows it.
pub fn convert_category(category: Category, count: usize, size: u64) -> (r: UiCategoryStats)
    ensures
        r@ == shown_category(category, count, size),
{
    UiCategoryStats {
        key: category_to_key(&category),
        name: text_of(&chars_of(category.display_name())),
        description: text_of(&chars_of(category.description())),
        count,
        size,
        size_formatted: format_size(size),
    }
}

/// The categories as the front end lists them before a scan: each with no
/// files.
pub fn get_categories() -> (r: Vec<UiCategoryStats>)
    ensures
        ui_stats_views(r@) == all_categories().map_values(shown_empty()),
{
    let categories = category_list();
    let mut out: Vec<UiCategoryStats> = Vec::new();
    let mut i: usize = 0;
    while i < categories.len()
        invariant
            i <= categories.len(),
            categories@ == all_categories(),
            ui_stats_views(out@) == categories@.take(i as int).map_values(shown_empty()),
        decreases categories.len() - i,
    {
        let ghost before = ui_stats_views(out@);
        let entry = convert_category(categories[i], 0, 0);
        out.push(entry);
        assert(ui_stats_views(out@) == before.push(entry@));
        assert(categories@.take(i + 1).map_values(shown_empty()) == categories@.take(
            i as int,
        ).map_values(shown_empty()).push(shown_empty()(categories@[i as int])));
        i += 1;
    }
    assert(categories@.take(categories.len() as int) == categories@);
    out
}

/// A scan result as the front end shows it.
pub fn convert_scan_result(result: &ScanResult) -> (r: UiScanResult)
    ensures
        r@ == shown_result(result@),
{
    let ghost views = file_views(result.files@);
    let mut files: Vec<UiCleanableFile> = Vec::new();
    let mut i: usize = 0;
    while i < result.files.len()
        invariant
            i <= result.files.len(),
            views == file_views(result.files@),
            ui_file_views(files@) == views.take(i as int).map_values(shown_files()),
        decreases result.files.len() - i,
    {
        let ghost before = ui_file_views(files@);
        let f = convert_file(&result.files[i]);
        files.push(f);
        assert(ui_file_views(files@) == before.push(f@));
        assert(views.take(i + 1).map_values(shown_files()) == views.take(i as int).map_values(
            shown_files(),
        ).push(shown_files()(views[i as int])));
        i += 1;
    }
    assert(views.take(result.files.len() as int) == views);
    let categories = category_list();
    let ghost rule = shown_group(views);
    let mut by_category: Vec<UiCategoryStats> = Vec::new();
    let mut k: usize = 0;
    assert(categories@.take(0).filter_map(rule) == Seq::<UiStatsView>::empty());
    assert(ui_stats_views(by_category@) == Seq::<UiStatsView>::empty());
    while k < categories.len()
        invariant
            k <= categories.len(),
            categories@ == all_categories(),
            views == file_views(result.files@),
            rule == shown_group(views),
            ui_stats_views(by_category@) == categories@.take(k as int).filter_map(rule),
        decreases categories.len() - k,
    {
        let category = categories[k];
        proof {
            assert(categories@.take(k + 1).drop_last() == categories@.take(k as int));
            assert(categories@.take(k + 1).last() == category);
        }
        let (count, size) = measure_category(&result.files, category);
        if count > 0 {
            let ghost before = ui_stats_views(by_category@);
            let entry = convert_category(category, count, size);
            assert(rule(category) == Some(entry@));
            by_category.push(entry);
            assert(ui_stats_views(by_category@) == before.push(entry@));
            assert(before.push(entry@) == before + seq![entry@]);
        } else {
            assert(rule(category) is None);
        }
        k += 1;
    }
    assert(categories@.take(categories.len() as int) == categories@);
    let errors = result.duplicate().errors;
    UiScanResult {
        files,
        errors,
        total_size: result.total_size(),
        total_count: result.total_count(),
        by_category,
    }
}

/// The settings as the front end shows them.
pub fn get_config(config: &Config) -> (r: UiConfig)
    ensures
        r.min_age_days == config.min_age_days,
        r.min_large_size_mb == config.min_large_size_mb,
        r.project_recent_days == config.project_recent_days,
        r.download_age_days == config.download_age_days,
        string_views(r.excluded_paths@) == config@.excluded_paths,
{
    let mut excluded: Vec<String> = Vec::new();
    let mut i: usize = 0;
    while i < config.excluded_paths.len()
        invariant
            i <= config.excluded_paths.len(),
            string_views(excluded@) == config@.excluded_paths.take(i as int),
        decreases config.excluded_paths.len() - i,
    {
        let ghost before = string_views(excluded@);
        let e = config.excluded_paths[i].clone();
        excluded.push(e);
        assert(string_views(excluded@) == before.push(e@));
        i += 1;
    }
    assert(config@.excluded_paths.take(config.excluded_paths.len() as int)
        == config@.excluded_paths);
    UiConfig {
        min_age_days: config.min_age_days,
        min_large_size_mb: config.min_large_size_mb,
        project_recent_days: config.project_recent_days,
        download_age_days: config.download_age_days,
        excluded_paths: excluded,
    }
}

/// The size in megabytes as a request states it.
pub open spec fn megabytes_text(mb: u64) -> Seq<char> {
    decimal(mb as nat) + "MB"@
}

/// The request that the front end makes, as the scan takes it: all
/// categories where none is named, else those named by their words; the
/// thresholds and the path as given; no exclusions.
pub open spec fn request_of(
    categories: Seq<Seq<char>>,
    min_age: Option<u32>,
    min_size_mb: Option<u64>,
    project_age: Option<u32>,
    path: Option<Seq<char>>,
) -> ScanOptionsView {
    ScanOptionsView {
        all: categories.len() == 0,
        cache: categories.contains("cache"@),
        trash: categories.contains("trash"@),
        temp: categories.contains("temp"@),
        downloads: categories.contains("downloads"@),
        build: categories.contains("build"@),
        large: categories.contains("large"@),
        duplicates: categories.contains("duplicates"@),
        old: categories.contains("old"@),
        min_age,
        min_size: match min_size_mb {
            Some(mb) => Some(megabytes_text(mb)),
            None => None,
        },
        project_age,
        path,
        exclude: Seq::empty(),
        json: false,
    }
}

fn names_category(categories: &Vec<String>, word: &str) -> (r: bool)
    ensures
        r == string_views(categories@).contains(word@),
{
    let mut i: usize = 0;
    while i < categories.len()
        invariant
            i <= categories.len(),
            forall|k: int| 0 <= k < i ==> string_views(categories@)[k] != word@,
        decreases categories.len() - i,
    {
        if same_text(categories[i].as_str(), word) {
            assert(string_views(categories@)[i as int] == word@);
            return true;
        }
        i += 1;
    }
    false
}

/// The request that the front end makes, as the scan takes it.
pub fn scan_request(options: &UiScanOptions) -> (r: ScanOptions)
    ensures
        r@ == request_of(
            string_views(options.categories@),
            options.min_age,
            options.min_size_mb,
            options.project_age,
            option_view(options.path),
        ),
{
    let min_size = match options.min_size_mb {
        Some(mb) => {
            let mut text: Vec<char> = Vec::new();
            push_decimal(&mut text, mb);
            assert(text@ == decimal(mb as nat)) by {
                assert(Seq::<char>::empty() + decimal(mb as nat) == decimal(mb as nat));
            }
            append_str(&mut text, "MB");
            Some(text_of(&text))
        },
        None => None,
    };
    let path = match &options.path {
        Some(p) => Some(p.clone()),
        None => None,
    };
    let r = ScanOptions {
        all: options.categories.len() == 0,
        cache: names_category(&options.categories, "cache"),
        trash: names_category(&options.categories, "trash"),
        temp: names_category(&options.categories, "temp"),
        downloads: names_category(&options.categories, "downloads"),
        build: names_category(&options.categories, "build"),
        large: names_category(&options.categories, "large"),
        duplicates: names_category(&options.categories, "duplicates"),
        old: names_category(&options.categories, "old"),
        min_age: options.min_age,
        min_size,
        project_age: options.project_age,
        path,
        exclude: Vec::new(),
        json: false,
    };
    assert(r@.exclude == Seq::<Seq<char>>::empty());
    r
}

/// Lays the thresholds and the path of a request of the front end over the
/// settings.
pub fn apply_ui_options(config: &mut Config, options: &UiScanOptions)
    ensures
        final(config)@ == (ConfigView {
            min_age_days: match options.min_age {
                Some(days) => days,
                None => old(config).min_age_days,
            },
            min_large_size_mb: match options.min_size_mb {
                Some(mb) => mb,
                None => old(config).min_large_size_mb,
            },
            project_recent_days: match options.project_age {
                Some(days) => days,
                None => old(config).project_recent_days,
            },
            download_age_days: old(config).download_age_days,
            excluded_paths: old(config)@.excluded_paths,
            cache_paths: old(config)@.cache_paths,
            base_path: match options.path {
                Some(path) => Some(path@),
                None => old(config)@.base_path,
            },
        }),
{
    if let Some(min_age) = options.min_age {
        config.min_age_days = min_age;
    }
    if let Some(min_size_mb) = options.min_size_mb {
        config.min_large_size_mb = min_size_mb;
    }
    if let Some(project_age) = options.project_age {
        config.project_recent_days = project_age;
    }
    if let Some(path) = &options.path {
        config.base_path = Some(path.clone());
    }
}

/// The account of a deletion as the front end shows it.
pub fn convert_cleanup(result: &CleanupResult) -> (r: UiCleanupResult)
    ensures
        r.deleted_count == result.deleted_count,
        r.freed_bytes == result.freed_bytes,
        r.freed_formatted@ == precise_size_text(result.freed_bytes),
        string_views(r.errors@) == result@.errors,
{
    let mut errors: Vec<String> = Vec::new();
    let mut i: usize = 0;
    while i < result.errors.len()
        invariant
            i <= result.errors.len(),
            string_views(errors@) == result@.errors.take(i as int),
        decreases result.errors.len() - i,
    {
        let ghost before = string_views(errors@);
        let e = result.errors[i].clone();
        errors.push(e);
        assert(string_views(errors@) == before.push(e@));
        i += 1;
    }
    assert(result@.errors.take(result.errors.len() as int) == result@.errors);
    UiCleanupResult {
        deleted_count: result.deleted_count,
        freed_bytes: result.freed_bytes,
        freed_formatted: format_size(result.freed_bytes),
        errors,
    }
}

} // verus!
