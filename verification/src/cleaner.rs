//! Which files may be deleted, and the account of a deletion.
//!
//! Deleting is left to the caller. The library says of each file whether it
//! may be deleted and how, and keeps the account of what the caller reports
//! back. A file that may not be deleted is never counted as deleted, whatever
//! is reported of it.

use crate::cli::string_views;
use crate::config::option_str_view;
use crate::path::{
    file_name, file_name_chars, has_component, is_child_of, is_within, names, path_is_child_of,
    path_is_within, paths_equal, same_path,
};
use crate::analyzer::{category_stats, category_stats_of, CategoryStats};
use crate::scanner::{category_name, file_views, Category, CleanableFile, FileView};
use crate::text::{
    among, append_chars, append_str, chars_of, decimal, push_decimal, str_views, text_of,
};
use crate::ui::{format_size, size_text};
use vstd::prelude::*;

verus! {

/// The account of a deletion.
#[derive(Debug)]
pub struct CleanupResult {
    /// How many files and directories were deleted.
    pub deleted_count: usize,
    /// How many bytes were freed.
    pub freed_bytes: u64,
    /// What went wrong, file by file.
    pub errors: Vec<String>,
}

/// The mathematical content of a `CleanupResult`.
pub struct CleanupView {
    pub deleted_count: usize,
    pub freed_bytes: u64,
    pub errors: Seq<Seq<char>>,
}

impl View for CleanupResult {
    type V = CleanupView;

    open spec fn view(&self) -> CleanupView {
        CleanupView {
            deleted_count: self.deleted_count,
            freed_bytes: self.freed_bytes,
            errors: string_views(self.errors@),
        }
    }
}

/// The account before anything was tried.
pub open spec fn empty_account() -> CleanupView {
    CleanupView { deleted_count: 0, freed_bytes: 0, errors: Seq::empty() }
}

impl CleanupResult {
    /// The account before anything was tried.
    pub fn new() -> (r: Self)
        ensures
            r@ == empty_account(),
    {
        let r = CleanupResult { deleted_count: 0, freed_bytes: 0, errors: Vec::new() };
        assert(r@.errors == Seq::<Seq<char>>::empty());
        r
    }
}

impl Default for CleanupResult {
    fn default() -> (r: Self)
        ensures
            r@ == empty_account(),
    {
        CleanupResult::new()
    }
}

/// The directories for temporary files below which anything may be deleted.
pub open spec fn temp_roots() -> Seq<Seq<char>> {
    seq!["/tmp"@, "/var/tmp"@, "/var/folders"@]
}

/// The names of the immediate children of the home directory that may be
/// deleted.
pub open spec fn home_allow_list() -> Seq<Seq<char>> {
    seq![".Trash"@, ".cache"@, "Library/Caches"@]
}

/// `p` lies below `base` and is not `base` itself.
pub open spec fn is_below(p: Seq<char>, base: Seq<char>) -> bool {
    is_within(p, base) && !same_path(p, base)
}

/// `p` lies below one of the directories for temporary files.
pub open spec fn below_temp_root(p: Seq<char>) -> bool {
    exists|i: int| 0 <= i < temp_roots().len() && is_below(p, #[trigger] temp_roots()[i])
}

/// Whether the name of `p` is one that may be deleted as an immediate child
/// of the home directory.
pub open spec fn allow_listed(p: Seq<char>) -> bool {
    match file_name(p) {
        Some(name) => home_allow_list().contains(name),
        None => false,
    }
}

/// Whether a path may be deleted. A path with a `..` in it may not: where
/// it leads is not known. A path in the home directory may, unless it is the
/// home directory itself, or an immediate child of it whose name is not on
/// the allow-list. Any other path may only if it lies below one of the
/// directories for temporary files.
pub open spec fn safe_to_delete(path: Seq<char>, home: Option<Seq<char>>) -> bool {
    if names(path).contains(".."@) {
        false
    } else if home is Some && is_within(path, home->0) {
        !same_path(path, home->0) && (is_child_of(path, home->0) ==> allow_listed(path))
    } else {
        below_temp_root(path)
    }
}

/// What is to be done with a file that was chosen for deletion.
#[derive(Debug, Clone, Copy, PartialEq, Eq, Structural)]
pub enum DeleteAction {
    /// Nothing: the file may not be deleted.
    Refuse,
    /// Remove the file.
    RemoveFile,
    /// Remove the directory and all it holds.
    RemoveDirectory,
}

/// What is to be done with a file.
pub open spec fn action_for(file: FileView, home: Option<Seq<char>>) -> DeleteAction {
    if !safe_to_delete(file.path, home) {
        DeleteAction::Refuse
    } else if file.is_directory {
        DeleteAction::RemoveDirectory
    } else {
        DeleteAction::RemoveFile
    }
}

/// Whether a file is chosen for deletion: every file where no categories
/// are named, else the files of the named categories.
pub open spec fn chosen_for_deletion(file: FileView, categories: Option<Seq<Category>>) -> bool {
    match categories {
        Some(cats) => cats.contains(file.category),
        None => true,
    }
}

/// Why a file was not deleted, under its path.
pub open spec fn failure_text(path: Seq<char>, why: Seq<char>) -> Seq<char> {
    path + ": "@ + why
}

/// The words with which a deletion is refused.
pub open spec fn refusal() -> Seq<char> {
    "Refusing to delete path outside home directory"@
}

/// The sum of two numbers of bytes, as far as 64 bits can hold it.
pub open spec fn plus_capped(a: u64, b: u64) -> u64 {
    if a + b <= u64::MAX {
        (a + b) as u64
    } else {
        u64::MAX
    }
}

/// The next count, as far as the machine can hold it.
pub open spec fn next_count(n: usize) -> usize {
    if n < usize::MAX {
        (n + 1) as usize
    } else {
        n
    }
}

/// The account with one more file entered. A file that may not be deleted
/// is entered as refused, whatever is said to have happened. Of a file that
/// may, a success counts the file and the size that the scan recorded for
/// it; a failure puts its reason among the errors.
pub open spec fn entered(
    account: CleanupView,
    file: FileView,
    home: Option<Seq<char>>,
    outcome: Result<(), Seq<char>>,
) -> CleanupView {
    if !safe_to_delete(file.path, home) {
        CleanupView {
            deleted_count: account.deleted_count,
            freed_bytes: account.freed_bytes,
            errors: account.errors.push(failure_text(file.path, refusal())),
        }
    } else {
        match outcome {
            Ok(_) => CleanupView {
                deleted_count: next_count(account.deleted_count),
                freed_bytes: plus_capped(account.freed_bytes, file.size),
                errors: account.errors,
            },
            Err(why) => CleanupView {
                deleted_count: account.deleted_count,
                freed_bytes: account.freed_bytes,
                errors: account.errors.push(failure_text(file.path, why)),
            },
        }
    }
}

/// The content of what the removal of a file ended with.
pub open spec fn removal_view(outcome: Result<(), String>) -> Result<(), Seq<char>> {
    match outcome {
        Ok(_) => Ok(()),
        Err(e) => Err(e@),
    }
}

/// The contents of what the removals ended with.
pub open spec fn removal_views(outcomes: Seq<Result<(), String>>) -> Seq<Result<(), Seq<char>>> {
    outcomes.map_values(|o: Result<(), String>| removal_view(o))
}

/// The account of a deletion of the first `n` files: each file that was
/// chosen is entered with what its removal ended with.
pub open spec fn account_of(
    files: Seq<FileView>,
    categories: Option<Seq<Category>>,
    home: Option<Seq<char>>,
    outcomes: Seq<Result<(), Seq<char>>>,
    n: int,
) -> CleanupView
    decreases n,
{
    if n <= 0 {
        empty_account()
    } else {
        let before = account_of(files, categories, home, outcomes, n - 1);
        if chosen_for_deletion(files[n - 1], categories) {
            entered(before, files[n - 1], home, outcomes[n - 1])
        } else {
            before
        }
    }
}

fn temp_root_list() -> (r: Vec<&'static str>)
    ensures
        str_views(r@) == temp_roots(),
{
    let mut v: Vec<&'static str> = Vec::new();
    v.push("/tmp");
    v.push("/var/tmp");
    v.push("/var/folders");
    assert(str_views(v@) =~= temp_roots());
    v
}

fn allow_list() -> (r: Vec<&'static str>)
    ensures
        str_views(r@) == home_allow_list(),
{
    let mut v: Vec<&'static str> = Vec::new();
    v.push(".Trash");
    v.push(".cache");
    v.push("Library/Caches");
    assert(str_views(v@) =~= home_allow_list());
    v
}

fn path_is_below(p: &str, base: &str) -> (r: bool)
    ensures
        r == is_below(p@, base@),
{
    path_is_within(p, base) && !paths_equal(p, base)
}

/// Whether a path may be deleted, given the home directory if there is one.
pub fn is_safe_to_delete(path: &str, home: Option<&str>) -> (r: bool)
    ensures
        r == safe_to_delete(path@, option_str_view(home)),
{
    if has_component(path, "..") {
        return false;
    }
    if let Some(home) = home {
        if path_is_within(path, home) {
            if paths_equal(path, home) {
                return false;
            }
            if path_is_child_of(path, home) {
                return match file_name_chars(path) {
                    Some(name) => among(&name, &allow_list()),
                    None => false,
                };
            }
            return true;
        }
    }
    let roots = temp_root_list();
    let mut i: usize = 0;
    while i < roots.len()
        invariant
            i <= roots.len(),
            str_views(roots@) == temp_roots(),
            !names(path@).contains(".."@),
            !(option_str_view(home) is Some && is_within(path@, option_str_view(home)->0)),
            forall|k: int| 0 <= k < i ==> !is_below(path@, #[trigger] temp_roots()[k]),
        decreases roots.len() - i,
    {
        assert(str_views(roots@)[i as int] == roots@[i as int]@);
        if path_is_below(path, roots[i]) {
            assert(is_below(path@, temp_roots()[i as int]));
            return true;
        }
        i += 1;
    }
    false
}

/// What is to be done with a file that was chosen for deletion.
pub fn delete_action(file: &CleanableFile, home: Option<&str>) -> (r: DeleteAction)
    ensures
        r == action_for(file@, option_str_view(home)),
{
    if !is_safe_to_delete(file.path.as_str(), home) {
        DeleteAction::Refuse
    } else if file.is_directory {
        DeleteAction::RemoveDirectory
    } else {
        DeleteAction::RemoveFile
    }
}

/// Whether a category is among those named.
pub fn holds_category(categories: &Vec<Category>, category: Category) -> (r: bool)
    ensures
        r == categories@.contains(category),
{
    let mut i: usize = 0;
    while i < categories.len()
        invariant
            i <= categories.len(),
            forall|k: int| 0 <= k < i ==> categories@[k] != category,
        decreases categories.len() - i,
    {
        if categories[i] == category {
            return true;
        }
        i += 1;
    }
    false
}

/// The named categories of an optional list.
pub open spec fn categories_view(categories: Option<&Vec<Category>>) -> Option<Seq<Category>> {
    match categories {
        Some(cats) => Some(cats@),
        None => None,
    }
}

/// Whether a file is chosen for deletion.
pub fn is_chosen(file: &CleanableFile, categories: Option<&Vec<Category>>) -> (r: bool)
    ensures
        r == chosen_for_deletion(file@, categories_view(categories)),
{
    match categories {
        Some(cats) => holds_category(cats, file.category),
        None => true,
    }
}

fn failure(path: &str, why: &str) -> (r: String)
    ensures
        r@ == failure_text(path@, why@),
{
    let mut text: Vec<char> = Vec::new();
    append_str(&mut text, path);
    assert(text@ == path@);
    append_str(&mut text, ": ");
    append_str(&mut text, why);
    text_of(&text)
}

impl CleanupResult {
    /// Enters one file into the account, with what its removal ended with.
    /// For a file that may not be deleted the outcome is not looked at.
    pub fn record(&mut self, file: &CleanableFile, home: Option<&str>, outcome: &Result<(), String>)
        ensures
            final(self)@ == entered(
                old(self)@,
                file@,
                option_str_view(home),
                removal_view(*outcome),
            ),
    {
        if !is_safe_to_delete(file.path.as_str(), home) {
            let text = failure(
                file.path.as_str(),
                "Refusing to delete path outside home directory",
            );
            self.errors.push(text);
            assert(string_views(self.errors@) == string_views(old(self).errors@).push(text@));
            return ;
        }
        match outcome {
            Ok(_) => {
                if self.deleted_count < usize::MAX {
                    self.deleted_count = self.deleted_count + 1;
                }
                if self.freed_bytes > u64::MAX - file.size {
                    self.freed_bytes = u64::MAX;
                } else {
                    self.freed_bytes = self.freed_bytes + file.size;
                }
            },
            Err(why) => {
                let text = failure(file.path.as_str(), why.as_str());
                self.errors.push(text);
                assert(string_views(self.errors@) == string_views(old(self).errors@).push(text@));
            },
        }
    }
}

/// The account of a deletion, given what the removal of each file ended
/// with. Only the files of the named categories are entered, or all where
/// none are named; what is said of the others is not looked at.
pub fn delete_files(
    files: &Vec<CleanableFile>,
    categories: Option<&Vec<Category>>,
    home: Option<&str>,
    outcomes: &Vec<Result<(), String>>,
) -> (r: CleanupResult)
    requires
        outcomes.len() == files.len(),
    ensures
        r@ == account_of(
            file_views(files@),
            categories_view(categories),
            option_str_view(home),
            removal_views(outcomes@),
            files.len() as int,
        ),
{
    let mut result = CleanupResult::new();
    let mut i: usize = 0;
    while i < files.len()
        invariant
            i <= files.len(),
            outcomes.len() == files.len(),
            result@ == account_of(
                file_views(files@),
                categories_view(categories),
                option_str_view(home),
                removal_views(outcomes@),
                i as int,
            ),
        decreases files.len() - i,
    {
        assert(file_views(files@)[i as int] == files@[i as int]@);
        assert(removal_views(outcomes@)[i as int] == removal_view(outcomes@[i as int]));
        if is_chosen(&files[i], categories) {
            result.record(&files[i], home, &outcomes[i]);
        }
        i += 1;
    }
    result
}

/// Nothing outside the home directory and the directories for temporary
/// files may be deleted: a path that may be deleted lies below the home
/// directory or below one of the directories for temporary files. An
/// immediate child of the home directory whose name is not on the allow-list
/// may not be deleted, wherever else it lies; nor may the home directory
/// itself, nor a path with a `..` in it.
pub proof fn lemma_deletion_is_contained(path: Seq<char>, home: Option<Seq<char>>)
    ensures
        safe_to_delete(path, home) ==> (home is Some && is_below(path, home->0))
            || below_temp_root(path),
        home is Some && is_child_of(path, home->0) && !allow_listed(path) ==> !safe_to_delete(
            path,
            home,
        ),
        home is Some && same_path(path, home->0) ==> !safe_to_delete(path, home),
        names(path).contains(".."@) ==> !safe_to_delete(path, home),
{
    if home is Some {
        let h = home->0;
        if is_child_of(path, h) {
            let c = crate::path::components(path);
            assert(c.drop_last() == c.subrange(0, c.len() - 1));
            assert(is_within(path, h));
        }
        if same_path(path, h) {
            let c = crate::path::components(path);
            assert(c == c.subrange(0, c.len() as int));
            assert(is_within(path, h));
        }
    }
}

/// A file that may not be deleted is never counted as deleted and frees
/// nothing, whatever is reported of its removal: it leaves one more error
/// and changes nothing else.
pub proof fn lemma_refused_is_never_counted(
    account: CleanupView,
    file: FileView,
    home: Option<Seq<char>>,
    outcome: Result<(), Seq<char>>,
)
    requires
        !safe_to_delete(file.path, home),
    ensures
        entered(account, file, home, outcome).deleted_count == account.deleted_count,
        entered(account, file, home, outcome).freed_bytes == account.freed_bytes,
        entered(account, file, home, outcome).errors == account.errors.push(
            failure_text(file.path, refusal()),
        ),
{
}

/// The line that offers a category for cleaning: its name, how many files
/// it has, and how large they are together.
pub open spec fn label_text(stats: CategoryStats) -> Seq<char> {
    category_name(stats.category) + " ("@ + decimal(stats.count as nat) + " files, "@ + size_text(
        stats.size,
    ) + ")"@
}

/// The rule that writes the line of a category.
pub open spec fn labelled_stats() -> spec_fn(CategoryStats) -> (Category, Seq<char>) {
    |stats: CategoryStats| (stats.category, label_text(stats))
}

/// The contents of a list of categories with their lines.
pub open spec fn label_views(labels: Seq<(Category, String)>) -> Seq<(Category, Seq<char>)> {
    labels.map_values(|l: (Category, String)| (l.0, l.1@))
}

/// The categories that can be cleaned, each with the line that offers it,
/// the largest category first.
pub fn category_labels(files: &Vec<CleanableFile>) -> (r: Vec<(Category, String)>)
    ensures
        label_views(r@) == category_stats_of(file_views(files@)).map_values(labelled_stats()),
{
    let stats = category_stats(files);
    let mut out: Vec<(Category, String)> = Vec::new();
    let mut i: usize = 0;
    while i < stats.len()
        invariant
            i <= stats.len(),
            stats@ == category_stats_of(file_views(files@)),
            label_views(out@) == stats@.take(i as int).map_values(labelled_stats()),
        decreases stats.len() - i,
    {
        let s = stats[i];
        let mut text: Vec<char> = Vec::new();
        append_str(&mut text, s.category.display_name());
        assert(text@ == category_name(s.category));
        append_str(&mut text, " (");
        push_decimal(&mut text, s.count as u64);
        append_str(&mut text, " files, ");
        append_chars(&mut text, &chars_of(format_size(s.size).as_str()));
        append_str(&mut text, ")");
        let ghost before = label_views(out@);
        let label = text_of(&text);
        out.push((s.category, label));
        proof {
            assert(label_views(out@) == before.push((s.category, label@)));
            assert(stats@.take(i + 1).map_values(labelled_stats()) == stats@.take(
                i as int,
            ).map_values(labelled_stats()).push(labelled_stats()(stats@[i as int])));
        }
        i += 1;
    }
    assert(stats@.take(stats.len() as int) == stats@);
    out
}

/// The categories that were picked from the lines that `category_labels`
/// offers, by the places of their lines.
pub fn select_categories(files: &Vec<CleanableFile>, picks: &Vec<usize>) -> (r: Vec<Category>)
    requires
        forall|k: int|
            0 <= k < picks.len() ==> (#[trigger] picks@[k]) < category_stats_of(
                file_views(files@),
            ).len(),
    ensures
        r.len() == picks.len(),
        forall|k: int|
            0 <= k < r.len() ==> (#[trigger] r@[k]) == category_stats_of(
                file_views(files@),
            )[picks@[k] as int].category,
{
    let stats = category_stats(files);
    let mut out: Vec<Category> = Vec::new();
    let mut i: usize = 0;
    while i < picks.len()
        invariant
            i <= picks.len(),
            out.len() == i,
            stats@ == category_stats_of(file_views(files@)),
            forall|k: int| 0 <= k < picks.len() ==> (#[trigger] picks@[k]) < stats.len(),
            forall|k: int| 0 <= k < i ==> (#[trigger] out@[k]) == stats@[picks@[k] as int].category,
        decreases picks.len() - i,
    {
        assert(picks@[i as int] < stats.len());
        out.push(stats[picks[i]].category);
        i += 1;
    }
    out
}

} // verus!
