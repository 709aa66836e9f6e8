//! Runs the scanners that a request asks for and puts their reports
//! together into one result in which no path occurs twice.

use crate::cli::{ScanCategory, ScanOptions, ScanOptionsView};
use crate::config::{Config, ConfigView};
use crate::path::{components, components_of, same_components, same_path, texts};
use crate::ranking::{ranked, reversed, sort_files_within, Ranking};
use crate::scanner::{
    capped, file_views, outcome_view, scan_outcome, scan_section, scanner_name, total_bytes,
    within_limit, Category, CleanableFile, FileView, ScanResult, ScanResultView, ScannerKind,
    Survey, SurveyView,
};
use crate::sorting::{lemma_insert_position, sorted_by};
use crate::text::{append_str, text_of};
use vstd::prelude::*;

verus! {

/// The scanners of a category, in the order in which they run.
pub open spec fn scanners_of(category: ScanCategory) -> Seq<ScannerKind> {
    match category {
        ScanCategory::Cache => seq![ScannerKind::Cache, ScannerKind::KnownCache],
        ScanCategory::Trash => seq![ScannerKind::Trash],
        ScanCategory::Temp => seq![ScannerKind::Temp],
        ScanCategory::Downloads => seq![ScannerKind::Downloads],
        ScanCategory::Build => seq![ScannerKind::BuildArtifacts, ScannerKind::GlobalCache],
        ScanCategory::Large => seq![ScannerKind::LargeFiles],
        ScanCategory::Duplicates => seq![ScannerKind::Duplicates],
        ScanCategory::Old => seq![ScannerKind::OldFiles],
    }
}

/// The scanners of a category if the request asks for it, else none.
pub open spec fn chosen(options: ScanOptionsView, category: ScanCategory) -> Seq<ScannerKind> {
    if options.wants(category) {
        scanners_of(category)
    } else {
        Seq::empty()
    }
}

/// The scanners that a request asks for, in the order in which they run.
pub open spec fn selected(options: ScanOptionsView) -> Seq<ScannerKind> {
    chosen(options, ScanCategory::Cache) + chosen(options, ScanCategory::Trash) + chosen(
        options,
        ScanCategory::Temp,
    ) + chosen(options, ScanCategory::Downloads) + chosen(options, ScanCategory::Build) + chosen(
        options,
        ScanCategory::Large,
    ) + chosen(options, ScanCategory::Duplicates) + chosen(options, ScanCategory::Old)
}

/// The failure of a scanner under its name.
pub open spec fn labelled_error(kind: ScannerKind, error: Seq<char>) -> Seq<char> {
    scanner_name(kind) + ": "@ + error
}

/// A result with the outcome of one more scanner taken in: its files at
/// the end of the files, or its failure, under its name, at the end of the
/// errors.
pub open spec fn absorbed(
    sofar: ScanResultView,
    kind: ScannerKind,
    outcome: Result<Seq<FileView>, Seq<char>>,
) -> ScanResultView {
    match outcome {
        Ok(files) => ScanResultView { files: sofar.files + files, errors: sofar.errors },
        Err(e) => ScanResultView {
            files: sofar.files,
            errors: sofar.errors.push(labelled_error(kind, e)),
        },
    }
}

/// The outcomes of the given scanners on what was observed, taken in one
/// after the other.
pub open spec fn merged(
    kinds: Seq<ScannerKind>,
    cfg: ConfigView,
    survey: SurveyView,
) -> ScanResultView
    decreases kinds.len(),
{
    if kinds.len() == 0 {
        ScanResultView { files: Seq::empty(), errors: Seq::empty() }
    } else {
        absorbed(
            merged(kinds.drop_last(), cfg, survey),
            kinds.last(),
            scan_outcome(kinds.last(), cfg, survey),
        )
    }
}

/// Whether the path of the file at `i` is that of a file before it.
pub open spec fn repeats_earlier(files: Seq<FileView>, i: int) -> bool {
    exists|j: int| 0 <= j < i && same_path(#[trigger] files[j].path, files[i].path)
}

/// The files without those whose path is that of a file before them.
pub open spec fn without_repeats(files: Seq<FileView>) -> Seq<FileView>
    decreases files.len(),
{
    if files.len() == 0 {
        files
    } else {
        let kept = without_repeats(files.drop_last());
        if repeats_earlier(files, files.len() - 1) {
            kept
        } else {
            kept.push(files.last())
        }
    }
}

/// Whether no two of the files have the same path.
pub open spec fn unique_paths(files: Seq<FileView>) -> bool {
    forall|i: int, j: int|
        0 <= i < j < files.len() ==> !same_path(
            #[trigger] files[i].path,
            #[trigger] files[j].path,
        )
}

/// What a scan for a request gives on what was observed: what the scanners
/// that the request asks for report, one after the other, without the files
/// whose path was reported before; and the failures of those scanners.
pub open spec fn scan_result(
    options: ScanOptionsView,
    cfg: ConfigView,
    survey: SurveyView,
) -> ScanResultView {
    let all = merged(selected(options), cfg, survey);
    ScanResultView { files: without_repeats(all.files), errors: all.errors }
}

/// The name of a scanner.
pub fn scanner_label(kind: ScannerKind) -> (r: &'static str)
    ensures
        r@ == scanner_name(kind),
{
    match kind {
        ScannerKind::Cache => "Cache Scanner",
        ScannerKind::KnownCache => "Known Cache Scanner",
        ScannerKind::Trash => "Trash Scanner",
        ScannerKind::Temp => "Temp Scanner",
        ScannerKind::Downloads => "Downloads Scanner",
        ScannerKind::BuildArtifacts => "Build Artifacts Scanner",
        ScannerKind::GlobalCache => "Global Cache Scanner",
        ScannerKind::LargeFiles => "Large Files Scanner",
        ScannerKind::Duplicates => "Duplicates Scanner",
        ScannerKind::OldFiles => "Old Files Scanner",
    }
}

fn push_chosen(out: &mut Vec<ScannerKind>, options: &ScanOptions, category: ScanCategory)
    ensures
        final(out)@ == old(out)@ + chosen(options@, category),
{
    if options.should_scan(category) {
        match category {
            ScanCategory::Cache => {
                out.push(ScannerKind::Cache);
                out.push(ScannerKind::KnownCache);
            },
            ScanCategory::Trash => {
                out.push(ScannerKind::Trash);
            },
            ScanCategory::Temp => {
                out.push(ScannerKind::Temp);
            },
            ScanCategory::Downloads => {
                out.push(ScannerKind::Downloads);
            },
            ScanCategory::Build => {
                out.push(ScannerKind::BuildArtifacts);
                out.push(ScannerKind::GlobalCache);
            },
            ScanCategory::Large => {
                out.push(ScannerKind::LargeFiles);
            },
            ScanCategory::Duplicates => {
                out.push(ScannerKind::Duplicates);
            },
            ScanCategory::Old => {
                out.push(ScannerKind::OldFiles);
            },
        }
        assert(out@ =~= old(out)@ + scanners_of(category));
    } else {
        assert(out@ =~= old(out)@ + Seq::<ScannerKind>::empty());
    }
}

/// The scanners that a request asks for, in the order in which they run.
pub fn select_scanners(options: &ScanOptions) -> (r: Vec<ScannerKind>)
    ensures
        r@ == selected(options@),
{
    let mut out: Vec<ScannerKind> = Vec::new();
    assert(out@ + chosen(options@, ScanCategory::Cache) == chosen(options@, ScanCategory::Cache));
    push_chosen(&mut out, options, ScanCategory::Cache);
    push_chosen(&mut out, options, ScanCategory::Trash);
    push_chosen(&mut out, options, ScanCategory::Temp);
    push_chosen(&mut out, options, ScanCategory::Downloads);
    push_chosen(&mut out, options, ScanCategory::Build);
    push_chosen(&mut out, options, ScanCategory::Large);
    push_chosen(&mut out, options, ScanCategory::Duplicates);
    push_chosen(&mut out, options, ScanCategory::Old);
    out
}

/// Takes the outcome of one scanner into a result.
pub fn absorb(
    result: &mut ScanResult,
    kind: ScannerKind,
    outcome: Result<Vec<CleanableFile>, String>,
)
    ensures
        final(result)@ == absorbed(old(result)@, kind, outcome_view(outcome)),
{
    match outcome {
        Ok(files) => {
            result.add_files(files);
        },
        Err(e) => {
            let mut text: Vec<char> = Vec::new();
            append_str(&mut text, scanner_label(kind));
            assert(text@ == scanner_name(kind));
            append_str(&mut text, ": ");
            append_str(&mut text, e.as_str());
            result.add_error(text_of(&text));
        },
    }
}

/// The places of the files that stay when repeated paths are taken out.
pub open spec fn kept_places(files: Seq<FileView>) -> Seq<int>
    decreases files.len(),
{
    if files.len() == 0 {
        Seq::empty()
    } else {
        let kept = kept_places(files.drop_last());
        if repeats_earlier(files, files.len() - 1) {
            kept
        } else {
            kept.push(files.len() - 1)
        }
    }
}

/// The files that stay are those at the kept places, which rise; none of
/// them has the path of a file before it.
pub proof fn lemma_kept_places(files: Seq<FileView>)
    ensures
        kept_places(files).len() == without_repeats(files).len(),
        forall|m: int|
            0 <= m < kept_places(files).len() ==> {
                let i = #[trigger] kept_places(files)[m];
                &&& 0 <= i < files.len()
                &&& without_repeats(files)[m] == files[i]
                &&& !repeats_earlier(files, i)
            },
        forall|a: int, b: int|
            0 <= a < b < kept_places(files).len() ==> #[trigger] kept_places(files)[a]
                < #[trigger] kept_places(files)[b],
    decreases files.len(),
{
    if files.len() > 0 {
        let rest = files.drop_last();
        let last = files.len() - 1;
        lemma_kept_places(rest);
        let places = kept_places(files);
        let before = kept_places(rest);
        assert forall|m: int| 0 <= m < places.len() implies {
            let i = #[trigger] places[m];
            &&& 0 <= i < files.len()
            &&& without_repeats(files)[m] == files[i]
            &&& !repeats_earlier(files, i)
        } by {
            if m < before.len() {
                let i = before[m];
                assert(places[m] == i);
                assert(rest[i] == files[i]);
                assert(without_repeats(files)[m] == without_repeats(rest)[m]);
                if repeats_earlier(files, i) {
                    let j = choose|j: int|
                        0 <= j < i && same_path(#[trigger] files[j].path, files[i].path);
                    assert(rest[j] == files[j]);
                    assert(same_path(rest[j].path, rest[i].path));
                    assert(repeats_earlier(rest, i));
                }
            }
        }
        assert forall|a: int, b: int| 0 <= a < b < places.len() implies #[trigger] places[a]
            < #[trigger] places[b] by {
            assert(places[a] == before[a]);
            if b < before.len() {
                assert(places[b] == before[b]);
            }
        }
    }
}

/// When repeated paths are taken out, no two of the files that stay have
/// the same path.
pub proof fn lemma_without_repeats_unique(files: Seq<FileView>)
    ensures
        unique_paths(without_repeats(files)),
{
    lemma_kept_places(files);
    let out = without_repeats(files);
    let places = kept_places(files);
    assert forall|a: int, b: int| 0 <= a < b < out.len() implies !same_path(
        #[trigger] out[a].path,
        #[trigger] out[b].path,
    ) by {
        let i = places[a];
        let j = places[b];
        assert(out[a] == files[i] && out[b] == files[j] && i < j);
        if same_path(out[a].path, out[b].path) {
            assert(same_path(files[i].path, files[j].path));
            assert(repeats_earlier(files, j));
        }
    }
}

/// The files without those whose path is that of a file before them.
pub fn remove_repeated_paths(files: Vec<CleanableFile>) -> (out: Vec<CleanableFile>)
    ensures
        file_views(out@) == without_repeats(file_views(files@)),
        unique_paths(file_views(out@)),
{
    let ghost all = file_views(files@);
    let ghost n = all.len() as int;
    let mut stack = reversed(files);
    let mut out: Vec<CleanableFile> = Vec::new();
    let mut seen: Vec<Vec<Vec<char>>> = Vec::new();
    assert(all.take(0) == Seq::<FileView>::empty());
    assert(file_views(out@) == Seq::<FileView>::empty());
    assert(file_views(stack@).len() == n);
    assert(all.skip(0) == all);
    assert(all.reverse().reverse() == all);
    while stack.len() > 0
        invariant
            n == all.len(),
            stack.len() <= n,
            file_views(stack@).reverse() == all.skip(n - stack.len()),
            file_views(out@) == without_repeats(all.take(n - stack.len())),
            seen.len() == n - stack.len(),
            forall|a: int| 0 <= a < seen.len()
                ==> texts((#[trigger] seen@[a])@) == components(all[a].path),
        decreases stack.len(),
    {
        let ghost s0 = file_views(stack@);
        let ghost k = n - stack.len();
        let ghost kept = file_views(out@);
        let x = stack.pop().unwrap();
        proof {
            assert(file_views(stack@) == s0.drop_last());
            assert(s0.reverse()[0] == s0.last());
            assert(x@ == all[k]);
            assert(all.take(k + 1).drop_last() == all.take(k));
            assert(all.take(k + 1).last() == x@);
            assert(s0.drop_last().reverse() == s0.reverse().skip(1));
            assert(all.skip(k).skip(1) == all.skip(k + 1));
        }
        let parts = components_of(x.path.as_str());
        let found = holds_components(&seen, &parts);
        proof {
            let upto = all.take(k + 1);
            if found {
                let a = choose|a: int| 0 <= a < seen.len()
                    && texts((#[trigger] seen@[a])@) == texts(parts@);
                assert(upto[a] == all[a]);
                assert(same_path(upto[a].path, upto[k].path));
            } else if repeats_earlier(upto, k) {
                let j = choose|j: int| 0 <= j < k
                    && same_path(#[trigger] upto[j].path, upto[k].path);
                assert(upto[j] == all[j]);
                assert(texts(seen@[j]@) == texts(parts@));
            }
            assert(found == repeats_earlier(upto, k));
        }
        if !found {
            out.push(x);
            assert(file_views(out@) == kept.push(x@));
        }
        let ghost seen0 = seen@;
        seen.push(parts);
        assert forall|a: int| 0 <= a < seen.len()
            implies texts((#[trigger] seen@[a])@) == components(
            all[a].path,
        ) by {
            if a < seen0.len() {
                assert(seen@[a] == seen0[a]);
            }
        }
    }
    proof {
        assert(all.take(n) == all);
        lemma_without_repeats_unique(all);
    }
    out
}

/// Whether one of the lists of components is the same as `parts`.
fn holds_components(seen: &Vec<Vec<Vec<char>>>, parts: &Vec<Vec<char>>) -> (r: bool)
    ensures
        r == exists|a: int| 0 <= a < seen.len() && texts((#[trigger] seen@[a])@) == texts(parts@),
{
    let mut m: usize = 0;
    while m < seen.len()
        invariant
            m <= seen.len(),
            forall|a: int| 0 <= a < m ==> texts((#[trigger] seen@[a])@) != texts(parts@),
        decreases seen.len() - m,
    {
        if same_components(&seen[m], parts) {
            return true;
        }
        m += 1;
    }
    false
}

/// Runs the scanners that the request asks for on what was observed, and
/// puts their reports together. A scanner that fails leaves its failure in
/// the result and holds up no other. No path occurs twice in the result: of
/// files with the same path the one reported first stays.
pub fn run_scan(options: &ScanOptions, config: &Config, survey: &Survey) -> (r: ScanResult)
    ensures
        r@ == scan_result(options@, config@, survey@),
        unique_paths(r@.files),
{
    let kinds = select_scanners(options);
    let mut result = ScanResult::new();
    let mut i: usize = 0;
    assert(kinds@.take(0) == Seq::<ScannerKind>::empty());
    while i < kinds.len()
        invariant
            i <= kinds.len(),
            result@ == merged(kinds@.take(i as int), config@, survey@),
        decreases kinds.len() - i,
    {
        let kind = kinds[i];
        proof {
            assert(kinds@.take(i + 1).drop_last() == kinds@.take(i as int));
            assert(kinds@.take(i + 1).last() == kind);
        }
        let outcome = scan_section(kind, config, survey);
        absorb(&mut result, kind, outcome);
        i += 1;
    }
    assert(kinds@.take(kinds.len() as int) == kinds@);
    let ScanResult { files, errors } = result;
    let files = remove_repeated_paths(files);
    ScanResult { files, errors }
}

/// In the result of a scan no two files have the same path, whatever was
/// asked for and whatever was observed.
pub proof fn lemma_scan_result_has_unique_paths(
    options: ScanOptionsView,
    cfg: ConfigView,
    survey: SurveyView,
)
    ensures
        unique_paths(scan_result(options, cfg, survey).files),
{
    lemma_without_repeats_unique(merged(selected(options), cfg, survey).files);
}

/// Taking out repeated paths loses no path: every file that was reported
/// has the path of a file that stays, and every file that stays was
/// reported.
pub proof fn lemma_without_repeats_keeps_paths(files: Seq<FileView>)
    ensures
        forall|j: int|
            0 <= j < files.len() ==> exists|m: int|
                0 <= m < without_repeats(files).len() && same_path(
                    (#[trigger] without_repeats(files)[m]).path,
                    (#[trigger] files[j]).path,
                ),
        forall|m: int|
            0 <= m < without_repeats(files).len() ==> files.contains(
                #[trigger] without_repeats(files)[m],
            ),
    decreases files.len(),
{
    lemma_kept_places(files);
    let out = without_repeats(files);
    assert forall|m: int| 0 <= m < out.len() implies files.contains(#[trigger] out[m]) by {
        let i = kept_places(files)[m];
        assert(files[i] == out[m]);
    }
    if files.len() > 0 {
        let rest = files.drop_last();
        let last = files.len() - 1;
        let kept = without_repeats(rest);
        lemma_without_repeats_keeps_paths(rest);
        assert forall|j: int| 0 <= j < files.len() implies exists|m: int|
            0 <= m < out.len()
                && same_path((#[trigger] out[m]).path, (#[trigger] files[j]).path) by {
            if j < last {
                assert(rest[j] == files[j]);
                let m = choose|m: int|
                    0 <= m < kept.len() && same_path(
                        (#[trigger] kept[m]).path,
                        (#[trigger] rest[j]).path,
                    );
                assert(out[m] == kept[m]);
                assert(same_path(out[m].path, files[j].path));
            } else if repeats_earlier(files, last) {
                let j0 = choose|j0: int|
                    0 <= j0 < last && same_path(#[trigger] files[j0].path, files[last].path);
                assert(rest[j0] == files[j0]);
                let m = choose|m: int|
                    0 <= m < kept.len() && same_path(
                        (#[trigger] kept[m]).path,
                        (#[trigger] rest[j0]).path,
                    );
                assert(out[m] == kept[m]);
                assert(same_path(out[m].path, files[j].path));
            } else {
                assert(out[out.len() - 1] == files[last]);
                assert(same_path(out[out.len() - 1].path, files[j].path));
            }
        }
    }
}

/// The categories, in the order in which groups are listed.
pub open spec fn all_categories() -> Seq<Category> {
    seq![
        Category::Cache,
        Category::Trash,
        Category::Temp,
        Category::Downloads,
        Category::BuildArtifact,
        Category::LargeFile,
        Category::Duplicate,
        Category::OldFile,
    ]
}

/// The rule that picks the files of a category.
pub open spec fn of_category(category: Category) -> spec_fn(FileView) -> Option<FileView> {
    |f: FileView|
        if f.category == category {
            Some(f)
        } else {
            None
        }
}

/// The files of a category, in the order in which they stand.
pub open spec fn in_category(files: Seq<FileView>, category: Category) -> Seq<FileView> {
    files.filter_map(of_category(category))
}

/// The files of one category.
pub struct CategoryGroup<'a> {
    pub category: Category,
    pub files: Vec<&'a CleanableFile>,
}

/// The mathematical content of a `CategoryGroup`.
pub struct GroupView {
    pub category: Category,
    pub files: Seq<FileView>,
}

/// The contents of a sequence of borrowed files.
pub open spec fn borrowed_views(files: Seq<&CleanableFile>) -> Seq<FileView> {
    files.map_values(|f: &CleanableFile| f@)
}

impl<'a> View for CategoryGroup<'a> {
    type V = GroupView;

    open spec fn view(&self) -> GroupView {
        GroupView { category: self.category, files: borrowed_views(self.files@) }
    }
}

/// The contents of a sequence of groups.
pub open spec fn group_views(groups: Seq<CategoryGroup>) -> Seq<GroupView> {
    groups.map_values(|g: CategoryGroup| g@)
}

/// The rule that makes the group of a category, if it has files.
pub open spec fn group_rule(files: Seq<FileView>) -> spec_fn(Category) -> Option<GroupView> {
    |c: Category|
        if in_category(files, c).len() > 0 {
            Some(GroupView { category: c, files: in_category(files, c) })
        } else {
            None
        }
}

/// The files by category: one group for each category that has files, in
/// the order of the categories, each with its files in the order in which
/// they stand.
pub open spec fn grouped(files: Seq<FileView>) -> Seq<GroupView> {
    all_categories().filter_map(group_rule(files))
}

/// How many files a category has, and how large they are together.
#[derive(Debug, Clone, Copy, PartialEq, Eq, Structural)]
pub struct CategoryStats {
    pub category: Category,
    pub count: usize,
    pub size: u64,
}

/// The rule that counts and measures the files of a category, if it has
/// any.
pub open spec fn stats_rule(files: Seq<FileView>) -> spec_fn(Category) -> Option<CategoryStats> {
    |c: Category|
        if in_category(files, c).len() > 0 {
            Some(
                CategoryStats {
                    category: c,
                    count: in_category(files, c).len() as usize,
                    size: capped(total_bytes(in_category(files, c))),
                },
            )
        } else {
            None
        }
}

/// The order of categories by the size of their files, the largest first.
pub open spec fn larger_first() -> spec_fn(CategoryStats, CategoryStats) -> bool {
    |a: CategoryStats, b: CategoryStats| a.size > b.size
}

/// The count and size of each category that has files, the largest
/// category first; categories of one size in the order of the categories.
pub open spec fn category_stats_of(files: Seq<FileView>) -> Seq<CategoryStats> {
    sorted_by(larger_first(), all_categories().filter_map(stats_rule(files)))
}

/// The largest files of a category, up to `n` of them, the largest first.
pub open spec fn top_of_category(files: Seq<FileView>, category: Category, n: nat) -> Seq<
    FileView,
> {
    within_limit(ranked(Ranking::LargestFirst, in_category(files, category)), Some(n))
}

/// The categories, in the order in which groups are listed.
pub fn category_list() -> (r: Vec<Category>)
    ensures
        r@ == all_categories(),
{
    let mut v: Vec<Category> = Vec::new();
    v.push(Category::Cache);
    v.push(Category::Trash);
    v.push(Category::Temp);
    v.push(Category::Downloads);
    v.push(Category::BuildArtifact);
    v.push(Category::LargeFile);
    v.push(Category::Duplicate);
    v.push(Category::OldFile);
    assert(v@ =~= all_categories());
    v
}

/// The files of a category.
pub fn files_of_category<'a>(files: &'a Vec<CleanableFile>, category: Category) -> (r: Vec<
    &'a CleanableFile,
>)
    ensures
        borrowed_views(r@) == in_category(file_views(files@), category),
{
    let ghost views = file_views(files@);
    let ghost rule = of_category(category);
    let mut out: Vec<&'a CleanableFile> = Vec::new();
    let mut i: usize = 0;
    assert(views.take(0).filter_map(rule) == Seq::<FileView>::empty());
    assert(borrowed_views(out@) == Seq::<FileView>::empty());
    while i < files.len()
        invariant
            i <= files.len(),
            views == file_views(files@),
            rule == of_category(category),
            borrowed_views(out@) == views.take(i as int).filter_map(rule),
        decreases files.len() - i,
    {
        let f = &files[i];
        proof {
            assert(views.take(i + 1).drop_last() == views.take(i as int));
            assert(views.take(i + 1).last() == f@);
        }
        if f.category == category {
            let ghost before = borrowed_views(out@);
            out.push(f);
            assert(borrowed_views(out@) == before.push(f@));
            assert(before.push(f@) == before + seq![f@]);
        }
        i += 1;
    }
    assert(views.take(files.len() as int) == views);
    out
}

/// The files by category.
pub fn group_by_category<'a>(files: &'a Vec<CleanableFile>) -> (r: Vec<CategoryGroup<'a>>)
    ensures
        group_views(r@) == grouped(file_views(files@)),
{
    let categories = category_list();
    let ghost views = file_views(files@);
    let ghost rule = group_rule(views);
    let mut out: Vec<CategoryGroup<'a>> = Vec::new();
    let mut i: usize = 0;
    assert(categories@.take(0).filter_map(rule) == Seq::<GroupView>::empty());
    assert(group_views(out@) == Seq::<GroupView>::empty());
    while i < categories.len()
        invariant
            i <= categories.len(),
            categories@ == all_categories(),
            views == file_views(files@),
            rule == group_rule(views),
            group_views(out@) == categories@.take(i as int).filter_map(rule),
        decreases categories.len() - i,
    {
        let category = categories[i];
        proof {
            assert(categories@.take(i + 1).drop_last() == categories@.take(i as int));
            assert(categories@.take(i + 1).last() == category);
        }
        let members = files_of_category(files, category);
        if members.len() > 0 {
            let ghost before = group_views(out@);
            let group = CategoryGroup { category, files: members };
            assert(rule(category) == Some(group@));
            out.push(group);
            assert(group_views(out@) == before.push(group@));
            assert(before.push(group@) == before + seq![group@]);
        } else {
            assert(rule(category) is None);
        }
        i += 1;
    }
    assert(categories@.take(categories.len() as int) == categories@);
    out
}

/// How many files a category has, and how large they are together.
pub fn measure_category(files: &Vec<CleanableFile>, category: Category) -> (r: (usize, u64))
    ensures
        r.0 == in_category(file_views(files@), category).len(),
        r.1 == capped(total_bytes(in_category(file_views(files@), category))),
{
    let ghost views = file_views(files@);
    let ghost rule = of_category(category);
    let mut count: usize = 0;
    let mut size: u64 = 0;
    let mut i: usize = 0;
    assert(views.take(0).filter_map(rule) == Seq::<FileView>::empty());
    while i < files.len()
        invariant
            i <= files.len(),
            views == file_views(files@),
            rule == of_category(category),
            count == views.take(i as int).filter_map(rule).len(),
            count <= i,
            size == capped(total_bytes(views.take(i as int).filter_map(rule))),
        decreases files.len() - i,
    {
        let f = &files[i];
        proof {
            assert(views.take(i + 1).drop_last() == views.take(i as int));
            assert(views.take(i + 1).last() == f@);
            let before = views.take(i as int).filter_map(rule);
            if f.category == category {
                assert(views.take(i + 1).filter_map(rule) == before + seq![f@]);
                assert((before + seq![f@]).drop_last() == before);
                assert((before + seq![f@]).last() == f@);
            }
        }
        if f.category == category {
            count = count + 1;
            if size > u64::MAX - f.size {
                size = u64::MAX;
            } else {
                size = size + f.size;
            }
        }
        i += 1;
    }
    assert(views.take(files.len() as int) == views);
    (count, size)
}

/// The count and size of each category that has files, the largest
/// category first.
pub fn category_stats(files: &Vec<CleanableFile>) -> (r: Vec<CategoryStats>)
    ensures
        r@ == category_stats_of(file_views(files@)),
{
    let categories = category_list();
    let ghost views = file_views(files@);
    let ghost rule = stats_rule(views);
    let ghost order = larger_first();
    let mut out: Vec<CategoryStats> = Vec::new();
    let mut i: usize = 0;
    assert(categories@.take(0).filter_map(rule) == Seq::<CategoryStats>::empty());
    while i < categories.len()
        invariant
            i <= categories.len(),
            categories@ == all_categories(),
            views == file_views(files@),
            rule == stats_rule(views),
            order == larger_first(),
            out@ == sorted_by(order, categories@.take(i as int).filter_map(rule)),
        decreases categories.len() - i,
    {
        let category = categories[i];
        proof {
            assert(categories@.take(i + 1).drop_last() == categories@.take(i as int));
            assert(categories@.take(i + 1).last() == category);
        }
        let (count, size) = measure_category(files, category);
        if count > 0 {
            let stats = CategoryStats { category, count, size };
            assert(rule(category) == Some(stats));
            proof {
                let found = categories@.take(i as int).filter_map(rule);
                assert(categories@.take(i + 1).filter_map(rule) == found + seq![stats]);
                assert((found + seq![stats]).drop_last() == found);
                assert((found + seq![stats]).last() == stats);
            }
            let mut pos: usize = out.len();
            while pos > 0 && stats.size > out[pos - 1].size
                invariant
                    pos <= out.len(),
                    forall|j: int| pos <= j < out.len() ==> stats.size > (#[trigger] out@[j]).size,
                decreases pos,
            {
                pos -= 1;
            }
            proof {
                assert forall|j: int| pos <= j < out.len()
                    implies order(stats, #[trigger] out@[j]) by {}
                lemma_insert_position(order, out@, stats, pos as int);
            }
            out.insert(pos, stats);
        } else {
            assert(rule(category) is None);
        }
        i += 1;
    }
    assert(categories@.take(categories.len() as int) == categories@);
    out
}

/// The largest files of a category, up to `n` of them, the largest first.
pub fn top_files(files: &Vec<CleanableFile>, category: Category, n: usize) -> (r: Vec<
    CleanableFile,
>)
    ensures
        file_views(r@) == top_of_category(file_views(files@), category, n as nat),
{
    let members = files_of_category(files, category);
    let mut copies: Vec<CleanableFile> = Vec::new();
    let mut i: usize = 0;
    while i < members.len()
        invariant
            i <= members.len(),
            file_views(copies@) == borrowed_views(members@).take(i as int),
        decreases members.len() - i,
    {
        let ghost before = file_views(copies@);
        let f = members[i].duplicate();
        copies.push(f);
        assert(file_views(copies@) == before.push(f@));
        i += 1;
    }
    assert(borrowed_views(members@).take(members.len() as int) == borrowed_views(members@));
    sort_files_within(copies, Ranking::LargestFirst, n)
}

impl ScanResult {
    /// The files by category.
    pub fn by_category<'a>(&'a self) -> (r: Vec<CategoryGroup<'a>>)
        ensures
            group_views(r@) == grouped(self@.files),
    {
        group_by_category(&self.files)
    }
}

/// Whether one of the scanners reports the file.
pub open spec fn reported_by(
    kinds: Seq<ScannerKind>,
    cfg: ConfigView,
    survey: SurveyView,
    f: FileView,
) -> bool {
    exists|k: int|
        0 <= k < kinds.len() && (#[trigger] scan_outcome(kinds[k], cfg, survey)) is Ok
            && scan_outcome(kinds[k], cfg, survey)->Ok_0.contains(f)
}

/// The files of the merged outcomes are the files that the scanners report:
/// none is lost and none is added.
pub proof fn lemma_merged_files(
    kinds: Seq<ScannerKind>,
    cfg: ConfigView,
    survey: SurveyView,
    f: FileView,
)
    ensures
        merged(kinds, cfg, survey).files.contains(f) <==> reported_by(kinds, cfg, survey, f),
    decreases kinds.len(),
{
    if kinds.len() > 0 {
        let rest = kinds.drop_last();
        let outcome = scan_outcome(kinds.last(), cfg, survey);
        let before = merged(rest, cfg, survey).files;
        let all = merged(kinds, cfg, survey).files;
        lemma_merged_files(rest, cfg, survey, f);
        if reported_by(rest, cfg, survey, f) {
            let k = choose|k: int|
                0 <= k < rest.len() && (#[trigger] scan_outcome(rest[k], cfg, survey)) is Ok
                    && scan_outcome(rest[k], cfg, survey)->Ok_0.contains(f);
            assert(kinds[k] == rest[k]);
            assert(scan_outcome(kinds[k], cfg, survey) is Ok);
            assert(reported_by(kinds, cfg, survey, f));
            let m = choose|m: int| 0 <= m < before.len() && before[m] == f;
            assert(all[m] == f);
        }
        if outcome is Ok && outcome->Ok_0.contains(f) {
            assert(scan_outcome(kinds[kinds.len() - 1], cfg, survey) is Ok);
            assert(reported_by(kinds, cfg, survey, f));
            let j = choose|j: int| 0 <= j < outcome->Ok_0.len() && outcome->Ok_0[j] == f;
            assert(all[before.len() + j] == f);
        }
        if reported_by(kinds, cfg, survey, f) {
            let k = choose|k: int|
                0 <= k < kinds.len() && (#[trigger] scan_outcome(kinds[k], cfg, survey)) is Ok
                    && scan_outcome(kinds[k], cfg, survey)->Ok_0.contains(f);
            if k < rest.len() {
                assert(rest[k] == kinds[k]);
                assert(scan_outcome(rest[k], cfg, survey) is Ok);
                assert(reported_by(rest, cfg, survey, f));
            }
        }
        if all.contains(f) {
            let m = choose|m: int| 0 <= m < all.len() && all[m] == f;
            if m < before.len() {
                assert(before[m] == f);
                assert(before.contains(f));
            } else {
                assert(outcome is Ok);
                assert(outcome->Ok_0[m - before.len()] == f);
                assert(outcome->Ok_0.contains(f));
            }
        }
    } else {
        assert(merged(kinds, cfg, survey).files =~= Seq::<FileView>::empty());
    }
}

/// The result of a scan is the union of what the scanners that were asked
/// for report: every file of the result was reported by one of them, the
/// path of every file that one of them reported is the path of a file of the
/// result, and no two files of the result have the same path.
pub proof fn lemma_scan_result_is_union(
    options: ScanOptionsView,
    cfg: ConfigView,
    survey: SurveyView,
)
    ensures
        unique_paths(scan_result(options, cfg, survey).files),
        forall|m: int|
            0 <= m < scan_result(options, cfg, survey).files.len() ==> reported_by(
                selected(options),
                cfg,
                survey,
                #[trigger] scan_result(options, cfg, survey).files[m],
            ),
        forall|f: FileView| #[trigger]
            reported_by(selected(options), cfg, survey, f) ==> exists|m: int|
                0 <= m < scan_result(options, cfg, survey).files.len() && same_path(
                    (#[trigger] scan_result(options, cfg, survey).files[m]).path,
                    f.path,
                ),
{
    let kinds = selected(options);
    let all = merged(kinds, cfg, survey).files;
    let out = scan_result(options, cfg, survey).files;
    lemma_without_repeats_unique(all);
    lemma_without_repeats_keeps_paths(all);
    assert forall|m: int| 0 <= m < out.len()
        implies reported_by(kinds, cfg, survey, #[trigger] out[m]) by {
        assert(all.contains(out[m]));
        lemma_merged_files(kinds, cfg, survey, out[m]);
    }
    assert forall|f: FileView| #[trigger] reported_by(kinds, cfg, survey, f) implies exists|m: int|
        0 <= m < out.len() && same_path((#[trigger] out[m]).path, f.path) by {
        lemma_merged_files(kinds, cfg, survey, f);
        let j = choose|j: int| 0 <= j < all.len() && all[j] == f;
        let m = choose|m: int|
            0 <= m < out.len() && same_path((#[trigger] out[m]).path, (#[trigger] all[j]).path);
        assert(same_path(out[m].path, f.path));
    }
}

} // verus!
