//! Files with the same contents.
//!
//! Two files are taken to have the same contents when their digests are the
//! same. Digests are costly, so one is asked for only where a file shares
//! its size with another: the scanner first says which files need a digest,
//! and later, given the digests, which files are duplicates of which.

use crate::cli::option_view;
use crate::config::{excluded_by, Config, ConfigView};
use crate::digest::{blake3_hex, ContentHasher};
use crate::path::{is_hidden, path_is_hidden};
use crate::ranking::{file_order, lemma_file_order_ranks, lemma_ranked, ranked, sort_files, Ranking};
use crate::sorting::{lemma_sorted_by_first, lemma_sorted_by_keeps_order};
use crate::scanner::large_files::{dir_named_among, named_among};
use crate::scanner::scope::{placed, scope_of, Scope};
use crate::scanner::{
    file_views, labelled, name_or_unknown, new_file, probe_views, shown_name, Category,
    CleanableFile, EnvView, Environment, FileProbe, FileView, ProbeView, ScannerKind,
};
use crate::text::{chars_of, same_chars, str_views};
use crate::time::{known_or_now, Timestamp};
use std::collections::HashMap;
use vstd::prelude::*;

verus! {

/// Reports all but the oldest of the files that have the same contents.
#[derive(Debug, Clone, Copy)]
pub struct DuplicatesScanner;

/// The smallest size at which a file is looked at.
pub const MIN_DUPLICATE_BYTES: u64 = 1024 * 1024;

/// The names of the directories that a walk for duplicates does not enter.
pub open spec fn duplicate_skip_dirs() -> Seq<Seq<char>> {
    seq![
        "node_modules"@,
        "target"@,
        ".git"@,
        ".svn"@,
        ".hg"@,
        "Library"@,
        ".Trash"@,
        ".cache"@,
        "Caches"@,
    ]
}

/// Whether an entry is looked at: a regular file of at least 1 MiB that
/// lies where the scanner looks, whose path is not excluded, whose name does
/// not begin with a `.`, and whose metadata can be read.
pub open spec fn eligible(cfg: ConfigView, env: EnvView, p: ProbeView) -> bool {
    placed(ScannerKind::Duplicates, cfg, env, p) && p.is_file && !excluded_by(
        cfg.excluded_paths,
        p.path,
    ) && !is_hidden(p.path) && p.metadata_ok && p.size >= MIN_DUPLICATE_BYTES
}

/// How many of the entries are looked at and have the given size.
pub open spec fn count_of_size(
    cfg: ConfigView,
    env: EnvView,
    probes: Seq<ProbeView>,
    size: u64,
) -> nat
    decreases probes.len(),
{
    if probes.len() == 0 {
        0
    } else {
        count_of_size(cfg, env, probes.drop_last(), size) + (if eligible(cfg, env, probes.last())
            && probes.last().size == size {
            1nat
        } else {
            0nat
        })
    }
}

/// Whether the digest of an entry is needed: it is looked at, and so is
/// another entry of the same size.
pub open spec fn needs_digest(
    cfg: ConfigView,
    env: EnvView,
    probes: Seq<ProbeView>,
    p: ProbeView,
) -> bool {
    eligible(cfg, env, p) && count_of_size(cfg, env, probes, p.size) >= 2
}

/// A file with the digest of its contents.
pub struct Hashed {
    pub digest: Seq<char>,
    pub file: FileView,
}

/// How a file stands in a group before it is known of which file it is a
/// duplicate.
pub open spec fn unexplained(p: ProbeView, now: Timestamp) -> FileView {
    FileView {
        path: p.path,
        size: p.size,
        category: Category::Duplicate,
        last_accessed: known_or_now(p.accessed, now),
        reason: Seq::empty(),
        is_directory: false,
    }
}

/// The rule by which an entry comes into the pool of files that are
/// compared: its digest was needed and is there.
pub open spec fn pooled(cfg: ConfigView, env: EnvView, probes: Seq<ProbeView>) -> spec_fn(
    ProbeView,
) -> Option<Hashed> {
    |p: ProbeView|
        if needs_digest(cfg, env, probes, p) {
            match p.digest {
                Some(digest) => Some(Hashed { digest, file: unexplained(p, env.now) }),
                None => None,
            }
        } else {
            None
        }
}

/// The files that are compared, in the order in which they were found.
pub open spec fn pool(cfg: ConfigView, env: EnvView, probes: Seq<ProbeView>) -> Seq<Hashed> {
    probes.filter_map(pooled(cfg, env, probes))
}

/// The rule that picks the files with a given digest.
pub open spec fn with_digest(digest: Seq<char>) -> spec_fn(Hashed) -> Option<FileView> {
    |h: Hashed|
        if h.digest == digest {
            Some(h.file)
        } else {
            None
        }
}

/// The files of the pool that have the given digest, in the order in which
/// they were found.
pub open spec fn group_of(pool: Seq<Hashed>, digest: Seq<char>) -> Seq<FileView> {
    pool.filter_map(with_digest(digest))
}

/// The sentence that names the original of a duplicate.
pub open spec fn duplicate_reason(original: FileView) -> Seq<char> {
    "Duplicate of: "@ + name_or_unknown(original.path)
}

/// The rule that writes the reason into a file.
pub open spec fn explained(reason: Seq<char>) -> spec_fn(FileView) -> FileView {
    |f: FileView|
        FileView {
            path: f.path,
            size: f.size,
            category: f.category,
            last_accessed: f.last_accessed,
            reason,
            is_directory: f.is_directory,
        }
}

/// What is reported of a group of files with the same contents. The files
/// are put in the order of their last access, the oldest first; the first is
/// the original and stays; each of the others is reported as a duplicate of
/// it. A group of one has no duplicates.
pub open spec fn group_report(group: Seq<FileView>) -> Seq<FileView> {
    if group.len() < 2 {
        Seq::empty()
    } else {
        let sorted = ranked(Ranking::OldestFirst, group);
        sorted.skip(1).map_values(explained(duplicate_reason(sorted[0])))
    }
}

/// Whether the file at `k` is the first of the pool with its digest.
pub open spec fn first_of_digest(pool: Seq<Hashed>, k: int) -> bool {
    forall|j: int| 0 <= j < k ==> (#[trigger] pool[j]).digest != pool[k].digest
}

/// The reports of the groups whose first file is among the first `n` of the
/// pool, group after group.
pub open spec fn reports_upto(pool: Seq<Hashed>, n: int) -> Seq<FileView>
    decreases n,
{
    if n <= 0 {
        Seq::empty()
    } else {
        reports_upto(pool, n - 1) + (if first_of_digest(pool, n - 1) {
            group_report(group_of(pool, pool[n - 1].digest))
        } else {
            Seq::empty()
        })
    }
}

/// What the scanner reports: the duplicates of all groups, the largest
/// first.
pub open spec fn duplicates_report(cfg: ConfigView, env: EnvView, probes: Seq<ProbeView>) -> Seq<
    FileView,
> {
    let pool = pool(cfg, env, probes);
    ranked(Ranking::LargestFirst, reports_upto(pool, pool.len() as int))
}

/// A file with its digest, as the scanner holds it.
pub struct HashedFile {
    pub digest: Vec<char>,
    pub file: CleanableFile,
}

impl View for HashedFile {
    type V = Hashed;

    open spec fn view(&self) -> Hashed {
        Hashed { digest: self.digest@, file: self.file@ }
    }
}

/// The contents of a sequence of hashed files.
pub open spec fn hashed_views(files: Seq<HashedFile>) -> Seq<Hashed> {
    files.map_values(|h: HashedFile| h@)
}

/// The names of the directories that the walk does not enter.
pub fn skip_dir_list() -> (r: Vec<&'static str>)
    ensures
        str_views(r@) == duplicate_skip_dirs(),
{
    let mut v: Vec<&'static str> = Vec::new();
    v.push("node_modules");
    v.push("target");
    v.push(".git");
    v.push(".svn");
    v.push(".hg");
    v.push("Library");
    v.push(".Trash");
    v.push(".cache");
    v.push("Caches");
    assert(str_views(v@) =~= duplicate_skip_dirs());
    v
}

/// Whether an entry is looked at, given where the scanner looks.
pub fn is_eligible_within(
    scope: &Scope,
    config: &Config,
    env: &Environment,
    probe: &FileProbe,
) -> (r: bool)
    requires
        scope.covers(ScannerKind::Duplicates, config@, env@),
    ensures
        r == eligible(config@, env@, probe@),
{
    probe.is_file && probe.metadata_ok && probe.size >= MIN_DUPLICATE_BYTES && !path_is_hidden(
        probe.path.as_str(),
    ) && !config.is_excluded(probe.path.as_str()) && scope.holds(
        probe.path.as_str(),
        probe.is_dir,
    )
}

/// Whether an entry is looked at.
pub fn is_eligible(config: &Config, env: &Environment, probe: &FileProbe) -> (r: bool)
    ensures
        r == eligible(config@, env@, probe@),
{
    let scope = scope_of(ScannerKind::Duplicates, config, env);
    is_eligible_within(&scope, config, env, probe)
}

/// Which of the entries are looked at.
fn eligibility(config: &Config, env: &Environment, probes: &Vec<FileProbe>) -> (r: Vec<bool>)
    ensures
        r.len() == probes.len(),
        forall|i: int|
            0 <= i < r.len() ==> r@[i] == eligible(config@, env@, #[trigger] probes@[i]@),
{
    let scope = scope_of(ScannerKind::Duplicates, config, env);
    let mut out: Vec<bool> = Vec::new();
    let mut i: usize = 0;
    while i < probes.len()
        invariant
            i <= probes.len(),
            out.len() == i,
            scope.covers(ScannerKind::Duplicates, config@, env@),
            forall|k: int|
                0 <= k < i ==> out@[k] == eligible(config@, env@, #[trigger] probes@[k]@),
        decreases probes.len() - i,
    {
        out.push(is_eligible_within(&scope, config, env, &probes[i]));
        i += 1;
    }
    out
}

/// How many of the entries that are looked at have each size.
fn size_counts(
    config: &Config,
    env: &Environment,
    probes: &Vec<FileProbe>,
    elig: &Vec<bool>,
) -> (r: HashMap<
    u64,
    usize,
>)
    requires
        elig.len() == probes.len(),
        forall|i: int| 0 <= i < elig.len()
            ==> elig@[i] == eligible(config@, env@, #[trigger] probes@[i]@),
    ensures
        forall|s: u64|
            count_of_size(config@, env@, probe_views(probes@), s) == (if r@.contains_key(s) {
                r@[s] as nat
            } else {
                0nat
            }),
{
    broadcast use vstd::std_specs::hash::group_hash_axioms;

    let mut counts: HashMap<u64, usize> = HashMap::new();
    let ghost views = probe_views(probes@);
    let mut i: usize = 0;
    assert(views.take(0) == Seq::<ProbeView>::empty());
    while i < probes.len()
        invariant
            i <= probes.len(),
            elig.len() == probes.len(),
            views == probe_views(probes@),
            forall|k: int|
                0 <= k < elig.len() ==> elig@[k] == eligible(config@, env@, #[trigger] probes@[k]@),
            forall|s: u64|
                count_of_size(config@, env@, views.take(i as int), s)
                    == (if counts@.contains_key(s) {
                    counts@[s] as nat
                } else {
                    0nat
                }),
            forall|s: u64| count_of_size(config@, env@, views.take(i as int), s) <= i,
        decreases probes.len() - i,
    {
        let size = probes[i].size;
        proof {
            assert(views.take(i + 1).drop_last() == views.take(i as int));
            assert(views.take(i + 1).last() == probes@[i as int]@);
            assert(count_of_size(config@, env@, views.take(i as int), size) <= i);
        }
        let ghost before = counts@;
        if elig[i] {
            let seen: usize = match counts.get(&size) {
                Some(n) => *n,
                None => 0,
            };
            assert(seen as nat == count_of_size(config@, env@, views.take(i as int), size));
            counts.insert(size, seen + 1);
        }
        proof {
            let next = views.take(i + 1);
            assert forall|s: u64|
                #[trigger] count_of_size(config@, env@, next, s) == (if counts@.contains_key(s) {
                    counts@[s] as nat
                } else {
                    0nat
                }) && count_of_size(config@, env@, next, s) <= i + 1 by {
                assert(count_of_size(config@, env@, views.take(i as int), s)
                    == (if before.contains_key(
                    s,
                ) {
                    before[s] as nat
                } else {
                    0nat
                }));
                assert(count_of_size(config@, env@, views.take(i as int), s) <= i);
                assert(count_of_size(config@, env@, next, s) == count_of_size(
                    config@, env@,
                    views.take(i as int),
                    s,
                ) + (if eligible(config@, env@, probes@[i as int]@)
                    && probes@[i as int]@.size == s {
                    1nat
                } else {
                    0nat
                }));
            }
        }
        i += 1;
    }
    assert(views.take(probes.len() as int) == views);
    counts
}

impl DuplicatesScanner {
    /// The scanner.
    pub fn new() -> (r: Self) {
        DuplicatesScanner
    }

    /// Whether a walk for duplicates leaves the directory at `path` out.
    pub fn should_skip_dir(path: &str) -> (r: bool)
        ensures
            r == named_among(path@, duplicate_skip_dirs()),
    {
        dir_named_among(path, &skip_dir_list())
    }

    /// The entries whose digests are needed, by their places among
    /// `probes`, in rising order.
    pub fn hash_candidates(config: &Config, env: &Environment, probes: &Vec<FileProbe>) -> (r:
        Vec<usize>)
        ensures
            forall|k: int|
                0 <= k < r.len() ==> (#[trigger] r@[k]) < probes.len() && needs_digest(
                    config@, env@,
                    probe_views(probes@),
                    probes@[r@[k] as int]@,
                ),
            forall|i: int|
                0 <= i < probes.len() && needs_digest(
                    config@, env@,
                    probe_views(probes@),
                    #[trigger] probes@[i]@,
                ) ==> r@.contains(i as usize),
            forall|a: int, b: int| 0 <= a < b < r.len() ==> r@[a] < r@[b],
    {
        broadcast use vstd::std_specs::hash::group_hash_axioms;

        let elig = eligibility(config, env, probes);
        let counts = size_counts(config, env, probes, &elig);
        let mut out: Vec<usize> = Vec::new();
        let mut i: usize = 0;
        while i < probes.len()
            invariant
                i <= probes.len(),
                elig.len() == probes.len(),
                forall|k: int|
                    0 <= k < elig.len()
                        ==> elig@[k] == eligible(config@, env@, #[trigger] probes@[k]@),
                forall|s: u64|
                    count_of_size(config@, env@, probe_views(probes@), s)
                        == (if counts@.contains_key(
                        s,
                    ) {
                        counts@[s] as nat
                    } else {
                        0nat
                    }),
                forall|k: int|
                    0 <= k < out.len() ==> (#[trigger] out@[k]) < i && needs_digest(
                        config@, env@,
                        probe_views(probes@),
                        probes@[out@[k] as int]@,
                    ),
                forall|j: int|
                    0 <= j < i && needs_digest(
                        config@, env@,
                        probe_views(probes@),
                        #[trigger] probes@[j]@,
                    ) ==> out@.contains(j as usize),
                forall|a: int, b: int| 0 <= a < b < out.len() ==> out@[a] < out@[b],
            decreases probes.len() - i,
        {
            let size = probes[i].size;
            let shared = match counts.get(&size) {
                Some(n) => *n >= 2,
                None => false,
            };
            let ghost before = out@;
            proof {
                assert(probe_views(probes@)[i as int] == probes@[i as int]@);
                assert(needs_digest(config@, env@, probe_views(probes@), probes@[i as int]@) == (
                elig@[i as int] && shared));
            }
            if elig[i] && shared {
                out.push(i);
                assert(out@ == before.push(i));
                assert(out@[out.len() - 1] == i);
                assert forall|k: int| 0 <= k < out.len() implies (#[trigger] out@[k]) < i + 1
                    && needs_digest(
                    config@, env@,
                    probe_views(probes@),
                    probes@[out@[k] as int]@,
                ) by {
                    if k < before.len() {
                        assert(out@[k] == before[k]);
                        assert(before[k] < i);
                    } else {
                        assert(out@[k] == i);
                    }
                }
                assert forall|a: int, b: int| 0 <= a < b < out.len() implies out@[a] < out@[b] by {
                    assert(out@[a] == before[a]);
                    assert(before[a] < i);
                    if b < before.len() {
                        assert(out@[b] == before[b]);
                    } else {
                        assert(out@[b] == i);
                    }
                }
                assert forall|j: int|
                    0 <= j < i + 1 && needs_digest(
                        config@, env@,
                        probe_views(probes@),
                        #[trigger] probes@[j]@,
                    ) implies out@.contains(j as usize) by {
                    if j < i {
                        assert(before.contains(j as usize));
                        let k = choose|k: int| 0 <= k < before.len() && before[k] == j as usize;
                        assert(out@[k] == j as usize);
                    } else {
                        assert(out@[out.len() - 1] == j as usize);
                    }
                }
            }
            i += 1;
        }
        out
    }

    /// The files that are compared: those whose digest was needed and is
    /// there.
    fn gather_pool(config: &Config, env: &Environment, probes: &Vec<FileProbe>) -> (r: Vec<
        HashedFile,
    >)
        ensures
            hashed_views(r@) == pool(config@, env@, probe_views(probes@)),
    {
        broadcast use vstd::std_specs::hash::group_hash_axioms;

        let elig = eligibility(config, env, probes);
        let counts = size_counts(config, env, probes, &elig);
        let ghost views = probe_views(probes@);
        let ghost rule = pooled(config@, env@, views);
        let mut out: Vec<HashedFile> = Vec::new();
        let mut i: usize = 0;
        assert(views.take(0).filter_map(rule) == Seq::<Hashed>::empty());
        assert(hashed_views(out@) == Seq::<Hashed>::empty());
        while i < probes.len()
            invariant
                i <= probes.len(),
                elig.len() == probes.len(),
                views == probe_views(probes@),
                rule == pooled(config@, env@, views),
                forall|k: int|
                    0 <= k < elig.len()
                        ==> elig@[k] == eligible(config@, env@, #[trigger] probes@[k]@),
                forall|s: u64|
                    count_of_size(config@, env@, views, s) == (if counts@.contains_key(s) {
                        counts@[s] as nat
                    } else {
                        0nat
                    }),
                hashed_views(out@) == views.take(i as int).filter_map(rule),
            decreases probes.len() - i,
        {
            let probe = &probes[i];
            let shared = match counts.get(&probe.size) {
                Some(n) => *n >= 2,
                None => false,
            };
            proof {
                assert(views.take(i + 1).drop_last() == views.take(i as int));
                assert(views.take(i + 1).last() == probe@);
                assert(needs_digest(config@, env@, views, probe@) == (elig@[i as int] && shared));
            }
            if elig[i] && shared {
                if let Some(digest) = &probe.digest {
                    let empty: Vec<char> = Vec::new();
                    let file = new_file(
                        &probe.path,
                        probe.size,
                        Category::Duplicate,
                        Timestamp::known_or(probe.accessed, env.now),
                        &empty,
                        false,
                    );
                    let ghost before = hashed_views(out@);
                    let entry = HashedFile { digest: chars_of(digest.as_str()), file };
                    assert(rule(probe@) == Some(entry@));
                    out.push(entry);
                    assert(hashed_views(out@) == before.push(entry@));
                    assert(before.push(entry@) == before + seq![entry@]);
                } else {
                    assert(rule(probe@) is None);
                }
            } else {
                assert(rule(probe@) is None);
            }
            i += 1;
        }
        assert(views.take(probes.len() as int) == views);
        out
    }
}

/// Whether the file at `k` is the first of the pool with its digest.
fn is_first_of_digest(pool: &Vec<HashedFile>, k: usize) -> (r: bool)
    requires
        k < pool.len(),
    ensures
        r == first_of_digest(hashed_views(pool@), k as int),
{
    let mut j: usize = 0;
    while j < k
        invariant
            j <= k < pool.len(),
            forall|a: int|
                0 <= a < j ==> (#[trigger] hashed_views(pool@)[a]).digest != hashed_views(
                    pool@,
                )[k as int].digest,
        decreases k - j,
    {
        if same_chars(&pool[j].digest, &pool[k].digest) {
            assert(hashed_views(pool@)[j as int].digest == hashed_views(pool@)[k as int].digest);
            return false;
        }
        j += 1;
    }
    true
}

/// The files of the pool that have the given digest.
fn collect_group(pool: &Vec<HashedFile>, digest: &Vec<char>) -> (r: Vec<CleanableFile>)
    ensures
        file_views(r@) == group_of(hashed_views(pool@), digest@),
{
    let ghost views = hashed_views(pool@);
    let ghost rule = with_digest(digest@);
    let mut out: Vec<CleanableFile> = Vec::new();
    let mut i: usize = 0;
    assert(views.take(0).filter_map(rule) == Seq::<FileView>::empty());
    assert(file_views(out@) == Seq::<FileView>::empty());
    while i < pool.len()
        invariant
            i <= pool.len(),
            views == hashed_views(pool@),
            rule == with_digest(digest@),
            file_views(out@) == views.take(i as int).filter_map(rule),
        decreases pool.len() - i,
    {
        let entry = &pool[i];
        proof {
            assert(views.take(i + 1).drop_last() == views.take(i as int));
            assert(views.take(i + 1).last() == entry@);
        }
        if same_chars(&entry.digest, digest) {
            let ghost before = file_views(out@);
            let file = entry.file.duplicate();
            assert(rule(entry@) == Some(file@));
            out.push(file);
            assert(file_views(out@) == before.push(file@));
            assert(before.push(file@) == before + seq![file@]);
        } else {
            assert(rule(entry@) is None);
        }
        i += 1;
    }
    assert(views.take(pool.len() as int) == views);
    out
}

/// What is reported of a group of files with the same contents.
pub fn report_group(group: Vec<CleanableFile>) -> (r: Vec<CleanableFile>)
    ensures
        file_views(r@) == group_report(file_views(group@)),
{
    let mut out: Vec<CleanableFile> = Vec::new();
    if group.len() < 2 {
        assert(file_views(out@) == Seq::<FileView>::empty());
        return out;
    }
    let ghost given = file_views(group@);
    let sorted = sort_files(group, Ranking::OldestFirst);
    proof {
        crate::ranking::lemma_ranked(Ranking::OldestFirst, given);
    }
    let reason = labelled("Duplicate of: ", &shown_name(sorted[0].path.as_str()));
    let ghost views = file_views(sorted@);
    let ghost rule = explained(reason@);
    assert(reason@ == duplicate_reason(views[0]));
    let mut i: usize = 1;
    assert(views.subrange(1, 1).map_values(rule) == Seq::<FileView>::empty());
    assert(file_views(out@) == Seq::<FileView>::empty());
    while i < sorted.len()
        invariant
            1 <= i <= sorted.len(),
            views == file_views(sorted@),
            rule == explained(reason@),
            file_views(out@) == views.subrange(1, i as int).map_values(rule),
        decreases sorted.len() - i,
    {
        let f = &sorted[i];
        let file = new_file(&f.path, f.size, f.category, f.last_accessed, &reason, f.is_directory);
        let ghost before = file_views(out@);
        assert(file@ == rule(views[i as int]));
        out.push(file);
        assert(file_views(out@) == before.push(file@));
        assert(views.subrange(1, i + 1).map_values(rule) == views.subrange(
            1,
            i as int,
        ).map_values(rule).push(rule(views[i as int])));
        i += 1;
    }
    assert(views.subrange(1, sorted.len() as int) == views.skip(1));
    out
}

impl DuplicatesScanner {
    /// The duplicates among the entries that a walk visited, given the
    /// digests of those that needed one. An entry whose digest was needed
    /// and is missing is left out of the comparison.
    pub fn find_duplicates(config: &Config, env: &Environment, probes: &Vec<FileProbe>) -> (r: Vec<
        CleanableFile,
    >)
        ensures
            file_views(r@) == duplicates_report(config@, env@, probe_views(probes@)),
    {
        let pool = DuplicatesScanner::gather_pool(config, env, probes);
        let ghost views = hashed_views(pool@);
        let mut found: Vec<CleanableFile> = Vec::new();
        let mut k: usize = 0;
        assert(file_views(found@) == reports_upto(views, 0));
        while k < pool.len()
            invariant
                k <= pool.len(),
                views == hashed_views(pool@),
                file_views(found@) == reports_upto(views, k as int),
            decreases pool.len() - k,
        {
            if is_first_of_digest(&pool, k) {
                let group = collect_group(&pool, &pool[k].digest);
                let mut report = report_group(group);
                let ghost before = file_views(found@);
                let ghost added = file_views(report@);
                assert(views[k as int].digest == pool@[k as int].digest@);
                found.append(&mut report);
                assert(file_views(found@) == before + added);
            } else {
                assert(file_views(found@) + Seq::<FileView>::empty() == file_views(found@));
            }
            k += 1;
        }
        sort_files(found, Ranking::LargestFirst)
    }
}

impl Default for DuplicatesScanner {
    /// The scanner.
    fn default() -> (r: Self) {
        DuplicatesScanner::new()
    }
}

/// The rule that makes of an entry a file of the pool with the given
/// digest.
pub open spec fn pooled_as(digest: Seq<char>, now: Timestamp) -> spec_fn(ProbeView) -> Hashed {
    |p: ProbeView| Hashed { digest, file: unexplained(p, now) }
}

/// The rule that makes of an entry a file whose reason is not yet written.
pub open spec fn unexplained_at(now: Timestamp) -> spec_fn(ProbeView) -> FileView {
    |p: ProbeView| unexplained(p, now)
}

/// Where all of the first `n` entries are looked at and have one size,
/// that size is counted `n` times among them.
proof fn lemma_count_of_one_size(
    cfg: ConfigView,
    env: EnvView,
    probes: Seq<ProbeView>,
    size: u64,
    n: int,
)
    requires
        0 <= n <= probes.len(),
        forall|i: int| 0 <= i < n
            ==> eligible(cfg, env, #[trigger] probes[i]) && probes[i].size == size,
    ensures
        count_of_size(cfg, env, probes.take(n), size) == n,
    decreases n,
{
    if n > 0 {
        lemma_count_of_one_size(cfg, env, probes, size, n - 1);
        assert(probes.take(n).drop_last() == probes.take(n - 1));
        assert(probes.take(n).last() == probes[n - 1]);
    }
}

/// Where every entry comes into the pool with one digest, the pool of the
/// first `n` entries is those entries, each with that digest.
proof fn lemma_pool_of_all(
    cfg: ConfigView,
    env: EnvView,
    probes: Seq<ProbeView>,
    digest: Seq<char>,
    n: int,
)
    requires
        0 <= n <= probes.len(),
        forall|i: int|
            0 <= i < probes.len() ==> needs_digest(cfg, env, probes, #[trigger] probes[i])
                && probes[i].digest == Some(digest),
    ensures
        probes.take(n).filter_map(pooled(cfg, env, probes)) == probes.take(n).map_values(
            pooled_as(digest, env.now),
        ),
    decreases n,
{
    let rule = pooled(cfg, env, probes);
    if n > 0 {
        lemma_pool_of_all(cfg, env, probes, digest, n - 1);
        assert(probes.take(n).drop_last() == probes.take(n - 1));
        assert(probes.take(n).last() == probes[n - 1]);
        assert(rule(probes[n - 1]) == Some(pooled_as(digest, env.now)(probes[n - 1])));
        assert(probes.take(n).map_values(pooled_as(digest, env.now))
            == probes.take(n - 1).map_values(
            pooled_as(digest, env.now),
        ) + seq![pooled_as(digest, env.now)(probes[n - 1])]);
    } else {
        assert(probes.take(0).filter_map(rule) == Seq::<Hashed>::empty());
        assert(probes.take(0).map_values(pooled_as(digest, env.now)) == Seq::<Hashed>::empty());
    }
}

/// The group of a digest in a pool whose first `n` files all have it is
/// those files.
proof fn lemma_group_of_all(
    now: Timestamp,
    probes: Seq<ProbeView>,
    digest: Seq<char>,
    n: int,
)
    requires
        0 <= n <= probes.len(),
    ensures
        probes.take(n).map_values(pooled_as(digest, now)).filter_map(with_digest(digest))
            == probes.take(n).map_values(unexplained_at(now)),
    decreases n,
{
    let hashed = probes.take(n).map_values(pooled_as(digest, now));
    if n > 0 {
        lemma_group_of_all(now, probes, digest, n - 1);
        assert(probes.take(n).drop_last() == probes.take(n - 1));
        assert(hashed.drop_last() == probes.take(n - 1).map_values(pooled_as(digest, now)));
        assert(hashed.last() == pooled_as(digest, now)(probes[n - 1]));
        assert(with_digest(digest)(hashed.last()) == Some(unexplained(probes[n - 1], now)));
        assert(probes.take(n).map_values(unexplained_at(now)) == probes.take(n - 1).map_values(
            unexplained_at(now),
        ) + seq![unexplained(probes[n - 1], now)]);
    } else {
        assert(hashed.filter_map(with_digest(digest)) == Seq::<FileView>::empty());
        assert(probes.take(0).map_values(unexplained_at(now)) == Seq::<FileView>::empty());
    }
}

/// In a pool whose files all have one digest, the reports are the report
/// of the one group.
proof fn lemma_reports_of_one_group(pool: Seq<Hashed>, digest: Seq<char>, n: int)
    requires
        1 <= n <= pool.len(),
        forall|i: int| 0 <= i < pool.len() ==> (#[trigger] pool[i]).digest == digest,
    ensures
        reports_upto(pool, n) == group_report(group_of(pool, digest)),
    decreases n,
{
    if n > 1 {
        lemma_reports_of_one_group(pool, digest, n - 1);
        assert(!first_of_digest(pool, n - 1)) by {
            assert(pool[0].digest == pool[n - 1].digest);
        }
        assert(reports_upto(pool, n - 1) + Seq::<FileView>::empty() == reports_upto(pool, n - 1));
    } else {
        assert(first_of_digest(pool, 0));
        assert(reports_upto(pool, 0) == Seq::<FileView>::empty());
        assert(Seq::<FileView>::empty() + group_report(group_of(pool, digest)) == group_report(
            group_of(pool, digest),
        ));
    }
}

/// Of files that all have the same contents and the same size, each of at
/// least the size that is looked at, all but one are reported: the files in
/// the order of their last access, without the first, each as a duplicate of
/// the first. The first, which stays, is one of the files, and none of them
/// was last accessed before it.
pub proof fn lemma_identical_files(
    cfg: ConfigView,
    env: EnvView,
    probes: Seq<ProbeView>,
    digest: Seq<char>,
)
    requires
        probes.len() >= 1,
        forall|i: int| 0 <= i < probes.len() ==> eligible(cfg, env, #[trigger] probes[i]),
        forall|i: int| 0 <= i < probes.len() ==> (#[trigger] probes[i]).size == probes[0].size,
        forall|i: int| 0 <= i < probes.len() ==> (#[trigger] probes[i]).digest == Some(digest),
    ensures
        ({
            let report = duplicates_report(cfg, env, probes);
            let files = probes.map_values(unexplained_at(env.now));
            let sorted = ranked(Ranking::OldestFirst, files);
            let original = sorted[0];
            &&& report.len() == probes.len() - 1
            &&& sorted.to_multiset() == files.to_multiset()
            &&& report == sorted.skip(1).map_values(explained(duplicate_reason(original)))
            &&& files.contains(original)
            &&& forall|i: int|
                0 <= i < probes.len() ==> original.last_accessed.instant() <= known_or_now(
                    (#[trigger] probes[i]).accessed,
                    env.now,
                ).instant()
            &&& forall|k: int|
                0 <= k < report.len() ==> (#[trigger] report[k]).category == Category::Duplicate
                    && report[k].reason == duplicate_reason(original)
        }),
{
    let n = probes.len() as int;
    let files = probes.map_values(unexplained_at(env.now));
    let sorted = ranked(Ranking::OldestFirst, files);
    let original = sorted[0];
    lemma_ranked(Ranking::OldestFirst, files);
    lemma_file_order_ranks(Ranking::OldestFirst);
    lemma_sorted_by_first(file_order(Ranking::OldestFirst), files);
    assert forall|i: int| 0 <= i < probes.len() implies original.last_accessed.instant()
        <= known_or_now((#[trigger] probes[i]).accessed, env.now).instant() by {
        assert(files[i] == unexplained(probes[i], env.now));
        assert(!file_order(Ranking::OldestFirst)(files[i], original));
    }
    lemma_count_of_one_size(cfg, env, probes, probes[0].size, n);
    assert(probes.take(n) == probes);
    let pool_all = pool(cfg, env, probes);
    if n == 1 {
        assert(!needs_digest(cfg, env, probes, probes[0]));
        assert(probes.drop_last().filter_map(pooled(cfg, env, probes)) == Seq::<Hashed>::empty());
        assert(pooled(cfg, env, probes)(probes.last()) is None);
        assert(pool_all == Seq::<Hashed>::empty());
        assert(reports_upto(pool_all, 0) == Seq::<FileView>::empty());
        assert(duplicates_report(cfg, env, probes) == Seq::<FileView>::empty());
        assert(sorted.skip(1).map_values(explained(duplicate_reason(original))) == Seq::<
            FileView,
        >::empty());
    } else {
        assert forall|i: int| 0 <= i < probes.len() implies needs_digest(
            cfg, env,
            probes,
            #[trigger] probes[i],
        ) && probes[i].digest == Some(digest) by {}
        lemma_pool_of_all(cfg, env, probes, digest, n);
        assert(pool_all == probes.map_values(pooled_as(digest, env.now)));
        lemma_group_of_all(env.now, probes, digest, n);
        assert(group_of(pool_all, digest) == files);
        assert forall|i: int| 0 <= i < pool_all.len() implies (#[trigger] pool_all[i]).digest
            == digest by {}
        lemma_reports_of_one_group(pool_all, digest, n);
        let found = group_report(files);
        assert(found == sorted.skip(1).map_values(explained(duplicate_reason(original))));
        // the duplicates all have one size, so the last sort moves none
        let by_size = file_order(Ranking::LargestFirst);
        crate::sorting::lemma_sorted_by_same_items(file_order(Ranking::OldestFirst), files);
        assert forall|a: int, b: int| 0 <= a < b < found.len() implies !by_size(
            found[b],
            found[a],
        ) by {
            assert(found[a].size == sorted[a + 1].size);
            assert(found[b].size == sorted[b + 1].size);
            assert(sorted.contains(sorted[a + 1]));
            assert(sorted.contains(sorted[b + 1]));
            assert(files.contains(sorted[a + 1]));
            assert(files.contains(sorted[b + 1]));
            let i = choose|i: int| 0 <= i < files.len() && files[i] == sorted[a + 1];
            let j = choose|j: int| 0 <= j < files.len() && files[j] == sorted[b + 1];
            assert(files[i].size == probes[i].size);
            assert(files[j].size == probes[j].size);
        }
        lemma_sorted_by_keeps_order(by_size, found);
        assert(duplicates_report(cfg, env, probes) == found);
        assert forall|k: int| 0 <= k < found.len() implies (#[trigger] found[k]).category
            == Category::Duplicate && found[k].reason == duplicate_reason(original) by {
            assert(found[k] == explained(duplicate_reason(original))(sorted[k + 1]));
            assert(sorted.contains(sorted[k + 1]));
            assert(files.contains(sorted[k + 1]));
            let i = choose|i: int| 0 <= i < files.len() && files[i] == sorted[k + 1];
            assert(files[i] == unexplained(probes[i], env.now));
        }
    }
}

/// In a pool made of entries no two of which have the same digest, no two
/// files have the same digest, and each digest is that of an entry.
proof fn lemma_pool_digests_differ(
    rule: spec_fn(ProbeView) -> Option<Hashed>,
    probes: Seq<ProbeView>,
    n: int,
)
    requires
        0 <= n <= probes.len(),
        forall|p: ProbeView| (#[trigger] rule(p)) is Some ==> p.digest == Some(rule(p)->0.digest),
        forall|i: int, j: int|
            0 <= i < j < probes.len() && (#[trigger] probes[i]).digest is Some && (
            #[trigger] probes[j]).digest is Some ==> probes[i].digest != probes[j].digest,
    ensures
        forall|a: int, b: int|
            0 <= a < b < probes.take(n).filter_map(rule).len() ==> (#[trigger] probes.take(
                n,
            ).filter_map(rule)[a]).digest != (#[trigger] probes.take(n).filter_map(rule)[b]).digest,
        forall|a: int|
            0 <= a < probes.take(n).filter_map(rule).len() ==> exists|i: int|
                0 <= i < n && (#[trigger] probes[i]).digest == Some(
                    (#[trigger] probes.take(n).filter_map(rule)[a]).digest,
                ),
    decreases n,
{
    let q = probes.take(n).filter_map(rule);
    if n > 0 {
        lemma_pool_digests_differ(rule, probes, n - 1);
        let q0 = probes.take(n - 1).filter_map(rule);
        assert(probes.take(n).drop_last() == probes.take(n - 1));
        assert(probes.take(n).last() == probes[n - 1]);
        assert forall|a: int| 0 <= a < q.len() implies exists|i: int|
            0 <= i < n && (#[trigger] probes[i]).digest == Some((#[trigger] q[a]).digest) by {
            if a < q0.len() {
                assert(q[a] == q0[a]);
                let i = choose|i: int|
                    0 <= i < n - 1 && (#[trigger] probes[i]).digest == Some(
                        (#[trigger] q0[a]).digest,
                    );
                assert(probes[i].digest == Some(q[a].digest));
            } else {
                assert(rule(probes[n - 1]) == Some(q[a]));
                assert(probes[n - 1].digest == Some(q[a].digest));
            }
        }
        assert forall|a: int, b: int| 0 <= a < b < q.len() implies (#[trigger] q[a]).digest != (
        #[trigger] q[b]).digest by {
            assert(q[a] == q0[a]);
            if b < q0.len() {
                assert(q[b] == q0[b]);
            } else {
                assert(rule(probes[n - 1]) == Some(q[b]));
                let i = choose|i: int|
                    0 <= i < n - 1 && (#[trigger] probes[i]).digest == Some(
                        (#[trigger] q0[a]).digest,
                    );
                assert(probes[i].digest != probes[n - 1].digest);
            }
        }
    } else {
        assert(q == Seq::<Hashed>::empty());
    }
}

/// A digest that at most one of the first `n` files of a pool has, and
/// none of them before the place `k`, has a group of at most one file.
proof fn lemma_group_of_one(pool: Seq<Hashed>, digest: Seq<char>, n: int)
    requires
        0 <= n <= pool.len(),
        forall|a: int, b: int|
            0 <= a < b < pool.len() ==> (#[trigger] pool[a]).digest != (#[trigger] pool[b]).digest,
    ensures
        pool.take(n).filter_map(with_digest(digest)).len() <= 1,
        (forall|a: int| 0 <= a < n ==> (#[trigger] pool[a]).digest != digest) ==> pool.take(
            n,
        ).filter_map(with_digest(digest)).len() == 0,
    decreases n,
{
    if n > 0 {
        lemma_group_of_one(pool, digest, n - 1);
        assert(pool.take(n).drop_last() == pool.take(n - 1));
        assert(pool.take(n).last() == pool[n - 1]);
        if pool[n - 1].digest == digest {
            assert forall|a: int| 0 <= a < n - 1 implies (#[trigger] pool[a]).digest != digest by {
                assert(pool[a].digest != pool[n - 1].digest);
            }
        }
    } else {
        assert(pool.take(0).filter_map(with_digest(digest)) == Seq::<FileView>::empty());
    }
}

/// In a pool no two files of which have the same digest nothing is
/// reported.
proof fn lemma_no_reports(pool: Seq<Hashed>, n: int)
    requires
        0 <= n <= pool.len(),
        forall|a: int, b: int|
            0 <= a < b < pool.len() ==> (#[trigger] pool[a]).digest != (#[trigger] pool[b]).digest,
    ensures
        reports_upto(pool, n) == Seq::<FileView>::empty(),
    decreases n,
{
    if n > 0 {
        lemma_no_reports(pool, n - 1);
        lemma_group_of_one(pool, pool[n - 1].digest, pool.len() as int);
        assert(pool.take(pool.len() as int) == pool);
        assert(group_report(group_of(pool, pool[n - 1].digest)) == Seq::<FileView>::empty());
        assert(Seq::<FileView>::empty() + Seq::<FileView>::empty() == Seq::<FileView>::empty());
    }
}

/// Of files no two of which have the same contents none is reported,
/// whatever their sizes are.
pub proof fn lemma_different_contents(cfg: ConfigView, env: EnvView, probes: Seq<ProbeView>)
    requires
        forall|i: int, j: int|
            0 <= i < j < probes.len() && (#[trigger] probes[i]).digest is Some && (
            #[trigger] probes[j]).digest is Some ==> probes[i].digest != probes[j].digest,
    ensures
        duplicates_report(cfg, env, probes) == Seq::<FileView>::empty(),
{
    let rule = pooled(cfg, env, probes);
    lemma_pool_digests_differ(rule, probes, probes.len() as int);
    assert(probes.take(probes.len() as int) == probes);
    let all = pool(cfg, env, probes);
    lemma_no_reports(all, all.len() as int);
}

/// The bytes of a file as its reads gave them: what the reads before the
/// first empty one returned, one after the other. Here for the first `n`
/// reads, none of which failed or was empty.
pub open spec fn bytes_read(reads: Seq<Option<Vec<u8>>>, n: int) -> Seq<u8>
    decreases n,
{
    if n <= 0 {
        Seq::empty()
    } else {
        bytes_read(reads, n - 1) + reads[n - 1]->0@
    }
}

/// Whether the first `n` reads all returned bytes.
pub open spec fn all_returned_bytes(reads: Seq<Option<Vec<u8>>>, n: int) -> bool {
    forall|k: int| 0 <= k < n ==> (#[trigger] reads[k]) is Some && reads[k]->0@.len() > 0
}

/// How many reads returned bytes before the file ended or a read failed.
pub open spec fn reads_of_bytes(reads: Seq<Option<Vec<u8>>>) -> int
    decreases reads.len(),
{
    if reads.len() == 0 {
        0
    } else {
        let before = reads_of_bytes(reads.drop_last());
        if before == reads.len() - 1 && reads.last() is Some && reads.last()->0@.len() > 0 {
            before + 1
        } else {
            before
        }
    }
}

/// What is known of the contents of a file after its reads. Nothing, where
/// a read failed before the file ended; else the digest of the bytes that
/// the reads returned up to its end, which the first empty read marks, or
/// the last read where none is empty.
pub open spec fn digest_after(reads: Seq<Option<Vec<u8>>>) -> Option<Seq<char>> {
    let n = reads_of_bytes(reads);
    if n < reads.len() && reads[n] is None {
        None
    } else if bytes_read(reads, n).len() > u64::MAX {
        None
    } else {
        Some(blake3_hex(bytes_read(reads, n)))
    }
}

/// The reads that returned bytes are the first ones, and the one after
/// them, if there is one, failed or was empty.
proof fn lemma_reads_of_bytes(reads: Seq<Option<Vec<u8>>>)
    ensures
        0 <= reads_of_bytes(reads) <= reads.len(),
        all_returned_bytes(reads, reads_of_bytes(reads)),
        reads_of_bytes(reads) < reads.len() ==> !(reads[reads_of_bytes(reads)] is Some
            && reads[reads_of_bytes(reads)]->0@.len() > 0),
    decreases reads.len(),
{
    if reads.len() > 0 {
        let rest = reads.drop_last();
        lemma_reads_of_bytes(rest);
        let before = reads_of_bytes(rest);
        assert forall|k: int| 0 <= k < before implies (#[trigger] reads[k]) is Some
            && reads[k]->0@.len() > 0 by {
            assert(rest[k] == reads[k]);
        }
        if before < rest.len() {
            assert(rest[before] == reads[before]);
        }
    }
}

/// Reads that all returned bytes are the reads of bytes, and the next one
/// ends them if it failed or was empty.
proof fn lemma_reads_of_bytes_is(reads: Seq<Option<Vec<u8>>>, n: int)
    requires
        0 <= n <= reads.len(),
        all_returned_bytes(reads, n),
        n < reads.len() ==> !(reads[n] is Some && reads[n]->0@.len() > 0),
    ensures
        reads_of_bytes(reads) == n,
    decreases reads.len(),
{
    if reads.len() > 0 {
        let rest = reads.drop_last();
        if n < reads.len() {
            assert forall|k: int| 0 <= k < n implies (#[trigger] rest[k]) is Some
                && rest[k]->0@.len() > 0 by {
                assert(rest[k] == reads[k]);
                assert(reads[k] is Some);
            }
            if n < rest.len() {
                assert(rest[n] == reads[n]);
            }
            lemma_reads_of_bytes_is(rest, n);
        } else {
            assert forall|k: int| 0 <= k < n - 1 implies (#[trigger] rest[k]) is Some
                && rest[k]->0@.len() > 0 by {
                assert(rest[k] == reads[k]);
                assert(reads[k] is Some);
            }
            assert(reads[n - 1] is Some);
            lemma_reads_of_bytes_is(rest, n - 1);
        }
    }
}

impl DuplicatesScanner {
    /// The digest of a file, given what each read of it returned: bytes,
    /// nothing at its end, or a failure. A file that could not be read to
    /// its end has no digest.
    pub fn hash_file(reads: &Vec<Option<Vec<u8>>>) -> (r: Option<String>)
        ensures
            crate::cli::option_view(r) == digest_after(reads@),
    {
        let mut hasher = ContentHasher::new();
        let mut i: usize = 0;
        while i < reads.len()
            invariant
                i <= reads.len(),
                hasher.well_formed(),
                all_returned_bytes(reads@, i as int),
                !hasher.overfull() ==> hasher.content() == bytes_read(reads@, i as int),
                hasher.overfull() ==> exists|k: int|
                    0 <= k <= i && bytes_read(reads@, k).len() > u64::MAX,
            decreases reads.len() - i,
        {
            match &reads[i] {
                None => {
                    proof {
                        lemma_reads_of_bytes_is(reads@, i as int);
                    }
                    return None;
                },
                Some(chunk) => {
                    if chunk.len() == 0 {
                        proof {
                            lemma_reads_of_bytes_is(reads@, i as int);
                            if hasher.overfull() {
                                let k = choose|k: int|
                                    0 <= k <= i && bytes_read(reads@, k).len() > u64::MAX;
                                lemma_bytes_read_grow(reads@, k, i as int);
                            }
                        }
                        return hasher.finish();
                    }
                    let ghost was_full = hasher.overfull();
                    hasher.feed(chunk.as_slice());
                    proof {
                        if hasher.overfull() && !was_full {
                            assert(bytes_read(reads@, i + 1).len() > u64::MAX);
                        }
                    }
                },
            }
            i += 1;
        }
        proof {
            lemma_reads_of_bytes_is(reads@, i as int);
            if hasher.overfull() {
                let k = choose|k: int| 0 <= k <= i && bytes_read(reads@, k).len() > u64::MAX;
                lemma_bytes_read_grow(reads@, k, i as int);
            }
        }
        hasher.finish()
    }
}

/// More reads make the bytes read no fewer.
proof fn lemma_bytes_read_grow(reads: Seq<Option<Vec<u8>>>, k: int, n: int)
    requires
        0 <= k <= n,
    ensures
        bytes_read(reads, k).len() <= bytes_read(reads, n).len(),
    decreases n - k,
{
    if k < n {
        lemma_bytes_read_grow(reads, k, n - 1);
    }
}

} // verus!
