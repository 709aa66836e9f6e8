//! The sizes below which the scanners report nothing.

use crate::config::ConfigView;
use crate::ranking::{file_order, lemma_file_order_ranks, ranked, Ranking};
use crate::scanner::build_artifacts::MIN_ARTIFACT_BYTES;
use crate::scanner::cache::{MIN_CACHE_ENTRY_BYTES, MIN_KNOWN_CACHE_BYTES};
use crate::scanner::duplicates::{
    duplicate_reason, explained, group_of, group_report, pool, pooled, reports_upto, with_digest,
    Hashed, MIN_DUPLICATE_BYTES,
};
use crate::scanner::old_files::MIN_OLD_FILE_BYTES;
use crate::scanner::temp::MIN_TEMP_FILE_BYTES;
use crate::scanner::{
    candidate, limit_of, ranking_of, report_of, within_limit, EnvView, FileView, ProbeView,
    ScannerKind,
};
use crate::sorting::lemma_sorted_by_same_items;

use vstd::prelude::*;

verus! {

/// Whether a file is of a size that the scanner reports. Caches and build
/// artifacts are reported from 1 MiB, known caches and the caches of package
/// managers from 10 MiB, large files from the size that the settings give,
/// old files from 10 KiB, duplicates from 1 MiB, and temporary files from
/// 1 KiB, directories aside. What lies in the trash or among the downloads
/// is reported at any size.
pub open spec fn of_reported_size(kind: ScannerKind, cfg: ConfigView, f: FileView) -> bool {
    match kind {
        ScannerKind::Cache => f.size >= MIN_CACHE_ENTRY_BYTES,
        ScannerKind::KnownCache => f.size >= MIN_KNOWN_CACHE_BYTES,
        ScannerKind::Trash => true,
        ScannerKind::Temp => f.is_directory || f.size >= MIN_TEMP_FILE_BYTES,
        ScannerKind::Downloads => true,
        ScannerKind::BuildArtifacts => f.size >= MIN_ARTIFACT_BYTES,
        ScannerKind::GlobalCache => f.size >= MIN_KNOWN_CACHE_BYTES,
        ScannerKind::LargeFiles => f.size >= cfg.large_size_bytes(),
        ScannerKind::Duplicates => f.size >= MIN_DUPLICATE_BYTES,
        ScannerKind::OldFiles => f.size >= MIN_OLD_FILE_BYTES,
    }
}

/// Every file of the reports of the groups is of at least the size from
/// which duplicates are looked at.
proof fn lemma_duplicates_are_large(
    cfg: ConfigView,
    env: EnvView,
    probes: Seq<ProbeView>,
    n: int,
    f: FileView,
)
    requires
        0 <= n <= pool(cfg, env, probes).len(),
        reports_upto(pool(cfg, env, probes), n).contains(f),
    ensures
        f.size >= MIN_DUPLICATE_BYTES,
    decreases n,
{
    let all = pool(cfg, env, probes);
    if n > 0 {
        let before = reports_upto(all, n - 1);
        let added = if crate::scanner::duplicates::first_of_digest(all, n - 1) {
            group_report(group_of(all, all[n - 1].digest))
        } else {
            Seq::<FileView>::empty()
        };
        let k = choose|k: int| 0 <= k < (before + added).len() && (before + added)[k] == f;
        if k < before.len() {
            assert(before[k] == f);
            lemma_duplicates_are_large(cfg, env, probes, n - 1, f);
        } else {
            let digest = all[n - 1].digest;
            let group = group_of(all, digest);
            let sorted = ranked(Ranking::OldestFirst, group);
            let i = k - before.len();
            assert(added[i] == f);
            assert(f == explained(duplicate_reason(sorted[0]))(sorted[i + 1]));
            lemma_file_order_ranks(Ranking::OldestFirst);
            lemma_sorted_by_same_items(file_order(Ranking::OldestFirst), group);
            crate::ranking::lemma_ranked(Ranking::OldestFirst, group);
            let g = sorted[i + 1];
            assert(sorted.contains(g));
            assert(group.contains(g));
            all.lemma_filter_map_contains(with_digest(digest), g);
            let h = choose|h: Hashed| #[trigger] all.contains(h)
                && with_digest(digest)(h) == Some(g);
            probes.lemma_filter_map_contains(pooled(cfg, env, probes), h);
            let p = choose|p: ProbeView|
                #[trigger] probes.contains(p) && pooled(cfg, env, probes)(p) == Some(h);
            assert(f.size == p.size);
        }
    }
}

/// No scanner reports a file below its smallest size.
pub proof fn lemma_reports_meet_minimum(
    kind: ScannerKind,
    cfg: ConfigView,
    env: EnvView,
    probes: Seq<ProbeView>,
)
    ensures
        forall|k: int|
            0 <= k < report_of(kind, cfg, env, probes).len() ==> of_reported_size(
                kind,
                cfg,
                #[trigger] report_of(kind, cfg, env, probes)[k],
            ),
{
    let report = report_of(kind, cfg, env, probes);
    assert forall|k: int| 0 <= k < report.len() implies of_reported_size(
        kind,
        cfg,
        #[trigger] report[k],
    ) by {
        let f = report[k];
        if kind == ScannerKind::Duplicates {
            let all = pool(cfg, env, probes);
            let found = reports_upto(all, all.len() as int);
            lemma_file_order_ranks(Ranking::LargestFirst);
            lemma_sorted_by_same_items(file_order(Ranking::LargestFirst), found);
            assert(report.contains(f));
            assert(found.contains(f));
            lemma_duplicates_are_large(cfg, env, probes, all.len() as int, f);
        } else {
            let rule = candidate(kind, cfg, env);
            let found = probes.filter_map(rule);
            let sorted = ranked(ranking_of(kind), found);
            assert(report == within_limit(sorted, limit_of(kind)));
            assert(sorted[k] == f);
            lemma_file_order_ranks(ranking_of(kind));
            lemma_sorted_by_same_items(file_order(ranking_of(kind)), found);
            assert(sorted.contains(f));
            assert(found.contains(f));
            probes.lemma_filter_map_contains(rule, f);
            let p = choose|p: ProbeView| #[trigger] probes.contains(p) && rule(p) == Some(f);
            assert(rule(p) == Some(f));
        }
    }
}

} // verus!
