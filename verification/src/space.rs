//! Which disk holds a path, and how much room it has.

use crate::path::{is_within, path_is_within};
use crate::ui::{format_size, size_text};
use vstd::prelude::*;

verus! {

/// What is known of a disk.
#[derive(Debug, Clone)]
pub struct DiskInfo {
    /// Where the disk is mounted.
    pub mount_point: String,
    /// How many bytes it holds in all.
    pub total_space: u64,
    /// How many bytes are free.
    pub available_space: u64,
}

/// The mathematical content of a `DiskInfo`.
pub struct DiskView {
    pub mount_point: Seq<char>,
    pub total_space: u64,
    pub available_space: u64,
}

impl View for DiskInfo {
    type V = DiskView;

    open spec fn view(&self) -> DiskView {
        DiskView {
            mount_point: self.mount_point@,
            total_space: self.total_space,
            available_space: self.available_space,
        }
    }
}

/// The contents of a list of disks.
pub open spec fn disk_views(disks: Seq<DiskInfo>) -> Seq<DiskView> {
    disks.map_values(|d: DiskInfo| d@)
}

/// The room on the disk that holds a path.
#[derive(Debug, Clone)]
pub struct DiskReport {
    pub total_bytes: u64,
    pub free_bytes: u64,
    pub total_formatted: String,
    pub free_formatted: String,
    pub mount_point: String,
}

/// The mathematical content of a `DiskReport`.
pub struct ReportView {
    pub total_bytes: u64,
    pub free_bytes: u64,
    pub total_formatted: Seq<char>,
    pub free_formatted: Seq<char>,
    pub mount_point: Seq<char>,
}

impl View for DiskReport {
    type V = ReportView;

    open spec fn view(&self) -> ReportView {
        ReportView {
            total_bytes: self.total_bytes,
            free_bytes: self.free_bytes,
            total_formatted: self.total_formatted@,
            free_formatted: self.free_formatted@,
            mount_point: self.mount_point@,
        }
    }
}

/// The length of a text in bytes.
pub open spec fn byte_length(s: Seq<char>) -> nat {
    vstd::utf8::encode_utf8(s).len()
}

/// Whether the disk at `i` is the one that holds `target`: it is mounted
/// at or above the path, no such disk has a longer mount point, and none
/// before it has one as long.
pub open spec fn holds_path(disks: Seq<DiskView>, target: Seq<char>, i: int) -> bool {
    &&& 0 <= i < disks.len()
    &&& is_within(target, disks[i].mount_point)
    &&& forall|j: int|
        0 <= j < disks.len() && is_within(target, (#[trigger] disks[j]).mount_point)
            ==> byte_length(disks[j].mount_point) <= byte_length(disks[i].mount_point) && (j < i
            ==> byte_length(disks[j].mount_point) < byte_length(disks[i].mount_point))
}

/// What is reported of a disk.
pub open spec fn report_on(disk: DiskView) -> ReportView {
    ReportView {
        total_bytes: disk.total_space,
        free_bytes: disk.available_space,
        total_formatted: size_text(disk.total_space),
        free_formatted: size_text(disk.available_space),
        mount_point: disk.mount_point,
    }
}

/// The disk that holds `target`, by its place among `disks`: of the disks
/// mounted at or above the path the one with the longest mount point, which
/// is the innermost. None where no disk is mounted at or above the path.
pub fn find_disk_for_path(target: &str, disks: &Vec<DiskInfo>) -> (r: Option<usize>)
    ensures
        match r {
            Some(i) => holds_path(disk_views(disks@), target@, i as int),
            None => forall|j: int|
                0 <= j < disks.len() ==> !is_within(
                    target@,
                    (#[trigger] disk_views(disks@)[j]).mount_point,
                ),
        },
{
    let ghost views = disk_views(disks@);
    let mut best: Option<usize> = None;
    let mut i: usize = 0;
    while i < disks.len()
        invariant
            i <= disks.len(),
            views == disk_views(disks@),
            match best {
                Some(b) => {
                    &&& b < i
                    &&& is_within(target@, views[b as int].mount_point)
                    &&& forall|j: int|
                        0 <= j < i && is_within(target@, (#[trigger] views[j]).mount_point)
                            ==> byte_length(views[j].mount_point) <= byte_length(
                            views[b as int].mount_point,
                        ) && (j < b ==> byte_length(views[j].mount_point) < byte_length(
                            views[b as int].mount_point,
                        ))
                },
                None => forall|j: int|
                    0 <= j < i ==> !is_within(target@, (#[trigger] views[j]).mount_point),
            },
        decreases disks.len() - i,
    {
        let disk = &disks[i];
        assert(views[i as int] == disk@);
        let ghost old_best = best;
        if path_is_within(target, disk.mount_point.as_str()) {
            match best {
                Some(b) => {
                    assert(views[b as int] == disks@[b as int]@);
                    let here = disk.mount_point.as_str().as_bytes().len();
                    let there = disks[b].mount_point.as_str().as_bytes().len();
                    assert(here == byte_length(views[i as int].mount_point));
                    assert(there == byte_length(views[b as int].mount_point));
                    if here > there {
                        best = Some(i);
                    }
                },
                None => {
                    best = Some(i);
                },
            }
        }
        proof {
            if let Some(b) = best {
                assert forall|j: int|
                    0 <= j < i + 1 && is_within(
                        target@,
                        (#[trigger] views[j]).mount_point,
                    ) implies byte_length(views[j].mount_point) <= byte_length(
                    views[b as int].mount_point,
                ) && (j < b ==> byte_length(views[j].mount_point) < byte_length(
                    views[b as int].mount_point,
                )) by {
                    if let Some(b0) = old_best {
                        if j < i {
                            assert(byte_length(views[j].mount_point) <= byte_length(
                                views[b0 as int].mount_point,
                            ));
                        }
                    } else {
                        if j < i {
                            assert(!is_within(target@, views[j].mount_point));
                        }
                    }
                }
            }
        }
        i += 1;
    }
    best
}

/// The room on the disk that holds `target`.
pub fn run(target: &str, disks: &Vec<DiskInfo>) -> (r: Option<DiskReport>)
    ensures
        match r {
            Some(report) => exists|i: int|
                holds_path(disk_views(disks@), target@, i) && report@ == report_on(
                    #[trigger] disk_views(disks@)[i],
                ),
            None => forall|j: int|
                0 <= j < disks.len() ==> !is_within(
                    target@,
                    (#[trigger] disk_views(disks@)[j]).mount_point,
                ),
        },
{
    match find_disk_for_path(target, disks) {
        Some(i) => {
            let disk = &disks[i];
            assert(disk_views(disks@)[i as int] == disk@);
            Some(
                DiskReport {
                    total_bytes: disk.total_space,
                    free_bytes: disk.available_space,
                    total_formatted: format_size(disk.total_space),
                    free_formatted: format_size(disk.available_space),
                    mount_point: disk.mount_point.clone(),
                },
            )
        },
        None => None,
    }
}

} // verus!
