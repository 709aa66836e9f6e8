//! Where each scanner looks.
//!
//! A scanner decides only on entries that lie where its walk would have
//! found them: below one of its directories, no deeper than it looks, and
//! not behind a directory that its walk does not enter. Where an entry lies
//! is read from its path alone.

use crate::cli::string_views;
use crate::config::{Config, ConfigView};
use crate::path::{
    components, components_of, entry_name, file_name, is_rooted, join, join_paths,
    lemma_components_index, lemma_names_nonempty, names, opens_with, texts,
};
use crate::scanner::build_artifacts::{
    artifact_walk_visits, hidden_artifact_dirs, hidden_dir_list,
};
use crate::scanner::cache::{cache_dirs, CacheScanner};
use crate::scanner::downloads::DOWNLOADS_MAX_DEPTH;
use crate::scanner::duplicates::duplicate_skip_dirs;
use crate::scanner::large_files::{large_skip_dirs, named_among};
use crate::scanner::old_files::{old_skip_dirs, old_walk_skips, OLD_FILES_MAX_DEPTH};
use crate::scanner::temp::{temp_dirs, TempScanner, TEMP_MAX_DEPTH};
use crate::scanner::trash::{trash_dirs, TrashScanner};
use crate::scanner::{as_option_str, EnvView, Environment, ProbeView, ScannerKind};
use crate::text::{
    among, chars_of, last_index_of, lemma_last_index_is, lemma_last_index_of, same_chars, str_views,
};
use vstd::prelude::*;

verus! {

/// Whether a component is the name of a file or directory: not the root,
/// not `.`, not `..`.
pub open spec fn is_plain_name(c: Seq<char>) -> bool {
    c.len() > 0 && c != seq!['.'] && c != seq!['.', '.']
}

/// The walks that leave directories out by their names.
#[derive(Debug, Clone, Copy, PartialEq, Eq, Structural)]
pub enum SkipRule {
    /// The walk for large files.
    Large,
    /// The walk for old files, which also leaves out every directory whose
    /// name begins with a `.`.
    Old,
    /// The walk for duplicates.
    Duplicates,
}

/// Whether a walk does not enter a directory of the given name.
pub open spec fn skips(rule: SkipRule, name: Seq<char>) -> bool {
    is_plain_name(name) && match rule {
        SkipRule::Large => large_skip_dirs().contains(name),
        SkipRule::Old => name[0] == '.' || old_skip_dirs().contains(name),
        SkipRule::Duplicates => duplicate_skip_dirs().contains(name),
    }
}

/// The place among the components of an entry of the first directory that
/// the walk had to enter: the directory that the walk started from, which
/// is the last of the `base_len` components of the start.
pub open spec fn walk_start(base_len: int) -> int {
    if base_len > 0 {
        base_len - 1
    } else {
        0
    }
}

/// Whether a walk that started at the first `base_len` components reaches
/// the entry: it enters every directory on the way, the one it started from
/// included.
pub open spec fn reached_past(comps: Seq<Seq<char>>, base_len: int, rule: SkipRule) -> bool {
    forall|i: int| walk_start(base_len) <= i < comps.len() - 1 ==> !skips(rule, #[trigger] comps[i])
}

/// Whether the text of a path with these components begins with a `.`: the
/// path has no root, and its first component begins with one.
pub open spec fn begins_with_dot(comps: Seq<Seq<char>>) -> bool {
    comps.len() > 0 && comps[0].len() > 0 && comps[0][0] == '.'
}

/// Whether a walk for build artifacts comes to the entry that the first
/// `i + 1` components name, given that it came to the directory that holds
/// it. An entry whose name begins with a `.` is visited only if it is one of
/// the hidden artifact directories; any other, unless it lies in a
/// `node_modules` directory and is not itself called so. An entry without a
/// name of its own, which only the start of a walk can be, goes by its whole
/// path in place of a name.
pub open spec fn artifact_walk_enters(comps: Seq<Seq<char>>, i: int) -> bool {
    let name = comps[i];
    if is_plain_name(name) {
        if name[0] == '.' {
            hidden_artifact_dirs().contains(name)
        } else {
            !(comps.take(i + 1).contains("node_modules"@) && name != "node_modules"@)
        }
    } else {
        !begins_with_dot(comps) && !comps.take(i + 1).contains("node_modules"@)
    }
}

/// Whether a walk for build artifacts that started at the first `base_len`
/// components reaches the entry: it visits the directory it started from,
/// every directory on the way, and the entry itself.
pub open spec fn reached_by_artifact_walk(comps: Seq<Seq<char>>, base_len: int) -> bool {
    forall|i: int| walk_start(base_len) <= i < comps.len()
        ==> #[trigger] artifact_walk_enters(comps, i)
}

/// Whether an entry with the components `comps` lies where the walk of a
/// scanner from the directory `base` finds it. Caches, trash and downloads
/// are the immediate children of their directories. Temporary files lie at
/// most three levels down, directories among them only at the first. Old
/// files lie at most five levels down. Old files, large files, duplicates
/// and build artifacts lie behind no directory that their walks leave out.
pub open spec fn fits(
    kind: ScannerKind,
    comps: Seq<Seq<char>>,
    is_dir: bool,
    base: Seq<Seq<char>>,
) -> bool {
    base.is_prefix_of(comps) && {
        let depth = comps.len() - base.len();
        match kind {
            ScannerKind::Cache => depth == 1,
            ScannerKind::Trash => depth == 1,
            ScannerKind::Downloads => 1 <= depth <= DOWNLOADS_MAX_DEPTH,
            ScannerKind::Temp => 1 <= depth <= TEMP_MAX_DEPTH && (is_dir ==> depth == 1),
            ScannerKind::OldFiles => depth <= OLD_FILES_MAX_DEPTH && reached_past(
                comps,
                base.len() as int,
                SkipRule::Old,
            ),
            ScannerKind::LargeFiles => reached_past(comps, base.len() as int, SkipRule::Large),
            ScannerKind::Duplicates => reached_past(comps, base.len() as int, SkipRule::Duplicates),
            ScannerKind::BuildArtifacts => reached_by_artifact_walk(comps, base.len() as int),
            ScannerKind::KnownCache => true,
            ScannerKind::GlobalCache => true,
        }
    }
}

/// The directories of a user's own data in the home directory.
pub open spec fn user_data_dirs_in(home: Seq<char>) -> Seq<Seq<char>> {
    seq![
        join(home, "Documents"@),
        join(home, "Desktop"@),
        join(home, "Pictures"@),
        join(home, "Movies"@),
        join(home, "Music"@),
    ]
}

/// The directories that the walk of a scanner starts from. The scanners of
/// listed caches walk nothing: they know their places.
pub open spec fn roots_of(kind: ScannerKind, cfg: ConfigView, env: EnvView) -> Seq<Seq<char>> {
    match kind {
        ScannerKind::Cache => cache_dirs(cfg, env.home, env.platform),
        ScannerKind::Trash => trash_dirs(env.home, env.platform),
        ScannerKind::Temp => temp_dirs(env.temp_dir, env.home),
        ScannerKind::Downloads => match env.downloads_dir {
            Some(d) => seq![d],
            None => Seq::empty(),
        },
        ScannerKind::OldFiles => match env.home {
            Some(home) => user_data_dirs_in(home),
            None => Seq::empty(),
        },
        ScannerKind::LargeFiles => seq![cfg.scan_root(env.home)],
        ScannerKind::Duplicates => seq![cfg.scan_root(env.home)],
        ScannerKind::BuildArtifacts => seq![cfg.scan_root(env.home)],
        ScannerKind::KnownCache => Seq::empty(),
        ScannerKind::GlobalCache => Seq::empty(),
    }
}

/// The components of each of the directories.
pub open spec fn parsed(dirs: Seq<Seq<char>>) -> Seq<Seq<Seq<char>>> {
    dirs.map_values(|d: Seq<char>| components(d))
}

/// Whether an entry lies where one of the walks from `roots` finds it. The
/// scanners of listed caches take any entry.
pub open spec fn placed_among(
    kind: ScannerKind,
    comps: Seq<Seq<char>>,
    is_dir: bool,
    roots: Seq<Seq<Seq<char>>>,
) -> bool {
    kind == ScannerKind::KnownCache || kind == ScannerKind::GlobalCache || exists|k: int|
        0 <= k < roots.len() && fits(kind, comps, is_dir, #[trigger] roots[k])
}

/// Whether an entry lies where the scanner looks.
pub open spec fn placed(kind: ScannerKind, cfg: ConfigView, env: EnvView, p: ProbeView) -> bool {
    placed_among(kind, components(p.path), p.is_dir, parsed(roots_of(kind, cfg, env)))
}

/// The texts of lists of components.
pub open spec fn root_views(roots: Seq<Vec<Vec<char>>>) -> Seq<Seq<Seq<char>>> {
    roots.map_values(|r: Vec<Vec<char>>| texts(r@))
}

/// Where a scanner looks: the directories that its walk starts from, split
/// into their components.
pub struct Scope {
    pub kind: ScannerKind,
    pub roots: Vec<Vec<Vec<char>>>,
}

impl Scope {
    /// Whether this is where the scanner looks under the given settings.
    pub open spec fn covers(&self, kind: ScannerKind, cfg: ConfigView, env: EnvView) -> bool {
        self.kind == kind && root_views(self.roots@) == parsed(roots_of(kind, cfg, env))
    }
}

fn parse_all(dirs: &Vec<String>) -> (r: Vec<Vec<Vec<char>>>)
    ensures
        root_views(r@) == parsed(string_views(dirs@)),
{
    let mut out: Vec<Vec<Vec<char>>> = Vec::new();
    let mut i: usize = 0;
    while i < dirs.len()
        invariant
            i <= dirs.len(),
            root_views(out@) == parsed(string_views(dirs@)).take(i as int),
        decreases dirs.len() - i,
    {
        let ghost before = root_views(out@);
        let parts = components_of(dirs[i].as_str());
        out.push(parts);
        assert(root_views(out@) == before.push(texts(parts@)));
        i += 1;
    }
    assert(parsed(string_views(dirs@)).take(dirs.len() as int) == parsed(string_views(dirs@)));
    out
}

/// The directories that the walk of a scanner starts from.
pub fn roots(kind: ScannerKind, config: &Config, env: &Environment) -> (r: Vec<String>)
    ensures
        string_views(r@) == roots_of(kind, config@, env@),
{
    let home = as_option_str(&env.home);
    match kind {
        ScannerKind::Cache => CacheScanner::new().get_cache_dirs(config, home, env.platform),
        ScannerKind::Trash => TrashScanner::new().get_trash_dirs(home, env.platform),
        ScannerKind::Temp => TempScanner::new().get_temp_dirs(as_option_str(&env.temp_dir), home),
        ScannerKind::Downloads => {
            let mut v: Vec<String> = Vec::new();
            if let Some(d) = &env.downloads_dir {
                v.push(d.clone());
                assert(string_views(v@) =~= seq![d@]);
            } else {
                assert(string_views(v@) =~= Seq::<Seq<char>>::empty());
            }
            v
        },
        ScannerKind::OldFiles => {
            let mut v: Vec<String> = Vec::new();
            if let Some(h) = home {
                v.push(join_paths(h, "Documents"));
                v.push(join_paths(h, "Desktop"));
                v.push(join_paths(h, "Pictures"));
                v.push(join_paths(h, "Movies"));
                v.push(join_paths(h, "Music"));
                assert(string_views(v@) =~= user_data_dirs_in(h@));
            } else {
                assert(string_views(v@) =~= Seq::<Seq<char>>::empty());
            }
            v
        },
        ScannerKind::LargeFiles | ScannerKind::Duplicates | ScannerKind::BuildArtifacts => {
            let mut v: Vec<String> = Vec::new();
            let root = config.get_base_path(home);
            v.push(root);
            assert(string_views(v@) =~= seq![config@.scan_root(env@.home)]);
            v
        },
        ScannerKind::KnownCache | ScannerKind::GlobalCache => {
            let v: Vec<String> = Vec::new();
            assert(string_views(v@) =~= Seq::<Seq<char>>::empty());
            v
        },
    }
}

/// Where a scanner looks under the given settings.
pub fn scope_of(kind: ScannerKind, config: &Config, env: &Environment) -> (r: Scope)
    ensures
        r.covers(kind, config@, env@),
{
    let dirs = roots(kind, config, env);
    Scope { kind, roots: parse_all(&dirs) }
}

fn is_plain(c: &Vec<char>) -> (r: bool)
    ensures
        r == is_plain_name(c@),
{
    if c.len() == 0 {
        return false;
    }
    let dot = c.len() == 1 && c[0] == '.';
    let dotdot = c.len() == 2 && c[0] == '.' && c[1] == '.';
    proof {
        if dot {
            assert(c@ =~= seq!['.']);
        } else if c.len() == 1 {
            assert(c@[0] != seq!['.'][0]);
        }
        if dotdot {
            assert(c@ =~= seq!['.', '.']);
        } else if c.len() == 2 {
            assert(c@[0] != seq!['.', '.'][0] || c@[1] != seq!['.', '.'][1]);
        }
    }
    !dot && !dotdot
}

fn is_skipped(rule: SkipRule, name: &Vec<char>) -> (r: bool)
    ensures
        r == skips(rule, name@),
{
    if !is_plain(name) {
        return false;
    }
    match rule {
        SkipRule::Large => among(name, &crate::scanner::large_files::skip_dir_list()),
        SkipRule::Old => name[0] == '.' || among(name, &crate::scanner::old_files::skip_dir_list()),
        SkipRule::Duplicates => among(name, &crate::scanner::duplicates::skip_dir_list()),
    }
}

fn start_of(base_len: usize) -> (r: usize)
    ensures
        r == walk_start(base_len as int),
{
    if base_len > 0 {
        base_len - 1
    } else {
        0
    }
}

/// Whether a walk that leaves directories out by their names reaches the
/// entry with the given components from its first `base_len` components.
pub fn is_reached_past(comps: &Vec<Vec<char>>, base_len: usize, rule: SkipRule) -> (r: bool)
    ensures
        r == reached_past(texts(comps@), base_len as int, rule),
{
    let mut i: usize = start_of(base_len);
    let last: usize = if comps.len() > 0 {
        comps.len() - 1
    } else {
        0
    };
    while i < last
        invariant
            last == comps.len() - 1 || (last == 0 && comps.len() == 0),
            walk_start(base_len as int) <= i,
            forall|k: int|
                walk_start(base_len as int) <= k < i && k < comps.len() - 1 ==> !skips(
                    rule,
                    #[trigger] texts(comps@)[k],
                ),
        decreases last - i,
    {
        if is_skipped(rule, &comps[i]) {
            assert(skips(rule, texts(comps@)[i as int]));
            return false;
        }
        i += 1;
    }
    true
}

/// Whether a walk for build artifacts reaches the entry with the given
/// components from its first `base_len` components.
pub fn is_reached_by_artifact_walk(comps: &Vec<Vec<char>>, base_len: usize) -> (r: bool)
    ensures
        r == reached_by_artifact_walk(texts(comps@), base_len as int),
{
    let ghost all = texts(comps@);
    let start = start_of(base_len);
    let wanted = chars_of("node_modules");
    let hidden = hidden_dir_list();
    let dotted = comps.len() > 0 && comps[0].len() > 0 && comps[0][0] == '.';
    assert(comps.len() > 0 ==> all[0] == comps@[0]@);
    let mut inside = false;
    let mut i: usize = 0;
    assert(all.take(0) =~= Seq::<Seq<char>>::empty());
    while i < comps.len()
        invariant
            i <= comps.len(),
            all == texts(comps@),
            dotted == begins_with_dot(all),
            wanted@ == "node_modules"@,
            str_views(hidden@) == hidden_artifact_dirs(),
            start == walk_start(base_len as int),
            inside == all.take(i as int).contains("node_modules"@),
            forall|k: int| start <= k < i ==> #[trigger] artifact_walk_enters(all, k),
        decreases comps.len() - i,
    {
        let name = &comps[i];
        let is_modules = same_chars(name, &wanted);
        proof {
            assert(all.take(i + 1) == all.take(i as int).push(all[i as int]));
            assert(all[i as int] == name@);
            let now = all.take(i + 1);
            if inside {
                let k = choose|k: int|
                    0 <= k < all.take(i as int).len() && all.take(i as int)[k] == "node_modules"@;
                assert(now[k] == "node_modules"@);
            }
            if is_modules {
                assert(now[i as int] == "node_modules"@);
            }
            if now.contains("node_modules"@) && !is_modules {
                let k = choose|k: int| 0 <= k < now.len() && now[k] == "node_modules"@;
                assert(k < i);
                assert(all.take(i as int)[k] == "node_modules"@);
            }
            assert(now.contains("node_modules"@) == (inside || is_modules));
        }
        inside = inside || is_modules;
        if i >= start {
            let enters = if is_plain(name) {
                if name[0] == '.' {
                    among(name, &hidden)
                } else {
                    !(inside && !is_modules)
                }
            } else {
                !dotted && !inside
            };
            assert(enters == artifact_walk_enters(all, i as int));
            if !enters {
                return false;
            }
        }
        i += 1;
    }
    true
}

/// Whether an entry with the given components lies where the walk of a
/// scanner from the directory `base` finds it.
pub fn does_fit(
    kind: ScannerKind,
    comps: &Vec<Vec<char>>,
    is_dir: bool,
    base: &Vec<Vec<char>>,
) -> (r: bool)
    ensures
        r == fits(kind, texts(comps@), is_dir, texts(base@)),
{
    if !opens_with(comps, base) {
        return false;
    }
    let depth = comps.len() - base.len();
    match kind {
        ScannerKind::Cache | ScannerKind::Trash => depth == 1,
        ScannerKind::Downloads => 1 <= depth && depth <= DOWNLOADS_MAX_DEPTH,
        ScannerKind::Temp => 1 <= depth && depth <= TEMP_MAX_DEPTH && (!is_dir || depth == 1),
        ScannerKind::OldFiles => depth <= OLD_FILES_MAX_DEPTH && is_reached_past(
            comps,
            base.len(),
            SkipRule::Old,
        ),
        ScannerKind::LargeFiles => is_reached_past(comps, base.len(), SkipRule::Large),
        ScannerKind::Duplicates => is_reached_past(comps, base.len(), SkipRule::Duplicates),
        ScannerKind::BuildArtifacts => is_reached_by_artifact_walk(comps, base.len()),
        ScannerKind::KnownCache | ScannerKind::GlobalCache => true,
    }
}

impl Scope {
    /// Whether the entry at `path` lies where the scanner looks.
    pub fn holds(&self, path: &str, is_dir: bool) -> (r: bool)
        ensures
            r == placed_among(self.kind, components(path@), is_dir, root_views(self.roots@)),
    {
        match self.kind {
            ScannerKind::KnownCache | ScannerKind::GlobalCache => {
                return true;
            },
            _ => {},
        }
        let comps = components_of(path);
        let mut k: usize = 0;
        while k < self.roots.len()
            invariant
                k <= self.roots.len(),
                texts(comps@) == components(path@),
                forall|j: int|
                    0 <= j < k ==> !fits(
                        self.kind,
                        components(path@),
                        is_dir,
                        #[trigger] root_views(self.roots@)[j],
                    ),
            decreases self.roots.len() - k,
        {
            assert(root_views(self.roots@)[k as int] == texts(self.roots@[k as int]@));
            if does_fit(self.kind, &comps, is_dir, &self.roots[k]) {
                return true;
            }
            k += 1;
        }
        false
    }
}

/// The last component of a path is its file name, where it has one; it is
/// no plain name, where it has none.
pub proof fn lemma_last_component(p: Seq<char>)
    requires
        components(p).len() > 0,
    ensures
        match file_name(p) {
            Some(name) => components(p).last() == name && is_plain_name(name),
            None => !is_plain_name(components(p).last()),
        },
{
    lemma_names_nonempty(p);
    lemma_components_index(p);
    let n = names(p);
    if n.len() > 0 {
        assert(n[n.len() - 1].len() > 0);
        if is_rooted(p) {
            assert(components(p)[n.len() - 1 + 1] == n[n.len() - 1]);
        }
        assert(components(p).last() == n.last());
    } else {
        assert(components(p).last().len() == 0);
    }
}

/// A path in whose text no `/` stands, and which is not empty, has its
/// text for its one component.
pub proof fn lemma_single_component(p: Seq<char>)
    requires
        p.len() > 0,
        forall|i: int| 0 <= i < p.len() ==> p[i] != '/',
    ensures
        components(p) == seq![p],
{
    lemma_last_index_is(p, '/', -1);
    assert(p.skip(0) == p);
    assert(Seq::<Seq<char>>::empty().push(p) == seq![p]);
}

/// The text of a path without a root begins as its first component does.
pub proof fn lemma_first_character(p: Seq<char>)
    requires
        p.len() > 0,
        p[0] != '/',
    ensures
        names(p).len() > 0,
        names(p)[0].len() > 0,
        names(p)[0][0] == p[0],
    decreases p.len(),
{
    let k = last_index_of(p, '/');
    lemma_last_index_of(p, '/');
    lemma_names_nonempty(p);
    if k < 0 {
        assert(p.skip(0) == p);
        let tail = p.skip(k + 1);
        assert(tail == p);
        assert(names(p) == Seq::<Seq<char>>::empty().push(p));
        assert(names(p)[0] == p);
    } else {
        assert(k > 0);
        let head = p.take(k);
        assert(head[0] == p[0]);
        lemma_first_character(head);
        let before = names(head);
        assert(names(p)[0] == before[0]);
    }
}

/// Whether a walk leaves a directory out is told by the last component of
/// its path, for each of the walks that leave directories out by name.
pub proof fn lemma_skipping_goes_by_the_last_component(p: Seq<char>)
    requires
        components(p).len() > 0,
    ensures
        named_among(p, large_skip_dirs()) == skips(SkipRule::Large, components(p).last()),
        old_walk_skips(p) == skips(SkipRule::Old, components(p).last()),
        named_among(p, duplicate_skip_dirs()) == skips(SkipRule::Duplicates, components(p).last()),
{
    lemma_last_component(p);
}

/// Whether a walk for build artifacts visits an entry is told by the
/// components of its path: what the walk asks of the path of an entry is
/// what the scanner asks of the last of its components.
pub proof fn lemma_visiting_goes_by_the_components(p: Seq<char>)
    requires
        components(p).len() > 0,
    ensures
        artifact_walk_visits(p) == artifact_walk_enters(components(p), components(p).len() - 1),
{
    let c = components(p);
    let last = c.len() - 1;
    lemma_last_component(p);
    lemma_components_index(p);
    lemma_names_nonempty(p);
    reveal_strlit("node_modules");
    assert(c.take(last + 1) == c);
    // the root is not called node_modules, so it is among the components
    // where it is among the names
    assert(c.contains("node_modules"@) == names(p).contains("node_modules"@)) by {
        if c.contains("node_modules"@) {
            let i = choose|i: int| 0 <= i < c.len() && c[i] == "node_modules"@;
            if is_rooted(p) {
                assert(i > 0);
                assert(names(p)[i - 1] == c[i]);
            }
        }
        if names(p).contains("node_modules"@) {
            let i = choose|i: int| 0 <= i < names(p).len() && names(p)[i] == "node_modules"@;
            if is_rooted(p) {
                assert(c[i + 1] == names(p)[i]);
            } else {
                assert(c[i] == names(p)[i]);
            }
        }
    }
    if file_name(p) is None {
        // the entry goes by its whole path, which is none of the names
        // that the rule knows: each of those is a path of one plain name
        assert(entry_name(p) == p);
        assert(p.len() > 0);
        if p[0] == '/' {
            assert(c[0].len() == 0);
        } else {
            lemma_first_character(p);
            assert(c[0] == names(p)[0]);
        }
        assert(begins_with_dot(c) == (p[0] == '.'));
        lemma_known_names_are_plain();
        if p == "node_modules"@ || hidden_artifact_dirs().contains(p) {
            assert(c == seq![p]);
            assert(c.last() == p);
        }
    }
}

/// Each of the names that the rule for build artifacts knows is a path of
/// one component, which is its text and a plain name.
pub proof fn lemma_known_names_are_plain()
    ensures
        components("node_modules"@) == seq!["node_modules"@] && is_plain_name("node_modules"@),
        forall|name: Seq<char>| #[trigger]
            hidden_artifact_dirs().contains(name) ==> components(name) == seq![name]
                && is_plain_name(name),
{
    reveal_strlit("node_modules");
    reveal_strlit(".next");
    reveal_strlit(".nuxt");
    reveal_strlit(".gradle");
    reveal_strlit(".tox");
    reveal_strlit(".venv");
    reveal_strlit(".pytest_cache");
    lemma_single_component("node_modules"@);
    lemma_single_component(".next"@);
    lemma_single_component(".nuxt"@);
    lemma_single_component(".gradle"@);
    lemma_single_component(".tox"@);
    lemma_single_component(".venv"@);
    lemma_single_component(".pytest_cache"@);
    assert forall|name: Seq<char>| #[trigger] hidden_artifact_dirs().contains(name) implies components(
        name,
    ) == seq![name] && is_plain_name(name) by {
        let list = hidden_artifact_dirs();
        let i = choose|i: int| 0 <= i < list.len() && list[i] == name;
        assert(name == list[i]);
        assert(i == 0 || i == 1 || i == 2 || i == 3 || i == 4 || i == 5);
    }
}

} // verus!
