//! Paths as text.
//!
//! A path is read as a sequence of components separated by `/`. Empty
//! components and `.` components are dropped, except a `.` that opens a
//! relative path; `..` is kept as it stands and is never resolved. A leading
//! `/` is the root, which is written here as the empty component. All
//! relations between paths are relations between their components.

use crate::text::{
    append_chars, chars_of, find_last, last_index_of, lemma_last_index_is, lemma_last_index_of,
    same_chars, text_of, text_of_range,
};
use vstd::prelude::*;

verus! {

/// Whether the path starts at the root.
pub open spec fn is_rooted(p: Seq<char>) -> bool {
    p.len() > 0 && p[0] == '/'
}

/// The components of `p` below the root, in order.
pub open spec fn names(p: Seq<char>) -> Seq<Seq<char>>
    decreases p.len(),
{
    if p.len() == 0 {
        Seq::empty()
    } else {
        let k = last_index_of(p, '/');
        let tail = p.skip(k + 1);
        let before = if 0 <= k < p.len() {
            names(p.take(k))
        } else {
            Seq::empty()
        };
        if tail.len() == 0 || (k >= 0 && tail == seq!['.']) {
            before
        } else {
            before.push(tail)
        }
    }
}

/// The components of `p`; the root, if `p` has one, is the empty component
/// at the front.
pub open spec fn components(p: Seq<char>) -> Seq<Seq<char>> {
    if is_rooted(p) {
        seq![Seq::<char>::empty()] + names(p)
    } else {
        names(p)
    }
}

/// Two texts name the same path.
pub open spec fn same_path(a: Seq<char>, b: Seq<char>) -> bool {
    components(a) == components(b)
}

/// `p` is `base` or lies below it: the components of `base` open those of `p`.
pub open spec fn is_within(p: Seq<char>, base: Seq<char>) -> bool {
    components(base).is_prefix_of(components(p))
}

/// `p` is an immediate child of `dir`: dropping the last component of `p`,
/// which is not the root, leaves `dir`.
pub open spec fn is_child_of(p: Seq<char>, dir: Seq<char>) -> bool {
    let c = components(p);
    c.len() > 0 && c.last().len() > 0 && c.drop_last() == components(dir)
}

/// The last component of `p`, unless `p` has none or ends in `.` or `..`.
pub open spec fn file_name(p: Seq<char>) -> Option<Seq<char>> {
    let n = names(p);
    if n.len() > 0 && n.last() != seq!['.'] && n.last() != seq!['.', '.'] {
        Some(n.last())
    } else {
        None
    }
}

/// The name of the directory that holds `p`: the component before the last,
/// unless there is none or it is `.` or `..`.
pub open spec fn parent_name(p: Seq<char>) -> Option<Seq<char>> {
    let n = names(p);
    if n.len() >= 2 && n[n.len() - 2] != seq!['.'] && n[n.len() - 2] != seq!['.', '.'] {
        Some(n[n.len() - 2])
    } else {
        None
    }
}

/// The name by which a walk knows the entry at `p`: its file name, or the
/// whole path where it has none.
pub open spec fn entry_name(p: Seq<char>) -> Seq<char> {
    match file_name(p) {
        Some(name) => name,
        None => p,
    }
}

/// What follows the last `.` of the file name, if the name has a `.` that
/// is not its first character.
pub open spec fn extension(p: Seq<char>) -> Option<Seq<char>> {
    match file_name(p) {
        None => None,
        Some(f) => {
            let k = last_index_of(f, '.');
            if k <= 0 {
                None
            } else {
                Some(f.skip(k + 1))
            }
        },
    }
}

/// The file name of `p` begins with a `.`.
pub open spec fn is_hidden(p: Seq<char>) -> bool {
    match file_name(p) {
        None => false,
        Some(f) => f.len() > 0 && f[0] == '.',
    }
}

/// The path `rel` taken from `base`: `rel` itself if it is rooted or `base`
/// is empty, else `base`, a `/` unless `base` ends in one, and `rel`.
pub open spec fn join(base: Seq<char>, rel: Seq<char>) -> Seq<char> {
    if is_rooted(rel) || base.len() == 0 {
        rel
    } else if base.last() == '/' {
        base + rel
    } else {
        base + seq!['/'] + rel
    }
}

/// The texts of a sequence of character vectors.
pub open spec fn texts(v: Seq<Vec<char>>) -> Seq<Seq<char>> {
    v.map_values(|x: Vec<char>| x@)
}

/// A `/` at the end of a path adds no component.
pub proof fn lemma_names_after_slash(s: Seq<char>)
    ensures
        names(s.push('/')) == names(s),
{
    let t = s.push('/');
    assert(t.last() == '/');
    assert(last_index_of(t, '/') == s.len());
    assert(t.take(s.len() as int) == s);
    assert(t.skip(s.len() as int + 1).len() == 0);
}

/// The names of a text whose last `/` is at `k` are those before `k`, then
/// what follows `k` if that is a component.
pub proof fn lemma_names_last_segment(s: Seq<char>, k: int)
    requires
        s.len() > 0,
        -1 <= k < s.len(),
        k >= 0 ==> s[k] == '/',
        forall|i: int| k < i < s.len() ==> s[i] != '/',
    ensures
        names(s) == {
            let tail = s.skip(k + 1);
            let before = if k >= 0 {
                names(s.take(k))
            } else {
                Seq::empty()
            };
            if tail.len() == 0 || (k >= 0 && tail == seq!['.']) {
                before
            } else {
                before.push(tail)
            }
        },
{
    lemma_last_index_is(s, '/', k);
}

fn is_dot(v: &Vec<char>) -> (r: bool)
    ensures
        r == (v@ == seq!['.']),
{
    let r = v.len() == 1 && v[0] == '.';
    if r {
        assert(v@ =~= seq!['.']);
    } else if v.len() == 1 {
        assert(v@[0] != seq!['.'][0]);
    }
    r
}

fn is_dotdot(v: &Vec<char>) -> (r: bool)
    ensures
        r == (v@ == seq!['.', '.']),
{
    let r = v.len() == 2 && v[0] == '.' && v[1] == '.';
    if r {
        assert(v@ =~= seq!['.', '.']);
    } else if v.len() == 2 {
        assert(v@[0] != seq!['.', '.'][0] || v@[1] != seq!['.', '.'][1]);
    }
    r
}

/// The components of a path, the root included.
pub fn components_of(path: &str) -> (out: Vec<Vec<char>>)
    ensures
        texts(out@) == components(path@),
{
    let p = chars_of(path);
    let n = p.len();
    let rooted = n > 0 && p[0] == '/';
    let mut out: Vec<Vec<char>> = Vec::new();
    if rooted {
        out.push(Vec::new());
    }
    let ghost lead = texts(out@);
    assert(lead == if rooted {
        seq![Seq::<char>::empty()]
    } else {
        Seq::<Seq<char>>::empty()
    });
    let mut cur: Vec<char> = Vec::new();
    let mut start: usize = 0;
    let mut i: usize = 0;
    assert(p@.take(0) == Seq::<char>::empty());
    assert(texts(out@) == lead + names(p@.take(0)));
    while i < n
        invariant
            n == p.len(),
            start <= i <= n,
            cur@ == p@.subrange(start as int, i as int),
            forall|j: int| start <= j < i ==> p@[j] != '/',
            start > 0 ==> p@[start - 1] == '/',
            texts(out@) == lead + names(p@.take(start as int)),
        decreases n - i,
    {
        let c = p[i];
        if c == '/' {
            proof {
                let t = p@.take(i as int);
                if i > start {
                    lemma_names_last_segment(t, start - 1);
                    assert(t.skip(start as int) == cur@);
                    if start > 0 {
                        assert(t.take(start - 1) == p@.take(start - 1));
                        lemma_names_after_slash(p@.take(start - 1));
                        assert(p@.take(start - 1).push('/') == p@.take(start as int));
                    }
                }
                lemma_names_after_slash(t);
                assert(t.push('/') == p@.take(i + 1));
            }
            let keep = cur.len() > 0 && !(start > 0 && is_dot(&cur));
            if keep {
                let ghost before = out@;
                out.push(cur);
                assert(texts(out@) == texts(before).push(cur@));
                cur = Vec::new();
            } else {
                cur = Vec::new();
            }
            start = i + 1;
            i += 1;
            assert(cur@ == p@.subrange(start as int, i as int));
        } else {
            cur.push(c);
            i += 1;
            assert(cur@ == p@.subrange(start as int, i as int));
        }
    }
    proof {
        assert(p@.take(n as int) == p@);
        if n > start {
            lemma_names_last_segment(p@, start - 1);
            assert(p@.skip(start as int) == cur@);
            if start > 0 {
                lemma_names_after_slash(p@.take(start - 1));
                assert(p@.take(start - 1).push('/') == p@.take(start as int));
            }
        }
    }
    let keep = cur.len() > 0 && !(start > 0 && is_dot(&cur));
    if keep {
        let ghost before = out@;
        out.push(cur);
        assert(texts(out@) == texts(before).push(cur@));
    }
    out
}

/// No component below the root is empty.
pub proof fn lemma_names_nonempty(p: Seq<char>)
    ensures
        forall|i: int| 0 <= i < names(p).len() ==> (#[trigger] names(p)[i]).len() > 0,
    decreases p.len(),
{
    if p.len() > 0 {
        let k = last_index_of(p, '/');
        lemma_last_index_of(p, '/');
        let tail = p.skip(k + 1);
        let before = if 0 <= k < p.len() {
            names(p.take(k))
        } else {
            Seq::empty()
        };
        if 0 <= k < p.len() {
            lemma_names_nonempty(p.take(k));
        }
        assert forall|i: int| 0 <= i < names(p).len() implies (#[trigger] names(p)[i]).len()
            > 0 by {
            if i < before.len() {
                assert(names(p)[i] == before[i]);
            } else {
                assert(names(p)[i] == tail);
            }
        }
    }
}

/// Whether the components `b` open the components `a`.
pub fn opens_with(a: &Vec<Vec<char>>, b: &Vec<Vec<char>>) -> (r: bool)
    ensures
        r == texts(b@).is_prefix_of(texts(a@)),
{
    let n = b.len();
    if n > a.len() {
        return false;
    }
    let mut i: usize = 0;
    while i < n
        invariant
            i <= n,
            n == b.len(),
            n <= a.len(),
            texts(a@).take(i as int) == texts(b@).take(i as int),
        decreases n - i,
    {
        if !same_chars(&a[i], &b[i]) {
            assert(texts(a@).subrange(0, n as int)[i as int] != texts(b@)[i as int]);
            return false;
        }
        assert(texts(a@).take(i + 1) == texts(a@).take(i as int).push(a@[i as int]@));
        assert(texts(b@).take(i + 1) == texts(b@).take(i as int).push(b@[i as int]@));
        i += 1;
    }
    assert(texts(b@).take(n as int) == texts(b@));
    assert(texts(a@).take(n as int) == texts(a@).subrange(0, n as int));
    true
}

/// Whether two lists of components are the same.
pub fn same_components(x: &Vec<Vec<char>>, y: &Vec<Vec<char>>) -> (r: bool)
    ensures
        r == (texts(x@) == texts(y@)),
{
    if x.len() != y.len() {
        assert(texts(x@).len() != texts(y@).len());
        return false;
    }
    if x.len() > 0 && !same_chars(&x[x.len() - 1], &y[y.len() - 1]) {
        // paths most often differ in their last component
        assert(texts(x@)[x.len() - 1] != texts(y@)[y.len() - 1]);
        return false;
    }
    let r = opens_with(x, y);
    assert(texts(x@).subrange(0, texts(y@).len() as int) == texts(x@));
    r
}

/// Whether `a` and `b` name the same path.
pub fn paths_equal(a: &str, b: &str) -> (r: bool)
    ensures
        r == same_path(a@, b@),
{
    let x = components_of(a);
    let y = components_of(b);
    same_components(&x, &y)
}

/// Whether `p` is `base` or lies below it.
pub fn path_is_within(p: &str, base: &str) -> (r: bool)
    ensures
        r == is_within(p@, base@),
{
    let x = components_of(p);
    let y = components_of(base);
    opens_with(&x, &y)
}

/// Whether `p` is an immediate child of `dir`.
pub fn path_is_child_of(p: &str, dir: &str) -> (r: bool)
    ensures
        r == is_child_of(p@, dir@),
{
    let x = components_of(p);
    let y = components_of(dir);
    if x.len() == 0 {
        return false;
    }
    if x[x.len() - 1].len() == 0 {
        assert(texts(x@).last() == x@[x.len() - 1]@);
        return false;
    }
    assert(texts(x@).last() == x@[x.len() - 1]@);
    if y.len() != x.len() - 1 {
        assert(texts(x@).drop_last().len() != texts(y@).len());
        return false;
    }
    let r = opens_with(&x, &y);
    assert(texts(x@).drop_last() == texts(x@).subrange(0, texts(y@).len() as int));
    r
}

/// The file name of `p`.
pub fn file_name_of(p: &str) -> (r: Option<String>)
    ensures
        match r {
            Some(name) => file_name(p@) == Some(name@),
            None => file_name(p@) is None,
        },
{
    match file_name_chars(p) {
        Some(name) => Some(text_of(&name)),
        None => None,
    }
}

/// The characters of the file name of `p`.
pub fn file_name_chars(p: &str) -> (r: Option<Vec<char>>)
    ensures
        match r {
            Some(name) => file_name(p@) == Some(name@),
            None => file_name(p@) is None,
        },
{
    let mut x = components_of(p);
    let ghost all = texts(x@);
    proof {
        lemma_names_nonempty(p@);
    }
    match x.pop() {
        None => {
            assert(all.len() == 0);
            assert(components(p@).len() == 0);
            assert(names(p@).len() == 0);
            None
        },
        Some(name) => {
            assert(all.last() == name@);
            if name.len() == 0 {
                // the root alone
                proof {
                    if names(p@).len() > 0 {
                        assert(components(p@).last() == names(p@).last());
                        assert(names(p@)[names(p@).len() - 1].len() > 0);
                    }
                }
                None
            } else {
                proof {
                    if is_rooted(p@) && names(p@).len() == 0 {
                        assert(components(p@).last().len() == 0);
                    }
                    assert(names(p@).len() > 0);
                    assert(components(p@).last() == names(p@).last());
                }
                if is_dot(&name) || is_dotdot(&name) {
                    None
                } else {
                    Some(name)
                }
            }
        },
    }
}

/// The extension of the file name of `p`.
pub fn extension_of(p: &str) -> (r: Option<String>)
    ensures
        match r {
            Some(ext) => extension(p@) == Some(ext@),
            None => extension(p@) is None,
        },
{
    match file_name_chars(p) {
        None => None,
        Some(name) => match find_last(&name, '.') {
            None => None,
            Some(k) => {
                if k == 0 {
                    None
                } else {
                    let ext = text_of_range(&name, k + 1, name.len());
                    assert(name@.skip(k + 1) == name@.subrange(k + 1, name.len() as int));
                    Some(ext)
                }
            },
        },
    }
}

/// Whether the file name of `p` begins with a `.`.
pub fn path_is_hidden(p: &str) -> (r: bool)
    ensures
        r == is_hidden(p@),
{
    match file_name_chars(p) {
        None => false,
        Some(name) => name.len() > 0 && name[0] == '.',
    }
}

/// How the components of `p` and its names correspond: the names follow the
/// root, where there is one.
pub proof fn lemma_components_index(p: Seq<char>)
    ensures
        is_rooted(p) ==> components(p).len() == names(p).len() + 1 && components(p)[0].len()
            == 0,
        !is_rooted(p) ==> components(p) == names(p),
        forall|i: int|
            is_rooted(p) && 0 <= i < names(p).len() ==> #[trigger] names(p)[i] == components(
                p,
            )[i + 1],
{
    if is_rooted(p) {
        let root = seq![Seq::<char>::empty()];
        assert(components(p) == root + names(p));
        assert forall|i: int| 0 <= i < names(p).len() implies #[trigger] names(p)[i]
            == components(p)[i + 1] by {
            assert((root + names(p))[i + 1] == names(p)[i]);
        }
    }
}

/// Whether one of the components of `p` below the root is `name`.
pub fn has_component(p: &str, name: &str) -> (r: bool)
    ensures
        r == names(p@).contains(name@),
{
    let x = components_of(p);
    let wanted = chars_of(name);
    proof {
        lemma_names_nonempty(p@);
        lemma_components_index(p@);
    }
    if wanted.len() == 0 {
        assert(!names(p@).contains(name@)) by {
            if names(p@).contains(name@) {
                let i = choose|i: int| 0 <= i < names(p@).len() && names(p@)[i] == name@;
                assert(names(p@)[i].len() > 0);
            }
        }
        return false;
    }
    let mut i: usize = 0;
    while i < x.len()
        invariant
            i <= x.len(),
            wanted@ == name@,
            wanted@.len() > 0,
            texts(x@) == components(p@),
            is_rooted(p@) ==> components(p@).len() == names(p@).len() + 1 && components(
                p@,
            )[0].len() == 0,
            !is_rooted(p@) ==> components(p@) == names(p@),
            forall|i: int|
                is_rooted(p@) && 0 <= i < names(p@).len() ==> #[trigger] names(p@)[i]
                    == components(p@)[i + 1],
            forall|j: int| 0 <= j < i ==> texts(x@)[j] != name@,
        decreases x.len() - i,
    {
        if same_chars(&x[i], &wanted) {
            proof {
                let c = components(p@);
                assert(c[i as int] == x@[i as int]@);
                assert(c[i as int] == name@);
                if is_rooted(p@) {
                    assert(i > 0);
                    assert(names(p@)[i - 1] == c[i as int]);
                } else {
                    assert(names(p@)[i as int] == c[i as int]);
                }
                assert(names(p@).contains(name@));
            }
            return true;
        }
        i += 1;
    }
    proof {
        if names(p@).contains(name@) {
            let j = choose|j: int| 0 <= j < names(p@).len() && names(p@)[j] == name@;
            if is_rooted(p@) {
                assert(components(p@)[j + 1] == names(p@)[j]);
                assert(texts(x@)[j + 1] != name@);
            } else {
                assert(components(p@)[j] == names(p@)[j]);
                assert(texts(x@)[j] != name@);
            }
        }
    }
    false
}

/// The path `rel` taken from `base`.
pub fn join_paths(base: &str, rel: &str) -> (r: String)
    ensures
        r@ == join(base@, rel@),
{
    let b = chars_of(base);
    let x = chars_of(rel);
    if (x.len() > 0 && x[0] == '/') || b.len() == 0 {
        return text_of(&x);
    }
    let mut out = b;
    if out[out.len() - 1] != '/' {
        out.push('/');
    }
    append_chars(&mut out, &x);
    text_of(&out)
}

/// The characters of the name of the directory that holds `p`.
pub fn parent_name_chars(p: &str) -> (r: Option<Vec<char>>)
    ensures
        match r {
            Some(name) => parent_name(p@) == Some(name@),
            None => parent_name(p@) is None,
        },
{
    let mut x = components_of(p);
    let ghost all = texts(x@);
    proof {
        lemma_names_nonempty(p@);
        lemma_components_index(p@);
    }
    let rooted = x.len() > 0 && x[0].len() == 0;
    proof {
        if x.len() > 0 {
            assert(all[0] == x@[0]@);
            if !is_rooted(p@) {
                assert(names(p@)[0].len() > 0);
            }
        }
        assert(rooted == is_rooted(p@));
    }
    let lead: usize = if rooted {
        1
    } else {
        0
    };
    if x.len() - lead < 2 {
        return None;
    }
    let _last = x.pop();
    match x.pop() {
        None => None,
        Some(name) => {
            proof {
                let n = names(p@);
                assert(name@ == all[all.len() - 2]);
                if is_rooted(p@) {
                    assert(n[n.len() - 2] == components(p@)[n.len() - 2 + 1]);
                }
                assert(name@ == n[n.len() - 2]);
            }
            if is_dot(&name) || is_dotdot(&name) {
                None
            } else {
                Some(name)
            }
        },
    }
}

/// The characters of the name by which a walk knows the entry at `p`.
pub fn entry_name_chars(p: &str) -> (r: Vec<char>)
    ensures
        r@ == entry_name(p@),
{
    match file_name_chars(p) {
        Some(name) => name,
        None => chars_of(p),
    }
}

} // verus!
