//! Discovery of proposals: among the directories that a walk has met, those
//! that hold scripts are proposals, and their scripts, in order, are the steps.
//! A path is the list of its components, each a byte string.

use vstd::prelude::*;
use vstd::seq_lib::to_multiset_insert;
use crate::order::{lemma_path_order, path_before, path_lt, path_view};
use crate::pool::{first_where, is_first, lemma_first_where};

verus! {

/// One entry of a directory.
#[derive(Clone, Debug, PartialEq, Eq)]
pub struct Entry {
    /// The path of the entry.
    pub path: Vec<Vec<u8>>,
    /// Whether the entry is a file.
    pub is_file: bool,
}

/// A directory that the walk has met, with the entries directly in it.
#[derive(Clone, Debug, PartialEq, Eq)]
pub struct Directory {
    pub path: Vec<Vec<u8>>,
    pub entries: Vec<Entry>,
}

/// An entry as a mathematical value.
pub struct EntryView {
    pub path: Seq<Seq<u8>>,
    pub is_file: bool,
}

/// A directory as a mathematical value.
pub struct DirectoryView {
    pub path: Seq<Seq<u8>>,
    pub entries: Seq<EntryView>,
}

impl View for Entry {
    type V = EntryView;

    open spec fn view(&self) -> EntryView {
        EntryView { path: path_view(self.path), is_file: self.is_file }
    }
}

impl View for Directory {
    type V = DirectoryView;

    open spec fn view(&self) -> DirectoryView {
        DirectoryView {
            path: path_view(self.path),
            entries: self.entries@.map_values(|e: Entry| e@),
        }
    }
}

/// The paths as mathematical values.
pub open spec fn paths_view(paths: Seq<Vec<Vec<u8>>>) -> Seq<Seq<Seq<u8>>> {
    paths.map_values(|p: Vec<Vec<u8>>| path_view(p))
}

/// The proposals as mathematical values.
pub open spec fn proposals_view(proposals: Seq<(Vec<Vec<u8>>, Vec<Vec<Vec<u8>>>)>) -> Seq<
    (Seq<Seq<u8>>, Seq<Seq<Seq<u8>>>),
> {
    proposals.map_values(
        |p: (Vec<Vec<u8>>, Vec<Vec<Vec<u8>>>)| (path_view(p.0), paths_view(p.1@)),
    )
}

/// The directories as mathematical values.
pub open spec fn directories_view(dirs: Seq<Directory>) -> Seq<DirectoryView> {
    dirs.map_values(|d: Directory| d@)
}

/// The extension of script files, with its dot: `.move`.
pub open spec fn script_suffix() -> Seq<u8> {
    seq![0x2eu8, 0x6du8, 0x6fu8, 0x76u8, 0x65u8]
}

/// Whether the name is that of a script: it ends in `.move`, and has something
/// before that.
pub open spec fn is_script_name(name: Seq<u8>) -> bool {
    name.len() > 5 && name.subrange(name.len() - 5, name.len() as int) == script_suffix()
}

/// Whether the entry is a script: a file whose name, the last component of its
/// path, is that of a script.
pub open spec fn is_script(entry: EntryView) -> bool {
    entry.is_file && entry.path.len() > 0 && is_script_name(entry.path.last())
}

/// The paths of the scripts among the entries, in the order of the entries.
pub open spec fn script_paths(entries: Seq<EntryView>) -> Seq<Seq<Seq<u8>>>
    decreases entries.len(),
{
    if entries.len() == 0 {
        Seq::empty()
    } else if is_script(entries.last()) {
        script_paths(entries.drop_last()).push(entries.last().path)
    } else {
        script_paths(entries.drop_last())
    }
}

/// The key by which paths are sorted: the path itself.
pub open spec fn path_key() -> spec_fn(Seq<Seq<u8>>) -> Seq<Seq<u8>> {
    |p: Seq<Seq<u8>>| p
}

/// The key by which proposals are sorted: the path of the directory.
pub open spec fn dir_key() -> spec_fn((Seq<Seq<u8>>, Seq<Seq<Seq<u8>>>)) -> Seq<Seq<u8>> {
    |p: (Seq<Seq<u8>>, Seq<Seq<Seq<u8>>>)| p.0
}

/// Whether the key of the element at an index is not before the key of `x`.
pub open spec fn not_before<T>(s: Seq<T>, x: T, key: spec_fn(T) -> Seq<Seq<u8>>) -> spec_fn(
    int,
) -> bool {
    |i: int| !path_lt(key(s[i]), key(x))
}

/// Where `x` goes into the sorted sequence `s`: before the first element whose
/// key is not before its own.
pub open spec fn insertion_point<T>(s: Seq<T>, x: T, key: spec_fn(T) -> Seq<Seq<u8>>) -> int {
    first_where(s.len(), not_before(s, x, key))
}

/// The elements of `s`, sorted by their keys. Elements of the same key keep
/// their order.
pub open spec fn sorted<T>(s: Seq<T>, key: spec_fn(T) -> Seq<Seq<u8>>) -> Seq<T>
    decreases s.len(),
{
    if s.len() == 0 {
        s
    } else {
        let rest = sorted(s.drop_first(), key);
        rest.insert(insertion_point(rest, s.first(), key), s.first())
    }
}

/// No element has a key before the key of an element that precedes it.
pub open spec fn is_sorted<T>(s: Seq<T>, key: spec_fn(T) -> Seq<Seq<u8>>) -> bool {
    forall|i: int, j: int| 0 <= i < j < s.len() ==> !path_lt(key(s[j]), key(s[i]))
}

/// What is sorted is in order, and holds what was there to sort, each element as
/// often as it was there.
pub proof fn lemma_sorted<T>(s: Seq<T>, key: spec_fn(T) -> Seq<Seq<u8>>)
    ensures
        is_sorted(sorted(s, key), key),
        sorted(s, key).len() == s.len(),
        sorted(s, key).to_multiset() == s.to_multiset(),
    decreases s.len(),
{
    if s.len() == 0 {
    } else {
        let x = s.first();
        let rest = sorted(s.drop_first(), key);
        lemma_sorted(s.drop_first(), key);
        let k = insertion_point(rest, x, key);
        lemma_first_where(rest.len(), not_before(rest, x, key));
        lemma_path_order();
        let out = rest.insert(k, x);
        assert forall|i: int, j: int| 0 <= i < j < out.len() implies !path_lt(
            key(out[j]),
            key(out[i]),
        ) by {
            if j < k {
                assert(out[i] == rest[i] && out[j] == rest[j]);
            } else if j == k {
                // the elements before the insertion point are before `x`
                assert(out[i] == rest[i]);
                assert(!not_before(rest, x, key)(i));
            } else if i < k {
                assert(out[i] == rest[i] && out[j] == rest[j - 1]);
            } else if i == k {
                // `x` is not after the element at the insertion point
                assert(out[j] == rest[j - 1]);
                assert(not_before(rest, x, key)(k));
                if j - 1 > k {
                    assert(!path_lt(key(rest[j - 1]), key(rest[k])));
                }
                if path_lt(key(rest[j - 1]), key(x)) {
                    if key(rest[j - 1]) != key(rest[k]) {
                        assert(path_lt(key(rest[k]), key(rest[j - 1])));
                        assert(path_lt(key(rest[k]), key(x)));
                    }
                }
            } else {
                assert(out[i] == rest[i - 1] && out[j] == rest[j - 1]);
            }
        }
        to_multiset_insert(rest, k, x);
        assert(s =~= s.drop_first().insert(0, x));
        to_multiset_insert(s.drop_first(), 0, x);
    }
}

/// Whether the name is that of a script.
pub fn has_script_name(name: &Vec<u8>) -> (r: bool)
    ensures
        r == is_script_name(name@),
{
    let n: usize = name.len();
    if n <= 5 {
        return false;
    }
    let r = name[n - 5] == 0x2e && name[n - 4] == 0x6d && name[n - 3] == 0x6f && name[n - 2]
        == 0x76 && name[n - 1] == 0x65;
    proof {
        let tail = name@.subrange(n - 5, n as int);
        if r {
            assert(tail =~= script_suffix());
        } else {
            assert(tail[0] == name@[n - 5]);
            assert(tail[1] == name@[n - 4]);
            assert(tail[2] == name@[n - 3]);
            assert(tail[3] == name@[n - 2]);
            assert(tail[4] == name@[n - 1]);
        }
    }
    r
}

/// A copy of a byte string.
fn clone_bytes(bytes: &Vec<u8>) -> (r: Vec<u8>)
    ensures
        r@ == bytes@,
{
    bytes.clone()
}

/// A copy of a path.
fn clone_path(path: &Vec<Vec<u8>>) -> (r: Vec<Vec<u8>>)
    ensures
        path_view(r) == path_view(*path),
{
    let mut r: Vec<Vec<u8>> = Vec::new();
    let mut i: usize = 0;
    while i < path.len()
        invariant
            i <= path.len(),
            r.len() == i,
            forall|j: int| 0 <= j < i ==> r@[j]@ == path@[j]@,
        decreases path.len() - i,
    {
        r.push(clone_bytes(&path[i]));
        i += 1;
    }
    assert(path_view(r) =~= path_view(*path));
    r
}

/// The paths of the scripts among the entries of a directory.
fn script_files(entries: &Vec<Entry>) -> (r: Vec<Vec<Vec<u8>>>)
    ensures
        paths_view(r@) == script_paths(entries@.map_values(|e: Entry| e@)),
{
    let ghost views = entries@.map_values(|e: Entry| e@);
    let mut r: Vec<Vec<Vec<u8>>> = Vec::new();
    let mut i: usize = 0;
    while i < entries.len()
        invariant
            i <= entries.len(),
            views == entries@.map_values(|e: Entry| e@),
            paths_view(r@) == script_paths(views.take(i as int)),
        decreases entries.len() - i,
    {
        let entry = &entries[i];
        proof {
            assert(views.take(i as int + 1).drop_last() =~= views.take(i as int));
            assert(views.take(i as int + 1).last() == entry@);
        }
        let n: usize = entry.path.len();
        if entry.is_file && n > 0 && has_script_name(&entry.path[n - 1]) {
            let ghost before = r@;
            let path = clone_path(&entry.path);
            r.push(path);
            assert(paths_view(r@) =~= paths_view(before).push(entry@.path));
        }
        i += 1;
    }
    assert(views.take(i as int) =~= views);
    r
}

/// Sorts paths.
pub fn sort_paths(paths: Vec<Vec<Vec<u8>>>) -> (r: Vec<Vec<Vec<u8>>>)
    ensures
        paths_view(r@) == sorted(paths_view(paths@), path_key()),
{
    let ghost all = paths_view(paths@);
    let mut rest = paths;
    let mut out: Vec<Vec<Vec<u8>>> = Vec::new();
    assert(all.subrange(rest.len() as int, all.len() as int) =~= Seq::empty());
    assert(paths_view(out@) =~= Seq::empty());
    while rest.len() > 0
        invariant
            rest.len() <= all.len(),
            paths_view(rest@) == all.take(rest.len() as int),
            paths_view(out@) == sorted(
                all.subrange(rest.len() as int, all.len() as int),
                path_key(),
            ),
        decreases rest.len(),
    {
        let ghost n = rest.len() as int;
        let ghost done = all.subrange(n, all.len() as int);
        let x = match rest.pop() {
            Some(x) => x,
            None => unreached(),
        };
        let ghost sorted_done = paths_view(out@);
        let ghost stays = not_before(sorted_done, path_view(x), path_key());
        let mut k: usize = 0;
        while k < out.len() && path_before(&out[k], &x)
            invariant
                k <= out.len(),
                sorted_done == paths_view(out@),
                stays == not_before(sorted_done, path_view(x), path_key()),
                forall|j: int| 0 <= j < k ==> !#[trigger] stays(j),
            decreases out.len() - k,
        {
            assert(!stays(k as int));
            k += 1;
        }
        proof {
            if k < out.len() {
                assert(stays(k as int));
            }
            lemma_first_where(sorted_done.len(), stays);
            assert(is_first(sorted_done.len(), stays, k as int));
            let next = all.subrange(n - 1, all.len() as int);
            assert(paths_view(rest@) =~= all.take(n - 1));
            assert(all[n - 1] == path_view(x)) by {
                assert(all.take(n)[n - 1] == all[n - 1]);
            }
            assert(next.first() == path_view(x));
            assert(next.drop_first() =~= done);
        }
        let ghost before = out@;
        out.insert(k, x);
        assert(paths_view(out@) =~= paths_view(before).insert(k as int, path_view(x)));
    }
    assert(all.subrange(0, all.len() as int) =~= all);
    out
}

/// Sorts proposals by the paths of their directories.
pub fn sort_proposals(proposals: Vec<(Vec<Vec<u8>>, Vec<Vec<Vec<u8>>>)>) -> (r: Vec<
    (Vec<Vec<u8>>, Vec<Vec<Vec<u8>>>),
>)
    ensures
        proposals_view(r@) == sorted(proposals_view(proposals@), dir_key()),
{
    let ghost all = proposals_view(proposals@);
    let mut rest = proposals;
    let mut out: Vec<(Vec<Vec<u8>>, Vec<Vec<Vec<u8>>>)> = Vec::new();
    assert(all.subrange(rest.len() as int, all.len() as int) =~= Seq::empty());
    assert(proposals_view(out@) =~= Seq::empty());
    while rest.len() > 0
        invariant
            rest.len() <= all.len(),
            proposals_view(rest@) == all.take(rest.len() as int),
            proposals_view(out@) == sorted(
                all.subrange(rest.len() as int, all.len() as int),
                dir_key(),
            ),
        decreases rest.len(),
    {
        let ghost n = rest.len() as int;
        let ghost done = all.subrange(n, all.len() as int);
        let x = match rest.pop() {
            Some(x) => x,
            None => unreached(),
        };
        let ghost xv = (path_view(x.0), paths_view(x.1@));
        let ghost sorted_done = proposals_view(out@);
        let ghost stays = not_before(sorted_done, xv, dir_key());
        let mut k: usize = 0;
        while k < out.len() && path_before(&out[k].0, &x.0)
            invariant
                k <= out.len(),
                sorted_done == proposals_view(out@),
                xv == (path_view(x.0), paths_view(x.1@)),
                stays == not_before(sorted_done, xv, dir_key()),
                forall|j: int| 0 <= j < k ==> !#[trigger] stays(j),
            decreases out.len() - k,
        {
            assert(!stays(k as int));
            k += 1;
        }
        proof {
            if k < out.len() {
                assert(stays(k as int));
            }
            lemma_first_where(sorted_done.len(), stays);
            assert(is_first(sorted_done.len(), stays, k as int));
            let next = all.subrange(n - 1, all.len() as int);
            assert(proposals_view(rest@) =~= all.take(n - 1));
            assert(all[n - 1] == xv) by {
                assert(all.take(n)[n - 1] == all[n - 1]);
            }
            assert(next.first() == xv);
            assert(next.drop_first() =~= done);
        }
        let ghost before = out@;
        out.insert(k, x);
        assert(proposals_view(out@) =~= proposals_view(before).insert(k as int, xv));
    }
    assert(all.subrange(0, all.len() as int) =~= all);
    out
}

/// The directories that hold scripts, each with its scripts in order, in the
/// order in which the walk has met the directories.
pub open spec fn found_proposals(dirs: Seq<DirectoryView>) -> Seq<
    (Seq<Seq<u8>>, Seq<Seq<Seq<u8>>>),
>
    decreases dirs.len(),
{
    if dirs.len() == 0 {
        Seq::empty()
    } else {
        let scripts = script_paths(dirs.last().entries);
        if scripts.len() > 0 {
            found_proposals(dirs.drop_last()).push(
                (dirs.last().path, sorted(scripts, path_key())),
            )
        } else {
            found_proposals(dirs.drop_last())
        }
    }
}

/// The proposals among the directories: those that hold scripts, sorted by
/// their paths, each with its scripts sorted by their paths.
pub open spec fn proposals_of(dirs: Seq<DirectoryView>) -> Seq<(Seq<Seq<u8>>, Seq<Seq<Seq<u8>>>)> {
    sorted(found_proposals(dirs), dir_key())
}

/// Collects the proposals among the directories that a walk has met: every
/// directory that holds a script file is a proposal, and its scripts are its
/// steps. Proposals and steps come out sorted by their paths.
pub fn collect_proposals(dirs: &Vec<Directory>) -> (result: Vec<
    (Vec<Vec<u8>>, Vec<Vec<Vec<u8>>>),
>)
    ensures
        proposals_view(result@) == proposals_of(directories_view(dirs@)),
{
    let ghost views = directories_view(dirs@);
    let mut found: Vec<(Vec<Vec<u8>>, Vec<Vec<Vec<u8>>>)> = Vec::new();
    let mut i: usize = 0;
    assert(proposals_view(found@) =~= found_proposals(views.take(0)));
    while i < dirs.len()
        invariant
            i <= dirs.len(),
            views == directories_view(dirs@),
            proposals_view(found@) == found_proposals(views.take(i as int)),
        decreases dirs.len() - i,
    {
        let dir = &dirs[i];
        proof {
            assert(views.take(i as int + 1).drop_last() =~= views.take(i as int));
            assert(views.take(i as int + 1).last() == dir@);
        }
        let move_files = script_files(&dir.entries);
        if move_files.len() > 0 {
            let move_files = sort_paths(move_files);
            let ghost before = found@;
            let path = clone_path(&dir.path);
            found.push((path, move_files));
            assert(proposals_view(found@) =~= proposals_view(before).push(
                (dir@.path, paths_view(move_files@)),
            ));
        }
        i += 1;
    }
    assert(views.take(i as int) =~= views);
    sort_proposals(found)
}

/// Discovery ordering: the proposals come out in the order of their paths,
/// and so do the scripts of each; every proposal has a script; and the
/// proposals are the directories that hold scripts, each as often as the walk
/// has met it.
pub proof fn lemma_discovery_order(dirs: Seq<DirectoryView>)
    ensures
        is_sorted(proposals_of(dirs), dir_key()),
        forall|i: int|
            0 <= i < proposals_of(dirs).len() ==> {
                &&& (#[trigger] proposals_of(dirs)[i]).1.len() > 0
                &&& is_sorted(proposals_of(dirs)[i].1, path_key())
            },
        proposals_of(dirs).to_multiset() == found_proposals(dirs).to_multiset(),
{
    lemma_sorted(found_proposals(dirs), dir_key());
    lemma_found_proposals(dirs);
    let out = proposals_of(dirs);
    assert forall|i: int| 0 <= i < out.len() implies {
        &&& (#[trigger] out[i]).1.len() > 0
        &&& is_sorted(out[i].1, path_key())
    } by {
        vstd::seq_lib::to_multiset_contains(out, out[i]);
        vstd::seq_lib::to_multiset_contains(found_proposals(dirs), out[i]);
        assert(out.contains(out[i]));
        assert(found_proposals(dirs).contains(out[i]));
    }
}

/// Every directory that is found has scripts, in order.
proof fn lemma_found_proposals(dirs: Seq<DirectoryView>)
    ensures
        forall|p: (Seq<Seq<u8>>, Seq<Seq<Seq<u8>>>)| #[trigger]
            found_proposals(dirs).contains(p) ==> p.1.len() > 0 && is_sorted(p.1, path_key()),
    decreases dirs.len(),
{
    if dirs.len() > 0 {
        lemma_found_proposals(dirs.drop_last());
        let scripts = script_paths(dirs.last().entries);
        lemma_sorted(scripts, path_key());
        let rest = found_proposals(dirs.drop_last());
        assert forall|p: (Seq<Seq<u8>>, Seq<Seq<Seq<u8>>>)| #[trigger]
            found_proposals(dirs).contains(p) implies p.1.len() > 0 && is_sorted(
            p.1,
            path_key(),
        ) by {
            let i = choose|i: int| 0 <= i < found_proposals(dirs).len() && found_proposals(dirs)[i] == p;
            if i < rest.len() {
                assert(rest[i] == p);
                assert(rest.contains(p));
            }
        }
    }
}

} // verus!
