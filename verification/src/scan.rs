//! Walking a directory tree: what is visited, recorded and skipped.

use vstd::prelude::*;
use crate::error::{Error, ErrorOf, Failure};
use crate::number::{append_number, decimal};
use crate::settings::home_dir;
use crate::store::FileRecord;

verus! {

/// The directory to scan: the named one, or else the home directory, which is
/// only looked at then.
pub fn scan_directory<P>(named: Option<P>, home: Option<P>) -> (res: Result<P, Error>)
    ensures
        match res {
            Ok(root) => match named {
                Some(path) => root == path,
                None => home == Some(root),
            },
            Err(error) => named is None && home is None && error@ == Failure::HomeMissing,
        },
{
    match named {
        Some(path) => Ok(path),
        None => home_dir(home),
    }
}

/// Checks that the directory to scan is there.
pub fn check_root(root: &str, exists: bool) -> (res: Result<(), Error>)
    ensures
        match res {
            Ok(_) => exists,
            Err(error) => !exists && error@ == (Failure::ScanRootMissing { root: root@ }),
        },
{
    if exists {
        Ok(())
    } else {
        Err(ErrorOf::ScanRootMissing { root: root.to_owned() })
    }
}

/// A walk through a directory tree.
#[derive(Clone, Debug, PartialEq, Eq)]
pub struct Scan<P> {
    /// The paths that are still to be visited. The last one is visited next.
    pub pending: Vec<P>,
    /// How many entries have been recorded.
    pub count: usize,
    /// How many times something could not be read.
    pub skipped: usize,
}

/// What there is to say of a walk at one moment.
#[verifier::ext_equal]
pub struct Walk<P> {
    pub pending: Seq<P>,
    pub count: nat,
    pub skipped: nat,
}

impl<P> View for Scan<P> {
    type V = Walk<P>;

    open spec fn view(&self) -> Walk<P> {
        Walk { pending: self.pending@, count: self.count as nat, skipped: self.skipped as nat }
    }
}

/// What stands at a path.
pub enum Place<P> {
    /// Nothing that can be looked at.
    Unreadable,
    /// Something that is no directory. A symbolic link is such a thing, whatever
    /// it points to.
    Leaf,
    /// A directory, with the paths in it, if it can be listed. An entry of the
    /// listing that cannot be read has no path.
    Directory(Option<Seq<Option<P>>>),
}

/// The paths in a listing.
pub open spec fn present<P>(listing: Seq<Option<P>>) -> Seq<P>
    decreases listing.len(),
{
    if listing.len() == 0 {
        Seq::empty()
    } else {
        match listing.last() {
            Some(path) => present(listing.drop_last()).push(path),
            None => present(listing.drop_last()),
        }
    }
}

/// How many entries of a listing cannot be read.
pub open spec fn absent<P>(listing: Seq<Option<P>>) -> nat
    decreases listing.len(),
{
    if listing.len() == 0 {
        0
    } else {
        absent(listing.drop_last()) + match listing.last() {
            Some(_) => 0nat,
            None => 1nat,
        }
    }
}

/// The contents of a listing.
pub open spec fn listing_of<P>(listing: Option<Vec<Option<P>>>) -> Option<Seq<Option<P>>> {
    match listing {
        Some(entries) => Some(entries@),
        None => None,
    }
}

/// How many things could not be read when a directory was listed.
pub open spec fn unlisted<P>(listing: Option<Seq<Option<P>>>) -> nat {
    match listing {
        Some(entries) => absent(entries),
        None => 1,
    }
}

/// The walk at its start.
pub open spec fn started<P>(root: P) -> Walk<P> {
    Walk { pending: seq![root], count: 0, skipped: 0 }
}

/// The walk after a path has been taken to be visited.
pub open spec fn taken<P>(walk: Walk<P>) -> Walk<P> {
    Walk { pending: walk.pending.drop_last(), ..walk }
}

/// The walk after the path was looked at.
pub open spec fn looked<P>(walk: Walk<P>, readable: bool) -> Walk<P> {
    if readable {
        Walk { count: walk.count + 1, ..walk }
    } else {
        Walk { skipped: walk.skipped + 1, ..walk }
    }
}

/// The walk after the directory at the path was listed.
pub open spec fn listed_in<P>(walk: Walk<P>, listing: Option<Seq<Option<P>>>) -> Walk<P> {
    Walk {
        pending: match listing {
            Some(entries) => walk.pending + present(entries),
            None => walk.pending,
        },
        count: walk.count,
        skipped: walk.skipped + unlisted(listing),
    }
}

/// The walk after the next path has been visited.
pub open spec fn visit<P>(walk: Walk<P>, place: Place<P>) -> Walk<P> {
    match place {
        Place::Unreadable => looked(taken(walk), false),
        Place::Leaf => looked(taken(walk), true),
        Place::Directory(listing) => listed_in(looked(taken(walk), true), listing),
    }
}

impl<P> Scan<P> {
    /// A walk that starts at a path.
    pub fn new(root: P) -> (res: Scan<P>)
        ensures
            res@ == started(root),
    {
        let mut pending: Vec<P> = Vec::new();
        pending.push(root);
        assert(pending@ =~= seq![root]);
        Scan { pending, count: 0, skipped: 0 }
    }

    /// Takes the path that is visited next. The walk is over if there is none.
    pub fn next(&mut self) -> (res: Option<P>)
        ensures
            match res {
                Some(path) => {
                    &&& old(self)@.pending.len() > 0
                    &&& path == old(self)@.pending.last()
                    &&& final(self)@ == taken(old(self)@)
                },
                None => old(self)@.pending.len() == 0 && final(self)@ == old(self)@,
            },
    {
        self.pending.pop()
    }

    /// Counts the path that is visited: as recorded, if it could be looked at,
    /// and as skipped otherwise. Tells whether it is to be listed, which only a
    /// directory is.
    pub fn looked_at(&mut self, entry: Option<&FileRecord>) -> (res: bool)
        requires
            entry is Some ==> old(self).count < usize::MAX,
            entry is None ==> old(self).skipped < usize::MAX,
        ensures
            final(self)@ == looked(old(self)@, entry is Some),
            res == match entry {
                Some(record) => record.is_dir,
                None => false,
            },
    {
        match entry {
            Some(record) => {
                self.count = self.count + 1;
                record.is_dir
            },
            None => {
                self.skipped = self.skipped + 1;
                false
            },
        }
    }

    /// Adds what a directory holds to the paths that are still to be visited.
    /// What cannot be read is counted as skipped.
    pub fn listed(&mut self, listing: Option<Vec<Option<P>>>)
        requires
            old(self).skipped + unlisted(listing_of(listing)) <= usize::MAX,
        ensures
            final(self)@ == listed_in(old(self)@, listing_of(listing)),
    {
        match listing {
            None => {
                self.skipped = self.skipped + 1;
            },
            Some(entries) => {
                let ghost all = entries@;
                let ghost before = self@;
                for entry in iter: entries
                    invariant
                        iter.seq() == all,
                        self.pending@ == before.pending + present(all.take(iter.index())),
                        self.count == before.count,
                        self.skipped == before.skipped + absent(all.take(iter.index())),
                        before.skipped + absent(all) <= usize::MAX,
                {
                    proof {
                        let n = iter.index();
                        assert(all.take(n + 1).drop_last() =~= all.take(n));
                        lemma_absent_grows(all, n + 1);
                    }
                    match entry {
                        Some(path) => {
                            self.pending.push(path);
                        },
                        None => {
                            self.skipped = self.skipped + 1;
                        },
                    }
                }
                assert(all.take(all.len() as int) =~= all);
            },
        }
    }
}

proof fn lemma_absent_grows<P>(listing: Seq<Option<P>>, n: int)
    requires
        0 <= n <= listing.len(),
    ensures
        absent(listing.take(n)) <= absent(listing),
    decreases listing.len(),
{
    if n < listing.len() {
        lemma_absent_grows(listing.drop_last(), n);
        assert(listing.drop_last().take(n) =~= listing.take(n));
    } else {
        assert(listing.take(n) =~= listing);
    }
}

// ---------------------------------------------------------------------------
// Whole walks
// ---------------------------------------------------------------------------

/// The walk from the root visits the paths one after the other. `tree` tells
/// what stands at each path.
pub open spec fn is_walk<P>(
    tree: spec_fn(P) -> Place<P>,
    root: P,
    paths: Seq<P>,
    walks: Seq<Walk<P>>,
) -> bool {
    &&& walks.len() == paths.len() + 1
    &&& walks[0] == started(root)
    &&& forall|k: int|
        0 <= k < paths.len() ==> {
            &&& (#[trigger] walks[k]).pending.len() > 0
            &&& paths[k] == walks[k].pending.last()
            &&& walks[k + 1] == visit(walks[k], tree(paths[k]))
        }
}

/// A walk that has nothing left to visit.
pub open spec fn is_whole_walk<P>(
    tree: spec_fn(P) -> Place<P>,
    root: P,
    paths: Seq<P>,
    walks: Seq<Walk<P>>,
) -> bool {
    &&& is_walk(tree, root, paths, walks)
    &&& walks.last().pending.len() == 0
}

/// A path is listed in what stands at another path.
pub open spec fn lists<P>(place: Place<P>, path: P) -> bool {
    match place {
        Place::Directory(Some(listing)) => listing.contains(Some(path)),
        _ => false,
    }
}

proof fn lemma_present<P>(listing: Seq<Option<P>>, path: P)
    ensures
        present(listing).contains(path) <==> listing.contains(Some(path)),
    decreases listing.len(),
{
    if listing.len() > 0 {
        let shorter = listing.drop_last();
        lemma_present(shorter, path);
        let before = present(shorter);
        if listing.contains(Some(path)) {
            let i = choose|i: int| 0 <= i < listing.len() && listing[i] == Some(path);
            if i < shorter.len() {
                assert(shorter[i] == Some(path));
                let k = choose|k: int| 0 <= k < before.len() && before[k] == path;
                assert(present(listing)[k] == path);
            } else {
                assert(present(listing)[before.len() as int] == path);
            }
        }
        if present(listing).contains(path) {
            let k = choose|k: int|
                0 <= k < present(listing).len() && present(listing)[k] == path;
            if k < before.len() {
                assert(before[k] == path);
                let i = choose|i: int| 0 <= i < shorter.len() && shorter[i] == Some(path);
                assert(listing[i] == Some(path));
            } else {
                assert(listing[listing.len() - 1] == Some(path));
            }
        }
    }
}

/// What was pending beside the visited path stays pending, and what the visited
/// path lists comes to it.
proof fn lemma_visit_pending<P>(walk: Walk<P>, place: Place<P>, path: P)
    requires
        walk.pending.len() > 0,
    ensures
        visit(walk, place).pending.contains(path) <==> {
            ||| walk.pending.drop_last().contains(path)
            ||| lists(place, path)
        },
{
    let kept = walk.pending.drop_last();
    match place {
        Place::Directory(Some(listing)) => {
            let came = present(listing);
            lemma_present(listing, path);
            let all = kept + came;
            if kept.contains(path) {
                let i = choose|i: int| 0 <= i < kept.len() && kept[i] == path;
                assert(all[i] == path);
            }
            if came.contains(path) {
                let i = choose|i: int| 0 <= i < came.len() && came[i] == path;
                assert(all[kept.len() + i] == path);
            }
            if all.contains(path) {
                let i = choose|i: int| 0 <= i < all.len() && all[i] == path;
                if i < kept.len() {
                    assert(kept[i] == path);
                } else {
                    assert(came[i - kept.len()] == path);
                }
            }
        },
        _ => {},
    }
}

/// What is pending at some moment of a whole walk is visited from then on.
proof fn lemma_pending_is_visited<P>(
    tree: spec_fn(P) -> Place<P>,
    root: P,
    paths: Seq<P>,
    walks: Seq<Walk<P>>,
    k: int,
    path: P,
)
    requires
        is_whole_walk(tree, root, paths, walks),
        0 <= k < walks.len(),
        walks[k].pending.contains(path),
    ensures
        paths.contains(path),
    decreases walks.len() - k,
{
    if k < paths.len() {
        let walk = walks[k];
        let i = choose|i: int| 0 <= i < walk.pending.len() && walk.pending[i] == path;
        if i == walk.pending.len() - 1 {
            assert(paths[k] == path);
        } else {
            assert(walk.pending.drop_last()[i] == path);
            lemma_visit_pending(walk, tree(paths[k]), path);
            lemma_pending_is_visited(tree, root, paths, walks, k + 1, path);
        }
    }
}

/// A whole walk misses nothing: it visits the root, and everything that is
/// listed in a directory that it visits.
pub proof fn law_nothing_is_missed<P>(
    tree: spec_fn(P) -> Place<P>,
    root: P,
    paths: Seq<P>,
    walks: Seq<Walk<P>>,
)
    requires
        is_whole_walk(tree, root, paths, walks),
    ensures
        paths.contains(root),
        forall|at: P, path: P| #[trigger]
            paths.contains(at) && #[trigger] lists(tree(at), path) ==> paths.contains(path),
{
    assert(walks[0].pending[0] == root);
    lemma_pending_is_visited(tree, root, paths, walks, 0, root);
    assert forall|at: P, path: P| #[trigger]
        paths.contains(at) && #[trigger] lists(tree(at), path) implies paths.contains(path) by {
        let k = choose|k: int| 0 <= k < paths.len() && paths[k] == at;
        assert(walks[k].pending.len() > 0);
        lemma_visit_pending(walks[k], tree(at), path);
        lemma_pending_is_visited(tree, root, paths, walks, k + 1, path);
    }
}

/// A path is listed in a directory that was visited before the `k`th visit.
pub open spec fn is_listed_before<P>(
    tree: spec_fn(P) -> Place<P>,
    paths: Seq<P>,
    k: int,
    path: P,
) -> bool {
    exists|j: int| 0 <= j < k && lists(tree(#[trigger] paths[j]), path)
}

proof fn lemma_pending_is_listed<P>(
    tree: spec_fn(P) -> Place<P>,
    root: P,
    paths: Seq<P>,
    walks: Seq<Walk<P>>,
    k: int,
    path: P,
)
    requires
        is_walk(tree, root, paths, walks),
        0 <= k < walks.len(),
        walks[k].pending.contains(path),
    ensures
        path == root || is_listed_before(tree, paths, k, path),
    decreases k,
{
    if k == 0 {
        let i = choose|i: int|
            0 <= i < walks[0].pending.len() && walks[0].pending[i] == path;
        assert(walks[0].pending[i] == root);
    } else {
        let walk = walks[k - 1];
        assert(walk.pending.len() > 0);
        lemma_visit_pending(walk, tree(paths[k - 1]), path);
        if lists(tree(paths[k - 1]), path) {
            assert(is_listed_before(tree, paths, k, path));
        } else {
            let kept = walk.pending.drop_last();
            let i = choose|i: int| 0 <= i < kept.len() && kept[i] == path;
            assert(walk.pending[i] == path);
            lemma_pending_is_listed(tree, root, paths, walks, k - 1, path);
            if path != root {
                let j = choose|j: int| 0 <= j < k - 1 && lists(tree(#[trigger] paths[j]), path);
                assert(lists(tree(paths[j]), path));
            }
        }
    }
}

/// A walk visits nothing but the root and what is listed in a directory that it
/// visited before. So nothing is reached through a symbolic link, which is no
/// directory.
pub proof fn law_only_listed_paths_are_visited<P>(
    tree: spec_fn(P) -> Place<P>,
    root: P,
    paths: Seq<P>,
    walks: Seq<Walk<P>>,
    k: int,
)
    requires
        is_walk(tree, root, paths, walks),
        0 <= k < paths.len(),
    ensures
        paths[k] == root || is_listed_before(tree, paths, k, paths[k]),
{
    let walk = walks[k];
    assert(walk.pending.len() > 0);
    assert(walk.pending[walk.pending.len() - 1] == paths[k]);
    lemma_pending_is_listed(tree, root, paths, walks, k, paths[k]);
}

/// No two elements are the same.
pub open spec fn all_differ<P>(s: Seq<P>) -> bool {
    forall|i: int, j: int| 0 <= i < j < s.len() ==> #[trigger] s[i] != #[trigger] s[j]
}

/// The directories make up a tree: every path is listed in one directory at most,
/// and only once there, and the root is listed in none.
pub open spec fn is_tree<P>(tree: spec_fn(P) -> Place<P>, root: P) -> bool {
    &&& forall|at: P| !#[trigger] lists(tree(at), root)
    &&& forall|a: P, b: P, path: P| #[trigger]
        lists(tree(a), path) && #[trigger] lists(tree(b), path) ==> a == b
    &&& forall|at: P|
        (#[trigger] tree(at) matches Place::Directory(Some(listing)) ==> all_differ(
            present(listing),
        ))
}

proof fn lemma_differing_concat<P>(left: Seq<P>, right: Seq<P>)
    requires
        all_differ(left),
        all_differ(right),
        forall|i: int| 0 <= i < right.len() ==> !left.contains(#[trigger] right[i]),
    ensures
        all_differ(left + right),
{
    let all = left + right;
    assert forall|i: int, j: int| 0 <= i < j < all.len() implies #[trigger] all[i]
        != #[trigger] all[j] by {
        if j >= left.len() {
            let r = j - left.len();
            assert(all[j] == right[r]);
            if i < left.len() {
                assert(left.contains(left[i]));
            } else {
                assert(all[i] == right[i - left.len()]);
            }
        }
    }
}

/// What was visited and what is pending never hold a path twice.
proof fn lemma_visited_and_pending_differ<P>(
    tree: spec_fn(P) -> Place<P>,
    root: P,
    paths: Seq<P>,
    walks: Seq<Walk<P>>,
    k: int,
)
    requires
        is_tree(tree, root),
        is_walk(tree, root, paths, walks),
        0 <= k < walks.len(),
    ensures
        all_differ(paths.take(k) + walks[k].pending),
    decreases k,
{
    if k > 0 {
        let n = k - 1;
        lemma_visited_and_pending_differ(tree, root, paths, walks, n);
        let walk = walks[n];
        assert(walk.pending.len() > 0);
        let path = paths[n];
        let kept = walk.pending.drop_last();
        let before = paths.take(n);
        let held = before + walk.pending;
        let at = (before.len() + kept.len()) as int;
        assert(held[at] == path);
        let visited = paths.take(k);
        assert(visited =~= before.push(path));
        let all = visited + kept;
        assert forall|i: int, j: int| 0 <= i < j < all.len() implies #[trigger] all[i]
            != #[trigger] all[j] by {
            if i < n {
                assert(all[i] == held[i]);
            } else if i > n {
                assert(all[i] == held[i - 1]);
            }
            if j < n {
                assert(all[j] == held[j]);
            } else if j > n {
                assert(all[j] == held[j - 1]);
            }
        }
        match tree(path) {
            Place::Directory(Some(listing)) => {
                let came = present(listing);
                assert forall|i: int| 0 <= i < came.len() implies !all.contains(
                    #[trigger] came[i],
                ) by {
                    let child = came[i];
                    assert(came.contains(child));
                    lemma_present(listing, child);
                    assert(lists(tree(path), child));
                    if all.contains(child) {
                        let m = choose|m: int| 0 <= m < all.len() && all[m] == child;
                        lemma_held_is_listed(tree, root, paths, walks, n, child, m);
                        let j = choose|j: int|
                            0 <= j < n && lists(tree(#[trigger] paths[j]), child);
                        assert(lists(tree(paths[j]), child));
                        assert(held[j] == paths[j]);
                        assert(held[at] == path);
                    }
                }
                lemma_differing_concat(all, came);
                assert(visited + walks[k].pending =~= all + came);
            },
            _ => {
                assert(visited + walks[k].pending =~= all);
            },
        }
    }
}

/// What is visited by the end of the `n`th visit, or pending beside it, is the
/// root or was listed before.
proof fn lemma_held_is_listed<P>(
    tree: spec_fn(P) -> Place<P>,
    root: P,
    paths: Seq<P>,
    walks: Seq<Walk<P>>,
    n: int,
    path: P,
    m: int,
)
    requires
        is_walk(tree, root, paths, walks),
        0 <= n < paths.len(),
        ({
            let all = paths.take(n + 1) + walks[n].pending.drop_last();
            0 <= m < all.len() && all[m] == path
        }),
    ensures
        path == root || is_listed_before(tree, paths, n, path),
{
    let pending = walks[n].pending;
    assert(pending.len() > 0);
    if m <= n {
        assert(paths[m] == path);
        law_only_listed_paths_are_visited(tree, root, paths, walks, m);
        if path != root {
            let j = choose|j: int| 0 <= j < m && lists(tree(#[trigger] paths[j]), path);
            assert(lists(tree(paths[j]), path));
        }
    } else {
        assert(pending[m - n - 1] == path);
        assert(pending.contains(path));
        lemma_pending_is_listed(tree, root, paths, walks, n, path);
    }
}

/// In a tree no path is visited twice, so no entry is counted twice.
pub proof fn law_no_path_is_visited_twice<P>(
    tree: spec_fn(P) -> Place<P>,
    root: P,
    paths: Seq<P>,
    walks: Seq<Walk<P>>,
)
    requires
        is_tree(tree, root),
        is_walk(tree, root, paths, walks),
    ensures
        all_differ(paths),
{
    let last = paths.len() as int;
    lemma_visited_and_pending_differ(tree, root, paths, walks, last);
    let all = paths.take(last) + walks[last].pending;
    assert forall|i: int, j: int| 0 <= i < j < paths.len() implies #[trigger] paths[i]
        != #[trigger] paths[j] by {
        assert(all[i] == paths[i] && all[j] == paths[j]);
    }
}

/// How many of the paths can be looked at.
pub open spec fn readable<P>(tree: spec_fn(P) -> Place<P>, paths: Seq<P>) -> nat
    decreases paths.len(),
{
    if paths.len() == 0 {
        0
    } else {
        readable(tree, paths.drop_last()) + match tree(paths.last()) {
            Place::Unreadable => 0nat,
            _ => 1nat,
        }
    }
}

/// How many things cannot be read at the paths: the path itself, a directory, or
/// an entry of a directory.
pub open spec fn unreadable<P>(tree: spec_fn(P) -> Place<P>, paths: Seq<P>) -> nat
    decreases paths.len(),
{
    if paths.len() == 0 {
        0
    } else {
        unreadable(tree, paths.drop_last()) + match tree(paths.last()) {
            Place::Unreadable => 1nat,
            Place::Leaf => 0nat,
            Place::Directory(listing) => unlisted(listing),
        }
    }
}

/// Whatever is visited is recorded or reported: at every moment of a walk the
/// counts are those of what could be looked at and of what could not be read.
pub proof fn law_everything_is_counted<P>(
    tree: spec_fn(P) -> Place<P>,
    root: P,
    paths: Seq<P>,
    walks: Seq<Walk<P>>,
    k: int,
)
    requires
        is_walk(tree, root, paths, walks),
        0 <= k < walks.len(),
    ensures
        walks[k].count == readable(tree, paths.take(k)),
        walks[k].skipped == unreadable(tree, paths.take(k)),
    decreases k,
{
    if k > 0 {
        law_everything_is_counted(tree, root, paths, walks, k - 1);
        assert(walks[k - 1].pending.len() > 0);
        assert(paths.take(k).drop_last() =~= paths.take(k - 1));
        assert(paths.take(k).last() == paths[k - 1]);
    }
}

// ---------------------------------------------------------------------------
// What is told of a scan
// ---------------------------------------------------------------------------

/// What is told of a scan that also captured the processes.
pub fn scan_summary(entries: usize, processes: usize, skipped: usize) -> (res: String)
    ensures
        res@ == "Indexed "@ + decimal(entries as nat) + " filesystem entries and "@ + decimal(
            processes as nat,
        ) + " processes (skipped "@ + decimal(skipped as nat) + ")."@,
{
    let mut res = "Indexed ".to_owned();
    append_number(&mut res, entries as u64);
    res.append(" filesystem entries and ");
    append_number(&mut res, processes as u64);
    res.append(" processes (skipped ");
    append_number(&mut res, skipped as u64);
    res.append(").");
    res
}

/// What is told of a scan that comes before a question.
pub fn scan_note(entries: usize, skipped: usize) -> (res: String)
    ensures
        res@ == "Indexed "@ + decimal(entries as nat) + " filesystem entries (skipped "@ + decimal(
            skipped as nat,
        ) + ")."@,
{
    let mut res = "Indexed ".to_owned();
    append_number(&mut res, entries as u64);
    res.append(" filesystem entries (skipped ");
    append_number(&mut res, skipped as u64);
    res.append(").");
    res
}

/// Every entry of a listing is either visited or counted as skipped: the paths are
/// all there, in order, and nothing else is. A directory that cannot be listed
/// counts once.
pub proof fn law_listings_are_split<P>(listing: Seq<Option<P>>, path: P)
    ensures
        present(listing).len() + absent(listing) == listing.len(),
        present(listing).contains(path) <==> listing.contains(Some(path)),
        present(listing.push(Some(path))) == present(listing).push(path),
        present(listing.push(None)) == present(listing),
        absent(listing.push(None)) == absent(listing) + 1,
        absent(listing.push(Some(path))) == absent(listing),
        unlisted(Some(listing)) == absent(listing),
        unlisted::<P>(None) == 1,
    decreases listing.len(),
{
    lemma_present(listing, path);
    assert(listing.push(Some(path)).drop_last() =~= listing);
    assert(listing.push(None).drop_last() =~= listing);
    if listing.len() > 0 {
        law_listings_are_split(listing.drop_last(), path);
    }
}

/// A visit takes the last of the pending paths. What cannot be looked at is
/// skipped, everything else is recorded, and only a directory that can be listed
/// brings new paths.
pub proof fn law_visits<P>(walk: Walk<P>, place: Place<P>)
    requires
        walk.pending.len() > 0,
    ensures
        visit(walk, place).count == walk.count + if place is Unreadable {
            0int
        } else {
            1int
        },
        place is Unreadable ==> visit(walk, place).skipped == walk.skipped + 1,
        place is Leaf ==> visit(walk, place).skipped == walk.skipped,
        !(place matches Place::Directory(Some(listing))) ==> visit(walk, place).pending
            == walk.pending.drop_last(),
        place matches Place::Directory(Some(listing)) ==> visit(walk, place).pending
            == walk.pending.drop_last() + present(listing) && visit(walk, place).skipped
            + present(listing).len() == walk.skipped + listing.len(),
        place matches Place::Directory(None) ==> visit(walk, place).skipped == walk.skipped + 1,
{
    match place {
        Place::Directory(Some(listing)) => {
            if listing.len() > 0 && listing[0] is Some {
                law_listings_are_split(listing, listing[0]->0);
            } else {
                lemma_split_count(listing);
            }
        },
        _ => {},
    }
}

proof fn lemma_split_count<P>(listing: Seq<Option<P>>)
    ensures
        present(listing).len() + absent(listing) == listing.len(),
    decreases listing.len(),
{
    if listing.len() > 0 {
        lemma_split_count(listing.drop_last());
    }
}

} // verus!
