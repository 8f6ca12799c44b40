//! Searching the repository for vendors and packages by a part of their path
//! below `manifests`.
//!
//! The search walks `manifests/<letter>/<vendor>/<package>` depth first. It is
//! a state machine: `next_dir` says which directory to list, and `visit` takes
//! that listing, queues the subdirectories still to look at and reports the
//! vendors and packages found in it.
use vstd::prelude::*;

use crate::listing::{DirEntryInfo, EntryKind};
use crate::text::{
    ascii_lower, chars_of, chars_tail, contains_chars, has_substring, to_ascii_lowercase,
};

verus! {

/// A directory still to look at, with its depth below `manifests` (the letter
/// directories are at depth 1) and whether everything below it matches.
#[derive(Clone, Debug)]
pub struct SearchTodo {
    pub path: String,
    pub name: String,
    pub depth: u64,
    pub match_all: bool,
}

/// A vendor or a package that the search found.
#[derive(Clone, Debug)]
pub enum SearchHit {
    Vendor { name: String },
    Package { vendor: String, name: String },
}

/// The state of a search: the lower-cased text looked for, the path of the
/// `manifests` directory it starts at, and the stack of directories still to
/// look at.
pub struct SearchWalk {
    pub needle: String,
    pub root: String,
    pub todos: Vec<SearchTodo>,
}

/// The part of a path below the search's start directory, whose path is
/// `root_len` characters long (empty for a path no longer than that).
pub open spec fn below_root(path: Seq<char>, root_len: nat) -> Seq<char> {
    if path.len() > root_len {
        path.skip((root_len + 1) as int)
    } else {
        seq![]
    }
}

/// A subdirectory matches where its path below `manifests`, in lower case,
/// contains the text looked for, or where everything below its parent matches.
pub open spec fn entry_matches(dir: SearchTodo, e: DirEntryInfo, needle: Seq<char>, root_len: nat) -> bool {
    has_substring(ascii_lower(below_root(e.path@, root_len)), needle) || dir.match_all
}

/// What looking at entry `e` of `dir` queues: every subdirectory, one level
/// down; below a letter or vendor directory, a matching one is matched whole
/// below. Letter directories themselves are never matched.
pub open spec fn entry_todos(dir: SearchTodo, e: DirEntryInfo, needle: Seq<char>, root_len: nat) -> Seq<SearchTodo> {
    if e.kind != EntryKind::Dir {
        seq![]
    } else {
        seq![
            SearchTodo {
                path: e.path,
                name: e.name,
                depth: (dir.depth + 1) as u64,
                match_all: dir.depth > 0 && entry_matches(dir, e, needle, root_len),
            },
        ]
    }
}

/// What looking at entry `e` of `dir` reports: a matching subdirectory of a
/// letter directory is a vendor, one of a vendor directory a package.
pub open spec fn entry_hits(dir: SearchTodo, e: DirEntryInfo, needle: Seq<char>, root_len: nat) -> Seq<SearchHit> {
    if e.kind == EntryKind::Dir && entry_matches(dir, e, needle, root_len) {
        if dir.depth == 1 {
            seq![SearchHit::Vendor { name: e.name }]
        } else if dir.depth == 2 {
            seq![SearchHit::Package { vendor: dir.name, name: e.name }]
        } else {
            seq![]
        }
    } else {
        seq![]
    }
}

/// What looking at all of `entries`, in order, queues.
pub open spec fn visit_todos(dir: SearchTodo, entries: Seq<DirEntryInfo>, needle: Seq<char>, root_len: nat) -> Seq<
    SearchTodo,
>
    decreases entries.len(),
{
    if entries.len() == 0 {
        seq![]
    } else {
        visit_todos(dir, entries.drop_last(), needle, root_len) + entry_todos(dir, entries.last(), needle, root_len)
    }
}

/// What looking at all of `entries`, in order, reports.
pub open spec fn visit_hits(dir: SearchTodo, entries: Seq<DirEntryInfo>, needle: Seq<char>, root_len: nat) -> Seq<
    SearchHit,
>
    decreases entries.len(),
{
    if entries.len() == 0 {
        seq![]
    } else {
        visit_hits(dir, entries.drop_last(), needle, root_len) + entry_hits(dir, entries.last(), needle, root_len)
    }
}

impl SearchWalk {
    /// Starts a search for `search_string` (compared up to ASCII case) at the
    /// `manifests` directory, which is at depth 0.
    pub fn new(search_string: &str, manifests_path: &str) -> (r: SearchWalk)
        ensures
            r.needle@ == ascii_lower(search_string@),
            r.root@ == manifests_path@,
            r.todos@.len() == 1,
            r.todos@[0].path@ == manifests_path@,
            r.todos@[0].name@ == manifests_path@,
            r.todos@[0].depth == 0,
            !r.todos@[0].match_all,
    {
        let root = SearchTodo {
            path: String::from_str(manifests_path),
            name: String::from_str(manifests_path),
            depth: 0,
            match_all: false,
        };
        let mut todos: Vec<SearchTodo> = Vec::new();
        todos.push(root);
        SearchWalk {
            needle: to_ascii_lowercase(search_string),
            root: String::from_str(manifests_path),
            todos,
        }
    }

    /// The next directory to list: the last one queued, skipping those below
    /// the package level (depth above 2). `None` when nothing is left.
    pub fn next_dir(&mut self) -> (r: Option<SearchTodo>)
        ensures
            final(self).needle == old(self).needle,
            final(self).root == old(self).root,
            match r {
                None => final(self).todos@.len() == 0 && forall|j: int|
                    0 <= j < old(self).todos@.len() ==> old(self).todos@[j].depth > 2,
                Some(t) => {
                    let k = final(self).todos@.len() as int;
                    &&& k < old(self).todos@.len()
                    &&& old(self).todos@[k] == t
                    &&& final(self).todos@ == old(self).todos@.take(k)
                    &&& t.depth <= 2
                    &&& forall|j: int| k < j < old(self).todos@.len() ==> old(self).todos@[j].depth > 2
                },
            },
    {
        let ghost start = self.todos@;
        loop
            invariant
                self.needle == old(self).needle,
                self.root == old(self).root,
                start == old(self).todos@,
                self.todos@.len() <= start.len(),
                self.todos@ == start.take(self.todos@.len() as int),
                forall|j: int| self.todos@.len() <= j < start.len() ==> start[j].depth > 2,
            decreases self.todos@.len(),
        {
            let ghost before = self.todos@;
            match self.todos.pop() {
                None => {
                    return None;
                },
                Some(t) => {
                    assert(before[before.len() - 1] == t);
                    assert(start[self.todos@.len() as int] == t);
                    assert(self.todos@ =~= start.take(self.todos@.len() as int));
                    if t.depth <= 2 {
                        return Some(t);
                    }
                },
            }
        }
    }

    /// Looks at the listing of `dir` (a directory that `next_dir` gave): queues
    /// its subdirectories as `visit_todos` says and returns the vendors and
    /// packages found, in listing order.
    pub fn visit(&mut self, dir: &SearchTodo, entries: &Vec<DirEntryInfo>) -> (r: Vec<SearchHit>)
        requires
            dir.depth <= 2,
        ensures
            final(self).needle == old(self).needle,
            final(self).root == old(self).root,
            final(self).todos@ == old(self).todos@ + visit_todos(
                *dir,
                entries@,
                old(self).needle@,
                old(self).root@.len(),
            ),
            r@ == visit_hits(*dir, entries@, old(self).needle@, old(self).root@.len()),
    {
        let needle = chars_of(self.needle.as_str());
        let root_len = self.root.as_str().unicode_len();
        let ghost start = self.todos@;
        let mut hits: Vec<SearchHit> = Vec::new();
        let mut i: usize = 0;
        while i < entries.len()
            invariant
                dir.depth <= 2,
                needle@ == self.needle@,
                self.needle == old(self).needle,
                self.root == old(self).root,
                root_len == self.root@.len(),
                start == old(self).todos@,
                i <= entries.len(),
                self.todos@ == start + visit_todos(*dir, entries@.take(i as int), needle@, root_len as nat),
                hits@ == visit_hits(*dir, entries@.take(i as int), needle@, root_len as nat),
            decreases entries.len() - i,
        {
            let e = &entries[i];
            assert(entries@.take(i + 1).drop_last() =~= entries@.take(i as int));
            assert(entries@.take(i + 1).last() == entries@[i as int]);
            if e.kind == EntryKind::Dir {
                let lower = to_ascii_lowercase(e.path.as_str());
                let lower_chars = chars_of(lower.as_str());
                let below_chars = if lower_chars.len() > root_len {
                    chars_tail(&lower_chars, root_len + 1)
                } else {
                    Vec::new()
                };
                proof {
                    if e.path@.len() > root_len {
                        assert(ascii_lower(e.path@).skip(root_len + 1) =~= ascii_lower(
                            e.path@.skip(root_len + 1),
                        ));
                    } else {
                        assert(ascii_lower(seq![]) =~= seq![]);
                    }
                }
                let matched = contains_chars(&below_chars, &needle) || dir.match_all;
                let below = dir.depth > 0 && matched;
                self.todos.push(
                    SearchTodo {
                        path: e.path.clone(),
                        name: e.name.clone(),
                        depth: dir.depth + 1,
                        match_all: below,
                    },
                );
                if below {
                    if dir.depth == 1 {
                        hits.push(SearchHit::Vendor { name: e.name.clone() });
                    } else {
                        hits.push(
                            SearchHit::Package { vendor: dir.name.clone(), name: e.name.clone() },
                        );
                    }
                }
            }
            proof {
                assert(self.todos@ =~= start + visit_todos(
                    *dir,
                    entries@.take(i + 1),
                    needle@,
                    root_len as nat,
                ));
                assert(hits@ =~= visit_hits(*dir, entries@.take(i + 1), needle@, root_len as nat));
            }
            i = i + 1;
        }
        assert(entries@.take(entries@.len() as int) =~= entries@);
        hits
    }
}

/// Every directory a visit queues is one level below the visited one, and is
/// one of its subdirectories.
pub proof fn lemma_visit_queues_children(dir: SearchTodo, entries: Seq<DirEntryInfo>, needle: Seq<char>, root_len: nat)
    requires
        dir.depth <= 2,
    ensures
        forall|k: int|
            0 <= k < visit_todos(dir, entries, needle, root_len).len() ==> {
                let t = #[trigger] visit_todos(dir, entries, needle, root_len)[k];
                &&& t.depth == dir.depth + 1
                &&& exists|j: int|
                    0 <= j < entries.len() && entries[j].kind == EntryKind::Dir && entries[j].path
                        == t.path && entries[j].name == t.name
            },
    decreases entries.len(),
{
    if entries.len() > 0 {
        lemma_visit_queues_children(dir, entries.drop_last(), needle, root_len);
        let prev = visit_todos(dir, entries.drop_last(), needle, root_len);
        let last = entry_todos(dir, entries.last(), needle, root_len);
        assert forall|k: int| 0 <= k < visit_todos(dir, entries, needle, root_len).len() implies {
            let t = #[trigger] visit_todos(dir, entries, needle, root_len)[k];
            &&& t.depth == dir.depth + 1
            &&& exists|j: int|
                0 <= j < entries.len() && entries[j].kind == EntryKind::Dir && entries[j].path
                    == t.path && entries[j].name == t.name
        } by {
            if k < prev.len() {
                assert(visit_todos(dir, entries, needle, root_len)[k] == prev[k]);
                let t = prev[k];
                let j = choose|j: int|
                    0 <= j < entries.drop_last().len() && entries.drop_last()[j].kind
                        == EntryKind::Dir && entries.drop_last()[j].path == t.path
                        && entries.drop_last()[j].name == t.name;
                assert(entries[j] == entries.drop_last()[j]);
            } else {
                assert(visit_todos(dir, entries, needle, root_len)[k] == last[k - prev.len()]);
                assert(entries[entries.len() - 1] == entries.last());
            }
        }
    }
}

/// The search reports a vendor only for a matching subdirectory of a letter
/// directory, and a package only for a matching subdirectory of a vendor
/// directory, named after that vendor directory.
pub proof fn lemma_hits_come_from_matching_dirs(
    dir: SearchTodo,
    entries: Seq<DirEntryInfo>,
    needle: Seq<char>,
    root_len: nat,
)
    ensures
        forall|k: int|
            0 <= k < visit_hits(dir, entries, needle, root_len).len() ==> {
                let h = #[trigger] visit_hits(dir, entries, needle, root_len)[k];
                exists|j: int|
                    0 <= j < entries.len() && entries[j].kind == EntryKind::Dir && entry_matches(
                        dir,
                        entries[j],
                        needle,
                        root_len,
                    ) && match h {
                        SearchHit::Vendor { name } => dir.depth == 1 && name == entries[j].name,
                        SearchHit::Package { vendor, name } => dir.depth == 2 && vendor == dir.name
                            && name == entries[j].name,
                    }
            },
    decreases entries.len(),
{
    if entries.len() > 0 {
        lemma_hits_come_from_matching_dirs(dir, entries.drop_last(), needle, root_len);
        let prev = visit_hits(dir, entries.drop_last(), needle, root_len);
        let last = entry_hits(dir, entries.last(), needle, root_len);
        assert forall|k: int| 0 <= k < visit_hits(dir, entries, needle, root_len).len() implies {
            let h = #[trigger] visit_hits(dir, entries, needle, root_len)[k];
            exists|j: int|
                0 <= j < entries.len() && entries[j].kind == EntryKind::Dir && entry_matches(
                    dir,
                    entries[j],
                    needle,
                    root_len,
                ) && match h {
                    SearchHit::Vendor { name } => dir.depth == 1 && name == entries[j].name,
                    SearchHit::Package { vendor, name } => dir.depth == 2 && vendor == dir.name
                        && name == entries[j].name,
                }
        } by {
            if k < prev.len() {
                assert(visit_hits(dir, entries, needle, root_len)[k] == prev[k]);
                let h = prev[k];
                let j = choose|j: int|
                    0 <= j < entries.drop_last().len() && entries.drop_last()[j].kind
                        == EntryKind::Dir && entry_matches(dir, entries.drop_last()[j], needle, root_len)
                        && match h {
                        SearchHit::Vendor { name } => dir.depth == 1 && name
                            == entries.drop_last()[j].name,
                        SearchHit::Package { vendor, name } => dir.depth == 2 && vendor == dir.name
                            && name == entries.drop_last()[j].name,
                    };
                assert(entries[j] == entries.drop_last()[j]);
            } else {
                assert(visit_hits(dir, entries, needle, root_len)[k] == last[k - prev.len()]);
                let j = entries.len() - 1;
                assert(entries[j] == entries.last());
            }
        }
    }
}

/// A search does not depend on the case of the text looked for: searches
/// started with texts equal up to ASCII case look for the same lower-cased
/// text (`SearchWalk::new`), `next_dir` does not read it, and every visit
/// then queues the same directories and reports the same hits.
pub proof fn lemma_search_ignores_case(
    a: Seq<char>,
    b: Seq<char>,
    dir: SearchTodo,
    entries: Seq<DirEntryInfo>,
    root_len: nat,
)
    requires
        ascii_lower(a) == ascii_lower(b),
    ensures
        visit_todos(dir, entries, ascii_lower(a), root_len) == visit_todos(
            dir,
            entries,
            ascii_lower(b),
            root_len,
        ),
        visit_hits(dir, entries, ascii_lower(a), root_len) == visit_hits(
            dir,
            entries,
            ascii_lower(b),
            root_len,
        ),
{
}

/// Letter directories are never matched: a visit of `manifests` queues every
/// subdirectory one level down, to be searched, and reports nothing.
pub proof fn lemma_letters_always_descended(
    dir: SearchTodo,
    entries: Seq<DirEntryInfo>,
    needle: Seq<char>,
    root_len: nat,
)
    requires
        dir.depth == 0,
    ensures
        visit_hits(dir, entries, needle, root_len).len() == 0,
        forall|k: int|
            0 <= k < visit_todos(dir, entries, needle, root_len).len() ==> !(#[trigger] visit_todos(
                dir,
                entries,
                needle,
                root_len,
            )[k]).match_all,
    decreases entries.len(),
{
    if entries.len() > 0 {
        lemma_letters_always_descended(dir, entries.drop_last(), needle, root_len);
        let prev = visit_todos(dir, entries.drop_last(), needle, root_len);
        assert forall|k: int| 0 <= k < visit_todos(dir, entries, needle, root_len).len() implies !(
        #[trigger] visit_todos(dir, entries, needle, root_len)[k]).match_all by {
            if k < prev.len() {
                assert(visit_todos(dir, entries, needle, root_len)[k] == prev[k]);
            }
        }
    }
}

/// Every matching subdirectory of a letter or vendor directory is reported:
/// as a vendor below a letter directory, as a package of the visited vendor
/// below a vendor directory.
pub proof fn lemma_every_match_is_reported(
    dir: SearchTodo,
    entries: Seq<DirEntryInfo>,
    needle: Seq<char>,
    root_len: nat,
    j: int,
)
    requires
        1 <= dir.depth <= 2,
        0 <= j < entries.len(),
        entries[j].kind == EntryKind::Dir,
        entry_matches(dir, entries[j], needle, root_len),
    ensures
        exists|k: int|
            0 <= k < visit_hits(dir, entries, needle, root_len).len() && (if dir.depth == 1 {
                visit_hits(dir, entries, needle, root_len)[k] == SearchHit::Vendor {
                    name: entries[j].name,
                }
            } else {
                visit_hits(dir, entries, needle, root_len)[k] == SearchHit::Package {
                    vendor: dir.name,
                    name: entries[j].name,
                }
            }),
    decreases entries.len(),
{
    let prev = visit_hits(dir, entries.drop_last(), needle, root_len);
    let last = entry_hits(dir, entries.last(), needle, root_len);
    assert(visit_hits(dir, entries, needle, root_len) == prev + last);
    if j < entries.len() - 1 {
        assert(entries.drop_last()[j] == entries[j]);
        lemma_every_match_is_reported(dir, entries.drop_last(), needle, root_len, j);
        let k = choose|k: int|
            0 <= k < prev.len() && (if dir.depth == 1 {
                prev[k] == SearchHit::Vendor { name: entries.drop_last()[j].name }
            } else {
                prev[k] == SearchHit::Package { vendor: dir.name, name: entries.drop_last()[j].name }
            });
        assert((prev + last)[k] == prev[k]);
    } else {
        assert(entries.last() == entries[j]);
        assert((prev + last)[prev.len() as int] == last[0]);
    }
}

/// The search reports nothing else: it makes exactly one report per matching
/// subdirectory, so a visit reports as many hits as the listing has matching
/// subdirectories.
pub proof fn lemma_hit_count_is_match_count(
    dir: SearchTodo,
    entries: Seq<DirEntryInfo>,
    needle: Seq<char>,
    root_len: nat,
)
    requires
        1 <= dir.depth <= 2,
    ensures
        visit_hits(dir, entries, needle, root_len).len() == entries.filter(
            |e: DirEntryInfo| e.kind == EntryKind::Dir && entry_matches(dir, e, needle, root_len),
        ).len(),
    decreases entries.len(),
{
    reveal_with_fuel(Seq::<_>::filter, 1);
    if entries.len() > 0 {
        lemma_hit_count_is_match_count(dir, entries.drop_last(), needle, root_len);
    }
}

/// Every subdirectory of a visited directory is queued, one level down: below
/// `manifests` to be searched, below a letter or vendor directory to be
/// matched whole exactly when it matches.
pub proof fn lemma_every_subdir_is_queued(
    dir: SearchTodo,
    entries: Seq<DirEntryInfo>,
    needle: Seq<char>,
    root_len: nat,
    j: int,
)
    requires
        dir.depth <= 2,
        0 <= j < entries.len(),
        entries[j].kind == EntryKind::Dir,
    ensures
        exists|k: int|
            0 <= k < visit_todos(dir, entries, needle, root_len).len() && visit_todos(
                dir,
                entries,
                needle,
                root_len,
            )[k] == (SearchTodo {
                path: entries[j].path,
                name: entries[j].name,
                depth: (dir.depth + 1) as u64,
                match_all: dir.depth > 0 && entry_matches(dir, entries[j], needle, root_len),
            }),
    decreases entries.len(),
{
    let prev = visit_todos(dir, entries.drop_last(), needle, root_len);
    let last = entry_todos(dir, entries.last(), needle, root_len);
    assert(visit_todos(dir, entries, needle, root_len) == prev + last);
    if j < entries.len() - 1 {
        assert(entries.drop_last()[j] == entries[j]);
        lemma_every_subdir_is_queued(dir, entries.drop_last(), needle, root_len, j);
        let k = choose|k: int|
            0 <= k < prev.len() && prev[k] == (SearchTodo {
                path: entries.drop_last()[j].path,
                name: entries.drop_last()[j].name,
                depth: (dir.depth + 1) as u64,
                match_all: dir.depth > 0 && entry_matches(dir, entries.drop_last()[j], needle, root_len),
            });
        assert((prev + last)[k] == prev[k]);
    } else {
        assert(entries.last() == entries[j]);
        assert((prev + last)[prev.len() as int] == last[0]);
    }
}

} // verus!
