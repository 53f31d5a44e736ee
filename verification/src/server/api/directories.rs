//! The directories that the front end offers for choosing the ROM directory.

use vstd::prelude::*;
use crate::outside::{lowercase, lowercased};
use crate::text::{is_path_within, path_within};
use crate::text::{
    chars_of, is_text_before, lemma_text_before_irreflexive,
    lemma_text_before_transitive, opt_view, same_text, text_before,
};

verus! {

/// The request for the directories below a path.
#[derive(Debug)]
pub struct ListDirectoriesRequest {
    pub path: String,
}

/// One directory: its name and its full path.
#[derive(Debug, Clone)]
pub struct DirectoryEntry {
    pub name: String,
    pub path: String,
}

/// The mathematical value of a [`DirectoryEntry`].
pub struct DirectoryEntryView {
    pub name: Seq<char>,
    pub path: Seq<char>,
}

impl View for DirectoryEntry {
    type V = DirectoryEntryView;

    open spec fn view(&self) -> DirectoryEntryView {
        DirectoryEntryView { name: self.name@, path: self.path@ }
    }
}

/// The values of a list of directories, in order.
pub open spec fn directories_view(v: Seq<DirectoryEntry>) -> Seq<DirectoryEntryView> {
    Seq::new(v.len(), |i: int| v[i]@)
}

/// One entry of the directory that was read: a directory or something else.
#[derive(Debug, Clone)]
pub struct ListedEntry {
    pub name: String,
    pub path: String,
    pub is_dir: bool,
}

/// The mathematical value of a [`ListedEntry`].
pub struct ListedEntryView {
    pub name: Seq<char>,
    pub path: Seq<char>,
    pub is_dir: bool,
}

impl View for ListedEntry {
    type V = ListedEntryView;

    open spec fn view(&self) -> ListedEntryView {
        ListedEntryView { name: self.name@, path: self.path@, is_dir: self.is_dir }
    }
}

/// The values of a list of entries, in order.
pub open spec fn listed_view(v: Seq<ListedEntry>) -> Seq<ListedEntryView> {
    Seq::new(v.len(), |i: int| v[i]@)
}

/// The answer: the directory that was read, its parent where the front end
/// may go there, and its directories.
#[derive(Debug)]
pub struct ListDirectoriesResponse {
    pub current_path: String,
    pub parent_path: Option<String>,
    pub directories: Vec<DirectoryEntry>,
}

/// The directory that a request means: the working directory for an empty
/// path and for `.`, else the path itself.
pub open spec fn requested(path: Seq<char>, cwd: Seq<char>) -> Seq<char> {
    if path.len() == 0 || path == "."@ {
        cwd
    } else {
        path
    }
}

/// The parent that is offered: the parent of the directory that was read,
/// where it lies at or below the working directory.
pub open spec fn offered_parent(parent: Option<Seq<char>>, cwd: Seq<char>) -> Option<Seq<char>> {
    match parent {
        Some(p) => if path_within(p, cwd) {
            Some(p)
        } else {
            None
        },
        None => None,
    }
}

/// Whether an entry is offered: a directory whose name does not begin with
/// a `.`.
pub open spec fn is_offered(entry: ListedEntryView) -> bool {
    entry.is_dir && !(entry.name.len() > 0 && entry.name[0] == '.')
}

/// The name by which a directory is ordered: its name in lower case.
pub open spec fn sort_key(entry: DirectoryEntryView) -> Seq<char> {
    lowercased(entry.name)
}

/// Where `entry` goes into `sorted`: before the first directory whose key
/// stands behind its own, or at the end.
pub open spec fn directory_index(sorted: Seq<DirectoryEntryView>, entry: DirectoryEntryView) -> int
    decreases sorted.len(),
{
    if sorted.len() == 0 || text_before(sort_key(entry), sort_key(sorted[0])) {
        0
    } else {
        1 + directory_index(sorted.drop_first(), entry)
    }
}

/// The directories among `entries` that are offered, ordered by their names
/// in lower case; directories with the same key keep their order.
pub open spec fn offered_directories(entries: Seq<ListedEntryView>) -> Seq<DirectoryEntryView>
    decreases entries.len(),
{
    if entries.len() == 0 {
        Seq::empty()
    } else {
        let front = offered_directories(entries.drop_last());
        let last = entries.last();
        if is_offered(last) {
            let entry = DirectoryEntryView { name: last.name, path: last.path };
            front.insert(directory_index(front, entry), entry)
        } else {
            front
        }
    }
}

/// Whether no directory stands before one with a smaller key.
pub open spec fn ordered_by_key(directories: Seq<DirectoryEntryView>) -> bool {
    forall|i: int, j: int|
        0 <= i < j < directories.len() ==> !text_before(
            sort_key(#[trigger] directories[j]),
            sort_key(#[trigger] directories[i]),
        )
}

/// The index lies in the list; the new directory does not stand before any
/// directory in front of it, and stands before the directory at it.
pub proof fn lemma_directory_index(sorted: Seq<DirectoryEntryView>, entry: DirectoryEntryView)
    ensures
        0 <= directory_index(sorted, entry) <= sorted.len(),
        forall|i: int|
            0 <= i < directory_index(sorted, entry) ==> !text_before(
                sort_key(entry),
                sort_key(#[trigger] sorted[i]),
            ),
        directory_index(sorted, entry) < sorted.len() ==> text_before(
            sort_key(entry),
            sort_key(sorted[directory_index(sorted, entry)]),
        ),
    decreases sorted.len(),
{
    if sorted.len() == 0 || text_before(sort_key(entry), sort_key(sorted[0])) {
    } else {
        let rest = sorted.drop_first();
        lemma_directory_index(rest, entry);
        assert forall|i: int| 0 <= i < directory_index(sorted, entry) implies !text_before(
            sort_key(entry),
            sort_key(#[trigger] sorted[i]),
        ) by {
            if i > 0 {
                assert(rest[i - 1] == sorted[i]);
            }
        }
        if directory_index(sorted, entry) < sorted.len() {
            assert(rest[directory_index(rest, entry)] == sorted[directory_index(sorted, entry)]);
        }
    }
}

/// A place with the two properties of the index is the index.
proof fn lemma_directory_index_unique(
    sorted: Seq<DirectoryEntryView>,
    entry: DirectoryEntryView,
    k: int,
)
    requires
        0 <= k <= sorted.len(),
        forall|i: int|
            0 <= i < k ==> !text_before(sort_key(entry), sort_key(#[trigger] sorted[i])),
        k < sorted.len() ==> text_before(sort_key(entry), sort_key(sorted[k])),
    ensures
        directory_index(sorted, entry) == k,
    decreases sorted.len(),
{
    if sorted.len() == 0 {
    } else if text_before(sort_key(entry), sort_key(sorted[0])) {
        if k > 0 {
            assert(!text_before(sort_key(entry), sort_key(sorted[0])));
        }
    } else {
        let rest = sorted.drop_first();
        assert forall|i: int| 0 <= i < k - 1 implies !text_before(
            sort_key(entry),
            sort_key(#[trigger] rest[i]),
        ) by {
            assert(rest[i] == sorted[i + 1]);
        }
        if k - 1 < rest.len() {
            assert(rest[k - 1] == sorted[k]);
        }
        lemma_directory_index_unique(rest, entry, k - 1);
    }
}

/// The offered directories are ordered by their keys, and each of them is
/// an offered entry.
pub proof fn lemma_offered_directories(entries: Seq<ListedEntryView>)
    ensures
        ordered_by_key(offered_directories(entries)),
        forall|k: int|
            0 <= k < offered_directories(entries).len() ==> exists|i: int|
                0 <= i < entries.len() && is_offered(entries[i]) && entries[i].name == (
                #[trigger] offered_directories(entries)[k]).name && entries[i].path
                    == offered_directories(entries)[k].path,
    decreases entries.len(),
{
    if entries.len() > 0 {
        let front_entries = entries.drop_last();
        lemma_offered_directories(front_entries);
        let front = offered_directories(front_entries);
        let last = entries.last();
        let out = offered_directories(entries);
        assert forall|k: int| 0 <= k < front.len() implies exists|i: int|
            0 <= i < entries.len() && is_offered(entries[i]) && entries[i].name == (
            #[trigger] front[k]).name && entries[i].path == front[k].path by {
            let i = choose|i: int|
                0 <= i < front_entries.len() && is_offered(front_entries[i])
                    && front_entries[i].name == front[k].name && front_entries[i].path
                    == front[k].path;
            assert(entries[i] == front_entries[i]);
        }
        if is_offered(last) {
            let entry = DirectoryEntryView { name: last.name, path: last.path };
            lemma_directory_index(front, entry);
            let at = directory_index(front, entry);
            assert forall|i: int, j: int| 0 <= i < j < out.len() implies !text_before(
                sort_key(#[trigger] out[j]),
                sort_key(#[trigger] out[i]),
            ) by {
                if j == at {
                    assert(out[i] == front[i]);
                } else if i == at {
                    assert(out[j] == front[j - 1]);
                    if text_before(sort_key(front[j - 1]), sort_key(entry)) {
                        lemma_text_before_transitive(
                            sort_key(front[j - 1]),
                            sort_key(entry),
                            sort_key(front[at]),
                        );
                        if j - 1 > at {
                            assert(!text_before(sort_key(front[j - 1]), sort_key(front[at])));
                        } else {
                            lemma_text_before_irreflexive(sort_key(front[at]));
                        }
                    }
                } else {
                    let a = if i < at {
                        i
                    } else {
                        i - 1
                    };
                    let b = if j < at {
                        j
                    } else {
                        j - 1
                    };
                    assert(out[i] == front[a]);
                    assert(out[j] == front[b]);
                }
            }
            assert forall|k: int| 0 <= k < out.len() implies exists|i: int|
                0 <= i < entries.len() && is_offered(entries[i]) && entries[i].name == (
                #[trigger] out[k]).name && entries[i].path == out[k].path by {
                if k == at {
                    assert(entries[entries.len() - 1] == last);
                } else {
                    let f = if k < at {
                        k
                    } else {
                        k - 1
                    };
                    assert(out[k] == front[f]);
                }
            }
        }
    }
}

/// The directory that a request means.
pub fn requested_path(path: &str, cwd: &str) -> (r: String)
    ensures
        r@ == requested(path@, cwd@),
{
    proof {
        reveal_strlit("");
        if path@.len() == 0 {
            assert(path@ =~= ""@);
        }
    }
    if same_text(path, "") || same_text(path, ".") {
        String::from_str(cwd)
    } else {
        String::from_str(path)
    }
}

/// The answer for the directory `current_path` with the given parent and
/// entries: the parent is offered only at or below the working directory
/// `cwd`, and of the entries the directories that are not hidden, ordered by
/// their names in lower case.
pub fn list_directories(
    current_path: String,
    parent: Option<String>,
    cwd: &str,
    entries: &Vec<ListedEntry>,
) -> (r: ListDirectoriesResponse)
    ensures
        r.current_path@ == current_path@,
        opt_view(r.parent_path) == offered_parent(opt_view(parent), cwd@),
        directories_view(r.directories@) == offered_directories(listed_view(entries@)),
        ordered_by_key(directories_view(r.directories@)),
{
    let parent_path = match parent {
        Some(p) => if is_path_within(p.as_str(), cwd) {
            Some(p)
        } else {
            None
        },
        None => None,
    };
    let ghost all = listed_view(entries@);
    let mut directories: Vec<DirectoryEntry> = Vec::new();
    let mut keys: Vec<String> = Vec::new();
    let mut i: usize = 0;
    proof {
        assert(all.take(0) =~= Seq::<ListedEntryView>::empty());
        assert(directories_view(directories@) =~= Seq::<DirectoryEntryView>::empty());
    }
    while i < entries.len()
        invariant
            i <= entries@.len(),
            all == listed_view(entries@),
            keys@.len() == directories@.len(),
            forall|k: int|
                0 <= k < keys@.len() ==> (#[trigger] keys@[k])@ == sort_key(directories@[k]@),
            directories_view(directories@) == offered_directories(all.take(i as int)),
        decreases entries@.len() - i,
    {
        proof {
            assert(all.take(i + 1).drop_last() =~= all.take(i as int));
            assert(all.take(i + 1).last() == entries@[i as int]@);
        }
        let listed = &entries[i];
        let name_chars = chars_of(listed.name.as_str());
        let hidden = name_chars.len() > 0 && name_chars[0] == '.';
        if listed.is_dir && !hidden {
            let entry = DirectoryEntry { name: listed.name.clone(), path: listed.path.clone() };
            let key = lowercase(entry.name.as_str());
            let ghost before = directories_view(directories@);
            let mut k: usize = 0;
            while k < keys.len() && !is_text_before(key.as_str(), keys[k].as_str())
                invariant
                    k <= keys@.len(),
                    keys@.len() == directories@.len(),
                    key@ == sort_key(entry@),
                    before == directories_view(directories@),
                    forall|m: int|
                        0 <= m < keys@.len() ==> (#[trigger] keys@[m])@ == sort_key(
                            directories@[m]@,
                        ),
                    forall|m: int|
                        0 <= m < k ==> !text_before(sort_key(entry@), sort_key(#[trigger] before[m])),
                decreases keys@.len() - k,
            {
                assert(before[k as int] == directories@[k as int]@);
                k += 1;
            }
            proof {
                if k < keys@.len() {
                    assert(before[k as int] == directories@[k as int]@);
                }
                lemma_directory_index_unique(before, entry@, k as int);
            }
            keys.insert(k, key);
            directories.insert(k, entry);
            assert(directories_view(directories@) =~= before.insert(k as int, entry@));
        }
        i += 1;
    }
    proof {
        assert(all.take(all.len() as int) =~= all);
        lemma_offered_directories(all);
    }
    ListDirectoriesResponse { current_path, parent_path, directories }
}

} // verus!
