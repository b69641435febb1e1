//! The decisions of a depth-first walk over a directory tree. The walk's
//! directory cursors live with the caller, which names each by a number; this
//! state machine tells the caller, for each entry that the current cursor
//! gives, what to do next.
use vstd::prelude::*;
use vstd::multiset::Multiset;
use vstd::string::StrSliceExecFns;

verus! {

/// The name ends in `.jpg`, letters in either case.
pub open spec fn has_jpg_extension(s: Seq<char>) -> bool {
    let n = s.len() as int;
    &&& n >= 4
    &&& s[n - 4] == '.'
    &&& (s[n - 3] == 'j' || s[n - 3] == 'J')
    &&& (s[n - 2] == 'p' || s[n - 2] == 'P')
    &&& (s[n - 1] == 'g' || s[n - 1] == 'G')
}

/// Whether a path names a JPEG file: it ends in `.jpg`, ignoring ASCII case.
pub fn is_jpg_name(path: &str) -> (r: bool)
    ensures
        r == has_jpg_extension(path@),
{
    let n = path.unicode_len();
    if n < 4 {
        return false;
    }
    let dot = path.get_char(n - 4);
    let j = path.get_char(n - 3);
    let p = path.get_char(n - 2);
    let g = path.get_char(n - 1);
    dot == '.' && (j == 'j' || j == 'J') && (p == 'p' || p == 'P') && (g == 'g' || g == 'G')
}

/// What the current cursor gave.
pub enum Entry {
    /// The cursor has no entries left.
    Exhausted,
    /// The entry could not be read.
    Unreadable,
    /// The entry is a directory.
    Directory,
    /// The entry is anything else, at this path.
    File(String),
}

impl Entry {
    /// What the entry is, as the walk's decisions see it.
    pub open spec fn kind(&self) -> EntryKind {
        match self {
            Entry::Exhausted => EntryKind::Exhausted,
            Entry::Unreadable => EntryKind::Unreadable,
            Entry::Directory => EntryKind::Directory,
            Entry::File(path) => EntryKind::File(path@),
        }
    }
}

/// The kinds of entries that the walk's decisions tell apart.
pub enum EntryKind {
    Exhausted,
    Unreadable,
    Directory,
    File(Seq<char>),
}

/// The decision of the walk for an entry of kind `kind`, where `idle` says
/// that no cursor waits.
pub open spec fn decide(kind: EntryKind, idle: bool) -> Step {
    match kind {
        EntryKind::Exhausted => if idle {
            Step::Finished
        } else {
            Step::Resumed
        },
        EntryKind::Unreadable => Step::Skipped,
        EntryKind::Directory => Step::Open,
        EntryKind::File(path) => if has_jpg_extension(path) {
            Step::Load
        } else {
            Step::Ignored
        },
    }
}

/// What the caller does next.
#[derive(Debug, PartialEq, Eq, Structural)]
pub enum Step {
    /// The walk is over.
    Finished,
    /// The current cursor is done; go on with the one that became current.
    Resumed,
    /// Report the unreadable entry and go on.
    Skipped,
    /// Open the directory; if that works, hand its cursor to `push`, else report
    /// it. Then go on.
    Open,
    /// Read this JPEG file's metadata and hand out its record; if it cannot be
    /// read, report it. The next call goes on with the walk.
    Load,
    /// Not a JPEG file: go on.
    Ignored,
}

/// A walk in progress: the cursor being read, and the cursors of directories
/// found but not yet read, the last found on top.
pub struct Walker {
    current: usize,
    waiting: Vec<usize>,
}

impl Walker {
    /// The cursor being read.
    pub closed spec fn cursor(&self) -> usize {
        self.current
    }

    /// The cursors waiting to be read, the next one last.
    pub closed spec fn pending(&self) -> Seq<usize> {
        self.waiting@
    }

    /// A walk that reads the cursor `root` first.
    pub fn new(root: usize) -> (w: Walker)
        ensures
            w.cursor() == root,
            w.pending() == Seq::<usize>::empty(),
    {
        Walker { current: root, waiting: Vec::new() }
    }

    /// The cursor to read the next entry from.
    pub fn current(&self) -> (r: usize)
        ensures
            r == self.cursor(),
    {
        self.current
    }

    /// Whether no cursor waits.
    pub fn is_idle(&self) -> (r: bool)
        ensures
            r == (self.pending().len() == 0),
    {
        self.waiting.len() == 0
    }

    /// Records the cursor of a directory just opened; it is read after the
    /// cursors that are read now, before those that waited already.
    pub fn push(&mut self, cursor: usize)
        ensures
            final(self).cursor() == old(self).cursor(),
            final(self).pending() == old(self).pending().push(cursor),
    {
        self.waiting.push(cursor);
    }

    /// Decides what to do with what the current cursor gave. Only an exhausted
    /// cursor changes the walk: the last waiting cursor becomes current, or,
    /// with none waiting, the walk is over.
    pub fn step(&mut self, entry: &Entry) -> (r: Step)
        ensures
            r == decide(entry.kind(), old(self).pending().len() == 0),
            r == Step::Resumed ==> final(self).cursor() == old(self).pending().last()
                && final(self).pending() == old(self).pending().drop_last(),
            r != Step::Resumed ==> final(self).cursor() == old(self).cursor()
                && final(self).pending() == old(self).pending(),
    {
        match entry {
            Entry::Exhausted => {
                match self.waiting.pop() {
                    Some(next) => {
                        self.current = next;
                        Step::Resumed
                    },
                    None => Step::Finished,
                }
            },
            Entry::Unreadable => Step::Skipped,
            Entry::Directory => Step::Open,
            Entry::File(path) => {
                if is_jpg_name(path.as_str()) {
                    Step::Load
                } else {
                    Step::Ignored
                }
            },
        }
    }
}

/// A model of what a directory listing holds, for reasoning about whole walks.
pub enum TreeEntry {
    /// An entry that cannot be read.
    Unreadable,
    /// A directory, with its listing, or `None` where it cannot be opened.
    Directory { listing: Option<Seq<TreeEntry>> },
    /// Any other entry: its path, and whether its metadata can be read.
    File { path: Seq<char>, loads: bool },
}

/// The number of entries in a listing, those of its subdirectories included.
pub open spec fn tree_size(es: Seq<TreeEntry>) -> nat
    decreases es,
{
    if es.len() == 0 {
        0
    } else {
        1 + tree_size(es.drop_first()) + match es[0] {
            TreeEntry::Directory { listing: Some(l) } => tree_size(l),
            _ => 0,
        }
    }
}

/// What a model entry is, as the walk's decisions see it.
pub open spec fn tree_kind(e: TreeEntry) -> EntryKind {
    match e {
        TreeEntry::Unreadable => EntryKind::Unreadable,
        TreeEntry::Directory { .. } => EntryKind::Directory,
        TreeEntry::File { path, .. } => EntryKind::File(path),
    }
}

/// What the entry itself adds to the walk's yield: its path, for a JPEG file
/// whose metadata can be read.
pub open spec fn own_paths(e: TreeEntry) -> Multiset<Seq<char>> {
    match e {
        TreeEntry::File { path, loads } => if loads && has_jpg_extension(path) {
            Multiset::singleton(path)
        } else {
            Multiset::empty()
        },
        _ => Multiset::empty(),
    }
}

/// The paths of the JPEG files in a listing and its readable subdirectories
/// whose metadata can be read.
pub open spec fn jpeg_paths(es: Seq<TreeEntry>) -> Multiset<Seq<char>>
    decreases es,
{
    if es.len() == 0 {
        Multiset::empty()
    } else {
        jpeg_paths(es.drop_first()).add(
            match es[0] {
                TreeEntry::Directory { listing: Some(l) } => jpeg_paths(l),
                _ => own_paths(es[0]),
            },
        )
    }
}

/// `tree_size` summed over waiting listings.
pub open spec fn waiting_size(w: Seq<Seq<TreeEntry>>) -> nat
    decreases w.len(),
{
    if w.len() == 0 {
        0
    } else {
        waiting_size(w.drop_last()) + tree_size(w.last())
    }
}

/// `jpeg_paths` gathered over waiting listings.
pub open spec fn waiting_paths(w: Seq<Seq<TreeEntry>>) -> Multiset<Seq<char>>
    decreases w.len(),
{
    if w.len() == 0 {
        Multiset::empty()
    } else {
        waiting_paths(w.drop_last()).add(jpeg_paths(w.last()))
    }
}

/// The paths of the records that a walk yields from the state `(current,
/// waiting)`, in order, taking at most `fuel` steps. Each step is the one that
/// `decide` (and so `Walker::step`) picks for the current cursor's next entry:
/// an opened directory waits on top, an exhausted cursor gives way to the last
/// waiting one, and a JPEG file yields its path when its metadata loads.
/// `None` where `fuel` runs out first.
pub open spec fn walk_paths(current: Seq<TreeEntry>, waiting: Seq<Seq<TreeEntry>>, fuel: nat)
    -> Option<Seq<Seq<char>>>
    decreases fuel,
{
    if fuel == 0 {
        None
    } else {
        let kind = if current.len() == 0 {
            EntryKind::Exhausted
        } else {
            tree_kind(current[0])
        };
        let rest = current.drop_first();
        let f = (fuel - 1) as nat;
        match decide(kind, waiting.len() == 0) {
            Step::Finished => Some(Seq::empty()),
            Step::Resumed => walk_paths(waiting.last(), waiting.drop_last(), f),
            Step::Open => match current[0] {
                TreeEntry::Directory { listing: Some(l) } => walk_paths(rest, waiting.push(l), f),
                _ => walk_paths(rest, waiting, f),
            },
            Step::Load => match current[0] {
                TreeEntry::File { path, loads: true } => match walk_paths(rest, waiting, f) {
                    Some(ps) => Some(seq![path] + ps),
                    None => None,
                },
                _ => walk_paths(rest, waiting, f),
            },
            _ => walk_paths(rest, waiting, f),
        }
    }
}

proof fn lemma_walk_state(current: Seq<TreeEntry>, waiting: Seq<Seq<TreeEntry>>, fuel: nat)
    requires
        fuel >= 2 * (tree_size(current) + waiting_size(waiting)) + waiting.len() + 1,
    ensures
        walk_paths(current, waiting, fuel) matches Some(ps) && ps.to_multiset() =~= jpeg_paths(
            current,
        ).add(waiting_paths(waiting)),
    decreases fuel,
{
    if current.len() == 0 {
        assert(jpeg_paths(current) =~= Multiset::empty());
        if waiting.len() > 0 {
            lemma_walk_state(waiting.last(), waiting.drop_last(), (fuel - 1) as nat);
        } else {
            let e = Seq::<Seq<char>>::empty();
            e.to_multiset_ensures();
            assert(e.to_multiset() =~= Multiset::empty());
            assert(waiting_paths(waiting) =~= Multiset::empty());
        }
    } else {
        let rest = current.drop_first();
        let f = (fuel - 1) as nat;
        match current[0] {
            TreeEntry::Directory { listing: Some(l) } => {
                let w2 = waiting.push(l);
                assert(w2.drop_last() =~= waiting);
                assert(waiting_size(w2) == waiting_size(waiting) + tree_size(l));
                assert(waiting_paths(w2) == waiting_paths(waiting).add(jpeg_paths(l)));
                lemma_walk_state(rest, w2, f);
                assert(jpeg_paths(current) == jpeg_paths(rest).add(jpeg_paths(l)));
            },
            TreeEntry::File { path, loads } => {
                lemma_walk_state(rest, waiting, f);
                if loads && has_jpg_extension(path) {
                    let ps = walk_paths(rest, waiting, f)->Some_0;
                    let qs = seq![path] + ps;
                    assert(qs =~= ps.insert(0, path));
                    vstd::seq_lib::to_multiset_insert(ps, 0, path);
                    assert(Multiset::empty().insert(path) =~= Multiset::singleton(path));
                    assert(jpeg_paths(current) == jpeg_paths(rest).add(Multiset::singleton(path)));
                } else {
                    assert(jpeg_paths(current) == jpeg_paths(rest).add(Multiset::empty()));
                }
            },
            _ => {
                lemma_walk_state(rest, waiting, f);
                assert(jpeg_paths(current) == jpeg_paths(rest).add(Multiset::empty()));
            },
        }
    }
}

/// A walk from a root listing ends within `2 * tree_size(root) + 1` steps and
/// yields the path of each JPEG file of the tree whose metadata can be read,
/// each once: entries that cannot be read, directories that cannot be opened
/// and files whose metadata fails are passed over without ending the walk.
pub proof fn lemma_walk_yields_loadable_jpegs(root: Seq<TreeEntry>)
    ensures
        walk_paths(root, Seq::empty(), 2 * tree_size(root) + 1) matches Some(ps)
            && ps.to_multiset() =~= jpeg_paths(root) && ps.len() == jpeg_paths(root).len(),
{
    lemma_walk_state(root, Seq::empty(), 2 * tree_size(root) + 1);
    let ps = walk_paths(root, Seq::empty(), 2 * tree_size(root) + 1)->Some_0;
    assert(waiting_paths(Seq::<Seq<TreeEntry>>::empty()) =~= Multiset::empty());
    ps.to_multiset_ensures();
}

} // verus!
