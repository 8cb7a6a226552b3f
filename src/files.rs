use vstd::prelude::*;

verus! {

/// One file of a project: its path relative to the project root, and its
/// contents.
#[derive(Debug, Clone, PartialEq)]
pub struct FileEntry {
    pub path: String,
    pub contents: String,
}

/// The files that a sequence of writes leaves behind, a later write to a path
/// replacing an earlier one.
pub open spec fn tree_of(entries: Seq<FileEntry>) -> Map<Seq<char>, Seq<char>>
    decreases entries.len(),
{
    if entries.len() == 0 {
        Map::empty()
    } else {
        tree_of(entries.drop_last()).insert(entries.last().path@, entries.last().contents@)
    }
}

/// Files of a project held in memory, as a map from path to contents.
#[derive(Debug, Clone)]
pub struct FileTree {
    pub entries: Vec<FileEntry>,
}

impl View for FileTree {
    type V = Map<Seq<char>, Seq<char>>;

    open spec fn view(&self) -> Map<Seq<char>, Seq<char>> {
        tree_of(self.entries@)
    }
}

/// Entries after the first `i` that avoid path `k` leave what `k` maps to as
/// the first `i` left it.
pub proof fn lemma_tree_of_untouched(entries: Seq<FileEntry>, i: int, k: Seq<char>)
    requires
        0 <= i <= entries.len(),
        forall|j: int| i <= j < entries.len() ==> (#[trigger] entries[j]).path@ != k,
    ensures
        tree_of(entries).contains_key(k) == tree_of(entries.take(i)).contains_key(k),
        tree_of(entries)[k] == tree_of(entries.take(i))[k],
    decreases entries.len(),
{
    if entries.len() == i {
        assert(entries.take(i) =~= entries);
    } else {
        let init = entries.drop_last();
        assert(init.take(i) =~= entries.take(i));
        assert forall|j: int| i <= j < init.len() implies (#[trigger] init[j]).path@ != k by {
            assert(init[j] == entries[j]);
        }
        lemma_tree_of_untouched(init, i, k);
    }
}

/// A path that some entry writes is in the tree.
pub proof fn lemma_tree_of_has(entries: Seq<FileEntry>, j: int)
    requires
        0 <= j < entries.len(),
    ensures
        tree_of(entries).contains_key(entries[j].path@),
    decreases entries.len(),
{
    if j < entries.len() - 1 {
        lemma_tree_of_has(entries.drop_last(), j);
    }
}

impl FileTree {
    /// No files.
    pub fn new() -> (r: FileTree)
        ensures
            r@ == Map::<Seq<char>, Seq<char>>::empty(),
    {
        FileTree { entries: Vec::new() }
    }

    /// The files that the given writes leave, in order.
    pub fn from_entries(entries: Vec<FileEntry>) -> (r: FileTree)
        ensures
            r@ == tree_of(entries@),
    {
        FileTree { entries }
    }

    /// Sets the contents of `path`, replacing what was there.
    pub fn insert(&mut self, path: String, contents: String)
        ensures
            final(self)@ == old(self)@.insert(path@, contents@),
    {
        let ghost before = self.entries@;
        self.entries.push(FileEntry { path, contents });
        assert(self.entries@.drop_last() =~= before);
    }

    /// The contents of `path`, if the tree holds it.
    pub fn get(&self, path: &String) -> (r: Option<&String>)
        ensures
            match r {
                Some(c) => self@.contains_key(path@) && c@ == self@[path@],
                None => !self@.contains_key(path@),
            },
    {
        let mut i: usize = self.entries.len();
        while i > 0
            invariant
                i <= self.entries@.len(),
                forall|j: int| i <= j < self.entries@.len() ==> (#[trigger] self.entries@[j]).path@
                    != path@,
            decreases i,
        {
            let e = &self.entries[i - 1];
            if e.path == *path {
                proof {
                    lemma_tree_of_untouched(self.entries@, i as int, path@);
                    let pre = self.entries@.take(i as int);
                    assert(pre.drop_last() =~= self.entries@.take(i - 1));
                    assert(pre.last() == self.entries@[i - 1]);
                }
                return Some(&e.contents);
            }
            i -= 1;
        }
        proof {
            lemma_tree_of_untouched(self.entries@, 0, path@);
            assert(self.entries@.take(0) =~= Seq::<FileEntry>::empty());
        }
        None
    }
}

} // verus!
