//! What was found on the host's disk: the library asks, and whoever looked
//! at the disk has answered in advance.

use vstd::prelude::*;
use crate::text::texts;

verus! {

/// What a `FileIndex` holds, as mathematical values.
pub struct FileIndexView {
    /// The paths that were found to exist.
    pub paths: Seq<Seq<char>>,
    /// The directories that were read, each with the names of its entries.
    pub listings: Seq<(Seq<char>, Seq<Seq<char>>)>,
}

/// The index of the first of `listings` for the directory `dir`.
pub open spec fn listing_position(listings: Seq<(Seq<char>, Seq<Seq<char>>)>, dir: Seq<char>) -> Option<
    int,
>
    decreases listings.len(),
{
    if listings.len() == 0 {
        None
    } else if listings[0].0 == dir {
        Some(0)
    } else {
        match listing_position(listings.drop_first(), dir) {
            Some(i) => Some(i + 1),
            None => None,
        }
    }
}

/// Where the first `n` listings are for other directories and the `n`-th, if
/// there is one, is for `dir`, the position of `dir` is `n`, or none at the
/// end.
pub proof fn lemma_listing_position(
    listings: Seq<(Seq<char>, Seq<Seq<char>>)>,
    dir: Seq<char>,
    n: int,
)
    requires
        0 <= n <= listings.len(),
        forall|k: int| 0 <= k < n ==> (#[trigger] listings[k]).0 != dir,
        n == listings.len() || listings[n].0 == dir,
    ensures
        listing_position(listings, dir) == (if n < listings.len() {
            Some(n)
        } else {
            None
        }),
    decreases n,
{
    if n > 0 {
        let rest = listings.drop_first();
        assert forall|k: int| 0 <= k < n - 1 implies (#[trigger] rest[k]).0 != dir by {
            assert(rest[k] == listings[k + 1]);
        }
        lemma_listing_position(rest, dir, n - 1);
    }
}

impl FileIndexView {
    /// Whether `path` was found to exist.
    pub open spec fn has_path(self, path: Seq<char>) -> bool {
        self.paths.contains(path)
    }

    /// The names of the entries of the directory `dir`, as they were first
    /// recorded; `None` for a directory that was not read.
    pub open spec fn read_dir(self, dir: Seq<char>) -> Option<Seq<Seq<char>>> {
        match listing_position(self.listings, dir) {
            Some(i) => Some(self.listings[i].1),
            None => None,
        }
    }
}

/// Facts about the host's disk: paths that exist, and directories with the
/// names of their entries. A path that was not recorded counts as missing, a
/// directory that was not recorded as unreadable.
#[derive(Debug)]
pub struct FileIndex {
    paths: Vec<String>,
    listings: Vec<(String, Vec<String>)>,
}

impl View for FileIndex {
    type V = FileIndexView;

    closed spec fn view(&self) -> FileIndexView {
        FileIndexView {
            paths: texts(self.paths@),
            listings: Seq::new(
                self.listings@.len(),
                |i: int| (self.listings@[i].0@, texts(self.listings@[i].1@)),
            ),
        }
    }
}

impl FileIndex {
    /// An index without facts: nothing exists.
    pub fn new() -> (index: FileIndex)
        ensures
            index@.paths == Seq::<Seq<char>>::empty(),
            index@.listings == Seq::<(Seq<char>, Seq<Seq<char>>)>::empty(),
    {
        let index = FileIndex { paths: Vec::new(), listings: Vec::new() };
        assert(index@.paths =~= Seq::<Seq<char>>::empty());
        assert(index@.listings =~= Seq::<(Seq<char>, Seq<Seq<char>>)>::empty());
        index
    }

    /// Records that `path` exists.
    pub fn add_path(&mut self, path: &str)
        ensures
            final(self)@.paths == old(self)@.paths.push(path@),
            final(self)@.listings == old(self)@.listings,
    {
        self.paths.push(path.to_owned());
        assert(self@.paths =~= old(self)@.paths.push(path@));
        assert(self@.listings =~= old(self)@.listings);
    }

    /// Records that the directory `dir` was read and held entries with the
    /// given names. Of two records for one directory the first counts.
    pub fn add_listing(&mut self, dir: &str, names: Vec<String>)
        ensures
            final(self)@.paths == old(self)@.paths,
            final(self)@.listings == old(self)@.listings.push((dir@, texts(names@))),
    {
        self.listings.push((dir.to_owned(), names));
        assert(self@.paths =~= old(self)@.paths);
        assert(self@.listings =~= old(self)@.listings.push((dir@, texts(names@))));
    }

    /// Whether `path` exists.
    pub fn has_path(&self, path: &str) -> (found: bool)
        ensures
            found == self@.has_path(path@),
    {
        let wanted = path.to_owned();
        let mut i: usize = 0;
        while i < self.paths.len()
            invariant
                i <= self.paths@.len(),
                wanted@ == path@,
                forall|k: int| 0 <= k < i ==> (#[trigger] self@.paths[k]) != path@,
            decreases self.paths@.len() - i,
        {
            if self.paths[i] == wanted {
                assert(self@.paths[i as int] == path@);
                return true;
            }
            i += 1;
        }
        false
    }

    /// The names of the entries of the directory `dir`.
    pub fn read_dir(&self, dir: &str) -> (names: Option<&Vec<String>>)
        ensures
            match names {
                Some(list) => self@.read_dir(dir@) == Some(texts(list@)),
                None => self@.read_dir(dir@) is None,
            },
    {
        let wanted = dir.to_owned();
        let mut i: usize = 0;
        while i < self.listings.len()
            invariant
                i <= self.listings@.len(),
                wanted@ == dir@,
                forall|k: int| 0 <= k < i ==> (#[trigger] self@.listings[k]).0 != dir@,
            decreases self.listings@.len() - i,
        {
            if self.listings[i].0 == wanted {
                proof {
                    lemma_listing_position(self@.listings, dir@, i as int);
                }
                return Some(&self.listings[i].1);
            }
            i += 1;
        }
        proof {
            lemma_listing_position(self@.listings, dir@, i as int);
        }
        None
    }
}

} // verus!
