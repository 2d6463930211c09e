//! Directories, classified entries, and the breadth-first walk that collects
//! every file under a root.
//!
//! The walk keeps a frontier of directories still to expand.  Each round the
//! host lists every directory of the frontier (directories that cannot be
//! listed contribute nothing), hands the classified entries back, and the
//! walk banks the files and replaces the frontier with the directories just
//! found.  The walk is over when the frontier is empty; at that point the
//! collected files are exactly the file entries of every round, in order,
//! with no duplicates and no omissions.

use vstd::prelude::*;

use crate::file::File;
use crate::text;

verus! {

/// A directory still to be expanded: a pending-work item, never persisted.
#[derive(Debug)]
pub struct Directory {
    path: String,
}

impl Directory {
    /// The stored path.
    pub closed spec fn spec_path(&self) -> Seq<char> {
        self.path@
    }

    /// Records a directory; backslashes in the path are normalized to
    /// forward slashes.
    pub fn new(path: String) -> (r: Self)
        ensures
            r.spec_path() == text::normalized(path@),
    {
        let path = text::normalize_separators(path.as_str());
        Self { path }
    }

    pub fn path(&self) -> (r: String)
        ensures
            r@ == self.spec_path(),
    {
        self.path.clone()
    }
}

/// One filesystem path, classified: a plain file or a directory.  Paths that
/// are neither (broken links, special files) get no entry at all.
#[derive(Debug)]
pub enum Entry {
    Directory(Directory),
    File(File),
}

/// The files among `entries`, in order.
pub open spec fn files_of(entries: Seq<Entry>) -> Seq<File>
    decreases entries.len(),
{
    if entries.len() == 0 {
        Seq::empty()
    } else {
        let rest = files_of(entries.drop_last());
        match entries.last() {
            Entry::File(f) => rest.push(f),
            Entry::Directory(_) => rest,
        }
    }
}

/// The directories among `entries`, in order.
pub open spec fn dirs_of(entries: Seq<Entry>) -> Seq<Directory>
    decreases entries.len(),
{
    if entries.len() == 0 {
        Seq::empty()
    } else {
        let rest = dirs_of(entries.drop_last());
        match entries.last() {
            Entry::File(_) => rest,
            Entry::Directory(d) => rest.push(d),
        }
    }
}

/// Splitting a round of entries distributes over concatenation.
pub proof fn lemma_partition_concat(a: Seq<Entry>, b: Seq<Entry>)
    ensures
        files_of(a + b) == files_of(a) + files_of(b),
        dirs_of(a + b) == dirs_of(a) + dirs_of(b),
    decreases b.len(),
{
    if b.len() == 0 {
        assert(a + b =~= a);
        assert(files_of(a) + files_of(b) =~= files_of(a));
        assert(dirs_of(a) + dirs_of(b) =~= dirs_of(a));
    } else {
        lemma_partition_concat(a, b.drop_last());
        assert((a + b).drop_last() =~= a + b.drop_last());
        assert((a + b).last() == b.last());
        match b.last() {
            Entry::File(f) => {
                assert(files_of(a) + files_of(b) =~= (files_of(a) + files_of(
                    b.drop_last(),
                )).push(f));
                assert(dirs_of(a) + dirs_of(b) =~= dirs_of(a) + dirs_of(b.drop_last()));
            },
            Entry::Directory(d) => {
                assert(dirs_of(a) + dirs_of(b) =~= (dirs_of(a) + dirs_of(b.drop_last())).push(d));
                assert(files_of(a) + files_of(b) =~= files_of(a) + files_of(b.drop_last()));
            },
        }
    }
}

/// One round of classified entries, split into the files to bank and the
/// directories that form the next frontier.
pub struct DirContent {
    pub files: Vec<File>,
    pub dirs: Vec<Directory>,
}

/// Splits a round of classified entries: files keep their order in `files`,
/// directories keep theirs in `dirs`, and nothing else appears.
pub fn collect_content(entries: Vec<Entry>) -> (r: DirContent)
    ensures
        r.files@ == files_of(entries@),
        r.dirs@ == dirs_of(entries@),
{
    let mut files: Vec<File> = Vec::new();
    let mut dirs: Vec<Directory> = Vec::new();
    // Consume from the front so each entry is moved, not cloned.
    let mut rest = entries;
    let ghost all = rest@;
    let n = rest.len();
    proof {
        assert(all.len() == n);
        assert(all.take(0) =~= Seq::<Entry>::empty());
    }
    let mut taken: usize = 0;
    while rest.len() > 0
        invariant
            all.len() <= usize::MAX,
            taken <= all.len(),
            rest@ == all.skip(taken as int),
            files@ == files_of(all.take(taken as int)),
            dirs@ == dirs_of(all.take(taken as int)),
        decreases rest@.len(),
    {
        let e = rest.remove(0);
        proof {
            assert(e == all[taken as int]);
            assert(all.skip(taken as int).skip(1) =~= all.skip(taken + 1));
            assert(all.take(taken + 1).drop_last() =~= all.take(taken as int));
            assert(all.take(taken + 1).last() == all[taken as int]);
        }
        match e {
            Entry::File(f) => files.push(f),
            Entry::Directory(d) => dirs.push(d),
        }
        taken = taken + 1;
    }
    proof {
        assert(all.take(taken as int) =~= all);
    }
    DirContent { files, dirs }
}

/// The files a finished walk yields: the file entries of every round, in
/// round order.
pub open spec fn walk_files(rounds: Seq<Seq<Entry>>) -> Seq<File>
    decreases rounds.len(),
{
    if rounds.len() == 0 {
        Seq::empty()
    } else {
        walk_files(rounds.drop_last()) + files_of(rounds.last())
    }
}

/// A breadth-first walk in progress: the files banked so far and the
/// directories still to expand.
pub struct Walker {
    files: Vec<File>,
    frontier: Vec<Directory>,
    rounds: Ghost<Seq<Seq<Entry>>>,
}

impl Walker {
    /// The files banked so far.
    pub closed spec fn spec_files(&self) -> Seq<File> {
        self.files@
    }

    /// The directories still to expand.
    pub closed spec fn spec_frontier(&self) -> Seq<Directory> {
        self.frontier@
    }

    /// The rounds of entries fed to the walk so far.
    pub closed spec fn spec_rounds(&self) -> Seq<Seq<Entry>> {
        self.rounds@
    }

    /// The banked files are exactly the file entries of the rounds fed so
    /// far, and the frontier is what the last round opened.
    pub open spec fn wf(&self) -> bool {
        &&& self.spec_files() == walk_files(self.spec_rounds())
        &&& self.spec_rounds().len() > 0 ==> self.spec_frontier() == dirs_of(
            self.spec_rounds().last(),
        )
    }

    /// Starts a walk at `root`: nothing banked, the root alone on the
    /// frontier.  A root that does not exist will fail to list, so its round
    /// is empty and the walk ends with no files and no error.
    pub fn new(root: String) -> (r: Self)
        ensures
            r.wf(),
            r.spec_files().len() == 0,
            r.spec_rounds().len() == 0,
            r.spec_frontier().len() == 1,
            r.spec_frontier()[0].spec_path() == text::normalized(root@),
    {
        let mut frontier: Vec<Directory> = Vec::new();
        frontier.push(Directory::new(root));
        Walker { files: Vec::new(), frontier, rounds: Ghost(Seq::empty()) }
    }

    /// Whether the walk is over: no directory left to expand.
    pub fn done(&self) -> (r: bool)
        ensures
            r == (self.spec_frontier().len() == 0),
    {
        self.frontier.len() == 0
    }

    /// The directories the host must list for the current round.
    pub fn frontier(&self) -> (r: &Vec<Directory>)
        ensures
            r@ == self.spec_frontier(),
    {
        &self.frontier
    }

    /// Feeds one round: `entries` are the classified children of every
    /// directory of the current frontier, in order (a directory that could
    /// not be listed contributes none).  The files are banked after those
    /// already held, in order and nothing but them; the directories replace
    /// the frontier for the next round.
    pub fn advance(&mut self, entries: Vec<Entry>)
        requires
            old(self).wf(),
        ensures
            final(self).wf(),
            final(self).spec_rounds() == old(self).spec_rounds().push(entries@),
            final(self).spec_files() == old(self).spec_files() + files_of(entries@),
            final(self).spec_frontier() == dirs_of(entries@),
    {
        proof {
            assert(self.rounds@.push(entries@).drop_last() =~= self.rounds@);
        }
        let ghost new_rounds = self.rounds@.push(entries@);
        let mut content = collect_content(entries);
        self.files.append(&mut content.files);
        self.frontier = content.dirs;
        self.rounds = Ghost(new_rounds);
    }

    /// Ends the walk, yielding every file banked.
    pub fn into_files(self) -> (r: Vec<File>)
        ensures
            r@ == self.spec_files(),
    {
        self.files
    }
}

/// A walk yields exactly the file entries of its rounds: every file of every
/// round, in order, with no duplicates and no omissions.  Flattening the
/// rounds and splitting once is the same as splitting round by round.
pub proof fn lemma_walk_files_complete(rounds: Seq<Seq<Entry>>)
    ensures
        walk_files(rounds) == files_of(rounds.flatten()),
    decreases rounds.len(),
{
    if rounds.len() == 0 {
        assert(rounds.flatten() =~= Seq::<Entry>::empty());
    } else {
        lemma_walk_files_complete(rounds.drop_last());
        rounds.lemma_flatten_and_flatten_alt_are_equivalent();
        rounds.drop_last().lemma_flatten_and_flatten_alt_are_equivalent();
        assert(rounds.flatten_alt() =~= rounds.drop_last().flatten_alt() + rounds.last());
        lemma_partition_concat(rounds.drop_last().flatten(), rounds.last());
    }
}

} // verus!
