//! The sweep that repopulates the catalog, in its verified parts: turning
//! walked files into insertable descriptors (dropping the files whose type
//! cannot be classified), grouping siblings by a hash of their directory,
//! cutting the inserts into store-sized batches, and the single-flight gate
//! that admits at most one sweep at a time.

use std::collections::hash_map::DefaultHasher;
use std::hash::Hasher;
use vstd::prelude::*;
use vstd::std_specs::hash::DefaultHasherAdditionalSpecFns;

use crate::catalog::InsertFile;
use crate::dir::{dirs_of, files_of, Directory, Entry, Walker};
use crate::error::FsError;
use crate::file;
use crate::file::File;
use crate::text;

verus! {

/// At most this many descriptors go into one insert batch, respecting the
/// store's limit on statement parameters.
pub const INSERT_BATCH_SIZE: usize = 1024;

/// The group id computed for a directory path: the standard hasher run over
/// the path's bytes, rendered in decimal.  A function of the directory path
/// string alone.
pub open spec fn group_id_of(dir: Seq<char>) -> Seq<char> {
    text::decimal(DefaultHasher::spec_finish(seq![vstd::utf8::encode_utf8(dir)]) as nat)
}

/// Computes the group id of a directory path: files sharing a parent
/// directory share this value.
pub fn calc_group_id(path: &str) -> (r: String)
    ensures
        r@ == group_id_of(path@),
{
    let mut hasher = DefaultHasher::new();
    hasher.write(path.as_bytes());
    let h = hasher.finish();
    text::u64_to_decimal(h)
}

/// Two files in the same directory get the same group id, whatever their
/// names: the group id is a function of the parent directory path alone.
pub proof fn lemma_same_directory_same_group(p1: Seq<char>, p2: Seq<char>)
    requires
        file::dir_of(p1) == file::dir_of(p2),
    ensures
        group_id_of(file::dir_of(p1)) == group_id_of(file::dir_of(p2)),
{
}

/// Whether a walked file can be cataloged: its content type is known.
pub open spec fn insertable(f: File) -> bool {
    file::mime_of(f.spec_path()) is Some
}

/// The descriptor made of a walked file with path `p` and size `size` is
/// exact: the stem as name, the path itself, the classified type, the size
/// snapshot, the directory hash as group id, and the full file name as the
/// group member name.
pub open spec fn insert_matches_file(i: InsertFile, p: Seq<char>, size: u64) -> bool {
    &&& i.name@ == file::stem_of(p)
    &&& i.path@ == p
    &&& file::mime_of(p) == Some(i.mime@)
    &&& i.size == size
    &&& i.group_id@ == group_id_of(file::dir_of(p))
    &&& i.group_member_name@ == file::name_ext_of(p)
}

/// Builds the descriptor for one walked file; a file whose type cannot be
/// classified is reported as an entry-scoped error, which the sweep absorbs
/// by skipping the file.
pub fn try_into_insert(f: File) -> (r: Result<InsertFile, FsError>)
    ensures
        insertable(f) ==> (r matches Ok(i) && insert_matches_file(i, f.spec_path(), f.spec_size())),
        !insertable(f) ==> r is Err,
{
    let mime = match f.mime() {
        Ok(m) => m,
        Err(e) => {
            return Err(e);
        },
    };
    let group_id = calc_group_id(f.path_of_dir().as_str());
    Ok(
        InsertFile {
            name: f.name(),
            path: f.path(),
            mime,
            size: f.size(),
            group_id,
            group_member_name: f.name_with_extension(),
        },
    )
}

/// The walked files that can be cataloged, in order.
pub open spec fn insertable_files(files: Seq<File>) -> Seq<File>
    decreases files.len(),
{
    if files.len() == 0 {
        Seq::empty()
    } else {
        let rest = insertable_files(files.drop_last());
        if insertable(files.last()) {
            rest.push(files.last())
        } else {
            rest
        }
    }
}

/// Turns a round of walked files into descriptors, dropping exactly the
/// files whose type cannot be classified and keeping the rest in order.
pub fn into_file_insert(files: Vec<File>) -> (r: Vec<InsertFile>)
    ensures
        r@.len() == insertable_files(files@).len(),
        forall|k: int|
            0 <= k < r@.len() ==> insert_matches_file(
                #[trigger] r@[k],
                insertable_files(files@)[k].spec_path(),
                insertable_files(files@)[k].spec_size(),
            ),
{
    let mut out: Vec<InsertFile> = Vec::new();
    let mut rest = files;
    let ghost all = rest@;
    let n = rest.len();
    proof {
        assert(all.len() == n);
        assert(all.take(0) =~= Seq::<File>::empty());
    }
    let mut taken: usize = 0;
    while rest.len() > 0
        invariant
            all.len() <= usize::MAX,
            taken <= all.len(),
            rest@ == all.skip(taken as int),
            out@.len() == insertable_files(all.take(taken as int)).len(),
            forall|k: int|
                0 <= k < out@.len() ==> insert_matches_file(
                    #[trigger] out@[k],
                    insertable_files(all.take(taken as int))[k].spec_path(),
                    insertable_files(all.take(taken as int))[k].spec_size(),
                ),
        decreases rest@.len(),
    {
        let f = rest.remove(0);
        proof {
            assert(f == all[taken as int]);
            assert(all.skip(taken as int).skip(1) =~= all.skip(taken + 1));
            assert(all.take(taken + 1).drop_last() =~= all.take(taken as int));
            assert(all.take(taken + 1).last() == all[taken as int]);
        }
        match try_into_insert(f) {
            Ok(i) => out.push(i),
            Err(_) => {
            },
        }
        taken = taken + 1;
    }
    proof {
        assert(all.take(taken as int) =~= all);
    }
    out
}

/// Whether the store can hold a descriptor's size: it records sizes in a
/// signed 64-bit column.
pub open spec fn storable(i: InsertFile) -> bool {
    i.size <= i64::MAX as u64
}

/// The descriptors the store can hold, in order.
pub open spec fn storable_inserts(inserts: Seq<InsertFile>) -> Seq<InsertFile>
    decreases inserts.len(),
{
    if inserts.len() == 0 {
        Seq::empty()
    } else {
        let rest = storable_inserts(inserts.drop_last());
        if storable(inserts.last()) {
            rest.push(inserts.last())
        } else {
            rest
        }
    }
}

/// The batches laid end to end.
pub open spec fn flattened(batches: Seq<Vec<InsertFile>>) -> Seq<InsertFile> {
    batches.map_values(|b: Vec<InsertFile>| b@).flatten()
}

/// Cuts the descriptors into insert batches of at most `INSERT_BATCH_SIZE`,
/// silently dropping exactly those too large for the store and keeping the
/// rest in order: the batches laid end to end are the storable descriptors.
pub fn insert_batches(inserts: Vec<InsertFile>) -> (r: Vec<Vec<InsertFile>>)
    ensures
        flattened(r@) == storable_inserts(inserts@),
        forall|b: int| 0 <= b < r@.len() ==> 0 < #[trigger] r@[b]@.len() <= INSERT_BATCH_SIZE,
{
    let mut out: Vec<Vec<InsertFile>> = Vec::new();
    let mut cur: Vec<InsertFile> = Vec::new();
    let mut rest = inserts;
    let ghost all = rest@;
    let n = rest.len();
    proof {
        assert(all.len() == n);
        assert(all.take(0) =~= Seq::<InsertFile>::empty());
        assert(out@.map_values(|b: Vec<InsertFile>| b@) =~= Seq::<Seq<InsertFile>>::empty());
        assert(flattened(out@) + cur@ =~= storable_inserts(all.take(0)));
    }
    let mut taken: usize = 0;
    while rest.len() > 0
        invariant
            all.len() <= usize::MAX,
            taken <= all.len(),
            rest@ == all.skip(taken as int),
            cur@.len() < INSERT_BATCH_SIZE,
            flattened(out@) + cur@ == storable_inserts(all.take(taken as int)),
            forall|b: int| 0 <= b < out@.len() ==> 0 < #[trigger] out@[b]@.len() <= INSERT_BATCH_SIZE,
        decreases rest@.len(),
    {
        let i = rest.remove(0);
        proof {
            assert(i == all[taken as int]);
            assert(all.skip(taken as int).skip(1) =~= all.skip(taken + 1));
            assert(all.take(taken + 1).drop_last() =~= all.take(taken as int));
            assert(all.take(taken + 1).last() == all[taken as int]);
        }
        let keep = i.size <= 9223372036854775807u64;
        if keep {
            cur.push(i);
            if cur.len() == INSERT_BATCH_SIZE {
                let ghost old_out = out@;
                let done = cur;
                let ghost done_v: Vec<InsertFile> = done;
                cur = Vec::new();
                out.push(done);
                proof {
                    lemma_flattened_push(old_out, done_v);
                    assert(flattened(out@) + cur@ =~= flattened(old_out) + done_v@);
                }
            }
        }
        taken = taken + 1;
    }
    proof {
        assert(all.take(taken as int) =~= all);
    }
    if cur.len() > 0 {
        let ghost old_out = out@;
        let ghost last_v: Vec<InsertFile> = cur;
        out.push(cur);
        proof {
            lemma_flattened_push(old_out, last_v);
            assert(flattened(out@) =~= flattened(old_out) + last_v@);
        }
    } else {
        proof {
            assert(flattened(out@) + cur@ =~= flattened(out@));
        }
    }
    out
}

/// Appending one batch appends its contents to the flattened whole.
proof fn lemma_flattened_push(batches: Seq<Vec<InsertFile>>, b: Vec<InsertFile>)
    ensures
        flattened(batches.push(b)) == flattened(batches) + b@,
{
    let f = |x: Vec<InsertFile>| x@;
    let mapped = batches.map_values(f);
    assert(batches.push(b).map_values(f) =~= mapped.push(b@));
    mapped.push(b@).lemma_flatten_and_flatten_alt_are_equivalent();
    mapped.lemma_flatten_and_flatten_alt_are_equivalent();
    assert(mapped.push(b@).drop_last() =~= mapped);
    assert(mapped.push(b@).flatten_alt() == mapped.flatten_alt() + b@);
}

/// The strictly ordered stages of one sweep: the old rows are deleted first,
/// and only then does the walk begin.  The files, and with them the inserts,
/// can only be taken once the walk is over, so inserts always follow the
/// delete and the walk.
pub enum SweepPhase {
    Deleting,
    Walking,
}

/// One re-sync sweep over a root: delete, then walk, then insert, in that
/// order and no other.
pub struct Sweep {
    root: String,
    walker: Walker,
    phase: SweepPhase,
}

impl Sweep {
    /// The stage the sweep is in.
    pub closed spec fn spec_phase(&self) -> SweepPhase {
        self.phase
    }

    /// The root the sweep covers, slash-normalized.
    pub closed spec fn spec_root(&self) -> Seq<char> {
        self.root@
    }

    /// The walk the sweep drives.
    pub closed spec fn spec_walker(&self) -> Walker {
        self.walker
    }

    /// The walk's books are in order.
    pub open spec fn wf(&self) -> bool {
        self.spec_walker().wf()
    }

    /// Starts a sweep over `root`: nothing walked yet, and the old rows
    /// still to delete.
    pub fn new(root: String) -> (r: Self)
        ensures
            r.wf(),
            r.spec_phase() is Deleting,
            r.spec_root() == text::normalized(root@),
            r.spec_walker().spec_files().len() == 0,
            r.spec_walker().spec_frontier().len() == 1,
            r.spec_walker().spec_frontier()[0].spec_path() == text::normalized(root@),
    {
        let walker = Walker::new(root.clone());
        let root = text::normalize_separators(root.as_str());
        Sweep { root, walker, phase: SweepPhase::Deleting }
    }

    /// The path prefix whose rows the host must delete before anything is
    /// walked.
    pub fn delete_prefix(&self) -> (p: String)
        requires
            self.spec_phase() is Deleting,
        ensures
            p@ == self.spec_root(),
    {
        self.root.clone()
    }

    /// Records that the old rows are gone; only now may the walk advance.
    pub fn mark_deleted(&mut self)
        requires
            old(self).spec_phase() is Deleting,
        ensures
            final(self).spec_phase() is Walking,
            final(self).spec_root() == old(self).spec_root(),
            final(self).spec_walker() == old(self).spec_walker(),
    {
        self.phase = SweepPhase::Walking;
    }

    /// Whether the walk is over: no directory left to expand.
    pub fn walk_done(&self) -> (r: bool)
        ensures
            r == (self.spec_walker().spec_frontier().len() == 0),
    {
        self.walker.done()
    }

    /// The directories the host must list for the current round.
    pub fn frontier(&self) -> (r: &Vec<Directory>)
        requires
            self.spec_phase() is Walking,
        ensures
            r@ == self.spec_walker().spec_frontier(),
    {
        self.walker.frontier()
    }

    /// Feeds one round of classified entries to the walk; allowed only after
    /// the delete.
    pub fn advance(&mut self, entries: Vec<Entry>)
        requires
            old(self).spec_phase() is Walking,
            old(self).wf(),
        ensures
            final(self).wf(),
            final(self).spec_phase() is Walking,
            final(self).spec_root() == old(self).spec_root(),
            final(self).spec_walker().spec_rounds() == old(
                self,
            ).spec_walker().spec_rounds().push(entries@),
            final(self).spec_walker().spec_files() == old(self).spec_walker().spec_files()
                + files_of(entries@),
            final(self).spec_walker().spec_frontier() == dirs_of(entries@),
    {
        self.walker.advance(entries);
    }

    /// Ends the sweep's walk, yielding every file found; the inserts are
    /// made of these, so they can only follow the walk.
    pub fn into_files(self) -> (r: Vec<File>)
        requires
            self.spec_phase() is Walking,
            self.spec_walker().spec_frontier().len() == 0,
        ensures
            r@ == self.spec_walker().spec_files(),
    {
        self.walker.into_files()
    }
}

/// What a non-blocking acquire of the sweep gate does: it is accepted
/// exactly when no sweep runs, and a sweep runs afterwards either way.
pub open spec fn gate_acquire(running: bool) -> (bool, bool) {
    (!running, true)
}

/// What releasing the sweep gate does: no sweep runs afterwards.
pub open spec fn gate_release(running: bool) -> bool {
    false
}

/// The single-flight gate guarding catalog sweeps: at most one sweep may run
/// at a time; a trigger that finds one running is rejected, not queued.
pub struct RefreshGate {
    running: bool,
}

impl RefreshGate {
    /// Whether a sweep holds the permit.
    pub closed spec fn spec_running(&self) -> bool {
        self.running
    }

    /// A fresh gate: no sweep runs.
    pub fn new() -> (r: Self)
        ensures
            !r.spec_running(),
    {
        RefreshGate { running: false }
    }

    /// Tries to admit a sweep without blocking: accepted exactly when no
    /// sweep runs, and the permit is held afterwards either way.
    pub fn try_acquire(&mut self) -> (accepted: bool)
        ensures
            (accepted, final(self).spec_running()) == gate_acquire(old(self).spec_running()),
    {
        if self.running {
            false
        } else {
            self.running = true;
            true
        }
    }

    /// Gives the permit back at the end of a sweep, successful or not.
    pub fn release(&mut self)
        ensures
            final(self).spec_running() == gate_release(old(self).spec_running()),
    {
        self.running = false;
    }
}

/// Of two triggers arriving while no sweep runs, exactly one is accepted and
/// the other rejected; once the accepted sweep gives the permit back, a third
/// trigger is accepted again.
pub proof fn lemma_single_flight(r0: bool)
    requires
        !r0,
    ensures
        ({
            let (a1, r1) = gate_acquire(r0);
            let (a2, r2) = gate_acquire(r1);
            let r3 = gate_release(r2);
            let (a3, _) = gate_acquire(r3);
            a1 && !a2 && a3
        }),
{
}

} // verus!
