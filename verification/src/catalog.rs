//! The catalog store, modeled in memory: an ordered persistent collection of
//! file descriptors.  Rows are appended in batches with store-assigned ids,
//! looked up by id or by group, listed sorted by name ascending (optionally
//! narrowed by a content-type prefix), and deleted wholesale by path prefix
//! at the start of a sweep.

use vstd::prelude::*;
use vstd::multiset::Multiset;
use vstd::seq_lib::group_to_multiset_ensures;

use crate::text;

verus! {

broadcast use group_to_multiset_ensures;

/// One cataloged file: the persisted descriptor, with the store-assigned id.
#[derive(Debug)]
pub struct File {
    pub id: u64,
    pub name: String,
    pub path: String,
    pub mime: String,
    pub size: u64,
    pub group_id: String,
    pub group_member_name: String,
}

impl Clone for File {
    fn clone(&self) -> (r: Self)
        ensures
            r == *self,
    {
        File {
            id: self.id,
            name: self.name.clone(),
            path: self.path.clone(),
            mime: self.mime.clone(),
            size: self.size,
            group_id: self.group_id.clone(),
            group_member_name: self.group_member_name.clone(),
        }
    }
}

/// A descriptor to be inserted: a row without an id, which the store assigns.
#[derive(Debug)]
pub struct InsertFile {
    pub name: String,
    pub path: String,
    pub mime: String,
    pub size: u64,
    pub group_id: String,
    pub group_member_name: String,
}

impl Clone for InsertFile {
    fn clone(&self) -> (r: Self)
        ensures
            r == *self,
    {
        InsertFile {
            name: self.name.clone(),
            path: self.path.clone(),
            mime: self.mime.clone(),
            size: self.size,
            group_id: self.group_id.clone(),
            group_member_name: self.group_member_name.clone(),
        }
    }
}

/// The row the store makes of an insert under a given id: same fields, id
/// attached.
pub open spec fn row_matches(row: File, insert: InsertFile, id: u64) -> bool {
    &&& row.id == id
    &&& row.name == insert.name
    &&& row.path == insert.path
    &&& row.mime == insert.mime
    &&& row.size == insert.size
    &&& row.group_id == insert.group_id
    &&& row.group_member_name == insert.group_member_name
}

/// The rows whose content type begins with `p`, in order.
pub open spec fn with_mime_prefix(rows: Seq<File>, p: Seq<char>) -> Seq<File>
    decreases rows.len(),
{
    if rows.len() == 0 {
        Seq::empty()
    } else {
        let rest = with_mime_prefix(rows.drop_last(), p);
        if text::is_prefix(p, rows.last().mime@) {
            rest.push(rows.last())
        } else {
            rest
        }
    }
}

/// The rows whose path does not begin with `p`, in order: what a delete by
/// path prefix leaves behind.
pub open spec fn without_path_prefix(rows: Seq<File>, p: Seq<char>) -> Seq<File>
    decreases rows.len(),
{
    if rows.len() == 0 {
        Seq::empty()
    } else {
        let rest = without_path_prefix(rows.drop_last(), p);
        if text::is_prefix(p, rows.last().path@) {
            rest
        } else {
            rest.push(rows.last())
        }
    }
}

/// Whether a content type is listed among the watchable movies: video types
/// and HLS playlists, except the raw MPEG transport-stream types that only
/// ever appear as segments of a playlist.
pub open spec fn spec_visible_movie(m: Seq<char>) -> bool {
    &&& (text::is_prefix("video/"@, m) || m == "application/x-mpegURL"@ || m
        == "vnd.apple.mpegURL"@)
    &&& m != "video/MP2T"@
    &&& m != "video/vnd.dlna.mpeg-tts"@
}

/// Whether a content type is listed among the watchable movies.
pub fn is_visible_movie(mime: &str) -> (r: bool)
    ensures
        r == spec_visible_movie(mime@),
{
    (text::str_starts_with(mime, "video/") || text::str_eq(mime, "application/x-mpegURL")
        || text::str_eq(mime, "vnd.apple.mpegURL")) && !text::str_eq(mime, "video/MP2T")
        && !text::str_eq(mime, "video/vnd.dlna.mpeg-tts")
}

/// The rows whose content type is a watchable movie, in order.
pub open spec fn visible_movies_of(rows: Seq<File>) -> Seq<File>
    decreases rows.len(),
{
    if rows.len() == 0 {
        Seq::empty()
    } else {
        let rest = visible_movies_of(rows.drop_last());
        if spec_visible_movie(rows.last().mime@) {
            rest.push(rows.last())
        } else {
            rest
        }
    }
}

/// Rows sorted ascending by name, compared lexicographically.
pub open spec fn sorted_by_name(rows: Seq<File>) -> bool {
    forall|i: int, j: int|
        0 <= i < j < rows.len() ==> text::lex_le(#[trigger] rows[i].name@, #[trigger] rows[j].name@)
}

/// Sorts rows ascending by name: the result holds exactly the given rows.
fn sort_rows_by_name(rows: Vec<File>) -> (r: Vec<File>)
    ensures
        r@.to_multiset() == rows@.to_multiset(),
        sorted_by_name(r@),
{
    let ghost orig = rows@;
    let mut src = rows;
    let mut out: Vec<File> = Vec::new();
    proof {
        assert(out@.to_multiset().add(src@.to_multiset()) =~= orig.to_multiset());
    }
    while src.len() > 0
        invariant
            out@.to_multiset().add(src@.to_multiset()) == orig.to_multiset(),
            sorted_by_name(out@),
            forall|i: int, j: int|
                0 <= i < out@.len() && 0 <= j < src@.len() ==> text::lex_le(
                    #[trigger] out@[i].name@,
                    #[trigger] src@[j].name@,
                ),
        decreases src@.len(),
    {
        // Find the least remaining name.
        let mut m: usize = 0;
        let mut k: usize = 1;
        proof {
            text::lemma_lex_le_refl(src@[0].name@);
        }
        while k < src.len()
            invariant
                m < k <= src@.len(),
                forall|j: int| 0 <= j < k ==> text::lex_le(src@[m as int].name@, #[trigger] src@[j].name@),
            decreases src@.len() - k,
        {
            if text::str_le(src[k].name.as_str(), src[m].name.as_str()) {
                proof {
                    assert forall|j: int| 0 <= j < k + 1 implies text::lex_le(
                        src@[k as int].name@,
                        #[trigger] src@[j].name@,
                    ) by {
                        if j == k {
                            text::lemma_lex_le_refl(src@[k as int].name@);
                        } else {
                            text::lemma_lex_le_trans(
                                src@[k as int].name@,
                                src@[m as int].name@,
                                src@[j].name@,
                            );
                        }
                    }
                }
                m = k;
            } else {
                proof {
                    text::lemma_lex_le_total(src@[k as int].name@, src@[m as int].name@);
                }
            }
            k = k + 1;
        }
        let ghost old_src = src@;
        let ghost old_out = out@;
        let v = src.remove(m);
        out.push(v);
        proof {
            assert(out@.to_multiset() =~= old_out.to_multiset().insert(v));
            assert(src@.to_multiset() =~= old_src.to_multiset().remove(v));
            assert(old_src.to_multiset().count(v) > 0);
            assert(out@.to_multiset().add(src@.to_multiset()) =~= old_out.to_multiset().add(
                old_src.to_multiset(),
            ));
            assert forall|i: int, j: int|
                0 <= i < out@.len() && 0 <= j < src@.len() implies text::lex_le(
                #[trigger] out@[i].name@,
                #[trigger] src@[j].name@,
            ) by {
                let s: File = src@[j];
                assert(s == old_src[if j < m { j } else { j + 1 }]);
                if i < out@.len() - 1 {
                    assert(out@[i] == old_out[i]);
                } else {
                    assert(out@[i] == v);
                }
            }
            assert forall|i: int, j: int| 0 <= i < j < out@.len() implies text::lex_le(
                #[trigger] out@[i].name@,
                #[trigger] out@[j].name@,
            ) by {
                if j == out@.len() - 1 {
                    assert(out@[i] == old_out[i]);
                    assert(v == old_src[m as int]);
                }
            }
        }
    }
    proof {
        assert(src@.to_multiset() =~= Multiset::<File>::empty());
        assert(out@.to_multiset().add(Multiset::<File>::empty()) =~= out@.to_multiset());
    }
    out
}

/// The in-memory catalog: rows in insertion order, and the next id the store
/// will assign.
pub struct Catalog {
    rows: Vec<File>,
    next_id: u64,
}

impl Catalog {
    /// The rows the catalog holds, in insertion order.
    pub closed spec fn spec_rows(&self) -> Seq<File> {
        self.rows@
    }

    /// The id the next inserted row will get.
    pub closed spec fn spec_next_id(&self) -> u64 {
        self.next_id
    }

    /// An empty catalog; ids are assigned from 1 up, as a relational store
    /// would.
    pub fn new() -> (r: Self)
        ensures
            r.spec_rows().len() == 0,
            r.spec_next_id() == 1,
    {
        Catalog { rows: Vec::new(), next_id: 1 }
    }

    /// How many rows the catalog holds.
    pub fn len(&self) -> (r: usize)
        ensures
            r == self.spec_rows().len(),
    {
        self.rows.len()
    }

    /// The id the next inserted row will get.
    pub fn next_id(&self) -> (r: u64)
        ensures
            r == self.spec_next_id(),
    {
        self.next_id
    }

    /// Appends a batch of descriptors, assigning each the next id in turn.
    /// An empty batch is a no-op, not an error.
    pub fn insert_all(&mut self, batch: Vec<InsertFile>)
        requires
            old(self).spec_next_id() + batch@.len() <= u64::MAX,
        ensures
            final(self).spec_rows().len() == old(self).spec_rows().len() + batch@.len(),
            forall|i: int|
                0 <= i < old(self).spec_rows().len() ==> final(self).spec_rows()[i] == old(
                    self,
                ).spec_rows()[i],
            forall|k: int|
                0 <= k < batch@.len() ==> row_matches(
                    #[trigger] final(self).spec_rows()[old(self).spec_rows().len() + k],
                    batch@[k],
                    (old(self).spec_next_id() + k) as u64,
                ),
            final(self).spec_next_id() == old(self).spec_next_id() + batch@.len(),
    {
        let ghost all = batch@;
        let mut rest = batch;
        let n = rest.len();
        let mut taken: usize = 0;
        while rest.len() > 0
            invariant
                all.len() == n,
                taken <= all.len(),
                rest@ == all.skip(taken as int),
                self.next_id == old(self).spec_next_id() + taken,
                self.spec_next_id() + rest@.len() <= u64::MAX,
                self.spec_rows().len() == old(self).spec_rows().len() + taken,
                forall|i: int|
                    0 <= i < old(self).spec_rows().len() ==> self.spec_rows()[i] == old(
                        self,
                    ).spec_rows()[i],
                forall|k: int|
                    0 <= k < taken ==> row_matches(
                        #[trigger] self.spec_rows()[old(self).spec_rows().len() + k],
                        all[k],
                        (old(self).spec_next_id() + k) as u64,
                    ),
            decreases rest@.len(),
        {
            let insert = rest.remove(0);
            proof {
                assert(insert == all[taken as int]);
                assert(all.skip(taken as int).skip(1) =~= all.skip(taken + 1));
            }
            let row = File {
                id: self.next_id,
                name: insert.name,
                path: insert.path,
                mime: insert.mime,
                size: insert.size,
                group_id: insert.group_id,
                group_member_name: insert.group_member_name,
            };
            self.rows.push(row);
            self.next_id = self.next_id + 1;
            taken = taken + 1;
        }
    }

    /// Every row, sorted ascending by name: the listing the catalog serves.
    pub fn find_all(&self) -> (r: Vec<File>)
        ensures
            r@.to_multiset() == self.spec_rows().to_multiset(),
            sorted_by_name(r@),
    {
        let copy = clone_rows(&self.rows);
        sort_rows_by_name(copy)
    }

    /// The rows whose content type begins with `mime_prefix`, sorted
    /// ascending by name.
    pub fn find_all_by_mime_prefix(&self, mime_prefix: &str) -> (r: Vec<File>)
        ensures
            r@.to_multiset() == with_mime_prefix(self.spec_rows(), mime_prefix@).to_multiset(),
            sorted_by_name(r@),
    {
        let ghost all = self.rows@;
        let mut picked: Vec<File> = Vec::new();
        let mut i: usize = 0;
        proof {
            assert(all.take(0) =~= Seq::<File>::empty());
        }
        while i < self.rows.len()
            invariant
                i <= all.len(),
                self.rows@ == all,
                picked@ == with_mime_prefix(all.take(i as int), mime_prefix@),
            decreases all.len() - i,
        {
            proof {
                assert(all.take(i + 1).drop_last() =~= all.take(i as int));
                assert(all.take(i + 1).last() == all[i as int]);
            }
            if text::str_starts_with(self.rows[i].mime.as_str(), mime_prefix) {
                picked.push(self.rows[i].clone());
            }
            i = i + 1;
        }
        proof {
            assert(all.take(i as int) =~= all);
        }
        sort_rows_by_name(picked)
    }

    /// The rows whose content type is a watchable movie, sorted ascending by
    /// name.
    pub fn find_visible_movies(&self) -> (r: Vec<File>)
        ensures
            r@.to_multiset() == visible_movies_of(self.spec_rows()).to_multiset(),
            sorted_by_name(r@),
    {
        let ghost all = self.rows@;
        let mut picked: Vec<File> = Vec::new();
        let mut i: usize = 0;
        proof {
            assert(all.take(0) =~= Seq::<File>::empty());
        }
        while i < self.rows.len()
            invariant
                i <= all.len(),
                self.rows@ == all,
                picked@ == visible_movies_of(all.take(i as int)),
            decreases all.len() - i,
        {
            proof {
                assert(all.take(i + 1).drop_last() =~= all.take(i as int));
                assert(all.take(i + 1).last() == all[i as int]);
            }
            if is_visible_movie(self.rows[i].mime.as_str()) {
                picked.push(self.rows[i].clone());
            }
            i = i + 1;
        }
        proof {
            assert(all.take(i as int) =~= all);
        }
        sort_rows_by_name(picked)
    }

    /// The row with the given id, if any.
    pub fn find_by_id(&self, id: u64) -> (r: Option<File>)
        ensures
            match r {
                Some(f) => self.spec_rows().contains(f) && f.id == id,
                None => forall|i: int| 0 <= i < self.spec_rows().len() ==> self.spec_rows()[i].id != id,
            },
    {
        let mut i: usize = 0;
        while i < self.rows.len()
            invariant
                i <= self.rows@.len(),
                forall|j: int| 0 <= j < i ==> self.rows@[j].id != id,
            decreases self.rows@.len() - i,
        {
            if self.rows[i].id == id {
                return Some(self.rows[i].clone());
            }
            i = i + 1;
        }
        None
    }

    /// The row with the given id, provided its content type begins with
    /// `mime_prefix`: the lookup behind the audio player.
    pub fn find_by_id_with_mime_prefix(&self, id: u64, mime_prefix: &str) -> (r: Option<File>)
        ensures
            match r {
                Some(f) => self.spec_rows().contains(f) && f.id == id && text::is_prefix(
                    mime_prefix@,
                    f.mime@,
                ),
                None => forall|i: int|
                    0 <= i < self.spec_rows().len() ==> !(self.spec_rows()[i].id == id
                        && text::is_prefix(mime_prefix@, self.spec_rows()[i].mime@)),
            },
    {
        let mut i: usize = 0;
        while i < self.rows.len()
            invariant
                i <= self.rows@.len(),
                forall|j: int|
                    0 <= j < i ==> !(self.rows@[j].id == id && text::is_prefix(
                        mime_prefix@,
                        self.rows@[j].mime@,
                    )),
            decreases self.rows@.len() - i,
        {
            if self.rows[i].id == id && text::str_starts_with(
                self.rows[i].mime.as_str(),
                mime_prefix,
            ) {
                return Some(self.rows[i].clone());
            }
            i = i + 1;
        }
        None
    }

    /// The row with the given id, provided its content type is a watchable
    /// movie: the lookup behind the video player.
    pub fn find_visible_movie_by_id(&self, id: u64) -> (r: Option<File>)
        ensures
            match r {
                Some(f) => self.spec_rows().contains(f) && f.id == id && spec_visible_movie(
                    f.mime@,
                ),
                None => forall|i: int|
                    0 <= i < self.spec_rows().len() ==> !(self.spec_rows()[i].id == id
                        && spec_visible_movie(self.spec_rows()[i].mime@)),
            },
    {
        let mut i: usize = 0;
        while i < self.rows.len()
            invariant
                i <= self.rows@.len(),
                forall|j: int|
                    0 <= j < i ==> !(self.rows@[j].id == id && spec_visible_movie(
                        self.rows@[j].mime@,
                    )),
            decreases self.rows@.len() - i,
        {
            if self.rows[i].id == id && is_visible_movie(self.rows[i].mime.as_str()) {
                return Some(self.rows[i].clone());
            }
            i = i + 1;
        }
        None
    }

    /// The first row carrying the given group id and member name, if any:
    /// the sibling lookup for renditions of one source.
    pub fn find_by_group(&self, group_id: &str, group_member_name: &str) -> (r: Option<File>)
        ensures
            match r {
                Some(f) => self.spec_rows().contains(f) && f.group_id@ == group_id@
                    && f.group_member_name@ == group_member_name@,
                None => forall|i: int|
                    0 <= i < self.spec_rows().len() ==> !(self.spec_rows()[i].group_id@ == group_id@
                        && self.spec_rows()[i].group_member_name@ == group_member_name@),
            },
    {
        let mut i: usize = 0;
        while i < self.rows.len()
            invariant
                i <= self.rows@.len(),
                forall|j: int|
                    0 <= j < i ==> !(self.rows@[j].group_id@ == group_id@
                        && self.rows@[j].group_member_name@ == group_member_name@),
            decreases self.rows@.len() - i,
        {
            if text::str_eq(self.rows[i].group_id.as_str(), group_id) && text::str_eq(
                self.rows[i].group_member_name.as_str(),
                group_member_name,
            ) {
                return Some(self.rows[i].clone());
            }
            i = i + 1;
        }
        None
    }

    /// Deletes every row whose path begins with `path`: the start of a sweep
    /// clears what the previous sweep recorded under that root.
    pub fn delete_by_path(&mut self, path: &str)
        ensures
            final(self).spec_rows() == without_path_prefix(old(self).spec_rows(), path@),
            final(self).spec_next_id() == old(self).spec_next_id(),
    {
        let ghost all = self.rows@;
        let mut kept: Vec<File> = Vec::new();
        let mut i: usize = 0;
        proof {
            assert(all.take(0) =~= Seq::<File>::empty());
        }
        while i < self.rows.len()
            invariant
                i <= all.len(),
                self.rows@ == all,
                self.next_id == old(self).spec_next_id(),
                kept@ == without_path_prefix(all.take(i as int), path@),
            decreases all.len() - i,
        {
            proof {
                assert(all.take(i + 1).drop_last() =~= all.take(i as int));
                assert(all.take(i + 1).last() == all[i as int]);
            }
            if !text::str_starts_with(self.rows[i].path.as_str(), path) {
                kept.push(self.rows[i].clone());
            }
            i = i + 1;
        }
        proof {
            assert(all.take(i as int) =~= all);
        }
        self.rows = kept;
    }
}

/// Copies a vector of rows.
fn clone_rows(rows: &Vec<File>) -> (r: Vec<File>)
    ensures
        r@ == rows@,
{
    let mut out: Vec<File> = Vec::new();
    let mut i: usize = 0;
    while i < rows.len()
        invariant
            i <= rows@.len(),
            out@ =~= rows@.take(i as int),
        decreases rows@.len() - i,
    {
        out.push(rows[i].clone());
        proof {
            assert(out@ =~= rows@.take(i + 1));
        }
        i = i + 1;
    }
    proof {
        assert(rows@.take(i as int) =~= rows@);
    }
    out
}

} // verus!
