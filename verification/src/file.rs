//! A file met during a catalog sweep: its slash-normalized path and the byte
//! size recorded when it was discovered.  The accessors split the path into
//! the enclosing directory, the file name with its extension, and the bare
//! stem, and classify the content type from the extension.

use vstd::prelude::*;

use crate::error;
use crate::error::FsError;
use crate::text;

verus! {

/// The name-with-extension part of a path: everything after the last `/`
/// (the whole path when it has no `/`).
pub open spec fn name_ext_of(p: Seq<char>) -> Seq<char> {
    p.skip(text::after_last(p, '/'))
}

/// The directory part of a path: everything up to and including the last `/`
/// (empty when the path has no `/`).
pub open spec fn dir_of(p: Seq<char>) -> Seq<char> {
    p.take(text::after_last(p, '/'))
}

/// The stem of a path: the name with its extension, with the part from the
/// last `.` on removed; the whole name when it has no `.`.
pub open spec fn stem_of(p: Seq<char>) -> Seq<char> {
    let ne = name_ext_of(p);
    if text::after_last(ne, '.') > 0 {
        ne.take(text::after_last(ne, '.') - 1)
    } else {
        ne
    }
}

/// What `mime_guess` returns for a path: the first known content type mapped
/// to the path's extension, if any.  The lookup is a fixed table keyed by the
/// extension alone, so the result is a function of the path.
pub uninterp spec fn mime_lookup(path: Seq<char>) -> Option<Seq<char>>;

/// The content type served for a path: HLS playlists (`.m3u8`) get their
/// fixed type unconditionally; anything else goes through the extension
/// table, which may have no entry.
pub open spec fn mime_of(p: Seq<char>) -> Option<Seq<char>> {
    if text::is_suffix(".m3u8"@, p) {
        Some("application/x-mpegURL"@)
    } else {
        mime_lookup(p)
    }
}

/// Relies on `mime_guess::from_path(..).first()`: a lookup of the path's
/// extension in a fixed, case-insensitively keyed table, so the result
/// depends on the path string alone.
#[verifier::external_body]
fn guess_mime(path: &str) -> (r: Option<String>)
    ensures
        match r {
            Some(m) => mime_lookup(path@) == Some(m@),
            None => mime_lookup(path@) is None,
        },
{
    mime_guess::from_path(path).first().map(|m| m.to_string())
}

/// One file found on disk: its path (slash-normalized) and the size recorded
/// at discovery time.
#[derive(Debug)]
pub struct File {
    path: String,
    size: u64,
}

impl File {
    /// The stored path.
    pub closed spec fn spec_path(&self) -> Seq<char> {
        self.path@
    }

    /// The recorded size in bytes.
    pub closed spec fn spec_size(&self) -> u64 {
        self.size
    }

    /// Records a file; `size` is the snapshot taken at discovery time, kept
    /// so later reads need not consult the disk again.  Backslashes in the
    /// path are normalized to forward slashes.
    pub fn new(path: String, size: u64) -> (r: Self)
        ensures
            r.spec_path() == text::normalized(path@),
            r.spec_size() == size,
    {
        let path = text::normalize_separators(path.as_str());
        Self { path, size }
    }

    pub fn path(&self) -> (r: String)
        ensures
            r@ == self.spec_path(),
    {
        self.path.clone()
    }

    pub fn size(&self) -> (r: u64)
        ensures
            r == self.spec_size(),
    {
        self.size
    }

    /// The name with its extension: everything after the last `/` in the
    /// path, or the whole path when it has no `/`.
    pub fn name_with_extension(&self) -> (r: String)
        ensures
            r@ == name_ext_of(self.spec_path()),
    {
        proof {
            text::lemma_after_last(self.path@, '/');
        }
        let cut = text::find_after_last(self.path.as_str(), '/');
        let len = self.path.as_str().unicode_len();
        proof {
            assert(self.path@.subrange(cut as int, len as int) =~= self.path@.skip(cut as int));
        }
        text::substring(self.path.as_str(), cut, len)
    }

    /// The enclosing directory: everything up to and including the last `/`
    /// in the path (for `/my/dir/my-file.txt`, `/my/dir/`).
    pub fn path_of_dir(&self) -> (r: String)
        ensures
            r@ == dir_of(self.spec_path()),
    {
        proof {
            text::lemma_after_last(self.path@, '/');
        }
        let cut = text::find_after_last(self.path.as_str(), '/');
        proof {
            assert(self.path@.subrange(0, cut as int) =~= self.path@.take(cut as int));
        }
        text::substring(self.path.as_str(), 0, cut)
    }

    /// The stem: the name with its extension, minus the part from the last
    /// `.` on (for `/path/name.asdf.extension`, `name.asdf`).
    pub fn name(&self) -> (r: String)
        ensures
            r@ == stem_of(self.spec_path()),
    {
        let ne = self.name_with_extension();
        proof {
            text::lemma_after_last(ne@, '.');
        }
        let cut = text::find_after_last(ne.as_str(), '.');
        if cut > 0 {
            proof {
                assert(ne@.subrange(0, cut - 1) =~= ne@.take(cut - 1));
            }
            text::substring(ne.as_str(), 0, cut - 1)
        } else {
            ne
        }
    }

    /// Classifies the content type by the file's extension.  A `.m3u8` path
    /// is the HLS playlist type unconditionally; otherwise the extension
    /// table decides, and a path it does not know is reported as an
    /// entry-scoped error.
    pub fn mime(&self) -> (r: Result<String, FsError>)
        ensures
            mime_of(self.spec_path()) matches Some(m) ==> (r matches Ok(s) && s@ == m),
            mime_of(self.spec_path()) is None ==> (r matches Err(e) && e.spec_message()
                == "could not guess MimeType for path: '"@ + self.spec_path() + "'"@),
    {
        if text::str_ends_with(self.path.as_str(), ".m3u8") {
            return Ok("application/x-mpegURL".to_owned());
        }
        match guess_mime(self.path.as_str()) {
            Some(m) => Ok(m),
            None => {
                let mut message = "could not guess MimeType for path: '".to_owned();
                message.append(self.path.as_str());
                message.append("'");
                error::other(message)
            },
        }
    }
}

} // verus!
