//! Content delivery: given a cataloged file and an optional byte-range
//! request, decide between a whole-file response and a partial one, and
//! build the exact header values.
//!
//! A file no larger than `DEFAULT_RANGE` is served whole: status 200, its
//! content type, the entire content as the body.  A larger file is served as
//! a chunk: the requested window (or the default one) is clamped against the
//! file's recorded size; status 206, with `Accept-Ranges: bytes` and
//! `Content-Range: bytes {start}-{end}/{size}`.  The host reads the bytes of
//! the window this module names and passes them in; a short read at end of
//! file simply yields a shorter body.

use vstd::prelude::*;

use crate::catalog;
use crate::range;
use crate::stream;
use crate::stream::DEFAULT_RANGE;
use crate::text;

verus! {

/// The start of the window a request asks for: none requested means zero.
pub open spec fn requested_start(range: Option<stream::Range>) -> u64 {
    match range {
        Some(r) => r.spec_window().spec_start(),
        None => 0,
    }
}

/// The length of the window a request asks for: none requested means the
/// default window length.
pub open spec fn requested_offset(range: Option<stream::Range>) -> u64 {
    match range {
        Some(r) => r.spec_window().spec_offset(),
        None => DEFAULT_RANGE,
    }
}

/// The inclusive end a chunk reports: the last byte of the clamped window,
/// or its start when the window is empty.
pub open spec fn chunk_end(range: Option<stream::Range>, file_size: u64) -> u64 {
    let cs = range::clamped_start(requested_start(range), file_size);
    let co = range::clamped_offset(requested_start(range), requested_offset(range), file_size);
    if co == 0 {
        cs
    } else {
        (cs + co - 1) as u64
    }
}

/// The window of bytes the host must read from disk for this request: the
/// whole file when it is small enough to serve whole, otherwise the
/// requested (or default) window clamped against the file's size.
pub fn read_window(file: &catalog::File, range: &Option<stream::Range>) -> (w: range::Range)
    ensures
        file.size <= DEFAULT_RANGE ==> w.spec_start() == 0 && w.spec_offset() == file.size,
        file.size > DEFAULT_RANGE ==> w.spec_start() == range::clamped_start(
            requested_start(*range),
            file.size,
        ) && w.spec_offset() == range::clamped_offset(
            requested_start(*range),
            requested_offset(*range),
            file.size,
        ),
{
    if file.size <= DEFAULT_RANGE {
        return range::Range::new(0, file.size);
    }
    let window = match range {
        Some(r) => r.range(),
        None => stream::Range::default().range(),
    };
    window.apply_filesize(file.size)
}

/// A whole-file response: status 200, the content type, the full content.
pub struct Whole {
    mime: String,
    content: Vec<u8>,
}

impl Whole {
    pub closed spec fn spec_mime(&self) -> Seq<char> {
        self.mime@
    }

    pub closed spec fn spec_content(&self) -> Seq<u8> {
        self.content@
    }

    /// Wraps the full content of `file`, as read by the host.
    pub fn new(file: &catalog::File, content: Vec<u8>) -> (r: Self)
        ensures
            r.spec_mime() == file.mime@,
            r.spec_content() == content@,
    {
        Whole { mime: file.mime.clone(), content }
    }
}

/// A partial-content response: status 206, the clamped window's bounds, the
/// file's total size, the content type, and the window's bytes.
pub struct Chunk {
    start: u64,
    end: u64,
    file_size: u64,
    mime: String,
    content: Vec<u8>,
}

impl Chunk {
    pub closed spec fn spec_start(&self) -> u64 {
        self.start
    }

    pub closed spec fn spec_end(&self) -> u64 {
        self.end
    }

    pub closed spec fn spec_file_size(&self) -> u64 {
        self.file_size
    }

    pub closed spec fn spec_mime(&self) -> Seq<char> {
        self.mime@
    }

    pub closed spec fn spec_content(&self) -> Seq<u8> {
        self.content@
    }

    /// Wraps the bytes of the clamped window of `file`, as read by the host;
    /// the reported bounds are recomputed from the same request, so they
    /// describe exactly the window the host was told to read.
    pub fn new(file: &catalog::File, range: &Option<stream::Range>, content: Vec<u8>) -> (r: Self)
        ensures
            r.spec_start() == range::clamped_start(requested_start(*range), file.size),
            r.spec_end() == chunk_end(*range, file.size),
            r.spec_file_size() == file.size,
            r.spec_mime() == file.mime@,
            r.spec_content() == content@,
    {
        let window = match range {
            Some(r) => *r,
            None => stream::Range::default(),
        };
        let clamped = window.apply_file_size(file.size);
        let end = match clamped.end() {
            Some(e) => e,
            None => 0,
        };
        Chunk {
            start: clamped.start(),
            end,
            file_size: file.size,
            mime: file.mime.clone(),
            content,
        }
    }
}

/// The response for one read request: the whole file, or one chunk of it.
pub enum FileResponse {
    WHOLE(Whole),
    CHUNKED(Chunk),
}

/// The exact text of a `Content-Range` header value.
pub open spec fn content_range_text(start: u64, end: u64, size: u64) -> Seq<char> {
    "bytes "@ + text::decimal(start as nat) + "-"@ + text::decimal(end as nat) + "/"@
        + text::decimal(size as nat)
}

impl FileResponse {
    /// Decides how `file` is served: whole when its recorded size is at most
    /// `DEFAULT_RANGE`, else as the requested (or default) chunk.  `content`
    /// holds the bytes of the window `read_window` names for this request.
    pub fn new(file: &catalog::File, range: &Option<stream::Range>, content: Vec<u8>) -> (r: Self)
        ensures
            file.size <= DEFAULT_RANGE ==> (r matches FileResponse::WHOLE(w) && w.spec_mime()
                == file.mime@ && w.spec_content() == content@),
            file.size > DEFAULT_RANGE ==> (r matches FileResponse::CHUNKED(c) && c.spec_start()
                == range::clamped_start(requested_start(*range), file.size) && c.spec_end()
                == chunk_end(*range, file.size) && c.spec_file_size() == file.size && c.spec_mime()
                == file.mime@ && c.spec_content() == content@),
    {
        if file.size <= DEFAULT_RANGE {
            FileResponse::WHOLE(Whole::new(file, content))
        } else {
            FileResponse::CHUNKED(Chunk::new(file, range, content))
        }
    }

    /// The HTTP status served: 200 for a whole file, 206 for a chunk.
    pub fn status(&self) -> (r: u16)
        ensures
            self matches FileResponse::WHOLE(_) ==> r == 200,
            self matches FileResponse::CHUNKED(_) ==> r == 206,
    {
        match self {
            FileResponse::WHOLE(_) => 200,
            FileResponse::CHUNKED(_) => 206,
        }
    }

    /// The `Content-Type` header value.
    pub fn content_type(&self) -> (r: String)
        ensures
            self matches FileResponse::WHOLE(w) ==> r@ == w.spec_mime(),
            self matches FileResponse::CHUNKED(c) ==> r@ == c.spec_mime(),
    {
        match self {
            FileResponse::WHOLE(w) => w.mime.clone(),
            FileResponse::CHUNKED(c) => c.mime.clone(),
        }
    }

    /// The `Content-Range` header value: absent for a whole file, and for a
    /// chunk exactly `bytes {start}-{end}/{size}`.
    pub fn content_range(&self) -> (r: Option<String>)
        ensures
            self matches FileResponse::WHOLE(_) ==> r is None,
            self matches FileResponse::CHUNKED(c) ==> (r matches Some(t) && t@
                == content_range_text(c.spec_start(), c.spec_end(), c.spec_file_size())),
    {
        match self {
            FileResponse::WHOLE(_) => None,
            FileResponse::CHUNKED(c) => {
                let mut t = "bytes ".to_owned();
                t.append(text::u64_to_decimal(c.start).as_str());
                t.append("-");
                t.append(text::u64_to_decimal(c.end).as_str());
                t.append("/");
                t.append(text::u64_to_decimal(c.file_size).as_str());
                Some(t)
            },
        }
    }

    /// The `Accept-Ranges` header value: only a chunk advertises ranges.
    pub fn accept_ranges(&self) -> (r: Option<String>)
        ensures
            self matches FileResponse::WHOLE(_) ==> r is None,
            self matches FileResponse::CHUNKED(_) ==> (r matches Some(t) && t@ == "bytes"@),
    {
        match self {
            FileResponse::WHOLE(_) => None,
            FileResponse::CHUNKED(_) => Some("bytes".to_owned()),
        }
    }

    /// The body served: the bytes the host read for this request.
    pub fn into_body(self) -> (r: Vec<u8>)
        ensures
            self matches FileResponse::WHOLE(w) ==> r@ == w.spec_content(),
            self matches FileResponse::CHUNKED(c) ==> r@ == c.spec_content(),
    {
        match self {
            FileResponse::WHOLE(w) => w.content,
            FileResponse::CHUNKED(c) => c.content,
        }
    }
}

/// A request without a range on a file larger than the default window is
/// served as the chunk of exactly the first `DEFAULT_RANGE` bytes, reported
/// as running from byte zero through byte `DEFAULT_RANGE - 1`.
pub proof fn lemma_default_chunk(file_size: u64)
    requires
        file_size > DEFAULT_RANGE,
    ensures
        range::clamped_start(requested_start(None), file_size) == 0,
        range::clamped_offset(
            requested_start(None),
            requested_offset(None),
            file_size,
        ) == DEFAULT_RANGE,
        chunk_end(None, file_size) == DEFAULT_RANGE - 1,
{
}

} // verus!
