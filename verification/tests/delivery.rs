use netflex::catalog::{Catalog, File as Row};
use netflex::delivery::{read_window, FileResponse};
use netflex::dir::{Entry, Walker};
use netflex::file::File;
use netflex::indexer::{insert_batches, into_file_insert};
use netflex::stream;

const DEFAULT_RANGE: u64 = 1048576;

fn row(name: &str, path: &str, mime: &str, size: u64) -> Row {
    Row {
        id: 1,
        name: name.to_owned(),
        path: path.to_owned(),
        mime: mime.to_owned(),
        size,
        group_id: "g".to_owned(),
        group_member_name: format!("{}.x", name),
    }
}

#[test]
fn small_file_served_whole() {
    // A descriptor within the default window is served with status 200, no
    // Content-Range, and the full file content as the body.
    let clip = row("clip", "/media/clip.mp4", "video/mp4", 500000);
    let w = read_window(&clip, &None);
    assert_eq!(w.start(), 0);
    assert_eq!(w.offset(), 500000);
    let content = vec![7u8; 500000];
    let r = FileResponse::new(&clip, &None, content.clone());
    assert_eq!(r.status(), 200);
    assert_eq!(r.content_type(), "video/mp4");
    assert!(r.content_range().is_none());
    assert!(r.accept_ranges().is_none());
    assert_eq!(r.into_body(), content);
}

#[test]
fn small_file_served_whole_even_with_a_range() {
    let clip = row("clip", "/media/clip.mp4", "video/mp4", DEFAULT_RANGE);
    let range = Some(stream::Range::from_header("bytes=10-20"));
    let w = read_window(&clip, &range);
    assert_eq!(w.start(), 0);
    assert_eq!(w.offset(), DEFAULT_RANGE);
    let r = FileResponse::new(&clip, &range, Vec::new());
    assert_eq!(r.status(), 200);
}

#[test]
fn large_file_without_range_gets_the_default_chunk() {
    // A descriptor beyond the default window, with no range requested, is
    // served as status 206 with Content-Range
    // "bytes 0-{DEFAULT_RANGE-1}/{size}" and a window of exactly
    // DEFAULT_RANGE bytes.
    let movie = row("movie", "/media/movie.mp4", "video/mp4", 2097152);
    let w = read_window(&movie, &None);
    assert_eq!(w.start(), 0);
    assert_eq!(w.offset(), DEFAULT_RANGE);
    let content = vec![1u8; DEFAULT_RANGE as usize];
    let r = FileResponse::new(&movie, &None, content.clone());
    assert_eq!(r.status(), 206);
    assert_eq!(r.content_type(), "video/mp4");
    assert_eq!(r.accept_ranges().unwrap(), "bytes");
    assert_eq!(r.content_range().unwrap(), "bytes 0-1048575/2097152");
    assert_eq!(r.into_body().len(), DEFAULT_RANGE as usize);
}

#[test]
fn large_file_with_range_gets_that_chunk() {
    let movie = row("movie", "/media/movie.mp4", "video/mp4", 2097152);
    let range = Some(stream::Range::from_header("bytes=100-199"));
    let w = read_window(&movie, &range);
    assert_eq!(w.start(), 100);
    assert_eq!(w.offset(), 99);
    let content = vec![2u8; 99];
    let r = FileResponse::new(&movie, &range, content);
    assert_eq!(r.status(), 206);
    assert_eq!(r.content_range().unwrap(), "bytes 100-198/2097152");
}

#[test]
fn chunk_clamped_to_the_end_of_the_file() {
    let movie = row("movie", "/media/movie.mp4", "video/mp4", 2097152);
    let range = Some(stream::Range::from_header("bytes=2097000-"));
    let w = read_window(&movie, &range);
    assert_eq!(w.start(), 2097000);
    assert_eq!(w.offset(), 152);
    let r = FileResponse::new(&movie, &range, vec![0u8; 152]);
    assert_eq!(r.content_range().unwrap(), "bytes 2097000-2097151/2097152");
}

#[test]
fn refresh_then_stream() {
    // End to end: a root with movie.mp4 (2,097,152 bytes) and clip.mp4
    // (500,000 bytes) is swept into the catalog; the listing comes back
    // alphabetical; the small clip is served whole and the movie as a chunk.
    let mut walker = Walker::new("/media".to_owned());
    walker.advance(vec![
        Entry::File(File::new("/media/movie.mp4".to_owned(), 2097152)),
        Entry::File(File::new("/media/clip.mp4".to_owned(), 500000)),
    ]);
    assert!(walker.done());
    let inserts = into_file_insert(walker.into_files());
    let mut catalog = Catalog::new();
    catalog.delete_by_path("/media");
    for batch in insert_batches(inserts) {
        catalog.insert_all(batch);
    }

    let videos = catalog.find_all_by_mime_prefix("video/");
    assert_eq!(videos.len(), 2);
    assert_eq!(videos[0].name, "clip");
    assert_eq!(videos[1].name, "movie");

    let clip = &videos[0];
    let w = read_window(clip, &None);
    assert_eq!((w.start(), w.offset()), (0, 500000));
    let whole = FileResponse::new(clip, &None, vec![9u8; 500000]);
    assert_eq!(whole.status(), 200);
    assert!(whole.content_range().is_none());
    assert_eq!(whole.into_body().len(), 500000);

    let movie = &videos[1];
    let range = Some(stream::Range::from_header("bytes=100-199"));
    let w = read_window(movie, &range);
    assert_eq!((w.start(), w.offset()), (100, 99));
    let chunk = FileResponse::new(movie, &range, vec![9u8; 99]);
    assert_eq!(chunk.status(), 206);
    assert_eq!(chunk.content_range().unwrap(), "bytes 100-198/2097152");
    assert_eq!(chunk.into_body().len(), 99);
}
