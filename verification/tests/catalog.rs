use netflex::catalog::{Catalog, InsertFile};

fn insert(name: &str, path: &str, mime: &str, size: u64, group_id: &str) -> InsertFile {
    InsertFile {
        name: name.to_owned(),
        path: path.to_owned(),
        mime: mime.to_owned(),
        size,
        group_id: group_id.to_owned(),
        group_member_name: format!("{}.x", name),
    }
}

#[test]
fn round_trip() {
    // insert_all([d1, d2, d3]) followed by find_all() returns the same
    // descriptors, reordered only by ascending name.
    let mut c = Catalog::new();
    let d1 = insert("movie", "/media/movie.mp4", "video/mp4", 10, "g");
    let d2 = insert("clip", "/media/clip.mp4", "video/mp4", 20, "g");
    let d3 = insert("alpha", "/media/alpha.mp3", "audio/mpeg", 30, "g");
    c.insert_all(vec![d1, d2, d3]);
    let all = c.find_all();
    assert_eq!(all.len(), 3);
    assert_eq!(all[0].name, "alpha");
    assert_eq!(all[1].name, "clip");
    assert_eq!(all[2].name, "movie");
    assert_eq!(all[0].size, 30);
    assert_eq!(all[1].size, 20);
    assert_eq!(all[2].size, 10);
}

#[test]
fn ids_are_assigned_in_turn() {
    let mut c = Catalog::new();
    c.insert_all(vec![insert("a", "/a", "video/mp4", 1, "g")]);
    c.insert_all(vec![insert("b", "/b", "video/mp4", 2, "g")]);
    let a = c.find_by_id(1).unwrap();
    let b = c.find_by_id(2).unwrap();
    assert_eq!(a.name, "a");
    assert_eq!(b.name, "b");
    assert!(c.find_by_id(3).is_none());
}

#[test]
fn empty_batch_is_a_no_op() {
    let mut c = Catalog::new();
    c.insert_all(Vec::new());
    assert_eq!(c.len(), 0);
    assert_eq!(c.next_id(), 1);
}

#[test]
fn find_by_group_matches_both_fields() {
    let mut c = Catalog::new();
    let mut one = insert("one", "/d/one.m3u8", "application/x-mpegURL", 1, "17");
    one.group_member_name = "one.m3u8".to_owned();
    let mut two = insert("two", "/d/two.ts", "video/MP2T", 2, "17");
    two.group_member_name = "two.ts".to_owned();
    c.insert_all(vec![one, two]);
    let hit = c.find_by_group("17", "two.ts").unwrap();
    assert_eq!(hit.name, "two");
    assert!(c.find_by_group("17", "three.ts").is_none());
    assert!(c.find_by_group("18", "two.ts").is_none());
}

#[test]
fn find_by_id_with_mime_prefix_checks_both() {
    let mut c = Catalog::new();
    c.insert_all(vec![
        insert("song", "/m/song.mp3", "audio/mpeg", 1, "g"),
        insert("movie", "/m/movie.mp4", "video/mp4", 2, "g"),
    ]);
    assert_eq!(c.find_by_id_with_mime_prefix(1, "audio/").unwrap().name, "song");
    assert!(c.find_by_id_with_mime_prefix(2, "audio/").is_none());
    assert!(c.find_by_id_with_mime_prefix(3, "audio/").is_none());
}

#[test]
fn find_visible_movie_by_id_checks_the_type() {
    let mut c = Catalog::new();
    c.insert_all(vec![
        insert("segment", "/m/segment.ts", "video/MP2T", 1, "g"),
        insert("movie", "/m/movie.mp4", "video/mp4", 2, "g"),
    ]);
    assert!(c.find_visible_movie_by_id(1).is_none());
    assert_eq!(c.find_visible_movie_by_id(2).unwrap().name, "movie");
}

#[test]
fn delete_by_path_removes_the_subtree() {
    let mut c = Catalog::new();
    c.insert_all(vec![
        insert("a", "/media/a.mp4", "video/mp4", 1, "g"),
        insert("b", "/media/sub/b.mp4", "video/mp4", 2, "g"),
        insert("c", "/other/c.mp4", "video/mp4", 3, "g"),
    ]);
    c.delete_by_path("/media");
    let all = c.find_all();
    assert_eq!(all.len(), 1);
    assert_eq!(all[0].name, "c");
}

#[test]
fn find_all_by_mime_prefix_narrows() {
    let mut c = Catalog::new();
    c.insert_all(vec![
        insert("song", "/m/song.mp3", "audio/mpeg", 1, "g"),
        insert("movie", "/m/movie.mp4", "video/mp4", 2, "g"),
        insert("ballad", "/m/ballad.mp3", "audio/mpeg", 3, "g"),
    ]);
    let audios = c.find_all_by_mime_prefix("audio/");
    assert_eq!(audios.len(), 2);
    assert_eq!(audios[0].name, "ballad");
    assert_eq!(audios[1].name, "song");
}

#[test]
fn visible_movies_skip_transport_streams() {
    let mut c = Catalog::new();
    c.insert_all(vec![
        insert("show", "/m/show.m3u8", "application/x-mpegURL", 1, "g"),
        insert("segment", "/m/segment.ts", "video/MP2T", 2, "g"),
        insert("movie", "/m/movie.mp4", "video/mp4", 3, "g"),
        insert("song", "/m/song.mp3", "audio/mpeg", 4, "g"),
    ]);
    let movies = c.find_visible_movies();
    assert_eq!(movies.len(), 2);
    assert_eq!(movies[0].name, "movie");
    assert_eq!(movies[1].name, "show");
}
