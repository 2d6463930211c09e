use netflex::dir::{collect_content, Directory, Entry, Walker};
use netflex::file::File;

#[test]
fn directory_path_is_kept() {
    let d = Directory::new("./tests/data".to_owned());
    assert_eq!(d.path(), "./tests/data");
}

#[test]
fn directory_backslashes_are_normalized() {
    let d = Directory::new("media\\shows".to_owned());
    assert_eq!(d.path(), "media/shows");
}

#[test]
fn empty_input() {
    let content = collect_content(Vec::new());
    assert!(content.files.is_empty());
    assert!(content.dirs.is_empty());
}

#[test]
fn files_and_dirs() {
    let entries = vec![
        Entry::File(File::new("./tests/data/test-file.txt".to_owned(), 10)),
        Entry::Directory(Directory::new("./tests/data/dir1".to_owned())),
        Entry::File(File::new("./tests/data/music.mp3".to_owned(), 20)),
        Entry::Directory(Directory::new("./tests/data/dir2".to_owned())),
        Entry::Directory(Directory::new("./tests/data/dir3".to_owned())),
        Entry::File(File::new("./tests/data/toystory.mp4".to_owned(), 30)),
    ];
    let content = collect_content(entries);
    assert_eq!(content.files.len(), 3);
    assert_eq!(content.dirs.len(), 3);
    assert_eq!(content.files[0].path(), "./tests/data/test-file.txt");
    assert_eq!(content.files[1].path(), "./tests/data/music.mp3");
    assert_eq!(content.files[2].path(), "./tests/data/toystory.mp4");
    assert_eq!(content.dirs[0].path(), "./tests/data/dir1");
    assert_eq!(content.dirs[1].path(), "./tests/data/dir2");
    assert_eq!(content.dirs[2].path(), "./tests/data/dir3");
}

#[test]
fn non_existing_dir() {
    // A root that cannot be listed contributes an empty round: the walk ends
    // with no files and no error.
    let mut w = Walker::new("./tests/data/not_found".to_owned());
    assert!(!w.done());
    assert_eq!(w.frontier().len(), 1);
    w.advance(Vec::new());
    assert!(w.done());
    assert!(w.into_files().is_empty());
}

#[test]
fn walk_collects_every_file_once() {
    // Two rounds: the root holds one file and two directories; the two
    // directories hold one file each and one empty directory; the last round
    // is empty.  Exactly the three files come out, in round order.
    let mut w = Walker::new("/media".to_owned());
    assert_eq!(w.frontier()[0].path(), "/media");
    w.advance(vec![
        Entry::File(File::new("/media/a.mp4".to_owned(), 1)),
        Entry::Directory(Directory::new("/media/d1".to_owned())),
        Entry::Directory(Directory::new("/media/d2".to_owned())),
    ]);
    assert!(!w.done());
    assert_eq!(w.frontier().len(), 2);
    w.advance(vec![
        Entry::File(File::new("/media/d1/b.mp4".to_owned(), 2)),
        Entry::File(File::new("/media/d2/c.mp4".to_owned(), 3)),
        Entry::Directory(Directory::new("/media/d2/empty".to_owned())),
    ]);
    assert!(!w.done());
    assert_eq!(w.frontier().len(), 1);
    w.advance(Vec::new());
    assert!(w.done());
    let files = w.into_files();
    assert_eq!(files.len(), 3);
    assert_eq!(files[0].path(), "/media/a.mp4");
    assert_eq!(files[1].path(), "/media/d1/b.mp4");
    assert_eq!(files[2].path(), "/media/d2/c.mp4");
}
