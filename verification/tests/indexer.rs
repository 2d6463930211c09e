use netflex::dir::Entry;
use netflex::file::File;
use netflex::indexer::{
    calc_group_id, insert_batches, into_file_insert, try_into_insert, RefreshGate, Sweep,
    INSERT_BATCH_SIZE,
};

#[test]
fn same_directory_same_group_id() {
    // Two files sharing a parent directory share a group id; a file in a
    // different directory gets a different one.
    let a = calc_group_id("/media/shows/");
    let b = calc_group_id("/media/shows/");
    let c = calc_group_id("/media/movies/");
    assert_eq!(a, b);
    assert_ne!(a, c);
}

#[test]
fn try_into_insert_fills_every_field() {
    let f = File::new("/media/shows/pilot.mp4".to_owned(), 4096);
    let i = try_into_insert(f).unwrap();
    assert_eq!(i.name, "pilot");
    assert_eq!(i.path, "/media/shows/pilot.mp4");
    assert_eq!(i.mime, "video/mp4");
    assert_eq!(i.size, 4096);
    assert_eq!(i.group_id, calc_group_id("/media/shows/"));
    assert_eq!(i.group_member_name, "pilot.mp4");
}

#[test]
fn try_into_insert_rejects_unknown_extensions() {
    let f = File::new("/media/shows/pilot.unknown".to_owned(), 4096);
    assert!(try_into_insert(f).is_err());
}

#[test]
fn into_file_insert_drops_unclassifiable_files() {
    let files = vec![
        File::new("/m/a.mp4".to_owned(), 1),
        File::new("/m/b.unknown".to_owned(), 2),
        File::new("/m/c.mp3".to_owned(), 3),
    ];
    let inserts = into_file_insert(files);
    assert_eq!(inserts.len(), 2);
    assert_eq!(inserts[0].path, "/m/a.mp4");
    assert_eq!(inserts[1].path, "/m/c.mp3");
}

#[test]
fn insert_batches_respects_the_batch_size() {
    let f = File::new("/m/a.mp4".to_owned(), 1);
    let one = try_into_insert(f).unwrap();
    let mut many = Vec::new();
    for _ in 0..(INSERT_BATCH_SIZE + 3) {
        many.push(one.clone());
    }
    let batches = insert_batches(many);
    assert_eq!(batches.len(), 2);
    assert_eq!(batches[0].len(), INSERT_BATCH_SIZE);
    assert_eq!(batches[1].len(), 3);
}

#[test]
fn insert_batches_drops_oversized_files() {
    let small = try_into_insert(File::new("/m/a.mp4".to_owned(), 7)).unwrap();
    let huge = try_into_insert(File::new("/m/b.mp4".to_owned(), u64::MAX)).unwrap();
    let batches = insert_batches(vec![small, huge]);
    assert_eq!(batches.len(), 1);
    assert_eq!(batches[0].len(), 1);
    assert_eq!(batches[0][0].size, 7);
}

#[test]
fn sweep_runs_delete_walk_insert_in_order() {
    let mut sweep = Sweep::new("/media".to_owned());
    assert_eq!(sweep.delete_prefix(), "/media");
    sweep.mark_deleted();
    assert!(!sweep.walk_done());
    assert_eq!(sweep.frontier().len(), 1);
    assert_eq!(sweep.frontier()[0].path(), "/media");
    sweep.advance(vec![Entry::File(File::new("/media/a.mp4".to_owned(), 5))]);
    assert!(sweep.walk_done());
    let files = sweep.into_files();
    assert_eq!(files.len(), 1);
    let inserts = into_file_insert(files);
    let batches = insert_batches(inserts);
    assert_eq!(batches.len(), 1);
    assert_eq!(batches[0][0].path, "/media/a.mp4");
}

#[test]
fn single_flight_gate() {
    // Of two triggers on an idle gate exactly one is accepted; after the
    // accepted sweep gives the permit back, a third trigger is accepted again.
    let mut gate = RefreshGate::new();
    let first = gate.try_acquire();
    let second = gate.try_acquire();
    assert!(first);
    assert!(!second);
    gate.release();
    let third = gate.try_acquire();
    assert!(third);
}
