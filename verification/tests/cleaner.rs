use bottomless_harness::cleaner::{DbFileCleaner, S3BucketCleaner};
use std::collections::BTreeSet;
use std::path::Path;

/// Removes a directory from a set of files, with all that is in it.
fn remove(files: &mut BTreeSet<String>, dir: &str) {
    files.retain(|file| !Path::new(file).starts_with(dir));
}

#[test]
fn cleaner_removes_at_both_ends() {
    let names = [
        "backup_restore.sqld",
        "backup_restore.sqld/data",
        "backup_restore.sqld/dbs/default/wallog",
        "backup_restore.sqld.old",
        "rollback_restore.sqld",
    ];
    let mut files: BTreeSet<String> = names.iter().map(|n| n.to_string()).collect();

    let (cleaner, dir) = DbFileCleaner::new("backup_restore.sqld".to_string());
    assert_eq!(dir, "backup_restore.sqld");
    remove(&mut files, &dir);
    assert_eq!(
        files.iter().collect::<Vec<_>>(),
        vec!["backup_restore.sqld.old", "rollback_restore.sqld"]
    );

    files.insert("backup_restore.sqld/data".to_string());
    let dir = cleaner.release();
    assert_eq!(dir, "backup_restore.sqld");
    remove(&mut files, &dir);
    assert_eq!(files.len(), 2);
}

#[test]
fn a_slash_at_the_end_makes_no_difference() {
    for path in ["x", "x/", "x//", "x/."] {
        let mut files: BTreeSet<String> = ["x", "x/d", "x/d/e", "xy", "y/x"]
            .iter()
            .map(|n| n.to_string())
            .collect();
        let (cleaner, dir) = DbFileCleaner::new(path.to_string());
        assert_eq!(dir, path);
        assert_eq!(cleaner.release(), path);
        remove(&mut files, &dir);
        assert_eq!(files.iter().collect::<Vec<_>>(), vec!["xy", "y/x"]);
    }
}

#[test]
fn cleaner_names_its_directory_every_time() {
    let (cleaner, _) = DbFileCleaner::new("a.sqld".to_string());
    for _ in 0..3 {
        assert_eq!(cleaner.cleanup(), "a.sqld");
    }
    assert_eq!(cleaner.release(), "a.sqld");
}

#[test]
fn bucket_cleaner_cleans_at_both_ends() {
    let (cleaner, bucket) = S3BucketCleaner::new("testbackuprestore".to_string());
    assert_eq!(bucket, "testbackuprestore");
    assert_eq!(cleaner.release(), "testbackuprestore");
}
