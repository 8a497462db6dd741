use bottomless_harness::bucket::{
    check_bucket_occupancy, snapshot_key, snapshot_keys, BucketJob, BucketStep, Listing,
    OccupancyError,
};

fn keys(keys: &[&str]) -> Vec<String> {
    keys.iter().map(|k| k.to_string()).collect()
}

/// A store that lists at most `page` keys at a time, in order.
struct Store {
    objects: Vec<String>,
    page: usize,
    requests: usize,
}

impl Store {
    fn new(objects: &[&str], page: usize) -> Self {
        let mut objects = keys(objects);
        objects.sort();
        Store {
            objects,
            page,
            requests: 0,
        }
    }

    fn list(&mut self, after: &Option<String>) -> Listing {
        self.requests += 1;
        let rest: Vec<String> = self
            .objects
            .iter()
            .filter(|o| after.as_ref().map_or(true, |a| *o > a))
            .cloned()
            .collect();
        Listing::Page {
            more: rest.len() > self.page,
            keys: rest.into_iter().take(self.page).collect(),
        }
    }

    fn run(&mut self, job: BucketJob) -> BucketStep {
        let mut step = job.start();
        let mut first = true;
        loop {
            step = match step {
                BucketStep::List { after } => {
                    let listing = self.list(&after);
                    let step = job.after_listing(first, listing);
                    first = false;
                    step
                }
                BucketStep::Delete { keys, next, .. } => {
                    self.objects.retain(|o| !keys.contains(o));
                    job.after_delete(true, next)
                }
                BucketStep::Done | BucketStep::Failed => return step,
            };
        }
    }
}

#[test]
fn occupancy() {
    assert_eq!(check_bucket_occupancy("b", Some(2), false), Ok(()));
    assert_eq!(check_bucket_occupancy("b", Some(0), true), Ok(()));
    assert_eq!(
        check_bucket_occupancy("b", Some(2), true),
        Err(OccupancyError::NotEmpty { found: 2 })
    );
    assert_eq!(
        check_bucket_occupancy("b", Some(0), false),
        Err(OccupancyError::Empty)
    );
}

#[test]
fn a_missing_bucket_counts_as_empty() {
    assert_eq!(check_bucket_occupancy("b", None, true), Ok(()));
    assert_eq!(
        check_bucket_occupancy("b", None, false),
        Err(OccupancyError::NoBucket {
            bucket: "b".to_string()
        })
    );
}

#[test]
fn occupancy_messages() {
    assert_eq!(
        OccupancyError::NotEmpty { found: 12 }.message(),
        "expected S3 bucket to be empty but 12 were found"
    );
    assert_eq!(
        OccupancyError::Empty.message(),
        "expected S3 bucket to be filled with backup data but it was empty"
    );
    assert_eq!(
        OccupancyError::NoBucket {
            bucket: "testbackuprestore".to_string()
        }
        .message(),
        "bucket 'testbackuprestore' doesn't exist"
    );
}

#[test]
fn snapshots_of_all_generations() {
    assert_eq!(snapshot_key("gen-1/000001-000010.gz"), "gen-1/db.gz");
    assert_eq!(snapshot_key("gen-1/a/b"), "gen-1/db.gz");
    assert_eq!(snapshot_key("no slash"), "no slash/db.gz");
    assert_eq!(snapshot_key("/x"), "/db.gz");
    assert_eq!(snapshot_key(""), "/db.gz");
    assert_eq!(
        snapshot_keys(&keys(&[
            "gen-2/.meta",
            "gen-1/.meta",
            "gen-2/db.gz",
            "gen-1/1-2.gz",
            "gen-3/.dep",
        ])),
        keys(&["gen-2/db.gz", "gen-1/db.gz", "gen-3/db.gz"])
    );
    assert!(snapshot_keys(&vec![]).is_empty());
}

#[test]
fn only_snapshots_are_removed() {
    let objects = keys(&["g1/db.gz", "g1/1-2.gz", "g2/1-2.gz", "g2/old/db.gz", "top"]);
    let step = BucketJob::RemoveSnapshots.after_listing(
        true,
        Listing::Page {
            keys: objects.clone(),
            more: false,
        },
    );
    let BucketStep::Delete {
        keys: doomed,
        quiet,
        next,
    } = step
    else {
        panic!("expected a deletion");
    };
    assert!(quiet);
    assert_eq!(next, None);
    let left: Vec<String> = objects
        .into_iter()
        .filter(|o| !doomed.contains(o))
        .collect();
    assert_eq!(left, keys(&["g1/1-2.gz", "g2/1-2.gz", "g2/old/db.gz", "top"]));
}

#[test]
fn cleanup_deletes_everything() {
    let objects = keys(&["a/1", "a/db.gz", "b"]);
    assert_eq!(
        BucketJob::Cleanup.after_listing(
            true,
            Listing::Page {
                keys: objects.clone(),
                more: false
            }
        ),
        BucketStep::Delete {
            keys: objects,
            quiet: false,
            next: None
        }
    );
}

#[test]
fn jobs_go_through_all_pages() {
    let objects = [
        "g1/.meta", "g1/1-2.gz", "g1/3-4.gz", "g1/db.gz", "g2/1-2.gz", "g2/db.gz", "g3/1-2.gz",
    ];
    for page in 1..9 {
        let mut store = Store::new(&objects, page);
        assert_eq!(store.run(BucketJob::RemoveSnapshots), BucketStep::Done);
        let left = keys(&["g1/.meta", "g1/1-2.gz", "g1/3-4.gz", "g2/1-2.gz", "g3/1-2.gz"]);
        assert_eq!(store.objects, left);
        // a second time there is nothing to remove
        assert_eq!(store.run(BucketJob::RemoveSnapshots), BucketStep::Done);
        assert_eq!(store.objects, left);
        assert_eq!(store.run(BucketJob::Cleanup), BucketStep::Done);
        assert!(store.objects.is_empty());
    }
    let mut store = Store::new(&objects, 3);
    assert_eq!(store.run(BucketJob::Cleanup), BucketStep::Done);
    assert!(store.objects.is_empty());
    assert_eq!(store.requests, 3);
}

#[test]
fn a_further_page_starts_behind_the_last_key() {
    let step = BucketJob::Cleanup.after_listing(
        true,
        Listing::Page {
            keys: keys(&["a", "b"]),
            more: true,
        },
    );
    let BucketStep::Delete { next, .. } = step else {
        panic!("expected a deletion");
    };
    assert_eq!(next, Some("b".to_string()));
    assert_eq!(
        BucketJob::Cleanup.after_delete(true, next),
        BucketStep::List {
            after: Some("b".to_string())
        }
    );
    assert_eq!(
        BucketJob::Cleanup.start(),
        BucketStep::List { after: None }
    );
}

#[test]
fn failures_of_bucket_jobs() {
    assert_eq!(
        BucketJob::Cleanup.after_listing(true, Listing::Failed),
        BucketStep::Failed
    );
    assert_eq!(
        BucketJob::RemoveSnapshots.after_listing(true, Listing::Failed),
        BucketStep::Done
    );
    for job in [BucketJob::Cleanup, BucketJob::RemoveSnapshots] {
        assert_eq!(
            job.after_listing(false, Listing::Failed),
            BucketStep::Failed
        );
        let endless = Listing::Page {
            keys: vec![],
            more: true,
        };
        assert_eq!(job.after_listing(true, endless), BucketStep::Failed);
        assert_eq!(job.after_delete(true, None), BucketStep::Done);
        assert_eq!(job.after_delete(false, None), BucketStep::Failed);
        assert_eq!(
            job.after_delete(false, Some("k".to_string())),
            BucketStep::Failed
        );
    }
}
