//! What is done to a bucket of the object store: looking whether it is empty, emptying it, and
//! taking the snapshots out of it.
use vstd::prelude::*;
use vstd::string::{StrSliceExecFns, StringExecFns};

use crate::outside::{first_occurrences, texts, unique};
use crate::text::{decimal, decimal_text, is_numeral, law_decimal_is_the_numeral};

verus! {

/// What the object store answers to a request for the objects of a bucket.
#[derive(Debug, PartialEq, Eq)]
pub enum Listing {
    /// The request failed.
    Failed,
    /// The keys of some objects. `more` says that there are objects behind the last of them.
    Page { keys: Vec<String>, more: bool },
}

/// Whether a bucket is as expected: empty if `expect_empty`, and else not. A bucket without a
/// number of objects is one that is not there.
pub open spec fn occupancy_is_right(object_count: Option<nat>, expect_empty: bool) -> bool {
    expect_empty == (object_count is None || object_count == Some(0nat))
}

/// What is wrong with the occupancy of a bucket.
#[derive(Debug, PartialEq, Eq)]
pub enum OccupancyError {
    /// The bucket was to be empty, but holds this many objects.
    NotEmpty { found: usize },
    /// The bucket was to hold backup data, but is empty.
    Empty,
    /// The bucket was to hold backup data, but is not there.
    NoBucket { bucket: String },
}

/// The number of objects that a count stands for.
pub open spec fn count_of(object_count: Option<usize>) -> Option<nat> {
    match object_count {
        Some(n) => Some(n as nat),
        None => None,
    }
}

/// Whether `r` is what the check of the occupancy of a bucket comes to.
pub open spec fn is_occupancy_check(
    bucket: Seq<char>,
    object_count: Option<usize>,
    expect_empty: bool,
    r: Result<(), OccupancyError>,
) -> bool {
    match r {
        Ok(()) => occupancy_is_right(count_of(object_count), expect_empty),
        Err(OccupancyError::NotEmpty { found }) => {
            &&& expect_empty
            &&& object_count == Some(found)
            &&& found != 0
        },
        Err(OccupancyError::Empty) => !expect_empty && object_count == Some(0usize),
        Err(OccupancyError::NoBucket { bucket: missing }) => {
            &&& !expect_empty
            &&& object_count is None
            &&& missing@ == bucket
        },
    }
}

/// Checks whether a bucket is empty, if `expect_empty`, or else whether it holds something. It is
/// given the number of objects that were listed, or none if the bucket is not there, which counts
/// as an empty one.
pub fn check_bucket_occupancy(
    bucket: &str,
    object_count: Option<usize>,
    expect_empty: bool,
) -> (r: Result<(), OccupancyError>)
    ensures
        is_occupancy_check(bucket@, object_count, expect_empty, r),
{
    match object_count {
        Some(found) => {
            if expect_empty {
                if found == 0 {
                    Ok(())
                } else {
                    Err(OccupancyError::NotEmpty { found })
                }
            } else if found == 0 {
                Err(OccupancyError::Empty)
            } else {
                Ok(())
            }
        },
        None => if expect_empty {
            Ok(())
        } else {
            Err(OccupancyError::NoBucket { bucket: bucket.to_owned() })
        },
    }
}

/// For the check of its occupancy, a bucket that is not there is the same as an empty one.
pub proof fn law_missing_bucket_counts_as_empty(expect_empty: bool)
    ensures
        occupancy_is_right(None, expect_empty) == occupancy_is_right(Some(0), expect_empty),
{
}

/// The check accepts a bucket without objects, or that is not there, if and only if it was to be
/// empty, and any other if and only if it was not; and it names what it found.
pub proof fn law_occupancy_is_as_expected(
    bucket: Seq<char>,
    object_count: Option<usize>,
    expect_empty: bool,
    r: Result<(), OccupancyError>,
)
    requires
        is_occupancy_check(bucket, object_count, expect_empty, r),
    ensures
        match object_count {
            Some(n) => if n > 0 {
                if expect_empty {
                    r matches Err(OccupancyError::NotEmpty { found }) && found == n
                } else {
                    r is Ok
                }
            } else if expect_empty {
                r is Ok
            } else {
                r matches Err(OccupancyError::Empty)
            },
            None => if expect_empty {
                r is Ok
            } else {
                r matches Err(OccupancyError::NoBucket { bucket: missing }) && missing@ == bucket
            },
        },
{
}

/// The report of a bucket that is not empty gives the number of its objects in decimal, and that
/// of a missing bucket gives its name.
pub proof fn law_report_names_what_was_found(error: OccupancyError)
    ensures
        error matches OccupancyError::NotEmpty { found } ==> (exists|digits: Seq<char>| #[trigger]
            is_numeral(digits, found as int) && error.text()
                == "expected S3 bucket to be empty but "@ + digits + " were found"@),
        error matches OccupancyError::NoBucket { bucket } ==> error.text() == "bucket '"@ + bucket@
            + "' doesn't exist"@,
{
    if let OccupancyError::NotEmpty { found } = error {
        law_decimal_is_the_numeral(found as nat);
        assert(is_numeral(decimal(found as nat), found as int));
    }
}

impl OccupancyError {
    /// The text with which the check reports the error.
    pub open spec fn text(self) -> Seq<char> {
        match self {
            OccupancyError::NotEmpty { found } => "expected S3 bucket to be empty but "@ + decimal(
                found as nat,
            ) + " were found"@,
            OccupancyError::Empty =>
                "expected S3 bucket to be filled with backup data but it was empty"@,
            OccupancyError::NoBucket { bucket } => "bucket '"@ + bucket@ + "' doesn't exist"@,
        }
    }

    /// Renders the error.
    pub fn message(&self) -> (s: String)
        ensures
            s@ == self.text(),
    {
        match self {
            OccupancyError::NotEmpty { found } => {
                let digits = decimal_text(*found as u64);
                let mut s = "expected S3 bucket to be empty but ".to_owned();
                s.append(digits.as_str());
                s.append(" were found");
                s
            },
            OccupancyError::Empty => {
                "expected S3 bucket to be filled with backup data but it was empty".to_owned()
            },
            OccupancyError::NoBucket { bucket } => {
                let mut s = "bucket '".to_owned();
                s.append(bucket.as_str());
                s.append("' doesn't exist");
                s
            },
        }
    }
}

/// The generation that an object belongs to: its key up to the first slash.
pub open spec fn generation(key: Seq<char>) -> Seq<char> {
    match key.index_of_first('/') {
        Some(slash) => key.take(slash),
        None => key,
    }
}

/// The key of the snapshot of the generation that an object belongs to.
pub open spec fn snapshot_of(key: Seq<char>) -> Seq<char> {
    generation(key) + "/db.gz"@
}

/// The keys of the snapshots of all generations that objects belong to, each one once, in the
/// order in which the generations come up.
pub open spec fn snapshots_of(keys: Seq<Seq<char>>) -> Seq<Seq<char>> {
    first_occurrences(keys.map_values(|key: Seq<char>| snapshot_of(key)))
}

/// The generation of an object is what stands before its first slash, or all of its key.
pub proof fn lemma_generation(key: Seq<char>, n: int)
    requires
        0 <= n <= key.len(),
        forall|i: int| 0 <= i < n ==> key[i] != '/',
        n < key.len() ==> key[n] == '/',
    ensures
        generation(key) == key.take(n),
{
    key.index_of_first_ensures('/');
    if n == key.len() {
        assert(!key.contains('/'));
        assert(key.take(n) =~= key);
    } else {
        assert(key.contains('/'));
        let slash = key.index_of_first('/')->Some_0;
        if slash > n {
            assert(key[n] == '/');
        }
    }
}

/// The key of the snapshot of the generation that the object `key` belongs to.
pub fn snapshot_key(key: &str) -> (s: String)
    ensures
        s@ == snapshot_of(key@),
{
    let len: usize = key.unicode_len();
    let mut n: usize = 0;
    while n < len && key.get_char(n) != '/'
        invariant
            n <= len,
            len == key@.len(),
            forall|i: int| 0 <= i < n ==> key@[i] != '/',
        decreases len - n,
    {
        n = n + 1;
    }
    proof {
        lemma_generation(key@, n as int);
    }
    let mut s = key.substring_char(0, n).to_owned();
    s.append("/db.gz");
    s
}

/// The snapshots to remove from a bucket that holds the objects `keys`.
pub fn snapshot_keys(keys: &Vec<String>) -> (r: Vec<String>)
    ensures
        texts(r@) == snapshots_of(texts(keys@)),
{
    let mut all: Vec<String> = Vec::new();
    for i in 0..keys.len()
        invariant
            all.len() == i,
            forall|j: int| 0 <= j < i ==> #[trigger] all[j]@ == snapshot_of(keys[j]@),
    {
        all.push(snapshot_key(keys[i].as_str()));
    }
    assert(texts(all@) =~= texts(keys@).map_values(|key: Seq<char>| snapshot_of(key)));
    unique(all)
}

/// Work on the objects of a bucket.
#[derive(Debug, Clone, Copy, PartialEq, Eq, Structural)]
pub enum BucketJob {
    /// Delete all objects; the bucket itself stays.
    Cleanup,
    /// Delete the snapshots of all generations.
    RemoveSnapshots,
}

/// What to do next about a bucket.
#[derive(Debug, PartialEq, Eq)]
pub enum BucketStep {
    /// Ask for the objects behind the one with the key `after`, or for the first ones.
    List { after: Option<String> },
    /// Delete the objects with these keys; `quiet` asks the store to report failures only. If
    /// there is a `next`, there are objects behind it that were not listed yet.
    Delete { keys: Vec<String>, quiet: bool, next: Option<String> },
    /// There is nothing left to do.
    Done,
    /// The job failed.
    Failed,
}

impl BucketJob {
    /// The keys that the job deletes on account of the objects `keys`.
    pub open spec fn doomed(self, keys: Seq<Seq<char>>) -> Seq<Seq<char>> {
        match self {
            BucketJob::Cleanup => keys,
            BucketJob::RemoveSnapshots => snapshots_of(keys),
        }
    }

    /// Whether `step` is what follows when the store answers with `listing` to a request for
    /// objects, where `first` says that it was for the first ones.
    pub open spec fn lists_to(self, first: bool, listing: Listing, step: BucketStep) -> bool {
        match listing {
            Listing::Failed => if first && self is RemoveSnapshots {
                step is Done
            } else {
                step is Failed
            },
            Listing::Page { keys: listed, more } => if more && listed@.len() == 0 {
                step is Failed
            } else {
                &&& step matches BucketStep::Delete { keys, quiet, next }
                &&& texts(keys@) == self.doomed(texts(listed@))
                &&& quiet == (self is RemoveSnapshots)
                &&& next is Some <==> more
                &&& next matches Some(key) ==> key@ == listed@.last()@
            },
        }
    }

    /// What follows a deletion, where `next` is the key to go on from, if there is more.
    pub open spec fn deletes_to(self, deleted: bool, next: Option<String>) -> BucketStep {
        if !deleted {
            BucketStep::Failed
        } else if next is Some {
            BucketStep::List { after: next }
        } else {
            BucketStep::Done
        }
    }

    /// The first step of a job: it asks for the first objects.
    pub fn start(self) -> (step: BucketStep)
        ensures
            step == (BucketStep::List { after: None }),
    {
        BucketStep::List { after: None }
    }

    /// What to do once objects were asked for, where `first` says that it was for the first ones.
    ///
    /// A bucket that cannot be listed at all has no snapshots to remove, but cannot be cleaned up.
    /// A listing that breaks off, or that promises more without a key to go on from, is a failure.
    pub fn after_listing(self, first: bool, listing: Listing) -> (step: BucketStep)
        ensures
            self.lists_to(first, listing, step),
    {
        match listing {
            Listing::Failed => match self {
                BucketJob::Cleanup => BucketStep::Failed,
                BucketJob::RemoveSnapshots => if first {
                    BucketStep::Done
                } else {
                    BucketStep::Failed
                },
            },
            Listing::Page { keys, more } => {
                if more && keys.len() == 0 {
                    return BucketStep::Failed;
                }
                let next = if more {
                    Some(keys[keys.len() - 1].clone())
                } else {
                    None
                };
                match self {
                    BucketJob::Cleanup => BucketStep::Delete { keys, quiet: false, next },
                    BucketJob::RemoveSnapshots => {
                        BucketStep::Delete { keys: snapshot_keys(&keys), quiet: true, next }
                    },
                }
            },
        }
    }

    /// What to do once objects were deleted, or could not be: go on behind `next` if there is more,
    /// and else be done.
    pub fn after_delete(self, deleted: bool, next: Option<String>) -> (step: BucketStep)
        ensures
            step == self.deletes_to(deleted, next),
    {
        if !deleted {
            BucketStep::Failed
        } else {
            match next {
                Some(key) => BucketStep::List { after: Some(key) },
                None => BucketStep::Done,
            }
        }
    }
}

/// The objects of a bucket after those with the keys `deleted` were deleted.
pub open spec fn after_deletion(objects: Set<Seq<char>>, deleted: Seq<Seq<char>>) -> Set<
    Seq<char>,
> {
    objects.difference(deleted.to_set())
}

/// Of equal items one stays, and no item is made up.
proof fn lemma_first_occurrences(items: Seq<Seq<char>>)
    ensures
        first_occurrences(items).no_duplicates(),
        forall|x: Seq<char>| #[trigger]
            first_occurrences(items).contains(x) <==> items.contains(x),
    decreases items.len(),
{
    if items.len() != 0 {
        let rest = items.drop_last();
        let earlier = first_occurrences(rest);
        let all = first_occurrences(items);
        lemma_first_occurrences(rest);
        assert forall|x: Seq<char>| #[trigger] all.contains(x) <==> items.contains(x) by {
            assert(items =~= rest.push(items.last()));
            if items.contains(x) {
                let i = choose|i: int| 0 <= i < items.len() && items[i] == x;
                if i < rest.len() {
                    assert(rest[i] == x);
                    assert(earlier.contains(x));
                    let j = choose|j: int| 0 <= j < earlier.len() && earlier[j] == x;
                    assert(all[j] == x);
                } else if rest.contains(items.last()) {
                    assert(earlier.contains(x));
                } else {
                    assert(all.last() == x);
                }
            }
            if all.contains(x) {
                let j = choose|j: int| 0 <= j < all.len() && all[j] == x;
                if j < earlier.len() {
                    assert(earlier[j] == x);
                    assert(earlier.contains(x));
                    assert(rest.contains(x));
                    let i = choose|i: int| 0 <= i < rest.len() && rest[i] == x;
                    assert(items[i] == x);
                } else {
                    assert(items.last() == x);
                }
            }
        }
        if !rest.contains(items.last()) {
            assert(!earlier.contains(items.last()));
        }
    }
}

/// The snapshots to remove are those of the generations of the objects: no other keys, and none
/// of them twice.
pub proof fn law_snapshots_are_those_of_the_generations(keys: Seq<Seq<char>>)
    ensures
        snapshots_of(keys).no_duplicates(),
        forall|s: Seq<char>| #[trigger]
            snapshots_of(keys).contains(s) <==> exists|key: Seq<char>| #[trigger]
                keys.contains(key) && s == snapshot_of(key),
{
    let all = keys.map_values(|key: Seq<char>| snapshot_of(key));
    lemma_first_occurrences(all);
    assert forall|s: Seq<char>| #[trigger] snapshots_of(keys).contains(s) <==> exists|
        key: Seq<char>,
    | #[trigger] keys.contains(key) && s == snapshot_of(key) by {
        if all.contains(s) {
            let i = choose|i: int| 0 <= i < all.len() && all[i] == s;
            assert(keys.contains(keys[i]) && s == snapshot_of(keys[i]));
        }
        if exists|key: Seq<char>| #[trigger] keys.contains(key) && s == snapshot_of(key) {
            let key = choose|key: Seq<char>| #[trigger] keys.contains(key) && s == snapshot_of(key);
            let i = choose|i: int| 0 <= i < keys.len() && keys[i] == key;
            assert(all[i] == s);
        }
    }
}

/// A snapshot is of the generation that it is the snapshot of.
proof fn lemma_snapshot_of_snapshot(key: Seq<char>)
    ensures
        snapshot_of(snapshot_of(key)) == snapshot_of(key),
{
    reveal_strlit("/db.gz");
    key.index_of_first_ensures('/');
    let g = generation(key);
    let s = snapshot_of(key);
    assert forall|i: int| 0 <= i < g.len() implies s[i] != '/' by {
        assert(s[i] == g[i]);
        assert(g[i] == key[i]);
        if key[i] == '/' {
            assert(key.contains('/'));
        }
    }
    assert(s[g.len() as int] == '/');
    lemma_generation(s, g.len() as int);
    assert(s.take(g.len() as int) =~= g);
}

/// The objects of a bucket after a job went over the first `n` of `pages`, and deleted what each
/// page gave rise to before the next one was listed.
pub open spec fn after_pages(
    job: BucketJob,
    objects: Set<Seq<char>>,
    pages: Seq<Seq<Seq<char>>>,
    n: nat,
) -> Set<Seq<char>>
    decreases n,
{
    if n == 0 {
        objects
    } else {
        after_deletion(
            after_pages(job, objects, pages, (n - 1) as nat),
            job.doomed(pages[n - 1]),
        )
    }
}

/// The objects of a bucket after a job went over all of `pages`.
pub open spec fn after_job(
    job: BucketJob,
    objects: Set<Seq<char>>,
    pages: Seq<Seq<Seq<char>>>,
) -> Set<Seq<char>> {
    after_pages(job, objects, pages, pages.len())
}

/// Whether `keys` and `more` are what a store may list of `objects` behind the key `after`, or from
/// the start if there is none: every object from there on stands on the page, unless there is more,
/// and it comes behind the last key of the page.
///
/// `behind` is the order of the store: whether its first argument comes behind its second.
pub open spec fn is_page(
    objects: Set<Seq<char>>,
    after: Option<Seq<char>>,
    keys: Seq<Seq<char>>,
    more: bool,
    behind: spec_fn(Seq<char>, Seq<char>) -> bool,
) -> bool {
    forall|o: Seq<char>| #[trigger]
        objects.contains(o) && (after matches Some(key) ==> behind(o, key)) ==> {
            ||| keys.contains(o)
            ||| more && keys.len() > 0 && behind(o, keys.last())
        }
}

/// Whether a job that is done went over `pages`: it asks for the first objects, then for those
/// behind the last key of the page that it got, and stops at the page behind which there is
/// nothing more.
pub open spec fn is_run(
    job: BucketJob,
    objects: Set<Seq<char>>,
    pages: Seq<Seq<Seq<char>>>,
    behind: spec_fn(Seq<char>, Seq<char>) -> bool,
) -> bool {
    &&& pages.len() > 0
    &&& forall|i: int|
        #![trigger pages[i]]
        0 <= i < pages.len() ==> is_page(
            after_pages(job, objects, pages, i as nat),
            if i == 0 {
                None
            } else {
                Some(pages[i - 1].last())
            },
            pages[i],
            i + 1 < pages.len(),
            behind,
        )
}

/// Whether `o` stands on one of `pages`.
pub open spec fn on_a_page(pages: Seq<Seq<Seq<char>>>, o: Seq<char>) -> bool {
    exists|k: int| 0 <= k < pages.len() && (#[trigger] pages[k]).contains(o)
}

/// One round of a job: what it asked for, what the store listed, and what was deleted then.
pub struct JobRound {
    /// The step that asks for objects.
    pub asked: BucketStep,
    /// The answer of the store.
    pub listing: Listing,
    /// The step that deletes objects.
    pub deletion: BucketStep,
}

/// The text of a key, if there is one.
pub open spec fn key_text(key: Option<String>) -> Option<Seq<char>> {
    match key {
        Some(k) => Some(k@),
        None => None,
    }
}

/// The objects of a bucket after the deletions of the first `n` of `rounds`.
pub open spec fn after_rounds(
    objects: Set<Seq<char>>,
    rounds: Seq<JobRound>,
    n: nat,
) -> Set<Seq<char>>
    decreases n,
{
    if n == 0 {
        objects
    } else {
        after_deletion(
            after_rounds(objects, rounds, (n - 1) as nat),
            texts(rounds[n - 1].deletion->Delete_keys@),
        )
    }
}

/// Whether a job went through `rounds` and is done: it starts with the first step, every request
/// is answered with a page of what the bucket holds at that time, every deletion is what follows
/// the page and is made, and what follows the last one is the end of the job.
pub open spec fn is_done_by(
    job: BucketJob,
    objects: Set<Seq<char>>,
    rounds: Seq<JobRound>,
    behind: spec_fn(Seq<char>, Seq<char>) -> bool,
) -> bool {
    &&& rounds.len() > 0
    &&& rounds[0].asked == (BucketStep::List { after: None })
    &&& forall|i: int|
        #![trigger rounds[i]]
        0 <= i < rounds.len() ==> {
            let round = rounds[i];
            &&& round.asked matches BucketStep::List { after } && round.listing matches
                Listing::Page { keys, more } && is_page(
                after_rounds(objects, rounds, i as nat),
                key_text(after),
                texts(keys@),
                more,
                behind,
            )
            &&& job.lists_to(i == 0, round.listing, round.deletion)
            &&& round.deletion matches BucketStep::Delete { next, .. } && job.deletes_to(true, next)
                == (if i + 1 < rounds.len() {
                rounds[i + 1].asked
            } else {
                BucketStep::Done
            })
        }
}

/// The pages that were listed in `rounds`.
pub open spec fn pages_of(rounds: Seq<JobRound>) -> Seq<Seq<Seq<char>>> {
    rounds.map_values(|round: JobRound| texts(round.listing->Page_keys@))
}

/// A job that takes its steps goes over the whole bucket: what it is done by is a run over the
/// pages that were listed, and its deletions leave what the job leaves after these pages.
pub proof fn law_steps_make_a_run(
    job: BucketJob,
    objects: Set<Seq<char>>,
    rounds: Seq<JobRound>,
    behind: spec_fn(Seq<char>, Seq<char>) -> bool,
)
    requires
        is_done_by(job, objects, rounds, behind),
    ensures
        is_run(job, objects, pages_of(rounds), behind),
        after_rounds(objects, rounds, rounds.len()) == after_job(job, objects, pages_of(rounds)),
{
    let pages = pages_of(rounds);
    assert forall|n: nat| n <= rounds.len() implies #[trigger] after_rounds(objects, rounds, n)
        == after_pages(job, objects, pages, n) by {
        lemma_rounds_delete_by_page(job, objects, rounds, behind, n);
    }
    assert forall|i: int| #![trigger pages[i]] 0 <= i < pages.len() implies is_page(
        after_pages(job, objects, pages, i as nat),
        if i == 0 {
            None
        } else {
            Some(pages[i - 1].last())
        },
        pages[i],
        i + 1 < pages.len(),
        behind,
    ) by {
        let round = rounds[i];
        assert(after_rounds(objects, rounds, i as nat) == after_pages(
            job,
            objects,
            pages,
            i as nat,
        ));
        let after = round.asked->after;
        let more = round.listing->more;
        assert(is_page(
            after_rounds(objects, rounds, i as nat),
            key_text(after),
            texts(round.listing->Page_keys@),
            more,
            behind,
        ));
        if i > 0 {
            let earlier = rounds[i - 1];
            let listed = earlier.listing->Page_keys@;
            assert(job.lists_to(i - 1 == 0, earlier.listing, earlier.deletion));
            assert(job.deletes_to(true, earlier.deletion->next) == rounds[i].asked);
            assert(after == earlier.deletion->next);
            assert(key_text(after) == Some(listed.last()@));
            assert(listed.len() > 0);
            assert(pages[i - 1].last() == listed.last()@);
        }
        if i + 1 < rounds.len() {
            let later = rounds[i + 1];
            assert(later.asked is List);
        }
    }
}

/// What a round deletes is what its page gives rise to.
proof fn lemma_rounds_delete_by_page(
    job: BucketJob,
    objects: Set<Seq<char>>,
    rounds: Seq<JobRound>,
    behind: spec_fn(Seq<char>, Seq<char>) -> bool,
    n: nat,
)
    requires
        is_done_by(job, objects, rounds, behind),
        n <= rounds.len(),
    ensures
        after_rounds(objects, rounds, n) == after_pages(job, objects, pages_of(rounds), n),
    decreases n,
{
    if n > 0 {
        lemma_rounds_delete_by_page(job, objects, rounds, behind, (n - 1) as nat);
        let round = rounds[n - 1];
        assert(job.lists_to(n - 1 == 0, round.listing, round.deletion));
        assert(pages_of(rounds)[n - 1] == texts(round.listing->Page_keys@));
    }
}

/// A job adds nothing, and what it deleted stays deleted.
proof fn lemma_pages_shrink(
    job: BucketJob,
    objects: Set<Seq<char>>,
    pages: Seq<Seq<Seq<char>>>,
    m: nat,
    n: nat,
)
    requires
        m <= n <= pages.len(),
    ensures
        after_pages(job, objects, pages, n).subset_of(after_pages(job, objects, pages, m)),
    decreases n,
{
    if m < n {
        lemma_pages_shrink(job, objects, pages, m, (n - 1) as nat);
    }
}

/// A job sees every object: one that is there when the page with the number `n` is listed stands
/// on that page or on an earlier one, or comes behind it.
proof fn lemma_every_object_is_seen(
    job: BucketJob,
    objects: Set<Seq<char>>,
    pages: Seq<Seq<Seq<char>>>,
    behind: spec_fn(Seq<char>, Seq<char>) -> bool,
    n: int,
    o: Seq<char>,
)
    requires
        is_run(job, objects, pages, behind),
        0 <= n < pages.len(),
        after_pages(job, objects, pages, n as nat).contains(o),
    ensures
        on_a_page(pages, o) || (n + 1 < pages.len() && behind(o, pages[n].last())),
    decreases n,
{
    if n > 0 {
        lemma_pages_shrink(job, objects, pages, (n - 1) as nat, n as nat);
        lemma_every_object_is_seen(job, objects, pages, behind, n - 1, o);
    }
    let page = pages[n];
    if page.contains(o) {
        assert(on_a_page(pages, o));
    }
}

/// An object that stands on a page, and that is deleted on account of it, is gone.
proof fn lemma_doomed_is_gone(
    job: BucketJob,
    objects: Set<Seq<char>>,
    pages: Seq<Seq<Seq<char>>>,
    k: int,
    o: Seq<char>,
)
    requires
        0 <= k < pages.len(),
        job.doomed(pages[k]).contains(o),
    ensures
        !after_job(job, objects, pages).contains(o),
{
    assert(job.doomed(pages[k]).to_set().contains(o));
    lemma_pages_shrink(job, objects, pages, (k + 1) as nat, pages.len());
    assert(!after_pages(job, objects, pages, (k + 1) as nat).contains(o));
}

/// Cleaning up leaves the bucket empty, however many objects it held and over however many pages
/// they were listed.
pub proof fn law_cleanup_empties_the_bucket(
    objects: Set<Seq<char>>,
    pages: Seq<Seq<Seq<char>>>,
    behind: spec_fn(Seq<char>, Seq<char>) -> bool,
)
    requires
        is_run(BucketJob::Cleanup, objects, pages, behind),
    ensures
        after_job(BucketJob::Cleanup, objects, pages) == Set::<Seq<char>>::empty(),
{
    let job = BucketJob::Cleanup;
    assert forall|o: Seq<char>| !(#[trigger] after_job(job, objects, pages).contains(o)) by {
        if after_job(job, objects, pages).contains(o) {
            lemma_pages_shrink(job, objects, pages, (pages.len() - 1) as nat, pages.len());
            lemma_every_object_is_seen(job, objects, pages, behind, pages.len() - 1, o);
            let k = choose|k: int| 0 <= k < pages.len() && (#[trigger] pages[k]).contains(o);
            lemma_doomed_is_gone(job, objects, pages, k, o);
        }
    }
    assert(after_job(job, objects, pages) =~= Set::<Seq<char>>::empty());
}

/// Removing snapshots takes nothing but snapshots, whatever was listed: an object that is gone is
/// the snapshot of its generation, its key is the generation, which has no slash in it, and
/// `/db.gz`; and no object is added.
pub proof fn law_nothing_but_snapshots_goes(objects: Set<Seq<char>>, pages: Seq<Seq<Seq<char>>>)
    ensures
        after_job(BucketJob::RemoveSnapshots, objects, pages).subset_of(objects),
        forall|o: Seq<char>|
            objects.contains(o) && !(#[trigger] after_job(
                BucketJob::RemoveSnapshots,
                objects,
                pages,
            ).contains(o)) ==> {
                &&& o == generation(o) + "/db.gz"@
                &&& !generation(o).contains('/')
            },
{
    lemma_pages_shrink(BucketJob::RemoveSnapshots, objects, pages, 0, pages.len());
    assert forall|o: Seq<char>|
        objects.contains(o) && !(#[trigger] after_job(
            BucketJob::RemoveSnapshots,
            objects,
            pages,
        ).contains(o)) implies o == generation(o) + "/db.gz"@ && !generation(o).contains('/') by {
        lemma_other_objects_stay(objects, pages, pages.len(), o);
        lemma_generation_has_no_slash(o);
    }
}

proof fn lemma_generation_has_no_slash(key: Seq<char>)
    ensures
        !generation(key).contains('/'),
{
    key.index_of_first_ensures('/');
    let g = generation(key);
    if g.contains('/') {
        let i = choose|i: int| 0 <= i < g.len() && g[i] == '/';
        assert(key[i] == '/');
        assert(key.contains('/'));
    }
}

/// An object that is not the snapshot of its generation stays.
proof fn lemma_other_objects_stay(
    objects: Set<Seq<char>>,
    pages: Seq<Seq<Seq<char>>>,
    n: nat,
    o: Seq<char>,
)
    requires
        n <= pages.len(),
    ensures
        objects.contains(o) && o != snapshot_of(o) ==> after_pages(
            BucketJob::RemoveSnapshots,
            objects,
            pages,
            n,
        ).contains(o),
    decreases n,
{
    if n > 0 {
        lemma_other_objects_stay(objects, pages, (n - 1) as nat, o);
        let page = pages[n - 1];
        let doomed = BucketJob::RemoveSnapshots.doomed(page);
        if doomed.to_set().contains(o) {
            assert(doomed.contains(o));
            law_snapshots_are_those_of_the_generations(page);
            let key = choose|key: Seq<char>| #[trigger] page.contains(key) && o == snapshot_of(key);
            lemma_snapshot_of_snapshot(key);
        }
    }
}

/// Removing snapshots leaves no generation its snapshot, however many objects there were and over
/// however many pages they were listed; every object that is no snapshot of its generation stays.
pub proof fn law_all_generations_lose_their_snapshot(
    objects: Set<Seq<char>>,
    pages: Seq<Seq<Seq<char>>>,
    behind: spec_fn(Seq<char>, Seq<char>) -> bool,
)
    requires
        is_run(BucketJob::RemoveSnapshots, objects, pages, behind),
    ensures
        forall|o: Seq<char>| #[trigger]
            after_job(BucketJob::RemoveSnapshots, objects, pages).contains(o) <==> (
            objects.contains(o) && o != snapshot_of(o)),
        forall|key: Seq<char>| #[trigger]
            objects.contains(key) ==> !after_job(
                BucketJob::RemoveSnapshots,
                objects,
                pages,
            ).contains(snapshot_of(key)),
{
    let job = BucketJob::RemoveSnapshots;
    assert forall|o: Seq<char>| #[trigger] after_job(job, objects, pages).contains(o) <==> (
    objects.contains(o) && o != snapshot_of(o)) by {
        lemma_other_objects_stay(objects, pages, pages.len(), o);
        if after_job(job, objects, pages).contains(o) {
            lemma_pages_shrink(job, objects, pages, 0, pages.len());
            lemma_pages_shrink(job, objects, pages, (pages.len() - 1) as nat, pages.len());
            lemma_every_object_is_seen(job, objects, pages, behind, pages.len() - 1, o);
            let k = choose|k: int| 0 <= k < pages.len() && (#[trigger] pages[k]).contains(o);
            if o == snapshot_of(o) {
                law_snapshots_are_those_of_the_generations(pages[k]);
                assert(job.doomed(pages[k]).contains(o));
                lemma_doomed_is_gone(job, objects, pages, k, o);
            }
        }
    }
    assert forall|key: Seq<char>| #[trigger] objects.contains(key) implies !after_job(
        job,
        objects,
        pages,
    ).contains(snapshot_of(key)) by {
        lemma_snapshot_of_snapshot(key);
    }
}

/// Removing the snapshots once more changes nothing, whatever is listed then.
pub proof fn law_second_removal_changes_nothing(
    objects: Set<Seq<char>>,
    pages: Seq<Seq<Seq<char>>>,
    later_pages: Seq<Seq<Seq<char>>>,
    behind: spec_fn(Seq<char>, Seq<char>) -> bool,
)
    requires
        is_run(BucketJob::RemoveSnapshots, objects, pages, behind),
    ensures
        after_job(
            BucketJob::RemoveSnapshots,
            after_job(BucketJob::RemoveSnapshots, objects, pages),
            later_pages,
        ) == after_job(BucketJob::RemoveSnapshots, objects, pages),
{
    let job = BucketJob::RemoveSnapshots;
    let once = after_job(job, objects, pages);
    let twice = after_job(job, once, later_pages);
    law_all_generations_lose_their_snapshot(objects, pages, behind);
    lemma_pages_shrink(job, once, later_pages, 0, later_pages.len());
    assert forall|o: Seq<char>| #[trigger] once.contains(o) implies twice.contains(o) by {
        lemma_other_objects_stay(once, later_pages, later_pages.len(), o);
    }
    assert(twice =~= once);
}

/// Whether `key` is that of the snapshot of some generation: text without a slash, and `/db.gz`.
pub open spec fn is_snapshot_key(key: Seq<char>) -> bool {
    exists|g: Seq<char>| !g.contains('/') && key == #[trigger] (g + "/db.gz"@)
}

/// The snapshot that goes on account of an object is that of its whole generation: of all that
/// stands before the first slash of the key, whatever stands behind it.
pub proof fn law_snapshot_is_of_the_whole_generation(g: Seq<char>, rest: Seq<char>)
    requires
        !g.contains('/'),
    ensures
        snapshot_of(g + "/"@ + rest) == g + "/db.gz"@,
        snapshot_of(g) == g + "/db.gz"@,
{
    reveal_strlit("/");
    let key = g + "/"@ + rest;
    assert forall|i: int| 0 <= i < g.len() implies key[i] != '/' by {
        assert(key[i] == g[i]);
        assert(g.contains(g[i]));
    }
    assert forall|i: int| 0 <= i < g.len() implies g[i] != '/' by {
        assert(g.contains(g[i]));
    }
    lemma_generation(key, g.len() as int);
    lemma_generation(g, g.len() as int);
    assert(key.take(g.len() as int) =~= g);
    assert(g.take(g.len() as int) =~= g);
}

/// The snapshot that goes on account of a snapshot is itself, and of nothing else.
proof fn lemma_snapshot_keys_are_their_own(key: Seq<char>)
    ensures
        is_snapshot_key(key) <==> key == snapshot_of(key),
        is_snapshot_key(snapshot_of(key)),
{
    reveal_strlit("/");
    reveal_strlit("/db.gz");
    lemma_generation_has_no_slash(key);
    assert(snapshot_of(key) == generation(key) + "/db.gz"@);
    if is_snapshot_key(key) {
        let g = choose|g: Seq<char>| !g.contains('/') && key == #[trigger] (g + "/db.gz"@);
        let rest = "/db.gz"@.skip(1);
        assert("/db.gz"@ =~= "/"@ + rest);
        assert(key =~= g + "/"@ + rest);
        law_snapshot_is_of_the_whole_generation(g, rest);
    }
}

/// When removing snapshots is done, no snapshot of any generation is left, and nothing but
/// snapshots is gone: an object is there if and only if it was there and its key is not text
/// without a slash followed by `/db.gz`.
pub proof fn law_removal_leaves_no_snapshot(
    objects: Set<Seq<char>>,
    rounds: Seq<JobRound>,
    behind: spec_fn(Seq<char>, Seq<char>) -> bool,
)
    requires
        is_done_by(BucketJob::RemoveSnapshots, objects, rounds, behind),
    ensures
        forall|o: Seq<char>| #[trigger]
            after_rounds(objects, rounds, rounds.len()).contains(o) <==> objects.contains(o)
                && !is_snapshot_key(o),
{
    law_steps_make_a_run(BucketJob::RemoveSnapshots, objects, rounds, behind);
    law_all_generations_lose_their_snapshot(objects, pages_of(rounds), behind);
    assert forall|o: Seq<char>| #[trigger]
        after_rounds(objects, rounds, rounds.len()).contains(o) <==> objects.contains(o)
            && !is_snapshot_key(o) by {
        lemma_snapshot_keys_are_their_own(o);
    }
}

/// When cleaning up is done, nothing is left.
pub proof fn law_cleanup_leaves_nothing(
    objects: Set<Seq<char>>,
    rounds: Seq<JobRound>,
    behind: spec_fn(Seq<char>, Seq<char>) -> bool,
)
    requires
        is_done_by(BucketJob::Cleanup, objects, rounds, behind),
    ensures
        forall|o: Seq<char>|
            !(#[trigger] after_rounds(objects, rounds, rounds.len()).contains(o)),
{
    law_steps_make_a_run(BucketJob::Cleanup, objects, rounds, behind);
    law_cleanup_empties_the_bucket(objects, pages_of(rounds), behind);
}

/// What a job deletes on account of a page: when cleaning up, the listed objects, in order; when
/// removing snapshots, for every listed object the snapshot of its generation, each one once, and
/// nothing else. The job goes on behind the last listed key if and only if there is more.
pub proof fn law_page_decides_what_is_deleted(
    job: BucketJob,
    first: bool,
    listed: Vec<String>,
    more: bool,
    step: BucketStep,
)
    requires
        job.lists_to(first, Listing::Page { keys: listed, more }, step),
        more ==> listed@.len() > 0,
    ensures
        step matches BucketStep::Delete { keys, quiet, next } && {
            &&& job is Cleanup ==> !quiet && keys@.len() == listed@.len() && (forall|i: int|
                #![trigger keys@[i]]
                0 <= i < keys@.len() ==> keys@[i]@ == listed@[i]@)
            &&& job is RemoveSnapshots ==> {
                &&& quiet
                &&& forall|i: int, j: int|
                    #![trigger keys@[i], keys@[j]]
                    0 <= i < j < keys@.len() ==> keys@[i]@ != keys@[j]@
                &&& forall|k: int, g: Seq<char>, rest: Seq<char>|
                    #![trigger listed@[k], g + "/"@ + rest]
                    0 <= k < listed@.len() && !g.contains('/') && listed@[k]@ == g + "/"@ + rest
                        ==> texts(keys@).contains(g + "/db.gz"@)
                &&& forall|k: int|
                    #![trigger listed@[k]]
                    0 <= k < listed@.len() && !listed@[k]@.contains('/') ==> texts(keys@).contains(
                        listed@[k]@ + "/db.gz"@,
                    )
                &&& forall|i: int|
                    #![trigger keys@[i]]
                    0 <= i < keys@.len() ==> is_snapshot_key(keys@[i]@) && (exists|k: int|
                        #![trigger listed@[k]]
                        0 <= k < listed@.len() && {
                            ||| listed@[k]@ + "/db.gz"@ == keys@[i]@
                            ||| exists|rest: Seq<char>|
                                listed@[k]@ == #[trigger] (keys@[i]@.take(
                                    keys@[i]@.len() - "/db.gz"@.len(),
                                ) + "/"@ + rest)
                        })
            }
            &&& more ==> (next matches Some(key) && key@ == listed@.last()@)
            &&& !more ==> next is None
        },
{
    reveal_strlit("/");
    let keys = step->Delete_keys@;
    let wanted = texts(listed@);
    assert(texts(keys) == job.doomed(wanted));
    assert(texts(keys).len() == keys.len());
    assert(wanted.len() == listed@.len());
    assert(forall|i: int| 0 <= i < keys.len() ==> #[trigger] texts(keys)[i] == keys[i]@);
    assert(forall|i: int| 0 <= i < wanted.len() ==> #[trigger] wanted[i] == listed@[i]@);
    if job is Cleanup {
        assert forall|i: int| #![trigger keys[i]] 0 <= i < keys.len() implies keys[i]@
            == listed@[i]@ by {
            assert(texts(keys)[i] == wanted[i]);
        }
    } else {
        law_snapshots_are_those_of_the_generations(wanted);
        assert forall|i: int, j: int|
            #![trigger keys[i], keys[j]]
            0 <= i < j < keys.len() implies keys[i]@ != keys[j]@ by {
            assert(texts(keys)[i] != texts(keys)[j]);
        }
        assert forall|k: int, g: Seq<char>, rest: Seq<char>|
            #![trigger listed@[k], g + "/"@ + rest]
            0 <= k < listed@.len() && !g.contains('/') && listed@[k]@ == g + "/"@
                + rest implies texts(keys).contains(g + "/db.gz"@) by {
            law_snapshot_is_of_the_whole_generation(g, rest);
            assert(wanted.contains(wanted[k]));
        }
        assert forall|k: int|
            #![trigger listed@[k]]
            0 <= k < listed@.len() && !listed@[k]@.contains('/') implies texts(keys).contains(
            listed@[k]@ + "/db.gz"@,
        ) by {
            law_snapshot_is_of_the_whole_generation(listed@[k]@, Seq::empty());
            assert(wanted.contains(wanted[k]));
        }
        assert forall|i: int| #![trigger keys[i]] 0 <= i < keys.len() implies is_snapshot_key(
            keys[i]@,
        ) && (exists|k: int|
            #![trigger listed@[k]]
            0 <= k < listed@.len() && {
                ||| listed@[k]@ + "/db.gz"@ == keys[i]@
                ||| exists|rest: Seq<char>|
                    listed@[k]@ == #[trigger] (keys[i]@.take(keys[i]@.len() - "/db.gz"@.len())
                        + "/"@ + rest)
            }) by {
            assert(texts(keys).contains(texts(keys)[i]));
            let key = choose|key: Seq<char>| #[trigger]
                wanted.contains(key) && keys[i]@ == snapshot_of(key);
            lemma_snapshot_keys_are_their_own(key);
            let k = choose|k: int| 0 <= k < wanted.len() && wanted[k] == key;
            assert(listed@[k]@ == key);
            key.index_of_first_ensures('/');
            let g = generation(key);
            assert(keys[i]@.take(keys[i]@.len() - "/db.gz"@.len()) =~= g);
            if key.contains('/') {
                let rest = key.skip(g.len() as int + 1);
                assert(key =~= g + "/"@ + rest);
            } else {
                assert(listed@[k]@ + "/db.gz"@ == keys[i]@);
            }
        }
    }
}

/// What follows a request that fails, and a deletion: only removing snapshots from a bucket that
/// cannot be listed at all is done; a deletion that fails ends the job as failed, and one that is
/// made is followed by the next request if there is more, and by the end if there is not.
pub proof fn law_failures_end_a_job(job: BucketJob, first: bool, step: BucketStep)
    requires
        job.lists_to(first, Listing::Failed, step),
    ensures
        step is Done || step is Failed,
        step is Done <==> first && job is RemoveSnapshots,
        forall|next: Option<String>| #[trigger] job.deletes_to(false, next) is Failed,
        forall|key: String|
            #[trigger] job.deletes_to(true, Some(key)) matches BucketStep::List { after } && after
                == Some(key),
        job.deletes_to(true, None) is Done,
{
}

} // verus!
