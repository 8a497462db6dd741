//! The guards that keep the data of a test from outliving it.
use vstd::prelude::*;

verus! {

/// What a [`DbFileCleaner`] is, as a mathematical value.
pub struct CleanerState {
    /// The directory that is guarded.
    pub path: Seq<char>,
}

/// Guardian struct used for cleaning up the data of a database directory, both when a test
/// begins and when it ends.
///
/// The guard says which directory tree has to go, when it is set up, whenever it is asked, and
/// when it is released; whoever holds it does the removing.
pub struct DbFileCleaner {
    path: String,
}

impl View for DbFileCleaner {
    type V = CleanerState;

    closed spec fn view(&self) -> CleanerState {
        CleanerState { path: self.path@ }
    }
}

impl DbFileCleaner {
    /// Sets up a guard over `path`, and hands out the directory to remove first: what an earlier
    /// run left there.
    pub fn new(path: String) -> (r: (Self, String))
        ensures
            r.0@.path == path@,
            r.1@ == path@,
    {
        let cleaner = DbFileCleaner { path };
        let dir = cleaner.cleanup();
        (cleaner, dir)
    }

    /// The directory to remove, with all that is in it.
    pub fn cleanup(&self) -> (dir: String)
        ensures
            dir@ == self@.path,
    {
        self.path.clone()
    }

    /// Ends the scope of the guard, and hands out the directory to remove last.
    pub fn release(self) -> (dir: String)
        ensures
            dir@ == self@.path,
    {
        self.cleanup()
    }
}

/// What a part of a path between two slashes adds to it: its name, or nothing if it is empty or
/// stands for the directory that it is in.
pub open spec fn step(part: Seq<char>) -> Seq<Seq<char>> {
    if part.len() == 0 || part == "."@ {
        Seq::empty()
    } else {
        seq![part]
    }
}

/// The names that a path goes through, from left to right.
pub open spec fn steps(path: Seq<char>) -> Seq<Seq<char>>
    decreases path.len(),
{
    match path.index_of_first('/') {
        None => step(path),
        Some(slash) => {
            proof {
                path.index_of_first_ensures('/');
            }
            step(path.take(slash)) + steps(path.skip(slash + 1))
        },
    }
}

/// Whether a path leads somewhere, and does so without going up again.
pub open spec fn is_plain(path: Seq<char>) -> bool {
    &&& path.len() > 0
    &&& !steps(path).contains(".."@)
}

/// Where a plain path leads from the working directory `cwd`: the names of the directories from
/// the root on. There are no links on the way.
pub open spec fn location(path: Seq<char>, cwd: Seq<Seq<char>>) -> Seq<Seq<char>> {
    if path.len() > 0 && path[0] == '/' {
        steps(path)
    } else {
        cwd + steps(path)
    }
}

/// Whether `file` is the directory `dir`, or is somewhere in it.
pub open spec fn is_beneath(file: Seq<Seq<char>>, dir: Seq<Seq<char>>) -> bool {
    dir.is_prefix_of(file)
}

/// The files that are left, by their locations, when the directory tree `dir` was removed.
pub open spec fn after_removal(files: Set<Seq<Seq<char>>>, dir: Seq<Seq<char>>) -> Set<
    Seq<Seq<char>>,
> {
    files.filter(|file: Seq<Seq<char>>| !is_beneath(file, dir))
}

/// A removal takes the directory and all that is in it, and nothing else; making it again changes
/// nothing.
pub proof fn law_removal_takes_the_tree(files: Set<Seq<Seq<char>>>, dir: Seq<Seq<char>>)
    ensures
        forall|file: Seq<Seq<char>>| #[trigger]
            after_removal(files, dir).contains(file) <==> files.contains(file) && !is_beneath(
                file,
                dir,
            ),
        after_removal(after_removal(files, dir), dir) == after_removal(files, dir),
{
    assert(after_removal(after_removal(files, dir), dir) =~= after_removal(files, dir));
}

/// Removing what a guard hands out when it is set up, and again when it is released, leaves no
/// trace of its directory at either end, whatever was there before and whatever was written
/// meanwhile.
pub proof fn law_removed_at_both_ends(
    guard: CleanerState,
    cwd: Seq<Seq<char>>,
    at_start: Set<Seq<Seq<char>>>,
    at_end: Set<Seq<Seq<char>>>,
)
    requires
        is_plain(guard.path),
    ensures
        ({
            let dir = location(guard.path, cwd);
            forall|file: Seq<Seq<char>>|
                is_beneath(file, dir) ==> {
                    &&& !(#[trigger] after_removal(at_start, dir).contains(file))
                    &&& !after_removal(at_end, dir).contains(file)
                }
        }),
{
    law_removal_takes_the_tree(at_start, location(guard.path, cwd));
    law_removal_takes_the_tree(at_end, location(guard.path, cwd));
}

/// A slash at the end of a path does not change where it leads.
pub proof fn law_slash_at_the_end_changes_nothing(path: Seq<char>, cwd: Seq<Seq<char>>)
    requires
        path.len() > 0,
    ensures
        location(path + "/"@, cwd) == location(path, cwd),
        is_plain(path + "/"@) == is_plain(path),
{
    lemma_steps_with_slash(path);
    assert((path + "/"@)[0] == path[0]);
}

proof fn lemma_steps_with_slash(path: Seq<char>)
    ensures
        steps(path + "/"@) == steps(path),
    decreases path.len(),
{
    reveal_strlit("/");
    let longer = path + "/"@;
    path.index_of_first_ensures('/');
    longer.index_of_first_ensures('/');
    assert(longer[path.len() as int] == '/');
    let slash = longer.index_of_first('/')->Some_0;
    match path.index_of_first('/') {
        None => {
            if slash < path.len() {
                assert(path[slash] == '/');
            }
            assert(longer.take(slash) =~= path);
            let rest = longer.skip(slash + 1);
            assert(rest.len() == 0);
            rest.index_of_first_ensures('/');
            assert(steps(rest) =~= Seq::<Seq<char>>::empty());
        },
        Some(first) => {
            assert(longer[first] == '/');
            if slash < first {
                assert(path[slash] == '/');
            }
            assert(longer.take(slash) =~= path.take(first));
            assert(longer.skip(slash + 1) =~= path.skip(first + 1) + "/"@);
            lemma_steps_with_slash(path.skip(first + 1));
        },
    }
}

/// What an [`S3BucketCleaner`] is, as a mathematical value.
pub struct BucketCleanerState {
    /// The bucket that is guarded.
    pub bucket: Seq<char>,
}

/// Guardian struct used for cleaning up the data of a bucket, both when a test begins and when it
/// ends.
///
/// The guard says which bucket has to be cleaned up; whoever holds it does the work, and goes on
/// whether or not it succeeds.
pub struct S3BucketCleaner {
    bucket: String,
}

impl View for S3BucketCleaner {
    type V = BucketCleanerState;

    closed spec fn view(&self) -> BucketCleanerState {
        BucketCleanerState { bucket: self.bucket@ }
    }
}

impl S3BucketCleaner {
    /// Sets up a guard over `bucket`, and hands out the bucket to clean up first.
    pub fn new(bucket: String) -> (r: (Self, String))
        ensures
            r.0@.bucket == bucket@,
            r.1@ == bucket@,
    {
        let name = bucket.clone();
        (S3BucketCleaner { bucket }, name)
    }

    /// Ends the scope of the guard, and hands out the bucket to clean up last.
    pub fn release(self) -> (bucket: String)
        ensures
            bucket@ == self@.bucket,
    {
        self.bucket
    }
}

} // verus!
