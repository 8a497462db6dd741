//! Write-ahead logs, and logs that wrap others and record their savepoint events.
use vstd::prelude::*;

use crate::savepoint::{with_event, Records, SavepointEvent, SavepointRecorder};

verus! {

/// The code of a failed log operation.
#[derive(Debug, Clone, Copy, PartialEq, Eq, Structural)]
pub struct WalError {
    /// The error code, as the storage engine reports it.
    pub code: i32,
}

/// A page or frame number: these count from one.
#[derive(Debug, Clone, Copy, PartialEq, Eq, Structural)]
pub struct OneBased {
    value: u32,
}

impl OneBased {
    #[verifier::type_invariant]
    spec fn inv(self) -> bool {
        self.value != 0
    }

    /// The number.
    pub closed spec fn number(self) -> u32 {
        self.value
    }

    /// The number `value`, unless it is zero.
    pub fn new(value: u32) -> (n: Option<Self>)
        ensures
            n is Some <==> value != 0,
            n matches Some(n) ==> n.number() == value,
    {
        if value == 0 {
            None
        } else {
            Some(OneBased { value })
        }
    }

    /// The number as a plain integer.
    pub fn get(self) -> (value: u32)
        ensures
            value == self.number(),
            value != 0,
    {
        proof {
            use_type_invariant(self);
        }
        self.value
    }
}

/// The types of the storage engine that pass through a log unread.
pub trait WalTypes {
    /// A file system.
    type Vfs;

    /// An open database file.
    type File;

    /// A database handle.
    type Db;

    /// The headers of the pages to insert.
    type PageHeaders;

    /// Is told which pages an undo touches.
    type UndoHandler;

    /// Is asked what to do while a lock is held elsewhere.
    type BusyHandler;

    /// Is told how a checkpoint proceeds.
    type CheckpointCallback;

    /// How eager a checkpoint is.
    type CheckpointMode;
}

/// A call of a method of [`Wal`]: what goes in, with the value that each mutable argument had
/// before the call.
#[allow(inconsistent_fields)]
#[verifier::reject_recursive_types(T)]
pub enum WalCall<T: WalTypes> {
    /// `limit`
    Limit { size: i64 },
    /// `begin_read_txn`
    BeginReadTxn,
    /// `end_read_txn`
    EndReadTxn,
    /// `find_frame`
    FindFrame { page_no: OneBased },
    /// `read_frame`
    ReadFrame { frame_no: OneBased, buffer: Seq<u8> },
    /// `read_frame_raw`
    ReadFrameRaw { page_no: OneBased, buffer: Seq<u8> },
    /// `frame_count`
    FrameCount { locked: i32 },
    /// `db_size`
    DbSize,
    /// `begin_write_txn`
    BeginWriteTxn,
    /// `end_write_txn`
    EndWriteTxn,
    /// `undo`
    Undo { handler: Option<T::UndoHandler> },
    /// `savepoint`
    Savepoint { rollback_data: Seq<u32> },
    /// `savepoint_undo`
    SavepointUndo { rollback_data: Seq<u32> },
    /// `savepoint_forget`
    SavepointForget { rollback_data: Seq<u32> },
    /// `insert_frames`
    InsertFrames {
        page_size: i32,
        page_headers: T::PageHeaders,
        size_after: u32,
        is_commit: bool,
        sync_flags: i32,
    },
    /// `checkpoint`
    Checkpoint {
        db: T::Db,
        mode: T::CheckpointMode,
        busy_handler: Option<T::BusyHandler>,
        sync_flags: u32,
        buf: Seq<u8>,
        cb: Option<T::CheckpointCallback>,
        in_wal: Option<i32>,
        backfilled: Option<i32>,
    },
    /// `exclusive_mode`
    ExclusiveMode { op: i32 },
    /// `uses_heap_memory`
    UsesHeapMemory,
    /// `set_db`
    SetDb { db: T::Db },
    /// `callback`
    Callback,
    /// `frames_in_wal`
    FramesInWal,
}

/// What comes out of a call: its result, with the value that each mutable argument has after
/// the call.
#[verifier::reject_recursive_types(T)]
pub enum WalReply<T: WalTypes> {
    /// The call returns nothing.
    Done,
    /// The call returns whether something holds.
    Flag(bool),
    /// The call returns a number.
    Count(u32),
    /// The call returns a signed number.
    Code(i32),
    /// The call returns nothing, or fails.
    Status(Result<(), WalError>),
    /// The call returns whether something holds, or fails.
    FlagOr(Result<bool, WalError>),
    /// The call returns a number, or fails.
    CountOr(Result<u32, WalError>),
    /// The call returns a frame if there is one, or fails.
    FrameOr(Result<Option<OneBased>, WalError>),
    /// A frame was read into a buffer.
    Filled { buffer: Seq<u8>, result: Result<(), WalError> },
    /// An undo reported to its handler.
    Undone { handler: Option<T::UndoHandler>, result: Result<(), WalError> },
    /// A savepoint operation went over its rollback data.
    Marked { rollback_data: Seq<u32>, result: Result<(), WalError> },
    /// Frames were inserted.
    Inserted { page_headers: T::PageHeaders, inserted: Result<usize, WalError> },
    /// A checkpoint ran.
    Checkpointed {
        db: T::Db,
        busy_handler: Option<T::BusyHandler>,
        buf: Seq<u8>,
        cb: Option<T::CheckpointCallback>,
        in_wal: Option<i32>,
        backfilled: Option<i32>,
        result: Result<(), WalError>,
    },
    /// A database handle was attached.
    Attached { db: T::Db },
}

/// A write-ahead log.
///
/// A log says by [`Wal::step`] and [`Wal::mark`] how a call may take it from one state to another.
/// The methods promise no more than that the call they stand for was such a step.
pub trait Wal: Sized {
    /// The types of the storage engine that the log belongs to.
    type Types: WalTypes;

    /// What the savepoint operations of a log share with other logs and with their users.
    type Shared;

    /// Whether `call`, made on `pre`, may leave the log as `post` and reply with `reply`. A log that
    /// does not say rules nothing out.
    open spec fn step(
        pre: Self,
        call: WalCall<Self::Types>,
        post: Self,
        reply: WalReply<Self::Types>,
    ) -> bool {
        true
    }

    /// Whether the savepoint operation `call`, made on `pre` while `before` is shared, may leave the
    /// log as `post`, leave `after` shared, and reply with `reply`. A log that does not say rules
    /// nothing out.
    open spec fn mark(
        pre: Self,
        before: Self::Shared,
        call: WalCall<Self::Types>,
        post: Self,
        after: Self::Shared,
        reply: WalReply<Self::Types>,
    ) -> bool {
        true
    }

    /// Limits the size of the log.
    fn limit(&mut self, size: i64)
        ensures
            Self::step(*old(self), WalCall::Limit { size }, *final(self), WalReply::Done),
    ;

    /// Opens a read transaction.
    fn begin_read_txn(&mut self) -> (r: Result<bool, WalError>)
        ensures
            Self::step(*old(self), WalCall::BeginReadTxn, *final(self), WalReply::FlagOr(r)),
    ;

    /// Closes the read transaction.
    fn end_read_txn(&mut self)
        ensures
            Self::step(*old(self), WalCall::EndReadTxn, *final(self), WalReply::Done),
    ;

    /// Finds the frame that holds a page.
    fn find_frame(&mut self, page_no: OneBased) -> (r: Result<Option<OneBased>, WalError>)
        ensures
            Self::step(
                *old(self),
                WalCall::FindFrame { page_no },
                *final(self),
                WalReply::FrameOr(r),
            ),
    ;

    /// Reads the page that a frame holds.
    fn read_frame(&mut self, frame_no: OneBased, buffer: &mut [u8]) -> (r: Result<(), WalError>)
        ensures
            Self::step(
                *old(self),
                WalCall::ReadFrame { frame_no, buffer: old(buffer)@ },
                *final(self),
                WalReply::Filled { buffer: final(buffer)@, result: r },
            ),
    ;

    /// Reads a frame together with its header.
    fn read_frame_raw(&mut self, page_no: OneBased, buffer: &mut [u8]) -> (r: Result<
        (),
        WalError,
    >)
        ensures
            Self::step(
                *old(self),
                WalCall::ReadFrameRaw { page_no, buffer: old(buffer)@ },
                *final(self),
                WalReply::Filled { buffer: final(buffer)@, result: r },
            ),
    ;

    /// The number of frames of the log.
    fn frame_count(&self, locked: i32) -> (r: Result<u32, WalError>)
        ensures
            Self::step(*self, WalCall::FrameCount { locked }, *self, WalReply::CountOr(r)),
    ;

    /// The size of the database in pages.
    fn db_size(&self) -> (r: u32)
        ensures
            Self::step(*self, WalCall::DbSize, *self, WalReply::Count(r)),
    ;

    /// Opens a write transaction.
    fn begin_write_txn(&mut self) -> (r: Result<(), WalError>)
        ensures
            Self::step(*old(self), WalCall::BeginWriteTxn, *final(self), WalReply::Status(r)),
    ;

    /// Closes the write transaction.
    fn end_write_txn(&mut self) -> (r: Result<(), WalError>)
        ensures
            Self::step(*old(self), WalCall::EndWriteTxn, *final(self), WalReply::Status(r)),
    ;

    /// Takes back the write transaction.
    fn undo(
        &mut self,
        handler: Option<&mut <Self::Types as WalTypes>::UndoHandler>,
    ) -> (r: Result<(), WalError>)
        ensures
            Self::step(
                *old(self),
                WalCall::Undo { handler: at_call(handler) },
                *final(self),
                WalReply::Undone {
                    handler: (match handler {
                        Some(h) => Some(*final(h)),
                        None => None,
                    }),
                    result: r,
                },
            ),
    ;

    /// Takes a savepoint: writes what is needed to go back to it.
    fn savepoint(&mut self, shared: &mut Self::Shared, rollback_data: &mut [u32])
        ensures
            Self::mark(
                *old(self),
                *old(shared),
                WalCall::Savepoint { rollback_data: old(rollback_data)@ },
                *final(self),
                *final(shared),
                WalReply::Marked { rollback_data: final(rollback_data)@, result: Ok(()) },
            ),
    ;

    /// Goes back to a savepoint.
    fn savepoint_undo(&mut self, shared: &mut Self::Shared, rollback_data: &mut [u32]) -> (r: Result<
        (),
        WalError,
    >)
        ensures
            Self::mark(
                *old(self),
                *old(shared),
                WalCall::SavepointUndo { rollback_data: old(rollback_data)@ },
                *final(self),
                *final(shared),
                WalReply::Marked { rollback_data: final(rollback_data)@, result: r },
            ),
    ;

    /// Drops a savepoint.
    fn savepoint_forget(&mut self, shared: &mut Self::Shared, rollback_data: &mut [u32])
        ensures
            Self::mark(
                *old(self),
                *old(shared),
                WalCall::SavepointForget { rollback_data: old(rollback_data)@ },
                *final(self),
                *final(shared),
                WalReply::Marked { rollback_data: final(rollback_data)@, result: Ok(()) },
            ),
    ;

    /// Appends pages to the log.
    fn insert_frames(
        &mut self,
        page_size: i32,
        page_headers: &mut <Self::Types as WalTypes>::PageHeaders,
        size_after: u32,
        is_commit: bool,
        sync_flags: i32,
    ) -> (r: Result<usize, WalError>)
        ensures
            Self::step(
                *old(self),
                WalCall::InsertFrames {
                    page_size,
                    page_headers: *old(page_headers),
                    size_after,
                    is_commit,
                    sync_flags,
                },
                *final(self),
                WalReply::Inserted { page_headers: *final(page_headers), inserted: r },
            ),
    ;

    /// Moves the frames of the log to the database file.
    fn checkpoint(
        &mut self,
        db: &mut <Self::Types as WalTypes>::Db,
        mode: <Self::Types as WalTypes>::CheckpointMode,
        busy_handler: Option<&mut <Self::Types as WalTypes>::BusyHandler>,
        sync_flags: u32,
        buf: &mut [u8],
        cb: Option<&mut <Self::Types as WalTypes>::CheckpointCallback>,
        in_wal: Option<&mut i32>,
        backfilled: Option<&mut i32>,
    ) -> (r: Result<(), WalError>)
        ensures
            Self::step(
                *old(self),
                WalCall::Checkpoint {
                    db: *old(db),
                    mode,
                    busy_handler: at_call(busy_handler),
                    sync_flags,
                    buf: old(buf)@,
                    cb: at_call(cb),
                    in_wal: at_call(in_wal),
                    backfilled: at_call(backfilled),
                },
                *final(self),
                WalReply::Checkpointed {
                    db: *final(db),
                    busy_handler: (match busy_handler {
                        Some(h) => Some(*final(h)),
                        None => None,
                    }),
                    buf: final(buf)@,
                    cb: (match cb {
                        Some(c) => Some(*final(c)),
                        None => None,
                    }),
                    in_wal: (match in_wal {
                        Some(n) => Some(*final(n)),
                        None => None,
                    }),
                    backfilled: (match backfilled {
                        Some(n) => Some(*final(n)),
                        None => None,
                    }),
                    result: r,
                },
            ),
    ;

    /// Switches the exclusive locking mode.
    fn exclusive_mode(&mut self, op: i32) -> (r: Result<(), WalError>)
        ensures
            Self::step(*old(self), WalCall::ExclusiveMode { op }, *final(self), WalReply::Status(r)),
    ;

    /// Whether the index of the log is on the heap.
    fn uses_heap_memory(&self) -> (r: bool)
        ensures
            Self::step(*self, WalCall::UsesHeapMemory, *self, WalReply::Flag(r)),
    ;

    /// Attaches a database handle.
    fn set_db(&mut self, db: &mut <Self::Types as WalTypes>::Db)
        ensures
            Self::step(
                *old(self),
                WalCall::SetDb { db: *old(db) },
                *final(self),
                WalReply::Attached { db: *final(db) },
            ),
    ;

    /// What the log tells the engine after a commit.
    fn callback(&self) -> (r: i32)
        ensures
            Self::step(*self, WalCall::Callback, *self, WalReply::Code(r)),
    ;

    /// The number of frames in the log file.
    fn frames_in_wal(&self) -> (r: u32)
        ensures
            Self::step(*self, WalCall::FramesInWal, *self, WalReply::Count(r)),
    ;
}

/// The value behind an optional mutable argument when the call begins.
pub open spec fn at_call<A>(arg: Option<&mut A>) -> Option<A> {
    match arg {
        Some(a) => Some(*a),
        None => None,
    }
}

/// The savepoint event that a call is, if it is one.
pub open spec fn event_of<T: WalTypes>(call: WalCall<T>) -> Option<SavepointEvent> {
    match call {
        WalCall::Savepoint { .. } => Some(SavepointEvent::Savepoint),
        WalCall::SavepointUndo { .. } => Some(SavepointEvent::Undo),
        WalCall::SavepointForget { .. } => Some(SavepointEvent::Forget),
        _ => None,
    }
}

/// What wrapped logs share: the records, and what the logs that they wrap share.
pub struct Recording<S> {
    /// The records that the wrapped logs write to.
    pub records: Records,
    /// What the inner logs share.
    pub inner: S,
}

/// A log that hands every call on to another log, and records the savepoint events.
pub struct WrapWal<W> {
    /// The log that does the work.
    pub inner: W,
    /// Where the events go. Other logs, and users, may hold copies of it.
    pub recorder: SavepointRecorder,
}

impl<W: Wal> Wal for WrapWal<W> {
    type Types = W::Types;

    type Shared = Recording<W::Shared>;

    /// The inner log makes the same step, and the recorder stays the same.
    open spec fn step(
        pre: Self,
        call: WalCall<W::Types>,
        post: Self,
        reply: WalReply<W::Types>,
    ) -> bool {
        &&& W::step(pre.inner, call, post.inner, reply)
        &&& post.recorder == pre.recorder
    }

    /// The inner log makes the same step on what the inner logs share, and the record grows by the
    /// event that the call is.
    open spec fn mark(
        pre: Self,
        before: Recording<W::Shared>,
        call: WalCall<W::Types>,
        post: Self,
        after: Recording<W::Shared>,
        reply: WalReply<W::Types>,
    ) -> bool {
        &&& W::mark(pre.inner, before.inner, call, post.inner, after.inner, reply)
        &&& post.recorder == pre.recorder
        &&& event_of(call) matches Some(event) && after.records@ == with_event(
            before.records@,
            pre.recorder.slot(),
            event,
        )
    }

    fn limit(&mut self, size: i64)
        ensures
            W::step(old(self).inner, WalCall::Limit { size }, final(self).inner, WalReply::Done),
    {
        self.inner.limit(size)
    }

    fn begin_read_txn(&mut self) -> (r: Result<bool, WalError>)
        ensures
            W::step(old(self).inner, WalCall::BeginReadTxn, final(self).inner, WalReply::FlagOr(r)),
    {
        self.inner.begin_read_txn()
    }

    fn end_read_txn(&mut self)
        ensures
            W::step(old(self).inner, WalCall::EndReadTxn, final(self).inner, WalReply::Done),
    {
        self.inner.end_read_txn()
    }

    fn find_frame(&mut self, page_no: OneBased) -> (r: Result<Option<OneBased>, WalError>)
        ensures
            W::step(
                old(self).inner,
                WalCall::FindFrame { page_no },
                final(self).inner,
                WalReply::FrameOr(r),
            ),
    {
        self.inner.find_frame(page_no)
    }

    fn read_frame(&mut self, frame_no: OneBased, buffer: &mut [u8]) -> (r: Result<(), WalError>)
        ensures
            W::step(
                old(self).inner,
                WalCall::ReadFrame { frame_no, buffer: old(buffer)@ },
                final(self).inner,
                WalReply::Filled { buffer: final(buffer)@, result: r },
            ),
    {
        self.inner.read_frame(frame_no, buffer)
    }

    fn read_frame_raw(&mut self, page_no: OneBased, buffer: &mut [u8]) -> (r: Result<
        (),
        WalError,
    >)
        ensures
            W::step(
                old(self).inner,
                WalCall::ReadFrameRaw { page_no, buffer: old(buffer)@ },
                final(self).inner,
                WalReply::Filled { buffer: final(buffer)@, result: r },
            ),
    {
        self.inner.read_frame_raw(page_no, buffer)
    }

    fn frame_count(&self, locked: i32) -> (r: Result<u32, WalError>)
        ensures
            W::step(self.inner, WalCall::FrameCount { locked }, self.inner, WalReply::CountOr(r)),
    {
        self.inner.frame_count(locked)
    }

    fn db_size(&self) -> (r: u32)
        ensures
            W::step(self.inner, WalCall::DbSize, self.inner, WalReply::Count(r)),
    {
        self.inner.db_size()
    }

    fn begin_write_txn(&mut self) -> (r: Result<(), WalError>)
        ensures
            W::step(old(self).inner, WalCall::BeginWriteTxn, final(self).inner, WalReply::Status(r)),
    {
        self.inner.begin_write_txn()
    }

    fn end_write_txn(&mut self) -> (r: Result<(), WalError>)
        ensures
            W::step(old(self).inner, WalCall::EndWriteTxn, final(self).inner, WalReply::Status(r)),
    {
        self.inner.end_write_txn()
    }

    fn undo(&mut self, handler: Option<&mut <W::Types as WalTypes>::UndoHandler>) -> (r: Result<
        (),
        WalError,
    >)
        ensures
            W::step(
                old(self).inner,
                WalCall::Undo { handler: (match handler {
                        Some(a) => Some(*a),
                        None => None,
                    }) },
                final(self).inner,
                WalReply::Undone {
                    handler: (match handler {
                        Some(h) => Some(*final(h)),
                        None => None,
                    }),
                    result: r,
                },
            ),
    {
        self.inner.undo(handler)
    }

    fn savepoint(&mut self, shared: &mut Recording<W::Shared>, rollback_data: &mut [u32])
        ensures
            W::mark(
                old(self).inner,
                old(shared).inner,
                WalCall::Savepoint { rollback_data: old(rollback_data)@ },
                final(self).inner,
                final(shared).inner,
                WalReply::Marked { rollback_data: final(rollback_data)@, result: Ok(()) },
            ),
    {
        self.recorder.record(&mut shared.records, SavepointEvent::Savepoint);
        self.inner.savepoint(&mut shared.inner, rollback_data)
    }

    fn savepoint_undo(
        &mut self,
        shared: &mut Recording<W::Shared>,
        rollback_data: &mut [u32],
    ) -> (r: Result<(), WalError>)
        ensures
            W::mark(
                old(self).inner,
                old(shared).inner,
                WalCall::SavepointUndo { rollback_data: old(rollback_data)@ },
                final(self).inner,
                final(shared).inner,
                WalReply::Marked { rollback_data: final(rollback_data)@, result: r },
            ),
    {
        self.recorder.record(&mut shared.records, SavepointEvent::Undo);
        self.inner.savepoint_undo(&mut shared.inner, rollback_data)
    }

    fn savepoint_forget(&mut self, shared: &mut Recording<W::Shared>, rollback_data: &mut [u32])
        ensures
            W::mark(
                old(self).inner,
                old(shared).inner,
                WalCall::SavepointForget { rollback_data: old(rollback_data)@ },
                final(self).inner,
                final(shared).inner,
                WalReply::Marked { rollback_data: final(rollback_data)@, result: Ok(()) },
            ),
    {
        self.recorder.record(&mut shared.records, SavepointEvent::Forget);
        self.inner.savepoint_forget(&mut shared.inner, rollback_data)
    }

    fn insert_frames(
        &mut self,
        page_size: i32,
        page_headers: &mut <W::Types as WalTypes>::PageHeaders,
        size_after: u32,
        is_commit: bool,
        sync_flags: i32,
    ) -> (r: Result<usize, WalError>)
        ensures
            W::step(
                old(self).inner,
                WalCall::InsertFrames {
                    page_size,
                    page_headers: *old(page_headers),
                    size_after,
                    is_commit,
                    sync_flags,
                },
                final(self).inner,
                WalReply::Inserted { page_headers: *final(page_headers), inserted: r },
            ),
    {
        self.inner.insert_frames(page_size, page_headers, size_after, is_commit, sync_flags)
    }

    fn checkpoint(
        &mut self,
        db: &mut <W::Types as WalTypes>::Db,
        mode: <W::Types as WalTypes>::CheckpointMode,
        busy_handler: Option<&mut <W::Types as WalTypes>::BusyHandler>,
        sync_flags: u32,
        buf: &mut [u8],
        cb: Option<&mut <W::Types as WalTypes>::CheckpointCallback>,
        in_wal: Option<&mut i32>,
        backfilled: Option<&mut i32>,
    ) -> (r: Result<(), WalError>)
        ensures
            W::step(
                old(self).inner,
                WalCall::Checkpoint {
                    db: *old(db),
                    mode,
                    busy_handler: (match busy_handler {
                        Some(a) => Some(*a),
                        None => None,
                    }),
                    sync_flags,
                    buf: old(buf)@,
                    cb: (match cb {
                        Some(a) => Some(*a),
                        None => None,
                    }),
                    in_wal: (match in_wal {
                        Some(a) => Some(*a),
                        None => None,
                    }),
                    backfilled: (match backfilled {
                        Some(a) => Some(*a),
                        None => None,
                    }),
                },
                final(self).inner,
                WalReply::Checkpointed {
                    db: *final(db),
                    busy_handler: (match busy_handler {
                        Some(h) => Some(*final(h)),
                        None => None,
                    }),
                    buf: final(buf)@,
                    cb: (match cb {
                        Some(c) => Some(*final(c)),
                        None => None,
                    }),
                    in_wal: (match in_wal {
                        Some(n) => Some(*final(n)),
                        None => None,
                    }),
                    backfilled: (match backfilled {
                        Some(n) => Some(*final(n)),
                        None => None,
                    }),
                    result: r,
                },
            ),
    {
        self.inner.checkpoint(db, mode, busy_handler, sync_flags, buf, cb, in_wal, backfilled)
    }

    fn exclusive_mode(&mut self, op: i32) -> (r: Result<(), WalError>)
        ensures
            W::step(old(self).inner, WalCall::ExclusiveMode { op }, final(self).inner, WalReply::Status(r)),
    {
        self.inner.exclusive_mode(op)
    }

    fn uses_heap_memory(&self) -> (r: bool)
        ensures
            W::step(self.inner, WalCall::UsesHeapMemory, self.inner, WalReply::Flag(r)),
    {
        self.inner.uses_heap_memory()
    }

    fn set_db(&mut self, db: &mut <W::Types as WalTypes>::Db)
        ensures
            W::step(
                old(self).inner,
                WalCall::SetDb { db: *old(db) },
                final(self).inner,
                WalReply::Attached { db: *final(db) },
            ),
    {
        self.inner.set_db(db)
    }

    fn callback(&self) -> (r: i32)
        ensures
            W::step(self.inner, WalCall::Callback, self.inner, WalReply::Code(r)),
    {
        self.inner.callback()
    }

    fn frames_in_wal(&self) -> (r: u32)
        ensures
            W::step(self.inner, WalCall::FramesInWal, self.inner, WalReply::Count(r)),
    {
        self.inner.frames_in_wal()
    }
}

/// Whether a log may go from `pre` to `post`, and what is shared from `before` to `after`, by
/// `call` with `reply`. Only savepoint operations touch what is shared.
pub open spec fn moves<W: Wal>(
    pre: W,
    before: W::Shared,
    call: WalCall<W::Types>,
    post: W,
    after: W::Shared,
    reply: WalReply<W::Types>,
) -> bool {
    if event_of(call) is Some {
        W::mark(pre, before, call, post, after, reply)
    } else {
        W::step(pre, call, post, reply) && after == before
    }
}

/// Wrapping is transparent: whatever move a wrapped log makes, the inner log makes it by the same
/// call and with the same reply.
pub proof fn law_wrapping_is_transparent<W: Wal>(
    pre: WrapWal<W>,
    before: Recording<W::Shared>,
    call: WalCall<W::Types>,
    post: WrapWal<W>,
    after: Recording<W::Shared>,
    reply: WalReply<W::Types>,
)
    requires
        moves(pre, before, call, post, after, reply),
    ensures
        moves::<W>(pre.inner, before.inner, call, post.inner, after.inner, reply),
{
}

/// A call of a method of [`WalManager`], as [`WalCall`] is one of [`Wal`].
#[verifier::reject_recursive_types(T)]
#[verifier::reject_recursive_types(W)]
pub enum ManagerCall<T: WalTypes, W> {
    /// `use_shared_memory`
    UseSharedMemory,
    /// `open`
    Open { vfs: T::Vfs, file: T::File, no_shm_mode: i32, max_log_size: i64, db_path: Seq<u8> },
    /// `close`
    Close { wal: W, db: T::Db, sync_flags: i32, scratch: Option<Seq<u8>> },
    /// `destroy_log`
    DestroyLog { vfs: T::Vfs, db_path: Seq<u8> },
    /// `log_exists`
    LogExists { vfs: T::Vfs, db_path: Seq<u8> },
    /// `destroy`
    Destroy,
}

/// What comes out of a call of a method of [`WalManager`].
#[verifier::reject_recursive_types(T)]
#[verifier::reject_recursive_types(W)]
pub enum ManagerReply<T: WalTypes, W> {
    /// The call returns nothing.
    Done,
    /// The call returns whether something holds.
    Flag(bool),
    /// A log was opened, or could not be.
    Opened { vfs: T::Vfs, file: T::File, opened: Result<W, WalError> },
    /// A log was closed.
    Closed { wal: W, db: T::Db, scratch: Option<Seq<u8>>, result: Result<(), WalError> },
    /// The log file was destroyed.
    Destroyed { vfs: T::Vfs, result: Result<(), WalError> },
    /// The log file was looked for.
    Looked { vfs: T::Vfs, found: Result<bool, WalError> },
}

/// Opens and closes the logs of a storage engine.
///
/// A manager says by [`WalManager::replies`] what it may reply to a call. The methods promise no
/// more than that their result is such a reply.
pub trait WalManager: Sized {
    /// The logs that the manager opens.
    type Wal: Wal;

    /// Whether the manager may reply to `call` with `reply`. A manager that does not say rules
    /// nothing out.
    open spec fn replies(
        &self,
        call: ManagerCall<<Self::Wal as Wal>::Types, Self::Wal>,
        reply: ManagerReply<<Self::Wal as Wal>::Types, Self::Wal>,
    ) -> bool {
        true
    }

    /// Whether the logs share memory between processes.
    fn use_shared_memory(&self) -> (r: bool)
        ensures
            self.replies(ManagerCall::UseSharedMemory, ManagerReply::Flag(r)),
    ;

    /// Opens the log of a database.
    fn open(
        &self,
        vfs: &mut <<Self::Wal as Wal>::Types as WalTypes>::Vfs,
        file: &mut <<Self::Wal as Wal>::Types as WalTypes>::File,
        no_shm_mode: i32,
        max_log_size: i64,
        db_path: &[u8],
    ) -> (r: Result<Self::Wal, WalError>)
        ensures
            self.replies(
                ManagerCall::Open {
                    vfs: *old(vfs),
                    file: *old(file),
                    no_shm_mode,
                    max_log_size,
                    db_path: db_path@,
                },
                ManagerReply::Opened { vfs: *final(vfs), file: *final(file), opened: r },
            ),
    ;

    /// Closes a log.
    fn close(
        &self,
        wal: &mut Self::Wal,
        db: &mut <<Self::Wal as Wal>::Types as WalTypes>::Db,
        sync_flags: i32,
        scratch: Option<&mut [u8]>,
    ) -> (r: Result<(), WalError>)
        ensures
            self.replies(
                ManagerCall::Close {
                    wal: *old(wal),
                    db: *old(db),
                    sync_flags,
                    scratch: (match scratch {
                        Some(b) => Some((*b)@),
                        None => None,
                    }),
                },
                ManagerReply::Closed {
                    wal: *final(wal),
                    db: *final(db),
                    scratch: (match scratch {
                        Some(b) => Some((*final(b))@),
                        None => None,
                    }),
                    result: r,
                },
            ),
    ;

    /// Deletes the log file of a database.
    fn destroy_log(
        &self,
        vfs: &mut <<Self::Wal as Wal>::Types as WalTypes>::Vfs,
        db_path: &[u8],
    ) -> (r: Result<(), WalError>)
        ensures
            self.replies(
                ManagerCall::DestroyLog { vfs: *old(vfs), db_path: db_path@ },
                ManagerReply::Destroyed { vfs: *final(vfs), result: r },
            ),
    ;

    /// Whether a database has a log file.
    fn log_exists(
        &self,
        vfs: &mut <<Self::Wal as Wal>::Types as WalTypes>::Vfs,
        db_path: &[u8],
    ) -> (r: Result<bool, WalError>)
        ensures
            self.replies(
                ManagerCall::LogExists { vfs: *old(vfs), db_path: db_path@ },
                ManagerReply::Looked { vfs: *final(vfs), found: r },
            ),
    ;

    /// Gives up the manager.
    fn destroy(self)
        ensures
            self.replies(ManagerCall::Destroy, ManagerReply::Done),
    ;
}

/// A manager whose logs wrap those of another manager.
pub struct WrapWalManager<M> {
    /// The manager that does the work.
    pub inner: M,
    /// Where the events of all logs that the manager opens go.
    pub recorder: SavepointRecorder,
}

/// `call` as the inner manager sees it.
pub open spec fn inner_call<T: WalTypes, W>(call: ManagerCall<T, WrapWal<W>>) -> ManagerCall<T, W> {
    match call {
        ManagerCall::UseSharedMemory => ManagerCall::UseSharedMemory,
        ManagerCall::Open { vfs, file, no_shm_mode, max_log_size, db_path } => ManagerCall::Open {
            vfs,
            file,
            no_shm_mode,
            max_log_size,
            db_path,
        },
        ManagerCall::Close { wal, db, sync_flags, scratch } => ManagerCall::Close {
            wal: wal.inner,
            db,
            sync_flags,
            scratch,
        },
        ManagerCall::DestroyLog { vfs, db_path } => ManagerCall::DestroyLog { vfs, db_path },
        ManagerCall::LogExists { vfs, db_path } => ManagerCall::LogExists { vfs, db_path },
        ManagerCall::Destroy => ManagerCall::Destroy,
    }
}

/// `reply` as the inner manager gave it.
pub open spec fn inner_reply<T: WalTypes, W>(
    reply: ManagerReply<T, WrapWal<W>>,
) -> ManagerReply<T, W> {
    match reply {
        ManagerReply::Done => ManagerReply::Done,
        ManagerReply::Flag(b) => ManagerReply::Flag(b),
        ManagerReply::Opened { vfs, file, opened } => ManagerReply::Opened {
            vfs,
            file,
            opened: (match opened {
                Ok(wal) => Ok(wal.inner),
                Err(e) => Err(e),
            }),
        },
        ManagerReply::Closed { wal, db, scratch, result } => ManagerReply::Closed {
            wal: wal.inner,
            db,
            scratch,
            result,
        },
        ManagerReply::Destroyed { vfs, result } => ManagerReply::Destroyed { vfs, result },
        ManagerReply::Looked { vfs, found } => ManagerReply::Looked { vfs, found },
    }
}

impl<M: WalManager> WalManager for WrapWalManager<M> {
    type Wal = WrapWal<M::Wal>;

    /// The inner manager gives the same reply. A log that was opened records where the manager
    /// says, and closing a log leaves it that way.
    open spec fn replies(
        &self,
        call: ManagerCall<<M::Wal as Wal>::Types, WrapWal<M::Wal>>,
        reply: ManagerReply<<M::Wal as Wal>::Types, WrapWal<M::Wal>>,
    ) -> bool {
        &&& self.inner.replies(inner_call(call), inner_reply(reply))
        &&& reply matches ManagerReply::Opened { opened: Ok(wal), .. } ==> wal.recorder
            == self.recorder
        &&& call matches ManagerCall::Close { wal: open_wal, .. } ==> (reply matches
            ManagerReply::Closed { wal: closed_wal, .. } && closed_wal.recorder
            == open_wal.recorder)
    }

    fn use_shared_memory(&self) -> (r: bool)
        ensures
            self.inner.replies(ManagerCall::UseSharedMemory, ManagerReply::Flag(r)),
    {
        self.inner.use_shared_memory()
    }

    fn open(
        &self,
        vfs: &mut <<M::Wal as Wal>::Types as WalTypes>::Vfs,
        file: &mut <<M::Wal as Wal>::Types as WalTypes>::File,
        no_shm_mode: i32,
        max_log_size: i64,
        db_path: &[u8],
    ) -> (r: Result<WrapWal<M::Wal>, WalError>)
        ensures
            self.inner.replies(
                ManagerCall::Open {
                    vfs: *old(vfs),
                    file: *old(file),
                    no_shm_mode,
                    max_log_size,
                    db_path: db_path@,
                },
                ManagerReply::Opened {
                    vfs: *final(vfs),
                    file: *final(file),
                    opened: (match r {
                        Ok(wal) => Ok(wal.inner),
                        Err(e) => Err(e),
                    }),
                },
            ),
    {
        match self.inner.open(vfs, file, no_shm_mode, max_log_size, db_path) {
            Ok(inner) => Ok(WrapWal { inner, recorder: self.recorder }),
            Err(e) => Err(e),
        }
    }

    fn close(
        &self,
        wal: &mut WrapWal<M::Wal>,
        db: &mut <<M::Wal as Wal>::Types as WalTypes>::Db,
        sync_flags: i32,
        scratch: Option<&mut [u8]>,
    ) -> (r: Result<(), WalError>)
        ensures
            self.inner.replies(
                ManagerCall::Close {
                    wal: old(wal).inner,
                    db: *old(db),
                    sync_flags,
                    scratch: (match scratch {
                        Some(b) => Some((*b)@),
                        None => None,
                    }),
                },
                ManagerReply::Closed {
                    wal: final(wal).inner,
                    db: *final(db),
                    scratch: (match scratch {
                        Some(b) => Some((*final(b))@),
                        None => None,
                    }),
                    result: r,
                },
            ),
    {
        self.inner.close(&mut wal.inner, db, sync_flags, scratch)
    }

    fn destroy_log(
        &self,
        vfs: &mut <<M::Wal as Wal>::Types as WalTypes>::Vfs,
        db_path: &[u8],
    ) -> (r: Result<(), WalError>)
        ensures
            self.inner.replies(
                ManagerCall::DestroyLog { vfs: *old(vfs), db_path: db_path@ },
                ManagerReply::Destroyed { vfs: *final(vfs), result: r },
            ),
    {
        self.inner.destroy_log(vfs, db_path)
    }

    fn log_exists(
        &self,
        vfs: &mut <<M::Wal as Wal>::Types as WalTypes>::Vfs,
        db_path: &[u8],
    ) -> (r: Result<bool, WalError>)
        ensures
            self.inner.replies(
                ManagerCall::LogExists { vfs: *old(vfs), db_path: db_path@ },
                ManagerReply::Looked { vfs: *final(vfs), found: r },
            ),
    {
        self.inner.log_exists(vfs, db_path)
    }

    fn destroy(self)
        ensures
            self.inner.replies(ManagerCall::Destroy, ManagerReply::Done),
    {
        self.inner.destroy()
    }
}

/// The logs that a manager has opened so far, and what they share.
#[verifier::reject_recursive_types(W)]
pub struct Session<W: Wal> {
    /// The logs, in the order in which they were opened.
    pub logs: Seq<WrapWal<W>>,
    /// What they share.
    pub shared: Recording<W::Shared>,
}

/// Something that happens among the logs of a manager.
#[verifier::reject_recursive_types(W)]
pub enum SessionEvent<W: Wal> {
    /// The manager is asked to open a log, and replies.
    Open {
        request: ManagerCall<W::Types, WrapWal<W>>,
        answer: ManagerReply<W::Types, WrapWal<W>>,
    },
    /// The manager is asked to close the log with the number `log`, and replies.
    Close {
        log: int,
        request: ManagerCall<W::Types, WrapWal<W>>,
        answer: ManagerReply<W::Types, WrapWal<W>>,
    },
    /// The log with the number `log` is called, and replies.
    Call { log: int, call: WalCall<W::Types>, reply: WalReply<W::Types> },
}

/// Whether `event` may take the logs of `manager` from `pre` to `post`.
pub open spec fn session_step<M: WalManager>(
    manager: WrapWalManager<M>,
    pre: Session<M::Wal>,
    event: SessionEvent<M::Wal>,
    post: Session<M::Wal>,
) -> bool {
    match event {
        SessionEvent::Open { request, answer } => {
            &&& request is Open
            &&& manager.replies(request, answer)
            &&& answer matches ManagerReply::Opened { opened, .. } && post.logs == (match opened {
                Ok(wal) => pre.logs.push(wal),
                Err(_) => pre.logs,
            })
            &&& post.shared == pre.shared
        },
        SessionEvent::Close { log, request, answer } => {
            &&& 0 <= log < pre.logs.len()
            &&& request matches ManagerCall::Close { wal, .. } && wal == pre.logs[log]
            &&& manager.replies(request, answer)
            &&& answer matches ManagerReply::Closed { wal, .. } && post.logs == pre.logs.update(
                log,
                wal,
            )
            &&& post.shared == pre.shared
        },
        SessionEvent::Call { log, call, reply } => {
            &&& 0 <= log < pre.logs.len()
            &&& post.logs == pre.logs.update(log, post.logs[log])
            &&& moves(pre.logs[log], pre.shared, call, post.logs[log], post.shared, reply)
        },
    }
}

/// Whether the logs of `manager` went through `states` by `events`.
pub open spec fn is_session<M: WalManager>(
    manager: WrapWalManager<M>,
    states: Seq<Session<M::Wal>>,
    events: Seq<SessionEvent<M::Wal>>,
) -> bool {
    &&& states.len() == events.len() + 1
    &&& forall|i: int|
        #![trigger events[i]]
        0 <= i < events.len() ==> session_step(manager, states[i], events[i], states[i + 1])
}

/// The savepoint events among the calls of all logs, in the order of the calls.
pub open spec fn savepoint_events<W: Wal>(events: Seq<SessionEvent<W>>) -> Seq<SavepointEvent>
    decreases events.len(),
{
    if events.len() == 0 {
        Seq::empty()
    } else {
        let earlier = savepoint_events(events.drop_last());
        match events.last() {
            SessionEvent::Call { call, .. } => match event_of(call) {
                Some(event) => earlier.push(event),
                None => earlier,
            },
            _ => earlier,
        }
    }
}

/// Whether all logs record where `recorder` does.
pub open spec fn all_record_at<W: Wal>(session: Session<W>, recorder: SavepointRecorder) -> bool {
    forall|i: int|
        0 <= i < session.logs.len() ==> (#[trigger] session.logs[i]).recorder == recorder
}

/// All logs that one manager opens share one record: whatever the manager opens and closes, and
/// however its logs are called, the record that is read through the recorder of the manager, or
/// through any copy of it, grows by all savepoint events of all these logs, in the order of the
/// calls. No other record changes.
pub proof fn law_logs_share_the_record<M: WalManager>(
    manager: WrapWalManager<M>,
    states: Seq<Session<M::Wal>>,
    events: Seq<SessionEvent<M::Wal>>,
)
    requires
        is_session(manager, states, events),
        all_record_at(states[0], manager.recorder),
        manager.recorder.slot() < states[0].shared.records@.len(),
    ensures
        all_record_at(states.last(), manager.recorder),
        ({
            let slot = manager.recorder.slot() as int;
            let before = states[0].shared.records@;
            states.last().shared.records@ == before.update(
                slot,
                before[slot] + savepoint_events(events),
            )
        }),
    decreases events.len(),
{
    let slot = manager.recorder.slot() as int;
    let before = states[0].shared.records@;
    if events.len() == 0 {
        assert(before[slot] + savepoint_events(events) =~= before[slot]);
        assert(before.update(slot, before[slot]) =~= before);
    } else {
        let n = events.len() - 1;
        assert forall|i: int| #![trigger events.drop_last()[i]] 0 <= i < n implies session_step(
            manager,
            states.drop_last()[i],
            events.drop_last()[i],
            states.drop_last()[i + 1],
        ) by {
            assert(events[i] == events.drop_last()[i]);
        }
        law_logs_share_the_record(manager, states.drop_last(), events.drop_last());
        assert(session_step(manager, states[n], events[n], states[n + 1]));
        let earlier = savepoint_events(events.drop_last());
        let pre = states[n];
        let post = states[n + 1];
        match events[n] {
            SessionEvent::Open { .. } => {},
            SessionEvent::Close { log, .. } => {
                assert(pre.logs[log].recorder == manager.recorder);
            },
            SessionEvent::Call { log, call, .. } => {
                assert(pre.logs[log].recorder == manager.recorder);
                if event_of(call) is Some {
                    assert((before[slot] + earlier).push(event_of(call)->0) =~= before[slot]
                        + savepoint_events(events));
                    assert(post.shared.records@ =~= before.update(
                        slot,
                        before[slot] + savepoint_events(events),
                    ));
                }
            },
        }
    }
}

/// A wrapped log hands every call on as it is: whatever step it takes by a call, the inner log
/// takes by the same call, with the same reply; and it goes on recording where it did.
pub proof fn law_every_call_is_handed_on<W: Wal>(
    pre: WrapWal<W>,
    call: WalCall<W::Types>,
    post: WrapWal<W>,
    reply: WalReply<W::Types>,
)
    requires
        <WrapWal<W> as Wal>::step(pre, call, post, reply),
    ensures
        W::step(pre.inner, call, post.inner, reply),
        post.recorder == pre.recorder,
{
}

/// A savepoint operation of a wrapped log is handed on as it is, and recorded for what it is: at
/// the end of the record of the log, as taking, going back to, or dropping a savepoint. Other
/// records do not change.
pub proof fn law_savepoint_calls_are_handed_on_and_recorded<W: Wal>(
    pre: WrapWal<W>,
    before: Recording<W::Shared>,
    call: WalCall<W::Types>,
    post: WrapWal<W>,
    after: Recording<W::Shared>,
    reply: WalReply<W::Types>,
)
    requires
        <WrapWal<W> as Wal>::mark(pre, before, call, post, after, reply),
        pre.recorder.slot() < before.records@.len(),
    ensures
        W::mark(pre.inner, before.inner, call, post.inner, after.inner, reply),
        post.recorder == pre.recorder,
        after.records@.len() == before.records@.len(),
        forall|s: int|
            0 <= s < before.records@.len() && s != pre.recorder.slot() ==> #[trigger]
                after.records@[s] == before.records@[s],
        ({
            let old_record = before.records@[pre.recorder.slot() as int];
            let new_record = after.records@[pre.recorder.slot() as int];
            match call {
                WalCall::Savepoint { .. } => new_record == old_record.push(
                    SavepointEvent::Savepoint,
                ),
                WalCall::SavepointUndo { .. } => new_record == old_record.push(
                    SavepointEvent::Undo,
                ),
                WalCall::SavepointForget { .. } => new_record == old_record.push(
                    SavepointEvent::Forget,
                ),
                _ => false,
            }
        }),
{
}

/// Wrapping a manager is transparent, as it is for logs: whatever the wrapping manager replies to a
/// call, the inner manager replies to the call with the very same arguments; where a log is
/// among them, with the log inside. What comes back is the same, and a log that is opened is
/// the one that the inner manager opened, and records where the manager does.
pub proof fn law_wrapping_a_manager_is_transparent<M: WalManager>(
    manager: WrapWalManager<M>,
    call: ManagerCall<<M::Wal as Wal>::Types, WrapWal<M::Wal>>,
    reply: ManagerReply<<M::Wal as Wal>::Types, WrapWal<M::Wal>>,
)
    requires
        manager.replies(call, reply),
    ensures
        call is UseSharedMemory ==> (reply matches ManagerReply::Flag(shared)
            ==> manager.inner.replies(ManagerCall::UseSharedMemory, ManagerReply::Flag(shared))),
        call matches ManagerCall::Open { vfs, file, no_shm_mode, max_log_size, db_path } ==> (
        reply matches ManagerReply::Opened { vfs: vfs_then, file: file_then, opened } ==> {
            match opened {
                Ok(wal) => {
                    &&& wal.recorder == manager.recorder
                    &&& manager.inner.replies(
                        ManagerCall::Open { vfs, file, no_shm_mode, max_log_size, db_path },
                        ManagerReply::Opened {
                            vfs: vfs_then,
                            file: file_then,
                            opened: Ok(wal.inner),
                        },
                    )
                },
                Err(e) => manager.inner.replies(
                    ManagerCall::Open { vfs, file, no_shm_mode, max_log_size, db_path },
                    ManagerReply::Opened { vfs: vfs_then, file: file_then, opened: Err(e) },
                ),
            }
        }),
        call matches ManagerCall::Close { wal, db, sync_flags, scratch } ==> (
        reply matches ManagerReply::Closed {
            wal: wal_then,
            db: db_then,
            scratch: scratch_then,
            result,
        } && {
            &&& wal_then.recorder == wal.recorder
            &&& manager.inner.replies(
                ManagerCall::Close { wal: wal.inner, db, sync_flags, scratch },
                ManagerReply::Closed {
                    wal: wal_then.inner,
                    db: db_then,
                    scratch: scratch_then,
                    result,
                },
            )
        }),
        call matches ManagerCall::DestroyLog { vfs, db_path } ==> (
        reply matches ManagerReply::Destroyed { vfs: vfs_then, result }
            ==> manager.inner.replies(
            ManagerCall::DestroyLog { vfs, db_path },
            ManagerReply::Destroyed { vfs: vfs_then, result },
        )),
        call matches ManagerCall::LogExists { vfs, db_path } ==> (
        reply matches ManagerReply::Looked { vfs: vfs_then, found } ==> manager.inner.replies(
            ManagerCall::LogExists { vfs, db_path },
            ManagerReply::Looked { vfs: vfs_then, found },
        )),
        call is Destroy ==> (reply is Done ==> manager.inner.replies(
            ManagerCall::Destroy,
            ManagerReply::Done,
        )),
{
}

} // verus!
