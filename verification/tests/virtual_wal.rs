use bottomless_harness::savepoint::{Records, SavepointEvent, SavepointRecorder};
use bottomless_harness::wal::{
    OneBased, Recording, Wal, WalError, WalManager, WalTypes, WrapWal, WrapWalManager,
};

/// The types of the engine below, which has no file system.
struct MemoryTypes;

impl WalTypes for MemoryTypes {
    type Vfs = ();
    type File = ();
    type Db = ();
    type PageHeaders = Vec<(u32, Vec<u8>)>;
    type UndoHandler = Vec<u32>;
    type BusyHandler = ();
    type CheckpointCallback = ();
    type CheckpointMode = ();
}

/// A log in memory: the pages that were written, newest last.
#[derive(Default)]
struct MemoryWal {
    frames: Vec<(u32, Vec<u8>)>,
    committed: usize,
    limit: i64,
}

impl Wal for MemoryWal {
    type Types = MemoryTypes;
    type Shared = ();

    fn limit(&mut self, size: i64) {
        self.limit = size;
    }

    fn begin_read_txn(&mut self) -> Result<bool, WalError> {
        Ok(true)
    }

    fn end_read_txn(&mut self) {}

    fn find_frame(&mut self, page_no: OneBased) -> Result<Option<OneBased>, WalError> {
        let found = self.frames.iter().rposition(|f| f.0 == page_no.get());
        Ok(found.and_then(|i| OneBased::new(i as u32 + 1)))
    }

    fn read_frame(&mut self, frame_no: OneBased, buffer: &mut [u8]) -> Result<(), WalError> {
        match self.frames.get(frame_no.get() as usize - 1) {
            Some((_, data)) => {
                buffer.copy_from_slice(&data[..buffer.len()]);
                Ok(())
            }
            None => Err(WalError { code: 10 }),
        }
    }

    fn read_frame_raw(&mut self, page_no: OneBased, buffer: &mut [u8]) -> Result<(), WalError> {
        self.read_frame(page_no, buffer)
    }

    fn frame_count(&self, _locked: i32) -> Result<u32, WalError> {
        Ok(self.frames.len() as u32)
    }

    fn db_size(&self) -> u32 {
        self.frames.iter().map(|f| f.0).max().unwrap_or(0)
    }

    fn begin_write_txn(&mut self) -> Result<(), WalError> {
        Ok(())
    }

    fn end_write_txn(&mut self) -> Result<(), WalError> {
        self.frames.truncate(self.committed);
        Ok(())
    }

    fn undo(&mut self, handler: Option<&mut Vec<u32>>) -> Result<(), WalError> {
        let undone = self.frames.split_off(self.committed);
        if let Some(pages) = handler {
            pages.extend(undone.iter().map(|f| f.0));
        }
        Ok(())
    }

    fn savepoint(&mut self, _shared: &mut (), rollback_data: &mut [u32]) {
        rollback_data[0] = self.frames.len() as u32;
    }

    fn savepoint_undo(
        &mut self,
        _shared: &mut (),
        rollback_data: &mut [u32],
    ) -> Result<(), WalError> {
        self.frames.truncate(rollback_data[0] as usize);
        Ok(())
    }

    fn savepoint_forget(&mut self, _shared: &mut (), rollback_data: &mut [u32]) {
        rollback_data[0] = 0;
    }

    fn insert_frames(
        &mut self,
        _page_size: i32,
        page_headers: &mut Vec<(u32, Vec<u8>)>,
        _size_after: u32,
        is_commit: bool,
        _sync_flags: i32,
    ) -> Result<usize, WalError> {
        let inserted = page_headers.len();
        self.frames.append(page_headers);
        if is_commit {
            self.committed = self.frames.len();
        }
        Ok(inserted)
    }

    fn checkpoint(
        &mut self,
        _db: &mut (),
        _mode: (),
        _busy_handler: Option<&mut ()>,
        _sync_flags: u32,
        _buf: &mut [u8],
        _cb: Option<&mut ()>,
        in_wal: Option<&mut i32>,
        backfilled: Option<&mut i32>,
    ) -> Result<(), WalError> {
        if let Some(n) = in_wal {
            *n = self.frames.len() as i32;
        }
        if let Some(n) = backfilled {
            *n = self.committed as i32;
        }
        Ok(())
    }

    fn exclusive_mode(&mut self, op: i32) -> Result<(), WalError> {
        if op < 0 {
            Err(WalError { code: 21 })
        } else {
            Ok(())
        }
    }

    fn uses_heap_memory(&self) -> bool {
        true
    }

    fn set_db(&mut self, _db: &mut ()) {}

    fn callback(&self) -> i32 {
        self.committed as i32
    }

    fn frames_in_wal(&self) -> u32 {
        self.frames.len() as u32
    }
}

struct MemoryWalManager {
    broken: bool,
}

impl WalManager for MemoryWalManager {
    type Wal = MemoryWal;

    fn use_shared_memory(&self) -> bool {
        false
    }

    fn open(
        &self,
        _vfs: &mut (),
        _file: &mut (),
        _no_shm_mode: i32,
        max_log_size: i64,
        _db_path: &[u8],
    ) -> Result<MemoryWal, WalError> {
        if self.broken {
            return Err(WalError { code: 14 });
        }
        let mut wal = MemoryWal::default();
        wal.limit(max_log_size);
        Ok(wal)
    }

    fn close(
        &self,
        wal: &mut MemoryWal,
        _db: &mut (),
        _sync_flags: i32,
        scratch: Option<&mut [u8]>,
    ) -> Result<(), WalError> {
        wal.frames.clear();
        if let Some(buffer) = scratch {
            buffer.fill(0);
        }
        Ok(())
    }

    fn destroy_log(&self, _vfs: &mut (), _db_path: &[u8]) -> Result<(), WalError> {
        Ok(())
    }

    fn log_exists(&self, _vfs: &mut (), db_path: &[u8]) -> Result<bool, WalError> {
        Ok(db_path == b"t.db-wal")
    }

    fn destroy(self) {}
}

/// A stand-in for the engine above the log. It keeps the stack of savepoints of a transaction:
/// releasing or going back to a savepoint first drops those that were taken after it, and a
/// statement that writes several rows runs in a savepoint of its own.
///
/// So the order of the calls below is that of the stand-in; what the tests show of the library is
/// that the record has every call, in that order.
struct Connection {
    wal: WrapWal<MemoryWal>,
    shared: Recording<()>,
    savepoints: Vec<(String, [u32; 4])>,
    next_page: u32,
}

impl Connection {
    fn write_row(&mut self, is_commit: bool) {
        let mut pages = vec![(self.next_page, vec![0u8; 4096])];
        self.next_page += 1;
        assert_eq!(
            self.wal.insert_frames(4096, &mut pages, 0, is_commit, 0),
            Ok(1)
        );
    }

    fn forget_top(&mut self) {
        let (_, mut data) = self.savepoints.pop().unwrap();
        self.wal.savepoint_forget(&mut self.shared, &mut data);
    }

    fn depth_of(&self, name: &str) -> usize {
        self.savepoints.iter().rposition(|s| s.0 == name).unwrap()
    }

    fn take(&mut self, name: &str) {
        let mut data = [0u32; 4];
        self.wal.savepoint(&mut self.shared, &mut data);
        self.savepoints.push((name.to_string(), data));
    }

    fn execute_batch(&mut self, sql: &str) {
        for statement in sql.split(';') {
            let words: Vec<&str> = statement.split_whitespace().collect();
            match words.as_slice() {
                [] => {}
                ["BEGIN"] => {
                    self.wal.begin_read_txn().unwrap();
                    self.wal.begin_write_txn().unwrap();
                }
                ["COMMIT"] => {
                    while !self.savepoints.is_empty() {
                        self.forget_top();
                    }
                    self.write_row(true);
                    self.wal.end_write_txn().unwrap();
                    self.wal.end_read_txn();
                }
                ["SAVEPOINT", name] => self.take(name),
                ["RELEASE", name] => {
                    let depth = self.depth_of(name);
                    while self.savepoints.len() > depth {
                        self.forget_top();
                    }
                }
                ["ROLLBACK", "TO", name] => {
                    let depth = self.depth_of(name);
                    while self.savepoints.len() > depth + 1 {
                        self.forget_top();
                    }
                    let data = &mut self.savepoints[depth].1;
                    self.wal.savepoint_undo(&mut self.shared, data).unwrap();
                }
                ["INSERT", "INTO", _, "VALUES", ..] => self.write_row(false),
                ["INSERT", "INTO", ..] => {
                    self.take("");
                    let bound = words.iter().rposition(|w| *w == "<").unwrap();
                    let rows: u32 = words[bound + 1].parse().unwrap_or(1);
                    for _ in 0..rows {
                        self.write_row(false);
                    }
                    self.forget_top();
                }
                other => panic!("unexpected statement {:?}", other),
            }
        }
    }

    fn records(&self) -> &Records {
        &self.shared.records
    }
}

/// What the logs of a manager share: a record, and the recorder that reads it.
fn recording() -> (Recording<()>, SavepointRecorder) {
    let mut records = Records::new();
    let recorder = records.recorder();
    (Recording { records, inner: () }, recorder)
}

fn open_recording_connection() -> (Connection, SavepointRecorder) {
    let (shared, recorder) = recording();
    let manager = WrapWalManager {
        inner: MemoryWalManager { broken: false },
        recorder,
    };
    let wal = manager.open(&mut (), &mut (), 0, -1, b"t.db").unwrap();
    let mut conn = Connection {
        wal,
        shared,
        savepoints: Vec::new(),
        next_page: 1,
    };
    conn.execute_batch("BEGIN; INSERT INTO t SELECT value WHERE value < 2; COMMIT;");
    assert!(!recorder.events(conn.records()).is_empty());
    recorder.clear(&mut conn.shared.records);
    (conn, recorder)
}

#[test]
fn successful_multiwrite_statement_forgets_statement_savepoint() {
    let (mut conn, recorder) = open_recording_connection();

    conn.execute_batch(
        "BEGIN;
             INSERT INTO t(id, payload)
             WITH RECURSIVE seq(value) AS (
               VALUES(1)
               UNION ALL
               SELECT value + 1 FROM seq WHERE value < 4
             )
             SELECT value, zeroblob(4096) FROM seq;
             COMMIT;",
    );

    assert_eq!(
        recorder.events(conn.records()),
        vec![SavepointEvent::Savepoint, SavepointEvent::Forget]
    );
}

#[test]
fn release_forgets_nested_savepoints_in_stack_order() {
    let (mut conn, recorder) = open_recording_connection();

    conn.execute_batch(
        "BEGIN;
             INSERT INTO t VALUES (1, zeroblob(4096));
             SAVEPOINT outer;
             INSERT INTO t VALUES (2, zeroblob(4096));
             SAVEPOINT inner;
             INSERT INTO t VALUES (3, zeroblob(4096));
             RELEASE inner;
             RELEASE outer;
             COMMIT;",
    );

    assert_eq!(
        recorder.events(conn.records()),
        vec![
            SavepointEvent::Savepoint,
            SavepointEvent::Savepoint,
            SavepointEvent::Forget,
            SavepointEvent::Forget,
        ]
    );
}

#[test]
fn rollback_to_forgets_nested_savepoints_before_undoing_target() {
    let (mut conn, recorder) = open_recording_connection();

    conn.execute_batch(
        "BEGIN;
             INSERT INTO t VALUES (1, zeroblob(4096));
             SAVEPOINT outer;
             INSERT INTO t VALUES (2, zeroblob(4096));
             SAVEPOINT inner;
             INSERT INTO t VALUES (3, zeroblob(4096));
             ROLLBACK TO outer;
             RELEASE outer;
             COMMIT;",
    );

    assert_eq!(
        recorder.events(conn.records()),
        vec![
            SavepointEvent::Savepoint,
            SavepointEvent::Savepoint,
            SavepointEvent::Forget,
            SavepointEvent::Undo,
            SavepointEvent::Forget,
        ]
    );
}

#[test]
fn recorder_keeps_the_order_of_events() {
    let mut records = Records::new();
    let recorder = records.recorder();
    assert!(recorder.events(&records).is_empty());
    recorder.record(&mut records, SavepointEvent::Savepoint);
    recorder.record(&mut records, SavepointEvent::Undo);
    recorder.record(&mut records, SavepointEvent::Forget);
    assert_eq!(
        recorder.events(&records),
        vec![
            SavepointEvent::Savepoint,
            SavepointEvent::Undo,
            SavepointEvent::Forget
        ]
    );
    recorder.clear(&mut records);
    assert!(recorder.events(&records).is_empty());
}

#[test]
fn copies_of_a_recorder_share_the_record() {
    let mut records = Records::new();
    let recorder = records.recorder();
    let copy = recorder.clone();
    let other = records.recorder();
    recorder.record(&mut records, SavepointEvent::Savepoint);
    copy.record(&mut records, SavepointEvent::Forget);
    other.record(&mut records, SavepointEvent::Undo);
    let both = vec![SavepointEvent::Savepoint, SavepointEvent::Forget];
    assert_eq!(recorder.events(&records), both);
    assert_eq!(copy.events(&records), both);
    assert_eq!(other.events(&records), vec![SavepointEvent::Undo]);
    copy.clear(&mut records);
    assert!(recorder.events(&records).is_empty());
    assert_eq!(other.events(&records), vec![SavepointEvent::Undo]);
}

#[test]
fn a_recorder_of_another_store_changes_nothing() {
    let mut others = Records::new();
    let foreign = others.recorder();
    let mut records = Records::new();
    foreign.record(&mut records, SavepointEvent::Savepoint);
    let recorder = records.recorder();
    assert!(recorder.events(&records).is_empty());
}

#[test]
fn logs_of_one_manager_share_the_record() {
    let (mut shared, recorder) = recording();
    let manager = WrapWalManager {
        inner: MemoryWalManager { broken: false },
        recorder,
    };
    let mut one = manager.open(&mut (), &mut (), 0, -1, b"a.db").unwrap();
    let mut two = manager.open(&mut (), &mut (), 0, -1, b"b.db").unwrap();
    let mut data = [0u32; 4];
    one.savepoint(&mut shared, &mut data);
    two.savepoint(&mut shared, &mut data);
    assert_eq!(two.savepoint_undo(&mut shared, &mut data), Ok(()));
    one.savepoint_forget(&mut shared, &mut data);
    let all = vec![
        SavepointEvent::Savepoint,
        SavepointEvent::Savepoint,
        SavepointEvent::Undo,
        SavepointEvent::Forget,
    ];
    assert_eq!(recorder.events(&shared.records), all);
    assert_eq!(one.recorder.events(&shared.records), all);
    assert_eq!(two.recorder.events(&shared.records), all);
    // a log that is opened later goes on with the same record
    let mut three = manager.open(&mut (), &mut (), 0, -1, b"c.db").unwrap();
    recorder.clear(&mut shared.records);
    three.savepoint(&mut shared, &mut data);
    assert_eq!(
        one.recorder.events(&shared.records),
        vec![SavepointEvent::Savepoint]
    );
}

#[test]
fn wrapping_hands_every_call_on() {
    let mut plain = MemoryWal::default();
    let (mut shared, recorder) = recording();
    let mut wrapped = WrapWal {
        inner: MemoryWal::default(),
        recorder,
    };
    let page = OneBased::new(3).unwrap();
    let mut pages = vec![(3, vec![7u8; 16]), (5, vec![8u8; 16])];
    let mut same_pages = pages.clone();
    assert_eq!(
        wrapped.insert_frames(16, &mut pages, 2, false, 0),
        plain.insert_frames(16, &mut same_pages, 2, false, 0)
    );
    assert_eq!(pages, same_pages);
    assert_eq!(wrapped.find_frame(page), plain.find_frame(page));
    let frame = wrapped.find_frame(page).unwrap().unwrap();
    let mut buffer = [0u8; 16];
    assert_eq!(wrapped.read_frame(frame, &mut buffer), Ok(()));
    assert_eq!(buffer, [7u8; 16]);
    assert_eq!(
        wrapped.read_frame_raw(OneBased::new(9).unwrap(), &mut buffer),
        Err(WalError { code: 10 })
    );
    assert_eq!(wrapped.frame_count(0), Ok(2));
    assert_eq!(wrapped.db_size(), 5);
    assert_eq!(wrapped.frames_in_wal(), 2);
    assert_eq!(wrapped.callback(), plain.callback());
    assert!(wrapped.uses_heap_memory());
    assert_eq!(wrapped.exclusive_mode(-1), Err(WalError { code: 21 }));
    wrapped.limit(99);
    assert_eq!(wrapped.inner.limit, 99);
    wrapped.set_db(&mut ());
    let (mut in_wal, mut backfilled) = (0, -1);
    assert_eq!(
        wrapped.checkpoint(
            &mut (),
            (),
            None,
            0,
            &mut [],
            None,
            Some(&mut in_wal),
            Some(&mut backfilled)
        ),
        Ok(())
    );
    assert_eq!((in_wal, backfilled), (2, 0));
    let mut undone = Vec::new();
    assert_eq!(wrapped.undo(Some(&mut undone)), Ok(()));
    assert_eq!(undone, vec![3, 5]);
    assert!(recorder.events(&shared.records).is_empty());
    let (mut data, mut same_data) = ([9u32; 4], [9u32; 4]);
    wrapped.savepoint(&mut shared, &mut data);
    plain.savepoint(&mut (), &mut same_data);
    assert_eq!(data[1..], same_data[1..]);
    assert_eq!((data[0], same_data[0]), (0, 2));
    wrapped.savepoint_forget(&mut shared, &mut data);
    assert_eq!(data, [0, 9, 9, 9]);
    assert_eq!(
        recorder.events(&shared.records),
        vec![SavepointEvent::Savepoint, SavepointEvent::Forget]
    );
}

#[test]
fn managers_hand_every_call_on() {
    let (mut shared, recorder) = recording();
    recorder.record(&mut shared.records, SavepointEvent::Undo);
    let manager = WrapWalManager {
        inner: MemoryWalManager { broken: false },
        recorder,
    };
    assert!(!manager.use_shared_memory());
    assert_eq!(manager.log_exists(&mut (), b"t.db-wal"), Ok(true));
    assert_eq!(manager.log_exists(&mut (), b"u.db-wal"), Ok(false));
    assert_eq!(manager.destroy_log(&mut (), b"t.db-wal"), Ok(()));
    let mut wal = manager.open(&mut (), &mut (), 0, 17, b"t.db").unwrap();
    assert_eq!(wal.inner.limit, 17);
    assert_eq!(
        wal.recorder.events(&shared.records),
        vec![SavepointEvent::Undo]
    );
    wal.savepoint(&mut shared, &mut [0; 4]);
    let mut scratch = [1u8; 8];
    assert_eq!(
        manager.close(&mut wal, &mut (), 0, Some(&mut scratch)),
        Ok(())
    );
    assert_eq!(scratch, [0u8; 8]);
    assert_eq!(
        recorder.events(&shared.records),
        vec![SavepointEvent::Undo, SavepointEvent::Savepoint]
    );
    manager.destroy();
}

#[test]
fn a_log_that_does_not_open_is_an_error() {
    let manager = WrapWalManager {
        inner: MemoryWalManager { broken: true },
        recorder: recording().1,
    };
    let opened = manager.open(&mut (), &mut (), 0, -1, b"t.db");
    assert_eq!(opened.err(), Some(WalError { code: 14 }));
}

#[test]
fn numbers_count_from_one() {
    assert!(OneBased::new(0).is_none());
    assert_eq!(OneBased::new(1).unwrap().get(), 1);
    assert_eq!(OneBased::new(u32::MAX).unwrap().get(), u32::MAX);
}
