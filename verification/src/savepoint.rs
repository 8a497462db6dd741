//! The records of what happens to the savepoints of write-ahead logs.
use vstd::prelude::*;

verus! {

/// Something that happened to a savepoint.
#[derive(Debug, Clone, Copy, PartialEq, Eq, Structural)]
pub enum SavepointEvent {
    /// A savepoint was taken.
    Savepoint,
    /// The log went back to a savepoint.
    Undo,
    /// A savepoint was dropped without going back to it.
    Forget,
}

/// The records `records` after `event` was added to the one with number `slot`. A number that no
/// record has changes nothing.
pub open spec fn with_event(
    records: Seq<Seq<SavepointEvent>>,
    slot: nat,
    event: SavepointEvent,
) -> Seq<Seq<SavepointEvent>> {
    if slot < records.len() {
        records.update(slot as int, records[slot as int].push(event))
    } else {
        records
    }
}

/// The records that recorders write to, each with its events, oldest first.
#[derive(Debug)]
pub struct Records {
    lists: Vec<Vec<SavepointEvent>>,
}

impl View for Records {
    type V = Seq<Seq<SavepointEvent>>;

    closed spec fn view(&self) -> Seq<Seq<SavepointEvent>> {
        self.lists@.map_values(|list: Vec<SavepointEvent>| list@)
    }
}

impl Records {
    /// A store without records.
    pub fn new() -> (records: Self)
        ensures
            records@ == Seq::<Seq<SavepointEvent>>::empty(),
    {
        let records = Records { lists: Vec::new() };
        assert(records@ =~= Seq::<Seq<SavepointEvent>>::empty());
        records
    }

    /// Starts a record, and returns a recorder that writes to it.
    pub fn recorder(&mut self) -> (recorder: SavepointRecorder)
        ensures
            final(self)@ == old(self)@.push(Seq::<SavepointEvent>::empty()),
            recorder.slot() == old(self)@.len(),
    {
        let slot: usize = self.lists.len();
        let ghost before = self@;
        self.lists.push(Vec::new());
        assert(self@ =~= before.push(Seq::<SavepointEvent>::empty()));
        SavepointRecorder { slot }
    }
}

/// Writes to a record and reads it. Every copy of a recorder shares the record of the recorder
/// that it was copied from.
#[derive(Debug, Clone, Copy, PartialEq, Eq, Structural)]
pub struct SavepointRecorder {
    slot: usize,
}

impl SavepointRecorder {
    /// The number of the record.
    pub closed spec fn slot(self) -> nat {
        self.slot as nat
    }

    /// Adds `event` behind all that was recorded so far. A recorder of another store changes
    /// nothing.
    pub fn record(&self, records: &mut Records, event: SavepointEvent)
        ensures
            final(records)@ == with_event(old(records)@, self.slot(), event),
    {
        let ghost before = records@;
        if self.slot < records.lists.len() {
            records.lists[self.slot].push(event);
        }
        assert(records@ =~= with_event(before, self.slot(), event));
    }

    /// All recorded events, oldest first.
    pub fn events(&self, records: &Records) -> (events: Vec<SavepointEvent>)
        requires
            self.slot() < records@.len(),
        ensures
            events@ == records@[self.slot() as int],
    {
        let list = &records.lists[self.slot];
        let mut events: Vec<SavepointEvent> = Vec::new();
        for i in 0..list.len()
            invariant
                events@ == list@.take(i as int),
        {
            events.push(list[i]);
        }
        events
    }

    /// Forgets all recorded events.
    pub fn clear(&self, records: &mut Records)
        requires
            self.slot() < old(records)@.len(),
        ensures
            final(records)@ == old(records)@.update(
                self.slot() as int,
                Seq::<SavepointEvent>::empty(),
            ),
    {
        let ghost before = records@;
        records.lists[self.slot].clear();
        assert(records@ =~= before.update(self.slot() as int, Seq::<SavepointEvent>::empty()));
    }
}

/// Copies of a recorder share their record: what is recorded through one is read through any.
pub proof fn law_copies_share_the_record(
    records: Seq<Seq<SavepointEvent>>,
    one: SavepointRecorder,
    other: SavepointRecorder,
    event: SavepointEvent,
)
    requires
        one == other,
        one.slot() < records.len(),
    ensures
        with_event(records, one.slot(), event)[other.slot() as int]
            == records[other.slot() as int].push(event),
{
}

/// Recorders of different records do not meddle with each other.
pub proof fn law_other_records_stay(
    records: Seq<Seq<SavepointEvent>>,
    one: SavepointRecorder,
    other: SavepointRecorder,
    event: SavepointEvent,
)
    requires
        one.slot() != other.slot(),
        other.slot() < records.len(),
    ensures
        with_event(records, one.slot(), event)[other.slot() as int]
            == records[other.slot() as int],
{
}

/// Recording adds one event at the end of one record, and to no other; a recorder of another store
/// changes nothing.
pub proof fn law_recording_adds_one_event(
    records: Seq<Seq<SavepointEvent>>,
    slot: nat,
    event: SavepointEvent,
)
    ensures
        with_event(records, slot, event).len() == records.len(),
        forall|s: int|
            0 <= s < records.len() ==> #[trigger] with_event(records, slot, event)[s] == (if s
                == slot {
                records[s].push(event)
            } else {
                records[s]
            }),
{
}

} // verus!
