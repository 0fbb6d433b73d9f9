//! The ring buffer that carries serialized span batches from the backends to the
//! background worker.
//!
//! The queue lives in memory shared by all processes; whoever touches it holds the lock
//! that stands beside it. It never blocks a query: a batch that finds no room is dropped
//! and counted.

use vstd::prelude::*;

verus! {

/// Number of slots in the shared-memory ring buffer.
pub const QUEUE_SIZE: usize = 1024;

/// Maximum serialized span batch per slot (bytes).
pub const MAX_PAYLOAD_SIZE: usize = 8192;

/// Bytes of all the slots together.
pub const BUFFER_SIZE: usize = QUEUE_SIZE * MAX_PAYLOAD_SIZE;

/// Circular queue of byte batches.
///
/// The two indices run freely and wrap around at the end of `usize`; a batch stands in the
/// slot that its index gives modulo `QUEUE_SIZE`. Memory that is all zeros is an empty queue.
pub struct SharedQueue {
    pub write_idx: usize,
    pub read_idx: usize,
    pub dropped: usize,
    pub buffer: [u8; BUFFER_SIZE],
    pub lengths: [usize; QUEUE_SIZE],
}

/// What a queue holds: its batches, oldest first, and how many were dropped.
#[verifier::ext_equal]
pub struct QueueModel {
    pub batches: Seq<Seq<u8>>,
    pub dropped: usize,
}

impl QueueModel {
    /// Whether `data` finds room.
    pub open spec fn accepts(self, data: Seq<u8>) -> bool {
        data.len() <= MAX_PAYLOAD_SIZE && self.batches.len() < QUEUE_SIZE
    }

    /// The queue after an attempt to push `data`: a batch that is too long for a slot leaves
    /// no trace, one that finds every slot taken is counted.
    pub open spec fn push(self, data: Seq<u8>) -> QueueModel {
        if self.accepts(data) {
            QueueModel { batches: self.batches.push(data), ..self }
        } else if data.len() <= MAX_PAYLOAD_SIZE {
            QueueModel {
                dropped: vstd::wrapping::usize_specs::wrapping_add(self.dropped, 1),
                ..self
            }
        } else {
            self
        }
    }

    /// The batch that the next pop gives.
    pub open spec fn front(self) -> Option<Seq<u8>> {
        if self.batches.len() == 0 {
            None
        } else {
            Some(self.batches[0])
        }
    }

    /// The queue after a pop.
    pub open spec fn pop(self) -> QueueModel {
        if self.batches.len() == 0 {
            self
        } else {
            QueueModel { batches: self.batches.drop_first(), ..self }
        }
    }
}

/// The slot of the `i`th batch from the front.
pub open spec fn slot_at(read_idx: usize, i: int) -> int {
    (read_idx + i) % (QUEUE_SIZE as int)
}

impl SharedQueue {
    /// Number of batches between the two indices.
    pub open spec fn pending(self) -> nat {
        vstd::wrapping::usize_specs::wrapping_sub(self.write_idx, self.read_idx) as nat
    }

    /// The bytes that `slot` holds.
    pub open spec fn slot_bytes(self, slot: int) -> Seq<u8> {
        self.buffer@.subrange(
            slot * MAX_PAYLOAD_SIZE,
            slot * MAX_PAYLOAD_SIZE + self.lengths@[slot],
        )
    }

    /// No more batches than slots, and no batch longer than its slot.
    pub open spec fn wf(self) -> bool {
        &&& self.pending() <= QUEUE_SIZE
        &&& forall|i: int|
            0 <= i < self.pending() ==> self.lengths@[#[trigger] slot_at(self.read_idx, i)]
                <= MAX_PAYLOAD_SIZE
    }
}

impl View for SharedQueue {
    type V = QueueModel;

    open spec fn view(&self) -> QueueModel {
        QueueModel {
            batches: Seq::new(self.pending(), |i: int| self.slot_bytes(slot_at(self.read_idx, i))),
            dropped: self.dropped,
        }
    }
}

/// An index and its successor across the wrap-around agree modulo the number of slots.
proof fn index_wraps_onto_slots()
    ensures
        (usize::MAX + 1) % (QUEUE_SIZE as int) == 0,
{
    assert(usize::MAX == 0xffff_ffff || usize::MAX == 0xffff_ffff_ffff_ffff);
}

/// The slot that the write index gives is the one behind the last batch.
proof fn write_slot_is_behind_last(q: SharedQueue)
    ensures
        q.write_idx % QUEUE_SIZE == slot_at(q.read_idx, q.pending() as int),
{
    index_wraps_onto_slots();
}

/// Distinct batches stand in distinct slots.
proof fn slots_are_distinct(read_idx: usize, i: int, j: int)
    requires
        0 <= i < j < i + QUEUE_SIZE,
    ensures
        slot_at(read_idx, i) != slot_at(read_idx, j),
        0 <= slot_at(read_idx, i) < QUEUE_SIZE,
        0 <= slot_at(read_idx, j) < QUEUE_SIZE,
{
}

impl SharedQueue {
    /// Appends `data`, or counts it as dropped when every slot is taken.
    fn push(&mut self, data: &[u8]) -> (pushed: bool)
        requires
            old(self).wf(),
        ensures
            final(self).wf(),
            final(self)@ == old(self)@.push(data@),
            pushed == old(self)@.accepts(data@),
    {
        if data.len() > MAX_PAYLOAD_SIZE {
            return false;
        }
        let write_idx: usize = self.write_idx;
        if write_idx.wrapping_sub(self.read_idx) >= QUEUE_SIZE {
            self.dropped = self.dropped.wrapping_add(1);
            proof {
                assert(self@.batches =~= old(self)@.batches);
            }
            return false;
        }
        let slot: usize = write_idx % QUEUE_SIZE;
        let offset: usize = slot * MAX_PAYLOAD_SIZE;
        let mut copied: usize = 0;
        while copied < data.len()
            invariant
                copied <= data.len() <= MAX_PAYLOAD_SIZE,
                offset + MAX_PAYLOAD_SIZE <= BUFFER_SIZE,
                self.write_idx == old(self).write_idx,
                self.read_idx == old(self).read_idx,
                self.dropped == old(self).dropped,
                self.lengths == old(self).lengths,
                forall|b: int|
                    0 <= b < BUFFER_SIZE ==> #[trigger] self.buffer@[b] == (if offset <= b < offset
                        + copied {
                        data@[b - offset]
                    } else {
                        old(self).buffer@[b]
                    }),
            decreases data.len() - copied,
        {
            self.buffer[offset + copied] = data[copied];
            copied += 1;
        }
        self.lengths[slot] = data.len();
        self.write_idx = write_idx.wrapping_add(1);
        proof {
            let before = *old(self);
            write_slot_is_behind_last(before);
            assert(self.pending() == before.pending() + 1);
            assert forall|i: int| 0 <= i < before.pending() implies #[trigger] self.slot_bytes(
                slot_at(self.read_idx, i),
            ) =~= before.slot_bytes(slot_at(before.read_idx, i)) by {
                slots_are_distinct(before.read_idx, i, before.pending() as int);
            }
            assert(self.slot_bytes(slot as int) =~= data@);
            assert(slot_at(self.read_idx, before.pending() as int) == slot);
            assert(self@.batches =~= before@.batches.push(data@));
        }
        true
    }

    /// Removes the oldest batch.
    fn pop(&mut self) -> (popped: Option<Vec<u8>>)
        requires
            old(self).wf(),
        ensures
            final(self).wf(),
            final(self)@ == old(self)@.pop(),
            match popped {
                Some(data) => old(self)@.front() == Some(data@),
                None => old(self)@.front() is None,
            },
    {
        let read_idx: usize = self.read_idx;
        if read_idx == self.write_idx {
            return None;
        }
        let slot: usize = read_idx % QUEUE_SIZE;
        assert(slot_at(self.read_idx, 0) == slot);
        let offset: usize = slot * MAX_PAYLOAD_SIZE;
        let len: usize = self.lengths[slot];
        let mut data: Vec<u8> = Vec::with_capacity(len);
        while data.len() < len
            invariant
                data.len() <= len <= MAX_PAYLOAD_SIZE,
                offset + MAX_PAYLOAD_SIZE <= BUFFER_SIZE,
                *self == *old(self),
                data@ =~= self.buffer@.subrange(offset as int, offset + data.len()),
            decreases len - data.len(),
        {
            data.push(self.buffer[offset + data.len()]);
        }
        self.read_idx = read_idx.wrapping_add(1);
        proof {
            let before = *old(self);
            index_wraps_onto_slots();
            assert(self.pending() == before.pending() - 1);
            assert forall|i: int| 0 <= i < self.pending() implies #[trigger] slot_at(
                self.read_idx,
                i,
            ) == slot_at(before.read_idx, i + 1) by {}
            assert(self@.batches =~= before@.batches.drop_first());
        }
        Some(data)
    }
}

/// Push a serialized span batch into the queue.
///
/// Returns `true` on success, `false` if there is no queue, the queue is full or the batch
/// does not fit a slot.
pub fn queue_push(queue: Option<&mut SharedQueue>, data: &[u8]) -> (pushed: bool)
    requires
        queue matches Some(q) ==> q.wf(),
    ensures
        match queue {
            Some(q) => {
                &&& final(q).wf()
                &&& final(q)@ == q@.push(data@)
                &&& pushed == q@.accepts(data@)
            },
            None => !pushed,
        },
{
    match queue {
        Some(q) => q.push(data),
        None => false,
    }
}

/// Pop a serialized span batch from the queue.
///
/// Returns `None` if there is no queue or the queue is empty.
pub fn queue_pop(queue: Option<&mut SharedQueue>) -> (popped: Option<Vec<u8>>)
    requires
        queue matches Some(q) ==> q.wf(),
    ensures
        match queue {
            Some(q) => {
                &&& final(q).wf()
                &&& final(q)@ == q@.pop()
                &&& match popped {
                    Some(data) => q@.front() == Some(data@),
                    None => q@.front() is None,
                }
            },
            None => popped is None,
        },
{
    match queue {
        Some(q) => q.pop(),
        None => None,
    }
}

/// Makes freshly allocated memory an empty queue; a queue that another process set up
/// (`found`) is left as it is.
pub fn init_queue(queue: &mut SharedQueue, found: bool)
    requires
        found ==> old(queue).wf(),
    ensures
        final(queue).wf(),
        found ==> *final(queue) == *old(queue),
        !found ==> {
            &&& final(queue)@ == (QueueModel { batches: Seq::empty(), dropped: 0 })
            &&& final(queue).write_idx == 0
            &&& final(queue).read_idx == 0
        },
{
    if !found {
        queue.write_idx = 0;
        queue.read_idx = 0;
        queue.dropped = 0;
    }
}

/// The counters of a queue, as they can be read without its lock.
#[derive(Clone, Copy, Debug, PartialEq, Eq)]
pub struct QueueCounters {
    pub write_idx: usize,
    pub read_idx: usize,
    pub dropped: usize,
}

#[derive(Clone, Copy, Debug, PartialEq, Eq)]
pub struct QueueStats {
    pub size: usize,
    pub dropped: usize,
}

/// The statistics that a reading of the counters gives.
pub open spec fn stats_of(counters: QueueCounters) -> QueueStats {
    QueueStats {
        size: vstd::wrapping::usize_specs::wrapping_sub(counters.write_idx, counters.read_idx),
        dropped: counters.dropped,
    }
}

impl SharedQueue {
    /// The counters at this moment.
    pub fn counters(&self) -> (counters: QueueCounters)
        ensures
            counters == (QueueCounters {
                write_idx: self.write_idx,
                read_idx: self.read_idx,
                dropped: self.dropped,
            }),
    {
        QueueCounters {
            write_idx: self.write_idx,
            read_idx: self.read_idx,
            dropped: self.dropped,
        }
    }
}

/// Return approximate queue statistics (best-effort without locking).
///
/// `counters` is what was read, or `None` where there is no queue. The counters may stem from
/// different moments; where they stem from one, the size is exact.
pub fn queue_stats(counters: Option<QueueCounters>) -> (stats: QueueStats)
    ensures
        stats == match counters {
            Some(c) => stats_of(c),
            None => QueueStats { size: 0, dropped: 0 },
        },
{
    match counters {
        Some(c) => QueueStats {
            size: c.write_idx.wrapping_sub(c.read_idx),
            dropped: c.dropped,
        },
        None => QueueStats { size: 0, dropped: 0 },
    }
}

/// Counters that are read at one moment give the number of batches in the queue, which never
/// exceeds the number of slots, and the number of batches dropped.
pub proof fn stats_count_the_batches(queue: SharedQueue)
    requires
        queue.wf(),
    ensures
        ({
            let stats = stats_of(
                QueueCounters {
                    write_idx: queue.write_idx,
                    read_idx: queue.read_idx,
                    dropped: queue.dropped,
                },
            );
            &&& stats.size == queue@.batches.len()
            &&& stats.size <= QUEUE_SIZE
            &&& stats.dropped == queue@.dropped
        }),
{
}

impl QueueModel {
    /// The queue after pushing each of `data` in turn.
    pub open spec fn push_all(self, data: Seq<Seq<u8>>) -> QueueModel
        decreases data.len(),
    {
        if data.len() == 0 {
            self
        } else {
            self.push_all(data.drop_last()).push(data.last())
        }
    }

    /// The queue after `count` pops.
    pub open spec fn pop_many(self, count: nat) -> QueueModel
        decreases count,
    {
        if count == 0 {
            self
        } else {
            self.pop_many((count - 1) as nat).pop()
        }
    }
}

proof fn push_all_appends(model: QueueModel, data: Seq<Seq<u8>>)
    requires
        model.batches.len() + data.len() <= QUEUE_SIZE,
        forall|i: int| 0 <= i < data.len() ==> (#[trigger] data[i]).len() <= MAX_PAYLOAD_SIZE,
    ensures
        model.push_all(data) == (QueueModel { batches: model.batches + data, ..model }),
    decreases data.len(),
{
    if data.len() == 0 {
        assert(model.batches + data =~= model.batches);
    } else {
        push_all_appends(model, data.drop_last());
        assert(data.last() == data[data.len() - 1]);
        assert((model.batches + data.drop_last()).push(data.last()) =~= model.batches + data);
    }
}

proof fn pop_many_skips(model: QueueModel, count: nat)
    requires
        count <= model.batches.len(),
    ensures
        model.pop_many(count) == (QueueModel {
            batches: model.batches.skip(count as int),
            ..model
        }),
    decreases count,
{
    if count == 0 {
        assert(model.batches.skip(0) =~= model.batches);
    } else {
        pop_many_skips(model, (count - 1) as nat);
        assert(model.batches.skip(count - 1).drop_first() =~= model.batches.skip(count as int));
    }
}

/// First in, first out: after any batches that fit are pushed, pops give what the queue held
/// and then those batches, each once, byte for byte and in order, and then nothing.
pub proof fn queue_is_fifo(model: QueueModel, data: Seq<Seq<u8>>, count: nat)
    requires
        model.batches.len() + data.len() <= QUEUE_SIZE,
        forall|i: int| 0 <= i < data.len() ==> (#[trigger] data[i]).len() <= MAX_PAYLOAD_SIZE,
        count <= model.batches.len() + data.len(),
    ensures
        model.push_all(data).pop_many(count).front() == (if count < model.batches.len() {
            Some(model.batches[count as int])
        } else if count < model.batches.len() + data.len() {
            Some(data[count - model.batches.len()])
        } else {
            None
        }),
        model.push_all(data).pop_many(count).dropped == model.dropped,
{
    push_all_appends(model, data);
    pop_many_skips(model.push_all(data), count);
}

/// One operation on a queue.
pub enum QueueOp {
    Push(Seq<u8>),
    Pop,
}

impl QueueModel {
    /// The queue after one operation.
    pub open spec fn apply(self, op: QueueOp) -> QueueModel {
        match op {
            QueueOp::Push(data) => self.push(data),
            QueueOp::Pop => self.pop(),
        }
    }

    /// The queue after each of `ops` in turn.
    pub open spec fn run(self, ops: Seq<QueueOp>) -> QueueModel
        decreases ops.len(),
    {
        if ops.len() == 0 {
            self
        } else {
            self.run(ops.drop_last()).apply(ops.last())
        }
    }

    /// The batches that the pushes among `ops` get accepted, in turn.
    pub open spec fn accepted(self, ops: Seq<QueueOp>) -> Seq<Seq<u8>>
        decreases ops.len(),
    {
        if ops.len() == 0 {
            Seq::empty()
        } else {
            let before = self.accepted(ops.drop_last());
            match ops.last() {
                QueueOp::Push(data) if self.run(ops.drop_last()).accepts(data) => before.push(data),
                _ => before,
            }
        }
    }

    /// The batches that the pops among `ops` give, in turn.
    pub open spec fn popped(self, ops: Seq<QueueOp>) -> Seq<Seq<u8>>
        decreases ops.len(),
    {
        if ops.len() == 0 {
            Seq::empty()
        } else {
            let before = self.popped(ops.drop_last());
            match (ops.last(), self.run(ops.drop_last()).front()) {
                (QueueOp::Pop, Some(data)) => before.push(data),
                _ => before,
            }
        }
    }
}

/// First in, first out, however pushes and pops take turns: what the queue held and then the
/// batches that were accepted are the batches that were popped and then those still in it.
pub proof fn queue_keeps_order(model: QueueModel, ops: Seq<QueueOp>)
    ensures
        model.batches + model.accepted(ops) == model.popped(ops) + model.run(ops).batches,
        model.batches.len() == 0 ==> model.accepted(ops) == model.popped(ops) + model.run(
            ops,
        ).batches,
    decreases ops.len(),
{
    if ops.len() == 0 {
        assert(model.batches + model.accepted(ops) =~= model.popped(ops) + model.run(ops).batches);
    } else {
        let earlier = ops.drop_last();
        let before = model.run(earlier);
        queue_keeps_order(model, earlier);
        match ops.last() {
            QueueOp::Push(data) => {
                if before.accepts(data) {
                    assert(model.batches + model.accepted(earlier).push(data) =~= (model.batches
                        + model.accepted(earlier)).push(data));
                    assert(model.popped(earlier) + before.batches.push(data) =~= (model.popped(
                        earlier,
                    ) + before.batches).push(data));
                }
            },
            QueueOp::Pop => {
                if before.batches.len() > 0 {
                    assert(model.popped(earlier).push(before.batches[0])
                        + before.batches.drop_first() =~= model.popped(earlier) + before.batches);
                }
            },
        }
    }
    if model.batches.len() == 0 {
        assert(model.batches + model.accepted(ops) =~= model.accepted(ops));
    }
}

/// Drop on overflow: a full queue keeps every batch it holds, in order, whatever is pushed,
/// and counts each batch that a slot could have held.
pub proof fn full_queue_keeps_its_batches(model: QueueModel, data: Seq<u8>)
    requires
        model.batches.len() == QUEUE_SIZE,
    ensures
        !model.accepts(data),
        model.push(data).batches == model.batches,
        data.len() <= MAX_PAYLOAD_SIZE && model.dropped < usize::MAX ==> model.push(data).dropped
            == model.dropped + 1,
{
}

} // verus!
