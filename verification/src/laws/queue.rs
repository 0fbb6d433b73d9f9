//! What the shared queue does with batches.

use vstd::prelude::*;

use crate::shared::QueueModel;

verus! {

/// A batch of 8192 bytes at most finds room while fewer than 1024 are queued; then it is the last,
/// byte for byte, and those before it stay.
pub proof fn batch_is_queued_where_there_is_room(model: QueueModel, data: Seq<u8>)
    ensures
        model.accepts(data) <==> data.len() <= 8192 && model.batches.len() < 1024,
        model.accepts(data) ==> {
            &&& model.push(data).batches.len() == model.batches.len() + 1
            &&& model.push(data).batches.last() == data
            &&& forall|i: int|
                0 <= i < model.batches.len() ==> #[trigger] model.push(data).batches[i]
                    == model.batches[i]
            &&& model.push(data).dropped == model.dropped
        },
{
}

/// A batch that finds no room changes none of those that are queued; it is counted, unless it is too
/// long for any slot.
pub proof fn batch_without_room_is_dropped(model: QueueModel, data: Seq<u8>)
    requires
        data.len() > 8192 || model.batches.len() >= 1024,
        model.dropped < usize::MAX,
    ensures
        model.push(data).batches == model.batches,
        model.push(data).dropped == model.dropped + (if data.len() <= 8192 {
            1int
        } else {
            0
        }),
{
}

/// A pop gives the oldest batch and takes it away; the others stay in order. An empty queue gives
/// nothing and stays as it is.
pub proof fn pop_takes_the_oldest(model: QueueModel)
    ensures
        model.batches.len() == 0 ==> model.front() is None && model.pop() == model,
        model.batches.len() > 0 ==> {
            &&& model.front() == Some(model.batches[0])
            &&& model.pop().batches.len() == model.batches.len() - 1
            &&& forall|i: int|
                0 <= i < model.batches.len() - 1 ==> #[trigger] model.pop().batches[i]
                    == model.batches[i + 1]
            &&& model.pop().dropped == model.dropped
        },
{
}

} // verus!
