//! What a log means: the live keys that a replay of its records leaves.
//!
//! A replay reads record after record from the first byte of the log. A
//! `Put` gives its key a slot, a `Rm` takes the key's slot away. The log
//! means something only if its bytes are whole records up to its end.

use crate::record::{decoded, found, frame_len, Record};
use vstd::prelude::*;

verus! {

/// Where the record that set a live key stands in the log, and the value
/// that it set.
pub struct Slot {
    pub start: int,
    pub end: int,
    pub value: Seq<char>,
}

/// What a record, read between the offsets `start` and `end`, does to the
/// live keys: a `Put` takes the key's slot, a `Rm` frees it.
pub open spec fn apply(state: Map<Seq<char>, Slot>, record: Record, start: int, end: int) -> Map<
    Seq<char>,
    Slot,
> {
    match record {
        Record::Put(key, value) => state.insert(key, Slot { start, end, value }),
        Record::Rm(key) => state.remove(key),
    }
}

/// The live keys after the records of `log` from `pos` on have been applied
/// to `state` in turn, or `None` if the bytes from `pos` on are not whole
/// records one after another up to the end of the log.
pub open spec fn replay_from(log: Seq<u8>, pos: int, state: Map<Seq<char>, Slot>) -> Option<
    Map<Seq<char>, Slot>,
>
    decreases log.len() - pos,
{
    match decoded(log, pos) {
        Ok(None) => Some(state),
        Ok(Some((record, count))) => replay_from(
            log,
            pos + count,
            apply(state, record, pos, pos + count),
        ),
        Err(_) => None,
    }
}

/// The live keys of a log, replayed from its first byte.
pub open spec fn replay(log: Seq<u8>) -> Option<Map<Seq<char>, Slot>> {
    replay_from(log, 0, Map::empty())
}

/// The offset at which a reader stops that reads record after record from
/// `pos`: the end of the log, or the first offset at which no whole record
/// stands.
pub open spec fn scan_end(log: Seq<u8>, pos: int) -> int
    decreases log.len() - pos,
{
    match decoded(log, pos) {
        Ok(Some((_, count))) => scan_end(log, pos + count),
        _ => pos,
    }
}

/// The offsets that an index holds for the live keys.
pub open spec fn spans(state: Map<Seq<char>, Slot>) -> Map<Seq<char>, (u64, u64)> {
    state.map_values(|slot: Slot| (slot.start as u64, slot.end as u64))
}

/// The values of the live keys.
pub open spec fn values(state: Map<Seq<char>, Slot>) -> Map<Seq<char>, Seq<char>> {
    state.map_values(|slot: Slot| slot.value)
}

/// The index that belongs to a log: the offsets of its live keys. A log that
/// cannot be replayed has none.
pub open spec fn index_of(log: Seq<u8>) -> Map<Seq<char>, (u64, u64)> {
    match replay(log) {
        Some(state) => spans(state),
        None => Map::empty(),
    }
}

/// What a log holds: the value of each live key. A log that cannot be
/// replayed holds nothing.
pub open spec fn contents(log: Seq<u8>) -> Map<Seq<char>, Seq<char>> {
    match replay(log) {
        Some(state) => values(state),
        None => Map::empty(),
    }
}

/// The slot of `key` lies in the log, and the record that stands there is
/// the `Put` that gave the key its value.
pub open spec fn slot_holds(log: Seq<u8>, key: Seq<char>, slot: Slot) -> bool {
    &&& 0 <= slot.start < slot.end <= log.len()
    &&& decoded(log, slot.start) == found(
        Record::Put(key, slot.value),
        (slot.end - slot.start) as nat,
    )
}

/// Every slot points at the record that set its key.
pub open spec fn grounded(log: Seq<u8>, state: Map<Seq<char>, Slot>) -> bool {
    forall|key: Seq<char>| #[trigger] state.contains_key(key) ==> slot_holds(log, key, state[key])
}

/// A record that stands whole in a log stands there still when bytes are
/// added behind the log.
pub proof fn lemma_decoded_stable(log: Seq<u8>, more: Seq<u8>, pos: int)
    requires
        decoded(log, pos) is Ok,
        decoded(log, pos)->Ok_0 is Some,
    ensures
        decoded(log + more, pos) == decoded(log, pos),
{
    let count = frame_len(log, pos)->Some_0;
    assert((log + more).subrange(pos, pos + count) =~= log.subrange(pos, pos + count));
}

/// Bytes that read as one record and nothing else read as that record
/// wherever they stand at the end of a log.
pub proof fn lemma_decoded_at_end(log: Seq<u8>, frame: Seq<u8>, record: Record)
    requires
        decoded(frame, 0) == found(record, frame.len()),
    ensures
        decoded(log + frame, log.len() as int) == found(record, frame.len()),
        frame.len() > 0,
{
    let len = log.len() as int;
    let count = frame.len() as int;
    assert((log + frame).subrange(len, len + count) =~= frame.subrange(0, count));
}

/// The bytes between the offsets of a record read as that record.
pub proof fn lemma_decoded_alone(log: Seq<u8>, start: int, end: int, record: Record)
    requires
        0 <= start < end <= log.len(),
        decoded(log, start) == found(record, (end - start) as nat),
    ensures
        decoded(log.subrange(start, end), 0) == found(record, (end - start) as nat),
{
    let frame = log.subrange(start, end);
    assert(frame.subrange(0, end - start) =~= log.subrange(start, end));
}

/// A replay that succeeds on a log succeeds on the log with one more record
/// behind it, and the record is applied last.
pub proof fn lemma_replay_append(
    log: Seq<u8>,
    frame: Seq<u8>,
    record: Record,
    pos: int,
    state: Map<Seq<char>, Slot>,
)
    requires
        0 <= pos <= log.len(),
        replay_from(log, pos, state) is Some,
        decoded(frame, 0) == found(record, frame.len()),
    ensures
        replay_from(log + frame, pos, state) == Some(
            apply(
                replay_from(log, pos, state)->Some_0,
                record,
                log.len() as int,
                (log.len() + frame.len()) as int,
            ),
        ),
    decreases log.len() - pos,
{
    let longer = log + frame;
    if pos == log.len() {
        lemma_decoded_at_end(log, frame, record);
        let end = (log.len() + frame.len()) as int;
        assert(replay_from(longer, end, apply(state, record, pos, end)) == Some(
            apply(state, record, pos, end),
        ));
    } else {
        lemma_decoded_stable(log, frame, pos);
        let (first, count) = decoded(log, pos)->Ok_0->Some_0;
        lemma_replay_append(log, frame, record, pos + count, apply(state, first, pos, pos + count));
    }
}

/// A replay keeps every slot pointing at the record that set its key.
pub proof fn lemma_replay_grounded(log: Seq<u8>, pos: int, state: Map<Seq<char>, Slot>)
    requires
        0 <= pos <= log.len(),
        grounded(log, state),
        replay_from(log, pos, state) is Some,
    ensures
        grounded(log, replay_from(log, pos, state)->Some_0),
    decreases log.len() - pos,
{
    if pos < log.len() {
        let (first, count) = decoded(log, pos)->Ok_0->Some_0;
        lemma_replay_grounded(log, pos + count, apply(state, first, pos, pos + count));
    }
}

} // verus!
