//! What holds of the store whatever is done with it.
//!
//! Each law speaks of calls through what the calls promise: a store before
//! a call, the store after it and the call's answer are related as the
//! call's contract says.

use crate::error::KvsError;
use crate::log::appended;
use crate::record::{
    decoded, encoded, first_record, found, lemma_names_differ, record_of_fields, Record,
};
use crate::replay::{
    apply, contents, grounded, index_of, lemma_replay_append, lemma_replay_grounded, replay,
    replay_from, scan_end, spans, Slot,
};
use crate::store::KvStore;
use vstd::prelude::*;

verus! {

/// The bytes that a record is written as read back as the record, and the
/// record takes all of them.
pub proof fn law_round_trip(record: Record, bytes: Seq<u8>)
    requires
        encoded(record) == Ok::<Seq<u8>, KvsError>(bytes),
    ensures
        decoded(bytes, 0) == found(record, bytes.len()),
        first_record(bytes) == Ok::<Record, KvsError>(record),
{
}

/// The field that a record is written as reads back as the record.
pub proof fn law_field_round_trip(record: Record)
    ensures
        record_of_fields(seq![record.field()]) == Some(record),
{
    lemma_names_differ();
}

/// A `get` that follows a `set` of the same key finds the value that was
/// set.
pub proof fn law_set_then_get(
    s0: KvStore,
    s1: KvStore,
    s2: KvStore,
    key: Seq<char>,
    val: Seq<char>,
    answer: Result<Option<String>, KvsError>,
)
    requires
        s0.set_done(s1, key, val, Ok(())),
        s1.got(s2, key, answer),
    ensures
        answer is Ok,
        answer->Ok_0 is Some,
        answer->Ok_0->Some_0@ == val,
{
}

/// Of two `set`s of one key the later one is what a `get` finds.
pub proof fn law_overwrite_wins(
    s0: KvStore,
    s1: KvStore,
    s2: KvStore,
    s3: KvStore,
    key: Seq<char>,
    first: Seq<char>,
    second: Seq<char>,
    answer: Result<Option<String>, KvsError>,
)
    requires
        s0.set_done(s1, key, first, Ok(())),
        s1.set_done(s2, key, second, Ok(())),
        s2.got(s3, key, answer),
    ensures
        answer is Ok,
        answer->Ok_0 is Some,
        answer->Ok_0->Some_0@ == second,
{
}

/// A `get` that follows a `remove` of the same key finds nothing.
pub proof fn law_remove_then_get(
    s0: KvStore,
    s1: KvStore,
    s2: KvStore,
    s3: KvStore,
    key: Seq<char>,
    val: Seq<char>,
    answer: Result<Option<String>, KvsError>,
)
    requires
        s0.set_done(s1, key, val, Ok(())),
        s1.removed(s2, key, Ok(())),
        s2.got(s3, key, answer),
    ensures
        answer == Ok::<Option<String>, KvsError>(None),
{
}

/// A `remove` of a key that has no value fails with `KeyNotFound` and
/// leaves the log as it was.
pub proof fn law_remove_missing(
    s0: KvStore,
    s1: KvStore,
    key: Seq<char>,
    answer: Result<(), KvsError>,
)
    requires
        !s0@.contains_key(key),
        s0.removed(s1, key, answer),
    ensures
        answer == Err::<(), KvsError>(KvsError::KeyNotFound),
        s1.log_view() == s0.log_view(),
        s1@ == s0@,
{
}

/// No key has a value in the store of an empty log, so that a key that was
/// never set cannot be removed.
pub proof fn law_nothing_in_new_store(opened: Result<KvStore, KvsError>, key: Seq<char>)
    requires
        KvStore::opened(Seq::<u8>::empty(), opened),
    ensures
        opened is Ok,
        !opened->Ok_0@.contains_key(key),
{
}

/// A `remove` that follows a `remove` of the same key fails with
/// `KeyNotFound` and leaves the log as it was.
pub proof fn law_remove_twice(
    s0: KvStore,
    s1: KvStore,
    s2: KvStore,
    key: Seq<char>,
    answer: Result<(), KvsError>,
)
    requires
        s0.removed(s1, key, Ok(())),
        s1.removed(s2, key, answer),
    ensures
        answer == Err::<(), KvsError>(KvsError::KeyNotFound),
        s2.log_view() == s1.log_view(),
{
}

/// The log of a store can be opened again, and the store that this gives
/// holds what the first one held, under the same index.
pub proof fn law_reopen(store: KvStore, reopened: Result<KvStore, KvsError>)
    requires
        store.wf(),
        KvStore::opened(store.log_view(), reopened),
    ensures
        reopened is Ok,
        reopened->Ok_0@ == store@,
        reopened->Ok_0.index_view() == store.index_view(),
        reopened->Ok_0.log_view() == store.log_view(),
{
}

/// The index of a log holds the keys that have a value and no others, and
/// each key's slot points at the record that gave the key its value.
pub proof fn law_index_points_at_values(log: Seq<u8>)
    requires
        replay(log) is Some,
    ensures
        index_of(log).dom() == contents(log).dom(),
        grounded(log, replay(log)->Some_0),
{
    lemma_replay_grounded(log, 0, Map::empty());
}

/// A `set` that succeeds makes the index point at the record that it
/// wrote, from the old end of the log to the new one, and leaves every other
/// key's slot as it was.
pub proof fn law_set_moves_slot(
    s0: KvStore,
    s1: KvStore,
    key: Seq<char>,
    val: Seq<char>,
)
    requires
        s0.wf(),
        s0.set_done(s1, key, val, Ok(())),
    ensures
        s1.index_view() == s0.index_view().insert(
            key,
            (s0.log_view().len() as u64, s1.log_view().len() as u64),
        ),
{
    let record = Record::Put(key, val);
    let frame = encoded(record)->Ok_0;
    let state = replay(s0.log_view())->Some_0;
    let start = s0.log_view().len() as int;
    lemma_replay_append(s0.log_view(), frame, record, 0, Map::empty());
    assert(spans(apply(state, record, start, start + frame.len())) =~= spans(state).insert(
        key,
        (start as u64, (start + frame.len()) as u64),
    ));
}

/// A `remove` that succeeds takes the key's slot out of the index, and
/// leaves every other key's slot as it was.
pub proof fn law_remove_frees_slot(s0: KvStore, s1: KvStore, key: Seq<char>)
    requires
        s0.wf(),
        s0.removed(s1, key, Ok(())),
    ensures
        s1.index_view() == s0.index_view().remove(key),
{
    let record = Record::Rm(key);
    let frame = encoded(record)->Ok_0;
    let state = replay(s0.log_view())->Some_0;
    let start = s0.log_view().len() as int;
    lemma_replay_append(s0.log_view(), frame, record, 0, Map::empty());
    assert(spans(apply(state, record, start, start + frame.len())) =~= spans(state).remove(key));
}

/// An append makes the log longer by the bytes of the record, or leaves it
/// as it is; what stood in the log stands there still.
pub proof fn law_log_only_grows(
    before: Seq<u8>,
    after: Seq<u8>,
    record: Record,
    answer: Result<(u64, u64), KvsError>,
)
    requires
        appended(before, after, record, answer),
    ensures
        before.len() <= after.len(),
        after.subrange(0, before.len() as int) == before,
        match answer {
            Ok((start, end)) => {
                &&& after.len() == before.len() + encoded(record)->Ok_0.len()
                &&& after.subrange(start as int, end as int) == encoded(record)->Ok_0
            },
            Err(_) => after.len() == before.len(),
        },
{
}

/// One call on a store, with its answer.
pub enum Call {
    Put { key: Seq<char>, val: Seq<char>, answer: Result<(), KvsError> },
    Get { key: Seq<char>, answer: Result<Option<String>, KvsError> },
    Remove { key: Seq<char>, answer: Result<(), KvsError> },
}

impl Call {
    /// Whether the call, made on the store `before`, can leave the store
    /// `after` and give its answer.
    pub open spec fn leads(self, before: KvStore, after: KvStore) -> bool {
        match self {
            Call::Put { key, val, answer } => before.set_done(after, key, val, answer),
            Call::Get { key, answer } => before.got(after, key, answer),
            Call::Remove { key, answer } => before.removed(after, key, answer),
        }
    }

    /// The bytes that the call writes to the log: those of its record if it
    /// is a `set` or a `remove` that succeeds, and none otherwise.
    pub open spec fn written(self) -> Seq<u8> {
        match self {
            Call::Put { key, val, answer } => if answer is Ok {
                encoded(Record::Put(key, val))->Ok_0
            } else {
                Seq::empty()
            },
            Call::Get { .. } => Seq::empty(),
            Call::Remove { key, answer } => if answer is Ok {
                encoded(Record::Rm(key))->Ok_0
            } else {
                Seq::empty()
            },
        }
    }
}

/// Whether the calls, made one after another, lead through the stores: the
/// first call is made on the first store, and each call leaves the store
/// that the next call is made on.
pub open spec fn is_run(stores: Seq<KvStore>, calls: Seq<Call>) -> bool {
    &&& stores.len() == calls.len() + 1
    &&& forall|i: int| 0 <= i < calls.len() ==> (#[trigger] calls[i]).leads(stores[i], stores[i + 1])
}

/// The bytes that the calls write, one call's bytes after another's.
pub open spec fn all_written(calls: Seq<Call>) -> Seq<u8>
    decreases calls.len(),
{
    if calls.len() == 0 {
        Seq::empty()
    } else {
        all_written(calls.drop_last()) + calls.last().written()
    }
}

/// The number of bytes that the calls write: the sum of what each writes.
pub open spec fn count_written(calls: Seq<Call>) -> nat
    decreases calls.len(),
{
    if calls.len() == 0 {
        0
    } else {
        count_written(calls.drop_last()) + calls.last().written().len()
    }
}

/// One call leaves the log it found, with what the call writes behind it.
pub proof fn law_call_appends(before: KvStore, after: KvStore, call: Call)
    requires
        call.leads(before, after),
    ensures
        after.log_view() == before.log_view() + call.written(),
        after.wf(),
{
}

/// After any calls the log is the log before them with what they wrote
/// behind it: it has grown by the lengths of their records and by nothing
/// else, and it can be replayed.
pub proof fn law_run_appends(stores: Seq<KvStore>, calls: Seq<Call>)
    requires
        is_run(stores, calls),
        stores[0].wf(),
    ensures
        stores.last().log_view() == stores[0].log_view() + all_written(calls),
        stores.last().log_view().len() == stores[0].log_view().len() + count_written(calls),
        all_written(calls).len() == count_written(calls),
        stores.last().wf(),
    decreases calls.len(),
{
    if calls.len() > 0 {
        law_run_appends(stores.drop_last(), calls.drop_last());
    }
}

/// After any calls the log of the store can be opened again, and the store
/// that this gives holds what the store held after the last call.
pub proof fn law_run_reopen(
    stores: Seq<KvStore>,
    calls: Seq<Call>,
    reopened: Result<KvStore, KvsError>,
)
    requires
        is_run(stores, calls),
        stores[0].wf(),
        KvStore::opened(stores.last().log_view(), reopened),
    ensures
        reopened is Ok,
        reopened->Ok_0@ == stores.last()@,
        reopened->Ok_0.index_view() == stores.last().index_view(),
{
    law_run_appends(stores, calls);
    law_reopen(stores.last(), reopened);
}

/// A reader that reads record after record from the first byte of a log
/// that can be replayed stops at the end of the log and nowhere before, and
/// no other log lets it get there.
pub proof fn law_scan_reaches_end(log: Seq<u8>)
    ensures
        replay(log) is Some <==> scan_end(log, 0) == log.len(),
{
    lemma_scan_end(log, 0, Map::empty());
}

proof fn lemma_scan_end(log: Seq<u8>, pos: int, state: Map<Seq<char>, Slot>)
    requires
        0 <= pos <= log.len(),
    ensures
        replay_from(log, pos, state) is Some <==> scan_end(log, pos) == log.len(),
        pos <= scan_end(log, pos) <= log.len(),
    decreases log.len() - pos,
{
    match decoded(log, pos) {
        Ok(Some((record, count))) => {
            lemma_scan_end(log, pos + count, apply(state, record, pos, pos + count));
        },
        _ => {},
    }
}

} // verus!
