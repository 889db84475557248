//! The store: the log and, beside it, an index from each live key to the
//! offsets of the record that set it.
//!
//! The log is the truth and the index is what a replay of the log gives.
//! What the store holds under a key is the value of the record that the
//! index points at.

use crate::error::{viewed, KvsError};
use crate::log::{grows_by, InDiskLogV1};
use crate::record::{decode_bson, encoded, first_record, refused, LogRecord, Record};
use crate::replay::{
    apply, contents, index_of, lemma_decoded_alone, lemma_replay_append, lemma_replay_grounded,
    replay, replay_from, spans, values, Slot,
};
use vstd::hash_map::StringHashMap;
use vstd::prelude::*;

verus! {

/// The value that the record at the start of `bytes` sets. A record that
/// sets none is an error here, as is the lack of a record.
pub open spec fn value_set_by(bytes: Seq<u8>) -> Result<Seq<char>, KvsError> {
    match first_record(bytes) {
        Ok(Record::Put(_, value)) => Ok(value),
        Ok(Record::Rm(_)) => Err(KvsError::UnexpectedRecord),
        Err(e) => Err(e),
    }
}

/// Reads the value out of the bytes that the index points at.
pub fn value_in(bytes: &[u8]) -> (res: Result<String, KvsError>)
    ensures
        viewed(res) == value_set_by(bytes@),
{
    match LogRecord::from_bytes(bytes) {
        Ok(LogRecord::Put(pair)) => Ok(pair.1),
        Ok(LogRecord::Rm(_)) => Err(KvsError::UnexpectedRecord),
        Err(e) => Err(e),
    }
}

/// The key-value store.
pub struct KvStore {
    log: InDiskLogV1,
    /// The offsets of each live key's record in the log.
    in_mem_map: StringHashMap<(u64, u64)>,
}

impl View for KvStore {
    type V = Map<Seq<char>, Seq<char>>;

    /// What the store holds: the value of each live key of its log.
    open spec fn view(&self) -> Map<Seq<char>, Seq<char>> {
        contents(self.log_view())
    }
}

impl KvStore {
    /// The bytes of the store's log.
    pub closed spec fn log_view(&self) -> Seq<u8> {
        self.log@
    }

    /// The store's index.
    pub closed spec fn index_view(&self) -> Map<Seq<char>, (u64, u64)> {
        self.in_mem_map@
    }

    /// What holds of every store: its log can be replayed, and its index is
    /// the one that belongs to the log.
    pub open spec fn wf(&self) -> bool {
        replay(self.log_view()) is Some && self.index_view() == index_of(self.log_view())
    }

    /// What `open` answers for the bytes of a log file: the store of that
    /// log if the log can be replayed, and an error if it cannot.
    pub open spec fn opened(buff: Seq<u8>, res: Result<KvStore, KvsError>) -> bool {
        match res {
            Ok(store) => replay(buff) is Some && store.wf() && store.log_view() == buff,
            Err(e) => replay(buff) is None && e == KvsError::Corrupt,
        }
    }

    /// What `set` does to a store and what it answers: the record's bytes
    /// are behind the log and the key has the value, or the record cannot
    /// be written and the log is as before.
    pub open spec fn set_done(
        self,
        after: KvStore,
        key: Seq<char>,
        val: Seq<char>,
        res: Result<(), KvsError>,
    ) -> bool {
        &&& after.wf()
        &&& match res {
            Ok(()) => {
                &&& grows_by(self.log_view(), after.log_view(), Record::Put(key, val))
                &&& after@ == self@.insert(key, val)
            },
            Err(e) => refused(Record::Put(key, val), e) && after.log_view() == self.log_view(),
        }
    }

    /// What `get` does to a store and what it answers: the store is as
    /// before, and the answer is the value of the key if it has one.
    pub open spec fn got(
        self,
        after: KvStore,
        key: Seq<char>,
        res: Result<Option<String>, KvsError>,
    ) -> bool {
        &&& after.wf()
        &&& after.log_view() == self.log_view()
        &&& match res {
            Ok(Some(val)) => self@.contains_key(key) && self@[key] == val@,
            Ok(None) => !self@.contains_key(key),
            Err(_) => false,
        }
    }

    /// What `remove` does to a store and what it answers. A key without a
    /// value is an error and leaves the log as it was. Otherwise the
    /// record's bytes are behind the log and the key has no value, or the
    /// record cannot be written and the log is as before.
    pub open spec fn removed(self, after: KvStore, key: Seq<char>, res: Result<(), KvsError>) -> bool {
        &&& after.wf()
        &&& if !self@.contains_key(key) {
            res == Err::<(), KvsError>(KvsError::KeyNotFound) && after.log_view() == self.log_view()
        } else {
            match res {
                Ok(()) => {
                    &&& grows_by(self.log_view(), after.log_view(), Record::Rm(key))
                    &&& after@ == self@.remove(key)
                },
                Err(e) => refused(Record::Rm(key), e) && after.log_view() == self.log_view(),
            }
        }
    }

    /// Builds the store from the bytes of its log file, by one replay of
    /// the log from its first byte.
    pub fn open(buff: Vec<u8>) -> (res: Result<KvStore, KvsError>)
        ensures
            KvStore::opened(buff@, res),
    {
        let mut in_mem_map: StringHashMap<(u64, u64)> = StringHashMap::new();
        let mut pos: usize = 0;
        let ghost mut state: Map<Seq<char>, Slot> = Map::empty();
        loop
            invariant
                pos <= buff.len(),
                replay(buff@) == replay_from(buff@, pos as int, state),
                in_mem_map@ == spans(state),
            ensures
                replay(buff@) == Some(state),
            decreases buff.len() - pos,
        {
            let (record, count) = match decode_bson(buff.as_slice(), pos) {
                Err(e) => { return Err(e); },
                Ok(None) => { break ; },
                Ok(Some(found)) => found,
            };
            let start: u64 = pos as u64;
            let end: u64 = (pos + count) as u64;
            proof {
                state = apply(state, record@, pos as int, pos + count);
            }
            match record {
                LogRecord::Put(pair) => {
                    in_mem_map.insert(pair.0, (start, end));
                },
                LogRecord::Rm(key) => {
                    in_mem_map.remove(key.as_str());
                },
            }
            pos = pos + count;
        }
        Ok(KvStore { log: InDiskLogV1::new(buff), in_mem_map })
    }

    /// The store's log.
    pub fn log(&self) -> (log: &InDiskLogV1)
        ensures
            log@ == self.log_view(),
    {
        &self.log
    }

    /// The offsets at which the record that gave `key` its value starts and
    /// ends in the log, as the index holds them.
    pub fn offsets(&self, key: &str) -> (res: Option<(u64, u64)>)
        ensures
            res == if self.index_view().contains_key(key@) {
                Some(self.index_view()[key@])
            } else {
                None
            },
    {
        match self.in_mem_map.get(key) {
            Some(offset) => Some(*offset),
            None => None,
        }
    }

    /// Sets the value of `key` to `val`: the record is appended to the log,
    /// and then the index points at it. A record that cannot be written
    /// leaves the store as it was.
    pub fn set(&mut self, key: String, val: String) -> (res: Result<(), KvsError>)
        requires
            old(self).wf(),
        ensures
            old(self).set_done(*final(self), key@, val@, res),
    {
        let ghost before = self.log@;
        let ghost record = Record::Put(key@, val@);
        let offset = match self.log.append_record(LogRecord::Put((key.clone(), val))) {
            Ok(offset) => offset,
            Err(e) => { return Err(e); },
        };
        self.in_mem_map.insert(key, offset);
        proof {
            let frame = encoded(record)->Ok_0;
            let state = replay(before)->Some_0;
            lemma_replay_append(before, frame, record, 0, Map::empty());
            let next = apply(state, record, before.len() as int, (before.len() + frame.len()) as int);
            assert(spans(next) =~= spans(state).insert(key@, offset));
            assert(values(next) =~= values(state).insert(key@, val@));
        }
        Ok(())
    }

    /// Looks up the value of `key`: the index gives the offsets of a record,
    /// the log gives the bytes between them, and the record read from these
    /// bytes gives the value.
    pub fn get(&mut self, key: String) -> (res: Result<Option<String>, KvsError>)
        requires
            old(self).wf(),
        ensures
            old(self).got(*final(self), key@, res),
    {
        let ghost state = replay(self.log@)->Some_0;
        let offset = match self.offsets(key.as_str()) {
            Some(offset) => offset,
            None => { return Ok(None); },
        };
        proof {
            lemma_replay_grounded(self.log@, 0, Map::empty());
            self.log.lemma_len_fits();
        }
        let buffer = self.log.get(offset.0, offset.1);
        proof {
            lemma_decoded_alone(
                self.log@,
                state[key@].start,
                state[key@].end,
                Record::Put(key@, state[key@].value),
            );
        }
        match value_in(buffer.as_slice()) {
            Ok(value) => Ok(Some(value)),
            Err(e) => Err(e),
        }
    }

    /// Removes `key`: the record is appended to the log, and then the index
    /// lets go of the key. A key that the index does not hold is an error,
    /// and nothing is written.
    pub fn remove(&mut self, key: String) -> (res: Result<(), KvsError>)
        requires
            old(self).wf(),
        ensures
            old(self).removed(*final(self), key@, res),
    {
        let ghost before = self.log@;
        let ghost record = Record::Rm(key@);
        if !self.in_mem_map.contains_key(key.as_str()) {
            return Err(KvsError::KeyNotFound);
        }
        match self.log.rm(key.as_str()) {
            Ok(()) => {},
            Err(e) => { return Err(e); },
        }
        self.in_mem_map.remove(key.as_str());
        proof {
            let frame = encoded(record)->Ok_0;
            let state = replay(before)->Some_0;
            lemma_replay_append(before, frame, record, 0, Map::empty());
            let next = apply(state, record, before.len() as int, (before.len() + frame.len()) as int);
            assert(spans(next) =~= spans(state).remove(key@));
            assert(values(next) =~= values(state).remove(key@));
        }
        Ok(())
    }
}

} // verus!
