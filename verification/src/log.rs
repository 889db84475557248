//! The log: bytes that only ever grow, one record's bytes after another.
//!
//! The log held here is the image of the log file. Whoever owns the file
//! hands its bytes in and writes out what an append added to them.

use crate::error::KvsError;
use crate::record::{encoded, refused, LogRecord, Record};
use vstd::prelude::*;
use vstd::slice::{slice_subrange, slice_to_vec};

verus! {

/// The bytes of `log` from `start` up to `end`, as far as the log reaches.
pub open spec fn range_of(log: Seq<u8>, start: int, end: int) -> Seq<u8> {
    let len = log.len() as int;
    log.subrange(if start < len { start } else { len }, if end < len { end } else { len })
}

/// Whether `after` is the log `before` with the bytes of `record` behind
/// it.
pub open spec fn grows_by(before: Seq<u8>, after: Seq<u8>, record: Record) -> bool {
    encoded(record) is Ok && after == before + encoded(record)->Ok_0
}

/// What an append of `record` does to a log and what it answers: the
/// record's bytes stand at the end of the log and the answer is where, or
/// the record cannot be written and the log is as before.
pub open spec fn appended(
    before: Seq<u8>,
    after: Seq<u8>,
    record: Record,
    res: Result<(u64, u64), KvsError>,
) -> bool {
    match res {
        Ok((start, end)) => grows_by(before, after, record) && start == before.len() && end
            == after.len(),
        Err(e) => refused(record, e) && after == before,
    }
}

/// Reads the bytes of `log` from offset `start` up to offset `end`. Where
/// the log ends before `end`, the bytes up to its end are given.
pub fn read_with_offset(log: &[u8], start: u64, end: u64) -> (out: Vec<u8>)
    requires
        start <= end,
    ensures
        out@ == range_of(log@, start as int, end as int),
{
    let len: usize = log.len();
    let from: usize = if start < len as u64 { start as usize } else { len };
    let to: usize = if end < len as u64 { end as usize } else { len };
    slice_to_vec(slice_subrange(log, from, to))
}

/// The version-1 log of the store.
pub struct InDiskLogV1 {
    bytes: Vec<u8>,
}

impl View for InDiskLogV1 {
    type V = Seq<u8>;

    closed spec fn view(&self) -> Seq<u8> {
        self.bytes@
    }
}

impl InDiskLogV1 {
    /// The log whose file holds `bytes`.
    pub fn new(bytes: Vec<u8>) -> (log: InDiskLogV1)
        ensures
            log@ == bytes@,
    {
        InDiskLogV1 { bytes }
    }

    /// The bytes of the log.
    pub fn bytes(&self) -> (bytes: &Vec<u8>)
        ensures
            bytes@ == self@,
    {
        &self.bytes
    }

    /// The number of bytes in the log.
    pub fn len(&self) -> (len: u64)
        ensures
            len == self@.len(),
    {
        self.bytes.len() as u64
    }

    /// A log is no longer than a machine can count.
    pub proof fn lemma_len_fits(&self)
        ensures
            self@.len() <= usize::MAX,
    {
        assert(self.bytes@.len() == self.bytes.len());
    }

    /// Appends a record that sets `key` to `val`, and gives the offsets at
    /// which the record's bytes start and end.
    pub fn set(&mut self, key: &str, val: &str) -> (res: Result<(u64, u64), KvsError>)
        ensures
            appended(old(self)@, final(self)@, Record::Put(key@, val@), res),
    {
        self.append_record(LogRecord::Put((key.to_owned(), val.to_owned())))
    }

    /// Appends a record that removes `key`.
    pub fn rm(&mut self, key: &str) -> (res: Result<(), KvsError>)
        ensures
            match res {
                Ok(()) => grows_by(old(self)@, final(self)@, Record::Rm(key@)),
                Err(e) => refused(Record::Rm(key@), e) && final(self)@ == old(self)@,
            },
    {
        match self.append_record(LogRecord::Rm(key.to_owned())) {
            Ok(_) => Ok(()),
            Err(e) => Err(e),
        }
    }

    /// Appends the bytes of `record` to the log, and gives the offsets at
    /// which they start and end. A record that cannot be written leaves the
    /// log as it was.
    pub fn append_record(&mut self, record: LogRecord) -> (res: Result<(u64, u64), KvsError>)
        ensures
            appended(old(self)@, final(self)@, record@, res),
    {
        let offset: u64 = self.bytes.len() as u64;
        let mut bytes = match record.to_bytes() {
            Ok(bytes) => bytes,
            Err(e) => { return Err(e); },
        };
        self.bytes.append(&mut bytes);
        Ok((offset, self.bytes.len() as u64))
    }

    /// Reads the bytes from offset `start` up to offset `end`.
    pub fn get(&mut self, start: u64, end: u64) -> (out: Vec<u8>)
        requires
            start <= end,
        ensures
            out@ == range_of(old(self)@, start as int, end as int),
            final(self)@ == old(self)@,
    {
        read_with_offset(self.bytes.as_slice(), start, end)
    }
}

} // verus!
