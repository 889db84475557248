//! Records and their bytes.
//!
//! A record is written as one document of one field: the field's name says
//! which record it is, its value holds the record's strings. The bytes of a
//! document begin with their own count, so a reader that stands at the start
//! of a record knows where the record ends before it reads it.

use crate::document::{
    answer_model, decode_document, decoded_document, document_bytes, encode_document,
    fields_model, text_fits, Field, FieldModel, Value, ValueModel, MAX_TEXT_BYTES,
};
use crate::error::{viewed, KvsError};
use vstd::prelude::*;
use vstd::slice::slice_subrange;

verus! {

/// One entry of the log.
#[derive(Debug, PartialEq, Eq)]
pub enum LogRecord {
    /// The key now has the value.
    Put((String, String)),
    /// The key has no value any more.
    Rm(String),
}

/// What a [`LogRecord`] stands for.
pub enum Record {
    Put(Seq<char>, Seq<char>),
    Rm(Seq<char>),
}

impl View for LogRecord {
    type V = Record;

    open spec fn view(&self) -> Record {
        match self {
            LogRecord::Put(pair) => Record::Put(pair.0@, pair.1@),
            LogRecord::Rm(key) => Record::Rm(key@),
        }
    }
}

/// The name of the field that holds a `Put` record.
pub open spec fn set_name() -> Seq<char> {
    "Set"@
}

/// The name of the field that holds a `Rm` record.
pub open spec fn rm_name() -> Seq<char> {
    "Rm"@
}

impl Record {
    /// The name of the record's field.
    pub open spec fn name(self) -> Seq<char> {
        match self {
            Record::Put(_, _) => set_name(),
            Record::Rm(_) => rm_name(),
        }
    }

    /// The value of the record's field: key and value as an array of two
    /// strings for a `Put`, the key as a string for a `Rm`.
    pub open spec fn value(self) -> ValueModel {
        match self {
            Record::Put(key, val) => ValueModel::List(seq![Some(key), Some(val)]),
            Record::Rm(key) => ValueModel::Text(key),
        }
    }

    /// The field that the record is written as.
    pub open spec fn field(self) -> FieldModel {
        FieldModel { name: self.name(), value: self.value() }
    }

    /// Whether each string of the record is short enough to be written.
    pub open spec fn fits(self) -> bool {
        match self {
            Record::Put(key, val) => text_fits(key) && text_fits(val),
            Record::Rm(key) => text_fits(key),
        }
    }
}

/// The record that the fields of a document hold, if they hold one: exactly
/// one field, named and shaped as [`Record::name`] and [`Record::value`] say.
pub open spec fn record_of_fields(fields: Seq<FieldModel>) -> Option<Record> {
    if fields.len() != 1 {
        None
    } else if fields[0].name == set_name() {
        match fields[0].value {
            ValueModel::List(items) => if items.len() == 2 && items[0] is Some && items[1] is Some {
                Some(Record::Put(items[0]->Some_0, items[1]->Some_0))
            } else {
                None
            },
            _ => None,
        }
    } else if fields[0].name == rm_name() {
        match fields[0].value {
            ValueModel::Text(key) => Some(Record::Rm(key)),
            _ => None,
        }
    } else {
        None
    }
}

/// The shortest run of bytes that can be a document: its count and its end.
pub const MIN_FRAME_BYTES: usize = 5;

/// The number that the four bytes from `pos` on stand for, lowest byte
/// first.
pub open spec fn count_at(bytes: Seq<u8>, pos: int) -> int {
    bytes[pos] + 0x100 * bytes[pos + 1] + 0x1_0000 * bytes[pos + 2] + 0x100_0000 * bytes[pos + 3]
}

/// The length of the frame that starts at `pos`: the count that its first
/// four bytes give, if the bytes from `pos` on are at least that many.
pub open spec fn frame_len(bytes: Seq<u8>, pos: int) -> Option<int> {
    if 0 <= pos && pos + 4 <= bytes.len() {
        let count = count_at(bytes, pos);
        if MIN_FRAME_BYTES <= count && pos + count <= bytes.len() {
            Some(count)
        } else {
            None
        }
    } else {
        None
    }
}

/// The record in what the decoder gave for a frame of `count` bytes: the
/// decoder read a document that took the whole frame, and the fields of the
/// document are a record's.
pub open spec fn record_of_answer(count: nat, answer: Option<(Seq<FieldModel>, nat)>) -> Option<
    Record,
> {
    match answer {
        Some((fields, taken)) => if taken == count {
            record_of_fields(fields)
        } else {
            None
        },
        None => None,
    }
}

/// The record that `frame` is the bytes of.
pub open spec fn record_of_frame(frame: Seq<u8>) -> Option<Record> {
    record_of_answer(frame.len(), decoded_document(frame))
}

/// The answer of a reader that found `record` in `count` bytes.
pub open spec fn found(record: Record, count: nat) -> Result<Option<(Record, nat)>, KvsError> {
    Ok(Some((record, count)))
}

/// What reading one record at `pos` gives: nothing where the bytes end, the
/// record and the number of its bytes where a whole record stands, and an
/// error where neither is so.
pub open spec fn decoded(bytes: Seq<u8>, pos: int) -> Result<Option<(Record, nat)>, KvsError> {
    if pos == bytes.len() {
        Ok(None)
    } else {
        match frame_len(bytes, pos) {
            None => Err(KvsError::Corrupt),
            Some(count) => match record_of_frame(bytes.subrange(pos, pos + count)) {
                None => Err(KvsError::Corrupt),
                Some(record) => found(record, count as nat),
            },
        }
    }
}

/// The record that `bytes` begin with; that there are no bytes is an error
/// here.
pub open spec fn first_record(bytes: Seq<u8>) -> Result<Record, KvsError> {
    match decoded(bytes, 0) {
        Ok(Some((record, _))) => Ok(record),
        Ok(None) => Err(KvsError::EndOfBytes),
        Err(e) => Err(e),
    }
}

/// Whether `bytes` read back as `record` and nothing else.
pub open spec fn reads_as(bytes: Seq<u8>, record: Record) -> bool {
    decoded(bytes, 0) == found(record, bytes.len())
}

/// What writing a record gives: its bytes, provided that its strings fit,
/// that the encoder gives bytes, and that these bytes read back as the
/// record and nothing else.
pub open spec fn encoded(record: Record) -> Result<Seq<u8>, KvsError> {
    if !record.fits() {
        Err(KvsError::TooLarge)
    } else {
        match document_bytes(record.name(), record.value()) {
            None => Err(KvsError::Encode),
            Some(bytes) => if reads_as(bytes, record) {
                Ok(bytes)
            } else {
                Err(KvsError::Encode)
            },
        }
    }
}

/// Whether `record` cannot be written, for the reason `e`.
pub open spec fn refused(record: Record, e: KvsError) -> bool {
    encoded(record) == Err::<Seq<u8>, KvsError>(e)
}

/// What a record that may be there stands for.
pub open spec fn record_model(res: Option<LogRecord>) -> Option<Record> {
    match res {
        Some(record) => Some(record@),
        None => None,
    }
}

/// What the answer of [`decode_bson`] stands for.
pub open spec fn read_model(res: Result<Option<(LogRecord, usize)>, KvsError>) -> Result<
    Option<(Record, nat)>,
    KvsError,
> {
    match res {
        Ok(Some((record, count))) => found(record@, count as nat),
        Ok(None) => Ok(None),
        Err(e) => Err(e),
    }
}

/// The two field names differ.
pub proof fn lemma_names_differ()
    ensures
        set_name() != rm_name(),
{
    reveal_strlit("Set");
    reveal_strlit("Rm");
    assert(set_name().len() == 3 && rm_name().len() == 2);
}

/// Reads the record out of the fields of a document.
pub fn record_of(fields: Vec<Field>) -> (res: Option<LogRecord>)
    ensures
        record_model(res) == record_of_fields(fields_model(fields@)),
{
    let mut fields = fields;
    if fields.len() != 1 {
        return None;
    }
    let Field { name, value } = fields.pop().unwrap();
    if name == "Set".to_owned() {
        match value {
            Value::List(items) => {
                let mut items = items;
                if items.len() == 2 {
                    let val = items.pop().unwrap();
                    let key = items.pop().unwrap();
                    match (key, val) {
                        (Some(key), Some(val)) => Some(LogRecord::Put((key, val))),
                        _ => None,
                    }
                } else {
                    None
                }
            },
            _ => None,
        }
    } else if name == "Rm".to_owned() {
        match value {
            Value::Text(key) => Some(LogRecord::Rm(key)),
            _ => None,
        }
    } else {
        None
    }
}

/// Reads the record out of what the decoder gave for a frame of `count`
/// bytes: the fields of a document and the number of bytes it took, or
/// nothing.
pub fn record_from(count: usize, answer: Option<(Vec<Field>, usize)>) -> (res: Option<LogRecord>)
    ensures
        record_model(res) == record_of_answer(count as nat, answer_model(answer)),
{
    match answer {
        Some((fields, taken)) => if taken == count {
            record_of(fields)
        } else {
            None
        },
        None => None,
    }
}

/// Measures the frame that starts at `pos`.
pub fn frame_at(bytes: &[u8], pos: usize) -> (res: Option<usize>)
    ensures
        match res {
            Some(count) => frame_len(bytes@, pos as int) == Some(count as int),
            None => frame_len(bytes@, pos as int) is None,
        },
{
    if pos > bytes.len() || bytes.len() - pos < 4 {
        return None;
    }
    let low: u32 = bytes[pos] as u32 + 0x100 * (bytes[pos + 1] as u32);
    let high: u32 = bytes[pos + 2] as u32 + 0x100 * (bytes[pos + 3] as u32);
    let count: usize = (low + 0x1_0000 * high) as usize;
    if MIN_FRAME_BYTES <= count && count <= bytes.len() - pos {
        Some(count)
    } else {
        None
    }
}

/// Reads one record from `bytes` at `pos`: `None` where the bytes end, the
/// record and the number of bytes it takes where one stands.
pub fn decode_bson(bytes: &[u8], pos: usize) -> (res: Result<Option<(LogRecord, usize)>, KvsError>)
    ensures
        read_model(res) == decoded(bytes@, pos as int),
{
    if pos == bytes.len() {
        return Ok(None);
    }
    let count: usize = match frame_at(bytes, pos) {
        Some(count) => count,
        None => { return Err(KvsError::Corrupt); },
    };
    let answer = match decode_document(slice_subrange(bytes, pos, pos + count)) {
        Ok(answer) => Some(answer),
        Err(_) => None,
    };
    match record_from(count, answer) {
        Some(record) => Ok(Some((record, count))),
        None => Err(KvsError::Corrupt),
    }
}

impl LogRecord {
    /// Whether two records stand for the same.
    pub fn same_as(&self, other: &LogRecord) -> (same: bool)
        ensures
            same == (self@ == other@),
    {
        match (self, other) {
            (LogRecord::Put(a), LogRecord::Put(b)) => a.0 == b.0 && a.1 == b.1,
            (LogRecord::Rm(a), LogRecord::Rm(b)) => *a == *b,
            _ => false,
        }
    }

    /// Whether each string of the record is short enough to be written.
    pub fn fits(&self) -> (fits: bool)
        ensures
            fits == self@.fits(),
    {
        match self {
            LogRecord::Put(pair) => pair.0.as_str().as_bytes().len() <= MAX_TEXT_BYTES
                && pair.1.as_str().as_bytes().len() <= MAX_TEXT_BYTES,
            LogRecord::Rm(key) => key.as_str().as_bytes().len() <= MAX_TEXT_BYTES,
        }
    }

    /// The field that the record is written as.
    pub fn to_field(&self) -> (field: Field)
        ensures
            field@ == self@.field(),
    {
        match self {
            LogRecord::Put(pair) => {
                let mut items: Vec<Option<String>> = Vec::new();
                items.push(Some(pair.0.clone()));
                items.push(Some(pair.1.clone()));
                assert(items.deep_view() =~= seq![Some(pair.0@), Some(pair.1@)]);
                Field { name: "Set".to_owned(), value: Value::List(items) }
            },
            LogRecord::Rm(key) => Field { name: "Rm".to_owned(), value: Value::Text(key.clone()) },
        }
    }

    /// Whether `bytes` read back as this record and nothing else.
    pub fn reads_back(&self, bytes: &[u8]) -> (same: bool)
        ensures
            same == reads_as(bytes@, self@),
    {
        match decode_bson(bytes, 0) {
            Ok(Some((record, count))) => count == bytes.len() && self.same_as(&record),
            _ => false,
        }
    }

    /// Takes `bytes` as the bytes of this record if they read back as the
    /// record and nothing else, and refuses them if they do not.
    pub fn accept(&self, bytes: Vec<u8>) -> (res: Result<Vec<u8>, KvsError>)
        ensures
            viewed(res) == if reads_as(bytes@, self@) {
                Ok::<Seq<u8>, KvsError>(bytes@)
            } else {
                Err::<Seq<u8>, KvsError>(KvsError::Encode)
            },
    {
        if self.reads_back(bytes.as_slice()) {
            Ok(bytes)
        } else {
            Err(KvsError::Encode)
        }
    }

    /// The bytes of the record. They are read back before they are handed
    /// out, so that what is written to a log can be recovered from it.
    pub fn to_bytes(&self) -> (res: Result<Vec<u8>, KvsError>)
        ensures
            viewed(res) == encoded(self@),
    {
        if !self.fits() {
            return Err(KvsError::TooLarge);
        }
        let field = self.to_field();
        match encode_document(field.name.as_str(), &field.value) {
            Err(_) => Err(KvsError::Encode),
            Ok(bytes) => self.accept(bytes),
        }
    }

    /// Reads the record that `bytes` begin with.
    pub fn from_bytes(bytes: &[u8]) -> (res: Result<LogRecord, KvsError>)
        ensures
            viewed(res) == first_record(bytes@),
    {
        match decode_bson(bytes, 0) {
            Ok(Some((record, _))) => Ok(record),
            Ok(None) => Err(KvsError::EndOfBytes),
            Err(e) => Err(e),
        }
    }
}

} // verus!
