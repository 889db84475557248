//! Documents as the log reads and writes them.
//!
//! A record is stored as one BSON document. The `bson` crate does the
//! encoding and decoding; this module gives a document the shape of plain
//! values and holds the two calls into the crate.

use vstd::prelude::*;
use vstd::utf8::encode_utf8;

verus! {

/// The value of one field, as far as a record tells values apart.
#[derive(Debug, PartialEq, Eq)]
pub enum Value {
    /// A string.
    Text(String),
    /// An array: of each element the string, if the element is one.
    List(Vec<Option<String>>),
    /// Any other value.
    Other,
}

/// What a [`Value`] stands for.
pub enum ValueModel {
    Text(Seq<char>),
    List(Seq<Option<Seq<char>>>),
    Other,
}

impl View for Value {
    type V = ValueModel;

    open spec fn view(&self) -> ValueModel {
        match self {
            Value::Text(text) => ValueModel::Text(text@),
            Value::List(items) => ValueModel::List(items.deep_view()),
            Value::Other => ValueModel::Other,
        }
    }
}

/// One named field of a document.
#[derive(Debug, PartialEq, Eq)]
pub struct Field {
    pub name: String,
    pub value: Value,
}

/// What a [`Field`] stands for.
pub struct FieldModel {
    pub name: Seq<char>,
    pub value: ValueModel,
}

impl View for Field {
    type V = FieldModel;

    open spec fn view(&self) -> FieldModel {
        FieldModel { name: self.name@, value: self.value@ }
    }
}

/// The fields of a document, each by what it stands for.
pub open spec fn fields_model(fields: Seq<Field>) -> Seq<FieldModel> {
    Seq::new(fields.len(), |i: int| fields[i]@)
}

/// What a decoder's answer stands for: the fields of a document and the
/// number of bytes that the document took, or nothing.
pub open spec fn answer_model(answer: Option<(Vec<Field>, usize)>) -> Option<
    (Seq<FieldModel>, nat),
> {
    match answer {
        Some((fields, taken)) => Some((fields_model(fields@), taken as nat)),
        None => None,
    }
}

/// The longest string, in bytes of UTF-8, that a document can hold: one more
/// byte and the length written before the string no longer fits its 32 bits.
pub const MAX_TEXT_BYTES: usize = 0x7fff_fffe;

/// Whether a string is short enough for a document.
pub open spec fn text_fits(text: Seq<char>) -> bool {
    encode_utf8(text).len() <= MAX_TEXT_BYTES
}

/// Whether every string of a value is short enough for a document.
pub open spec fn value_fits(value: ValueModel) -> bool {
    match value {
        ValueModel::Text(text) => text_fits(text),
        ValueModel::List(items) => forall|i: int|
            0 <= i < items.len() ==> (#[trigger] items[i] matches Some(text) ==> text_fits(text)),
        ValueModel::Other => true,
    }
}

/// The bytes of the document that holds the one field `name` with `value`,
/// or `None` where the encoder reports an error.
pub uninterp spec fn document_bytes(name: Seq<char>, value: ValueModel) -> Option<Seq<u8>>;

/// The document that `frame` starts with and the number of bytes it takes,
/// or `None` where the decoder reports an error.
pub uninterp spec fn decoded_document(frame: Seq<u8>) -> Option<(Seq<FieldModel>, nat)>;

/// The error of `bson::encode_document`. Nothing is known of what it holds.
#[verifier::external_type_specification]
#[verifier::external_body]
pub struct ExEncoderError(bson::EncoderError);

/// The error of `bson::decode_document`. Nothing is known of what it holds.
#[verifier::external_type_specification]
#[verifier::external_body]
pub struct ExDecoderError(bson::DecoderError);

/// Calls `bson::encode_document` on the document that holds the one field
/// `name` with `value`, and gives the bytes that the call wrote.
///
/// Believed, not proved: what the call gives depends on the field alone, so
/// that it has a name, [`document_bytes`]. Nothing is said of the bytes. An
/// element of a list that is no string is written as a null, and so is a
/// value that is neither a string nor a list. A string longer than
/// [`MAX_TEXT_BYTES`] is kept out: the encoder adds one to the length of a
/// string as a 32-bit number.
#[verifier::external_body]
pub(crate) fn encode_document(name: &str, value: &Value) -> (res: Result<Vec<u8>, bson::EncoderError>)
    requires
        value_fits(value@),
    ensures
        match res {
            Ok(bytes) => document_bytes(name@, value@) == Some(bytes@),
            Err(_) => document_bytes(name@, value@) is None,
        },
{
    let mut doc = bson::Document::new();
    doc.insert(name, match value {
        Value::Text(text) => bson::Bson::String(text.clone()),
        Value::List(items) => bson::Bson::Array(items.iter().map(|item| match item {
            Some(text) => bson::Bson::String(text.clone()),
            None => bson::Bson::Null,
        }).collect()),
        Value::Other => bson::Bson::Null,
    });
    let mut bytes = Vec::new();
    bson::encode_document(&mut bytes, &doc)?;
    Ok(bytes)
}

/// Calls `bson::decode_document` on `frame`, read from its first byte, and
/// gives the fields of the document in the decoder's order, with the number
/// of bytes that the decoder took.
///
/// Believed, not proved: what the call gives depends on the bytes alone, so
/// that it has a name, [`decoded_document`]. Nothing is said of the fields. A
/// string comes back as `Text`, an array as `List` with each element that is
/// a string, any other value as `Other`. The decoder is taken to come back
/// from the call: it calls itself for a value that lies in a value, and it
/// asks for the memory that the length before a string names.
#[verifier::external_body]
pub(crate) fn decode_document(frame: &[u8]) -> (res: Result<(Vec<Field>, usize), bson::DecoderError>)
    ensures
        match res {
            Ok((fields, taken)) => decoded_document(frame@) == Some((fields_model(fields@), taken as nat)),
            Err(_) => decoded_document(frame@) is None,
        },
{
    let mut cursor = std::io::Cursor::new(frame);
    let doc = bson::decode_document(&mut cursor)?;
    let fields = doc.into_iter().map(|(name, value)| Field { name, value: match value {
        bson::Bson::String(text) => Value::Text(text),
        bson::Bson::Array(items) => Value::List(
            items.iter().map(|item| item.as_str().map(str::to_owned)).collect()),
        _ => Value::Other,
    } }).collect();
    Ok((fields, cursor.position() as usize))
}

} // verus!
