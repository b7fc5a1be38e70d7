//! A record at hand: its header and its bytes, with the fields decoded on
//! demand.

use crate::error::DbError;
use crate::record::record_field::RecordField;
use crate::record::record_field_type::field_value;
use crate::record::record_header::RecordHeader;
use crate::value::{Value, ValueView};
use vstd::prelude::*;

verus! {

/// One record: the parsed header and the bytes of the whole record, header
/// included, which the field offsets count from.
#[derive(Debug)]
pub struct Cursor {
    pub header: RecordHeader,
    pub payload: Vec<u8>,
}

/// What a [`Cursor`] holds, as mathematical data: the fields of the record's
/// header and the bytes of the record.
pub struct CursorView {
    pub fields: Seq<RecordField>,
    pub payload: Seq<u8>,
}

impl View for Cursor {
    type V = CursorView;

    open spec fn view(&self) -> CursorView {
        CursorView { fields: self.header.fields@, payload: self.payload@ }
    }
}

impl Cursor {
    /// What decoding field `n` yields: nothing where the record has no field
    /// `n`, else the value of the field or the error of its decoding.
    pub open spec fn field_spec(&self, n: int) -> Option<Result<ValueView, DbError>> {
        if 0 <= n < self.header.fields@.len() {
            Some(
                field_value(
                    self.header.fields@[n].field_type,
                    self.payload@,
                    self.header.fields@[n].offset as int,
                ),
            )
        } else {
            None
        }
    }

    /// A cursor on the record with the given header and bytes.
    pub fn new(header: RecordHeader, payload: Vec<u8>) -> (res: Self)
        ensures
            res.header == header,
            res.payload == payload,
    {
        Self { header, payload }
    }

    /// Decodes field `n`: `None` where the record has no field `n`, else the
    /// value, or [`DbError::InvalidUtf8`] for a text that is not valid UTF-8.
    pub fn try_field(&self, n: usize) -> (res: Option<Result<Value<'_>, DbError>>)
        ensures
            match self.field_spec(n as int) {
                None => res is None,
                Some(Ok(view)) => res matches Some(Ok(value)) && value@ == view,
                Some(Err(e)) => res matches Some(Err(err)) && err == e,
            },
    {
        if n < self.header.fields.len() {
            let record_field = &self.header.fields[n];
            Some(record_field.field_type.try_value(self.payload.as_slice(), record_field.offset))
        } else {
            None
        }
    }

    /// The value of field `n`: `None` where the record has no field `n` or
    /// the field is a text that is not valid UTF-8.
    pub fn field(&self, n: usize) -> (res: Option<Value<'_>>)
        ensures
            match self.field_spec(n as int) {
                Some(Ok(view)) => res matches Some(value) && value@ == view,
                _ => res is None,
            },
    {
        match self.try_field(n) {
            Some(Ok(value)) => Some(value),
            _ => None,
        }
    }
}

} // verus!
