//! The types that the fields of a record can have, and their decoding.

use crate::error::DbError;
use crate::utils::{
    float_bits_at, read_f64_bits_at, read_i16_at, read_i24_at, read_i32_at, read_i48_at,
    read_i64_at, read_i8_at, signed_at,
};
use crate::value::{Value, ValueView};
use vstd::prelude::*;
use vstd::slice::slice_subrange;
use vstd::utf8::{decode_utf8, valid_utf8};

verus! {

/// The type of a field, as the serial type in a record header gives it. Text
/// and blobs carry their length in bytes.
#[derive(Debug, Copy, Clone, PartialEq)]
pub enum RecordFieldType {
    Null,
    I8,
    I16,
    I24,
    I32,
    I48,
    I64,
    Float,
    /// The integer 0, with no bytes of its own.
    Zero,
    /// The integer 1, with no bytes of its own.
    One,
    String(usize),
    Blob(usize),
}

/// The field type that a serial type stands for.
///
/// `0` to `9` stand for the fixed types. From `12` on, an even serial type
/// `n` stands for a blob of `(n - 12) / 2` bytes and an odd one for a text of
/// `(n - 13) / 2` bytes. `10`, `11` and the negative numbers stand for
/// nothing, nor does a length that no `usize` holds.
pub open spec fn field_type_of(discriminant: i64) -> Result<RecordFieldType, DbError> {
    if discriminant == 0 {
        Ok(RecordFieldType::Null)
    } else if discriminant == 1 {
        Ok(RecordFieldType::I8)
    } else if discriminant == 2 {
        Ok(RecordFieldType::I16)
    } else if discriminant == 3 {
        Ok(RecordFieldType::I24)
    } else if discriminant == 4 {
        Ok(RecordFieldType::I32)
    } else if discriminant == 5 {
        Ok(RecordFieldType::I48)
    } else if discriminant == 6 {
        Ok(RecordFieldType::I64)
    } else if discriminant == 7 {
        Ok(RecordFieldType::Float)
    } else if discriminant == 8 {
        Ok(RecordFieldType::Zero)
    } else if discriminant == 9 {
        Ok(RecordFieldType::One)
    } else if discriminant >= 12 && (discriminant - 12) / 2 <= usize::MAX {
        if discriminant % 2 == 0 {
            Ok(RecordFieldType::Blob(((discriminant - 12) / 2) as usize))
        } else {
            Ok(RecordFieldType::String(((discriminant - 13) / 2) as usize))
        }
    } else {
        Err(DbError::UnsupportedSerialType(discriminant))
    }
}

/// The bytes of a field of `length` bytes at `offset`, as far as the payload
/// holds them.
pub open spec fn field_bytes(payload: Seq<u8>, offset: int, length: int) -> Seq<u8> {
    let start = if offset <= payload.len() {
        offset
    } else {
        payload.len() as int
    };
    let end = if offset + length <= payload.len() {
        offset + length
    } else {
        payload.len() as int
    };
    payload.subrange(start, end)
}

/// The value of a field of type `field_type` whose bytes begin at `offset`
/// in `payload`.
///
/// The integer types read their width, big-endian and signed; `Zero` and
/// `One` are the integers 0 and 1; a blob is its bytes; a text is its bytes
/// decoded as UTF-8, and an error where they are not valid UTF-8.
pub open spec fn field_value(field_type: RecordFieldType, payload: Seq<u8>, offset: int) -> Result<
    ValueView,
    DbError,
> {
    match field_type {
        RecordFieldType::Null => Ok(ValueView::Null),
        RecordFieldType::I8 => Ok(ValueView::Int(signed_at(payload, offset, 1) as i64)),
        RecordFieldType::I16 => Ok(ValueView::Int(signed_at(payload, offset, 2) as i64)),
        RecordFieldType::I24 => Ok(ValueView::Int(signed_at(payload, offset, 3) as i64)),
        RecordFieldType::I32 => Ok(ValueView::Int(signed_at(payload, offset, 4) as i64)),
        RecordFieldType::I48 => Ok(ValueView::Int(signed_at(payload, offset, 6) as i64)),
        RecordFieldType::I64 => Ok(ValueView::Int(signed_at(payload, offset, 8) as i64)),
        RecordFieldType::Float => Ok(ValueView::Float(float_bits_at(payload, offset))),
        RecordFieldType::Zero => Ok(ValueView::Int(0)),
        RecordFieldType::One => Ok(ValueView::Int(1)),
        RecordFieldType::Blob(length) => Ok(
            ValueView::Blob(field_bytes(payload, offset, length as int)),
        ),
        RecordFieldType::String(length) => {
            let bytes = field_bytes(payload, offset, length as int);
            if valid_utf8(bytes) {
                Ok(ValueView::Text(decode_utf8(bytes)))
            } else {
                Err(DbError::InvalidUtf8)
            }
        },
    }
}

/// Calls `core::str::from_utf8` of the standard library, which checks that
/// the bytes are UTF-8 and, if so, hands them back as a `str`.
///
/// Trusted: the result is `Some` exactly for valid UTF-8, and the text is
/// then the decoding of the bytes.
#[verifier::external_body]
fn str_from_utf8(bytes: &[u8]) -> (res: Option<&str>)
    ensures
        res is Some <==> valid_utf8(bytes@),
        res matches Some(text) ==> text@ == decode_utf8(bytes@),
{
    match core::str::from_utf8(bytes) {
        Ok(text) => Some(text),
        Err(_) => None,
    }
}

/// The bytes of a field of `length` bytes at `offset`, as far as the payload
/// holds them.
fn slice_field_bytes(payload: &[u8], offset: usize, length: usize) -> (res: &[u8])
    ensures
        res@ == field_bytes(payload@, offset as int, length as int),
{
    let len: usize = payload.len();
    let start: usize = if offset <= len {
        offset
    } else {
        len
    };
    let end: usize = if length <= len - start {
        start + length
    } else {
        len
    };
    slice_subrange(payload, start, end)
}

impl RecordFieldType {
    /// The number of bytes that a field of this type takes in the payload.
    pub open spec fn spec_size(self) -> usize {
        match self {
            RecordFieldType::Null => 0,
            RecordFieldType::I8 => 1,
            RecordFieldType::I16 => 2,
            RecordFieldType::I24 => 3,
            RecordFieldType::I32 => 4,
            RecordFieldType::I48 => 6,
            RecordFieldType::I64 => 8,
            RecordFieldType::Float => 8,
            RecordFieldType::Zero => 0,
            RecordFieldType::One => 0,
            RecordFieldType::Blob(length) => length,
            RecordFieldType::String(length) => length,
        }
    }

    /// The field type that the serial type `discriminant` stands for.
    ///
    /// Fails with [`DbError::UnsupportedSerialType`] on `10`, on `11`, on a
    /// negative number, and on a length that no `usize` holds.
    pub fn parse(discriminant: i64) -> (res: Result<RecordFieldType, DbError>)
        ensures
            res == field_type_of(discriminant),
    {
        if discriminant == 0 {
            Ok(RecordFieldType::Null)
        } else if discriminant == 1 {
            Ok(RecordFieldType::I8)
        } else if discriminant == 2 {
            Ok(RecordFieldType::I16)
        } else if discriminant == 3 {
            Ok(RecordFieldType::I24)
        } else if discriminant == 4 {
            Ok(RecordFieldType::I32)
        } else if discriminant == 5 {
            Ok(RecordFieldType::I48)
        } else if discriminant == 6 {
            Ok(RecordFieldType::I64)
        } else if discriminant == 7 {
            Ok(RecordFieldType::Float)
        } else if discriminant == 8 {
            Ok(RecordFieldType::Zero)
        } else if discriminant == 9 {
            Ok(RecordFieldType::One)
        } else if discriminant >= 12 {
            let serial: u64 = discriminant as u64;
            let length: u64 = (serial - 12) / 2;
            if length > usize::MAX as u64 {
                Err(DbError::UnsupportedSerialType(discriminant))
            } else if serial % 2 == 0 {
                Ok(RecordFieldType::Blob(length as usize))
            } else {
                Ok(RecordFieldType::String(length as usize))
            }
        } else {
            Err(DbError::UnsupportedSerialType(discriminant))
        }
    }

    /// The number of bytes that a field of this type takes in the payload.
    #[verifier::when_used_as_spec(spec_size)]
    pub fn size(self) -> (res: usize)
        ensures
            res == self.spec_size(),
    {
        match self {
            Self::Null => 0,
            Self::I8 => 1,
            Self::I16 => 2,
            Self::I24 => 3,
            Self::I32 => 4,
            Self::I48 => 6,
            Self::I64 => 8,
            Self::Float => 8,
            Self::Zero => 0,
            Self::One => 0,
            Self::Blob(length) => length,
            Self::String(length) => length,
        }
    }

    /// Decodes the field of this type whose bytes begin at `offset` in
    /// `payload`.
    ///
    /// Fails with [`DbError::InvalidUtf8`] on a text whose bytes are not valid
    /// UTF-8, and on nothing else.
    pub fn try_value<'a>(self, payload: &'a [u8], offset: usize) -> (res: Result<
        Value<'a>,
        DbError,
    >)
        ensures
            match field_value(self, payload@, offset as int) {
                Ok(view) => res matches Ok(value) && value@ == view,
                Err(e) => res matches Err(err) && err == e,
            },
    {
        match self {
            Self::Null => Ok(Value::Null),
            Self::I8 => Ok(Value::Int(read_i8_at(payload, offset))),
            Self::I16 => Ok(Value::Int(read_i16_at(payload, offset))),
            Self::I24 => Ok(Value::Int(read_i24_at(payload, offset))),
            Self::I32 => Ok(Value::Int(read_i32_at(payload, offset))),
            Self::I48 => Ok(Value::Int(read_i48_at(payload, offset))),
            Self::I64 => Ok(Value::Int(read_i64_at(payload, offset))),
            Self::Float => Ok(Value::Float(read_f64_bits_at(payload, offset))),
            Self::Zero => Ok(Value::Int(0)),
            Self::One => Ok(Value::Int(1)),
            Self::Blob(length) => Ok(Value::Blob(slice_field_bytes(payload, offset, length))),
            Self::String(length) => {
                match str_from_utf8(slice_field_bytes(payload, offset, length)) {
                    Some(text) => Ok(Value::String(text)),
                    None => Err(DbError::InvalidUtf8),
                }
            },
        }
    }

    /// Decodes the field of this type whose bytes begin at `offset` in
    /// `payload`; `None` on a text whose bytes are not valid UTF-8.
    pub fn value<'a>(self, payload: &'a [u8], offset: usize) -> (res: Option<Value<'a>>)
        ensures
            match field_value(self, payload@, offset as int) {
                Ok(view) => res matches Some(value) && value@ == view,
                Err(_) => res is None,
            },
    {
        match self.try_value(payload, offset) {
            Ok(value) => Some(value),
            Err(_) => None,
        }
    }
}

} // verus!
