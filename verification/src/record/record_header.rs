//! The header of a record: the types of its fields and where each begins.

use crate::error::DbError;
use crate::record::record_field::RecordField;
use crate::record::record_field_type::{field_type_of, RecordFieldType};
use crate::utils::{
    lemma_varint_len_bounds, lemma_varint_value_range, read_varint_at, varint_len, varint_value,
};
use vstd::prelude::*;
use vstd::slice::slice_subrange;

verus! {

/// The fields of a record, in the order of the record header.
#[derive(Debug, Clone, PartialEq)]
pub struct RecordHeader {
    pub fields: Vec<RecordField>,
}

/// The fields that the serial types of `header` from `pos` on stand for, the
/// first of them beginning at `payload_offset` and each next one where the
/// one before it ends.
///
/// Fails as the serial type does that stands for no field type, and with
/// [`DbError::BadRecordHeader`] where a field ends past what a `usize` holds.
pub open spec fn record_fields_from(header: Seq<u8>, pos: int, payload_offset: nat) -> Result<
    Seq<RecordField>,
    DbError,
>
    decreases header.len() - pos,
    via record_fields_from_decreases
{
    if pos < 0 || pos >= header.len() {
        Ok(Seq::empty())
    } else {
        match field_type_of(varint_value(header, pos) as i64) {
            Err(e) => Err(e),
            Ok(field_type) => {
                if payload_offset + field_type.size() > usize::MAX {
                    Err(DbError::BadRecordHeader)
                } else {
                    match record_fields_from(
                        header,
                        pos + varint_len(header, pos),
                        payload_offset + field_type.size() as nat,
                    ) {
                        Err(e) => Err(e),
                        Ok(rest) => Ok(
                            seq![RecordField { offset: payload_offset as usize, field_type }]
                                + rest,
                        ),
                    }
                }
            },
        }
    }
}

#[via_fn]
proof fn record_fields_from_decreases(header: Seq<u8>, pos: int, payload_offset: nat) {
    lemma_varint_len_bounds(header, pos);
}

/// The length that a record declares for its header: the value of the varint
/// that the record begins with.
pub open spec fn declared_header_length(buffer: Seq<u8>) -> int {
    varint_value(buffer, 0)
}

/// Whether the declared header length covers at least its own varint and at
/// most the whole of `buffer`.
pub open spec fn header_length_fits(buffer: Seq<u8>) -> bool {
    varint_len(buffer, 0) <= declared_header_length(buffer) <= buffer.len()
}

/// What parsing the header of the record `buffer` yields.
///
/// The serial types lie between the header length varint and the declared
/// end of the header; the first field begins where the header ends.
pub open spec fn record_header_spec(buffer: Seq<u8>) -> Result<Seq<RecordField>, DbError> {
    if !header_length_fits(buffer) {
        Err(DbError::BadRecordHeader)
    } else {
        record_fields_from(
            buffer.take(declared_header_length(buffer)),
            varint_len(buffer, 0) as int,
            declared_header_length(buffer) as nat,
        )
    }
}

/// The fields `done` followed by the fields `rest`, where there are any.
pub open spec fn fields_then(done: Seq<RecordField>, rest: Result<Seq<RecordField>, DbError>) -> Result<
    Seq<RecordField>,
    DbError,
> {
    match rest {
        Ok(rest) => Ok(done + rest),
        Err(e) => Err(e),
    }
}

/// Whether the first of `fields`, if there is one, begins at `start` and each
/// next one begins where the one before it ends.
pub open spec fn fields_chained(fields: Seq<RecordField>, start: int) -> bool {
    &&& fields.len() > 0 ==> fields[0].offset == start
    &&& forall|i: int|
        0 <= i < fields.len() - 1 ==> (#[trigger] fields[i + 1]).offset == fields[i].end()
}

/// The number of payload bytes that `fields` take in all.
pub open spec fn fields_size(fields: Seq<RecordField>) -> int
    decreases fields.len(),
{
    if fields.len() == 0 {
        0
    } else {
        fields_size(fields.drop_last()) + fields.last().field_type.size()
    }
}

/// The fields of a parsed header are chained from the given offset on, and
/// each ends within what a `usize` holds.
pub proof fn lemma_record_fields_chained(header: Seq<u8>, pos: int, payload_offset: nat)
    requires
        record_fields_from(header, pos, payload_offset) is Ok,
    ensures
        fields_chained(
            record_fields_from(header, pos, payload_offset).unwrap(),
            payload_offset as int,
        ),
        forall|i: int|
            0 <= i < record_fields_from(header, pos, payload_offset).unwrap().len() ==> (
            #[trigger] record_fields_from(header, pos, payload_offset).unwrap()[i]).end()
                <= usize::MAX,
        forall|i: int|
            0 <= i < record_fields_from(header, pos, payload_offset).unwrap().len() ==> (
            #[trigger] record_fields_from(header, pos, payload_offset).unwrap()[i]).end()
                == payload_offset + fields_size(
                record_fields_from(header, pos, payload_offset).unwrap().take(i + 1),
            ),
    decreases header.len() - pos,
{
    let fields = record_fields_from(header, pos, payload_offset).unwrap();
    if 0 <= pos < header.len() {
        lemma_varint_len_bounds(header, pos);
        lemma_varint_value_range(header, pos);
        let field_type = field_type_of(varint_value(header, pos) as i64).unwrap();
        let next_pos = pos + varint_len(header, pos);
        let next_offset = payload_offset + field_type.size() as nat;
        let rest = record_fields_from(header, next_pos, next_offset).unwrap();
        lemma_record_fields_chained(header, next_pos, next_offset);
        let first = RecordField { offset: payload_offset as usize, field_type };
        assert(fields =~= seq![first] + rest);
        assert forall|i: int| 0 <= i < fields.len() - 1 implies (#[trigger] fields[i
            + 1]).offset == fields[i].end() by {
            if i > 0 {
                assert(fields[i + 1] == rest[i]);
                assert(fields[i] == rest[i - 1]);
                assert(rest[(i - 1) + 1].offset == rest[i - 1].end());
            } else {
                assert(fields[1] == rest[0]);
            }
        }
        assert forall|i: int| 0 <= i < fields.len() implies (#[trigger] fields[i]).end()
            <= usize::MAX by {
            if i > 0 {
                assert(fields[i] == rest[i - 1]);
            }
        }
        assert forall|i: int| 0 <= i < fields.len() implies (#[trigger] fields[i]).end()
            == payload_offset + fields_size(fields.take(i + 1)) by {
            lemma_fields_size_prepend(first, rest.take(i));
            assert(fields.take(i + 1) =~= seq![first] + rest.take(i));
            if i > 0 {
                assert(fields[i] == rest[i - 1]);
                assert(rest[i - 1].end() == next_offset + fields_size(rest.take((i - 1) + 1)));
            } else {
                assert(rest.take(0) =~= Seq::<RecordField>::empty());
            }
        }
    }
}

/// The size of a sequence of fields with one more field in front.
pub proof fn lemma_fields_size_prepend(first: RecordField, rest: Seq<RecordField>)
    ensures
        fields_size(seq![first] + rest) == first.field_type.size() + fields_size(rest),
    decreases rest.len(),
{
    let all = seq![first] + rest;
    if rest.len() == 0 {
        assert(all.drop_last() =~= Seq::<RecordField>::empty());
        assert(fields_size(all.drop_last()) == 0);
    } else {
        assert(all.drop_last() =~= seq![first] + rest.drop_last());
        assert(all.last() == rest.last());
        lemma_fields_size_prepend(first, rest.drop_last());
    }
}

/// The size of the first fields of a sequence is at most the size of all of
/// them.
pub proof fn lemma_fields_size_take(fields: Seq<RecordField>, n: int)
    requires
        0 <= n <= fields.len(),
    ensures
        0 <= fields_size(fields.take(n)) <= fields_size(fields),
    decreases fields.len(),
{
    if n == fields.len() {
        assert(fields.take(n) =~= fields);
        if fields.len() > 0 {
            lemma_fields_size_take(fields.drop_last(), n - 1);
        }
    } else {
        assert(fields.drop_last().take(n) =~= fields.take(n));
        lemma_fields_size_take(fields.drop_last(), n);
    }
}

/// In a record that holds all the bytes that its header declares, every
/// field ends within the record: where parsing the header of `buffer`
/// succeeds and the bytes after the header are at least as many as the
/// fields take in all, the offset of each field plus its size is at most the
/// length of `buffer`.
pub proof fn lemma_fields_within_record(buffer: Seq<u8>)
    requires
        record_header_spec(buffer) is Ok,
        fields_size(record_header_spec(buffer).unwrap()) <= buffer.len() - declared_header_length(
            buffer,
        ),
    ensures
        forall|i: int|
            0 <= i < record_header_spec(buffer).unwrap().len() ==> (
            #[trigger] record_header_spec(buffer).unwrap()[i]).end() <= buffer.len(),
{
    let fields = record_header_spec(buffer).unwrap();
    let length = declared_header_length(buffer);
    lemma_record_fields_chained(buffer.take(length), varint_len(buffer, 0) as int, length as nat);
    assert forall|i: int| 0 <= i < fields.len() implies (#[trigger] fields[i]).end()
        <= buffer.len() by {
        lemma_fields_size_take(fields, i + 1);
    }
}

impl RecordHeader {
    /// Parses the header that the record `buffer` begins with: a varint that
    /// gives the length of the header, itself included, then one serial type
    /// for each field, each a varint.
    ///
    /// Fails with [`DbError::BadRecordHeader`] where the declared length is
    /// less than that of its own varint or more than that of `buffer`, or
    /// where a field would end past what a `usize` holds, and with
    /// [`DbError::UnsupportedSerialType`] on a serial type that stands for no
    /// field type.
    pub fn parse(buffer: &[u8]) -> (res: Result<RecordHeader, DbError>)
        ensures
            match record_header_spec(buffer@) {
                Ok(fields) => res matches Ok(header) && header.fields@ == fields,
                Err(e) => res == Err::<RecordHeader, DbError>(e),
            },
            res matches Ok(header) ==> fields_chained(
                header.fields@,
                declared_header_length(buffer@),
            ),
    {
        let length_varint = read_varint_at(buffer, 0);
        let varint_size: usize = length_varint.0 as usize;
        if length_varint.1 < varint_size as i64 || length_varint.1 as u64 > buffer.len() as u64 {
            return Err(DbError::BadRecordHeader);
        }
        let header_length: usize = length_varint.1 as usize;
        let header = slice_subrange(buffer, 0, header_length);
        let mut fields: Vec<RecordField> = Vec::new();
        let mut pos: usize = varint_size;
        let mut current_offset: usize = header_length;
        proof {
            lemma_record_fields_chained_if_ok(header@, varint_size as int, header_length as nat);
            assert(header@ == buffer@.take(declared_header_length(buffer@)));
            let all = record_fields_from(header@, varint_size as int, header_length as nat);
            if all is Ok {
                assert(Seq::<RecordField>::empty() + all.unwrap() =~= all.unwrap());
            }
        }
        while pos < header_length
            invariant
                pos <= header_length == header@.len(),
                header_length_fits(buffer@),
                header@ == buffer@.take(declared_header_length(buffer@)),
                varint_size == varint_len(buffer@, 0),
                header_length == declared_header_length(buffer@),
                record_fields_from(header@, varint_size as int, header_length as nat)
                    == fields_then(
                    fields@,
                    record_fields_from(header@, pos as int, current_offset as nat),
                ),
            decreases header_length - pos,
        {
            let serial = read_varint_at(header, pos);
            proof {
                lemma_varint_value_range(header@, pos as int);
            }
            let field_type = match RecordFieldType::parse(serial.1) {
                Ok(field_type) => field_type,
                Err(e) => {
                    return Err(e);
                },
            };
            let field_size: usize = field_type.size();
            if field_size > usize::MAX - current_offset {
                return Err(DbError::BadRecordHeader);
            }
            proof {
                let rest = record_fields_from(
                    header@,
                    pos + serial.0,
                    (current_offset + field_size) as nat,
                );
                if rest is Ok {
                    assert((fields@.push(RecordField { offset: current_offset, field_type }))
                        + rest.unwrap() =~= fields@ + (seq![
                        RecordField { offset: current_offset, field_type },
                    ] + rest.unwrap()));
                }
            }
            fields.push(RecordField { offset: current_offset, field_type });
            current_offset = current_offset + field_size;
            pos = pos + serial.0 as usize;
        }
        assert(fields@ + Seq::<RecordField>::empty() =~= fields@);
        Ok(RecordHeader { fields })
    }
}

/// [`lemma_record_fields_chained`], for a header that may fail to parse.
proof fn lemma_record_fields_chained_if_ok(header: Seq<u8>, pos: int, payload_offset: nat)
    ensures
        record_fields_from(header, pos, payload_offset) matches Ok(fields) ==> fields_chained(
            fields,
            payload_offset as int,
        ),
{
    if record_fields_from(header, pos, payload_offset) is Ok {
        lemma_record_fields_chained(header, pos, payload_offset);
    }
}

} // verus!
