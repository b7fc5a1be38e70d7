//! One field of a record header.

use crate::record::record_field_type::RecordFieldType;
use vstd::prelude::*;

verus! {

/// The type of a field and where its bytes begin.
#[derive(Debug, Clone, Copy, PartialEq)]
pub struct RecordField {
    /// The offset of the field's bytes from the start of the record.
    pub offset: usize,
    pub field_type: RecordFieldType,
}

impl RecordField {
    /// The offset at which the field's bytes end.
    pub open spec fn end(&self) -> int {
        self.offset + self.field_type.size()
    }
}

} // verus!
