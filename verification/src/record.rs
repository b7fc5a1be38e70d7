//! Records: the serial types of their fields, the header that lists them,
//! and the decoding of one field.

pub mod record_field;
pub mod record_field_type;
pub mod record_header;
