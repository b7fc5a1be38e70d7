//! The values that the fields of a record decode to.

use vstd::prelude::*;

verus! {

/// The bits of a floating-point field, in the width in which they were read.
#[derive(Debug, Clone, Copy, PartialEq, Eq)]
pub enum FloatBits {
    /// An IEEE-754 binary64 bit pattern.
    Binary64(u64),
    /// An IEEE-754 binary32 bit pattern, to be widened by the reader.
    Binary32(u32),
}

/// A decoded field. A text and a blob are views of the bytes of the record
/// that the field was decoded from.
#[derive(Debug, Clone, Copy, PartialEq)]
pub enum Value<'a> {
    Null,
    Int(i64),
    Float(FloatBits),
    String(&'a str),
    Blob(&'a [u8]),
}

/// What a [`Value`] holds, as mathematical data.
pub enum ValueView {
    Null,
    Int(i64),
    Float(FloatBits),
    Text(Seq<char>),
    Blob(Seq<u8>),
}

impl<'a> View for Value<'a> {
    type V = ValueView;

    open spec fn view(&self) -> ValueView {
        match self {
            Value::Null => ValueView::Null,
            Value::Int(i) => ValueView::Int(*i),
            Value::Float(bits) => ValueView::Float(*bits),
            Value::String(text) => ValueView::Text(text@),
            Value::Blob(bytes) => ValueView::Blob(bytes@),
        }
    }
}

impl<'a> Value<'a> {
    /// The text of a text value; `None` for every other value.
    pub fn as_str(&self) -> (res: Option<&'a str>)
        ensures
            match self@ {
                ValueView::Text(chars) => res matches Some(text) && text@ == chars,
                _ => res is None,
            },
    {
        match self {
            Value::String(text) => Some(*text),
            _ => None,
        }
    }
}

} // verus!
