use vstd::prelude::*;

verus! {

/// A typed value that a log statement attaches to a key.
///
/// Floating-point values travel as the bit pattern of an IEEE-754 double;
/// a single-precision float is widened to a double before it gets here.
#[derive(Clone, Debug, PartialEq, Eq)]
pub enum FieldValue {
    Bool(bool),
    Unit,
    Absent,
    Char(char),
    U8(u8),
    I8(i8),
    U16(u16),
    I16(i16),
    U32(u32),
    I32(i32),
    U64(u64),
    I64(i64),
    Usize(usize),
    Isize(isize),
    Double(u64),
    Str(String),
}

/// One key/value contribution to a record's document.
#[derive(Clone, Debug, PartialEq, Eq)]
pub struct Field {
    pub key: String,
    pub value: FieldValue,
}

/// A value in the store's own representation.
#[derive(Clone, Debug, PartialEq, Eq)]
pub enum Value {
    Null,
    Boolean(bool),
    Int32(i32),
    Int64(i64),
    /// A double, as its IEEE-754 bit pattern.
    Double(u64),
    Str(String),
}

/// The mathematical form of a [`Value`].
pub enum ValueView {
    Null,
    Boolean(bool),
    Int32(i32),
    Int64(i64),
    Double(u64),
    Str(Seq<char>),
}

impl View for Value {
    type V = ValueView;

    open spec fn view(&self) -> ValueView {
        match self {
            Value::Null => ValueView::Null,
            Value::Boolean(b) => ValueView::Boolean(*b),
            Value::Int32(n) => ValueView::Int32(*n),
            Value::Int64(n) => ValueView::Int64(*n),
            Value::Double(bits) => ValueView::Double(*bits),
            Value::Str(s) => ValueView::Str(s@),
        }
    }
}

/// Why a field could not be stored.
#[derive(Clone, Copy, Debug, PartialEq, Eq)]
pub enum EncodeError {
    /// An unsigned integer above the largest signed 64-bit value; the store
    /// has no unsigned integers.
    UnsignedOutOfRange(u64),
}

/// How a field value is stored: booleans, strings and signed integers keep
/// their type (narrow integers widen to 32 bits), a character becomes a
/// one-character string, unit and absence both become an explicit null, and
/// an unsigned integer becomes the smallest signed type that holds every
/// value of its width, or fails where the value does not fit in 64 bits.
pub open spec fn encoded(v: FieldValue) -> Option<ValueView> {
    match v {
        FieldValue::Bool(b) => Some(ValueView::Boolean(b)),
        FieldValue::Unit => Some(ValueView::Null),
        FieldValue::Absent => Some(ValueView::Null),
        FieldValue::Char(c) => Some(ValueView::Str(seq![c])),
        FieldValue::U8(n) => Some(ValueView::Int32(n as i32)),
        FieldValue::I8(n) => Some(ValueView::Int32(n as i32)),
        FieldValue::U16(n) => Some(ValueView::Int32(n as i32)),
        FieldValue::I16(n) => Some(ValueView::Int32(n as i32)),
        FieldValue::U32(n) => Some(ValueView::Int64(n as i64)),
        FieldValue::I32(n) => Some(ValueView::Int32(n)),
        FieldValue::U64(n) => if n <= i64::MAX {
            Some(ValueView::Int64(n as i64))
        } else {
            None
        },
        FieldValue::I64(n) => Some(ValueView::Int64(n)),
        FieldValue::Usize(n) => if n <= i64::MAX {
            Some(ValueView::Int64(n as i64))
        } else {
            None
        },
        FieldValue::Isize(n) => Some(ValueView::Int64(n as i64)),
        FieldValue::Double(bits) => Some(ValueView::Double(bits)),
        FieldValue::Str(s) => Some(ValueView::Str(s@)),
    }
}

/// Relies on `String::push`: the character is appended at the end.
pub assume_specification[ String::push ](s: &mut String, c: char)
    ensures
        final(s)@ == old(s)@.push(c),
;

fn encode_unsigned(n: u64) -> (r: Result<Value, EncodeError>)
    ensures
        n <= i64::MAX ==> r is Ok && r->Ok_0@ == ValueView::Int64(n as i64),
        n > i64::MAX ==> r == Err::<Value, EncodeError>(EncodeError::UnsignedOutOfRange(n)),
{
    if n <= i64::MAX as u64 {
        Ok(Value::Int64(n as i64))
    } else {
        Err(EncodeError::UnsignedOutOfRange(n))
    }
}

/// Converts one field value to the store's representation.
pub fn encode(v: &FieldValue) -> (r: Result<Value, EncodeError>)
    ensures
        encoded(*v) is Some <==> r is Ok,
        r is Ok ==> r->Ok_0@ == encoded(*v)->Some_0,
{
    match v {
        FieldValue::Bool(b) => Ok(Value::Boolean(*b)),
        FieldValue::Unit => Ok(Value::Null),
        FieldValue::Absent => Ok(Value::Null),
        FieldValue::Char(c) => {
            let mut s = String::new();
            s.push(*c);
            Ok(Value::Str(s))
        },
        FieldValue::U8(n) => Ok(Value::Int32(*n as i32)),
        FieldValue::I8(n) => Ok(Value::Int32(*n as i32)),
        FieldValue::U16(n) => Ok(Value::Int32(*n as i32)),
        FieldValue::I16(n) => Ok(Value::Int32(*n as i32)),
        FieldValue::U32(n) => Ok(Value::Int64(*n as i64)),
        FieldValue::I32(n) => Ok(Value::Int32(*n)),
        FieldValue::U64(n) => encode_unsigned(*n),
        FieldValue::I64(n) => Ok(Value::Int64(*n)),
        FieldValue::Usize(n) => encode_unsigned(*n as u64),
        FieldValue::Isize(n) => Ok(Value::Int64(*n as i64)),
        FieldValue::Double(bits) => Ok(Value::Double(*bits)),
        FieldValue::Str(s) => Ok(Value::Str(s.clone())),
    }
}

} // verus!
