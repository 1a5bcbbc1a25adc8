//! The conversion layer: fallible projection from a decoded value (or
//! an optional looked-up value) into a concrete native type.
//!
//! Direct targets check the value's kind; narrowing numeric targets
//! also range-check; owned targets copy out of the tree. Converting
//! from an `Option` treats absence as `None` for optional targets and
//! as a missing required field for everything else. Every
//! implementation's behaviour is pinned by its `convert_spec`.

use vstd::prelude::*;

use crate::decoder::{view_value, Value};
use crate::errors::{spec_kind, ConvertError, Error, Kind};
use crate::field::{F32Bits, F64Bits};
use crate::wire::ValueV;

verus! {

/// What a conversion source denotes: the abstract value (or optional
/// value) its conversion is judged against.
pub trait ConvertSource {
    type Model;

    spec fn model(self) -> Self::Model;
}

impl<'v> ConvertSource for &'v Value {
    type Model = ValueV;

    open spec fn model(self) -> ValueV {
        view_value(*self)
    }
}

impl<'v> ConvertSource for Option<&'v Value> {
    type Model = Option<ValueV>;

    open spec fn model(self) -> Option<ValueV> {
        match self {
            Some(v) => Some(view_value(*v)),
            None => None,
        }
    }
}

/// Projects a source into `Self`. `convert_spec` pins the exact result
/// of `convert_from` for every abstract source value: which sources
/// succeed, what they yield, and which error each failing source
/// raises.
pub trait ConvertFrom<T: ConvertSource>: Sized {
    spec fn convert_spec(value: T::Model, r: Result<Self, ConvertError>) -> bool;

    fn convert_from(value: T) -> (r: Result<Self, ConvertError>)
        ensures
            Self::convert_spec(value.model(), r),
    ;
}

impl<'v> ConvertFrom<&'v Value> for bool {
    open spec fn convert_spec(value: ValueV, r: Result<bool, ConvertError>) -> bool {
        match value {
            ValueV::Bool(v) => r == Ok::<bool, ConvertError>(v),
            _ => r == Err::<bool, ConvertError>(
                ConvertError { kind: Error::TypeMismatch(Kind::Bool, spec_kind(value)), key: None },
            ),
        }
    }

    fn convert_from(value: &'v Value) -> (r: Result<bool, ConvertError>) {
        match value {
            Value::Bool(v) => Ok(*v),
            _ => Err(ConvertError::new(value.invalid_type(Kind::Bool))),
        }
    }
}

impl<'v> ConvertFrom<&'v Value> for i64 {
    open spec fn convert_spec(value: ValueV, r: Result<i64, ConvertError>) -> bool {
        match value {
            ValueV::Int(v) => r == Ok::<i64, ConvertError>(v),
            _ => r == Err::<i64, ConvertError>(
                ConvertError { kind: Error::TypeMismatch(Kind::Int, spec_kind(value)), key: None },
            ),
        }
    }

    fn convert_from(value: &'v Value) -> (r: Result<i64, ConvertError>) {
        match value {
            Value::Int(v) => Ok(*v),
            _ => Err(ConvertError::new(value.invalid_type(Kind::Int))),
        }
    }
}

impl<'v> ConvertFrom<&'v Value> for u64 {
    open spec fn convert_spec(value: ValueV, r: Result<u64, ConvertError>) -> bool {
        match value {
            ValueV::UInt(v) => r == Ok::<u64, ConvertError>(v),
            _ => r == Err::<u64, ConvertError>(
                ConvertError { kind: Error::TypeMismatch(Kind::UInt, spec_kind(value)), key: None },
            ),
        }
    }

    fn convert_from(value: &'v Value) -> (r: Result<u64, ConvertError>) {
        match value {
            Value::UInt(v) => Ok(*v),
            _ => Err(ConvertError::new(value.invalid_type(Kind::UInt))),
        }
    }
}

impl<'v> ConvertFrom<&'v Value> for F32Bits {
    open spec fn convert_spec(value: ValueV, r: Result<F32Bits, ConvertError>) -> bool {
        match value {
            ValueV::F32(v) => r == Ok::<F32Bits, ConvertError>(F32Bits(v)),
            _ => r == Err::<F32Bits, ConvertError>(
                ConvertError { kind: Error::TypeMismatch(Kind::F32, spec_kind(value)), key: None },
            ),
        }
    }

    fn convert_from(value: &'v Value) -> (r: Result<F32Bits, ConvertError>) {
        match value {
            Value::F32(v) => Ok(F32Bits(*v)),
            _ => Err(ConvertError::new(value.invalid_type(Kind::F32))),
        }
    }
}

impl<'v> ConvertFrom<&'v Value> for F64Bits {
    open spec fn convert_spec(value: ValueV, r: Result<F64Bits, ConvertError>) -> bool {
        match value {
            ValueV::F64(v) => r == Ok::<F64Bits, ConvertError>(F64Bits(v)),
            _ => r == Err::<F64Bits, ConvertError>(
                ConvertError { kind: Error::TypeMismatch(Kind::F64, spec_kind(value)), key: None },
            ),
        }
    }

    fn convert_from(value: &'v Value) -> (r: Result<F64Bits, ConvertError>) {
        match value {
            Value::F64(v) => Ok(F64Bits(*v)),
            _ => Err(ConvertError::new(value.invalid_type(Kind::F64))),
        }
    }
}

impl<'v> ConvertFrom<&'v Value> for String {
    open spec fn convert_spec(value: ValueV, r: Result<String, ConvertError>) -> bool {
        match value {
            ValueV::Str(v) => r matches Ok(s) && s@ == v,
            _ => r == Err::<String, ConvertError>(
                ConvertError { kind: Error::TypeMismatch(Kind::Str, spec_kind(value)), key: None },
            ),
        }
    }

    fn convert_from(value: &'v Value) -> (r: Result<String, ConvertError>) {
        match value {
            Value::Str(v) => Ok(v.clone()),
            _ => Err(ConvertError::new(value.invalid_type(Kind::Str))),
        }
    }
}

impl<'v> ConvertFrom<&'v Value> for Vec<u8> {
    open spec fn convert_spec(value: ValueV, r: Result<Vec<u8>, ConvertError>) -> bool {
        match value {
            ValueV::Bytes(v) => r matches Ok(b) && b@ == v,
            _ => r == Err::<Vec<u8>, ConvertError>(
                ConvertError { kind: Error::TypeMismatch(Kind::Bytes, spec_kind(value)), key: None },
            ),
        }
    }

    fn convert_from(value: &'v Value) -> (r: Result<Vec<u8>, ConvertError>) {
        match value {
            Value::Bytes(v) => Ok(vstd::slice::slice_to_vec(v.as_slice())),
            _ => Err(ConvertError::new(value.invalid_type(Kind::Bytes))),
        }
    }
}

impl<'v> ConvertFrom<&'v Value> for i8 {
    open spec fn convert_spec(value: ValueV, r: Result<i8, ConvertError>) -> bool {
        match value {
            ValueV::Int(v) => if -128i64 <= v <= 127i64 {
                r == Ok::<i8, ConvertError>(v as i8)
            } else {
                r == Err::<i8, ConvertError>(
                    ConvertError { kind: Error::NumericOverflow, key: None },
                )
            },
            _ => r == Err::<i8, ConvertError>(
                ConvertError { kind: Error::TypeMismatch(Kind::Int, spec_kind(value)), key: None },
            ),
        }
    }

    fn convert_from(value: &'v Value) -> (r: Result<i8, ConvertError>) {
        match value {
            Value::Int(v) => {
                if -128i64 <= *v && *v <= 127i64 {
                    Ok(*v as i8)
                } else {
                    Err(ConvertError::new(crate::errors::invalid_input()))
                }
            },
            _ => Err(ConvertError::new(value.invalid_type(Kind::Int))),
        }
    }
}

impl<'v> ConvertFrom<&'v Value> for i16 {
    open spec fn convert_spec(value: ValueV, r: Result<i16, ConvertError>) -> bool {
        match value {
            ValueV::Int(v) => if -32768i64 <= v <= 32767i64 {
                r == Ok::<i16, ConvertError>(v as i16)
            } else {
                r == Err::<i16, ConvertError>(
                    ConvertError { kind: Error::NumericOverflow, key: None },
                )
            },
            _ => r == Err::<i16, ConvertError>(
                ConvertError { kind: Error::TypeMismatch(Kind::Int, spec_kind(value)), key: None },
            ),
        }
    }

    fn convert_from(value: &'v Value) -> (r: Result<i16, ConvertError>) {
        match value {
            Value::Int(v) => {
                if -32768i64 <= *v && *v <= 32767i64 {
                    Ok(*v as i16)
                } else {
                    Err(ConvertError::new(crate::errors::invalid_input()))
                }
            },
            _ => Err(ConvertError::new(value.invalid_type(Kind::Int))),
        }
    }
}

impl<'v> ConvertFrom<&'v Value> for i32 {
    open spec fn convert_spec(value: ValueV, r: Result<i32, ConvertError>) -> bool {
        match value {
            ValueV::Int(v) => if -2147483648i64 <= v <= 2147483647i64 {
                r == Ok::<i32, ConvertError>(v as i32)
            } else {
                r == Err::<i32, ConvertError>(
                    ConvertError { kind: Error::NumericOverflow, key: None },
                )
            },
            _ => r == Err::<i32, ConvertError>(
                ConvertError { kind: Error::TypeMismatch(Kind::Int, spec_kind(value)), key: None },
            ),
        }
    }

    fn convert_from(value: &'v Value) -> (r: Result<i32, ConvertError>) {
        match value {
            Value::Int(v) => {
                if -2147483648i64 <= *v && *v <= 2147483647i64 {
                    Ok(*v as i32)
                } else {
                    Err(ConvertError::new(crate::errors::invalid_input()))
                }
            },
            _ => Err(ConvertError::new(value.invalid_type(Kind::Int))),
        }
    }
}

impl<'v> ConvertFrom<&'v Value> for u8 {
    open spec fn convert_spec(value: ValueV, r: Result<u8, ConvertError>) -> bool {
        match value {
            ValueV::UInt(v) => if 0u64 <= v <= 255u64 {
                r == Ok::<u8, ConvertError>(v as u8)
            } else {
                r == Err::<u8, ConvertError>(
                    ConvertError { kind: Error::NumericOverflow, key: None },
                )
            },
            _ => r == Err::<u8, ConvertError>(
                ConvertError { kind: Error::TypeMismatch(Kind::UInt, spec_kind(value)), key: None },
            ),
        }
    }

    fn convert_from(value: &'v Value) -> (r: Result<u8, ConvertError>) {
        match value {
            Value::UInt(v) => {
                if 0u64 <= *v && *v <= 255u64 {
                    Ok(*v as u8)
                } else {
                    Err(ConvertError::new(crate::errors::invalid_input()))
                }
            },
            _ => Err(ConvertError::new(value.invalid_type(Kind::UInt))),
        }
    }
}

impl<'v> ConvertFrom<&'v Value> for u16 {
    open spec fn convert_spec(value: ValueV, r: Result<u16, ConvertError>) -> bool {
        match value {
            ValueV::UInt(v) => if 0u64 <= v <= 65535u64 {
                r == Ok::<u16, ConvertError>(v as u16)
            } else {
                r == Err::<u16, ConvertError>(
                    ConvertError { kind: Error::NumericOverflow, key: None },
                )
            },
            _ => r == Err::<u16, ConvertError>(
                ConvertError { kind: Error::TypeMismatch(Kind::UInt, spec_kind(value)), key: None },
            ),
        }
    }

    fn convert_from(value: &'v Value) -> (r: Result<u16, ConvertError>) {
        match value {
            Value::UInt(v) => {
                if 0u64 <= *v && *v <= 65535u64 {
                    Ok(*v as u16)
                } else {
                    Err(ConvertError::new(crate::errors::invalid_input()))
                }
            },
            _ => Err(ConvertError::new(value.invalid_type(Kind::UInt))),
        }
    }
}

impl<'v> ConvertFrom<&'v Value> for u32 {
    open spec fn convert_spec(value: ValueV, r: Result<u32, ConvertError>) -> bool {
        match value {
            ValueV::UInt(v) => if 0u64 <= v <= 4294967295u64 {
                r == Ok::<u32, ConvertError>(v as u32)
            } else {
                r == Err::<u32, ConvertError>(
                    ConvertError { kind: Error::NumericOverflow, key: None },
                )
            },
            _ => r == Err::<u32, ConvertError>(
                ConvertError { kind: Error::TypeMismatch(Kind::UInt, spec_kind(value)), key: None },
            ),
        }
    }

    fn convert_from(value: &'v Value) -> (r: Result<u32, ConvertError>) {
        match value {
            Value::UInt(v) => {
                if 0u64 <= *v && *v <= 4294967295u64 {
                    Ok(*v as u32)
                } else {
                    Err(ConvertError::new(crate::errors::invalid_input()))
                }
            },
            _ => Err(ConvertError::new(value.invalid_type(Kind::UInt))),
        }
    }
}

impl<'v, T: ConvertFrom<&'v Value>> ConvertFrom<Option<&'v Value>> for Option<T> {
    /// An absent key is a present `None`; a present key converts as
    /// the inner target, success and failure alike.
    open spec fn convert_spec(value: Option<ValueV>, r: Result<Option<T>, ConvertError>) -> bool {
        match value {
            None => r == Ok::<Option<T>, ConvertError>(None),
            Some(v) => match r {
                Ok(Some(x)) => T::convert_spec(v, Ok(x)),
                Ok(None) => false,
                Err(e) => T::convert_spec(v, Err(e)),
            },
        }
    }

    fn convert_from(value: Option<&'v Value>) -> (r: Result<Option<T>, ConvertError>) {
        match value {
            None => Ok(None),
            Some(v) => match T::convert_from(v) {
                Ok(x) => Ok(Some(x)),
                Err(e) => Err(e),
            },
        }
    }
}

impl<'v> ConvertFrom<Option<&'v Value>> for bool {
    open spec fn convert_spec(value: Option<ValueV>, r: Result<bool, ConvertError>) -> bool {
        match value {
            Some(v) => <bool as ConvertFrom<&'v Value>>::convert_spec(v, r),
            None => r == Err::<bool, ConvertError>(
                ConvertError { kind: Error::MissingField, key: None },
            ),
        }
    }

    fn convert_from(value: Option<&'v Value>) -> (r: Result<bool, ConvertError>) {
        match value {
            Some(v) => <bool as ConvertFrom<&'v Value>>::convert_from(v),
            None => Err(ConvertError::new(Error::MissingField)),
        }
    }
}

impl<'v> ConvertFrom<Option<&'v Value>> for i8 {
    open spec fn convert_spec(value: Option<ValueV>, r: Result<i8, ConvertError>) -> bool {
        match value {
            Some(v) => <i8 as ConvertFrom<&'v Value>>::convert_spec(v, r),
            None => r == Err::<i8, ConvertError>(
                ConvertError { kind: Error::MissingField, key: None },
            ),
        }
    }

    fn convert_from(value: Option<&'v Value>) -> (r: Result<i8, ConvertError>) {
        match value {
            Some(v) => <i8 as ConvertFrom<&'v Value>>::convert_from(v),
            None => Err(ConvertError::new(Error::MissingField)),
        }
    }
}

impl<'v> ConvertFrom<Option<&'v Value>> for i16 {
    open spec fn convert_spec(value: Option<ValueV>, r: Result<i16, ConvertError>) -> bool {
        match value {
            Some(v) => <i16 as ConvertFrom<&'v Value>>::convert_spec(v, r),
            None => r == Err::<i16, ConvertError>(
                ConvertError { kind: Error::MissingField, key: None },
            ),
        }
    }

    fn convert_from(value: Option<&'v Value>) -> (r: Result<i16, ConvertError>) {
        match value {
            Some(v) => <i16 as ConvertFrom<&'v Value>>::convert_from(v),
            None => Err(ConvertError::new(Error::MissingField)),
        }
    }
}

impl<'v> ConvertFrom<Option<&'v Value>> for i32 {
    open spec fn convert_spec(value: Option<ValueV>, r: Result<i32, ConvertError>) -> bool {
        match value {
            Some(v) => <i32 as ConvertFrom<&'v Value>>::convert_spec(v, r),
            None => r == Err::<i32, ConvertError>(
                ConvertError { kind: Error::MissingField, key: None },
            ),
        }
    }

    fn convert_from(value: Option<&'v Value>) -> (r: Result<i32, ConvertError>) {
        match value {
            Some(v) => <i32 as ConvertFrom<&'v Value>>::convert_from(v),
            None => Err(ConvertError::new(Error::MissingField)),
        }
    }
}

impl<'v> ConvertFrom<Option<&'v Value>> for i64 {
    open spec fn convert_spec(value: Option<ValueV>, r: Result<i64, ConvertError>) -> bool {
        match value {
            Some(v) => <i64 as ConvertFrom<&'v Value>>::convert_spec(v, r),
            None => r == Err::<i64, ConvertError>(
                ConvertError { kind: Error::MissingField, key: None },
            ),
        }
    }

    fn convert_from(value: Option<&'v Value>) -> (r: Result<i64, ConvertError>) {
        match value {
            Some(v) => <i64 as ConvertFrom<&'v Value>>::convert_from(v),
            None => Err(ConvertError::new(Error::MissingField)),
        }
    }
}

impl<'v> ConvertFrom<Option<&'v Value>> for u8 {
    open spec fn convert_spec(value: Option<ValueV>, r: Result<u8, ConvertError>) -> bool {
        match value {
            Some(v) => <u8 as ConvertFrom<&'v Value>>::convert_spec(v, r),
            None => r == Err::<u8, ConvertError>(
                ConvertError { kind: Error::MissingField, key: None },
            ),
        }
    }

    fn convert_from(value: Option<&'v Value>) -> (r: Result<u8, ConvertError>) {
        match value {
            Some(v) => <u8 as ConvertFrom<&'v Value>>::convert_from(v),
            None => Err(ConvertError::new(Error::MissingField)),
        }
    }
}

impl<'v> ConvertFrom<Option<&'v Value>> for u16 {
    open spec fn convert_spec(value: Option<ValueV>, r: Result<u16, ConvertError>) -> bool {
        match value {
            Some(v) => <u16 as ConvertFrom<&'v Value>>::convert_spec(v, r),
            None => r == Err::<u16, ConvertError>(
                ConvertError { kind: Error::MissingField, key: None },
            ),
        }
    }

    fn convert_from(value: Option<&'v Value>) -> (r: Result<u16, ConvertError>) {
        match value {
            Some(v) => <u16 as ConvertFrom<&'v Value>>::convert_from(v),
            None => Err(ConvertError::new(Error::MissingField)),
        }
    }
}

impl<'v> ConvertFrom<Option<&'v Value>> for u32 {
    open spec fn convert_spec(value: Option<ValueV>, r: Result<u32, ConvertError>) -> bool {
        match value {
            Some(v) => <u32 as ConvertFrom<&'v Value>>::convert_spec(v, r),
            None => r == Err::<u32, ConvertError>(
                ConvertError { kind: Error::MissingField, key: None },
            ),
        }
    }

    fn convert_from(value: Option<&'v Value>) -> (r: Result<u32, ConvertError>) {
        match value {
            Some(v) => <u32 as ConvertFrom<&'v Value>>::convert_from(v),
            None => Err(ConvertError::new(Error::MissingField)),
        }
    }
}

impl<'v> ConvertFrom<Option<&'v Value>> for u64 {
    open spec fn convert_spec(value: Option<ValueV>, r: Result<u64, ConvertError>) -> bool {
        match value {
            Some(v) => <u64 as ConvertFrom<&'v Value>>::convert_spec(v, r),
            None => r == Err::<u64, ConvertError>(
                ConvertError { kind: Error::MissingField, key: None },
            ),
        }
    }

    fn convert_from(value: Option<&'v Value>) -> (r: Result<u64, ConvertError>) {
        match value {
            Some(v) => <u64 as ConvertFrom<&'v Value>>::convert_from(v),
            None => Err(ConvertError::new(Error::MissingField)),
        }
    }
}

impl<'v> ConvertFrom<Option<&'v Value>> for F32Bits {
    open spec fn convert_spec(value: Option<ValueV>, r: Result<F32Bits, ConvertError>) -> bool {
        match value {
            Some(v) => <F32Bits as ConvertFrom<&'v Value>>::convert_spec(v, r),
            None => r == Err::<F32Bits, ConvertError>(
                ConvertError { kind: Error::MissingField, key: None },
            ),
        }
    }

    fn convert_from(value: Option<&'v Value>) -> (r: Result<F32Bits, ConvertError>) {
        match value {
            Some(v) => <F32Bits as ConvertFrom<&'v Value>>::convert_from(v),
            None => Err(ConvertError::new(Error::MissingField)),
        }
    }
}

impl<'v> ConvertFrom<Option<&'v Value>> for F64Bits {
    open spec fn convert_spec(value: Option<ValueV>, r: Result<F64Bits, ConvertError>) -> bool {
        match value {
            Some(v) => <F64Bits as ConvertFrom<&'v Value>>::convert_spec(v, r),
            None => r == Err::<F64Bits, ConvertError>(
                ConvertError { kind: Error::MissingField, key: None },
            ),
        }
    }

    fn convert_from(value: Option<&'v Value>) -> (r: Result<F64Bits, ConvertError>) {
        match value {
            Some(v) => <F64Bits as ConvertFrom<&'v Value>>::convert_from(v),
            None => Err(ConvertError::new(Error::MissingField)),
        }
    }
}

impl<'v> ConvertFrom<Option<&'v Value>> for String {
    open spec fn convert_spec(value: Option<ValueV>, r: Result<String, ConvertError>) -> bool {
        match value {
            Some(v) => <String as ConvertFrom<&'v Value>>::convert_spec(v, r),
            None => r == Err::<String, ConvertError>(
                ConvertError { kind: Error::MissingField, key: None },
            ),
        }
    }

    fn convert_from(value: Option<&'v Value>) -> (r: Result<String, ConvertError>) {
        match value {
            Some(v) => <String as ConvertFrom<&'v Value>>::convert_from(v),
            None => Err(ConvertError::new(Error::MissingField)),
        }
    }
}

impl<'v> ConvertFrom<Option<&'v Value>> for Vec<u8> {
    open spec fn convert_spec(value: Option<ValueV>, r: Result<Vec<u8>, ConvertError>) -> bool {
        match value {
            Some(v) => <Vec<u8> as ConvertFrom<&'v Value>>::convert_spec(v, r),
            None => r == Err::<Vec<u8>, ConvertError>(
                ConvertError { kind: Error::MissingField, key: None },
            ),
        }
    }

    fn convert_from(value: Option<&'v Value>) -> (r: Result<Vec<u8>, ConvertError>) {
        match value {
            Some(v) => <Vec<u8> as ConvertFrom<&'v Value>>::convert_from(v),
            None => Err(ConvertError::new(Error::MissingField)),
        }
    }
}

/// Projects a record-tagged value into any type that reads a field
/// store: the write half of spec-described nesting. A non-record value
/// is a type mismatch naming what was found; a record is handed to the
/// target's own `decode`.
pub fn convert_record<T: crate::Decoder>(value: &Value) -> (r: Result<T, ConvertError>)
    ensures
        !(view_value(*value) is Struct) ==> r == Err::<T, ConvertError>(
            ConvertError {
                kind: Error::TypeMismatch(Kind::Struct, spec_kind(view_value(*value))),
                key: None,
            },
        ),
{
    match value {
        Value::Struct(entries) => T::decode(entries),
        _ => Err(ConvertError::new(value.invalid_type(Kind::Struct))),
    }
}

} // verus!
