//! The decisions of the mapping between a struct and the items of one
//! namespace: each field is stored under its name as the key. What a
//! serializer or deserializer does for each call of the serde data model
//! is decided here; the impls of serde's traits that make those calls
//! live outside the verified library.
use vstd::prelude::*;

use crate::error::Error;
use crate::serde::de::{DeCall, FieldReadPlan, field_read_accepts};
use crate::serde::ser::{SerCall, FieldPlan, field_accepts};

pub mod de;
pub mod ser;

verus! {

/// Errors of the struct mapping.
#[derive(Debug)]
pub enum SerdeError {
    /// The store failed.
    NvsError(Error),
    /// A message of the mapping or of the serialized type.
    Custom(String),
    /// A shape of data the mapping will not support.
    WontImplement(String),
    /// A shape of data the mapping does not support yet.
    NotYetImplemented(String),
}

impl From<Error> for SerdeError {
    fn from(value: Error) -> (e: Self) {
        Self::NvsError(value)
    }
}

impl vstd::std_specs::convert::FromSpecImpl<Error> for SerdeError {
    open spec fn obeys_from_spec() -> bool {
        true
    }

    open spec fn from_spec(v: Error) -> SerdeError {
        SerdeError::NvsError(v)
    }
}

impl SerdeError {
    /// The error for anything but a struct at the top level.
    pub fn top_level_ser() -> (e: Self)
        ensures
            e matches SerdeError::Custom(m) && m@ == "top-level serializer supports only structs"@,
    {
        let msg = "top-level serializer supports only structs";
        SerdeError::Custom(String::from_str(msg))
    }

    /// The error for a value that comes without its key.
    pub fn no_key() -> (e: Self)
        ensures
            e matches SerdeError::Custom(m) && m@ == "tried to serialize a value before serializing key"@,
    {
        let msg = "tried to serialize a value before serializing key";
        SerdeError::Custom(String::from_str(msg))
    }

    /// A shape of data that will not be supported, named by `msg`.
    pub fn wont_impl(msg: &str) -> (e: Self)
        ensures
            e matches SerdeError::WontImplement(m) && m@ == msg@,
    {
        Self::WontImplement(String::from_str(msg))
    }

    /// A shape of data not supported yet, named by `msg`.
    pub fn not_yet_impl(msg: &str) -> (e: Self)
        ensures
            e matches SerdeError::NotYetImplemented(m) && m@ == msg@,
    {
        Self::NotYetImplemented(String::from_str(msg))
    }

    /// A message of the serialized type.
    pub fn custom(msg: String) -> (e: Self)
        ensures
            e matches SerdeError::Custom(m) && m@ == msg@,
    {
        Self::Custom(msg)
    }
}


/// The call the deserializer of a field receives when it reads back the
/// field that the serializer received `call` for.
pub open spec fn reading_call(call: SerCall) -> DeCall {
    match call {
        SerCall::Bool => DeCall::Bool,
        SerCall::I8 => DeCall::I8,
        SerCall::I16 => DeCall::I16,
        SerCall::I32 => DeCall::I32,
        SerCall::I64 => DeCall::I64,
        SerCall::I128 => DeCall::I128,
        SerCall::U8 => DeCall::U8,
        SerCall::U16 => DeCall::U16,
        SerCall::U32 => DeCall::U32,
        SerCall::U64 => DeCall::U64,
        SerCall::U128 => DeCall::U128,
        SerCall::F32 => DeCall::F32,
        SerCall::F64 => DeCall::F64,
        SerCall::Char => DeCall::Char,
        SerCall::Str => DeCall::StringValue,
        SerCall::Bytes => DeCall::ByteBuf,
        SerCall::OptionNone => DeCall::OptionValue,
        SerCall::OptionSome => DeCall::OptionValue,
        SerCall::Unit => DeCall::Unit,
        SerCall::UnitStruct => DeCall::UnitStruct,
        SerCall::UnitVariant => DeCall::Enum,
        SerCall::NewtypeStruct => DeCall::NewtypeStruct,
        SerCall::NewtypeVariant => DeCall::Enum,
        SerCall::Sequence => DeCall::Sequence,
        SerCall::Tuple => DeCall::Tuple,
        SerCall::TupleStruct => DeCall::TupleStruct,
        SerCall::TupleVariant => DeCall::Enum,
        SerCall::MapValue => DeCall::MapValue,
        SerCall::Struct => DeCall::Struct,
        SerCall::StructVariant => DeCall::Enum,
    }
}

/// What is written under a key is read back in the same form: scalars as
/// scalars, strings and characters as strings, bytes as bytes, a unit
/// variant as its index; a field written as nothing (`None`) or as its
/// wrapped value is read by asking whether the key exists.
pub open spec fn plans_match(write: FieldPlan, read: FieldReadPlan, call: SerCall) -> bool {
    match write {
        FieldPlan::Write => if call == SerCall::Str {
            read == FieldReadPlan::ReadString
        } else if call == SerCall::Bytes {
            read == FieldReadPlan::ReadBytes
        } else {
            read == FieldReadPlan::Read
        },
        FieldPlan::WriteAsString => read == FieldReadPlan::ReadString,
        FieldPlan::WriteVariantIndex => read == FieldReadPlan::ReadVariantIndex,
        FieldPlan::Skip => read == FieldReadPlan::CheckExists || read == FieldReadPlan::Unit,
        FieldPlan::Forward => read == FieldReadPlan::CheckExists || read == FieldReadPlan::Forward,
    }
}

/// Every field shape the serializer stores, the deserializer reads back,
/// with a plan that reads the form in which it was written.
pub proof fn lemma_stored_fields_are_readable(call: SerCall)
    requires
        field_accepts(call) is Some,
    ensures
        field_read_accepts(reading_call(call)) is Some,
        plans_match(field_accepts(call).unwrap(), field_read_accepts(reading_call(call)).unwrap(), call),
{
}

} // verus!
