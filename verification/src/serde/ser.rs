//! What the serializers do for each call of the serde data model.
use vstd::prelude::*;

use vstd::string::StringSliceAdditionalSpecFns;

use crate::error::Error;
use crate::key::{Key, nul_padded};
use crate::nvs::{Nvs, Tables, is_flash_error};
use crate::serde::SerdeError;

verus! {

/// The calls a serde `Serializer` receives, by the shape of the data.
#[derive(Debug, Clone, Copy, PartialEq, Eq, Structural)]
pub enum SerCall {
    Bool,
    I8,
    I16,
    I32,
    I64,
    I128,
    U8,
    U16,
    U32,
    U64,
    U128,
    F32,
    F64,
    Char,
    Str,
    Bytes,
    OptionNone,
    OptionSome,
    Unit,
    UnitStruct,
    UnitVariant,
    NewtypeStruct,
    NewtypeVariant,
    Sequence,
    Tuple,
    TupleStruct,
    TupleVariant,
    MapValue,
    Struct,
    StructVariant,
}

/// What the top-level serializer does with an accepted call.
#[derive(Debug, Clone, Copy, PartialEq, Eq, Structural)]
pub enum TopLevelPlan {
    /// Serialize the wrapped value with the same serializer.
    Forward,
    /// Start writing the fields of the struct, one item per field.
    Fields,
}

/// What the serializer of one field does with an accepted call.
#[derive(Debug, Clone, Copy, PartialEq, Eq, Structural)]
pub enum FieldPlan {
    /// Write the value under the field's key.
    Write,
    /// Write the character as a string of that one character.
    WriteAsString,
    /// Write the index of the variant as a `u32`.
    WriteVariantIndex,
    /// Write nothing.
    Skip,
    /// Serialize the wrapped value under the same key.
    Forward,
}

/// The top-level serializer accepts a struct, and an option or a newtype
/// around one; everything else is refused.
pub open spec fn top_level_accepts(call: SerCall) -> Option<TopLevelPlan> {
    match call {
        SerCall::Struct => Some(TopLevelPlan::Fields),
        SerCall::OptionSome => Some(TopLevelPlan::Forward),
        SerCall::NewtypeStruct => Some(TopLevelPlan::Forward),
        _ => None,
    }
}

/// What the top-level serializer does for `call`: the plan, or the error
/// that only structs are supported at the top level.
pub fn top_level_plan(call: SerCall) -> (res: Result<TopLevelPlan, SerdeError>)
    ensures
        top_level_accepts(call) matches Some(p) ==> res == Ok::<TopLevelPlan, SerdeError>(p),
        top_level_accepts(call) is None ==> (res matches Err(SerdeError::Custom(m))
            && m@ == "top-level serializer supports only structs"@),
{
    match call {
        SerCall::Struct => Ok(TopLevelPlan::Fields),
        SerCall::OptionSome => Ok(TopLevelPlan::Forward),
        SerCall::NewtypeStruct => Ok(TopLevelPlan::Forward),
        _ => Err(SerdeError::top_level_ser()),
    }
}

/// The plan of the field serializer for the calls it accepts.
pub open spec fn field_accepts(call: SerCall) -> Option<FieldPlan> {
    match call {
        SerCall::Bool | SerCall::I8 | SerCall::I16 | SerCall::I32 | SerCall::I64 | SerCall::U8
        | SerCall::U16 | SerCall::U32 | SerCall::U64 | SerCall::Str | SerCall::Bytes => Some(
            FieldPlan::Write,
        ),
        SerCall::Char => Some(FieldPlan::WriteAsString),
        SerCall::UnitVariant => Some(FieldPlan::WriteVariantIndex),
        SerCall::OptionNone | SerCall::Unit | SerCall::UnitStruct => Some(FieldPlan::Skip),
        SerCall::OptionSome | SerCall::NewtypeStruct => Some(FieldPlan::Forward),
        _ => None,
    }
}

/// The message naming what is not supported yet, for the calls refused
/// that way (the message for `u128` reads `i128`).
pub open spec fn field_not_yet(call: SerCall) -> Option<Seq<char>> {
    match call {
        SerCall::I128 => Some("i128"@),
        SerCall::U128 => Some("i128"@),
        SerCall::F32 => Some("f32"@),
        SerCall::F64 => Some("f64"@),
        _ => None,
    }
}

/// The message naming the shape that will not be supported, for the
/// calls refused that way.
pub open spec fn field_wont(call: SerCall) -> Option<Seq<char>> {
    match call {
        SerCall::NewtypeVariant => Some("new_type_varient"@),
        SerCall::Sequence => Some("nested seq"@),
        SerCall::Tuple => Some("nested tuple"@),
        SerCall::TupleStruct => Some("nested tuple struct"@),
        SerCall::TupleVariant => Some("nested tuple varient"@),
        SerCall::MapValue => Some("nested map"@),
        SerCall::Struct => Some("nested structs"@),
        SerCall::StructVariant => Some("nested struct varient"@),
        _ => None,
    }
}

/// Every call is accepted, refused as not supported yet, or refused as
/// never to be supported: exactly one of the three.
pub proof fn lemma_field_call_classified(call: SerCall)
    ensures
        (field_accepts(call) is Some) as int + (field_not_yet(call) is Some) as int + (field_wont(call) is Some) as int == 1,
{
}

/// What the serializer of one field does for `call`.
pub fn field_plan(call: SerCall) -> (res: Result<FieldPlan, SerdeError>)
    ensures
        field_accepts(call) matches Some(p) ==> res == Ok::<FieldPlan, SerdeError>(p),
        field_not_yet(call) matches Some(msg) ==> (res matches Err(SerdeError::NotYetImplemented(m)) && m@ == msg),
        field_wont(call) matches Some(msg) ==> (res matches Err(SerdeError::WontImplement(m)) && m@ == msg),
{
    match call {
        SerCall::Bool | SerCall::I8 | SerCall::I16 | SerCall::I32 | SerCall::I64 | SerCall::U8
        | SerCall::U16 | SerCall::U32 | SerCall::U64 | SerCall::Str | SerCall::Bytes => Ok(
            FieldPlan::Write,
        ),
        SerCall::Char => Ok(FieldPlan::WriteAsString),
        SerCall::UnitVariant => Ok(FieldPlan::WriteVariantIndex),
        SerCall::OptionNone | SerCall::Unit | SerCall::UnitStruct => Ok(FieldPlan::Skip),
        SerCall::OptionSome | SerCall::NewtypeStruct => Ok(FieldPlan::Forward),
        SerCall::I128 => Err(SerdeError::not_yet_impl("i128")),
        SerCall::U128 => Err(SerdeError::not_yet_impl("i128")),
        SerCall::F32 => Err(SerdeError::not_yet_impl("f32")),
        SerCall::F64 => Err(SerdeError::not_yet_impl("f64")),
        SerCall::NewtypeVariant => Err(SerdeError::wont_impl("new_type_varient")),
        SerCall::Sequence => Err(SerdeError::wont_impl("nested seq")),
        SerCall::Tuple => Err(SerdeError::wont_impl("nested tuple")),
        SerCall::TupleStruct => Err(SerdeError::wont_impl("nested tuple struct")),
        SerCall::TupleVariant => Err(SerdeError::wont_impl("nested tuple varient")),
        SerCall::MapValue => Err(SerdeError::wont_impl("nested map")),
        SerCall::Struct => Err(SerdeError::wont_impl("nested structs")),
        SerCall::StructVariant => Err(SerdeError::wont_impl("nested struct varient")),
    }
}


/// `char::to_string`: the one-character string of `c`, as `Display` for
/// `char` writes the character itself.
#[verifier::external_body]
fn char_to_string(c: char) -> (s: String)
    ensures
        s@ == seq![c],
{
    c.to_string()
}

/// The string a character field is stored as: that one character.
pub fn char_as_stored_string(c: char) -> (s: String)
    ensures
        s@ == seq![c],
{
    char_to_string(c)
}


/// The writer of one struct field: the namespace of the struct and the
/// key made from the field's name.
pub struct ValueSerializer {
    namespace: Key,
    key: Key,
}

impl ValueSerializer {
    pub closed spec fn spec_namespace(self) -> Key {
        self.namespace
    }

    pub closed spec fn spec_key(self) -> Key {
        self.key
    }

    /// The writer of the field called `field` of a struct stored in
    /// `namespace`; a field name longer than a key cannot be stored.
    pub fn new(namespace: &Key, field: &str) -> (s: ValueSerializer)
        requires
            field.spec_bytes().len() <= crate::MAX_KEY_LENGTH,
        ensures
            s.spec_namespace() == *namespace,
            s.spec_key()@ == nul_padded(field.spec_bytes()),
    {
        ValueSerializer { namespace: *namespace, key: Key::from_str(field) }
    }

    /// The key the field is stored under.
    pub fn key(&self) -> (k: Key)
        ensures
            k == self.spec_key(),
    {
        self.key
    }

    /// Writes `v` under the field's key in the struct's namespace: the
    /// store's `set`, with `write` doing the flash work.
    pub fn write_value<T, V, F>(&self, nvs: &mut Nvs<T>, v: V, write: F) -> (res: Result<(), Error>)
        where
            F: FnOnce(&mut T, Tables, Key, Key, V) -> (Tables, Result<(), Error>),
        requires
            forall|h: &mut T, t: Tables, n: Key, k: Key, x: V| write.requires((h, t, n, k, x)),
        ensures
            old(nvs).spec_faulted() ==> res == Err::<(), Error>(Error::FlashError)
                && final(nvs).spec_tables() == old(nvs).spec_tables()
                && final(nvs).spec_hal() == old(nvs).spec_hal()
                && final(nvs).spec_faulted(),
            !old(nvs).spec_faulted() ==> {
                &&& exists|h: &mut T, t: Tables, r: Result<(), Error>| {
                    &&& #[trigger] write.ensures((h, old(nvs).spec_tables(), self.spec_namespace(), self.spec_key(), v), (t, r))
                    &&& final(nvs).spec_tables() == t
                    &&& *h == old(nvs).spec_hal()
                    &&& *final(h) == final(nvs).spec_hal()
                    &&& res == r
                }
                &&& final(nvs).spec_faulted() == is_flash_error(res)
            },
            final(nvs).same_partition(*old(nvs)),
    {
        let res = nvs.set(&self.namespace, &self.key, v, write);
        proof {
            if !old(nvs).spec_faulted() {
                let (h, t, r) = choose|h: &mut T, t: Tables, r: Result<(), Error>|
                    #[trigger] write.ensures((h, old(nvs).spec_tables(), self.namespace, self.key, v), (t, r))
                        && final(nvs).spec_tables() == t && res == r;
                assert(write.ensures((h, old(nvs).spec_tables(), self.spec_namespace(), self.spec_key(), v), (t, r)));
            }
        }
        res
    }
}

} // verus!
