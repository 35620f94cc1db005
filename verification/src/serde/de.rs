//! What the deserializers do for each call of the serde data model.
use vstd::prelude::*;
use vstd::string::StringSliceAdditionalSpecFns;

use crate::error::Error;
use crate::key::{Key, nul_padded};
use crate::nvs::{Nvs, Tables, is_flash_error};
use crate::serde::SerdeError;
use crate::text::{ascii_chars, ascii_string, decimal_digits, push_decimal, lemma_decimal_digits_ascii};

verus! {

/// The calls a serde `Deserializer` receives, by the shape of the data.
#[derive(Debug, Clone, Copy, PartialEq, Eq, Structural)]
pub enum DeCall {
    Any,
    Bool,
    I8,
    I16,
    I32,
    I64,
    I128,
    U8,
    U16,
    U32,
    U64,
    U128,
    F32,
    F64,
    Char,
    Str,
    StringValue,
    Bytes,
    ByteBuf,
    OptionValue,
    Unit,
    UnitStruct,
    NewtypeStruct,
    Sequence,
    Tuple,
    TupleStruct,
    MapValue,
    Struct,
    Enum,
    Identifier,
    IgnoredAny,
}

/// What the top-level deserializer does with an accepted call.
#[derive(Debug, Clone, Copy, PartialEq, Eq, Structural)]
pub enum TopLevelReadPlan {
    /// Read the fields of the struct, one item per field.
    Fields,
}

/// What the deserializer of one field does with an accepted call.
#[derive(Debug, Clone, Copy, PartialEq, Eq, Structural)]
pub enum FieldReadPlan {
    /// Read the value stored under the field's key.
    Read,
    /// Read a string stored under the field's key.
    ReadString,
    /// Read bytes stored under the field's key.
    ReadBytes,
    /// Read the `u32` index of a unit variant.
    ReadVariantIndex,
    /// `Some` of the value when an item of the key exists, `None` otherwise.
    CheckExists,
    /// The unit value; nothing is read.
    Unit,
    /// Deserialize the wrapped value from the same key.
    Forward,
}

/// The shapes of an enum variant.
#[derive(Debug, Clone, Copy, PartialEq, Eq, Structural)]
pub enum VariantShape {
    Unit,
    Newtype,
    Tuple,
    Struct,
}

/// The message of the top-level deserializer's refusal of `call`; only a
/// struct is accepted.
pub open spec fn top_level_refusal(call: DeCall) -> Seq<char> {
    match call {
        DeCall::Identifier => "ident"@,
        DeCall::IgnoredAny => "ignored_any"@,
        DeCall::Enum => "top level enum"@,
        _ => "any"@,
    }
}

/// What the top-level deserializer does for `call`.
pub fn top_level_read_plan(call: DeCall) -> (res: Result<TopLevelReadPlan, SerdeError>)
    ensures
        call == DeCall::Struct ==> res == Ok::<TopLevelReadPlan, SerdeError>(TopLevelReadPlan::Fields),
        call != DeCall::Struct ==> (res matches Err(SerdeError::WontImplement(m)) && m@ == top_level_refusal(call)),
{
    match call {
        DeCall::Struct => Ok(TopLevelReadPlan::Fields),
        DeCall::Identifier => Err(SerdeError::wont_impl("ident")),
        DeCall::IgnoredAny => Err(SerdeError::wont_impl("ignored_any")),
        DeCall::Enum => Err(SerdeError::wont_impl("top level enum")),
        _ => Err(SerdeError::wont_impl("any")),
    }
}

/// The plan of the field deserializer for the calls it accepts.
pub open spec fn field_read_accepts(call: DeCall) -> Option<FieldReadPlan> {
    match call {
        DeCall::Bool | DeCall::I8 | DeCall::I16 | DeCall::I32 | DeCall::I64 | DeCall::U8 | DeCall::U16
        | DeCall::U32 | DeCall::U64 => Some(FieldReadPlan::Read),
        DeCall::StringValue | DeCall::Str | DeCall::Char => Some(FieldReadPlan::ReadString),
        DeCall::ByteBuf | DeCall::Bytes => Some(FieldReadPlan::ReadBytes),
        DeCall::Enum => Some(FieldReadPlan::ReadVariantIndex),
        DeCall::OptionValue => Some(FieldReadPlan::CheckExists),
        DeCall::Unit | DeCall::UnitStruct => Some(FieldReadPlan::Unit),
        DeCall::NewtypeStruct => Some(FieldReadPlan::Forward),
        _ => None,
    }
}

/// The message naming what is not supported yet, for the calls refused
/// that way.
pub open spec fn field_read_not_yet(call: DeCall) -> Option<Seq<char>> {
    match call {
        DeCall::U128 => Some("u128"@),
        DeCall::I128 => Some("i128"@),
        DeCall::F32 => Some("f32"@),
        DeCall::F64 => Some("f64"@),
        _ => None,
    }
}

/// The calls refused as "inner any": `any` itself and the compound shapes
/// that are read through it.
pub open spec fn field_read_wont(call: DeCall) -> bool {
    match call {
        DeCall::Any | DeCall::Sequence | DeCall::Tuple | DeCall::TupleStruct | DeCall::MapValue
        | DeCall::Struct | DeCall::Identifier | DeCall::IgnoredAny => true,
        _ => false,
    }
}

/// Every call is accepted, refused as not supported yet, or refused as
/// never to be supported: exactly one of the three.
pub proof fn lemma_field_read_call_classified(call: DeCall)
    ensures
        (field_read_accepts(call) is Some) as int + (field_read_not_yet(call) is Some) as int
            + field_read_wont(call) as int == 1,
{
}

/// What the deserializer of one field does for `call`.
pub fn field_read_plan(call: DeCall) -> (res: Result<FieldReadPlan, SerdeError>)
    ensures
        field_read_accepts(call) matches Some(p) ==> res == Ok::<FieldReadPlan, SerdeError>(p),
        field_read_not_yet(call) matches Some(msg) ==> (res matches Err(SerdeError::NotYetImplemented(m)) && m@ == msg),
        field_read_wont(call) ==> (res matches Err(SerdeError::WontImplement(m)) && m@ == "inner any"@),
{
    match call {
        DeCall::Bool | DeCall::I8 | DeCall::I16 | DeCall::I32 | DeCall::I64 | DeCall::U8 | DeCall::U16
        | DeCall::U32 | DeCall::U64 => Ok(FieldReadPlan::Read),
        DeCall::StringValue | DeCall::Str | DeCall::Char => Ok(FieldReadPlan::ReadString),
        DeCall::ByteBuf | DeCall::Bytes => Ok(FieldReadPlan::ReadBytes),
        DeCall::Enum => Ok(FieldReadPlan::ReadVariantIndex),
        DeCall::OptionValue => Ok(FieldReadPlan::CheckExists),
        DeCall::Unit | DeCall::UnitStruct => Ok(FieldReadPlan::Unit),
        DeCall::NewtypeStruct => Ok(FieldReadPlan::Forward),
        DeCall::U128 => Err(SerdeError::not_yet_impl("u128")),
        DeCall::I128 => Err(SerdeError::not_yet_impl("i128")),
        DeCall::F32 => Err(SerdeError::not_yet_impl("f32")),
        DeCall::F64 => Err(SerdeError::not_yet_impl("f64")),
        _ => Err(SerdeError::wont_impl("inner any")),
    }
}

/// The message of the refusal of a variant of `shape`; only unit
/// variants are stored.
pub open spec fn variant_refusal(shape: VariantShape) -> Seq<char> {
    match shape {
        VariantShape::Newtype => "newtype enum"@,
        VariantShape::Tuple => "tuple variant"@,
        _ => "struct variant"@,
    }
}

/// Reading the content of a variant: nothing for a unit variant, refused
/// for the others.
pub fn variant_content(shape: VariantShape) -> (res: Result<(), SerdeError>)
    ensures
        shape == VariantShape::Unit ==> res is Ok,
        shape != VariantShape::Unit ==> (res matches Err(SerdeError::WontImplement(m)) && m@ == variant_refusal(shape)),
{
    match shape {
        VariantShape::Unit => Ok(()),
        VariantShape::Newtype => Err(SerdeError::wont_impl("newtype enum")),
        VariantShape::Tuple => Err(SerdeError::wont_impl("tuple variant")),
        VariantShape::Struct => Err(SerdeError::wont_impl("struct variant")),
    }
}

/// The message for a stored variant index beyond the variants:
/// `enum index {idx} out of range ({count} variants)`.
pub open spec fn variant_out_of_range(idx: nat, count: nat) -> Seq<char> {
    "enum index "@ + ascii_chars(decimal_digits(idx)) + " out of range ("@ + ascii_chars(
        decimal_digits(count),
    ) + " variants)"@
}

fn decimal_string(n: u64) -> (s: String)
    ensures
        s@ == ascii_chars(decimal_digits(n as nat)),
{
    let mut digits: Vec<u8> = Vec::new();
    push_decimal(&mut digits, n);
    proof {
        lemma_decimal_digits_ascii(n as nat);
        assert(digits@ =~= decimal_digits(n as nat));
    }
    ascii_string(digits)
}

/// The name of the variant whose index was stored, or the error that the
/// index is out of range.
pub fn variant_name<'a>(idx: u32, variants: &[&'a str]) -> (res: Result<&'a str, SerdeError>)
    ensures
        idx < variants@.len() ==> res == Ok::<&'a str, SerdeError>(variants@[idx as int]),
        idx >= variants@.len() ==> (res matches Err(SerdeError::Custom(m))
            && m@ == variant_out_of_range(idx as nat, variants@.len())),
{
    let i: usize = idx as usize;
    if i < variants.len() {
        Ok(variants[i])
    } else {
        let mut msg = String::from_str("enum index ");
        let index_text = decimal_string(idx as u64);
        msg.append(index_text.as_str());
        msg.append(" out of range (");
        let count_text = decimal_string(variants.len() as u64);
        msg.append(count_text.as_str());
        msg.append(" variants)");
        Err(SerdeError::Custom(msg))
    }
}

/// The walk over the fields of a struct being read: the next field, and
/// the key of the field whose value comes next.
pub struct FieldCursor {
    idx: usize,
    pending_key: Option<Key>,
}

impl FieldCursor {
    /// How many fields were handed out.
    pub closed spec fn spec_index(self) -> usize {
        self.idx
    }

    /// The key of the field whose value is to be read, if any.
    pub closed spec fn spec_pending_key(self) -> Option<Key> {
        self.pending_key
    }

    /// A walk at the first field.
    pub fn new() -> (c: FieldCursor)
        ensures
            c.spec_index() == 0,
            c.spec_pending_key() is None,
    {
        FieldCursor { idx: 0, pending_key: None }
    }

    /// How many fields were handed out.
    pub fn index(&self) -> (i: usize)
        ensures
            i == self.spec_index(),
    {
        self.idx
    }

    /// The next field name, if any is left; its key becomes the pending
    /// key. A field name longer than a key cannot be stored.
    pub fn next_key<'a>(&mut self, fields: &[&'a str]) -> (name: Option<&'a str>)
        requires
            old(self).spec_index() < fields@.len() ==> fields@[old(self).spec_index() as int].spec_bytes().len() <= 15,
        ensures
            old(self).spec_index() < fields@.len() ==> {
                &&& name == Some(fields@[old(self).spec_index() as int])
                &&& final(self).spec_index() == old(self).spec_index() + 1
                &&& final(self).spec_pending_key() matches Some(k)
                &&& k@ == nul_padded(fields@[old(self).spec_index() as int].spec_bytes())
            },
            old(self).spec_index() >= fields@.len() ==> name is None && final(self).spec_index() == old(self).spec_index()
                && final(self).spec_pending_key() == old(self).spec_pending_key(),
    {
        if self.idx < fields.len() {
            let field = fields[self.idx];
            self.idx = self.idx + 1;
            let k = Key::from_str(field);
            self.pending_key = Some(k);
            return Some(field);
        }
        None
    }

    /// Takes the pending key, or fails when no field name came before.
    pub fn next_value_key(&mut self) -> (res: Result<Key, SerdeError>)
        ensures
            old(self).spec_pending_key() matches Some(k) ==> res == Ok::<Key, SerdeError>(k),
            old(self).spec_pending_key() is None ==> (res matches Err(SerdeError::Custom(m))
                && m@ == "tried to serialize a value before serializing key"@),
            final(self).spec_pending_key() is None,
            final(self).spec_index() == old(self).spec_index(),
    {
        match self.pending_key.take() {
            Some(k) => Ok(k),
            None => Err(SerdeError::no_key()),
        }
    }
}


/// The reader of one struct field: the namespace of the struct and the
/// key of the field.
pub struct ValueDeserializer {
    namespace: Key,
    key: Key,
}

impl ValueDeserializer {
    pub closed spec fn spec_namespace(self) -> Key {
        self.namespace
    }

    pub closed spec fn spec_key(self) -> Key {
        self.key
    }

    /// The reader of the field stored under `key` in `namespace`.
    pub fn new(namespace: &Key, key: Key) -> (d: ValueDeserializer)
        ensures
            d.spec_namespace() == *namespace,
            d.spec_key() == key,
    {
        ValueDeserializer { namespace: *namespace, key }
    }

    /// Reads the value under the field's key in the struct's namespace:
    /// the store's `get`, with `read` doing the flash work.
    pub fn read_value<T, R, F>(&self, nvs: &mut Nvs<T>, read: F) -> (res: Result<R, Error>)
        where
            F: FnOnce(&mut T, Tables, Key, Key) -> (Tables, Result<R, Error>),
        requires
            forall|h: &mut T, t: Tables, n: Key, k: Key| read.requires((h, t, n, k)),
        ensures
            exists|h: &mut T, t: Tables, r: Result<R, Error>| {
                &&& #[trigger] read.ensures((h, old(nvs).spec_tables(), self.spec_namespace(), self.spec_key()), (t, r))
                &&& final(nvs).spec_tables() == t
                &&& *h == old(nvs).spec_hal()
                &&& *final(h) == final(nvs).spec_hal()
                &&& res == r
            },
            final(nvs).spec_faulted() == (old(nvs).spec_faulted() || is_flash_error(res)),
            final(nvs).same_partition(*old(nvs)),
    {
        let res = nvs.get(&self.namespace, &self.key, read);
        proof {
            let (h, t, r) = choose|h: &mut T, t: Tables, r: Result<R, Error>|
                #[trigger] read.ensures((h, old(nvs).spec_tables(), self.namespace, self.key), (t, r))
                    && final(nvs).spec_tables() == t && res == r;
            assert(read.ensures((h, old(nvs).spec_tables(), self.spec_namespace(), self.spec_key()), (t, r)));
        }
        res
    }

    /// Whether an optional field is present: whether an item of the key
    /// exists in the namespace; the store's errors become `NvsError`.
    pub fn is_present<T, V, F>(&self, nvs: &mut Nvs<T>, load_item: F) -> (res: Result<bool, SerdeError>)
        where
            F: FnOnce(&mut T, Tables, u8, Key) -> (Tables, Result<V, Error>),
        requires
            forall|h: &mut T, t: Tables, i: u8, k: Key| load_item.requires((h, t, i, k)),
        ensures
            self.spec_key()@[15] != 0 ==> (res matches Err(SerdeError::NvsError(e)) && e == Error::KeyMalformed),
            self.spec_key()@[15] == 0 && self.spec_namespace()@[15] != 0
                ==> (res matches Err(SerdeError::NvsError(e)) && e == Error::NamespaceMalformed),
            self.spec_key()@[15] == 0 && self.spec_namespace()@[15] == 0
                && !old(nvs).spec_tables().spec_namespaces().contains_key(self.spec_namespace()@)
                ==> (res matches Err(SerdeError::NvsError(e)) && e == Error::NamespaceNotFound),
            self.spec_key()@[15] == 0 && self.spec_namespace()@[15] == 0
                && old(nvs).spec_tables().spec_namespaces().contains_key(self.spec_namespace()@)
                ==> exists|h: &mut T, t: Tables, r: Result<V, Error>| {
                    &&& #[trigger] load_item.ensures(
                        (h, old(nvs).spec_tables(), old(nvs).spec_tables().spec_namespaces()[self.spec_namespace()@], self.spec_key()),
                        (t, r),
                    )
                    &&& final(nvs).spec_tables() == t
                    &&& *h == old(nvs).spec_hal()
                    &&& *final(h) == final(nvs).spec_hal()
                    &&& res matches Ok(b) && b == (r is Ok)
                },
            self.spec_key()@[15] != 0 || self.spec_namespace()@[15] != 0
                || !old(nvs).spec_tables().spec_namespaces().contains_key(self.spec_namespace()@)
                ==> final(nvs).spec_tables() == old(nvs).spec_tables() && final(nvs).spec_hal() == old(nvs).spec_hal(),
            final(nvs).spec_faulted() == old(nvs).spec_faulted(),
            final(nvs).same_partition(*old(nvs)),
    {
        match nvs.check_key_exists(&self.namespace, &self.key, load_item) {
            Ok(b) => Ok(b),
            Err(e) => Err(SerdeError::from(e)),
        }
    }
}

} // verus!
