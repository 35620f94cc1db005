use esp_nvs::serde::de::ValueDeserializer as FieldReader;
use esp_nvs::serde::ser::ValueSerializer as FieldWriter;
use esp_nvs::serde::de::{
    field_read_plan, top_level_read_plan, variant_content, variant_name, DeCall, FieldCursor, FieldReadPlan,
    TopLevelReadPlan, VariantShape,
};
use esp_nvs::serde::ser::{char_as_stored_string, field_plan, top_level_plan, FieldPlan, SerCall, TopLevelPlan};
use esp_nvs::serde::SerdeError;
use esp_nvs::{Error, Key};

fn custom(e: SerdeError) -> String {
    match e {
        SerdeError::Custom(m) => m,
        other => panic!("not a custom error: {:?}", other),
    }
}

fn wont(e: SerdeError) -> String {
    match e {
        SerdeError::WontImplement(m) => m,
        other => panic!("not a won't-implement error: {:?}", other),
    }
}

fn not_yet(e: SerdeError) -> String {
    match e {
        SerdeError::NotYetImplemented(m) => m,
        other => panic!("not a not-yet error: {:?}", other),
    }
}

#[test]
fn error_constructors_carry_their_messages() {
    assert_eq!(custom(SerdeError::top_level_ser()), "top-level serializer supports only structs");
    assert_eq!(custom(SerdeError::no_key()), "tried to serialize a value before serializing key");
    assert_eq!(wont(SerdeError::wont_impl("nested map")), "nested map");
    assert_eq!(not_yet(SerdeError::not_yet_impl("f32")), "f32");
    assert_eq!(custom(SerdeError::custom("boom".to_string())), "boom");
    assert!(matches!(SerdeError::from(Error::KeyNotFound), SerdeError::NvsError(Error::KeyNotFound)));
}

#[test]
fn top_level_accepts_structs_only() {
    assert_eq!(top_level_plan(SerCall::Struct).unwrap(), TopLevelPlan::Fields);
    assert_eq!(top_level_plan(SerCall::OptionSome).unwrap(), TopLevelPlan::Forward);
    assert_eq!(top_level_plan(SerCall::NewtypeStruct).unwrap(), TopLevelPlan::Forward);
    for call in [SerCall::Bool, SerCall::U32, SerCall::Str, SerCall::OptionNone, SerCall::Unit, SerCall::Sequence, SerCall::MapValue, SerCall::StructVariant, SerCall::F64] {
        assert_eq!(custom(top_level_plan(call).unwrap_err()), "top-level serializer supports only structs");
    }
}

#[test]
fn field_serializer_plans() {
    for call in [SerCall::Bool, SerCall::I8, SerCall::I16, SerCall::I32, SerCall::I64, SerCall::U8, SerCall::U16, SerCall::U32, SerCall::U64, SerCall::Str, SerCall::Bytes] {
        assert_eq!(field_plan(call).unwrap(), FieldPlan::Write);
    }
    assert_eq!(field_plan(SerCall::Char).unwrap(), FieldPlan::WriteAsString);
    assert_eq!(field_plan(SerCall::UnitVariant).unwrap(), FieldPlan::WriteVariantIndex);
    assert_eq!(field_plan(SerCall::OptionNone).unwrap(), FieldPlan::Skip);
    assert_eq!(field_plan(SerCall::Unit).unwrap(), FieldPlan::Skip);
    assert_eq!(field_plan(SerCall::UnitStruct).unwrap(), FieldPlan::Skip);
    assert_eq!(field_plan(SerCall::OptionSome).unwrap(), FieldPlan::Forward);
    assert_eq!(field_plan(SerCall::NewtypeStruct).unwrap(), FieldPlan::Forward);
}

#[test]
fn field_serializer_refusals() {
    assert_eq!(not_yet(field_plan(SerCall::I128).unwrap_err()), "i128");
    assert_eq!(not_yet(field_plan(SerCall::U128).unwrap_err()), "i128");
    assert_eq!(not_yet(field_plan(SerCall::F32).unwrap_err()), "f32");
    assert_eq!(not_yet(field_plan(SerCall::F64).unwrap_err()), "f64");
    assert_eq!(wont(field_plan(SerCall::NewtypeVariant).unwrap_err()), "new_type_varient");
    assert_eq!(wont(field_plan(SerCall::Sequence).unwrap_err()), "nested seq");
    assert_eq!(wont(field_plan(SerCall::Tuple).unwrap_err()), "nested tuple");
    assert_eq!(wont(field_plan(SerCall::TupleStruct).unwrap_err()), "nested tuple struct");
    assert_eq!(wont(field_plan(SerCall::TupleVariant).unwrap_err()), "nested tuple varient");
    assert_eq!(wont(field_plan(SerCall::MapValue).unwrap_err()), "nested map");
    assert_eq!(wont(field_plan(SerCall::Struct).unwrap_err()), "nested structs");
    assert_eq!(wont(field_plan(SerCall::StructVariant).unwrap_err()), "nested struct varient");
}

#[test]
fn characters_are_stored_as_one_character_strings() {
    assert_eq!(char_as_stored_string('X'), "X");
    assert_eq!(char_as_stored_string('é'), "é");
}

#[test]
fn top_level_deserializer_reads_structs_only() {
    assert_eq!(top_level_read_plan(DeCall::Struct).unwrap(), TopLevelReadPlan::Fields);
    assert_eq!(wont(top_level_read_plan(DeCall::Identifier).unwrap_err()), "ident");
    assert_eq!(wont(top_level_read_plan(DeCall::IgnoredAny).unwrap_err()), "ignored_any");
    assert_eq!(wont(top_level_read_plan(DeCall::Enum).unwrap_err()), "top level enum");
    for call in [DeCall::Any, DeCall::Bool, DeCall::U128, DeCall::StringValue, DeCall::OptionValue, DeCall::Sequence, DeCall::MapValue, DeCall::Unit] {
        assert_eq!(wont(top_level_read_plan(call).unwrap_err()), "any");
    }
}

#[test]
fn field_deserializer_plans() {
    for call in [DeCall::Bool, DeCall::I8, DeCall::I16, DeCall::I32, DeCall::I64, DeCall::U8, DeCall::U16, DeCall::U32, DeCall::U64] {
        assert_eq!(field_read_plan(call).unwrap(), FieldReadPlan::Read);
    }
    for call in [DeCall::StringValue, DeCall::Str, DeCall::Char] {
        assert_eq!(field_read_plan(call).unwrap(), FieldReadPlan::ReadString);
    }
    assert_eq!(field_read_plan(DeCall::Bytes).unwrap(), FieldReadPlan::ReadBytes);
    assert_eq!(field_read_plan(DeCall::ByteBuf).unwrap(), FieldReadPlan::ReadBytes);
    assert_eq!(field_read_plan(DeCall::Enum).unwrap(), FieldReadPlan::ReadVariantIndex);
    assert_eq!(field_read_plan(DeCall::OptionValue).unwrap(), FieldReadPlan::CheckExists);
    assert_eq!(field_read_plan(DeCall::Unit).unwrap(), FieldReadPlan::Unit);
    assert_eq!(field_read_plan(DeCall::UnitStruct).unwrap(), FieldReadPlan::Unit);
    assert_eq!(field_read_plan(DeCall::NewtypeStruct).unwrap(), FieldReadPlan::Forward);
}

#[test]
fn field_deserializer_refusals() {
    assert_eq!(not_yet(field_read_plan(DeCall::U128).unwrap_err()), "u128");
    assert_eq!(not_yet(field_read_plan(DeCall::I128).unwrap_err()), "i128");
    assert_eq!(not_yet(field_read_plan(DeCall::F32).unwrap_err()), "f32");
    assert_eq!(not_yet(field_read_plan(DeCall::F64).unwrap_err()), "f64");
    for call in [DeCall::Any, DeCall::Sequence, DeCall::Tuple, DeCall::TupleStruct, DeCall::MapValue, DeCall::Struct, DeCall::Identifier, DeCall::IgnoredAny] {
        assert_eq!(wont(field_read_plan(call).unwrap_err()), "inner any");
    }
}

#[test]
fn variant_names_come_from_the_stored_index() {
    let variants = ["A", "B", "C"];
    assert_eq!(variant_name(0, &variants).unwrap(), "A");
    assert_eq!(variant_name(2, &variants).unwrap(), "C");
    assert_eq!(custom(variant_name(3, &variants).unwrap_err()), "enum index 3 out of range (3 variants)");
    assert_eq!(custom(variant_name(4294967295, &variants).unwrap_err()), "enum index 4294967295 out of range (3 variants)");
    assert_eq!(custom(variant_name(10, &[]).unwrap_err()), "enum index 10 out of range (0 variants)");
}

#[test]
fn only_unit_variants_have_content() {
    assert!(variant_content(VariantShape::Unit).is_ok());
    assert_eq!(wont(variant_content(VariantShape::Newtype).unwrap_err()), "newtype enum");
    assert_eq!(wont(variant_content(VariantShape::Tuple).unwrap_err()), "tuple variant");
    assert_eq!(wont(variant_content(VariantShape::Struct).unwrap_err()), "struct variant");
}

#[test]
fn field_cursor_walks_the_fields_in_order() {
    let fields = ["field0", "enum1", "option2"];
    let mut cursor = FieldCursor::new();
    assert_eq!(cursor.index(), 0);
    match cursor.next_value_key() {
        Err(e) => assert_eq!(custom(e), "tried to serialize a value before serializing key"),
        Ok(_) => panic!("a value key before any field"),
    }
    for name in fields {
        assert_eq!(cursor.next_key(&fields), Some(name));
        assert!(matches!(cursor.next_value_key(), Ok(k) if k == Key::from_str(name)));
        assert!(cursor.next_value_key().is_err());
    }
    assert_eq!(cursor.index(), 3);
    assert_eq!(cursor.next_key(&fields), None);
    assert_eq!(cursor.index(), 3);
}

#[test]
fn writer_and_reader_plans_match() {
    let pairs = [
        (SerCall::Bool, DeCall::Bool, FieldPlan::Write, FieldReadPlan::Read),
        (SerCall::I32, DeCall::I32, FieldPlan::Write, FieldReadPlan::Read),
        (SerCall::U64, DeCall::U64, FieldPlan::Write, FieldReadPlan::Read),
        (SerCall::Str, DeCall::StringValue, FieldPlan::Write, FieldReadPlan::ReadString),
        (SerCall::Bytes, DeCall::ByteBuf, FieldPlan::Write, FieldReadPlan::ReadBytes),
        (SerCall::Char, DeCall::Char, FieldPlan::WriteAsString, FieldReadPlan::ReadString),
        (SerCall::UnitVariant, DeCall::Enum, FieldPlan::WriteVariantIndex, FieldReadPlan::ReadVariantIndex),
        (SerCall::OptionNone, DeCall::OptionValue, FieldPlan::Skip, FieldReadPlan::CheckExists),
        (SerCall::OptionSome, DeCall::OptionValue, FieldPlan::Forward, FieldReadPlan::CheckExists),
        (SerCall::Unit, DeCall::Unit, FieldPlan::Skip, FieldReadPlan::Unit),
        (SerCall::NewtypeStruct, DeCall::NewtypeStruct, FieldPlan::Forward, FieldReadPlan::Forward),
    ];
    for (w, r, wp, rp) in pairs {
        assert_eq!(field_plan(w).unwrap(), wp);
        assert_eq!(field_read_plan(r).unwrap(), rp);
    }
}

#[test]
fn a_field_is_read_under_the_key_it_was_written_under() {
    let ns = Key::from_str("test");
    let writer = FieldWriter::new(&ns, "field3");
    let fields = ["field3"];
    let mut cursor = FieldCursor::new();
    cursor.next_key(&fields);
    let key = match cursor.next_value_key() {
        Ok(k) => k,
        Err(_) => panic!("no pending key"),
    };
    assert!(writer.key() == key);
    let _reader = FieldReader::new(&ns, key);
}
