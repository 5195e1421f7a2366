use tagdefs::{
    Bitfield, DefaultBehavior, DefinitionsError, Enum, Field, FieldCount, FieldObject, Flags,
    LimitType, NamedObject, ParsedDefinitions, SizeableObject, StaticValue, Struct, StructField,
    StructFieldType,
};

fn empty_defs() -> ParsedDefinitions {
    ParsedDefinitions::default()
}

fn option(name: &str, value: u32) -> Field {
    Field {
        name: name.to_string(),
        name_rust_enum: String::new(),
        name_rust_field: String::new(),
        flags: Flags::default(),
        value,
    }
}

#[test]
fn field_count_arithmetic() {
    assert_eq!(FieldCount::One.field_count(), 1);
    assert_eq!(FieldCount::Bounds.field_count(), 2);
    assert_eq!(FieldCount::Array(7).field_count(), 7);
    assert_eq!(FieldCount::Array(0).field_count(), 0);
}

#[test]
fn primitive_sizes_match_the_binary_formats() {
    assert_eq!(FieldObject::U8.primitive_size(), 1);
    assert_eq!(FieldObject::I8.primitive_size(), 1);
    assert_eq!(FieldObject::U16.primitive_size(), 2);
    assert_eq!(FieldObject::Index.primitive_size(), 2);
    assert_eq!(FieldObject::CompressedFloat.primitive_size(), 2);
    assert_eq!(FieldObject::U32.primitive_size(), 4);
    assert_eq!(FieldObject::Angle.primitive_size(), 4);
    assert_eq!(FieldObject::Pixel32.primitive_size(), 4);
    assert_eq!(FieldObject::TagGroup.primitive_size(), 4);
    assert_eq!(FieldObject::ScenarioScriptNodeValue.primitive_size(), 4);
    assert_eq!(FieldObject::Reflexive("x".to_string()).primitive_size(), 0xC);
    assert_eq!(
        FieldObject::TagReference { allowed_groups: Vec::new() }.primitive_size(),
        0x10
    );
    assert_eq!(FieldObject::Data.primitive_size(), 0x14);
    assert_eq!(FieldObject::FileData.primitive_size(), 0x14);
    assert_eq!(FieldObject::BSPVertexData.primitive_size(), 0x14);
    assert_eq!(FieldObject::UTF16String.primitive_size(), 0x14);
    assert_eq!(FieldObject::String32.primitive_size(), 32);
}

#[test]
fn composite_sizes_are_multiples_of_their_component() {
    let f32_size = FieldObject::F32.primitive_size();
    let i16_size = FieldObject::I16.primitive_size();
    assert_eq!(FieldObject::Vector2D.primitive_size(), 2 * f32_size);
    assert_eq!(FieldObject::Vector3D.primitive_size(), 3 * f32_size);
    assert_eq!(FieldObject::Euler2D.primitive_size(), 2 * f32_size);
    assert_eq!(FieldObject::Euler3D.primitive_size(), 3 * f32_size);
    assert_eq!(FieldObject::Plane2D.primitive_size(), 3 * f32_size);
    assert_eq!(FieldObject::Plane3D.primitive_size(), 4 * f32_size);
    assert_eq!(FieldObject::Quaternion.primitive_size(), 4 * f32_size);
    assert_eq!(FieldObject::Matrix2x3.primitive_size(), 6 * f32_size);
    assert_eq!(FieldObject::Matrix3x3.primitive_size(), 9 * f32_size);
    assert_eq!(FieldObject::ColorRGB.primitive_size(), 3 * f32_size);
    assert_eq!(FieldObject::ColorARGB.primitive_size(), 4 * f32_size);
    assert_eq!(FieldObject::Rectangle.primitive_size(), 4 * i16_size);
    assert_eq!(FieldObject::Vector2DInt.primitive_size(), 2 * i16_size);
}

#[test]
fn composite_counts_match_their_components() {
    assert_eq!(FieldObject::Vector3D.composite_count(), 3);
    assert_eq!(FieldObject::Matrix3x3.composite_count(), 9);
    assert_eq!(FieldObject::Rectangle.composite_count(), 4);
    assert_eq!(FieldObject::Quaternion.composite_count(), 4);
    assert_eq!(FieldObject::U32.composite_count(), 1);
    assert_eq!(FieldObject::String32.composite_count(), 1);
}

#[test]
fn enum_is_two_bytes_whatever_the_option_count() {
    let d = empty_defs();
    let none = Enum { name: "none".to_string(), options: Vec::new(), flags: Flags::default() };
    let many = Enum {
        name: "many".to_string(),
        options: (0..100).map(|v| option("opt", v)).collect(),
        flags: Flags::default(),
    };
    assert_eq!(none.size(&d), 2);
    assert_eq!(many.size(&d), 2);
}

#[test]
fn bitfield_is_width_over_eight_bytes_whatever_the_bit_count() {
    let d = empty_defs();
    let thin = Bitfield {
        name: "thin".to_string(),
        width: 8,
        fields: Vec::new(),
        flags: Flags::default(),
    };
    let wide = Bitfield {
        name: "wide".to_string(),
        width: 32,
        fields: vec![option("a", 1), option("b", 2), option("c", 4)],
        flags: Flags::default(),
    };
    assert_eq!(thin.size(&d), 1);
    assert_eq!(wide.size(&d), 4);
}

#[test]
fn bad_bitfield_width_is_an_ingestion_error() {
    let crooked = Bitfield {
        name: "crooked".to_string(),
        width: 12,
        fields: Vec::new(),
        flags: Flags::default(),
    };
    let err = ParsedDefinitions::from_declarations(
        vec![NamedObject::Bitfield(crooked)],
        Vec::new(),
        Vec::new(),
    )
    .unwrap_err();
    match err {
        DefinitionsError::InvalidBitfieldWidth { name, width } => {
            assert_eq!(name, "crooked");
            assert_eq!(width, 12);
        },
        other => panic!("expected an invalid width, got {:?}", other),
    }
}

#[test]
fn named_object_reports_its_name() {
    let e = Enum { name: "modes".to_string(), options: Vec::new(), flags: Flags::default() };
    assert_eq!(NamedObject::Enum(e).name(), "modes");
    let b = Bitfield {
        name: "bits".to_string(),
        width: 16,
        fields: Vec::new(),
        flags: Flags::default(),
    };
    assert_eq!(NamedObject::Bitfield(b).name(), "bits");
}

#[test]
fn is_const_classifies_pointer_bearing_kinds() {
    assert_eq!(FieldObject::NamedObject("x".to_string()).is_const(), None);
    assert_eq!(FieldObject::Reflexive("x".to_string()).is_const(), Some(false));
    assert_eq!(
        FieldObject::TagReference { allowed_groups: Vec::new() }.is_const(),
        Some(false)
    );
    assert_eq!(FieldObject::Data.is_const(), Some(false));
    assert_eq!(FieldObject::FileData.is_const(), Some(false));
    assert_eq!(FieldObject::UTF16String.is_const(), Some(false));
    assert_eq!(FieldObject::BSPVertexData.is_const(), Some(false));
    assert_eq!(FieldObject::U32.is_const(), Some(true));
    assert_eq!(FieldObject::Vector3D.is_const(), Some(true));
    assert_eq!(FieldObject::String32.is_const(), Some(true));
}

#[test]
fn primitive_value_types_use_the_matching_family() {
    assert_eq!(FieldObject::U8.primitive_value_type(), Some(StaticValue::Uint(0)));
    assert_eq!(FieldObject::Pixel32.primitive_value_type(), Some(StaticValue::Uint(0)));
    assert_eq!(FieldObject::I16.primitive_value_type(), Some(StaticValue::Int(0)));
    assert_eq!(FieldObject::Rectangle.primitive_value_type(), Some(StaticValue::Int(0)));
    assert_eq!(
        FieldObject::F32.primitive_value_type(),
        Some(StaticValue::Float(0.0f32.to_bits()))
    );
    assert_eq!(
        FieldObject::Quaternion.primitive_value_type(),
        Some(StaticValue::Float(0))
    );
    assert_eq!(
        FieldObject::String32.primitive_value_type(),
        Some(StaticValue::String(String::new()))
    );
    assert_eq!(FieldObject::Data.primitive_value_type(), None);
    assert_eq!(FieldObject::TagID.primitive_value_type(), None);
    assert_eq!(
        FieldObject::NamedObject("x".to_string()).primitive_value_type(),
        None
    );
}

#[test]
fn duplicate_object_names_are_an_ingestion_error() {
    let a = Enum { name: "twin".to_string(), options: Vec::new(), flags: Flags::default() };
    let b = Bitfield {
        name: "twin".to_string(),
        width: 8,
        fields: Vec::new(),
        flags: Flags::default(),
    };
    let err = ParsedDefinitions::from_declarations(
        vec![NamedObject::Enum(a), NamedObject::Bitfield(b)],
        Vec::new(),
        Vec::new(),
    )
    .unwrap_err();
    match err {
        DefinitionsError::DuplicateName { name } => assert_eq!(name, "twin"),
        other => panic!("expected a duplicate name, got {:?}", other),
    }
}

#[test]
fn lookup_finds_objects_by_name() {
    let a = Enum { name: "first".to_string(), options: Vec::new(), flags: Flags::default() };
    let b = Enum { name: "second".to_string(), options: Vec::new(), flags: Flags::default() };
    let d = ParsedDefinitions::from_declarations(
        vec![NamedObject::Enum(a), NamedObject::Enum(b)],
        Vec::new(),
        Vec::new(),
    )
    .unwrap();
    assert_eq!(d.find_object_index(&"first".to_string()), Some(0));
    assert_eq!(d.find_object_index(&"second".to_string()), Some(1));
    assert_eq!(d.find_object_index(&"third".to_string()), None);
}

#[test]
fn field_metadata_carries_limits_and_defaults() {
    let f = StructField {
        name: "count".to_string(),
        name_rust_enum: String::new(),
        name_rust_field: String::new(),
        field_type: StructFieldType::Object(tagdefs::FieldObject::U16),
        default_value: Some(vec![StaticValue::Uint(1)]),
        count: FieldCount::One,
        minimum: Some(StaticValue::Uint(0)),
        maximum: Some(StaticValue::Uint(64)),
        limit: Some(vec![
            (LimitType::Default, 32),
            (LimitType::Editor, 64),
            (LimitType::Engine("mcc".to_string()), 128),
        ]),
        flags: Flags::default(),
        relative_offset: 0,
    };
    assert_eq!(f.default_value.as_ref().unwrap()[0], StaticValue::Uint(1));
    assert_eq!(f.limit.as_ref().unwrap()[2].1, 128);
    let behavior = DefaultBehavior {
        default_value: vec![StaticValue::Float(1.5f32.to_bits())],
        default_on_creation: true,
        default_on_cache: false,
    };
    match behavior.default_value[0] {
        StaticValue::Float(bits) => assert_eq!(f32::from_bits(bits), 1.5),
        _ => panic!("expected a float"),
    }
}

#[test]
fn duplicate_limit_kind_is_an_ingestion_error_naming_the_field() {
    let mut f = StructField {
        name: "bounded".to_string(),
        name_rust_enum: String::new(),
        name_rust_field: String::new(),
        field_type: StructFieldType::Object(FieldObject::U16),
        default_value: None,
        count: FieldCount::One,
        minimum: None,
        maximum: None,
        limit: None,
        flags: Flags::default(),
        relative_offset: 0,
    };
    f.limit = Some(vec![
        (LimitType::Engine("mcc".to_string()), 64),
        (LimitType::Default, 32),
        (LimitType::Engine("mcc".to_string()), 128),
    ]);
    let s = Struct {
        name: "Limited".to_string(),
        fields: vec![f],
        is_const: false,
        flags: Flags::default(),
        size: 2,
    };
    let err = ParsedDefinitions::from_declarations(
        vec![NamedObject::Struct(s)],
        Vec::new(),
        Vec::new(),
    )
    .unwrap_err();
    match err {
        DefinitionsError::DuplicateName { name } => assert_eq!(name, "bounded"),
        other => panic!("expected a duplicate name, got {:?}", other),
    }
}

#[test]
fn distinct_limit_kinds_are_accepted() {
    let mut f = StructField {
        name: "bounded".to_string(),
        name_rust_enum: String::new(),
        name_rust_field: String::new(),
        field_type: StructFieldType::Object(FieldObject::U16),
        default_value: None,
        count: FieldCount::One,
        minimum: None,
        maximum: None,
        limit: None,
        flags: Flags::default(),
        relative_offset: 0,
    };
    f.limit = Some(vec![
        (LimitType::Engine("mcc".to_string()), 64),
        (LimitType::Engine("xbox".to_string()), 48),
        (LimitType::Default, 32),
        (LimitType::Editor, 96),
    ]);
    let s = Struct {
        name: "Limited".to_string(),
        fields: vec![f],
        is_const: false,
        flags: Flags::default(),
        size: 2,
    };
    assert!(ParsedDefinitions::from_declarations(
        vec![NamedObject::Struct(s)],
        Vec::new(),
        Vec::new(),
    )
    .is_ok());
}

#[test]
fn failed_finalization_leaves_offsets_unassigned() {
    let s = Struct {
        name: "Wrong".to_string(),
        fields: vec![StructField {
            name: "a".to_string(),
            name_rust_enum: String::new(),
            name_rust_field: String::new(),
            field_type: StructFieldType::Object(tagdefs::FieldObject::U32),
            default_value: None,
            count: FieldCount::One,
            minimum: None,
            maximum: None,
            limit: None,
            flags: Flags::default(),
            relative_offset: 0,
        }],
        is_const: false,
        flags: Flags::default(),
        size: 99,
    };
    let mut d = ParsedDefinitions::from_declarations(
        vec![NamedObject::Struct(s)],
        Vec::new(),
        Vec::new(),
    )
    .unwrap();
    assert!(d.finalize_and_assert_valid().is_err());
    match &d.objects[0] {
        NamedObject::Struct(s) => assert_eq!(s.size, 99),
        _ => panic!("expected a struct"),
    }
}
