use tagdefs::{
    build_definitions, DefinitionsError, Engine, FieldCount, FieldObject, Flags, NamedObject,
    ParsedDefinitions, SizeableObject, Struct, StructField, StructFieldType,
};

fn field(name: &str, field_type: StructFieldType, count: FieldCount) -> StructField {
    StructField {
        name: name.to_string(),
        name_rust_enum: String::new(),
        name_rust_field: String::new(),
        field_type,
        default_value: None,
        count,
        minimum: None,
        maximum: None,
        limit: None,
        flags: Flags::default(),
        relative_offset: 0,
    }
}

fn strukt(name: &str, fields: Vec<StructField>, size: usize) -> Struct {
    Struct {
        name: name.to_string(),
        fields,
        is_const: false,
        flags: Flags::default(),
        size,
    }
}

fn build(objects: Vec<NamedObject>) -> Result<ParsedDefinitions, DefinitionsError> {
    build_definitions(objects, Vec::new(), Vec::<Engine>::new())
}

fn get_struct<'a>(d: &'a ParsedDefinitions, name: &str) -> &'a Struct {
    let i = d.find_object_index(&name.to_string()).unwrap();
    match &d.objects[i] {
        NamedObject::Struct(s) => s,
        _ => panic!("expected a struct"),
    }
}

#[test]
fn foo_u32_and_padding_finalizes_with_offsets() {
    let foo = strukt(
        "Foo",
        vec![
            field("field0", StructFieldType::Object(FieldObject::U32), FieldCount::One),
            field("field1", StructFieldType::Padding(4), FieldCount::One),
        ],
        8,
    );
    let d = build(vec![NamedObject::Struct(foo)]).unwrap();
    let s = get_struct(&d, "Foo");
    assert_eq!(s.fields[0].relative_offset, 0);
    assert_eq!(s.fields[1].relative_offset, 4);
    assert_eq!(s.size(&d), 8);
}

#[test]
fn bar_vector_array_plus_u16_finalizes_with_offsets() {
    let vec3 = strukt(
        "Vec3Holder",
        vec![field("v", StructFieldType::Object(FieldObject::Vector3D), FieldCount::One)],
        12,
    );
    let bar = strukt(
        "Bar",
        vec![
            field(
                "vectors",
                StructFieldType::Object(FieldObject::NamedObject("Vec3Holder".to_string())),
                FieldCount::Array(3),
            ),
            field("tail", StructFieldType::Object(FieldObject::U16), FieldCount::One),
        ],
        38,
    );
    let d = build(vec![NamedObject::Struct(vec3), NamedObject::Struct(bar)]).unwrap();
    let s = get_struct(&d, "Bar");
    assert_eq!(s.fields[0].relative_offset, 0);
    assert_eq!(s.size(&d), 38);
    assert_eq!(s.fields[0].size(&d), 36);
    assert_eq!(s.fields[1].relative_offset, 36);
}

#[test]
fn offsets_are_contiguous_and_sum_to_declared_size() {
    let s = strukt(
        "Mixed",
        vec![
            field("a", StructFieldType::Object(FieldObject::U8), FieldCount::One),
            field("b", StructFieldType::Object(FieldObject::I16), FieldCount::Bounds),
            field(
                "heading",
                StructFieldType::EditorSection { heading: "section".to_string(), body: None },
                FieldCount::One,
            ),
            field("c", StructFieldType::Object(FieldObject::ColorARGB), FieldCount::One),
            field("pad", StructFieldType::Padding(3), FieldCount::One),
        ],
        1 + 4 + 0 + 16 + 3,
    );
    let d = build(vec![NamedObject::Struct(s)]).unwrap();
    let s = get_struct(&d, "Mixed");
    let mut total = 0usize;
    for f in &s.fields {
        assert_eq!(f.relative_offset, total);
        total += f.size(&d);
    }
    assert_eq!(total, s.size);
    assert_eq!(total, s.size(&d));
}

#[test]
fn size_mismatch_names_the_offending_struct() {
    let bad = strukt(
        "Unbalanced",
        vec![field("a", StructFieldType::Object(FieldObject::U32), FieldCount::One)],
        7,
    );
    let err = build(vec![NamedObject::Struct(bad)]).unwrap_err();
    match err {
        DefinitionsError::SizeMismatch { name, declared, computed } => {
            assert_eq!(name, "Unbalanced");
            assert_eq!(declared, 7);
            assert_eq!(computed, Some(4));
        },
        other => panic!("expected a size mismatch, got {:?}", other),
    }
}

#[test]
fn dangling_field_reference_names_referrer_and_missing() {
    let bad = strukt(
        "Holder",
        vec![
            field(
                "inner",
                StructFieldType::Object(FieldObject::NamedObject("Ghostly".to_string())),
                FieldCount::One,
            ),
        ],
        4,
    );
    let err = build(vec![NamedObject::Struct(bad)]).unwrap_err();
    match err {
        DefinitionsError::DanglingReference { referrer, missing } => {
            assert_eq!(referrer, "Holder");
            assert_eq!(missing, "Ghostly");
        },
        other => panic!("expected a dangling reference, got {:?}", other),
    }
}

#[test]
fn reflexive_to_non_struct_is_dangling() {
    let en = tagdefs::Enum {
        name: "Mode".to_string(),
        options: Vec::new(),
        flags: Flags::default(),
    };
    let bad = strukt(
        "Holder2",
        vec![
            field(
                "items",
                StructFieldType::Object(FieldObject::Reflexive("Mode".to_string())),
                FieldCount::One,
            ),
        ],
        12,
    );
    let err = build(vec![NamedObject::Enum(en), NamedObject::Struct(bad)]).unwrap_err();
    match err {
        DefinitionsError::DanglingReference { referrer, missing } => {
            assert_eq!(referrer, "Holder2");
            assert_eq!(missing, "Mode");
        },
        other => panic!("expected a dangling reference, got {:?}", other),
    }
}

#[test]
fn self_containment_is_rejected_as_cyclic() {
    let ouro = strukt(
        "Ouroboros",
        vec![
            field(
                "tail",
                StructFieldType::Object(FieldObject::NamedObject("Ouroboros".to_string())),
                FieldCount::One,
            ),
        ],
        0,
    );
    let err = build(vec![NamedObject::Struct(ouro)]).unwrap_err();
    match err {
        DefinitionsError::CyclicReference { name } => assert_eq!(name, "Ouroboros"),
        other => panic!("expected a cyclic reference, got {:?}", other),
    }
}

#[test]
fn mutual_containment_is_rejected_as_cyclic() {
    let a = strukt(
        "Alpha",
        vec![
            field(
                "b",
                StructFieldType::Object(FieldObject::NamedObject("Beta".to_string())),
                FieldCount::One,
            ),
        ],
        4,
    );
    let b = strukt(
        "Beta",
        vec![
            field(
                "a",
                StructFieldType::Object(FieldObject::NamedObject("Alpha".to_string())),
                FieldCount::One,
            ),
        ],
        4,
    );
    let err = build(vec![NamedObject::Struct(a), NamedObject::Struct(b)]).unwrap_err();
    assert!(matches!(err, DefinitionsError::CyclicReference { .. }));
}

#[test]
fn nested_references_resolve_forward_and_backward() {
    let outer = strukt(
        "Outer",
        vec![
            field(
                "bits",
                StructFieldType::Object(FieldObject::NamedObject("SomeBits".to_string())),
                FieldCount::One,
            ),
            field(
                "mode",
                StructFieldType::Object(FieldObject::NamedObject("SomeEnum".to_string())),
                FieldCount::One,
            ),
        ],
        6,
    );
    let bits = tagdefs::Bitfield {
        name: "SomeBits".to_string(),
        width: 32,
        fields: Vec::new(),
        flags: Flags::default(),
    };
    let en = tagdefs::Enum {
        name: "SomeEnum".to_string(),
        options: Vec::new(),
        flags: Flags::default(),
    };
    let d = build(vec![
        NamedObject::Struct(outer),
        NamedObject::Bitfield(bits),
        NamedObject::Enum(en),
    ])
    .unwrap();
    let s = get_struct(&d, "Outer");
    assert_eq!(s.fields[0].size(&d), 4);
    assert_eq!(s.fields[1].relative_offset, 4);
    assert_eq!(s.fields[1].size(&d), 2);
}
