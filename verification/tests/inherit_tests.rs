use tagdefs::{
    build_definitions, BaseMemoryAddress, DefinitionsError, Engine, EngineBitmapOptions,
    EngineCacheFileSize, EngineCacheParser, EngineCompressionType, EngineRequiredTags, FieldCount,
    FieldObject, Flags, NamedObject, ParsedDefinitions, Struct, StructField, StructFieldType,
    SupportedEngines, TagGroup,
};

fn field(name: &str, field_type: StructFieldType, count: FieldCount) -> StructField {
    StructField {
        name: name.to_string(),
        name_rust_enum: String::new(),
        name_rust_field: String::new(),
        field_type,
        default_value: None,
        count,
        minimum: None,
        maximum: None,
        limit: None,
        flags: Flags::default(),
        relative_offset: 0,
    }
}

fn root_struct(name: &str) -> NamedObject {
    NamedObject::Struct(Struct {
        name: name.to_string(),
        fields: vec![field("v", StructFieldType::Object(FieldObject::U32), FieldCount::One)],
        is_const: false,
        flags: Flags::default(),
        size: 4,
    })
}

fn group(name: &str, struct_name: &str, supergroup: Option<&str>, flags: Flags) -> TagGroup {
    TagGroup {
        name: name.to_string(),
        struct_name: struct_name.to_string(),
        name_rust_enum: String::new(),
        supergroup: supergroup.map(|s| s.to_string()),
        supported_engines: SupportedEngines::AllEngines,
        flags,
        version: 1,
        fourcc_binary: 0x61626364,
    }
}

fn engine(name: &str, inherits: Option<&str>) -> Engine {
    Engine {
        name: name.to_string(),
        display_name: name.to_string(),
        version: None,
        build: None,
        inherits: inherits.map(|s| s.to_string()),
        build_target: true,
        fallback: false,
        custom: false,
        cache_file_version: 7,
        cache_default: false,
        external_bsps: false,
        external_models: false,
        max_script_nodes: 19001,
        max_tag_space: 0x1700000,
        compressed_models: false,
        data_alignment: 512,
        obfuscated_header_layout: false,
        bitmap_options: EngineBitmapOptions {
            swizzled: false,
            texture_dimension_must_modulo_block_size: false,
            cubemap_faces_stored_separately: false,
            alignment: 128,
        },
        resource_maps: None,
        cache_parser: EngineCacheParser::PC,
        max_cache_file_size: EngineCacheFileSize {
            user_interface: 0x2300000,
            singleplayer: 0x11000000,
            multiplayer: 0x2F00000,
        },
        base_memory_address: BaseMemoryAddress { address: 0x40440000, inferred: false },
        required_tags: EngineRequiredTags::default(),
        compression_type: EngineCompressionType::Uncompressed,
    }
}

fn flags_with(cache_only: bool, exclude: bool, non_null: bool) -> Flags {
    let mut f = Flags::default();
    f.cache_only = cache_only;
    f.exclude = exclude;
    f.non_null = non_null;
    f
}

fn group_flags<'a>(d: &'a ParsedDefinitions, name: &str) -> &'a Flags {
    let i = d.find_group_index(&name.to_string()).unwrap();
    &d.groups[i].flags
}

#[test]
fn child_merges_flags_from_every_ancestor() {
    let objects = vec![root_struct("root")];
    let groups = vec![
        group("grandparent", "root", None, flags_with(true, false, false)),
        group("parent", "root", Some("grandparent"), flags_with(false, true, false)),
        group("child", "root", Some("parent"), flags_with(false, false, true)),
    ];
    let d = build_definitions(objects, groups, Vec::new()).unwrap();
    let child = group_flags(&d, "child");
    assert!(child.cache_only && child.exclude && child.non_null);
    let parent = group_flags(&d, "parent");
    assert!(parent.cache_only && parent.exclude && !parent.non_null);
    let grandparent = group_flags(&d, "grandparent");
    assert!(grandparent.cache_only && !grandparent.exclude && !grandparent.non_null);
}

#[test]
fn merging_inherits_absent_annotations_and_keeps_own() {
    let objects = vec![root_struct("root")];
    let mut parent_flags = Flags::default();
    parent_flags.comment = Some("from the parent".to_string());
    parent_flags.description = Some("parent description".to_string());
    parent_flags.cache_only = true;
    let mut child_flags = Flags::default();
    child_flags.description = Some("child description".to_string());
    child_flags.supported_engines = SupportedEngines::SomeEngines(vec!["mcc".to_string()]);
    let groups = vec![
        group("parent", "root", None, parent_flags),
        group("child", "root", Some("parent"), child_flags),
    ];
    let d = build_definitions(objects, groups, Vec::new()).unwrap();
    let child = group_flags(&d, "child");
    assert!(child.cache_only);
    assert_eq!(child.comment, Some("from the parent".to_string()));
    assert_eq!(child.description, Some("child description".to_string()));
    assert_eq!(
        child.supported_engines,
        SupportedEngines::SomeEngines(vec!["mcc".to_string()])
    );
}

#[test]
fn annotations_inherit_from_the_nearest_ancestor_that_has_one() {
    let objects = vec![root_struct("root")];
    let mut grandparent_flags = Flags::default();
    grandparent_flags.comment = Some("oldest comment".to_string());
    grandparent_flags.developer_note = Some("oldest note".to_string());
    let mut parent_flags = Flags::default();
    parent_flags.developer_note = Some("closer note".to_string());
    let groups = vec![
        group("grandparent", "root", None, grandparent_flags),
        group("parent", "root", Some("grandparent"), parent_flags),
        group("child", "root", Some("parent"), Flags::default()),
    ];
    let d = build_definitions(objects, groups, Vec::new()).unwrap();
    let child = group_flags(&d, "child");
    assert_eq!(child.comment, Some("oldest comment".to_string()));
    assert_eq!(child.developer_note, Some("closer note".to_string()));
    assert_eq!(child.description, None);
    let parent = group_flags(&d, "parent");
    assert_eq!(parent.comment, Some("oldest comment".to_string()));
    assert_eq!(parent.developer_note, Some("closer note".to_string()));
}

#[test]
fn resolving_twice_gives_the_same_flags() {
    let objects = vec![root_struct("root")];
    let groups = vec![
        group("base", "root", None, flags_with(true, false, false)),
        group("mid", "root", Some("base"), flags_with(false, true, false)),
        group("leaf", "root", Some("mid"), flags_with(false, false, true)),
    ];
    let mut d = tagdefs::ParsedDefinitions::from_declarations(objects, groups, Vec::new())
        .unwrap();
    d.resolve_parent_class_references().unwrap();
    let once: Vec<Flags> = d.groups.iter().map(|g| g.flags.clone()).collect();
    d.resolve_parent_class_references().unwrap();
    let twice: Vec<Flags> = d.groups.iter().map(|g| g.flags.clone()).collect();
    assert_eq!(once, twice);
}

#[test]
fn two_cycle_supergroups_are_rejected() {
    let objects = vec![root_struct("root")];
    let groups = vec![
        group("ping", "root", Some("pong"), Flags::default()),
        group("pong", "root", Some("ping"), Flags::default()),
    ];
    let err = build_definitions(objects, groups, Vec::new()).unwrap_err();
    assert!(matches!(err, DefinitionsError::CyclicReference { .. }));
}

#[test]
fn three_cycle_supergroups_are_rejected() {
    let objects = vec![root_struct("root")];
    let groups = vec![
        group("rock", "root", Some("scissors"), Flags::default()),
        group("paper", "root", Some("rock"), Flags::default()),
        group("scissors", "root", Some("paper"), Flags::default()),
    ];
    let err = build_definitions(objects, groups, Vec::new()).unwrap_err();
    assert!(matches!(err, DefinitionsError::CyclicReference { .. }));
}

#[test]
fn missing_supergroup_is_a_dangling_reference_naming_parent() {
    let objects = vec![root_struct("root")];
    let groups = vec![group("child", "root", Some("parent"), Flags::default())];
    let err = build_definitions(objects, groups, Vec::new()).unwrap_err();
    match err {
        DefinitionsError::DanglingReference { referrer, missing } => {
            assert_eq!(referrer, "child");
            assert_eq!(missing, "parent");
        },
        other => panic!("expected a dangling reference, got {:?}", other),
    }
}

#[test]
fn missing_root_struct_is_a_dangling_reference() {
    let groups = vec![group("orphan", "nowhere", None, Flags::default())];
    let err = build_definitions(Vec::new(), groups, Vec::new()).unwrap_err();
    match err {
        DefinitionsError::DanglingReference { referrer, missing } => {
            assert_eq!(referrer, "orphan");
            assert_eq!(missing, "nowhere");
        },
        other => panic!("expected a dangling reference, got {:?}", other),
    }
}

#[test]
fn engine_inheritance_chain_resolves() {
    let engines = vec![
        engine("base", None),
        engine("custom_edition", Some("base")),
        engine("mcc", Some("custom_edition")),
    ];
    let d = build_definitions(Vec::new(), Vec::new(), engines).unwrap();
    assert_eq!(d.engines.len(), 3);
}

#[test]
fn two_cycle_engine_inherits_is_rejected() {
    let engines = vec![engine("tick", Some("tock")), engine("tock", Some("tick"))];
    let err = build_definitions(Vec::new(), Vec::new(), engines).unwrap_err();
    assert!(matches!(err, DefinitionsError::CyclicReference { .. }));
}

#[test]
fn three_cycle_engine_inherits_is_rejected() {
    let engines = vec![
        engine("one", Some("three")),
        engine("two", Some("one")),
        engine("three", Some("two")),
    ];
    let err = build_definitions(Vec::new(), Vec::new(), engines).unwrap_err();
    assert!(matches!(err, DefinitionsError::CyclicReference { .. }));
}

#[test]
fn missing_engine_parent_is_a_dangling_reference() {
    let engines = vec![engine("lonely", Some("absent"))];
    let err = build_definitions(Vec::new(), Vec::new(), engines).unwrap_err();
    match err {
        DefinitionsError::DanglingReference { referrer, missing } => {
            assert_eq!(referrer, "lonely");
            assert_eq!(missing, "absent");
        },
        other => panic!("expected a dangling reference, got {:?}", other),
    }
}

#[test]
fn combine_with_ors_traits_and_is_idempotent() {
    let mut a = flags_with(true, false, false);
    a.comment = Some("mine".to_string());
    let mut b = flags_with(false, true, false);
    b.comment = Some("theirs".to_string());
    b.developer_note = Some("their note".to_string());
    a.combine_with(&b);
    assert!(a.cache_only && a.exclude && !a.non_null);
    assert_eq!(a.comment, Some("mine".to_string()));
    assert_eq!(a.developer_note, Some("their note".to_string()));
    let snapshot = a.clone();
    a.combine_with(&b);
    assert_eq!(a, snapshot);
}

#[test]
fn supports_engine_checks_the_restriction_list() {
    let e = engine("mcc", None);
    let all = SupportedEngines::AllEngines;
    assert!(all.supports_engine(&e));
    let some = SupportedEngines::SomeEngines(vec!["xbox".to_string(), "mcc".to_string()]);
    assert!(some.supports_engine(&e));
    let none = SupportedEngines::SomeEngines(vec!["xbox".to_string()]);
    assert!(!none.supports_engine(&e));
}

#[test]
fn dangling_parent_deep_in_a_chain_names_the_direct_referrer() {
    let objects = vec![root_struct("root")];
    let groups = vec![
        group("leafmost", "root", Some("middle"), Flags::default()),
        group("middle", "root", Some("vanished"), Flags::default()),
    ];
    let err = build_definitions(objects, groups, Vec::new()).unwrap_err();
    match err {
        DefinitionsError::DanglingReference { referrer, missing } => {
            assert_eq!(referrer, "middle");
            assert_eq!(missing, "vanished");
        },
        other => panic!("expected a dangling reference, got {:?}", other),
    }
}

#[test]
fn failed_resolution_leaves_the_model_unchanged() {
    let objects = vec![root_struct("root")];
    let groups = vec![
        group("good", "root", None, flags_with(true, false, false)),
        group("broken", "root", Some("missing"), flags_with(false, true, false)),
    ];
    let mut d =
        tagdefs::ParsedDefinitions::from_declarations(objects, groups, Vec::new()).unwrap();
    assert!(d.resolve_parent_class_references().is_err());
    assert_eq!(d.groups[0].flags, flags_with(true, false, false));
    assert_eq!(d.groups[1].flags, flags_with(false, true, false));
}
