//! Schema model for binary record layouts.
//!
//! This crate builds a validated, fully resolved in-memory model of a family
//! of binary record formats: structs with byte-exact field layouts, enums,
//! bitfields, tag groups and engine profiles. Declarations are ingested,
//! parent links are resolved (with cycle and dangling-name detection), and
//! every struct's declared byte size is checked against the sum of its
//! fields' computed sizes.
use vstd::prelude::*;

mod engine;
mod ingest;
mod inherit;
mod layout;
mod sizes;
mod types;

pub use engine::{
    BaseMemoryAddress, Build, Engine, EngineBitmapOptions, EngineCacheFileSize, EngineCacheParser,
    EngineCompressionType, EngineRequiredTags, EngineSupportedResourceMaps,
};
pub use ingest::{
    bitfield_width_invalid, bitfield_widths_ok, engine_name_duplicated, group_name_duplicated,
    limit_duplicate_witness, limits_ok, object_limits_ok, object_name_duplicated,
    struct_has_duplicate_limit,
};
pub use inherit::{
    ancestor_at, combined_flags, engine_chain_links_resolve, engine_chain_ok,
    engine_cycle_witness, engine_link_dangling, engines_resolved, flags_le,
    group_chain_links_resolve, group_chain_ok, group_cycle_witness, group_link_dangling,
    group_root_resolves, group_with_flags, groups_merged, groups_merged_rel, groups_resolved,
    lemma_flags_combine_idempotent, lemma_flags_combine_monotone, lemma_group_chain_fuel,
    lemma_inheritance_idempotent, lemma_inheritance_monotone, lemma_resolved_flags_superset,
    merged_annotation, merged_group_flags,
};
pub use layout::{
    all_struct_refs_resolve, cycle_witness, dangling_field_in_struct, dangling_field_witness,
    field_eq_mod_offset,
    field_grounded, field_named_ref, fields_prefix_size, grounded,
    lemma_field_offsets_contiguous, lemma_field_size_nonneg,
    lemma_names_preserved_eq_mod, lemma_prefix_size_monotone,
    lemma_struct_size_consistency, model_layout_resolved, object_eq_mod_offsets,
    objects_eq_mod_offsets, objects_grounded, objects_layout_ok, refs_resolve_field,
    size_mismatch_witness, struct_computed_size, struct_eq_mod_offsets, struct_layout_ok,
    struct_offsets_assigned, struct_refs_resolve, ungrounded_witness,
};
pub use sizes::{
    SizeableObject, composite_count_spec, field_count_spec, field_object_resolves,
    field_object_size_spec, field_type_resolves, field_type_size_spec, is_const_spec,
    lemma_composite_sizes_consistent, lemma_enum_bitfield_sizes,
    lemma_field_size_element_arithmetic, named_object_size_spec, primitive_size_spec,
    primitive_value_matches, struct_field_resolves, struct_field_size_spec,
};
pub use types::{
    Bitfield, DefaultBehavior, DefinitionsError, Enum, Field, FieldCount, FieldObject, Flags,
    LimitType, NamedObject, ParsedDefinitions, StaticValue, Struct, StructField, StructFieldType,
    SupportedEngines, TagGroup, engines_unique, find_engine, find_group, find_object,
    groups_unique, limit_keys_unique, limit_table_keyed, limit_type_matches, name_in_list,
    objects_unique,
};

verus! {

/// Build the complete, validated model from ingested declarations: ingest
/// (names must be unique and bitfield widths whole bytes), resolve
/// supergroup and inherits links and merge inherited flags, then resolve
/// and validate every struct's byte layout. Succeeds exactly on
/// consistent declarations; any defect aborts the build with an error
/// naming the offending entity, as a schema defect is an authoring bug,
/// not a recoverable condition.
pub fn build_definitions(
    objects: Vec<NamedObject>,
    groups: Vec<TagGroup>,
    engines: Vec<Engine>,
) -> (r: Result<ParsedDefinitions, DefinitionsError>)
    ensures
        r is Ok <==> objects_unique(objects@) && groups_unique(groups@) && engines_unique(
            engines@,
        ) && bitfield_widths_ok(objects@) && limits_ok(objects@) && groups_resolved(
            objects@,
            groups@,
        ) && engines_resolved(engines@) && objects_layout_ok(objects@) && objects_grounded(
            objects@,
        ),
        r matches Ok(d) ==> objects_eq_mod_offsets(objects@, d.objects@) && model_layout_resolved(
            d.objects@,
        ) && groups_merged(groups@, d.groups@) && d.engines == engines && d.names_unique(),
        match r {
            Ok(_) => true,
            Err(e) => match e {
                DefinitionsError::DuplicateName { name } => object_name_duplicated(
                    objects@,
                    name@,
                ) || group_name_duplicated(groups@, name@) || engine_name_duplicated(
                    engines@,
                    name@,
                ) || limit_duplicate_witness(objects@, name@),
                DefinitionsError::InvalidBitfieldWidth { name, width } => bitfield_width_invalid(
                    objects@,
                    name@,
                    width,
                ),
                DefinitionsError::DanglingReference { referrer, missing } => group_link_dangling(
                    objects@,
                    groups@,
                    referrer@,
                    missing@,
                ) || engine_link_dangling(engines@, referrer@, missing@) || dangling_field_witness(
                    objects@,
                    referrer@,
                    missing@,
                ),
                DefinitionsError::SizeMismatch { name, declared, computed } =>
                    size_mismatch_witness(objects@, name@, declared as int, computed),
                DefinitionsError::CyclicReference { name } => group_cycle_witness(groups@, name@)
                    || engine_cycle_witness(engines@, name@) || cycle_witness(objects@, name@),
            },
        },
{
    let mut d = match ParsedDefinitions::from_declarations(objects, groups, engines) {
        Ok(d) => d,
        Err(e) => {
            return Err(e);
        },
    };
    match d.resolve_parent_class_references() {
        Ok(()) => {},
        Err(e) => {
            return Err(e);
        },
    }
    match d.finalize_and_assert_valid() {
        Ok(()) => {},
        Err(e) => {
            return Err(e);
        },
    }
    proof {
        lemma_names_preserved_eq_mod(objects@, d.objects@);
        assert forall|i: int, j: int| 0 <= i < j < d.objects@.len() implies (
        #[trigger] d.objects@[i]).spec_name() != (#[trigger] d.objects@[j]).spec_name() by {
            assert(objects@[i].spec_name() == d.objects@[i].spec_name());
            assert(objects@[j].spec_name() == d.objects@[j].spec_name());
            assert(objects@[i].spec_name() != objects@[j].spec_name());
        }
        assert(objects_unique(d.objects@));
        assert(groups_unique(d.groups@));
        assert(engines_unique(d.engines@));
    }
    Ok(d)
}

} // verus!
