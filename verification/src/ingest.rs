//! Ingestion: building the definitions container from declarations.
//!
//! The declarative source's textual syntax belongs to a collaborator; what
//! arrives here is one entity per declaration, with named references still
//! unresolved. Ingestion checks only what must hold of the raw
//! declarations: names are unique within each collection, and a bitfield's
//! width is a whole number of bytes. Resolution is deferred to the later,
//! explicit phases, because declarations may reference entities declared
//! after them.
use vstd::prelude::*;

use crate::engine::Engine;
use crate::types::{DefinitionsError, LimitType, NamedObject, ParsedDefinitions, Struct,
    StructField, TagGroup, engines_unique, groups_unique, limit_keys_unique, limit_table_keyed,
    limit_type_matches, objects_unique};

verus! {

/// Two distinct objects carry this name.
pub open spec fn object_name_duplicated(objects: Seq<NamedObject>, name: Seq<char>) -> bool {
    exists|i: int, j: int|
        0 <= i < j < objects.len() && (#[trigger] objects[i]).spec_name() == name && (
        #[trigger] objects[j]).spec_name() == name
}

/// Two distinct tag groups carry this name.
pub open spec fn group_name_duplicated(groups: Seq<TagGroup>, name: Seq<char>) -> bool {
    exists|i: int, j: int|
        0 <= i < j < groups.len() && (#[trigger] groups[i]).name@ == name && (
        #[trigger] groups[j]).name@ == name
}

/// Two distinct engines carry this name.
pub open spec fn engine_name_duplicated(engines: Seq<Engine>, name: Seq<char>) -> bool {
    exists|i: int, j: int|
        0 <= i < j < engines.len() && (#[trigger] engines[i]).name@ == name && (
        #[trigger] engines[j]).name@ == name
}

/// Every bitfield's width is a whole number of bytes.
pub open spec fn bitfield_widths_ok(objects: Seq<NamedObject>) -> bool {
    forall|i: int|
        0 <= i < objects.len() ==> ((#[trigger] objects[i]) matches NamedObject::Bitfield(b)
            ==> b.width % 8 == 0)
}

/// Some bitfield of this name declares this width, which is not a whole
/// number of bytes.
pub open spec fn bitfield_width_invalid(
    objects: Seq<NamedObject>,
    name: Seq<char>,
    width: u8,
) -> bool {
    exists|i: int|
        0 <= i < objects.len() && ((#[trigger] objects[i]) matches NamedObject::Bitfield(b)
            && b.name@ == name && b.width == width && b.width % 8 != 0)
}

/// The name shared by two objects of the collection, if any pair shares
/// one.
fn find_duplicate_object_name(objects: &Vec<NamedObject>) -> (r: Option<String>)
    ensures
        match r {
            Some(nm) => object_name_duplicated(objects@, nm@),
            None => objects_unique(objects@),
        },
{
    let n = objects.len();
    for i in 0..n
        invariant
            n == objects@.len(),
            forall|k1: int, k2: int|
                0 <= k1 < k2 < i ==> (#[trigger] objects@[k1]).spec_name() != (
                #[trigger] objects@[k2]).spec_name(),
    {
        for j in 0..i
            invariant
                n == objects@.len(),
                i < n,
                forall|k: int|
                    0 <= k < j ==> (#[trigger] objects@[k]).spec_name() != objects@[
                        i as int
                    ].spec_name(),
        {
            if *objects[j].name_ref() == *objects[i].name_ref() {
                return Some(objects[i].name_ref().clone());
            }
        }
    }
    None
}

/// The name shared by two tag groups of the collection, if any pair
/// shares one.
fn find_duplicate_group_name(groups: &Vec<TagGroup>) -> (r: Option<String>)
    ensures
        match r {
            Some(nm) => group_name_duplicated(groups@, nm@),
            None => groups_unique(groups@),
        },
{
    let n = groups.len();
    for i in 0..n
        invariant
            n == groups@.len(),
            forall|k1: int, k2: int|
                0 <= k1 < k2 < i ==> (#[trigger] groups@[k1]).name@ != (
                #[trigger] groups@[k2]).name@,
    {
        for j in 0..i
            invariant
                n == groups@.len(),
                i < n,
                forall|k: int|
                    0 <= k < j ==> (#[trigger] groups@[k]).name@ != groups@[i as int].name@,
        {
            if groups[j].name == groups[i].name {
                return Some(groups[i].name.clone());
            }
        }
    }
    None
}

/// The name shared by two engines of the collection, if any pair shares
/// one.
fn find_duplicate_engine_name(engines: &Vec<Engine>) -> (r: Option<String>)
    ensures
        match r {
            Some(nm) => engine_name_duplicated(engines@, nm@),
            None => engines_unique(engines@),
        },
{
    let n = engines.len();
    for i in 0..n
        invariant
            n == engines@.len(),
            forall|k1: int, k2: int|
                0 <= k1 < k2 < i ==> (#[trigger] engines@[k1]).name@ != (
                #[trigger] engines@[k2]).name@,
    {
        for j in 0..i
            invariant
                n == engines@.len(),
                i < n,
                forall|k: int|
                    0 <= k < j ==> (#[trigger] engines@[k]).name@ != engines@[i as int].name@,
        {
            if engines[j].name == engines[i].name {
                return Some(engines[i].name.clone());
            }
        }
    }
    None
}

/// Every field of the object, if it is a struct, has a keyed limit table.
pub open spec fn object_limits_ok(o: NamedObject) -> bool {
    match o {
        NamedObject::Struct(s) => forall|j: int|
            0 <= j < s.fields@.len() ==> limit_keys_unique((#[trigger] s.fields@[j]).limit),
        _ => true,
    }
}

/// Every struct field's limit table in the collection is keyed: no limit
/// kind appears twice.
pub open spec fn limits_ok(objects: Seq<NamedObject>) -> bool {
    forall|i: int| 0 <= i < objects.len() ==> object_limits_ok(#[trigger] objects[i])
}

/// Some struct has a field named `name` whose limit table repeats a limit
/// kind.
pub open spec fn limit_duplicate_witness(objects: Seq<NamedObject>, name: Seq<char>) -> bool {
    exists|i: int|
        0 <= i < objects.len() && ((#[trigger] objects[i]) matches NamedObject::Struct(s)
            && struct_has_duplicate_limit(s, name))
}

/// Some field of the struct is named `name` and repeats a limit kind.
pub open spec fn struct_has_duplicate_limit(s: Struct, field_name: Seq<char>) -> bool {
    exists|j: int|
        0 <= j < s.fields@.len() && (#[trigger] s.fields@[j]).name@ == field_name
            && !limit_keys_unique(s.fields@[j].limit)
}

/// Whether two limit kinds denote the same key.
fn limit_type_eq(a: &LimitType, b: &LimitType) -> (r: bool)
    ensures
        r == limit_type_matches(*a, *b),
{
    match (a, b) {
        (LimitType::Engine(x), LimitType::Engine(y)) => *x == *y,
        (LimitType::Default, LimitType::Default) => true,
        (LimitType::Editor, LimitType::Editor) => true,
        _ => false,
    }
}

/// Whether the field's limit table repeats a limit kind.
fn field_has_duplicate_limit(f: &StructField) -> (r: bool)
    ensures
        r == !limit_keys_unique(f.limit),
{
    match &f.limit {
        None => false,
        Some(v) => {
            let m = v.len();
            for a in 0..m
                invariant
                    m == v@.len(),
                    f.limit == Some(*v),
                    forall|k1: int, k2: int|
                        0 <= k1 < k2 < a ==> !limit_type_matches(
                            (#[trigger] v@[k1]).0,
                            (#[trigger] v@[k2]).0,
                        ),
            {
                for b in 0..a
                    invariant
                        m == v@.len(),
                        a < m,
                        f.limit == Some(*v),
                        forall|k: int|
                            0 <= k < b ==> !limit_type_matches(
                                (#[trigger] v@[k]).0,
                                v@[a as int].0,
                            ),
                {
                    if limit_type_eq(&v[b].0, &v[a].0) {
                        proof {
                            assert(limit_type_matches(v@[b as int].0, v@[a as int].0));
                            assert(!limit_table_keyed(v@));
                        }
                        return true;
                    }
                }
            }
            false
        },
    }
}

/// The name of a field whose limit table repeats a limit kind, if any
/// struct has one.
fn find_duplicate_limit_field(objects: &Vec<NamedObject>) -> (r: Option<String>)
    ensures
        match r {
            Some(nm) => limit_duplicate_witness(objects@, nm@),
            None => limits_ok(objects@),
        },
{
    let n = objects.len();
    for i in 0..n
        invariant
            n == objects@.len(),
            forall|k: int| 0 <= k < i ==> object_limits_ok(#[trigger] objects@[k]),
    {
        match &objects[i] {
            NamedObject::Struct(s) => {
                let ghost gobj = objects@[i as int];
                assert(gobj == NamedObject::Struct(*s));
                let nf = s.fields.len();
                for j in 0..nf
                    invariant
                        n == objects@.len(),
                        0 <= i < n,
                        gobj == objects@[i as int],
                        gobj == NamedObject::Struct(*s),
                        nf == s.fields@.len(),
                        forall|l: int|
                            0 <= l < j ==> limit_keys_unique((#[trigger] s.fields@[l]).limit),
                {
                    let f = &s.fields[j];
                    if field_has_duplicate_limit(f) {
                        proof {
                            assert(struct_has_duplicate_limit(*s, f.name@));
                            assert(limit_duplicate_witness(objects@, f.name@));
                        }
                        return Some(f.name.clone());
                    }
                }
                assert(object_limits_ok(objects@[i as int]));
            },
            _ => {},
        }
    }
    None
}

impl ParsedDefinitions {
    /// Ingest declarations into a fresh definitions container. Succeeds
    /// exactly when names are unique within each collection, every
    /// bitfield's width is a whole number of bytes, and every field's
    /// per-limit maximum table is keyed (no limit kind twice); the
    /// entities are stored as declared, named references still
    /// unresolved. A duplicate name, a duplicate limit kind or a bad
    /// width is a fatal ingestion error naming the offending declaration.
    pub fn from_declarations(
        objects: Vec<NamedObject>,
        groups: Vec<TagGroup>,
        engines: Vec<Engine>,
    ) -> (r: Result<ParsedDefinitions, DefinitionsError>)
        ensures
            r is Ok <==> objects_unique(objects@) && groups_unique(groups@) && engines_unique(
                engines@,
            ) && bitfield_widths_ok(objects@) && limits_ok(objects@),
            match r {
                Ok(d) => d.objects == objects && d.groups == groups && d.engines == engines,
                Err(e) => match e {
                    DefinitionsError::DuplicateName { name } => object_name_duplicated(
                        objects@,
                        name@,
                    ) || group_name_duplicated(groups@, name@) || engine_name_duplicated(
                        engines@,
                        name@,
                    ) || limit_duplicate_witness(objects@, name@),
                    DefinitionsError::InvalidBitfieldWidth { name, width } =>
                        bitfield_width_invalid(objects@, name@, width),
                    _ => false,
                },
            },
    {
        match find_duplicate_object_name(&objects) {
            Some(nm) => {
                proof {
                    assert(!objects_unique(objects@));
                }
                return Err(DefinitionsError::DuplicateName { name: nm });
            },
            None => {},
        }
        match find_duplicate_group_name(&groups) {
            Some(nm) => {
                proof {
                    assert(!groups_unique(groups@));
                }
                return Err(DefinitionsError::DuplicateName { name: nm });
            },
            None => {},
        }
        match find_duplicate_engine_name(&engines) {
            Some(nm) => {
                proof {
                    assert(!engines_unique(engines@));
                }
                return Err(DefinitionsError::DuplicateName { name: nm });
            },
            None => {},
        }
        let n = objects.len();
        for i in 0..n
            invariant
                n == objects@.len(),
                forall|k: int|
                    0 <= k < i ==> ((#[trigger] objects@[k]) matches NamedObject::Bitfield(b)
                        ==> b.width % 8 == 0),
        {
            match &objects[i] {
                NamedObject::Bitfield(b) => {
                    if b.width % 8 != 0 {
                        proof {
                            assert(!bitfield_widths_ok(objects@));
                            assert(bitfield_width_invalid(objects@, b.name@, b.width));
                        }
                        return Err(
                            DefinitionsError::InvalidBitfieldWidth {
                                name: b.name.clone(),
                                width: b.width,
                            },
                        );
                    }
                },
                _ => {},
            }
        }
        match find_duplicate_limit_field(&objects) {
            Some(nm) => {
                proof {
                    assert(!limits_ok(objects@));
                }
                return Err(DefinitionsError::DuplicateName { name: nm });
            },
            None => {},
        }
        Ok(ParsedDefinitions { objects, groups, engines })
    }
}

} // verus!
