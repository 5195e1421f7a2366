//! The field-kind size table and the sizing capability.
//!
//! Every catalog field kind has a fixed byte size and component count;
//! named references are sized by looking the target up in the definitions.
//! A struct's own size is its declared size — layout resolution separately
//! checks that the declaration agrees with the sum of the field sizes.
use vstd::prelude::*;

use crate::types::{
    Bitfield, Enum, FieldCount, FieldObject, NamedObject, ParsedDefinitions, StaticValue, Struct,
    StructField, StructFieldType, find_object,
};

verus! {

/// The element count an element-count descriptor denotes.
pub open spec fn field_count_spec(c: FieldCount) -> int {
    match c {
        FieldCount::One => 1,
        FieldCount::Bounds => 2,
        FieldCount::Array(n) => n as int,
    }
}

/// The component count of a catalog field kind: how many copies of its
/// component primitive a composite kind is made of.
pub open spec fn composite_count_spec(o: FieldObject) -> int {
    match o {
        FieldObject::Rectangle => 4,
        FieldObject::Vector2D => 2,
        FieldObject::Vector3D => 3,
        FieldObject::Euler2D => 2,
        FieldObject::Euler3D => 3,
        FieldObject::Plane2D => 3,
        FieldObject::Plane3D => 4,
        FieldObject::Quaternion => 4,
        FieldObject::Vector2DInt => 2,
        FieldObject::Matrix2x3 => 6,
        FieldObject::Matrix3x3 => 9,
        FieldObject::ColorRGB => 3,
        FieldObject::ColorARGB => 4,
        _ => 1,
    }
}

/// The fixed byte size of a catalog field kind. Composite kinds derive
/// their size from their component primitive: float composites from the
/// 32-bit float, rectangles and integer vectors from the 16-bit integer.
/// A named reference has no fixed size; this table gives it 0, and sizing
/// goes through the definitions lookup instead.
pub open spec fn primitive_size_spec(o: FieldObject) -> int {
    match o {
        FieldObject::NamedObject(_) => 0,
        FieldObject::Reflexive(_) => 0xC,
        FieldObject::TagReference { .. } => 0x10,
        FieldObject::Data
        | FieldObject::FileData
        | FieldObject::BSPVertexData
        | FieldObject::UTF16String => 0x14,
        FieldObject::F32
        | FieldObject::Angle
        | FieldObject::U32
        | FieldObject::Address
        | FieldObject::I32
        | FieldObject::Pixel32
        | FieldObject::ID
        | FieldObject::TagID
        | FieldObject::CompressedVector2D
        | FieldObject::CompressedVector3D => 0x4,
        FieldObject::U16 | FieldObject::I16 | FieldObject::Index | FieldObject::CompressedFloat => 0x2,
        FieldObject::U8 | FieldObject::I8 => 0x1,
        FieldObject::Rectangle | FieldObject::Vector2DInt => 0x2 * composite_count_spec(o),
        FieldObject::ScenarioScriptNodeValue => 0x4,
        FieldObject::TagGroup => 0x4,
        FieldObject::Vector2D
        | FieldObject::Vector3D
        | FieldObject::Plane2D
        | FieldObject::Plane3D
        | FieldObject::Quaternion
        | FieldObject::Matrix2x3
        | FieldObject::Matrix3x3
        | FieldObject::ColorRGB
        | FieldObject::Euler2D
        | FieldObject::Euler3D
        | FieldObject::ColorARGB => 0x4 * composite_count_spec(o),
        FieldObject::String32 => 32,
    }
}

/// The byte size of a named object. A struct's size is its declared size;
/// an enum is always two bytes; a bitfield is its bit width over eight.
pub open spec fn named_object_size_spec(o: NamedObject) -> int {
    match o {
        NamedObject::Struct(s) => s.size as int,
        NamedObject::Enum(_) => 2,
        NamedObject::Bitfield(b) => (b.width as int) / 8,
    }
}

/// Whether a field kind's named reference, if it has one, resolves.
pub open spec fn field_object_resolves(objects: Seq<NamedObject>, o: FieldObject) -> bool {
    match o {
        FieldObject::NamedObject(n) => find_object(objects, n@) is Some,
        _ => true,
    }
}

/// The byte size of one element of a field kind: a catalog kind's fixed
/// size, or the looked-up size of a named reference.
pub open spec fn field_object_size_spec(objects: Seq<NamedObject>, o: FieldObject) -> int {
    match o {
        FieldObject::NamedObject(n) => match find_object(objects, n@) {
            Some(t) => named_object_size_spec(t),
            None => 0,
        },
        _ => primitive_size_spec(o),
    }
}

/// Whether a struct field type's named reference, if any, resolves.
pub open spec fn field_type_resolves(objects: Seq<NamedObject>, t: StructFieldType) -> bool {
    match t {
        StructFieldType::Object(o) => field_object_resolves(objects, o),
        _ => true,
    }
}

/// The byte size of one element of a struct field type: the object's size,
/// the literal padding byte count, or zero for an editor section.
pub open spec fn field_type_size_spec(objects: Seq<NamedObject>, t: StructFieldType) -> int {
    match t {
        StructFieldType::Object(o) => field_object_size_spec(objects, o),
        StructFieldType::Padding(p) => p as int,
        StructFieldType::EditorSection { .. } => 0,
    }
}

/// Whether a struct field can be sized: its kind resolves.
pub open spec fn struct_field_resolves(objects: Seq<NamedObject>, f: StructField) -> bool {
    field_type_resolves(objects, f.field_type)
}

/// The byte size of a struct field: the per-element size of its kind times
/// its element count.
pub open spec fn struct_field_size_spec(objects: Seq<NamedObject>, f: StructField) -> int {
    field_type_size_spec(objects, f.field_type) * field_count_spec(f.count)
}

/// The sizing capability: everything in the model that has a byte size can
/// report it, given the full definitions.
pub trait SizeableObject {
    /// The conditions under which the size is defined: every named
    /// reference the size depends on resolves, and the size fits the
    /// machine's address range.
    spec fn size_wf(&self, defs: &ParsedDefinitions) -> bool;

    /// The byte size as a mathematical integer.
    spec fn spec_size(&self, defs: &ParsedDefinitions) -> int;

    /// Get the size of the object in bytes.
    fn size(&self, defs: &ParsedDefinitions) -> (r: usize)
        requires
            self.size_wf(defs),
        ensures
            r as int == self.spec_size(defs),
    ;
}

impl FieldCount {
    /// The element count this descriptor denotes.
    pub fn field_count(&self) -> (r: usize)
        ensures
            r as int == field_count_spec(*self),
    {
        match self {
            FieldCount::One => 1,
            FieldCount::Bounds => 2,
            FieldCount::Array(n) => *n,
        }
    }
}

impl FieldObject {
    /// The fixed byte size of a catalog kind. Not defined for a named
    /// reference, which has no fixed size and is sized by lookup.
    pub fn primitive_size(&self) -> (r: usize)
        requires
            !(self is NamedObject),
        ensures
            r as int == primitive_size_spec(*self),
    {
        match self {
            FieldObject::NamedObject(_) => 0,
            FieldObject::Reflexive(_) => 0xC,
            FieldObject::TagReference { .. } => 0x10,
            FieldObject::Data
            | FieldObject::FileData
            | FieldObject::BSPVertexData
            | FieldObject::UTF16String => 0x14,
            FieldObject::F32
            | FieldObject::Angle
            | FieldObject::U32
            | FieldObject::Address
            | FieldObject::I32
            | FieldObject::Pixel32
            | FieldObject::ID
            | FieldObject::TagID
            | FieldObject::CompressedVector2D
            | FieldObject::CompressedVector3D => 0x4,
            FieldObject::U16
            | FieldObject::I16
            | FieldObject::Index
            | FieldObject::CompressedFloat => 0x2,
            FieldObject::U8 | FieldObject::I8 => 0x1,
            FieldObject::Rectangle | FieldObject::Vector2DInt => 0x2 * self.composite_count(),
            FieldObject::ScenarioScriptNodeValue => 0x4,
            FieldObject::TagGroup => 0x4,
            FieldObject::Vector2D
            | FieldObject::Vector3D
            | FieldObject::Plane2D
            | FieldObject::Plane3D
            | FieldObject::Quaternion
            | FieldObject::Matrix2x3
            | FieldObject::Matrix3x3
            | FieldObject::ColorRGB
            | FieldObject::Euler2D
            | FieldObject::Euler3D
            | FieldObject::ColorARGB => 0x4 * self.composite_count(),
            FieldObject::String32 => 32,
        }
    }

    /// The component count of the kind.
    pub fn composite_count(&self) -> (r: usize)
        ensures
            r as int == composite_count_spec(*self),
    {
        match self {
            FieldObject::Rectangle => 4,
            FieldObject::Vector2D => 2,
            FieldObject::Vector3D => 3,
            FieldObject::Euler2D => 2,
            FieldObject::Euler3D => 3,
            FieldObject::Plane2D => 3,
            FieldObject::Plane3D => 4,
            FieldObject::Quaternion => 4,
            FieldObject::Vector2DInt => 2,
            FieldObject::Matrix2x3 => 6,
            FieldObject::Matrix3x3 => 9,
            FieldObject::ColorRGB => 3,
            FieldObject::ColorARGB => 4,
            _ => 1,
        }
    }

    /// Whether records holding this kind can be copied bitwise: `None` for
    /// a named reference (the answer is the target's), `false` for kinds
    /// bearing pointers or external data, `true` otherwise.
    pub fn is_const(&self) -> (r: Option<bool>)
        ensures
            r == is_const_spec(*self),
    {
        match self {
            FieldObject::NamedObject(_) => None,
            FieldObject::Reflexive(_)
            | FieldObject::TagReference { .. }
            | FieldObject::Data
            | FieldObject::BSPVertexData
            | FieldObject::UTF16String
            | FieldObject::FileData => Some(false),
            _ => Some(true),
        }
    }

    /// The kind of static value an element of this kind takes: none for
    /// opaque kinds, an empty string for string-valued kinds, and a zero
    /// of the matching numeric family otherwise.
    pub fn primitive_value_type(&self) -> (r: Option<StaticValue>)
        ensures
            primitive_value_matches(*self, r),
    {
        match self {
            FieldObject::NamedObject(_)
            | FieldObject::Data
            | FieldObject::FileData
            | FieldObject::BSPVertexData
            | FieldObject::UTF16String
            | FieldObject::TagID
            | FieldObject::ID
            | FieldObject::Address
            | FieldObject::ScenarioScriptNodeValue
            | FieldObject::TagGroup
            | FieldObject::CompressedVector2D
            | FieldObject::CompressedVector3D
            | FieldObject::CompressedFloat => None,
            FieldObject::TagReference { .. } | FieldObject::String32 => Some(
                StaticValue::String(String::new()),
            ),
            FieldObject::U8
            | FieldObject::U16
            | FieldObject::Index
            | FieldObject::U32
            | FieldObject::Pixel32
            | FieldObject::Reflexive(_) => Some(StaticValue::Uint(0)),
            FieldObject::I8
            | FieldObject::I16
            | FieldObject::I32
            | FieldObject::Rectangle
            | FieldObject::Vector2DInt => Some(StaticValue::Int(0)),
            FieldObject::F32
            | FieldObject::Angle
            | FieldObject::Vector2D
            | FieldObject::Vector3D
            | FieldObject::Plane2D
            | FieldObject::Plane3D
            | FieldObject::Euler2D
            | FieldObject::Euler3D
            | FieldObject::Quaternion
            | FieldObject::Matrix2x3
            | FieldObject::Matrix3x3
            | FieldObject::ColorRGB
            | FieldObject::ColorARGB => Some(StaticValue::Float(0)),
        }
    }
}

/// Whether records holding a kind can be copied bitwise; `None` where the
/// answer belongs to a named reference's target.
pub open spec fn is_const_spec(o: FieldObject) -> Option<bool> {
    match o {
        FieldObject::NamedObject(_) => None,
        FieldObject::Reflexive(_)
        | FieldObject::TagReference { .. }
        | FieldObject::Data
        | FieldObject::BSPVertexData
        | FieldObject::UTF16String
        | FieldObject::FileData => Some(false),
        _ => Some(true),
    }
}

/// The static-value family of each field kind: none for opaque kinds, an
/// empty string for string-valued kinds, a zero of the matching numeric
/// family otherwise (a float zero is the all-zero bit pattern).
pub open spec fn primitive_value_matches(o: FieldObject, r: Option<StaticValue>) -> bool {
    match o {
        FieldObject::NamedObject(_)
        | FieldObject::Data
        | FieldObject::FileData
        | FieldObject::BSPVertexData
        | FieldObject::UTF16String
        | FieldObject::TagID
        | FieldObject::ID
        | FieldObject::Address
        | FieldObject::ScenarioScriptNodeValue
        | FieldObject::TagGroup
        | FieldObject::CompressedVector2D
        | FieldObject::CompressedVector3D
        | FieldObject::CompressedFloat => r is None,
        FieldObject::TagReference { .. } | FieldObject::String32 => match r {
            Some(StaticValue::String(s)) => s@ == Seq::<char>::empty(),
            _ => false,
        },
        FieldObject::U8
        | FieldObject::U16
        | FieldObject::Index
        | FieldObject::U32
        | FieldObject::Pixel32
        | FieldObject::Reflexive(_) => r == Some(StaticValue::Uint(0)),
        FieldObject::I8
        | FieldObject::I16
        | FieldObject::I32
        | FieldObject::Rectangle
        | FieldObject::Vector2DInt => r == Some(StaticValue::Int(0)),
        FieldObject::F32
        | FieldObject::Angle
        | FieldObject::Vector2D
        | FieldObject::Vector3D
        | FieldObject::Plane2D
        | FieldObject::Plane3D
        | FieldObject::Euler2D
        | FieldObject::Euler3D
        | FieldObject::Quaternion
        | FieldObject::Matrix2x3
        | FieldObject::Matrix3x3
        | FieldObject::ColorRGB
        | FieldObject::ColorARGB => r == Some(StaticValue::Float(0)),
    }
}

impl SizeableObject for Struct {
    /// A struct's declared size is always available.
    open spec fn size_wf(&self, defs: &ParsedDefinitions) -> bool {
        true
    }

    open spec fn spec_size(&self, defs: &ParsedDefinitions) -> int {
        self.size as int
    }

    /// A struct reports its declared size; layout resolution checks that
    /// the declaration agrees with the sum of the field sizes.
    fn size(&self, defs: &ParsedDefinitions) -> (r: usize) {
        self.size
    }
}

impl SizeableObject for Enum {
    /// An enum's size is fixed.
    open spec fn size_wf(&self, defs: &ParsedDefinitions) -> bool {
        true
    }

    open spec fn spec_size(&self, defs: &ParsedDefinitions) -> int {
        2
    }

    /// An enum is stored as a 16-bit code: two bytes, however many options.
    fn size(&self, defs: &ParsedDefinitions) -> (r: usize) {
        2
    }
}

impl SizeableObject for Bitfield {
    /// A bitfield's size is fixed by its width.
    open spec fn size_wf(&self, defs: &ParsedDefinitions) -> bool {
        true
    }

    open spec fn spec_size(&self, defs: &ParsedDefinitions) -> int {
        (self.width as int) / 8
    }

    /// A bitfield occupies its bit width over eight bytes, however many
    /// bits are named.
    fn size(&self, defs: &ParsedDefinitions) -> (r: usize) {
        (self.width / 8) as usize
    }
}

impl SizeableObject for NamedObject {
    /// A named object's own size never needs a lookup.
    open spec fn size_wf(&self, defs: &ParsedDefinitions) -> bool {
        true
    }

    open spec fn spec_size(&self, defs: &ParsedDefinitions) -> int {
        named_object_size_spec(*self)
    }

    fn size(&self, defs: &ParsedDefinitions) -> (r: usize) {
        match self {
            NamedObject::Struct(s) => s.size(defs),
            NamedObject::Enum(e) => e.size(defs),
            NamedObject::Bitfield(b) => b.size(defs),
        }
    }
}

impl SizeableObject for FieldObject {
    /// A named reference must resolve; catalog kinds always size.
    open spec fn size_wf(&self, defs: &ParsedDefinitions) -> bool {
        field_object_resolves(defs.objects@, *self)
    }

    open spec fn spec_size(&self, defs: &ParsedDefinitions) -> int {
        field_object_size_spec(defs.objects@, *self)
    }

    fn size(&self, defs: &ParsedDefinitions) -> (r: usize) {
        match self {
            FieldObject::NamedObject(n) => {
                let i = defs.find_object_index(n).unwrap();
                let target = &defs.objects[i];
                target.size(defs)
            },
            _ => self.primitive_size(),
        }
    }
}

impl SizeableObject for StructFieldType {
    /// An object kind must resolve; padding and sections always size.
    open spec fn size_wf(&self, defs: &ParsedDefinitions) -> bool {
        field_type_resolves(defs.objects@, *self)
    }

    open spec fn spec_size(&self, defs: &ParsedDefinitions) -> int {
        field_type_size_spec(defs.objects@, *self)
    }

    fn size(&self, defs: &ParsedDefinitions) -> (r: usize) {
        match self {
            StructFieldType::Object(o) => o.size(defs),
            StructFieldType::Padding(p) => *p,
            StructFieldType::EditorSection { .. } => 0,
        }
    }
}

impl SizeableObject for StructField {
    /// The kind must resolve, and the total byte span must fit the
    /// machine's address range.
    open spec fn size_wf(&self, defs: &ParsedDefinitions) -> bool {
        struct_field_resolves(defs.objects@, *self) && struct_field_size_spec(
            defs.objects@,
            *self,
        ) <= usize::MAX
    }

    open spec fn spec_size(&self, defs: &ParsedDefinitions) -> int {
        struct_field_size_spec(defs.objects@, *self)
    }

    /// A field spans the per-element size of its kind times its element
    /// count.
    fn size(&self, defs: &ParsedDefinitions) -> (r: usize) {
        let per_element = self.field_type.size(defs);
        let count = self.count.field_count();
        per_element * count
    }
}

/// Element-count arithmetic: a field's size is the per-element size of its
/// kind multiplied by exactly 1 for `One`, 2 for `Bounds`, and n for
/// `Array(n)`, whatever the kind.
pub proof fn lemma_field_size_element_arithmetic(objects: Seq<NamedObject>, f: StructField)
    ensures
        struct_field_size_spec(objects, f) == field_type_size_spec(objects, f.field_type)
            * field_count_spec(f.count),
        f.count is One ==> field_count_spec(f.count) == 1,
        f.count is Bounds ==> field_count_spec(f.count) == 2,
        forall|n: usize| f.count == FieldCount::Array(n) ==> field_count_spec(f.count) == n as int,
{
}

/// Composite kinds are internally consistent: each derives its size from
/// its component primitive and its component count — float composites from
/// the 32-bit float, rectangles and integer vectors from the 16-bit
/// integer.
pub proof fn lemma_composite_sizes_consistent()
    ensures
        primitive_size_spec(FieldObject::Vector2D) == 2 * primitive_size_spec(FieldObject::F32),
        primitive_size_spec(FieldObject::Vector3D) == 3 * primitive_size_spec(FieldObject::F32),
        primitive_size_spec(FieldObject::Euler2D) == 2 * primitive_size_spec(FieldObject::F32),
        primitive_size_spec(FieldObject::Euler3D) == 3 * primitive_size_spec(FieldObject::F32),
        primitive_size_spec(FieldObject::Plane2D) == 3 * primitive_size_spec(FieldObject::F32),
        primitive_size_spec(FieldObject::Plane3D) == 4 * primitive_size_spec(FieldObject::F32),
        primitive_size_spec(FieldObject::Quaternion) == 4 * primitive_size_spec(FieldObject::F32),
        primitive_size_spec(FieldObject::Matrix2x3) == 6 * primitive_size_spec(FieldObject::F32),
        primitive_size_spec(FieldObject::Matrix3x3) == 9 * primitive_size_spec(FieldObject::F32),
        primitive_size_spec(FieldObject::ColorRGB) == 3 * primitive_size_spec(FieldObject::F32),
        primitive_size_spec(FieldObject::ColorARGB) == 4 * primitive_size_spec(FieldObject::F32),
        primitive_size_spec(FieldObject::Rectangle) == 4 * primitive_size_spec(FieldObject::I16),
        primitive_size_spec(FieldObject::Vector2DInt) == 2 * primitive_size_spec(FieldObject::I16),
{
}

/// An enum is always exactly two bytes and a bitfield always exactly its
/// bit width over eight bytes, independent of how many options or bits
/// either declares.
pub proof fn lemma_enum_bitfield_sizes(e: Enum, b: Bitfield)
    ensures
        named_object_size_spec(NamedObject::Enum(e)) == 2,
        named_object_size_spec(NamedObject::Bitfield(b)) == (b.width as int) / 8,
{
}

} // verus!
