//! The entity model: structs, enums, bitfields, fields, tag groups and
//! engine profiles, together with the name-keyed definitions container.
use vstd::prelude::*;

use crate::engine::Engine;

verus! {

/// How many elements a struct field holds.
#[derive(Copy, Clone, Debug, PartialEq, Eq)]
pub enum FieldCount {
    /// A single element.
    One,
    /// A from/to pair; contributes twice the element size.
    Bounds,
    /// A fixed-length array of elements.
    Array(usize),
}

/// Which limit a per-limit maximum applies to.
#[derive(Clone, Debug, PartialEq, Eq, PartialOrd, Ord, Hash)]
pub enum LimitType {
    /// Maximum allowed by the named engine.
    Engine(String),
    /// Maximum allowed by default.
    Default,
    /// Maximum allowed by the editor.
    Editor,
}

/// Whether two limit kinds denote the same key of a limit table.
pub open spec fn limit_type_matches(a: LimitType, b: LimitType) -> bool {
    match (a, b) {
        (LimitType::Engine(x), LimitType::Engine(y)) => x@ == y@,
        (LimitType::Default, LimitType::Default) => true,
        (LimitType::Editor, LimitType::Editor) => true,
        _ => false,
    }
}

/// A limit table is keyed: each limit kind appears at most once.
pub open spec fn limit_table_keyed(v: Seq<(LimitType, usize)>) -> bool {
    forall|i: int, j: int|
        0 <= i < j < v.len() ==> !limit_type_matches((#[trigger] v[i]).0, (#[trigger] v[j]).0)
}

/// A field's per-limit maximum table, where it has one, is keyed.
pub open spec fn limit_keys_unique(limit: Option<Vec<(LimitType, usize)>>) -> bool {
    match limit {
        None => true,
        Some(v) => limit_table_keyed(v@),
    }
}

/// A static value recorded in the definitions, such as a default value.
///
/// A float is carried as the raw bit pattern of an IEEE 754 single, so the
/// model itself stays within integer arithmetic.
#[derive(Clone, Debug, PartialEq, Eq)]
pub enum StaticValue {
    /// A 32-bit float, held as its raw bit pattern.
    Float(u32),
    /// An unsigned integer value.
    Uint(u64),
    /// A signed integer value.
    Int(i64),
    /// A string value.
    String(String),
}

/// How an uninitialized field is handled.
#[derive(Clone, Debug)]
pub struct DefaultBehavior {
    /// Default values, one per element: for bounds the from/to pair, for
    /// arrays one per array element.
    pub default_value: Vec<StaticValue>,
    /// Apply the default when the entity is created.
    pub default_on_creation: bool,
    /// Apply the default when a zero value is built into a cache file.
    pub default_on_cache: bool,
}

/// A list of engines that support something.
#[derive(Clone, Debug, PartialEq, Eq)]
pub enum SupportedEngines {
    /// Supported by all engines.
    AllEngines,
    /// Supported only by the named engines.
    SomeEngines(Vec<String>),
}

/// Whether a list of names contains the given name.
pub open spec fn name_in_list(list: Seq<String>, name: Seq<char>) -> bool {
    exists|i: int| 0 <= i < list.len() && list[i]@ == name
}

/// Linear search for a name in a list of names.
pub(crate) fn list_contains_name(list: &Vec<String>, name: &String) -> (r: bool)
    ensures
        r == name_in_list(list@, name@),
{
    let n = list.len();
    for i in 0..n
        invariant
            n == list@.len(),
            forall|j: int| 0 <= j < i ==> list@[j]@ != name@,
    {
        if list[i] == *name {
            assert(list@[i as int]@ == name@);
            return true;
        }
    }
    false
}

impl SupportedEngines {
    /// Whether the engine of the given name is in the support set.
    pub open spec fn spec_supports(&self, engine_name: Seq<char>) -> bool {
        match self {
            SupportedEngines::AllEngines => true,
            SupportedEngines::SomeEngines(list) => name_in_list(list@, engine_name),
        }
    }

    /// Returns true if the engine is supported.
    pub fn supports_engine(&self, engine: &Engine) -> (r: bool)
        ensures
            r == self.spec_supports(engine.name@),
    {
        match self {
            SupportedEngines::AllEngines => true,
            SupportedEngines::SomeEngines(list) => list_contains_name(list, &engine.name),
        }
    }
}

impl Default for SupportedEngines {
    /// The default support set places no restriction.
    fn default() -> (r: Self)
        ensures
            r is AllEngines,
    {
        SupportedEngines::AllEngines
    }
}

/// Boolean traits, engine-support restriction and free-text annotations
/// shared by every entity kind.
#[derive(Clone, Debug, PartialEq, Eq)]
pub struct Flags {
    /// The field is not readable from tag files.
    pub cache_only: bool,
    /// The field is not present in cache files.
    pub non_cached: bool,
    /// Hint to an editor that the field should be read-only.
    pub uneditable_in_editor: bool,
    /// Hint to an editor that the field should not be displayed.
    pub hidden_in_editor: bool,
    /// The field cannot be used; a set value is lost.
    pub exclude: bool,
    /// Stored little-endian in tag files.
    pub little_endian_in_tags: bool,
    /// The value is decremented when built into a cache file.
    pub shifted_by_one: bool,
    /// The value must be set.
    pub non_null: bool,
    /// Engines that support the entity; unsupported fields act as padding.
    pub supported_engines: SupportedEngines,
    /// A comment, if present.
    pub comment: Option<String>,
    /// A developer note, if present.
    pub developer_note: Option<String>,
    /// A description, if present.
    pub description: Option<String>,
}

impl Default for Flags {
    /// Fresh flags: every boolean trait clear, no restriction, no notes.
    fn default() -> (r: Self)
        ensures
            !r.cache_only,
            !r.non_cached,
            !r.uneditable_in_editor,
            !r.hidden_in_editor,
            !r.exclude,
            !r.little_endian_in_tags,
            !r.shifted_by_one,
            !r.non_null,
            r.supported_engines is AllEngines,
            r.comment is None,
            r.developer_note is None,
            r.description is None,
    {
        Flags {
            cache_only: false,
            non_cached: false,
            uneditable_in_editor: false,
            hidden_in_editor: false,
            exclude: false,
            little_endian_in_tags: false,
            shifted_by_one: false,
            non_null: false,
            supported_engines: SupportedEngines::AllEngines,
            comment: None,
            developer_note: None,
            description: None,
        }
    }
}

/// An enum option or a bitfield bit: a named numeric value.
#[derive(Clone, Debug)]
pub struct Field {
    /// Name of the value.
    pub name: String,
    /// The name formatted for a generated enum variant.
    pub name_rust_enum: String,
    /// The name formatted for a generated struct field.
    pub name_rust_field: String,
    /// Flags for this value.
    pub flags: Flags,
    /// The stored code (enum) or bitmask (bitfield).
    pub value: u32,
}

/// The kind of a tangible struct field.
#[derive(Clone, Debug)]
pub enum FieldObject {
    /// A named reference to another struct, enum or bitfield, held by value.
    NamedObject(String),
    /// A resizable array of records of the named struct, held by reference.
    Reflexive(String),
    /// A reference to a tag.
    TagReference {
        /// Names of the tag groups a reference may point at.
        allowed_groups: Vec<String>,
    },
    /// A tag group, stored as its four-byte code.
    TagGroup,
    /// A block of unstructured tag data.
    Data,
    /// BSP vertex data; laid out like `Data`.
    BSPVertexData,
    /// A null-terminated UTF-16 string; laid out like `Data`.
    UTF16String,
    /// Data resident in the file rather than in memory; laid out like `Data`.
    FileData,
    /// A 32-bit float.
    F32,
    /// An 8-bit unsigned integer.
    U8,
    /// A 16-bit unsigned integer.
    U16,
    /// A 32-bit unsigned integer.
    U32,
    /// An 8-bit signed integer.
    I8,
    /// A 16-bit signed integer.
    I16,
    /// A 32-bit signed integer.
    I32,
    /// A loose tag ID, stored as a 32-bit unsigned integer.
    TagID,
    /// A loose table ID, stored as a 32-bit unsigned integer.
    ID,
    /// An index stored as a 16-bit integer, where 0xFFFF means null.
    Index,
    /// An angle, stored as a 32-bit float.
    Angle,
    /// A loose pointer.
    Address,
    /// A two-dimensional float vector.
    Vector2D,
    /// A three-dimensional float vector.
    Vector3D,
    /// A 2D vector compressed into 32 bits.
    CompressedVector2D,
    /// A 3D vector compressed into 32 bits.
    CompressedVector3D,
    /// A float in [-1, 1] compressed into 16 bits.
    CompressedFloat,
    /// A two-dimensional 16-bit integer vector.
    Vector2DInt,
    /// A two-dimensional plane: offset plus a 2D vector.
    Plane2D,
    /// A three-dimensional plane: offset plus a 3D vector.
    Plane3D,
    /// A yaw/pitch Euler angle pair.
    Euler2D,
    /// A yaw/pitch/roll Euler angle triple.
    Euler3D,
    /// A rectangle of four 16-bit integers.
    Rectangle,
    /// A quaternion of four floats.
    Quaternion,
    /// A 2x3 matrix of floats.
    Matrix2x3,
    /// A 3x3 matrix of floats.
    Matrix3x3,
    /// A color without alpha: three floats.
    ColorRGB,
    /// A color with alpha: four floats.
    ColorARGB,
    /// An A8R8G8B8 color packed into 32 bits.
    Pixel32,
    /// A null-terminated 31-character string in 32 bytes.
    String32,
    /// A tagged value stored in 32 bits, equivalent to a union.
    ScenarioScriptNodeValue,
}

/// What a struct field is: a tangible object, literal padding, or an
/// editor-only grouping annotation.
#[derive(Clone, Debug)]
pub enum StructFieldType {
    /// A tangible object with a meaning.
    Object(FieldObject),
    /// Literal padding of the given byte count.
    Padding(usize),
    /// An editor section heading; occupies no bytes.
    EditorSection {
        /// Heading of the section.
        heading: String,
        /// Body text of the section, if any.
        body: Option<String>,
    },
}

/// A field of a struct.
#[derive(Clone, Debug)]
pub struct StructField {
    /// Name of the field.
    pub name: String,
    /// The name formatted for a generated enum variant.
    pub name_rust_enum: String,
    /// The name formatted for a generated struct field.
    pub name_rust_field: String,
    /// Kind of the field.
    pub field_type: StructFieldType,
    /// Default values, one per element, if any.
    pub default_value: Option<Vec<StaticValue>>,
    /// Number of elements.
    pub count: FieldCount,
    /// Minimum value, if any.
    pub minimum: Option<StaticValue>,
    /// Maximum value, if any.
    pub maximum: Option<StaticValue>,
    /// Per-limit maxima, if any; each limit kind appears at most once.
    pub limit: Option<Vec<(LimitType, usize)>>,
    /// Flags for the field.
    pub flags: Flags,
    /// Byte offset relative to the start of the owning struct; computed
    /// during layout resolution.
    pub relative_offset: usize,
}

/// A struct: an ordered list of fields with a declared total byte size.
#[derive(Clone, Debug)]
pub struct Struct {
    /// Name of the struct.
    pub name: String,
    /// The fields, in declaration order; the order defines the byte layout.
    pub fields: Vec<StructField>,
    /// The struct holds no tag references, tag data or pointer-bearing
    /// fields (excluded fields aside), so records of it can be copied
    /// bitwise.
    pub is_const: bool,
    /// Flags for the struct itself.
    pub flags: Flags,
    /// The declared total size of the struct in bytes.
    pub size: usize,
}

/// An enum: an ordered list of named options. Always two bytes.
#[derive(Clone, Debug)]
pub struct Enum {
    /// Name of the enum.
    pub name: String,
    /// The options, in order.
    pub options: Vec<Field>,
    /// Flags for the enum itself.
    pub flags: Flags,
}

/// A bitfield: named bits within a fixed width. The width is a multiple of
/// eight bits, and the size is `width / 8` bytes.
#[derive(Clone, Debug)]
pub struct Bitfield {
    /// Name of the bitfield.
    pub name: String,
    /// Width in bits.
    pub width: u8,
    /// The bits, in order.
    pub fields: Vec<Field>,
    /// Flags for the bitfield itself.
    pub flags: Flags,
}

/// A struct, enum or bitfield definition.
#[derive(Clone, Debug)]
pub enum NamedObject {
    /// A struct definition.
    Struct(Struct),
    /// An enum definition.
    Enum(Enum),
    /// A bitfield definition.
    Bitfield(Bitfield),
}

/// A tag group: an identifiable category of record format rooted at a
/// struct, optionally specializing a supergroup.
#[derive(Clone, Debug)]
pub struct TagGroup {
    /// Name of the tag group.
    pub name: String,
    /// Name of the struct defining the group's root layout.
    pub struct_name: String,
    /// The group's name formatted for a generated enum variant.
    pub name_rust_enum: String,
    /// Name of the supergroup this group specializes, if any.
    pub supergroup: Option<String>,
    /// Engines that support this tag group.
    pub supported_engines: SupportedEngines,
    /// Flags for the group; inheritance merges ancestors' flags into these.
    pub flags: Flags,
    /// Format version of the group.
    pub version: u16,
    /// The four-byte code identifying the group's binary format.
    pub fourcc_binary: u32,
}

/// The definitions container: every struct, enum, bitfield, tag group and
/// engine, each collection keyed by unique names.
#[derive(Debug)]
pub struct ParsedDefinitions {
    /// All struct, enum and bitfield definitions.
    pub objects: Vec<NamedObject>,
    /// All tag group definitions.
    pub groups: Vec<TagGroup>,
    /// All engine definitions.
    pub engines: Vec<Engine>,
}

/// A fatal defect found while building the definitions model.
#[derive(Clone, Debug, PartialEq, Eq)]
pub enum DefinitionsError {
    /// Two entities of one collection share a name.
    DuplicateName {
        /// The name declared twice.
        name: String,
    },
    /// A named reference does not resolve to an entity of the expected kind.
    DanglingReference {
        /// The entity holding the reference.
        referrer: String,
        /// The name that did not resolve.
        missing: String,
    },
    /// A chain of named references revisits an entity.
    CyclicReference {
        /// An entity on the cycle.
        name: String,
    },
    /// A struct's declared size disagrees with the sum of its field sizes.
    SizeMismatch {
        /// The offending struct.
        name: String,
        /// The declared size.
        declared: usize,
        /// The computed sum of field sizes, or `None` if the sum exceeds
        /// the machine's address range.
        computed: Option<usize>,
    },
    /// A bitfield's width is not a multiple of eight bits.
    InvalidBitfieldWidth {
        /// The offending bitfield.
        name: String,
        /// The declared width in bits.
        width: u8,
    },
}

impl NamedObject {
    /// The name of the object, whichever variant it is.
    pub open spec fn spec_name(&self) -> Seq<char> {
        match self {
            NamedObject::Struct(s) => s.name@,
            NamedObject::Enum(e) => e.name@,
            NamedObject::Bitfield(b) => b.name@,
        }
    }

    /// Get the name of the object.
    pub fn name(&self) -> (r: &str)
        ensures
            r@ == self.spec_name(),
    {
        match self {
            NamedObject::Struct(s) => s.name.as_str(),
            NamedObject::Enum(e) => e.name.as_str(),
            NamedObject::Bitfield(b) => b.name.as_str(),
        }
    }

    /// The name as an owned-string reference, for comparisons.
    pub(crate) fn name_ref(&self) -> (r: &String)
        ensures
            r@ == self.spec_name(),
    {
        match self {
            NamedObject::Struct(s) => &s.name,
            NamedObject::Enum(e) => &e.name,
            NamedObject::Bitfield(b) => &b.name,
        }
    }
}

/// The first object of the given name, if any.
pub open spec fn find_object(objects: Seq<NamedObject>, name: Seq<char>) -> Option<NamedObject>
    decreases objects.len(),
{
    if objects.len() == 0 {
        None
    } else if objects[0].spec_name() == name {
        Some(objects[0])
    } else {
        find_object(objects.drop_first(), name)
    }
}

/// The first tag group of the given name, if any.
pub open spec fn find_group(groups: Seq<TagGroup>, name: Seq<char>) -> Option<TagGroup>
    decreases groups.len(),
{
    if groups.len() == 0 {
        None
    } else if groups[0].name@ == name {
        Some(groups[0])
    } else {
        find_group(groups.drop_first(), name)
    }
}

/// The first engine of the given name, if any.
pub open spec fn find_engine(engines: Seq<Engine>, name: Seq<char>) -> Option<Engine>
    decreases engines.len(),
{
    if engines.len() == 0 {
        None
    } else if engines[0].name@ == name {
        Some(engines[0])
    } else {
        find_engine(engines.drop_first(), name)
    }
}

/// Every object carries a distinct name.
pub open spec fn objects_unique(objects: Seq<NamedObject>) -> bool {
    forall|i: int, j: int|
        0 <= i < j < objects.len() ==> objects[i].spec_name() != objects[j].spec_name()
}

/// Every tag group carries a distinct name.
pub open spec fn groups_unique(groups: Seq<TagGroup>) -> bool {
    forall|i: int, j: int| 0 <= i < j < groups.len() ==> groups[i].name@ != groups[j].name@
}

/// Every engine carries a distinct name.
pub open spec fn engines_unique(engines: Seq<Engine>) -> bool {
    forall|i: int, j: int| 0 <= i < j < engines.len() ==> engines[i].name@ != engines[j].name@
}

impl ParsedDefinitions {
    /// Names are unique within each of the three collections.
    pub open spec fn names_unique(&self) -> bool {
        objects_unique(self.objects@) && groups_unique(self.groups@) && engines_unique(
            self.engines@,
        )
    }

    /// Look up a struct, enum or bitfield by name, returning its index.
    pub fn find_object_index(&self, name: &String) -> (r: Option<usize>)
        ensures
            match r {
                Some(i) => i < self.objects@.len() && self.objects@[i as int].spec_name() == name@
                    && find_object(self.objects@, name@) == Some(self.objects@[i as int]),
                None => find_object(self.objects@, name@) is None,
            },
    {
        let n = self.objects.len();
        assert(self.objects@.skip(0) =~= self.objects@);
        for i in 0..n
            invariant
                n == self.objects@.len(),
                find_object(self.objects@, name@) == find_object(
                    self.objects@.skip(i as int),
                    name@,
                ),
        {
            assert(self.objects@.skip(i as int)[0] == self.objects@[i as int]);
            if *self.objects[i].name_ref() == *name {
                return Some(i);
            }
            assert(self.objects@.skip(i as int).drop_first() =~= self.objects@.skip(i as int + 1));
        }
        assert(self.objects@.skip(n as int).len() == 0);
        None
    }

    /// Look up a tag group by name, returning its index.
    pub fn find_group_index(&self, name: &String) -> (r: Option<usize>)
        ensures
            match r {
                Some(i) => i < self.groups@.len() && self.groups@[i as int].name@ == name@
                    && find_group(self.groups@, name@) == Some(self.groups@[i as int]),
                None => find_group(self.groups@, name@) is None,
            },
    {
        let n = self.groups.len();
        assert(self.groups@.skip(0) =~= self.groups@);
        for i in 0..n
            invariant
                n == self.groups@.len(),
                find_group(self.groups@, name@) == find_group(self.groups@.skip(i as int), name@),
        {
            assert(self.groups@.skip(i as int)[0] == self.groups@[i as int]);
            if self.groups[i].name == *name {
                return Some(i);
            }
            assert(self.groups@.skip(i as int).drop_first() =~= self.groups@.skip(i as int + 1));
        }
        assert(self.groups@.skip(n as int).len() == 0);
        None
    }

    /// Look up an engine by name, returning its index.
    pub fn find_engine_index(&self, name: &String) -> (r: Option<usize>)
        ensures
            match r {
                Some(i) => i < self.engines@.len() && self.engines@[i as int].name@ == name@
                    && find_engine(self.engines@, name@) == Some(self.engines@[i as int]),
                None => find_engine(self.engines@, name@) is None,
            },
    {
        let n = self.engines.len();
        assert(self.engines@.skip(0) =~= self.engines@);
        for i in 0..n
            invariant
                n == self.engines@.len(),
                find_engine(self.engines@, name@) == find_engine(
                    self.engines@.skip(i as int),
                    name@,
                ),
        {
            assert(self.engines@.skip(i as int)[0] == self.engines@[i as int]);
            if self.engines[i].name == *name {
                return Some(i);
            }
            assert(self.engines@.skip(i as int).drop_first() =~= self.engines@.skip(i as int + 1));
        }
        assert(self.engines@.skip(n as int).len() == 0);
        None
    }
}

impl Default for ParsedDefinitions {
    /// An empty definitions container.
    fn default() -> (r: Self)
        ensures
            r.objects@ == Seq::<NamedObject>::empty(),
            r.groups@ == Seq::<TagGroup>::empty(),
            r.engines@ == Seq::<Engine>::empty(),
    {
        ParsedDefinitions { objects: Vec::new(), groups: Vec::new(), engines: Vec::new() }
    }
}

} // verus!
