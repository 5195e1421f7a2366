//! Layout resolution and validation.
//!
//! Walking each struct's fields in declaration order assigns every field
//! its relative byte offset and checks that the declared struct size equals
//! the accumulated total. Named references must resolve, and by-value
//! containment must be free of cycles: an object is *grounded* when its
//! by-value references bottom out within a bounded nesting depth, and in a
//! collection of `n` objects any acyclic containment chain is at most `n`
//! deep, so once every reference resolves, an object that is not grounded
//! within `n` levels lies on or reaches a containment cycle.
use vstd::arithmetic::mul::lemma_mul_nonnegative;
use vstd::prelude::*;

use crate::sizes::{
    named_object_size_spec, struct_field_resolves, struct_field_size_spec,
};
use crate::types::{
    DefinitionsError, FieldObject, NamedObject, ParsedDefinitions, Struct, StructField,
    StructFieldType, find_object,
};

verus! {

/// The sum of the sizes of the first `k` fields.
pub open spec fn fields_prefix_size(
    objects: Seq<NamedObject>,
    fields: Seq<StructField>,
    k: int,
) -> int
    decreases k,
{
    if k <= 0 {
        0
    } else {
        fields_prefix_size(objects, fields, k - 1) + struct_field_size_spec(
            objects,
            fields[k - 1],
        )
    }
}

/// The computed size of a struct: the sum of all of its field sizes, in
/// declaration order.
pub open spec fn struct_computed_size(objects: Seq<NamedObject>, s: Struct) -> int {
    fields_prefix_size(objects, s.fields@, s.fields@.len() as int)
}

/// Every named reference of the field resolves: a by-value reference to
/// any object, a reflexive reference to a struct.
pub open spec fn refs_resolve_field(objects: Seq<NamedObject>, f: StructField) -> bool {
    match f.field_type {
        StructFieldType::Object(o) => match o {
            FieldObject::NamedObject(n) => find_object(objects, n@) is Some,
            FieldObject::Reflexive(n) => match find_object(objects, n@) {
                Some(t) => t is Struct,
                None => false,
            },
            _ => true,
        },
        _ => true,
    }
}

/// Every named reference of the struct's fields resolves.
pub open spec fn struct_refs_resolve(objects: Seq<NamedObject>, s: Struct) -> bool {
    forall|j: int|
        0 <= j < s.fields@.len() ==> refs_resolve_field(objects, #[trigger] s.fields@[j])
}

/// The struct sizes consistently: its references resolve and its declared
/// size equals the computed sum of its field sizes.
pub open spec fn struct_layout_ok(objects: Seq<NamedObject>, s: Struct) -> bool {
    struct_refs_resolve(objects, s) && struct_computed_size(objects, s) == s.size as int
}

/// Every struct in the collection sizes consistently.
pub open spec fn objects_layout_ok(objects: Seq<NamedObject>) -> bool {
    forall|i: int|
        0 <= i < objects.len() ==> ((#[trigger] objects[i]) matches NamedObject::Struct(s)
            ==> struct_layout_ok(objects, s))
}

/// The struct's stored field offsets are the prefix sums of its field
/// sizes, in declaration order.
pub open spec fn struct_offsets_assigned(objects: Seq<NamedObject>, s: Struct) -> bool {
    forall|j: int|
        0 <= j < s.fields@.len() ==> (#[trigger] s.fields@[j]).relative_offset as int
            == fields_prefix_size(objects, s.fields@, j)
}

/// A fully resolved layout: every struct sizes consistently and carries
/// its computed field offsets.
pub open spec fn model_layout_resolved(objects: Seq<NamedObject>) -> bool {
    forall|i: int|
        0 <= i < objects.len() ==> ((#[trigger] objects[i]) matches NamedObject::Struct(s)
            ==> struct_layout_ok(objects, s) && struct_offsets_assigned(objects, s))
}

/// An object is grounded at a given nesting depth: anything but a struct
/// immediately, a struct when every by-value reference resolves to an
/// object grounded one level lower.
pub open spec fn grounded(objects: Seq<NamedObject>, o: NamedObject, fuel: nat) -> bool
    decreases fuel, 0int,
{
    if fuel == 0 {
        false
    } else {
        match o {
            NamedObject::Struct(s) => forall|j: int|
                0 <= j < s.fields@.len() ==> field_grounded(
                    objects,
                    #[trigger] s.fields@[j],
                    (fuel - 1) as nat,
                ),
            _ => true,
        }
    }
}

/// A field is grounded at a given depth: if it holds another object by
/// value, that object resolves and is grounded at that depth.
pub open spec fn field_grounded(objects: Seq<NamedObject>, f: StructField, fuel: nat) -> bool
    decreases fuel, 1int,
{
    match f.field_type {
        StructFieldType::Object(FieldObject::NamedObject(n)) => match find_object(objects, n@) {
            Some(t) => grounded(objects, t, fuel),
            None => false,
        },
        _ => true,
    }
}

/// Every object's by-value containment bottoms out within `n` levels,
/// where `n` is the number of objects — the bound any acyclic containment
/// chain satisfies.
pub open spec fn objects_grounded(objects: Seq<NamedObject>) -> bool {
    forall|i: int|
        0 <= i < objects.len() ==> grounded(objects, #[trigger] objects[i], objects.len() as nat)
}

/// A field's size is never negative.
pub proof fn lemma_field_size_nonneg(objects: Seq<NamedObject>, f: StructField)
    ensures
        struct_field_size_spec(objects, f) >= 0,
{
    lemma_mul_nonnegative(
        crate::sizes::field_type_size_spec(objects, f.field_type),
        crate::sizes::field_count_spec(f.count),
    );
}

/// Prefix sums of field sizes are monotone.
pub proof fn lemma_prefix_size_monotone(
    objects: Seq<NamedObject>,
    fields: Seq<StructField>,
    k1: int,
    k2: int,
)
    requires
        0 <= k1 <= k2 <= fields.len(),
    ensures
        fields_prefix_size(objects, fields, k1) <= fields_prefix_size(objects, fields, k2),
    decreases k2 - k1,
{
    if k1 < k2 {
        lemma_prefix_size_monotone(objects, fields, k1, k2 - 1);
        lemma_field_size_nonneg(objects, fields[k2 - 1]);
    }
}

/// Two fields that differ at most in their stored offset.
pub open spec fn field_eq_mod_offset(a: StructField, b: StructField) -> bool {
    a.name == b.name && a.name_rust_enum == b.name_rust_enum && a.name_rust_field
        == b.name_rust_field && a.field_type == b.field_type && a.default_value == b.default_value
        && a.count == b.count && a.minimum == b.minimum && a.maximum == b.maximum && a.limit
        == b.limit && a.flags == b.flags
}

/// Two structs that differ at most in their fields' stored offsets.
pub open spec fn struct_eq_mod_offsets(a: Struct, b: Struct) -> bool {
    a.name == b.name && a.is_const == b.is_const && a.flags == b.flags && a.size == b.size
        && a.fields@.len() == b.fields@.len() && forall|j: int|
        0 <= j < a.fields@.len() ==> field_eq_mod_offset(
            #[trigger] a.fields@[j],
            b.fields@[j],
        )
}

/// Two objects that differ at most in stored field offsets.
pub open spec fn object_eq_mod_offsets(a: NamedObject, b: NamedObject) -> bool {
    match (a, b) {
        (NamedObject::Struct(x), NamedObject::Struct(y)) => struct_eq_mod_offsets(x, y),
        _ => a == b,
    }
}

/// Two collections that differ at most in stored field offsets.
pub open spec fn objects_eq_mod_offsets(a: Seq<NamedObject>, b: Seq<NamedObject>) -> bool {
    a.len() == b.len() && forall|i: int|
        0 <= i < a.len() ==> object_eq_mod_offsets(#[trigger] a[i], b[i])
}

/// Offset changes preserve an object's name, its variant and its own size.
proof fn lemma_object_eq_mod_offsets_basics(a: NamedObject, b: NamedObject)
    requires
        object_eq_mod_offsets(a, b),
    ensures
        a.spec_name() == b.spec_name(),
        named_object_size_spec(a) == named_object_size_spec(b),
        a is Struct <==> b is Struct,
{
}

/// Offset changes do not affect what a name lookup finds, up to offsets.
proof fn lemma_find_object_eq_mod(a: Seq<NamedObject>, b: Seq<NamedObject>, name: Seq<char>)
    requires
        objects_eq_mod_offsets(a, b),
    ensures
        match (find_object(a, name), find_object(b, name)) {
            (Some(x), Some(y)) => object_eq_mod_offsets(x, y),
            (None, None) => true,
            _ => false,
        },
    decreases a.len(),
{
    if a.len() > 0 {
        lemma_object_eq_mod_offsets_basics(a[0], b[0]);
        if a[0].spec_name() != name {
            assert forall|i: int| 0 <= i < a.drop_first().len() implies object_eq_mod_offsets(
                #[trigger] a.drop_first()[i],
                b.drop_first()[i],
            ) by {
                assert(object_eq_mod_offsets(a[i + 1], b[i + 1]));
            }
            lemma_find_object_eq_mod(a.drop_first(), b.drop_first(), name);
        }
    }
}

/// Offset changes do not affect a field's resolution or size.
proof fn lemma_field_size_eq_mod(
    a: Seq<NamedObject>,
    b: Seq<NamedObject>,
    fa: StructField,
    fb: StructField,
)
    requires
        objects_eq_mod_offsets(a, b),
        field_eq_mod_offset(fa, fb),
    ensures
        struct_field_resolves(a, fa) == struct_field_resolves(b, fb),
        refs_resolve_field(a, fa) == refs_resolve_field(b, fb),
        struct_field_size_spec(a, fa) == struct_field_size_spec(b, fb),
{
    match fa.field_type {
        StructFieldType::Object(o) => match o {
            FieldObject::NamedObject(n) => {
                lemma_find_object_eq_mod(a, b, n@);
                match (find_object(a, n@), find_object(b, n@)) {
                    (Some(x), Some(y)) => {
                        lemma_object_eq_mod_offsets_basics(x, y);
                    },
                    _ => {},
                }
            },
            FieldObject::Reflexive(n) => {
                lemma_find_object_eq_mod(a, b, n@);
                match (find_object(a, n@), find_object(b, n@)) {
                    (Some(x), Some(y)) => {
                        lemma_object_eq_mod_offsets_basics(x, y);
                    },
                    _ => {},
                }
            },
            _ => {},
        },
        _ => {},
    }
}

/// Offset changes do not affect prefix sums of field sizes.
proof fn lemma_prefix_size_eq_mod(
    a: Seq<NamedObject>,
    b: Seq<NamedObject>,
    fields_a: Seq<StructField>,
    fields_b: Seq<StructField>,
    k: int,
)
    requires
        objects_eq_mod_offsets(a, b),
        fields_a.len() == fields_b.len(),
        forall|j: int|
            0 <= j < fields_a.len() ==> field_eq_mod_offset(#[trigger] fields_a[j], fields_b[j]),
        0 <= k <= fields_a.len(),
    ensures
        fields_prefix_size(a, fields_a, k) == fields_prefix_size(b, fields_b, k),
    decreases k,
{
    if k > 0 {
        lemma_prefix_size_eq_mod(a, b, fields_a, fields_b, k - 1);
        lemma_field_size_eq_mod(a, b, fields_a[k - 1], fields_b[k - 1]);
    }
}

/// The name a field references, if its kind holds one.
pub open spec fn field_named_ref(f: StructField) -> Option<Seq<char>> {
    match f.field_type {
        StructFieldType::Object(FieldObject::NamedObject(n)) => Some(n@),
        StructFieldType::Object(FieldObject::Reflexive(n)) => Some(n@),
        _ => None,
    }
}

/// Some struct named `referrer` has a field referencing `missing`, and the
/// reference does not resolve to an entity of the expected kind.
pub open spec fn dangling_field_witness(
    objects: Seq<NamedObject>,
    referrer: Seq<char>,
    missing: Seq<char>,
) -> bool {
    exists|i: int|
        0 <= i < objects.len() && ((#[trigger] objects[i]) matches NamedObject::Struct(s)
            && s.name@ == referrer && dangling_field_in_struct(objects, s, missing))
}

/// Some field of the struct references `missing` without resolving.
pub open spec fn dangling_field_in_struct(
    objects: Seq<NamedObject>,
    s: Struct,
    missing: Seq<char>,
) -> bool {
    exists|j: int|
        0 <= j < s.fields@.len() && !refs_resolve_field(objects, #[trigger] s.fields@[j])
            && field_named_ref(s.fields@[j]) == Some(missing)
}

/// Some struct named `name` declares size `declared` but its fields sum to
/// a different total; `computed` is that total where it fits the machine.
pub open spec fn size_mismatch_witness(
    objects: Seq<NamedObject>,
    name: Seq<char>,
    declared: int,
    computed: Option<usize>,
) -> bool {
    exists|i: int|
        0 <= i < objects.len() && ((#[trigger] objects[i]) matches NamedObject::Struct(s)
            && s.name@ == name && s.size as int == declared && struct_computed_size(objects, s)
            != s.size as int && (match computed {
            Some(c) => c as int == struct_computed_size(objects, s),
            None => struct_computed_size(objects, s) > usize::MAX as int,
        }))
}

/// Every struct's named references resolve.
pub open spec fn all_struct_refs_resolve(objects: Seq<NamedObject>) -> bool {
    forall|i: int|
        0 <= i < objects.len() ==> ((#[trigger] objects[i]) matches NamedObject::Struct(s)
            ==> struct_refs_resolve(objects, s))
}

/// Some object named `name` is not grounded within `n` levels.
pub open spec fn ungrounded_witness(objects: Seq<NamedObject>, name: Seq<char>) -> bool {
    exists|i: int|
        0 <= i < objects.len() && (#[trigger] objects[i]).spec_name() == name && !grounded(
            objects,
            objects[i],
            objects.len() as nat,
        )
}

/// Every named reference resolves, yet the object named `name` is not
/// grounded within `n` levels: it lies on or reaches a genuine by-value
/// containment cycle. A dangling reference is excluded — it fails the
/// resolution conjunct and is reported as a dangling-reference error.
pub open spec fn cycle_witness(objects: Seq<NamedObject>, name: Seq<char>) -> bool {
    all_struct_refs_resolve(objects) && ungrounded_witness(objects, name)
}

/// The offsets a layout walk computed for one object: one prefix sum per
/// field of a struct, nothing for other objects.
pub open spec fn offsets_vec_ok(
    objects: Seq<NamedObject>,
    o: NamedObject,
    offs: Seq<usize>,
) -> bool {
    match o {
        NamedObject::Struct(s) => offs.len() == s.fields@.len() && forall|j: int|
            0 <= j < offs.len() ==> (#[trigger] offs[j]) as int == fields_prefix_size(
                objects,
                s.fields@,
                j,
            ),
        _ => true,
    }
}

/// The struct's stored offsets equal the given walk results.
pub open spec fn offsets_stored(o: NamedObject, offs: Seq<usize>) -> bool {
    match o {
        NamedObject::Struct(s) => s.fields@.len() == offs.len() && forall|j: int|
            0 <= j < offs.len() ==> (#[trigger] s.fields@[j]).relative_offset == offs[j],
        _ => true,
    }
}

/// Offset changes preserve a consistent struct layout.
proof fn lemma_struct_layout_eq_mod(
    a: Seq<NamedObject>,
    b: Seq<NamedObject>,
    sa: Struct,
    sb: Struct,
)
    requires
        objects_eq_mod_offsets(a, b),
        struct_eq_mod_offsets(sa, sb),
        struct_layout_ok(a, sa),
    ensures
        struct_layout_ok(b, sb),
{
    assert forall|j: int| 0 <= j < sb.fields@.len() implies refs_resolve_field(
        b,
        #[trigger] sb.fields@[j],
    ) by {
        assert(refs_resolve_field(a, sa.fields@[j]));
        lemma_field_size_eq_mod(a, b, sa.fields@[j], sb.fields@[j]);
    }
    lemma_prefix_size_eq_mod(a, b, sa.fields@, sb.fields@, sa.fields@.len() as int);
}

/// Offset changes preserve every object's name.
pub proof fn lemma_names_preserved_eq_mod(a: Seq<NamedObject>, b: Seq<NamedObject>)
    requires
        objects_eq_mod_offsets(a, b),
    ensures
        forall|i: int| 0 <= i < a.len() ==> (#[trigger] a[i]).spec_name() == b[i].spec_name(),
{
    assert forall|i: int| 0 <= i < a.len() implies (#[trigger] a[i]).spec_name()
        == b[i].spec_name() by {
        lemma_object_eq_mod_offsets_basics(a[i], b[i]);
    }
}

/// In a resolved model, every struct's declared size equals the sum of its
/// field sizes in declaration order, which is also what its size query
/// reports.
pub proof fn lemma_struct_size_consistency(objects: Seq<NamedObject>, i: int, s: Struct)
    requires
        model_layout_resolved(objects),
        0 <= i < objects.len(),
        objects[i] == NamedObject::Struct(s),
    ensures
        struct_computed_size(objects, s) == s.size as int,
        named_object_size_spec(objects[i]) == s.size as int,
{
}

/// In a resolved model, field offsets are monotonically non-decreasing in
/// declaration order, and each field's offset plus its size is exactly the
/// next field's offset: consecutive fields leave no gap and do not
/// overlap.
pub proof fn lemma_field_offsets_contiguous(objects: Seq<NamedObject>, i: int, s: Struct, j: int)
    requires
        model_layout_resolved(objects),
        0 <= i < objects.len(),
        objects[i] == NamedObject::Struct(s),
        0 <= j < s.fields@.len() - 1,
    ensures
        s.fields@[j].relative_offset as int + struct_field_size_spec(objects, s.fields@[j])
            == s.fields@[j + 1].relative_offset as int,
        s.fields@[j].relative_offset <= s.fields@[j + 1].relative_offset,
{
    assert(struct_offsets_assigned(objects, s));
    assert(s.fields@[j].relative_offset as int == fields_prefix_size(objects, s.fields@, j));
    assert(s.fields@[j + 1].relative_offset as int == fields_prefix_size(objects, s.fields@, j + 1));
    lemma_field_size_nonneg(objects, s.fields@[j]);
}

impl ParsedDefinitions {
    /// Walk every struct's fields in declaration order, accumulating the
    /// computed prefix sums and checking references and the declared size.
    /// Read-only: the offsets are returned, not yet stored.
    fn validate_layout(&self) -> (r: Result<Vec<Vec<usize>>, DefinitionsError>)
        ensures
            match r {
                Ok(offs) => objects_layout_ok(self.objects@) && offs@.len()
                    == self.objects@.len() && forall|i: int|
                    0 <= i < offs@.len() ==> offsets_vec_ok(
                        self.objects@,
                        self.objects@[i],
                        (#[trigger] offs@[i])@,
                    ),
                Err(e) => !objects_layout_ok(self.objects@) && match e {
                    DefinitionsError::DanglingReference { referrer, missing } =>
                        dangling_field_witness(self.objects@, referrer@, missing@),
                    DefinitionsError::SizeMismatch { name, declared, computed } =>
                        size_mismatch_witness(self.objects@, name@, declared as int, computed),
                    _ => false,
                },
            },
    {
        let n = self.objects.len();
        let mut all_offs: Vec<Vec<usize>> = Vec::new();
        for i in 0..n
            invariant
                n == self.objects@.len(),
                all_offs@.len() == i,
                forall|k: int|
                    0 <= k < i ==> ((#[trigger] self.objects@[k]) matches NamedObject::Struct(s)
                        ==> struct_layout_ok(self.objects@, s)),
                forall|k: int|
                    0 <= k < i ==> offsets_vec_ok(
                        self.objects@,
                        self.objects@[k],
                        (#[trigger] all_offs@[k])@,
                    ),
        {
            let mut offs: Vec<usize> = Vec::new();
            match &self.objects[i] {
                NamedObject::Struct(s) => {
                    let ghost gobjects = self.objects@;
                    assert(gobjects[i as int] == NamedObject::Struct(*s));
                    let nf = s.fields.len();
                    let mut acc: usize = 0;
                    for j in 0..nf
                        invariant
                            n == self.objects@.len(),
                            self.objects@ == gobjects,
                            gobjects[i as int] == NamedObject::Struct(*s),
                            0 <= i < n,
                            nf == s.fields@.len(),
                            offs@.len() == j,
                            acc as int == fields_prefix_size(gobjects, s.fields@, j as int),
                            forall|l: int|
                                0 <= l < j ==> (#[trigger] offs@[l]) as int == fields_prefix_size(
                                    gobjects,
                                    s.fields@,
                                    l,
                                ),
                            forall|l: int|
                                0 <= l < j ==> refs_resolve_field(
                                    gobjects,
                                    #[trigger] s.fields@[l],
                                ),
                    {
                        offs.push(acc);
                        let f = &s.fields[j];
                        let per: usize = match &f.field_type {
                            StructFieldType::Object(o) => match o {
                                FieldObject::NamedObject(nm) => match self.find_object_index(nm) {
                                    Some(t) => match &self.objects[t] {
                                        NamedObject::Struct(s2) => s2.size,
                                        NamedObject::Enum(_) => 2,
                                        NamedObject::Bitfield(b) => (b.width / 8) as usize,
                                    },
                                    None => {
                                        proof {
                                            assert(!refs_resolve_field(gobjects, s.fields@[j as int]));
                                            assert(!struct_refs_resolve(gobjects, *s));
                                            assert(!struct_layout_ok(gobjects, *s));
                                            assert(!objects_layout_ok(gobjects));
                                            assert(dangling_field_witness(gobjects, s.name@, nm@));
                                        }
                                        return Err(
                                            DefinitionsError::DanglingReference {
                                                referrer: s.name.clone(),
                                                missing: nm.clone(),
                                            },
                                        );
                                    },
                                },
                                FieldObject::Reflexive(nm) => match self.find_object_index(nm) {
                                    Some(t) => match &self.objects[t] {
                                        NamedObject::Struct(_) => 0xC,
                                        _ => {
                                            proof {
                                                assert(!refs_resolve_field(
                                                    gobjects,
                                                    s.fields@[j as int],
                                                ));
                                                assert(!struct_layout_ok(gobjects, *s));
                                                assert(!objects_layout_ok(gobjects));
                                                assert(dangling_field_witness(
                                                    gobjects,
                                                    s.name@,
                                                    nm@,
                                                ));
                                            }
                                            return Err(
                                                DefinitionsError::DanglingReference {
                                                    referrer: s.name.clone(),
                                                    missing: nm.clone(),
                                                },
                                            );
                                        },
                                    },
                                    None => {
                                        proof {
                                            assert(!refs_resolve_field(gobjects, s.fields@[j as int]));
                                            assert(!struct_layout_ok(gobjects, *s));
                                            assert(!objects_layout_ok(gobjects));
                                            assert(dangling_field_witness(gobjects, s.name@, nm@));
                                        }
                                        return Err(
                                            DefinitionsError::DanglingReference {
                                                referrer: s.name.clone(),
                                                missing: nm.clone(),
                                            },
                                        );
                                    },
                                },
                                other => other.primitive_size(),
                            },
                            StructFieldType::Padding(p) => *p,
                            StructFieldType::EditorSection { .. } => 0,
                        };
                        assert(per as int == crate::sizes::field_type_size_spec(
                            gobjects,
                            f.field_type,
                        ));
                        assert(refs_resolve_field(gobjects, s.fields@[j as int]));
                        let count = f.count.field_count();
                        let fsize: usize = match per.checked_mul(count) {
                            Some(v) => v,
                            None => {
                                proof {
                                    lemma_prefix_size_monotone(
                                        gobjects,
                                        s.fields@,
                                        j as int + 1,
                                        nf as int,
                                    );
                                    assert(struct_computed_size(gobjects, *s) > usize::MAX as int);
                                    assert(!struct_layout_ok(gobjects, *s));
                                    assert(!objects_layout_ok(gobjects));
                                    assert(size_mismatch_witness(
                                        gobjects,
                                        s.name@,
                                        s.size as int,
                                        None,
                                    ));
                                }
                                return Err(
                                    DefinitionsError::SizeMismatch {
                                        name: s.name.clone(),
                                        declared: s.size,
                                        computed: None,
                                    },
                                );
                            },
                        };
                        assert(fsize as int == struct_field_size_spec(gobjects, s.fields@[j as int]));
                        acc = match acc.checked_add(fsize) {
                            Some(v) => v,
                            None => {
                                proof {
                                    lemma_prefix_size_monotone(
                                        gobjects,
                                        s.fields@,
                                        j as int + 1,
                                        nf as int,
                                    );
                                    assert(struct_computed_size(gobjects, *s) > usize::MAX as int);
                                    assert(!struct_layout_ok(gobjects, *s));
                                    assert(!objects_layout_ok(gobjects));
                                    assert(size_mismatch_witness(
                                        gobjects,
                                        s.name@,
                                        s.size as int,
                                        None,
                                    ));
                                }
                                return Err(
                                    DefinitionsError::SizeMismatch {
                                        name: s.name.clone(),
                                        declared: s.size,
                                        computed: None,
                                    },
                                );
                            },
                        };
                    }
                    if acc != s.size {
                        proof {
                            assert(struct_computed_size(gobjects, *s) == acc as int);
                            assert(!struct_layout_ok(gobjects, *s));
                            assert(!objects_layout_ok(gobjects));
                            assert(size_mismatch_witness(
                                gobjects,
                                s.name@,
                                s.size as int,
                                Some(acc),
                            ));
                        }
                        return Err(
                            DefinitionsError::SizeMismatch {
                                name: s.name.clone(),
                                declared: s.size,
                                computed: Some(acc),
                            },
                        );
                    }
                    assert(struct_layout_ok(gobjects, *s));
                },
                _ => {},
            }
            all_offs.push(offs);
        }
        Ok(all_offs)
    }

    /// Decide for every object whether its by-value containment bottoms
    /// out, by marking grounded objects in rounds: round `r` has marked
    /// exactly the objects grounded within `r` levels. After as many
    /// rounds as there are objects, an unmarked object lies on or reaches
    /// a containment cycle (or a dangling reference).
    fn check_grounded(&self) -> (r: Result<(), DefinitionsError>)
        ensures
            match r {
                Ok(()) => objects_grounded(self.objects@),
                Err(e) => !objects_grounded(self.objects@) && match e {
                    DefinitionsError::CyclicReference { name } => ungrounded_witness(
                        self.objects@,
                        name@,
                    ),
                    _ => false,
                },
            },
    {
        let n = self.objects.len();
        let mut marked: Vec<bool> = Vec::new();
        for i in 0..n
            invariant
                marked@.len() == i,
                forall|k: int| 0 <= k < i ==> (#[trigger] marked@[k]) == false,
        {
            marked.push(false);
        }
        for round in 0..n
            invariant
                n == self.objects@.len(),
                marked@.len() == n,
                forall|k: int|
                    0 <= k < n ==> ((#[trigger] marked@[k]) <==> grounded(
                        self.objects@,
                        self.objects@[k],
                        round as nat,
                    )),
        {
            let mut new_marked: Vec<bool> = Vec::new();
            for i in 0..n
                invariant
                    n == self.objects@.len(),
                    marked@.len() == n,
                    0 <= round < n,
                    forall|k: int|
                        0 <= k < n ==> ((#[trigger] marked@[k]) <==> grounded(
                            self.objects@,
                            self.objects@[k],
                            round as nat,
                        )),
                    new_marked@.len() == i,
                    forall|k: int|
                        0 <= k < i ==> ((#[trigger] new_marked@[k]) <==> grounded(
                            self.objects@,
                            self.objects@[k],
                            round as nat + 1,
                        )),
            {
                let g: bool = match &self.objects[i] {
                    NamedObject::Struct(s) => {
                        let ghost gobjects = self.objects@;
                        assert(gobjects[i as int] == NamedObject::Struct(*s));
                        let nf = s.fields.len();
                        let mut ok = true;
                        for j in 0..nf
                            invariant
                                n == self.objects@.len(),
                                self.objects@ == gobjects,
                                marked@.len() == n,
                                0 <= round < n,
                                forall|k: int|
                                    0 <= k < n ==> ((#[trigger] marked@[k]) <==> grounded(
                                        gobjects,
                                        gobjects[k],
                                        round as nat,
                                    )),
                                nf == s.fields@.len(),
                                ok <==> forall|l: int|
                                    0 <= l < j ==> field_grounded(
                                        gobjects,
                                        #[trigger] s.fields@[l],
                                        round as nat,
                                    ),
                        {
                            let fg: bool = match &s.fields[j].field_type {
                                StructFieldType::Object(FieldObject::NamedObject(nm)) => {
                                    match self.find_object_index(nm) {
                                        Some(t) => marked[t],
                                        None => false,
                                    }
                                },
                                _ => true,
                            };
                            assert(fg <==> field_grounded(
                                gobjects,
                                s.fields@[j as int],
                                round as nat,
                            ));
                            ok = ok && fg;
                        }
                        proof {
                            if ok {
                                assert(grounded(gobjects, gobjects[i as int], round as nat + 1));
                            } else {
                                assert(!grounded(gobjects, gobjects[i as int], round as nat + 1));
                            }
                        }
                        ok
                    },
                    _ => true,
                };
                new_marked.push(g);
            }
            marked = new_marked;
        }
        for i in 0..n
            invariant
                n == self.objects@.len(),
                marked@.len() == n,
                forall|k: int|
                    0 <= k < n ==> ((#[trigger] marked@[k]) <==> grounded(
                        self.objects@,
                        self.objects@[k],
                        n as nat,
                    )),
                forall|k: int|
                    0 <= k < i ==> grounded(self.objects@, #[trigger] self.objects@[k], n as nat),
        {
            if !marked[i] {
                proof {
                    assert(!grounded(self.objects@, self.objects@[i as int], n as nat));
                    assert(ungrounded_witness(self.objects@, self.objects@[i as int].spec_name()));
                }
                return Err(
                    DefinitionsError::CyclicReference { name: self.objects[i].name_ref().clone() },
                );
            }
        }
        Ok(())
    }

    /// Store the offsets a layout walk computed: every struct's fields
    /// receive their prefix sums; nothing else changes.
    fn write_offsets(&mut self, all_offs: &Vec<Vec<usize>>)
        requires
            all_offs@.len() == old(self).objects@.len(),
            forall|i: int|
                0 <= i < all_offs@.len() ==> offsets_vec_ok(
                    old(self).objects@,
                    old(self).objects@[i],
                    (#[trigger] all_offs@[i])@,
                ),
            objects_layout_ok(old(self).objects@),
        ensures
            final(self).groups == old(self).groups,
            final(self).engines == old(self).engines,
            objects_eq_mod_offsets(old(self).objects@, final(self).objects@),
            model_layout_resolved(final(self).objects@),
    {
        let ghost old_objects = old(self).objects@;
        let n = self.objects.len();
        for i in 0..n
            invariant
                n == old_objects.len(),
                self.objects@.len() == n,
                all_offs@.len() == n,
                self.groups == old(self).groups,
                self.engines == old(self).engines,
                forall|k: int|
                    0 <= k < n ==> offsets_vec_ok(
                        old_objects,
                        old_objects[k],
                        (#[trigger] all_offs@[k])@,
                    ),
                forall|k: int| i <= k < n ==> #[trigger] self.objects@[k] == old_objects[k],
                forall|k: int|
                    0 <= k < i ==> object_eq_mod_offsets(
                        old_objects[k],
                        #[trigger] self.objects@[k],
                    ),
                forall|k: int|
                    0 <= k < i ==> offsets_stored(#[trigger] self.objects@[k], all_offs@[k]@),
        {
            let ghost before = self.objects@;
            let obj = self.objects.remove(i);
            assert(obj == old_objects[i as int]);
            match obj {
                NamedObject::Struct(mut s) => {
                    let ghost orig_struct = s;
                    let ghost orig_fields = s.fields@;
                    assert(old_objects[i as int] == NamedObject::Struct(orig_struct));
                    let offs = &all_offs[i];
                    assert(offsets_vec_ok(old_objects, old_objects[i as int], offs@));
                    let nf = s.fields.len();
                    for j in 0..nf
                        invariant
                            nf == s.fields@.len(),
                            offs@.len() == nf,
                            s.name == orig_struct.name,
                            s.is_const == orig_struct.is_const,
                            s.flags == orig_struct.flags,
                            s.size == orig_struct.size,
                            forall|l: int| j <= l < nf ==> #[trigger] s.fields@[l] == orig_fields[l],
                            forall|l: int|
                                0 <= l < j ==> field_eq_mod_offset(
                                    orig_fields[l],
                                    #[trigger] s.fields@[l],
                                ),
                            forall|l: int|
                                0 <= l < j ==> (#[trigger] s.fields@[l]).relative_offset
                                    == offs@[l],
                    {
                        s.fields[j].relative_offset = offs[j];
                    }
                    self.objects.insert(i, NamedObject::Struct(s));
                    proof {
                        assert(self.objects@ =~= before.update(
                            i as int,
                            self.objects@[i as int],
                        ));
                        assert(struct_eq_mod_offsets(orig_struct, s));
                        assert(object_eq_mod_offsets(old_objects[i as int], self.objects@[i as int]));
                        assert(offsets_stored(self.objects@[i as int], all_offs@[i as int]@));
                    }
                },
                other => {
                    self.objects.insert(i, other);
                    proof {
                        assert(self.objects@ =~= before);
                    }
                },
            }
        }
        proof {
            assert(objects_eq_mod_offsets(old_objects, self.objects@));
            assert forall|i: int| 0 <= i < self.objects@.len() implies ((#[trigger] self.objects@[i])
                matches NamedObject::Struct(sn) ==> struct_layout_ok(self.objects@, sn)
                && struct_offsets_assigned(self.objects@, sn)) by {
                match self.objects@[i] {
                    NamedObject::Struct(sn) => {
                        assert(object_eq_mod_offsets(old_objects[i], self.objects@[i]));
                        match old_objects[i] {
                            NamedObject::Struct(so) => {
                                assert(struct_layout_ok(old_objects, so));
                                lemma_struct_layout_eq_mod(old_objects, self.objects@, so, sn);
                                assert(offsets_stored(self.objects@[i], all_offs@[i]@));
                                assert forall|j: int| 0 <= j < sn.fields@.len() implies (
                                #[trigger] sn.fields@[j]).relative_offset as int
                                    == fields_prefix_size(self.objects@, sn.fields@, j) by {
                                    assert(sn.fields@[j].relative_offset == all_offs@[i]@[j]);
                                    assert(all_offs@[i]@[j] as int == fields_prefix_size(
                                        old_objects,
                                        so.fields@,
                                        j,
                                    ));
                                    lemma_prefix_size_eq_mod(
                                        old_objects,
                                        self.objects@,
                                        so.fields@,
                                        sn.fields@,
                                        j,
                                    );
                                }
                            },
                            _ => {
                                assert(false);
                            },
                        }
                    },
                    _ => {},
                }
            }
        }
    }

    /// Resolve and validate the layout of every struct: compute each
    /// field's relative byte offset in declaration order and check that
    /// every declared struct size equals the computed total, that every
    /// named reference resolves, and that by-value containment is free of
    /// cycles. Succeeds exactly on consistent models; any defect aborts
    /// with an error naming the offending entity, leaving the model
    /// unchanged.
    pub fn finalize_and_assert_valid(&mut self) -> (r: Result<(), DefinitionsError>)
        ensures
            final(self).groups == old(self).groups,
            final(self).engines == old(self).engines,
            r is Ok <==> objects_layout_ok(old(self).objects@) && objects_grounded(
                old(self).objects@,
            ),
            r is Ok ==> objects_eq_mod_offsets(old(self).objects@, final(self).objects@)
                && model_layout_resolved(final(self).objects@) && objects_grounded(old(self).objects@),
            r is Err ==> final(self).objects == old(self).objects,
            match r {
                Ok(()) => true,
                Err(e) => match e {
                    DefinitionsError::DanglingReference { referrer, missing } =>
                        dangling_field_witness(old(self).objects@, referrer@, missing@),
                    DefinitionsError::SizeMismatch { name, declared, computed } =>
                        size_mismatch_witness(old(self).objects@, name@, declared as int, computed),
                    DefinitionsError::CyclicReference { name } => cycle_witness(
                        old(self).objects@,
                        name@,
                    ),
                    _ => false,
                },
            },
    {
        let all_offs = match self.validate_layout() {
            Ok(v) => v,
            Err(e) => {
                return Err(e);
            },
        };
        proof {
            assert forall|i: int| 0 <= i < self.objects@.len() implies ((
            #[trigger] self.objects@[i]) matches NamedObject::Struct(s) ==> struct_refs_resolve(
                self.objects@,
                s,
            )) by {
                match self.objects@[i] {
                    NamedObject::Struct(s) => {
                        assert(struct_layout_ok(self.objects@, s));
                    },
                    _ => {},
                }
            }
            assert(all_struct_refs_resolve(self.objects@));
        }
        match self.check_grounded() {
            Ok(()) => {},
            Err(e) => {
                return Err(e);
            },
        }
        self.write_offsets(&all_offs);
        Ok(())
    }
}

} // verus!
