//! Inheritance resolution.
//!
//! Tag groups may specialize a supergroup and engines may inherit from
//! another engine. Resolution follows those name chains, rejecting chains
//! that do not resolve or do not reach a root, and merges flags from every
//! ancestor into each tag group by boolean OR, so a child is never less
//! restricted or less annotated than an ancestor declared it to be.
//!
//! A parent chain is followed with a step budget of one lookup per group:
//! with `n` groups, an acyclic chain reaches a root within `n` steps, so a
//! chain that does not revisits a group.
use vstd::prelude::*;

use crate::engine::Engine;
use crate::types::{
    DefinitionsError, Flags, NamedObject, ParsedDefinitions, TagGroup, find_engine, find_group,
    find_object,
};

verus! {

/// An annotation after a merge: the base's own where it carries one, else
/// the other side's — an inherited annotation is never lost.
pub open spec fn merged_annotation(base: Option<String>, other: Option<String>) -> Option<String> {
    if base is Some {
        base
    } else {
        other
    }
}

/// The result of merging `other`'s flags into `base`: each boolean trait
/// is the OR of the two, each annotation is `base`'s own where it has one
/// and `other`'s otherwise, and the engine restriction stays `base`'s own.
pub open spec fn combined_flags(base: Flags, other: Flags) -> Flags {
    Flags {
        cache_only: base.cache_only || other.cache_only,
        non_cached: base.non_cached || other.non_cached,
        uneditable_in_editor: base.uneditable_in_editor || other.uneditable_in_editor,
        hidden_in_editor: base.hidden_in_editor || other.hidden_in_editor,
        exclude: base.exclude || other.exclude,
        little_endian_in_tags: base.little_endian_in_tags || other.little_endian_in_tags,
        shifted_by_one: base.shifted_by_one || other.shifted_by_one,
        non_null: base.non_null || other.non_null,
        supported_engines: base.supported_engines,
        comment: merged_annotation(base.comment, other.comment),
        developer_note: merged_annotation(base.developer_note, other.developer_note),
        description: merged_annotation(base.description, other.description),
    }
}

/// Every boolean trait set in `a` is also set in `b`, and wherever `a`
/// carries an annotation, `b` carries one too.
pub open spec fn flags_le(a: Flags, b: Flags) -> bool {
    (a.cache_only ==> b.cache_only) && (a.non_cached ==> b.non_cached)
        && (a.uneditable_in_editor ==> b.uneditable_in_editor) && (a.hidden_in_editor
        ==> b.hidden_in_editor) && (a.exclude ==> b.exclude) && (a.little_endian_in_tags
        ==> b.little_endian_in_tags) && (a.shifted_by_one ==> b.shifted_by_one) && (a.non_null
        ==> b.non_null) && (a.comment is Some ==> b.comment is Some) && (a.developer_note is Some
        ==> b.developer_note is Some) && (a.description is Some ==> b.description is Some)
}

/// Fill an absent annotation with the other side's value; a present one
/// is kept.
fn fill_annotation(slot: &mut Option<String>, value: &Option<String>)
    ensures
        *final(slot) == merged_annotation(*old(slot), *value),
{
    if slot.is_none() {
        match value {
            Some(v) => {
                *slot = Some(v.clone());
            },
            None => {},
        }
    }
}

impl Flags {
    /// Merge another flag set into this one: every boolean trait becomes
    /// the OR of the two, an absent annotation takes the other's value (a
    /// present one is kept), and the engine restriction is untouched.
    pub fn combine_with(&mut self, other: &Flags)
        ensures
            *final(self) == combined_flags(*old(self), *other),
    {
        self.cache_only = self.cache_only || other.cache_only;
        self.non_cached = self.non_cached || other.non_cached;
        self.uneditable_in_editor = self.uneditable_in_editor || other.uneditable_in_editor;
        self.hidden_in_editor = self.hidden_in_editor || other.hidden_in_editor;
        self.exclude = self.exclude || other.exclude;
        self.little_endian_in_tags = self.little_endian_in_tags || other.little_endian_in_tags;
        self.shifted_by_one = self.shifted_by_one || other.shifted_by_one;
        self.non_null = self.non_null || other.non_null;
        fill_annotation(&mut self.comment, &other.comment);
        fill_annotation(&mut self.developer_note, &other.developer_note);
        fill_annotation(&mut self.description, &other.description);
    }
}

/// Merging flags is idempotent: merging the same flags a second time
/// changes nothing.
pub proof fn lemma_flags_combine_idempotent(a: Flags, b: Flags)
    ensures
        combined_flags(combined_flags(a, b), b) == combined_flags(a, b),
{
}

/// A merge never loses a trait: both inputs' traits are contained in the
/// result's.
pub proof fn lemma_flags_combine_monotone(a: Flags, b: Flags)
    ensures
        flags_le(a, combined_flags(a, b)),
        flags_le(b, combined_flags(a, b)),
{
}

/// The group's supergroup chain resolves to a root within the given step
/// budget: every link names an existing group and a group without a
/// supergroup is reached before the budget runs out.
pub open spec fn group_chain_ok(groups: Seq<TagGroup>, g: TagGroup, fuel: nat) -> bool
    decreases fuel,
{
    match g.supergroup {
        None => true,
        Some(p) => fuel > 0 && match find_group(groups, p@) {
            Some(pg) => group_chain_ok(groups, pg, (fuel - 1) as nat),
            None => false,
        },
    }
}

/// The first `fuel` supergroup links from the group all resolve: no link
/// followed within the step budget names a missing group.
pub open spec fn group_chain_links_resolve(groups: Seq<TagGroup>, g: TagGroup, fuel: nat) -> bool
    decreases fuel,
{
    if fuel == 0 {
        true
    } else {
        match g.supergroup {
            None => true,
            Some(p) => match find_group(groups, p@) {
                Some(pg) => group_chain_links_resolve(groups, pg, (fuel - 1) as nat),
                None => false,
            },
        }
    }
}

/// The flags of a group after inheritance: its own flags merged with every
/// ancestor's along the supergroup chain, within the given step budget.
pub open spec fn merged_group_flags(groups: Seq<TagGroup>, g: TagGroup, fuel: nat) -> Flags
    decreases fuel,
{
    match g.supergroup {
        None => g.flags,
        Some(p) => if fuel == 0 {
            g.flags
        } else {
            match find_group(groups, p@) {
                Some(pg) => combined_flags(
                    g.flags,
                    merged_group_flags(groups, pg, (fuel - 1) as nat),
                ),
                None => g.flags,
            }
        },
    }
}

/// The engine's inherits chain resolves to a root within the given step
/// budget.
pub open spec fn engine_chain_ok(engines: Seq<Engine>, e: Engine, fuel: nat) -> bool
    decreases fuel,
{
    match e.inherits {
        None => true,
        Some(p) => fuel > 0 && match find_engine(engines, p@) {
            Some(pe) => engine_chain_ok(engines, pe, (fuel - 1) as nat),
            None => false,
        },
    }
}

/// The first `fuel` inherits links from the engine all resolve.
pub open spec fn engine_chain_links_resolve(engines: Seq<Engine>, e: Engine, fuel: nat) -> bool
    decreases fuel,
{
    if fuel == 0 {
        true
    } else {
        match e.inherits {
            None => true,
            Some(p) => match find_engine(engines, p@) {
                Some(pe) => engine_chain_links_resolve(engines, pe, (fuel - 1) as nat),
                None => false,
            },
        }
    }
}

/// A resolving chain is stable under a larger step budget, and so are its
/// merged flags.
pub proof fn lemma_group_chain_fuel(groups: Seq<TagGroup>, g: TagGroup, f1: nat, f2: nat)
    requires
        group_chain_ok(groups, g, f1),
        f1 <= f2,
    ensures
        group_chain_ok(groups, g, f2),
        merged_group_flags(groups, g, f2) == merged_group_flags(groups, g, f1),
    decreases f1,
{
    match g.supergroup {
        None => {},
        Some(p) => {
            match find_group(groups, p@) {
                Some(pg) => {
                    lemma_group_chain_fuel(groups, pg, (f1 - 1) as nat, (f2 - 1) as nat);
                },
                None => {},
            }
        },
    }
}

/// The group's root struct resolves to a struct definition.
pub open spec fn group_root_resolves(objects: Seq<NamedObject>, g: TagGroup) -> bool {
    match find_object(objects, g.struct_name@) {
        Some(t) => t is Struct,
        None => false,
    }
}

/// Every group's root struct resolves and every supergroup chain reaches
/// a root within one step per group.
pub open spec fn groups_resolved(objects: Seq<NamedObject>, groups: Seq<TagGroup>) -> bool {
    forall|i: int|
        0 <= i < groups.len() ==> group_root_resolves(objects, #[trigger] groups[i])
            && group_chain_ok(groups, groups[i], groups.len() as nat)
}

/// Every engine's inherits chain reaches a root within one step per
/// engine.
pub open spec fn engines_resolved(engines: Seq<Engine>) -> bool {
    forall|i: int|
        0 <= i < engines.len() ==> engine_chain_ok(engines, #[trigger] engines[i], engines.len() as nat)
}

/// The group with its flags replaced.
pub open spec fn group_with_flags(g: TagGroup, fl: Flags) -> TagGroup {
    TagGroup {
        name: g.name,
        struct_name: g.struct_name,
        name_rust_enum: g.name_rust_enum,
        supergroup: g.supergroup,
        supported_engines: g.supported_engines,
        flags: fl,
        version: g.version,
        fourcc_binary: g.fourcc_binary,
    }
}

/// Each group of `b` is the matching group of `a` carrying the flags
/// merged along its chain in `full`, with `full`'s step budget.
pub open spec fn groups_merged_rel(
    full: Seq<TagGroup>,
    a: Seq<TagGroup>,
    b: Seq<TagGroup>,
) -> bool {
    a.len() == b.len() && forall|i: int|
        0 <= i < a.len() ==> #[trigger] b[i] == group_with_flags(
            a[i],
            merged_group_flags(full, a[i], full.len() as nat),
        )
}

/// The resolved collection: every group carries the flags merged along
/// its own chain, and nothing else changed.
pub open spec fn groups_merged(old_groups: Seq<TagGroup>, new_groups: Seq<TagGroup>) -> bool {
    groups_merged_rel(old_groups, old_groups, new_groups)
}

/// Some group named `referrer` holds the unresolved name `missing`: its
/// root struct name, or its supergroup name.
pub open spec fn group_link_dangling(
    objects: Seq<NamedObject>,
    groups: Seq<TagGroup>,
    referrer: Seq<char>,
    missing: Seq<char>,
) -> bool {
    exists|i: int|
        0 <= i < groups.len() && ((#[trigger] groups[i]).name@ == referrer && ((
        groups[i].struct_name@ == missing && !group_root_resolves(objects, groups[i])) || (
        groups[i].supergroup matches Some(p) && p@ == missing && find_group(groups, missing)
            is None)))
}

/// Some engine named `referrer` inherits from the unresolved name
/// `missing`.
pub open spec fn engine_link_dangling(
    engines: Seq<Engine>,
    referrer: Seq<char>,
    missing: Seq<char>,
) -> bool {
    exists|i: int|
        0 <= i < engines.len() && ((#[trigger] engines[i]).name@ == referrer && (engines[i].inherits
            matches Some(p) && p@ == missing && find_engine(engines, missing) is None))
}

/// Some group named `name` has a supergroup chain whose followed links
/// all resolve, yet no root is reached within one step per group: the
/// chain revisits a group. A chain that merely dangles is excluded — it
/// fails the link-resolution conjunct.
pub open spec fn group_cycle_witness(groups: Seq<TagGroup>, name: Seq<char>) -> bool {
    exists|i: int|
        0 <= i < groups.len() && (#[trigger] groups[i]).name@ == name
            && group_chain_links_resolve(groups, groups[i], groups.len() as nat)
            && !group_chain_ok(groups, groups[i], groups.len() as nat)
}

/// Some engine named `name` has an inherits chain whose followed links
/// all resolve, yet no root is reached within one step per engine: the
/// chain revisits an engine. A chain that merely dangles is excluded.
pub open spec fn engine_cycle_witness(engines: Seq<Engine>, name: Seq<char>) -> bool {
    exists|i: int|
        0 <= i < engines.len() && (#[trigger] engines[i]).name@ == name
            && engine_chain_links_resolve(engines, engines[i], engines.len() as nat)
            && !engine_chain_ok(engines, engines[i], engines.len() as nat)
}

/// The ancestor `k` supergroup steps above the group, if the chain
/// reaches that far.
pub open spec fn ancestor_at(groups: Seq<TagGroup>, g: TagGroup, k: nat) -> Option<TagGroup>
    decreases k,
{
    if k == 0 {
        Some(g)
    } else {
        match g.supergroup {
            None => None,
            Some(p) => match find_group(groups, p@) {
                Some(pg) => ancestor_at(groups, pg, (k - 1) as nat),
                None => None,
            },
        }
    }
}

/// Inheritance is monotone: a group's merged flags contain its own
/// boolean traits and every ancestor's, whenever the merge's step budget
/// covers the ancestor's distance.
pub proof fn lemma_inheritance_monotone(groups: Seq<TagGroup>, g: TagGroup, k: nat, fuel: nat)
    requires
        k <= fuel,
    ensures
        ancestor_at(groups, g, k) matches Some(a) ==> flags_le(
            a.flags,
            merged_group_flags(groups, g, fuel),
        ),
    decreases k,
{
    if k == 0 {
    } else {
        match g.supergroup {
            None => {},
            Some(p) => {
                match find_group(groups, p@) {
                    Some(pg) => {
                        lemma_inheritance_monotone(groups, pg, (k - 1) as nat, (fuel - 1) as nat);
                    },
                    None => {},
                }
            },
        }
    }
}

/// After resolution, a group's flags contain its own original traits and
/// every ancestor's: a child never loses a restriction or annotation an
/// ancestor declared.
pub proof fn lemma_resolved_flags_superset(
    old_groups: Seq<TagGroup>,
    new_groups: Seq<TagGroup>,
    i: int,
    k: nat,
)
    requires
        groups_merged(old_groups, new_groups),
        0 <= i < old_groups.len(),
        k <= old_groups.len(),
    ensures
        ancestor_at(old_groups, old_groups[i], k) matches Some(a) ==> flags_le(
            a.flags,
            new_groups[i].flags,
        ),
{
    lemma_inheritance_monotone(old_groups, old_groups[i], k, old_groups.len() as nat);
}

/// A name lookup in a resolved collection finds the resolved form of what
/// the lookup in the original collection finds.
proof fn lemma_find_group_merged_rel(
    full: Seq<TagGroup>,
    a: Seq<TagGroup>,
    b: Seq<TagGroup>,
    name: Seq<char>,
)
    requires
        groups_merged_rel(full, a, b),
    ensures
        match (find_group(a, name), find_group(b, name)) {
            (Some(x), Some(y)) => y == group_with_flags(
                x,
                merged_group_flags(full, x, full.len() as nat),
            ),
            (None, None) => true,
            _ => false,
        },
    decreases a.len(),
{
    if a.len() > 0 {
        assert(b[0] == group_with_flags(
            a[0],
            merged_group_flags(full, a[0], full.len() as nat),
        ));
        if a[0].name@ != name {
            assert forall|j: int| 0 <= j < a.drop_first().len() implies #[trigger] b.drop_first()[j]
                == group_with_flags(
                a.drop_first()[j],
                merged_group_flags(full, a.drop_first()[j], full.len() as nat),
            ) by {
                assert(b[j + 1] == group_with_flags(
                    a[j + 1],
                    merged_group_flags(full, a[j + 1], full.len() as nat),
                ));
            }
            lemma_find_group_merged_rel(full, a.drop_first(), b.drop_first(), name);
        }
    }
}

/// A chain resolves in the resolved collection exactly where it resolves
/// in the original: resolution changes flags only, never the links.
proof fn lemma_chain_ok_merged_rel(
    old_groups: Seq<TagGroup>,
    new_groups: Seq<TagGroup>,
    g_old: TagGroup,
    g_new: TagGroup,
    fuel: nat,
)
    requires
        groups_merged(old_groups, new_groups),
        g_new.supergroup == g_old.supergroup,
    ensures
        group_chain_ok(new_groups, g_new, fuel) == group_chain_ok(old_groups, g_old, fuel),
    decreases fuel,
{
    match g_old.supergroup {
        None => {},
        Some(p) => {
            lemma_find_group_merged_rel(old_groups, old_groups, new_groups, p@);
            if fuel > 0 {
                match (find_group(old_groups, p@), find_group(new_groups, p@)) {
                    (Some(x), Some(y)) => {
                        lemma_chain_ok_merged_rel(
                            old_groups,
                            new_groups,
                            x,
                            y,
                            (fuel - 1) as nat,
                        );
                    },
                    _ => {},
                }
            }
        },
    }
}

/// Merging an already fully merged group with its already merged ancestors
/// adds nothing.
proof fn lemma_merged_absorb(
    old_groups: Seq<TagGroup>,
    new_groups: Seq<TagGroup>,
    g_old: TagGroup,
    g_new: TagGroup,
    fuel: nat,
)
    requires
        groups_merged(old_groups, new_groups),
        g_new == group_with_flags(
            g_old,
            merged_group_flags(old_groups, g_old, old_groups.len() as nat),
        ),
        group_chain_ok(old_groups, g_old, fuel),
        fuel <= old_groups.len(),
    ensures
        merged_group_flags(new_groups, g_new, fuel) == g_new.flags,
    decreases fuel,
{
    let nfull = old_groups.len() as nat;
    match g_old.supergroup {
        None => {},
        Some(p) => {
            lemma_find_group_merged_rel(old_groups, old_groups, new_groups, p@);
            match (find_group(old_groups, p@), find_group(new_groups, p@)) {
                (Some(pg_old), Some(pg_new)) => {
                    lemma_merged_absorb(
                        old_groups,
                        new_groups,
                        pg_old,
                        pg_new,
                        (fuel - 1) as nat,
                    );
                    lemma_group_chain_fuel(old_groups, pg_old, (fuel - 1) as nat, nfull);
                    lemma_group_chain_fuel(
                        old_groups,
                        pg_old,
                        (fuel - 1) as nat,
                        (nfull - 1) as nat,
                    );
                    assert(merged_group_flags(old_groups, g_old, nfull) == combined_flags(
                        g_old.flags,
                        merged_group_flags(old_groups, pg_old, (nfull - 1) as nat),
                    ));
                    assert(merged_group_flags(new_groups, g_new, fuel) == combined_flags(
                        g_new.flags,
                        merged_group_flags(new_groups, pg_new, (fuel - 1) as nat),
                    ));
                    lemma_flags_combine_idempotent(
                        g_old.flags,
                        merged_group_flags(old_groups, pg_old, (fuel - 1) as nat),
                    );
                },
                _ => {},
            }
        },
    }
}

/// Inheritance is idempotent: in a resolved collection every group
/// already carries exactly the flags a second resolution pass would
/// compute, and every chain still resolves.
pub proof fn lemma_inheritance_idempotent(
    old_groups: Seq<TagGroup>,
    new_groups: Seq<TagGroup>,
    i: int,
)
    requires
        groups_merged(old_groups, new_groups),
        forall|k: int|
            0 <= k < old_groups.len() ==> group_chain_ok(
                old_groups,
                #[trigger] old_groups[k],
                old_groups.len() as nat,
            ),
        0 <= i < new_groups.len(),
    ensures
        group_chain_ok(new_groups, new_groups[i], new_groups.len() as nat),
        merged_group_flags(new_groups, new_groups[i], new_groups.len() as nat)
            == new_groups[i].flags,
{
    assert(new_groups[i] == group_with_flags(
        old_groups[i],
        merged_group_flags(old_groups, old_groups[i], old_groups.len() as nat),
    ));
    lemma_chain_ok_merged_rel(
        old_groups,
        new_groups,
        old_groups[i],
        new_groups[i],
        old_groups.len() as nat,
    );
    lemma_merged_absorb(
        old_groups,
        new_groups,
        old_groups[i],
        new_groups[i],
        old_groups.len() as nat,
    );
}

/// The eight boolean traits of a flag set, as a compact copyable value
/// for accumulating merges along a chain.
#[derive(Copy, Clone)]
struct FlagBits {
    cache_only: bool,
    non_cached: bool,
    uneditable_in_editor: bool,
    hidden_in_editor: bool,
    exclude: bool,
    little_endian_in_tags: bool,
    shifted_by_one: bool,
    non_null: bool,
}

/// The boolean traits of a flag set.
spec fn bits_of(f: Flags) -> FlagBits {
    FlagBits {
        cache_only: f.cache_only,
        non_cached: f.non_cached,
        uneditable_in_editor: f.uneditable_in_editor,
        hidden_in_editor: f.hidden_in_editor,
        exclude: f.exclude,
        little_endian_in_tags: f.little_endian_in_tags,
        shifted_by_one: f.shifted_by_one,
        non_null: f.non_null,
    }
}

/// The trait-wise OR of two trait sets.
spec fn or_bits(a: FlagBits, b: FlagBits) -> FlagBits {
    FlagBits {
        cache_only: a.cache_only || b.cache_only,
        non_cached: a.non_cached || b.non_cached,
        uneditable_in_editor: a.uneditable_in_editor || b.uneditable_in_editor,
        hidden_in_editor: a.hidden_in_editor || b.hidden_in_editor,
        exclude: a.exclude || b.exclude,
        little_endian_in_tags: a.little_endian_in_tags || b.little_endian_in_tags,
        shifted_by_one: a.shifted_by_one || b.shifted_by_one,
        non_null: a.non_null || b.non_null,
    }
}

/// The empty trait set.
fn no_bits() -> (r: FlagBits)
    ensures
        !r.cache_only,
        !r.non_cached,
        !r.uneditable_in_editor,
        !r.hidden_in_editor,
        !r.exclude,
        !r.little_endian_in_tags,
        !r.shifted_by_one,
        !r.non_null,
{
    FlagBits {
        cache_only: false,
        non_cached: false,
        uneditable_in_editor: false,
        hidden_in_editor: false,
        exclude: false,
        little_endian_in_tags: false,
        shifted_by_one: false,
        non_null: false,
    }
}

/// Read a flag set's boolean traits.
fn read_bits(f: &Flags) -> (r: FlagBits)
    ensures
        r == bits_of(*f),
{
    FlagBits {
        cache_only: f.cache_only,
        non_cached: f.non_cached,
        uneditable_in_editor: f.uneditable_in_editor,
        hidden_in_editor: f.hidden_in_editor,
        exclude: f.exclude,
        little_endian_in_tags: f.little_endian_in_tags,
        shifted_by_one: f.shifted_by_one,
        non_null: f.non_null,
    }
}

/// OR two trait sets.
fn or_bits_exec(a: FlagBits, b: FlagBits) -> (r: FlagBits)
    ensures
        r == or_bits(a, b),
{
    FlagBits {
        cache_only: a.cache_only || b.cache_only,
        non_cached: a.non_cached || b.non_cached,
        uneditable_in_editor: a.uneditable_in_editor || b.uneditable_in_editor,
        hidden_in_editor: a.hidden_in_editor || b.hidden_in_editor,
        exclude: a.exclude || b.exclude,
        little_endian_in_tags: a.little_endian_in_tags || b.little_endian_in_tags,
        shifted_by_one: a.shifted_by_one || b.shifted_by_one,
        non_null: a.non_null || b.non_null,
    }
}

/// The merged flags keep the group's own engine restriction, whatever the
/// chain contributes.
proof fn lemma_merged_keeps_engine_restriction(groups: Seq<TagGroup>, g: TagGroup, fuel: nat)
    ensures
        merged_group_flags(groups, g, fuel).supported_engines == g.flags.supported_engines,
{
}

/// The merge result for one group: the OR of the boolean traits and, for
/// each annotation kind, the first annotation found along the chain.
struct MergedTraits {
    bits: FlagBits,
    comment: Option<String>,
    developer_note: Option<String>,
    description: Option<String>,
}

/// The accumulated traits agree with the given flags.
spec fn traits_match(t: MergedTraits, f: Flags) -> bool {
    t.bits == bits_of(f) && t.comment == f.comment && t.developer_note == f.developer_note
        && t.description == f.description
}

impl ParsedDefinitions {
    /// Follow one group's supergroup chain, accumulating the boolean
    /// traits of every group on it and, for each annotation kind, the
    /// nearest annotation on the chain. One lookup per group suffices for
    /// any chain that reaches a root; a chain whose links all resolve but
    /// is still unfinished after that many steps has revisited a group.
    fn walk_group_chain(&self, i: usize) -> (r: Result<MergedTraits, DefinitionsError>)
        requires
            i < self.groups@.len(),
        ensures
            match r {
                Ok(t) => group_chain_ok(
                    self.groups@,
                    self.groups@[i as int],
                    self.groups@.len() as nat,
                ) && traits_match(
                    t,
                    merged_group_flags(
                        self.groups@,
                        self.groups@[i as int],
                        self.groups@.len() as nat,
                    ),
                ),
                Err(e) => !group_chain_ok(
                    self.groups@,
                    self.groups@[i as int],
                    self.groups@.len() as nat,
                ) && match e {
                    DefinitionsError::DanglingReference { referrer, missing } =>
                        group_link_dangling(self.objects@, self.groups@, referrer@, missing@),
                    DefinitionsError::CyclicReference { name } => name@
                        == self.groups@[i as int].name@ && group_chain_links_resolve(
                        self.groups@,
                        self.groups@[i as int],
                        self.groups@.len() as nat,
                    ),
                    _ => false,
                },
            },
    {
        let n = self.groups.len();
        let ghost ggroups = self.groups@;
        let ghost gstart = self.groups@[i as int];
        let ghost nfuel = n as nat;
        let mut cur: usize = i;
        let mut acc = MergedTraits {
            bits: no_bits(),
            comment: None,
            developer_note: None,
            description: None,
        };
        for k in 0..n
            invariant
                n == self.groups@.len(),
                self.groups@ == ggroups,
                gstart == ggroups[i as int],
                nfuel == n as nat,
                i < n,
                cur < n,
                group_chain_ok(ggroups, gstart, nfuel) <==> group_chain_ok(
                    ggroups,
                    ggroups[cur as int],
                    (n - k) as nat,
                ),
                group_chain_links_resolve(ggroups, gstart, nfuel) <==> group_chain_links_resolve(
                    ggroups,
                    ggroups[cur as int],
                    (n - k) as nat,
                ),
                bits_of(merged_group_flags(ggroups, gstart, nfuel)) == or_bits(
                    acc.bits,
                    bits_of(merged_group_flags(ggroups, ggroups[cur as int], (n - k) as nat)),
                ),
                merged_group_flags(ggroups, gstart, nfuel).comment == merged_annotation(
                    acc.comment,
                    merged_group_flags(ggroups, ggroups[cur as int], (n - k) as nat).comment,
                ),
                merged_group_flags(ggroups, gstart, nfuel).developer_note == merged_annotation(
                    acc.developer_note,
                    merged_group_flags(
                        ggroups,
                        ggroups[cur as int],
                        (n - k) as nat,
                    ).developer_note,
                ),
                merged_group_flags(ggroups, gstart, nfuel).description == merged_annotation(
                    acc.description,
                    merged_group_flags(ggroups, ggroups[cur as int], (n - k) as nat).description,
                ),
        {
            let c = &self.groups[cur];
            match &c.supergroup {
                None => {
                    proof {
                        assert(group_chain_ok(ggroups, ggroups[cur as int], (n - k) as nat));
                        assert(merged_group_flags(ggroups, ggroups[cur as int], (n - k) as nat)
                            == c.flags);
                    }
                    acc.bits = or_bits_exec(acc.bits, read_bits(&c.flags));
                    fill_annotation(&mut acc.comment, &c.flags.comment);
                    fill_annotation(&mut acc.developer_note, &c.flags.developer_note);
                    fill_annotation(&mut acc.description, &c.flags.description);
                    return Ok(acc);
                },
                Some(p) => {
                    match self.find_group_index(p) {
                        None => {
                            proof {
                                assert(!group_chain_ok(
                                    ggroups,
                                    ggroups[cur as int],
                                    (n - k) as nat,
                                ));
                                assert(group_link_dangling(
                                    self.objects@,
                                    ggroups,
                                    c.name@,
                                    p@,
                                ));
                            }
                            return Err(
                                DefinitionsError::DanglingReference {
                                    referrer: c.name.clone(),
                                    missing: p.clone(),
                                },
                            );
                        },
                        Some(t) => {
                            proof {
                                assert(find_group(ggroups, p@) == Some(ggroups[t as int]));
                                assert(group_chain_ok(ggroups, ggroups[cur as int], (n - k) as nat)
                                    <==> group_chain_ok(
                                    ggroups,
                                    ggroups[t as int],
                                    (n - k - 1) as nat,
                                ));
                                assert(group_chain_links_resolve(
                                    ggroups,
                                    ggroups[cur as int],
                                    (n - k) as nat,
                                ) <==> group_chain_links_resolve(
                                    ggroups,
                                    ggroups[t as int],
                                    (n - k - 1) as nat,
                                ));
                                assert(merged_group_flags(
                                    ggroups,
                                    ggroups[cur as int],
                                    (n - k) as nat,
                                ) == combined_flags(
                                    c.flags,
                                    merged_group_flags(
                                        ggroups,
                                        ggroups[t as int],
                                        (n - k - 1) as nat,
                                    ),
                                ));
                            }
                            acc.bits = or_bits_exec(acc.bits, read_bits(&c.flags));
                            fill_annotation(&mut acc.comment, &c.flags.comment);
                            fill_annotation(&mut acc.developer_note, &c.flags.developer_note);
                            fill_annotation(&mut acc.description, &c.flags.description);
                            cur = t;
                        },
                    }
                },
            }
        }
        let c = &self.groups[cur];
        match &c.supergroup {
            None => {
                proof {
                    assert(group_chain_ok(ggroups, ggroups[cur as int], 0));
                    assert(merged_group_flags(ggroups, ggroups[cur as int], 0) == c.flags);
                }
                acc.bits = or_bits_exec(acc.bits, read_bits(&c.flags));
                fill_annotation(&mut acc.comment, &c.flags.comment);
                fill_annotation(&mut acc.developer_note, &c.flags.developer_note);
                fill_annotation(&mut acc.description, &c.flags.description);
                Ok(acc)
            },
            Some(_) => {
                proof {
                    assert(!group_chain_ok(ggroups, ggroups[cur as int], 0));
                    assert(group_chain_links_resolve(ggroups, ggroups[cur as int], 0));
                }
                Err(DefinitionsError::CyclicReference { name: self.groups[i].name.clone() })
            },
        }
    }

    /// Follow one engine's inherits chain; as for groups, one lookup per
    /// engine suffices for any chain that reaches a root.
    fn walk_engine_chain(&self, i: usize) -> (r: Result<(), DefinitionsError>)
        requires
            i < self.engines@.len(),
        ensures
            match r {
                Ok(()) => engine_chain_ok(
                    self.engines@,
                    self.engines@[i as int],
                    self.engines@.len() as nat,
                ),
                Err(e) => !engine_chain_ok(
                    self.engines@,
                    self.engines@[i as int],
                    self.engines@.len() as nat,
                ) && match e {
                    DefinitionsError::DanglingReference { referrer, missing } =>
                        engine_link_dangling(self.engines@, referrer@, missing@),
                    DefinitionsError::CyclicReference { name } => name@
                        == self.engines@[i as int].name@ && engine_chain_links_resolve(
                        self.engines@,
                        self.engines@[i as int],
                        self.engines@.len() as nat,
                    ),
                    _ => false,
                },
            },
    {
        let n = self.engines.len();
        let ghost gengines = self.engines@;
        let ghost gstart = self.engines@[i as int];
        let ghost nfuel = n as nat;
        let mut cur: usize = i;
        for k in 0..n
            invariant
                n == self.engines@.len(),
                self.engines@ == gengines,
                gstart == gengines[i as int],
                nfuel == n as nat,
                i < n,
                cur < n,
                engine_chain_ok(gengines, gstart, nfuel) <==> engine_chain_ok(
                    gengines,
                    gengines[cur as int],
                    (n - k) as nat,
                ),
                engine_chain_links_resolve(gengines, gstart, nfuel)
                    <==> engine_chain_links_resolve(
                    gengines,
                    gengines[cur as int],
                    (n - k) as nat,
                ),
        {
            let c = &self.engines[cur];
            match &c.inherits {
                None => {
                    return Ok(());
                },
                Some(p) => {
                    match self.find_engine_index(p) {
                        None => {
                            proof {
                                assert(engine_link_dangling(gengines, c.name@, p@));
                            }
                            return Err(
                                DefinitionsError::DanglingReference {
                                    referrer: c.name.clone(),
                                    missing: p.clone(),
                                },
                            );
                        },
                        Some(t) => {
                            proof {
                                assert(find_engine(gengines, p@) == Some(gengines[t as int]));
                            }
                            cur = t;
                        },
                    }
                },
            }
        }
        let c = &self.engines[cur];
        match &c.inherits {
            None => Ok(()),
            Some(_) => {
                proof {
                    assert(!engine_chain_ok(gengines, gengines[cur as int], 0));
                    assert(engine_chain_links_resolve(gengines, gengines[cur as int], 0));
                }
                Err(DefinitionsError::CyclicReference { name: self.engines[i].name.clone() })
            },
        }
    }

    /// Resolve every supergroup and inherits link: each must name an
    /// existing entity of its kind, each group's root struct must name a
    /// struct, and every chain must reach a root — a chain that cannot
    /// within one step per entity revisits an entity and is rejected as
    /// cyclic. On success every tag group's flags become the OR-merge of
    /// its own and all of its ancestors'; nothing else changes. On failure
    /// the model is left unchanged and the error names the offending
    /// entity and the missing name.
    #[verifier::rlimit(60)]
    pub fn resolve_parent_class_references(&mut self) -> (r: Result<(), DefinitionsError>)
        ensures
            final(self).objects == old(self).objects,
            r is Ok <==> groups_resolved(old(self).objects@, old(self).groups@)
                && engines_resolved(old(self).engines@),
            r is Ok ==> groups_merged(old(self).groups@, final(self).groups@) && final(self).engines
                == old(self).engines,
            r is Err ==> final(self).groups == old(self).groups && final(self).engines == old(
                self,
            ).engines,
            match r {
                Ok(()) => true,
                Err(e) => match e {
                    DefinitionsError::DanglingReference { referrer, missing } =>
                        group_link_dangling(
                        old(self).objects@,
                        old(self).groups@,
                        referrer@,
                        missing@,
                    ) || engine_link_dangling(old(self).engines@, referrer@, missing@),
                    DefinitionsError::CyclicReference { name } => group_cycle_witness(
                        old(self).groups@,
                        name@,
                    ) || engine_cycle_witness(old(self).engines@, name@),
                    _ => false,
                },
            },
    {
        let ghost gobjects = self.objects@;
        let ghost ggroups = self.groups@;
        let ghost gengines = self.engines@;
        let ng = self.groups.len();
        for i in 0..ng
            invariant
                ng == self.groups@.len(),
                self.groups == old(self).groups,
                self.objects == old(self).objects,
                self.engines == old(self).engines,
                self.groups@ == ggroups,
                self.objects@ == gobjects,
                self.engines@ == gengines,
                forall|k: int|
                    0 <= k < i ==> group_root_resolves(gobjects, #[trigger] ggroups[k]),
        {
            let g = &self.groups[i];
            let bad: bool = match self.find_object_index(&g.struct_name) {
                Some(t) => match &self.objects[t] {
                    NamedObject::Struct(_) => false,
                    _ => true,
                },
                None => true,
            };
            if bad {
                proof {
                    assert(!group_root_resolves(gobjects, ggroups[i as int]));
                    assert(group_link_dangling(gobjects, ggroups, g.name@, g.struct_name@));
                    assert(!groups_resolved(gobjects, ggroups));
                }
                return Err(
                    DefinitionsError::DanglingReference {
                        referrer: g.name.clone(),
                        missing: g.struct_name.clone(),
                    },
                );
            }
        }
        let mut merged_traits: Vec<MergedTraits> = Vec::new();
        for i in 0..ng
            invariant
                ng == self.groups@.len(),
                self.groups == old(self).groups,
                self.objects == old(self).objects,
                self.engines == old(self).engines,
                self.groups@ == ggroups,
                self.objects@ == gobjects,
                self.engines@ == gengines,
                merged_traits@.len() == i,
                forall|k: int|
                    0 <= k < ng ==> group_root_resolves(gobjects, #[trigger] ggroups[k]),
                forall|k: int|
                    0 <= k < i ==> group_chain_ok(ggroups, #[trigger] ggroups[k], ng as nat),
                forall|k: int|
                    0 <= k < i ==> traits_match(
                        #[trigger] merged_traits@[k],
                        merged_group_flags(ggroups, ggroups[k], ng as nat),
                    ),
        {
            match self.walk_group_chain(i) {
                Ok(t) => {
                    merged_traits.push(t);
                },
                Err(e) => {
                    proof {
                        assert(!groups_resolved(gobjects, ggroups));
                        match &e {
                            DefinitionsError::CyclicReference { name } => {
                                assert(group_cycle_witness(ggroups, name@));
                            },
                            _ => {},
                        }
                    }
                    return Err(e);
                },
            }
        }
        let ne = self.engines.len();
        for i in 0..ne
            invariant
                ne == self.engines@.len(),
                self.groups == old(self).groups,
                self.objects == old(self).objects,
                self.engines == old(self).engines,
                self.engines@ == gengines,
                self.groups@ == ggroups,
                self.objects@ == gobjects,
                ng == ggroups.len(),
                merged_traits@.len() == ng,
                forall|k: int|
                    0 <= k < ng ==> traits_match(
                        #[trigger] merged_traits@[k],
                        merged_group_flags(ggroups, ggroups[k], ng as nat),
                    ),
                forall|k: int|
                    0 <= k < i ==> engine_chain_ok(gengines, #[trigger] gengines[k], ne as nat),
        {
            match self.walk_engine_chain(i) {
                Ok(()) => {},
                Err(e) => {
                    proof {
                        assert(!engines_resolved(gengines));
                        match &e {
                            DefinitionsError::CyclicReference { name } => {
                                assert(engine_cycle_witness(gengines, name@));
                            },
                            _ => {},
                        }
                    }
                    return Err(e);
                },
            }
        }
        let ghost gtraits = merged_traits@;
        for i in 0..ng
            invariant
                ng == self.groups@.len(),
                ng == ggroups.len(),
                gtraits.len() == ng,
                merged_traits@ == gtraits.skip(i as int),
                self.objects == old(self).objects,
                self.engines == old(self).engines,
                forall|k: int|
                    0 <= k < ng ==> traits_match(
                        #[trigger] gtraits[k],
                        merged_group_flags(ggroups, ggroups[k], ng as nat),
                    ),
                forall|k: int| i <= k < ng ==> #[trigger] self.groups@[k] == ggroups[k],
                forall|k: int|
                    0 <= k < i ==> #[trigger] self.groups@[k] == group_with_flags(
                        ggroups[k],
                        merged_group_flags(ggroups, ggroups[k], ng as nat),
                    ),
        {
            let ghost before = self.groups@;
            let t = merged_traits.remove(0);
            proof {
                assert(t == gtraits[i as int]);
                assert(merged_traits@ =~= gtraits.skip(i as int + 1));
            }
            let mut g = self.groups.remove(i);
            assert(g == ggroups[i as int]);
            g.flags.cache_only = t.bits.cache_only;
            g.flags.non_cached = t.bits.non_cached;
            g.flags.uneditable_in_editor = t.bits.uneditable_in_editor;
            g.flags.hidden_in_editor = t.bits.hidden_in_editor;
            g.flags.exclude = t.bits.exclude;
            g.flags.little_endian_in_tags = t.bits.little_endian_in_tags;
            g.flags.shifted_by_one = t.bits.shifted_by_one;
            g.flags.non_null = t.bits.non_null;
            g.flags.comment = t.comment;
            g.flags.developer_note = t.developer_note;
            g.flags.description = t.description;
            self.groups.insert(i, g);
            proof {
                assert(self.groups@ =~= before.update(i as int, self.groups@[i as int]));
                lemma_merged_keeps_engine_restriction(ggroups, ggroups[i as int], ng as nat);
                assert(self.groups@[i as int] == group_with_flags(
                    ggroups[i as int],
                    merged_group_flags(ggroups, ggroups[i as int], ng as nat),
                ));
            }
        }
        Ok(())
    }
}

} // verus!
