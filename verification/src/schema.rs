//! The normalized schema model: the shape of an expected value together with
//! its constraints, fully inline or pointing into the document's components.

use vstd::prelude::*;
use crate::literal::LiteralValue;

verus! {

/// The kind of value a schema describes, either declared or inferred from
/// shape (properties present means object, items present means array).
#[derive(Clone, Copy, Debug, PartialEq, Eq, Structural)]
pub enum SchemaKind {
    Boolean,
    Integer,
    Number,
    Str,
    Array,
    Object,
    Unspecified,
}

/// A schema node, or a pointer to one defined among the document's
/// components.
#[derive(Debug, PartialEq, Eq)]
pub enum SchemaOrRef {
    Inline(Box<Schema>),
    Reference(String),
}

/// A resolved schema node: kind, composition, flags and constraints.
/// Numeric bounds carry their decimal text exactly as written in the
/// document.
#[derive(Debug, PartialEq, Eq)]
pub struct Schema {
    pub kind: SchemaKind,
    pub title: Option<String>,
    pub nullable: bool,
    pub read_only: bool,
    pub write_only: bool,
    pub example: Option<LiteralValue>,
    pub enum_values: Vec<LiteralValue>,
    pub all_of: Vec<SchemaOrRef>,
    pub one_of: Vec<SchemaOrRef>,
    pub any_of: Vec<SchemaOrRef>,
    pub minimum: Option<String>,
    pub maximum: Option<String>,
    pub exclusive_minimum: bool,
    pub exclusive_maximum: bool,
    pub pattern: Option<String>,
    pub min_length: Option<u64>,
    pub max_length: Option<u64>,
    pub items: Option<Box<SchemaOrRef>>,
    pub min_items: Option<u64>,
    pub max_items: Option<u64>,
    pub properties: Vec<(String, SchemaOrRef)>,
    pub required: Vec<String>,
}

impl Default for Schema {
    /// The unconstrained schema: unspecified kind, no composition, no flags
    /// and no constraints.
    fn default() -> (r: Schema)
        ensures
            r.kind == SchemaKind::Unspecified,
            r.title is None,
            !r.nullable,
            !r.read_only,
            !r.write_only,
            r.example is None,
            r.enum_values@.len() == 0,
            r.all_of@.len() == 0,
            r.one_of@.len() == 0,
            r.any_of@.len() == 0,
            r.minimum is None,
            r.maximum is None,
            !r.exclusive_minimum,
            !r.exclusive_maximum,
            r.pattern is None,
            r.min_length is None,
            r.max_length is None,
            r.items is None,
            r.min_items is None,
            r.max_items is None,
            r.properties@.len() == 0,
            r.required@.len() == 0,
    {
        Schema {
            kind: SchemaKind::Unspecified,
            title: None,
            nullable: false,
            read_only: false,
            write_only: false,
            example: None,
            enum_values: Vec::new(),
            all_of: Vec::new(),
            one_of: Vec::new(),
            any_of: Vec::new(),
            minimum: None,
            maximum: None,
            exclusive_minimum: false,
            exclusive_maximum: false,
            pattern: None,
            min_length: None,
            max_length: None,
            items: None,
            min_items: None,
            max_items: None,
            properties: Vec::new(),
            required: Vec::new(),
        }
    }
}

/// The kind a schema receives from a declared type, or inferred from its
/// shape: properties mean an object, items mean an array, nothing at all is
/// unspecified.
pub fn kind_from_parts(declared: Option<SchemaKind>, has_properties: bool, has_items: bool) -> (
    r: SchemaKind)
    ensures
        r == spec_kind_from_parts(declared, has_properties, has_items),
{
    match declared {
        Some(k) => k,
        None => {
            if has_properties {
                SchemaKind::Object
            } else if has_items {
                SchemaKind::Array
            } else {
                SchemaKind::Unspecified
            }
        },
    }
}

/// The kind derived from a declared type and the node's shape.
pub open spec fn spec_kind_from_parts(
    declared: Option<SchemaKind>,
    has_properties: bool,
    has_items: bool,
) -> SchemaKind {
    match declared {
        Some(k) => k,
        None => if has_properties {
            SchemaKind::Object
        } else if has_items {
            SchemaKind::Array
        } else {
            SchemaKind::Unspecified
        },
    }
}

/// The size of a schema-or-reference: each node counts one.
pub open spec fn spec_sref_size(s: SchemaOrRef) -> nat
    decreases s,
{
    match s {
        SchemaOrRef::Inline(b) => 1 + spec_schema_size(*b),
        SchemaOrRef::Reference(_) => 1,
    }
}

/// The total size of a list of schemas-or-references.
pub open spec fn spec_srefs_size(s: Seq<SchemaOrRef>) -> nat
    decreases s,
{
    if s.len() == 0 {
        0
    } else {
        spec_srefs_size(s.drop_last()) + spec_sref_size(s.last())
    }
}

/// The total size of a property list.
pub open spec fn spec_props_size(s: Seq<(String, SchemaOrRef)>) -> nat
    decreases s,
{
    if s.len() == 0 {
        0
    } else {
        spec_props_size(s.drop_last()) + spec_sref_size(s.last().1)
    }
}

/// The size of a schema: the number of nodes of its inline tree.
pub open spec fn spec_schema_size(s: Schema) -> nat
    decreases s,
{
    1 + spec_props_size(s.properties@) + (match s.items {
        Some(b) => spec_sref_size(*b),
        None => 0,
    }) + spec_srefs_size(s.all_of@) + spec_srefs_size(s.one_of@) + spec_srefs_size(s.any_of@)
}

/// A member of a list of schemas-or-references is no larger than the list.
pub proof fn lemma_srefs_size_member(s: Seq<SchemaOrRef>, i: int)
    requires
        0 <= i < s.len(),
    ensures
        spec_sref_size(s[i]) <= spec_srefs_size(s),
    decreases s,
{
    if i == s.len() - 1 {
        assert(s.last() == s[i]);
    } else {
        assert(s.drop_last()[i] == s[i]);
        lemma_srefs_size_member(s.drop_last(), i);
    }
}

/// A property's schema is no larger than the property list.
pub proof fn lemma_props_size_member(s: Seq<(String, SchemaOrRef)>, i: int)
    requires
        0 <= i < s.len(),
    ensures
        spec_sref_size(s[i].1) <= spec_props_size(s),
    decreases s,
{
    if i == s.len() - 1 {
        assert(s.last() == s[i]);
    } else {
        assert(s.drop_last()[i] == s[i]);
        lemma_props_size_member(s.drop_last(), i);
    }
}

/// Whether a schema-or-reference is inline all the way down: no reference
/// occurs anywhere beneath it.
pub open spec fn spec_sref_no_refs(s: SchemaOrRef) -> bool
    decreases s,
{
    match s {
        SchemaOrRef::Inline(b) => spec_schema_no_refs(*b),
        SchemaOrRef::Reference(_) => false,
    }
}

/// Whether every member of a list is inline all the way down.
pub open spec fn spec_srefs_no_refs(s: Seq<SchemaOrRef>) -> bool
    decreases s,
{
    if s.len() == 0 {
        true
    } else {
        spec_srefs_no_refs(s.drop_last()) && spec_sref_no_refs(s.last())
    }
}

/// Whether every property schema of a list is inline all the way down.
pub open spec fn spec_props_no_refs(s: Seq<(String, SchemaOrRef)>) -> bool
    decreases s,
{
    if s.len() == 0 {
        true
    } else {
        spec_props_no_refs(s.drop_last()) && spec_sref_no_refs(s.last().1)
    }
}

/// Whether no reference occurs anywhere in the schema's tree.
pub open spec fn spec_schema_no_refs(s: Schema) -> bool
    decreases s,
{
    spec_props_no_refs(s.properties@) && (match s.items {
        Some(b) => spec_sref_no_refs(*b),
        None => true,
    }) && spec_srefs_no_refs(s.all_of@) && spec_srefs_no_refs(s.one_of@) && spec_srefs_no_refs(
        s.any_of@,
    )
}

/// A member of a list without references is itself without references.
pub proof fn lemma_srefs_no_refs_member(s: Seq<SchemaOrRef>, i: int)
    requires
        0 <= i < s.len(),
        spec_srefs_no_refs(s),
    ensures
        spec_sref_no_refs(s[i]),
    decreases s,
{
    if i == s.len() - 1 {
        assert(s.last() == s[i]);
    } else {
        assert(s.drop_last()[i] == s[i]);
        lemma_srefs_no_refs_member(s.drop_last(), i);
    }
}

/// A property of a list without references is itself without references.
pub proof fn lemma_props_no_refs_member(s: Seq<(String, SchemaOrRef)>, i: int)
    requires
        0 <= i < s.len(),
        spec_props_no_refs(s),
    ensures
        spec_sref_no_refs(s[i].1),
    decreases s,
{
    if i == s.len() - 1 {
        assert(s.last() == s[i]);
    } else {
        assert(s.drop_last()[i] == s[i]);
        lemma_props_no_refs_member(s.drop_last(), i);
    }
}

} // verus!
