//! The description of a type declaration: its shape and the annotations on it.
use vstd::prelude::*;
use crate::annotation::Annotation;
use crate::text::{decimal, decimal_string};

verus! {

/// One field of a record or of a variant.
#[derive(Debug)]
pub struct FieldSpec {
    /// The field's name; `None` where the field is known by its position.
    pub name: Option<String>,
    /// Whether the field is accessible from outside its type.
    pub public: bool,
    /// The annotations on the field, in the order in which they are written.
    pub annotations: Vec<Annotation>,
}

/// The fields of a variant.
#[derive(Debug)]
pub enum VariantFields {
    /// The variant holds nothing.
    Unit,
    /// The variant holds this many payloads without names. Only a variant with a
    /// single payload can be derived for.
    Tuple(usize),
    /// The variant holds named fields.
    Named(Vec<FieldSpec>),
}

/// One variant of a tagged union.
#[derive(Debug)]
pub struct VariantSpec {
    /// The variant's tag.
    pub name: String,
    /// The annotations on the variant itself.
    pub annotations: Vec<Annotation>,
    pub fields: VariantFields,
}

/// The shape of a type.
#[derive(Debug)]
pub enum TypeShape {
    /// A record with named fields.
    Record { fields: Vec<FieldSpec> },
    /// A record without fields.
    RecordUnit,
    /// A record whose fields are known by position.
    RecordTuple { fields: Vec<FieldSpec> },
    /// A tagged union.
    Union { variants: Vec<VariantSpec> },
    /// An untagged union, from which nothing can be derived.
    Untagged,
}

/// One type declaration, as it is handed in.
#[derive(Debug)]
pub struct TypeDecl {
    pub name: String,
    /// The annotations on the type itself.
    pub annotations: Vec<Annotation>,
    pub shape: TypeShape,
}

/// The name under which a field appears: its own, or its position in decimal.
pub open spec fn label_of(f: FieldSpec, position: int) -> Seq<char> {
    match f.name {
        Some(s) => s@,
        None => decimal(position as nat),
    }
}

/// The number of arms of a shape: one for each variant of a tagged union, one for
/// a record. A value of the type belongs to exactly one arm.
pub open spec fn arm_count(shape: TypeShape) -> nat {
    match shape {
        TypeShape::Union { variants } => variants@.len(),
        TypeShape::Untagged => 0,
        _ => 1,
    }
}

impl FieldSpec {
    /// A field with a name.
    pub fn named(name: &str, public: bool, annotations: Vec<Annotation>) -> (f: FieldSpec)
        ensures
            f.name matches Some(s) && s@ == name@,
            f.public == public,
            f.annotations == annotations,
    {
        FieldSpec { name: Some(name.to_owned()), public, annotations }
    }

    /// A field known by its position.
    pub fn positional(public: bool, annotations: Vec<Annotation>) -> (f: FieldSpec)
        ensures
            f.name is None,
            f.public == public,
            f.annotations == annotations,
    {
        FieldSpec { name: None, public, annotations }
    }

    /// The name under which the field appears when it stands at `position`.
    pub fn label(&self, position: usize) -> (s: String)
        ensures
            s@ == label_of(*self, position as int),
    {
        match &self.name {
            Some(s) => s.clone(),
            None => decimal_string(position as u128),
        }
    }
}

impl TypeShape {
    /// The number of arms of the shape.
    pub fn arms(&self) -> (n: usize)
        ensures
            n == arm_count(*self),
    {
        match self {
            TypeShape::Union { variants } => variants.len(),
            TypeShape::Untagged => 0,
            _ => 1,
        }
    }
}

} // verus!
