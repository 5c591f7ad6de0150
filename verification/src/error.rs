//! The two kinds of failure: a declaration that cannot be derived from, and an
//! attribute that a value does not have.
use vstd::prelude::*;
use crate::text::{decimal, decimal_string};

verus! {

/// What is wrong with a declaration.
#[derive(Clone, Copy, Debug, PartialEq, Eq, Structural)]
pub enum Fault {
    /// A format marker that is neither bare, nor `skip`, nor `fmt = "..."`.
    MalformedAnnotation,
    /// A format marker whose `fmt` is given something other than a string literal.
    LiteralNotString,
    /// A format literal with more substitution slots than its place can fill.
    TooManySlots { max: usize },
    /// The declaration is an untagged union.
    UnionUnsupported,
    /// The fields of the record have no names, and the behaviour needs them.
    UnnamedFields,
    /// A variant holds payloads without names, and not exactly one of them.
    PayloadCount,
}

/// The element of a declaration at which a fault was found.
#[derive(Clone, Copy, Debug, PartialEq, Eq, Structural)]
pub enum Site {
    /// The type itself.
    Type,
    /// The field of a record at this position.
    Field(usize),
    /// The variant at this position.
    Variant(usize),
    /// The variant at the first position, and its field at the second.
    VariantField(usize, usize),
}

/// A declaration that cannot be derived from: nothing is emitted for the type.
#[derive(Clone, Copy, Debug, PartialEq, Eq, Structural)]
pub struct ConfigError {
    pub fault: Fault,
    pub site: Site,
}

/// The text that describes a fault.
pub open spec fn fault_text(fault: Fault) -> Seq<char> {
    match fault {
        Fault::MalformedAnnotation =>
            "the format marker should be `format`, `format(skip)` or `format(fmt = \"...\")`"@,
        Fault::LiteralNotString => "the value of `fmt` should be a string literal"@,
        Fault::TooManySlots { max } => "too many `{}` in the format literal, the most allowed is "@
            + decimal(max as nat),
        Fault::UnionUnsupported => "untagged unions are not supported"@,
        Fault::UnnamedFields => "records whose fields have no names are not supported"@,
        Fault::PayloadCount => "a variant with unnamed fields must have exactly one of them"@,
    }
}

impl ConfigError {
    /// The text that describes the fault; for a literal with too many slots it
    /// names the most that are allowed.
    pub fn message(&self) -> (s: String)
        ensures
            s@ == fault_text(self.fault),
    {
        match self.fault {
            Fault::MalformedAnnotation =>
                "the format marker should be `format`, `format(skip)` or `format(fmt = \"...\")`".to_owned(),
            Fault::LiteralNotString => "the value of `fmt` should be a string literal".to_owned(),
            Fault::TooManySlots { max } => {
                let mut s = "too many `{}` in the format literal, the most allowed is ".to_owned();
                let number = decimal_string(max as u128);
                s.append(number.as_str());
                s
            },
            Fault::UnionUnsupported => "untagged unions are not supported".to_owned(),
            Fault::UnnamedFields => "records whose fields have no names are not supported".to_owned(),
            Fault::PayloadCount =>
                "a variant with unnamed fields must have exactly one of them".to_owned(),
        }
    }
}

/// A value does not have the attribute that was asked for. An attribute that is
/// skipped is reported in the same way as one that does not exist.
#[derive(Debug)]
pub struct LookupError {
    /// The type's name; for a variant, the type's name, a dot and the tag.
    pub owner: String,
    /// The name that was asked for.
    pub attribute: String,
}

/// The text of the report that `owner` has no attribute `attribute`.
pub open spec fn no_attribute(owner: Seq<char>, attribute: Seq<char>) -> Seq<char> {
    "'"@ + owner + "' has no attribute '"@ + attribute + "'"@
}

impl LookupError {
    /// The text of the report.
    pub fn message(&self) -> (s: String)
        ensures
            s@ == no_attribute(self.owner@, self.attribute@),
    {
        let mut s = String::new();
        s.append("'");
        s.append(self.owner.as_str());
        s.append("' has no attribute '");
        s.append(self.attribute.as_str());
        s.append("'");
        assert(s@ =~= no_attribute(self.owner@, self.attribute@));
        s
    }
}

} // verus!
