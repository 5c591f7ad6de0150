//! The five behaviours that can be derived for a type.
use vstd::prelude::*;
use crate::text::same;

verus! {

/// One of the five behaviours. Each includes, skips and formats the elements of a
/// type independently of the others.
#[derive(Clone, Copy, Debug, PartialEq, Eq, Structural)]
pub enum Axis {
    /// Rendering for display.
    Display,
    /// Rendering for debugging.
    Debug,
    /// Listing of attribute names.
    Directory,
    /// Access to an attribute by its name.
    Access,
    /// Export of the attributes as a mapping.
    Mapping,
}

impl Axis {
    /// Whether the axis renders text, so that format markers apply to it.
    pub open spec fn is_formatting(self) -> bool {
        self == Axis::Display || self == Axis::Debug
    }

    /// Whether `key`, written inside a skip marker, names this axis.
    pub open spec fn named_by(self, key: Seq<char>) -> bool {
        match self {
            Axis::Display => key == "Str"@ || key == "AutoDisplay"@,
            Axis::Debug => key == "Repr"@ || key == "AutoDebug"@,
            Axis::Directory => key == "Dir"@,
            Axis::Access => key == "Getattr"@,
            Axis::Mapping => key == "Dict"@,
        }
    }

    /// Whether the axis renders text.
    pub fn formats(&self) -> (r: bool)
        ensures
            r == self.is_formatting(),
    {
        match self {
            Axis::Display => true,
            Axis::Debug => true,
            _ => false,
        }
    }

    /// Whether `key`, written inside a skip marker, names this axis.
    pub fn is_named_by(&self, key: &str) -> (r: bool)
        ensures
            r == self.named_by(key@),
    {
        match self {
            Axis::Display => same(key, "Str") || same(key, "AutoDisplay"),
            Axis::Debug => same(key, "Repr") || same(key, "AutoDebug"),
            Axis::Directory => same(key, "Dir"),
            Axis::Access => same(key, "Getattr"),
            Axis::Mapping => same(key, "Dict"),
        }
    }
}

} // verus!
