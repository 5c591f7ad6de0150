//! The derive functions: from a type declaration to what is emitted for it.
//!
//! Each function either emits for the whole type or reports the first fault of the
//! declaration and emits nothing. What is emitted has one arm for each arm of the
//! declaration; a value is rendered, listed or looked up through the arm that it
//! belongs to: a record through arm 0, a value of a tagged union through the arm
//! at the position of its variant.
use vstd::prelude::*;
use crate::axis::Axis;
use crate::error::{ConfigError, LookupError};
use crate::format::{formatter_arm, formatter_fault, impl_formatter};
use crate::listing::{entry_names, first_match, listing_fault, listings, lists, Listing};
use crate::program::{eval, Program};
use crate::shape::{arm_count, TypeDecl};
use crate::text::texts;

verus! {

/// How an emitted renderer is made available to the users of the type.
#[derive(Clone, Copy, Debug, PartialEq, Eq, Structural)]
pub enum Surface {
    /// As a special method of the type, `__str__` or `__repr__`.
    Method,
    /// Through the rendering capability alone.
    Capability,
    /// Through the rendering capability, and through the standard formatting trait
    /// that corresponds to it.
    Standard,
}

/// An emitted renderer.
#[derive(Debug)]
pub struct Formatter {
    pub axis: Axis,
    pub surface: Surface,
    /// The program of each arm.
    pub arms: Vec<Program>,
}

/// An emitted listing of attribute names.
#[derive(Debug)]
pub struct Dir {
    pub arms: Vec<Listing>,
}

/// An emitted access to attributes by name.
#[derive(Debug)]
pub struct Getattr {
    pub arms: Vec<Listing>,
}

/// An emitted export of the attributes as a mapping.
#[derive(Debug)]
pub struct Dict {
    pub arms: Vec<Listing>,
}

/// Whether `r` is what rendering on `axis` emits for `decl`.
pub open spec fn emits(decl: TypeDecl, axis: Axis, surface: Surface, r: Result<
    Formatter,
    ConfigError,
>) -> bool {
    match r {
        Ok(f) => {
            &&& formatter_fault(decl, axis) is None
            &&& f.axis == axis
            &&& f.surface == surface
            &&& f.arms@.len() == arm_count(decl.shape)
            &&& forall|a: int|
                0 <= a < f.arms@.len() ==> (#[trigger] f.arms@[a])@ == formatter_arm(
                    decl,
                    axis,
                    a,
                )
        },
        Err(e) => formatter_fault(decl, axis) == Some(e),
    }
}

/// Emits a renderer for `axis` with the given surface.
fn formatter(input: &TypeDecl, axis: Axis, surface: Surface) -> (r: Result<Formatter, ConfigError>)
    ensures
        emits(*input, axis, surface, r),
{
    match impl_formatter(input, axis) {
        Ok(arms) => Ok(Formatter { axis, surface, arms }),
        Err(e) => Err(e),
    }
}

/// Emits the display rendering as the special method `__str__`.
pub fn str_derive(input: &TypeDecl) -> (r: Result<Formatter, ConfigError>)
    ensures
        emits(*input, Axis::Display, Surface::Method, r),
{
    formatter(input, Axis::Display, Surface::Method)
}

/// Emits the display rendering as a capability of the type and nothing more.
pub fn auto_display_only(input: &TypeDecl) -> (r: Result<Formatter, ConfigError>)
    ensures
        emits(*input, Axis::Display, Surface::Capability, r),
{
    formatter(input, Axis::Display, Surface::Capability)
}

/// Emits the display rendering as a capability of the type and as its standard
/// display formatting.
pub fn auto_display(input: &TypeDecl) -> (r: Result<Formatter, ConfigError>)
    ensures
        emits(*input, Axis::Display, Surface::Standard, r),
{
    formatter(input, Axis::Display, Surface::Standard)
}

/// Emits the debug rendering as the special method `__repr__`.
pub fn repr_derive(input: &TypeDecl) -> (r: Result<Formatter, ConfigError>)
    ensures
        emits(*input, Axis::Debug, Surface::Method, r),
{
    formatter(input, Axis::Debug, Surface::Method)
}

/// Emits the debug rendering as a capability of the type and nothing more.
pub fn auto_debug_only(input: &TypeDecl) -> (r: Result<Formatter, ConfigError>)
    ensures
        emits(*input, Axis::Debug, Surface::Capability, r),
{
    formatter(input, Axis::Debug, Surface::Capability)
}

/// Emits the debug rendering as a capability of the type and as its standard debug
/// formatting.
pub fn auto_debug(input: &TypeDecl) -> (r: Result<Formatter, ConfigError>)
    ensures
        emits(*input, Axis::Debug, Surface::Standard, r),
{
    formatter(input, Axis::Debug, Surface::Standard)
}

/// Emits the listing of attribute names, `__dir__`.
pub fn dir_derive(input: &TypeDecl) -> (r: Result<Dir, ConfigError>)
    ensures
        match r {
            Ok(d) => listing_fault(*input) is None && lists(*input, Axis::Directory, d.arms@),
            Err(e) => listing_fault(*input) == Some(e),
        },
{
    match listings(input, Axis::Directory) {
        Ok(arms) => Ok(Dir { arms }),
        Err(e) => Err(e),
    }
}

/// Emits the access to attributes by name, `__getattr__`.
pub fn getattr_derive(input: &TypeDecl) -> (r: Result<Getattr, ConfigError>)
    ensures
        match r {
            Ok(g) => listing_fault(*input) is None && lists(*input, Axis::Access, g.arms@),
            Err(e) => listing_fault(*input) == Some(e),
        },
{
    match listings(input, Axis::Access) {
        Ok(arms) => Ok(Getattr { arms }),
        Err(e) => Err(e),
    }
}

/// Emits the export of the attributes as a mapping, `__dict__`.
pub fn dict_derive(input: &TypeDecl) -> (r: Result<Dict, ConfigError>)
    ensures
        match r {
            Ok(d) => listing_fault(*input) is None && lists(*input, Axis::Mapping, d.arms@),
            Err(e) => listing_fault(*input) == Some(e),
        },
{
    match listings(input, Axis::Mapping) {
        Ok(arms) => Ok(Dict { arms }),
        Err(e) => Err(e),
    }
}

impl Formatter {
    /// Renders a value of the arm at position `arm`; `values` holds the rendered
    /// values of the arm's fields, in the order of declaration.
    pub fn render(&self, arm: usize, values: &Vec<String>) -> (out: String)
        requires
            arm < self.arms@.len(),
        ensures
            out@ == eval(self.arms@[arm as int]@, texts(values@)),
    {
        self.arms[arm].run(values)
    }
}

impl Dir {
    /// The attribute names of a value of the arm at position `arm`.
    pub fn dir(&self, arm: usize) -> (names: Vec<String>)
        requires
            arm < self.arms@.len(),
        ensures
            texts(names@) == entry_names(self.arms@[arm as int].entries@),
    {
        self.arms[arm].names()
    }
}

impl Getattr {
    /// Looks up the attribute `attr` of a value of the arm at position `arm` and
    /// returns the position of the field that holds it. A name that none of the
    /// attributes has is reported with the arm's owner and the name.
    pub fn getattr(&self, arm: usize, attr: &str) -> (r: Result<usize, LookupError>)
        requires
            arm < self.arms@.len(),
        ensures
            match first_match(
                entry_names(self.arms@[arm as int].entries@),
                attr@,
                self.arms@[arm as int].entries@.len() as int,
            ) {
                Some(j) => r matches Ok(p) && p == self.arms@[arm as int].entries@[j].position,
                None => r matches Err(e) && e.owner@ == self.arms@[arm as int].owner@
                    && e.attribute@ == attr@,
            },
    {
        match self.arms[arm].find(attr) {
            Some(p) => Ok(p),
            None => Err(
                LookupError { owner: self.arms[arm].owner.clone(), attribute: attr.to_owned() },
            ),
        }
    }
}

impl Dict {
    /// The attributes of a value of the arm at position `arm`: each name with the
    /// position of the field that holds the value, in the order of declaration.
    pub fn dict(&self, arm: usize) -> (pairs: Vec<(String, usize)>)
        requires
            arm < self.arms@.len(),
        ensures
            pairs@.len() == self.arms@[arm as int].entries@.len(),
            forall|k: int|
                0 <= k < pairs@.len() ==> (#[trigger] pairs@[k]).0@ == self.arms@[arm as int].entries@[k].name@
                    && pairs@[k].1 == self.arms@[arm as int].entries@[k].position,
    {
        let entries = &self.arms[arm].entries;
        let mut pairs: Vec<(String, usize)> = Vec::new();
        let mut j: usize = 0;
        while j < entries.len()
            invariant
                j <= entries.len(),
                pairs@.len() == j,
                forall|k: int|
                    0 <= k < j ==> (#[trigger] pairs@[k]).0@ == entries@[k].name@ && pairs@[k].1
                        == entries@[k].position,
            decreases entries.len() - j,
        {
            pairs.push((entries[j].name.clone(), entries[j].position));
            j += 1;
        }
        pairs
    }
}

} // verus!
