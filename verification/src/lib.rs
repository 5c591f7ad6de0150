//! Attribute-driven derivation of string formatting, attribute listing, attribute
//! access and mapping export for record types and tagged unions.
//!
//! A type declaration is described by a [`shape::TypeDecl`]: its name, its shape and
//! the annotations attached to the type, its fields and its variants. For each of
//! the five behaviours ([`axis::Axis`]) a derive function turns the declaration into
//! a plan: a small program per arm (a record has one arm, a tagged union one per
//! variant) that the generated code follows when it runs.
//!
//! Rendering conventions, fixed here once:
//! - a template is scanned from the left; `{{` and `}}` stand for one brace each,
//!   `{}` is a substitution slot, any other character stands for itself;
//! - a field entry with a one-slot literal is `name=` followed by the literal filled
//!   with the field's value; with a two-slot literal it is the literal filled with
//!   the name and the value; with a slot-free literal it is the literal itself;
//! - entries are joined with `", "`;
//! - a record is rendered through `{}({})`, a tagged union through `{}.{}`, a
//!   variant with named fields or a single payload through `{}({})` and a unit
//!   variant through `{}`, unless an override literal says otherwise;
//! - a variant that is skipped renders as `<variant skipped>` and nothing else.
//!
//! Which elements take part is decided for each axis on its own: a skip that names
//! the axis leaves an element out; else `pyo3_fmt_no_skip` or a bare `format` brings
//! it in; else a skip of all axes leaves it out; else a field of a record takes
//! part if it is public, and a variant and its fields always.
//!
//! The modules, from the leaves up: [`annotation`] reads single annotations,
//! [`resolve`] decides for one element and one axis, [`template`] counts and fills
//! slots, [`program`] holds what is emitted, [`select`] picks the fields that take
//! part, [`format`] and [`listing`] synthesize, [`derive`] holds the derive
//! functions and what they hand out, and [`laws`] states what holds of all of it.
//! [`runtime`], [`scalars`], [`containers`], [`maps`] and [`locks`] are the
//! rendering capabilities that emitted code calls for the values of fields, and
//! [`registry`] is a small domain of types to derive for.
pub mod annotation;
pub mod axis;
pub mod containers;
pub mod derive;
pub mod error;
pub mod format;
pub mod laws;
pub mod listing;
pub mod locks;
pub mod maps;
pub mod program;
pub mod registry;
pub mod resolve;
pub mod runtime;
pub mod scalars;
pub mod select;
pub mod shape;
pub mod template;
pub mod text;
