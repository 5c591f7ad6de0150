//! Annotations as they are attached to a type, a field or a variant, and what each
//! of them means.
//!
//! Three markers are understood: `skip`, bare or with a list of axis names (`Dir`,
//! `Str`, `Repr`, `Getattr`, `Dict`, with `AutoDisplay` and `AutoDebug` as second
//! names of the two formatting axes, or `All`); `pyo3_fmt_no_skip`; and `format`,
//! bare, as `format(skip)` or as `format(fmt = "...")`. Every other annotation
//! belongs to someone else and is ignored.
use vstd::prelude::*;
use crate::axis::Axis;
use crate::error::Fault;
use crate::text::same;

verus! {

/// The right-hand side of an argument.
#[derive(Debug)]
pub enum ArgValue {
    /// The argument is a key alone.
    Absent,
    /// The key is given a string literal; this is what the literal denotes.
    Text(String),
    /// The key is given something that is no string literal.
    Other,
}

/// One argument of an annotation: `key` or `key = value`.
#[derive(Debug)]
pub struct Argument {
    pub key: String,
    pub value: ArgValue,
}

/// One annotation: a path, and the arguments in its parentheses if it has any.
#[derive(Debug)]
pub struct Annotation {
    pub path: String,
    pub args: Option<Vec<Argument>>,
}

/// The axes that a skip marker names.
#[derive(Clone, Copy, Debug, PartialEq, Eq, Structural)]
pub struct SkipSet {
    pub all: bool,
    pub display: bool,
    pub debug: bool,
    pub directory: bool,
    pub access: bool,
    pub mapping: bool,
}

/// What a format marker asks for.
#[derive(Debug)]
pub enum FormatDirective {
    /// The marker is bare: include the element even if it is not accessible.
    Absent,
    /// `format(skip)`: leave the element out of both renderings.
    Skip,
    /// `format(fmt = "...")`: render the element through this literal.
    Override(String),
}

/// The view of a [`FormatDirective`].
pub enum Directive {
    Absent,
    Skip,
    Override(Seq<char>),
}

/// What an annotation means.
#[derive(Debug)]
pub enum Marker {
    /// Leave the element out for the named axes.
    Skip(SkipSet),
    /// Include the element although it is not accessible.
    ForceInclude,
    /// A format marker.
    Format(FormatDirective),
    /// Not one of the three markers.
    Foreign,
}

/// The view of a [`Marker`].
pub enum MarkerView {
    Skip(SkipSet),
    ForceInclude,
    Format(Directive),
    Foreign,
}

impl View for FormatDirective {
    type V = Directive;

    open spec fn view(&self) -> Directive {
        match self {
            FormatDirective::Absent => Directive::Absent,
            FormatDirective::Skip => Directive::Skip,
            FormatDirective::Override(s) => Directive::Override(s@),
        }
    }
}

impl View for Marker {
    type V = MarkerView;

    open spec fn view(&self) -> MarkerView {
        match self {
            Marker::Skip(s) => MarkerView::Skip(*s),
            Marker::ForceInclude => MarkerView::ForceInclude,
            Marker::Format(d) => MarkerView::Format(d@),
            Marker::Foreign => MarkerView::Foreign,
        }
    }
}

impl SkipSet {
    /// Whether the marker names `axis` itself.
    pub open spec fn names(self, axis: Axis) -> bool {
        match axis {
            Axis::Display => self.display,
            Axis::Debug => self.debug,
            Axis::Directory => self.directory,
            Axis::Access => self.access,
            Axis::Mapping => self.mapping,
        }
    }

    /// Whether the marker names `axis` itself.
    pub fn names_axis(&self, axis: Axis) -> (r: bool)
        ensures
            r == self.names(axis),
    {
        match axis {
            Axis::Display => self.display,
            Axis::Debug => self.debug,
            Axis::Directory => self.directory,
            Axis::Access => self.access,
            Axis::Mapping => self.mapping,
        }
    }
}

/// Whether some argument of the list has this key.
pub open spec fn keyed(list: Seq<Argument>, key: Seq<char>) -> bool {
    exists|j: int| 0 <= j < list.len() && (#[trigger] list[j]).key@ == key
}

/// Whether some argument of the list names `axis`.
pub open spec fn list_names(list: Seq<Argument>, axis: Axis) -> bool {
    exists|j: int| 0 <= j < list.len() && axis.named_by((#[trigger] list[j]).key@)
}

/// The axes that a skip marker with these arguments names. A bare marker names
/// all of them at once; a key that is no axis name counts for nothing.
pub open spec fn skip_set_of(args: Option<Vec<Argument>>) -> SkipSet {
    match args {
        None => SkipSet {
            all: true,
            display: false,
            debug: false,
            directory: false,
            access: false,
            mapping: false,
        },
        Some(list) => SkipSet {
            all: keyed(list@, "All"@),
            display: list_names(list@, Axis::Display),
            debug: list_names(list@, Axis::Debug),
            directory: list_names(list@, Axis::Directory),
            access: list_names(list@, Axis::Access),
            mapping: list_names(list@, Axis::Mapping),
        },
    }
}

/// What a format marker with these arguments asks for.
pub open spec fn directive_of(args: Option<Vec<Argument>>) -> Result<Directive, Fault> {
    match args {
        None => Ok(Directive::Absent),
        Some(list) => {
            if list@.len() != 1 {
                Err(Fault::MalformedAnnotation)
            } else if list@[0].key@ == "skip"@ {
                match list@[0].value {
                    ArgValue::Absent => Ok(Directive::Skip),
                    _ => Err(Fault::MalformedAnnotation),
                }
            } else if list@[0].key@ == "fmt"@ {
                match list@[0].value {
                    ArgValue::Text(s) => Ok(Directive::Override(s@)),
                    ArgValue::Other => Err(Fault::LiteralNotString),
                    ArgValue::Absent => Err(Fault::MalformedAnnotation),
                }
            } else {
                Err(Fault::MalformedAnnotation)
            }
        },
    }
}

/// What an annotation means.
pub open spec fn marker_of(a: Annotation) -> Result<MarkerView, Fault> {
    if a.path@ == "skip"@ {
        Ok(MarkerView::Skip(skip_set_of(a.args)))
    } else if a.path@ == "pyo3_fmt_no_skip"@ {
        Ok(MarkerView::ForceInclude)
    } else if a.path@ == "format"@ {
        match directive_of(a.args) {
            Ok(d) => Ok(MarkerView::Format(d)),
            Err(e) => Err(e),
        }
    } else {
        Ok(MarkerView::Foreign)
    }
}

impl Argument {
    /// The argument `key`.
    pub fn key(key: &str) -> (a: Argument)
        ensures
            a.key@ == key@,
            a.value is Absent,
    {
        Argument { key: key.to_owned(), value: ArgValue::Absent }
    }

    /// The argument `key = "text"`.
    pub fn text(key: &str, text: &str) -> (a: Argument)
        ensures
            a.key@ == key@,
            a.value matches ArgValue::Text(s) && s@ == text@,
    {
        Argument { key: key.to_owned(), value: ArgValue::Text(text.to_owned()) }
    }

    /// The argument `key = value` where the value is no string literal.
    pub fn other(key: &str) -> (a: Argument)
        ensures
            a.key@ == key@,
            a.value is Other,
    {
        Argument { key: key.to_owned(), value: ArgValue::Other }
    }
}

impl Annotation {
    /// The annotation `path`, without parentheses.
    pub fn bare(path: &str) -> (a: Annotation)
        ensures
            a.path@ == path@,
            a.args is None,
    {
        Annotation { path: path.to_owned(), args: None }
    }

    /// The annotation `path(args)`.
    pub fn list(path: &str, args: Vec<Argument>) -> (a: Annotation)
        ensures
            a.path@ == path@,
            a.args == Some(args),
    {
        Annotation { path: path.to_owned(), args: Some(args) }
    }
}

/// Whether some argument of the list has this key.
pub fn has_key(list: &Vec<Argument>, key: &str) -> (r: bool)
    ensures
        r == keyed(list@, key@),
{
    let mut i: usize = 0;
    while i < list.len()
        invariant
            i <= list.len(),
            forall|j: int| 0 <= j < i ==> (#[trigger] list@[j]).key@ != key@,
        decreases list.len() - i,
    {
        if same(list[i].key.as_str(), key) {
            return true;
        }
        i += 1;
    }
    false
}

/// Whether some argument of the list names `axis`.
pub fn list_names_axis(list: &Vec<Argument>, axis: Axis) -> (r: bool)
    ensures
        r == list_names(list@, axis),
{
    let mut i: usize = 0;
    while i < list.len()
        invariant
            i <= list.len(),
            forall|j: int| 0 <= j < i ==> !axis.named_by((#[trigger] list@[j]).key@),
        decreases list.len() - i,
    {
        if axis.is_named_by(list[i].key.as_str()) {
            return true;
        }
        i += 1;
    }
    false
}

/// Reads the arguments of a format marker.
///
/// A bare marker asks for nothing but to format the element; `skip` alone leaves
/// the element out; `fmt = "..."` carries a literal. Anything else is a fault:
/// `fmt` with a value that is no string literal, and every other shape.
pub fn find_display_attribute(attr: &Annotation) -> (r: Result<FormatDirective, Fault>)
    ensures
        match r {
            Ok(d) => directive_of(attr.args) == Ok::<Directive, Fault>(d@),
            Err(e) => directive_of(attr.args) == Err::<Directive, Fault>(e),
        },
{
    match &attr.args {
        None => Ok(FormatDirective::Absent),
        Some(list) => {
            if list.len() != 1 {
                return Err(Fault::MalformedAnnotation);
            }
            let arg = &list[0];
            if same(arg.key.as_str(), "skip") {
                match &arg.value {
                    ArgValue::Absent => Ok(FormatDirective::Skip),
                    _ => Err(Fault::MalformedAnnotation),
                }
            } else if same(arg.key.as_str(), "fmt") {
                match &arg.value {
                    ArgValue::Text(s) => Ok(FormatDirective::Override(s.clone())),
                    ArgValue::Other => Err(Fault::LiteralNotString),
                    ArgValue::Absent => Err(Fault::MalformedAnnotation),
                }
            } else {
                Err(Fault::MalformedAnnotation)
            }
        },
    }
}

/// Classifies one annotation.
pub fn classify(attr: &Annotation) -> (r: Result<Marker, Fault>)
    ensures
        match r {
            Ok(m) => marker_of(*attr) == Ok::<MarkerView, Fault>(m@),
            Err(e) => marker_of(*attr) == Err::<MarkerView, Fault>(e),
        },
{
    if same(attr.path.as_str(), "skip") {
        let set = match &attr.args {
            None => SkipSet {
                all: true,
                display: false,
                debug: false,
                directory: false,
                access: false,
                mapping: false,
            },
            Some(list) => SkipSet {
                all: has_key(list, "All"),
                display: list_names_axis(list, Axis::Display),
                debug: list_names_axis(list, Axis::Debug),
                directory: list_names_axis(list, Axis::Directory),
                access: list_names_axis(list, Axis::Access),
                mapping: list_names_axis(list, Axis::Mapping),
            },
        };
        Ok(Marker::Skip(set))
    } else if same(attr.path.as_str(), "pyo3_fmt_no_skip") {
        Ok(Marker::ForceInclude)
    } else if same(attr.path.as_str(), "format") {
        match find_display_attribute(attr) {
            Ok(d) => Ok(Marker::Format(d)),
            Err(e) => Err(e),
        }
    } else {
        Ok(Marker::Foreign)
    }
}

} // verus!
