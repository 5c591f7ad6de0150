//! Whether an element takes part in a behaviour, and through which literal.
//!
//! For one element and one axis the decision is taken in this order: a skip that
//! names the axis itself leaves the element out; else a force-include marker brings
//! it in; else a skip of all axes leaves it out; else the element is in exactly if
//! it is accessible. There are two force-include markers, `pyo3_fmt_no_skip` and a
//! bare `format`, and both hold on every axis. `format(skip)` names the two
//! formatting axes. Of several literals the last one counts. A literal and a fault
//! of a format marker count on the two formatting axes only.
use vstd::prelude::*;
use crate::annotation::{classify, marker_of, Annotation, Directive, FormatDirective, Marker,
    MarkerView};
use crate::axis::Axis;
use crate::error::Fault;

verus! {

/// The resolved decision for one element on one axis.
#[derive(Debug)]
pub struct AxisDecision {
    /// Whether the element takes part.
    pub included: bool,
    /// The literal that a format marker gave, if one did.
    pub literal_override: Option<String>,
}

/// The view of an [`AxisDecision`].
pub struct Decision {
    pub included: bool,
    pub literal: Option<Seq<char>>,
}

impl View for AxisDecision {
    type V = Decision;

    open spec fn view(&self) -> Decision {
        Decision {
            included: self.included,
            literal: match self.literal_override {
                Some(s) => Some(s@),
                None => None,
            },
        }
    }
}

/// Whether the annotation skips the element on this very axis.
pub open spec fn skips_axis(a: Annotation, axis: Axis) -> bool {
    match marker_of(a) {
        Ok(MarkerView::Skip(set)) => set.names(axis),
        Ok(MarkerView::Format(Directive::Skip)) => axis.is_formatting(),
        _ => false,
    }
}

/// Whether the annotation skips the element on all axes at once.
pub open spec fn skips_all(a: Annotation) -> bool {
    marker_of(a) matches Ok(MarkerView::Skip(set)) && set.all
}

/// Whether the annotation forces the element in: `pyo3_fmt_no_skip`, or a bare
/// `format`. It does so on every axis.
pub open spec fn forces(a: Annotation) -> bool {
    match marker_of(a) {
        Ok(MarkerView::ForceInclude) => true,
        Ok(MarkerView::Format(Directive::Absent)) => true,
        _ => false,
    }
}

/// The literal that the annotation gives on this axis.
pub open spec fn literal_of(a: Annotation, axis: Axis) -> Option<Seq<char>> {
    match marker_of(a) {
        Ok(MarkerView::Format(Directive::Override(l))) => if axis.is_formatting() {
            Some(l)
        } else {
            None
        },
        _ => None,
    }
}

/// The fault that the annotation has on this axis.
pub open spec fn fault_of(a: Annotation, axis: Axis) -> Option<Fault> {
    match marker_of(a) {
        Err(e) => if axis.is_formatting() {
            Some(e)
        } else {
            None
        },
        _ => None,
    }
}

pub open spec fn any_skips_axis(annotations: Seq<Annotation>, axis: Axis) -> bool {
    exists|j: int| 0 <= j < annotations.len() && skips_axis(#[trigger] annotations[j], axis)
}

pub open spec fn any_skips_all(annotations: Seq<Annotation>) -> bool {
    exists|j: int| 0 <= j < annotations.len() && skips_all(#[trigger] annotations[j])
}

pub open spec fn any_forces(annotations: Seq<Annotation>) -> bool {
    exists|j: int| 0 <= j < annotations.len() && forces(#[trigger] annotations[j])
}

/// The literal of the last among the first `n` annotations that gives one.
pub open spec fn last_literal(annotations: Seq<Annotation>, axis: Axis, n: int) -> Option<
    Seq<char>,
>
    decreases n,
{
    if n <= 0 {
        None
    } else {
        match literal_of(annotations[n - 1], axis) {
            Some(l) => Some(l),
            None => last_literal(annotations, axis, n - 1),
        }
    }
}

/// The fault of the first among the first `n` annotations that has one.
pub open spec fn first_fault(annotations: Seq<Annotation>, axis: Axis, n: int) -> Option<Fault>
    decreases n,
{
    if n <= 0 {
        None
    } else {
        match first_fault(annotations, axis, n - 1) {
            Some(e) => Some(e),
            None => fault_of(annotations[n - 1], axis),
        }
    }
}

/// Whether an element with these annotations takes part on `axis`, when
/// `accessible` says whether it would without any annotation.
pub open spec fn includes(annotations: Seq<Annotation>, accessible: bool, axis: Axis) -> bool {
    !any_skips_axis(annotations, axis) && (any_forces(annotations) || (!any_skips_all(
        annotations,
    ) && accessible))
}

/// The decision for an element whose annotations have no fault.
pub open spec fn decision(annotations: Seq<Annotation>, accessible: bool, axis: Axis) -> Decision {
    Decision {
        included: includes(annotations, accessible, axis),
        literal: last_literal(annotations, axis, annotations.len() as int),
    }
}

/// The decision for an element, or the first fault among its annotations.
pub open spec fn resolved(annotations: Seq<Annotation>, accessible: bool, axis: Axis) -> Result<
    Decision,
    Fault,
> {
    match first_fault(annotations, axis, annotations.len() as int) {
        Some(e) => Err(e),
        None => Ok(decision(annotations, accessible, axis)),
    }
}

/// A fault among the first annotations is the first fault of all of them.
pub proof fn lemma_first_fault_stays(annotations: Seq<Annotation>, axis: Axis, n: int, m: int)
    requires
        0 <= n <= m,
        first_fault(annotations, axis, n) is Some,
    ensures
        first_fault(annotations, axis, m) == first_fault(annotations, axis, n),
    decreases m - n,
{
    if n < m {
        lemma_first_fault_stays(annotations, axis, n, m - 1);
    }
}

/// Resolves one element on one axis.
///
/// `accessible` is the decision that holds without any annotation: whether a field
/// of a record is public, and `true` for a variant and for the field of a variant.
pub fn resolve(annotations: &Vec<Annotation>, accessible: bool, axis: Axis) -> (r: Result<
    AxisDecision,
    Fault,
>)
    ensures
        match r {
            Ok(d) => resolved(annotations@, accessible, axis) == Ok::<Decision, Fault>(d@),
            Err(e) => resolved(annotations@, accessible, axis) == Err::<Decision, Fault>(e),
        },
{
    let formatting = axis.formats();
    let mut skip_here = false;
    let mut skip_all = false;
    let mut force = false;
    let mut literal: Option<String> = None;
    let mut i: usize = 0;
    while i < annotations.len()
        invariant
            i <= annotations.len(),
            formatting == axis.is_formatting(),
            first_fault(annotations@, axis, i as int) is None,
            skip_here == any_skips_axis(annotations@.take(i as int), axis),
            skip_all == any_skips_all(annotations@.take(i as int)),
            force == any_forces(annotations@.take(i as int)),
            match literal {
                Some(s) => last_literal(annotations@, axis, i as int) == Some(s@),
                None => last_literal(annotations@, axis, i as int) is None,
            },
        decreases annotations.len() - i,
    {
        let ghost before = annotations@.take(i as int);
        let ghost after = annotations@.take(i + 1);
        let ghost a = annotations@[i as int];
        proof {
            assert(after[i as int] == a);
            assert forall|j: int| 0 <= j < i implies #[trigger] after[j] == before[j] by {}
        }
        match classify(&annotations[i]) {
            Err(e) => {
                if formatting {
                    proof {
                        lemma_first_fault_stays(
                            annotations@,
                            axis,
                            i + 1,
                            annotations@.len() as int,
                        );
                    }
                    return Err(e);
                }
            },
            Ok(Marker::Skip(set)) => {
                if set.names_axis(axis) {
                    skip_here = true;
                }
                if set.all {
                    skip_all = true;
                }
            },
            Ok(Marker::ForceInclude) => {
                force = true;
            },
            Ok(Marker::Format(directive)) => {
                match directive {
                    FormatDirective::Absent => {
                        force = true;
                    },
                    FormatDirective::Skip => {
                        if formatting {
                            skip_here = true;
                        }
                    },
                    FormatDirective::Override(s) => {
                        if formatting {
                            literal = Some(s);
                        }
                    },
                }
            },
            Ok(Marker::Foreign) => {},
        }
        proof {
            assert(any_skips_axis(after, axis) == (any_skips_axis(before, axis) || skips_axis(
                a,
                axis,
            ))) by {
                if any_skips_axis(before, axis) {
                    let j = choose|j: int|
                        0 <= j < before.len() && skips_axis(#[trigger] before[j], axis);
                    assert(skips_axis(after[j], axis));
                }
                if skips_axis(a, axis) {
                    assert(skips_axis(after[i as int], axis));
                }
            }
            assert(any_skips_all(after) == (any_skips_all(before) || skips_all(a))) by {
                if any_skips_all(before) {
                    let j = choose|j: int| 0 <= j < before.len() && skips_all(#[trigger] before[j]);
                    assert(skips_all(after[j]));
                }
                if skips_all(a) {
                    assert(skips_all(after[i as int]));
                }
            }
            assert(any_forces(after) == (any_forces(before) || forces(a))) by {
                if any_forces(before) {
                    let j = choose|j: int|
                        0 <= j < before.len() && forces(#[trigger] before[j]);
                    assert(forces(after[j]));
                }
                if forces(a) {
                    assert(forces(after[i as int]));
                }
            }
        }
        i += 1;
    }
    assert(annotations@.take(annotations@.len() as int) =~= annotations@);
    let included = !skip_here && (force || (!skip_all && accessible));
    Ok(AxisDecision { included, literal_override: literal })
}

/// Resolves one element on a formatting axis in the manner of a running scan:
/// `is_skipped` goes in as the decision so far, and the literal found, if any,
/// replaces `default_variant_fmt`. Returns whether the element is left out.
pub fn skip_formatting(
    annotations: &Vec<Annotation>,
    default_variant_fmt: &mut String,
    axis: Axis,
    is_skipped: bool,
) -> (r: Result<bool, Fault>)
    ensures
        match r {
            Ok(skipped) => resolved(annotations@, !is_skipped, axis) matches Ok(d) && skipped
                == !d.included && final(default_variant_fmt)@ == (match d.literal {
                Some(l) => l,
                None => old(default_variant_fmt)@,
            }),
            Err(e) => resolved(annotations@, !is_skipped, axis) == Err::<Decision, Fault>(e)
                && final(default_variant_fmt)@ == old(default_variant_fmt)@,
        },
{
    match resolve(annotations, !is_skipped, axis) {
        Ok(d) => {
            let skipped = !d.included;
            match d.literal_override {
                Some(l) => {
                    *default_variant_fmt = l;
                },
                None => {},
            }
            Ok(skipped)
        },
        Err(e) => Err(e),
    }
}

} // verus!
