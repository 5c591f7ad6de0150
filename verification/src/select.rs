//! Which fields of a record or of a variant take part in a behaviour, in the order
//! of their declaration, and through which literal each is rendered.
use vstd::prelude::*;
use crate::annotation::{directive_of, find_display_attribute, Annotation, Directive,
    FormatDirective};
use crate::axis::Axis;
use crate::error::Fault;
use crate::resolve::{first_fault, includes, last_literal, resolve, skip_formatting};
use crate::shape::FieldSpec;
use crate::template::{count_slots, slot_count};
use crate::text::same;

verus! {

/// The literal that was given, or `default` where none was.
pub open spec fn literal_or(given: Option<Seq<char>>, default: Seq<char>) -> Seq<char> {
    match given {
        Some(l) => l,
        None => default,
    }
}

/// The literal given by the last annotation that gives one, or `default`.
pub open spec fn chosen_literal(annotations: Seq<Annotation>, axis: Axis, default: Seq<char>) -> Seq<
    char,
> {
    literal_or(last_literal(annotations, axis, annotations.len() as int), default)
}

/// Whether a field takes part on `axis`. The field of a record does by default if
/// it is public, the field of a variant always.
pub open spec fn field_shown(f: FieldSpec, in_variant: bool, axis: Axis) -> bool {
    includes(f.annotations@, in_variant || f.public, axis)
}

/// The positions of those among the first `n` fields that take part.
pub open spec fn shown_upto(fields: Seq<FieldSpec>, in_variant: bool, axis: Axis, n: int) -> Seq<
    usize,
>
    decreases n,
{
    if n <= 0 {
        Seq::empty()
    } else if field_shown(fields[n - 1], in_variant, axis) {
        shown_upto(fields, in_variant, axis, n - 1).push((n - 1) as usize)
    } else {
        shown_upto(fields, in_variant, axis, n - 1)
    }
}

/// The positions of the fields that take part, in the order of declaration.
pub open spec fn shown(fields: Seq<FieldSpec>, in_variant: bool, axis: Axis) -> Seq<usize> {
    shown_upto(fields, in_variant, axis, fields.len() as int)
}

/// The literal through which a field is rendered.
pub open spec fn field_literal(f: FieldSpec, axis: Axis, default: Seq<char>) -> Seq<char> {
    chosen_literal(f.annotations@, axis, default)
}

/// What is wrong with a field: a fault among its annotations, or, if the field
/// takes part, a literal with more than two slots.
pub open spec fn field_fault(f: FieldSpec, in_variant: bool, axis: Axis, default: Seq<char>)
    -> Option<Fault> {
    match first_fault(f.annotations@, axis, f.annotations@.len() as int) {
        Some(e) => Some(e),
        None => if field_shown(f, in_variant, axis) && slot_count(
            field_literal(f, axis, default),
        ) > 2 {
            Some(Fault::TooManySlots { max: 2 })
        } else {
            None
        },
    }
}

/// The first among the first `n` fields that has a fault, with the fault.
pub open spec fn fields_fault(
    fields: Seq<FieldSpec>,
    in_variant: bool,
    axis: Axis,
    default: Seq<char>,
    n: int,
) -> Option<(usize, Fault)>
    decreases n,
{
    if n <= 0 {
        None
    } else {
        match fields_fault(fields, in_variant, axis, default, n - 1) {
            Some(found) => Some(found),
            None => match field_fault(fields[n - 1], in_variant, axis, default) {
                Some(e) => Some(((n - 1) as usize, e)),
                None => None,
            },
        }
    }
}

/// The literals of the fields that take part, in the order of declaration.
pub open spec fn shown_literals(
    fields: Seq<FieldSpec>,
    in_variant: bool,
    axis: Axis,
    default: Seq<char>,
) -> Seq<Seq<char>> {
    Seq::new(
        shown(fields, in_variant, axis).len(),
        |j: int| field_literal(fields[shown(fields, in_variant, axis)[j] as int], axis, default),
    )
}

/// A fault among the first fields is the first fault of all of them.
pub proof fn lemma_fields_fault_stays(
    fields: Seq<FieldSpec>,
    in_variant: bool,
    axis: Axis,
    default: Seq<char>,
    n: int,
    m: int,
)
    requires
        0 <= n <= m,
        fields_fault(fields, in_variant, axis, default, n) is Some,
    ensures
        fields_fault(fields, in_variant, axis, default, m) == fields_fault(
            fields,
            in_variant,
            axis,
            default,
            n,
        ),
    decreases m - n,
{
    if n < m {
        lemma_fields_fault_stays(fields, in_variant, axis, default, n, m - 1);
    }
}

/// The positions that take part are positions of the declaration, in rising
/// order, and each of them takes part.
pub proof fn lemma_shown_upto(fields: Seq<FieldSpec>, in_variant: bool, axis: Axis, n: int)
    requires
        0 <= n <= fields.len() <= usize::MAX,
    ensures
        shown_upto(fields, in_variant, axis, n).len() <= n,
        forall|j: int|
            0 <= j < shown_upto(fields, in_variant, axis, n).len() ==> {
                &&& 0 <= (#[trigger] shown_upto(fields, in_variant, axis, n)[j]) < n
                &&& field_shown(
                    fields[shown_upto(fields, in_variant, axis, n)[j] as int],
                    in_variant,
                    axis,
                )
            },
        forall|j: int, k: int|
            0 <= j < k < shown_upto(fields, in_variant, axis, n).len() ==> (#[trigger] shown_upto(
                fields,
                in_variant,
                axis,
                n,
            )[j]) < (#[trigger] shown_upto(fields, in_variant, axis, n)[k]),
        forall|p: int|
            0 <= p < n && field_shown(#[trigger] fields[p], in_variant, axis) ==> shown_upto(
                fields,
                in_variant,
                axis,
                n,
            ).contains(p as usize),
    decreases n,
{
    if n > 0 {
        lemma_shown_upto(fields, in_variant, axis, n - 1);
        let prev = shown_upto(fields, in_variant, axis, n - 1);
        let cur = shown_upto(fields, in_variant, axis, n);
        if field_shown(fields[n - 1], in_variant, axis) {
            assert(cur == prev.push((n - 1) as usize));
            assert(cur[cur.len() - 1] == (n - 1) as usize);
            assert forall|p: int|
                0 <= p < n && field_shown(#[trigger] fields[p], in_variant, axis) implies cur.contains(
                p as usize,
            ) by {
                if p < n - 1 {
                    assert(prev.contains(p as usize));
                    let j = choose|j: int| 0 <= j < prev.len() && prev[j] == p as usize;
                    assert(cur[j] == p as usize);
                } else {
                    assert(cur[cur.len() - 1] == p as usize);
                }
            }
        }
    }
}

/// Off the two formatting axes no annotation has a fault.
pub proof fn lemma_no_fault_off_formatting(annotations: Seq<Annotation>, axis: Axis, n: int)
    requires
        !axis.is_formatting(),
    ensures
        first_fault(annotations, axis, n) is None,
    decreases n,
{
    if n > 0 {
        lemma_no_fault_off_formatting(annotations, axis, n - 1);
    }
}

/// The literal that the first annotation with the path `ident` carries.
pub open spec fn format_string_of(annotations: Seq<Annotation>, ident: Seq<char>, i: int) -> Option<
    Seq<char>,
>
    decreases annotations.len() - i,
{
    if i < 0 || i >= annotations.len() {
        None
    } else if annotations[i].path@ == ident {
        match directive_of(annotations[i].args) {
            Ok(Directive::Override(l)) => Some(l),
            _ => None,
        }
    } else {
        format_string_of(annotations, ident, i + 1)
    }
}

/// Finds the first annotation with the path `ident` and returns the literal that
/// it carries as `fmt = "..."`, if it carries one.
pub fn find_format_string(attrs: &Vec<Annotation>, ident: &str) -> (r: Option<String>)
    ensures
        match format_string_of(attrs@, ident@, 0) {
            Some(l) => r matches Some(s) && s@ == l,
            None => r is None,
        },
{
    let mut i: usize = 0;
    while i < attrs.len()
        invariant
            i <= attrs.len(),
            format_string_of(attrs@, ident@, i as int) == format_string_of(attrs@, ident@, 0),
        decreases attrs.len() - i,
    {
        if same(attrs[i].path.as_str(), ident) {
            return match find_display_attribute(&attrs[i]) {
                Ok(FormatDirective::Override(l)) => Some(l),
                _ => None,
            };
        }
        i += 1;
    }
    None
}

/// The fields that take part on a formatting axis, each with its literal and the
/// number of slots of that literal.
///
/// `variant_fmt` is the literal of a field that gives none; `is_enum` says that the
/// fields are those of a variant. Returns the positions of the fields, their
/// literals and the slot counts, all three in the order of declaration; or the
/// position of the first field that has a fault, with the fault.
pub fn extract_field_formatters(
    fields: &Vec<FieldSpec>,
    variant_fmt: &str,
    axis: Axis,
    is_enum: bool,
) -> (r: Result<(Vec<usize>, Vec<String>, Vec<usize>), (usize, Fault)>)
    ensures
        match r {
            Ok((ids, literals, counts)) => {
                &&& fields_fault(fields@, is_enum, axis, variant_fmt@, fields@.len() as int) is None
                &&& ids@ == shown(fields@, is_enum, axis)
                &&& literals@.len() == ids@.len()
                &&& counts@.len() == ids@.len()
                &&& forall|j: int|
                    0 <= j < ids@.len() ==> (#[trigger] literals@[j])@ == field_literal(
                        fields@[ids@[j] as int],
                        axis,
                        variant_fmt@,
                    )
                &&& forall|j: int|
                    0 <= j < ids@.len() ==> (#[trigger] counts@[j]) == slot_count(literals@[j]@)
            },
            Err(found) => fields_fault(fields@, is_enum, axis, variant_fmt@, fields@.len() as int)
                == Some(found),
        },
{
    let mut ids: Vec<usize> = Vec::new();
    let mut literals: Vec<String> = Vec::new();
    let mut counts: Vec<usize> = Vec::new();
    let mut i: usize = 0;
    while i < fields.len()
        invariant
            i <= fields.len(),
            fields_fault(fields@, is_enum, axis, variant_fmt@, i as int) is None,
            ids@ == shown_upto(fields@, is_enum, axis, i as int),
            literals@.len() == ids@.len(),
            counts@.len() == ids@.len(),
            forall|j: int| 0 <= j < ids@.len() ==> 0 <= (#[trigger] ids@[j]) < i,
            forall|j: int|
                0 <= j < ids@.len() ==> (#[trigger] literals@[j])@ == field_literal(
                    fields@[ids@[j] as int],
                    axis,
                    variant_fmt@,
                ),
            forall|j: int|
                0 <= j < ids@.len() ==> (#[trigger] counts@[j]) == slot_count(literals@[j]@),
        decreases fields.len() - i,
    {
        let field = &fields[i];
        let mut literal = variant_fmt.to_owned();
        let accessible = is_enum || field.public;
        match skip_formatting(&field.annotations, &mut literal, axis, !accessible) {
            Err(e) => {
                proof {
                    lemma_fields_fault_stays(
                        fields@,
                        is_enum,
                        axis,
                        variant_fmt@,
                        i + 1,
                        fields@.len() as int,
                    );
                }
                return Err((i, e));
            },
            Ok(is_skipped) => {
                if !is_skipped {
                    let n = count_slots(literal.as_str());
                    if n > 2 {
                        proof {
                            lemma_fields_fault_stays(
                                fields@,
                                is_enum,
                                axis,
                                variant_fmt@,
                                i + 1,
                                fields@.len() as int,
                            );
                        }
                        return Err((i, Fault::TooManySlots { max: 2 }));
                    }
                    ids.push(i);
                    literals.push(literal);
                    counts.push(n);
                }
            },
        }
        i += 1;
    }
    Ok((ids, literals, counts))
}

/// The positions of the fields that take part on one of the three axes that do
/// not render text.
pub(crate) fn included_fields(fields: &Vec<FieldSpec>, axis: Axis, is_enum: bool) -> (ids: Vec<usize>)
    requires
        !axis.is_formatting(),
    ensures
        ids@ == shown(fields@, is_enum, axis),
{
    let mut ids: Vec<usize> = Vec::new();
    let mut i: usize = 0;
    while i < fields.len()
        invariant
            i <= fields.len(),
            !axis.is_formatting(),
            ids@ == shown_upto(fields@, is_enum, axis, i as int),
        decreases fields.len() - i,
    {
        let field = &fields[i];
        proof {
            lemma_no_fault_off_formatting(
                field.annotations@,
                axis,
                field.annotations@.len() as int,
            );
        }
        match resolve(&field.annotations, is_enum || field.public, axis) {
            Ok(d) => {
                if d.included {
                    ids.push(i);
                }
            },
            Err(_) => {},
        }
        i += 1;
    }
    ids
}

} // verus!
