//! Synthesis of the programs that render a value for display or for debugging.
//!
//! A record is rendered through its template, by default `{}({})`: the first slot
//! takes the type's name, the second the entries of the fields that take part,
//! joined with `", "`. A tagged union is rendered through `{}.{}`: the first slot
//! takes the type's name, the second the rendering of the variant. A variant with
//! named fields is rendered like a record under its tag; a variant with a single
//! payload through `{}({})`, filled with the tag and the payload, or with the
//! payload alone where the literal has one slot; a unit variant through `{}`,
//! filled with the tag. A variant that is skipped renders as `<variant skipped>`,
//! and none of its fields is looked at. A variant that holds payloads without
//! names, and not exactly one of them, is a fault of the declaration.
use vstd::prelude::*;
use crate::annotation::Annotation;
use crate::axis::Axis;
use crate::error::{ConfigError, Fault, Site};
use crate::program::{lit, Atom, Code, Program};
use crate::resolve::{first_fault, includes, resolve};
use crate::select::{chosen_literal, extract_field_formatters, fields_fault, shown, shown_literals,
    lemma_shown_upto};
use crate::shape::{label_of, arm_count, FieldSpec, TypeDecl, TypeShape, VariantFields,
    VariantSpec};
use crate::template::{codes, count_slots, filled, slot_count, splice};
use crate::text::texts;

verus! {

/// The program that reads one field and nothing else.
pub open spec fn hole(position: nat) -> Code {
    seq![Atom::Field(position)]
}

/// The entry of one field. A literal with one slot formats the value, and the entry
/// is the label, `=` and the formatted value. Any other literal is the whole entry:
/// its first slot takes the label, its second the value.
pub open spec fn entry(label: Seq<char>, position: nat, literal: Seq<char>) -> Code {
    if slot_count(literal) == 1 {
        lit(label) + lit("="@) + filled(literal, seq![hole(position)])
    } else {
        filled(literal, seq![lit(label), hole(position)])
    }
}

/// The entries of the first `m` of the given positions, joined with `", "`.
pub open spec fn joined(
    fields: Seq<FieldSpec>,
    positions: Seq<usize>,
    literals: Seq<Seq<char>>,
    m: int,
) -> Code
    decreases m,
{
    if m <= 0 {
        Code::empty()
    } else {
        let p = positions[m - 1] as int;
        let e = entry(label_of(fields[p], p), p as nat, literals[m - 1]);
        if m == 1 {
            e
        } else {
            joined(fields, positions, literals, m - 1) + lit(", "@) + e
        }
    }
}

/// The entries of the fields that take part, joined with `", "`.
pub open spec fn body(fields: Seq<FieldSpec>, in_variant: bool, axis: Axis) -> Code {
    joined(
        fields,
        shown(fields, in_variant, axis),
        shown_literals(fields, in_variant, axis, "{}"@),
        shown(fields, in_variant, axis).len() as int,
    )
}

/// A name and a body put into a template: the first slot takes the name, the
/// second the body.
pub open spec fn framed(template: Seq<char>, name: Seq<char>, body: Code) -> Code {
    filled(template, seq![lit(name), body])
}

/// What is wrong with the annotations of a type or with its template.
pub open spec fn top_fault(annotations: Seq<Annotation>, axis: Axis, default: Seq<char>) -> Option<
    ConfigError,
> {
    match first_fault(annotations, axis, annotations.len() as int) {
        Some(e) => Some(ConfigError { fault: e, site: Site::Type }),
        None => if slot_count(chosen_literal(annotations, axis, default)) > 2 {
            Some(ConfigError { fault: Fault::TooManySlots { max: 2 }, site: Site::Type })
        } else {
            None
        },
    }
}

/// The first fault of a record: on the type itself, else on the first field that
/// has one.
pub open spec fn record_fault(annotations: Seq<Annotation>, fields: Seq<FieldSpec>, axis: Axis)
    -> Option<ConfigError> {
    match top_fault(annotations, axis, "{}({})"@) {
        Some(e) => Some(e),
        None => match fields_fault(fields, false, axis, "{}"@, fields.len() as int) {
            Some((i, e)) => Some(ConfigError { fault: e, site: Site::Field(i) }),
            None => None,
        },
    }
}

/// The program that renders a record.
pub open spec fn record_code(
    name: Seq<char>,
    annotations: Seq<Annotation>,
    fields: Seq<FieldSpec>,
    axis: Axis,
) -> Code {
    framed(chosen_literal(annotations, axis, "{}({})"@), name, body(fields, false, axis))
}

/// Whether a variant takes part on `axis`.
pub open spec fn variant_shown(v: VariantSpec, axis: Axis) -> bool {
    includes(v.annotations@, true, axis)
}

/// The number of slots that the literal of a variant may have.
pub open spec fn variant_limit(v: VariantSpec) -> nat {
    match v.fields {
        VariantFields::Unit => 1,
        _ => 2,
    }
}

/// The literal of a variant that gives none.
pub open spec fn variant_default(v: VariantSpec) -> Seq<char> {
    match v.fields {
        VariantFields::Unit => "{}"@,
        _ => "{}({})"@,
    }
}

/// The literal through which a variant is rendered.
pub open spec fn variant_literal(v: VariantSpec, axis: Axis) -> Seq<char> {
    chosen_literal(v.annotations@, axis, variant_default(v))
}

/// The program that renders a variant that takes part, without the type's name.
pub open spec fn variant_code(v: VariantSpec, axis: Axis) -> Code {
    match v.fields {
        VariantFields::Unit => filled(variant_literal(v, axis), seq![lit(v.name@)]),
        VariantFields::Tuple(_) => if slot_count(variant_literal(v, axis)) == 1 {
            filled(variant_literal(v, axis), seq![hole(0)])
        } else {
            filled(variant_literal(v, axis), seq![lit(v.name@), hole(0)])
        },
        VariantFields::Named(fields) => framed(
            variant_literal(v, axis),
            v.name@,
            body(fields@, true, axis),
        ),
    }
}

/// Whether the variant holds payloads without names, and not exactly one of them.
pub open spec fn odd_payload(v: VariantSpec) -> bool {
    v.fields matches VariantFields::Tuple(count) && count != 1
}

/// The first fault of the variant at position `index`: among its annotations; else
/// in the number of its payloads; else, if the variant takes part, in its literal;
/// else on the first of its fields that has one. The fields of a variant that is
/// skipped are not looked at.
pub open spec fn variant_fault(v: VariantSpec, index: usize, axis: Axis) -> Option<ConfigError> {
    match first_fault(v.annotations@, axis, v.annotations@.len() as int) {
        Some(e) => Some(ConfigError { fault: e, site: Site::Variant(index) }),
        None => if odd_payload(v) {
            Some(ConfigError { fault: Fault::PayloadCount, site: Site::Variant(index) })
        } else if !variant_shown(v, axis) {
            None
        } else if slot_count(variant_literal(v, axis)) > variant_limit(v) {
            Some(
                ConfigError {
                    fault: Fault::TooManySlots { max: variant_limit(v) as usize },
                    site: Site::Variant(index),
                },
            )
        } else {
            match v.fields {
                VariantFields::Named(fields) => match fields_fault(
                    fields@,
                    true,
                    axis,
                    "{}"@,
                    fields@.len() as int,
                ) {
                    Some((i, e)) => Some(
                        ConfigError { fault: e, site: Site::VariantField(index, i) },
                    ),
                    None => None,
                },
                _ => None,
            }
        },
    }
}

/// The fault of the first among the first `n` variants that has one.
pub open spec fn variants_fault(variants: Seq<VariantSpec>, axis: Axis, n: int) -> Option<
    ConfigError,
>
    decreases n,
{
    if n <= 0 {
        None
    } else {
        match variants_fault(variants, axis, n - 1) {
            Some(e) => Some(e),
            None => variant_fault(variants[n - 1], (n - 1) as usize, axis),
        }
    }
}

/// The first fault of a tagged union: on the type itself, else on the first
/// variant that has one.
pub open spec fn union_fault(annotations: Seq<Annotation>, variants: Seq<VariantSpec>, axis: Axis)
    -> Option<ConfigError> {
    match top_fault(annotations, axis, "{}.{}"@) {
        Some(e) => Some(e),
        None => variants_fault(variants, axis, variants.len() as int),
    }
}

/// The program that renders a value of one variant of a tagged union.
pub open spec fn union_arm(
    name: Seq<char>,
    annotations: Seq<Annotation>,
    v: VariantSpec,
    axis: Axis,
) -> Code {
    if variant_shown(v, axis) {
        framed(chosen_literal(annotations, axis, "{}.{}"@), name, variant_code(v, axis))
    } else {
        lit("<variant skipped>"@)
    }
}

/// The first fault of a declaration on a formatting axis.
pub open spec fn formatter_fault(decl: TypeDecl, axis: Axis) -> Option<ConfigError> {
    match decl.shape {
        TypeShape::Record { fields } => record_fault(decl.annotations@, fields@, axis),
        TypeShape::RecordUnit => record_fault(decl.annotations@, Seq::empty(), axis),
        TypeShape::RecordTuple { fields } => record_fault(decl.annotations@, fields@, axis),
        TypeShape::Union { variants } => union_fault(decl.annotations@, variants@, axis),
        TypeShape::Untagged => Some(
            ConfigError { fault: Fault::UnionUnsupported, site: Site::Type },
        ),
    }
}

/// The program that renders a value of the arm at position `arm`.
pub open spec fn formatter_arm(decl: TypeDecl, axis: Axis, arm: int) -> Code {
    match decl.shape {
        TypeShape::Record { fields } => record_code(decl.name@, decl.annotations@, fields@, axis),
        TypeShape::RecordUnit => record_code(decl.name@, decl.annotations@, Seq::empty(), axis),
        TypeShape::RecordTuple { fields } => record_code(
            decl.name@,
            decl.annotations@,
            fields@,
            axis,
        ),
        TypeShape::Union { variants } => union_arm(
            decl.name@,
            decl.annotations@,
            variants@[arm],
            axis,
        ),
        TypeShape::Untagged => Code::empty(),
    }
}

/// A fault among the first variants is the first fault of all of them.
pub proof fn lemma_variants_fault_stays(variants: Seq<VariantSpec>, axis: Axis, n: int, m: int)
    requires
        0 <= n <= m,
        variants_fault(variants, axis, n) is Some,
    ensures
        variants_fault(variants, axis, m) == variants_fault(variants, axis, n),
    decreases m - n,
{
    if n < m {
        lemma_variants_fault_stays(variants, axis, n, m - 1);
    }
}

/// Whether the variant holds payloads without names, and not exactly one of them.
pub fn has_odd_payload(v: &VariantSpec) -> (r: bool)
    ensures
        r == odd_payload(*v),
{
    match &v.fields {
        VariantFields::Tuple(count) => *count != 1,
        _ => false,
    }
}

/// The program of a single field value.
fn value_program(position: usize) -> (p: Program)
    ensures
        p@ == hole(position as nat),
{
    let mut p = Program::new();
    p.push_value(position);
    assert(p@ =~= hole(position as nat));
    p
}

/// The program of a fixed text.
fn text_program(s: &str) -> (p: Program)
    ensures
        p@ == lit(s@),
{
    let mut p = Program::new();
    p.push_text(s);
    assert(p@ =~= lit(s@));
    p
}

/// Fills a template with one argument.
fn splice_one(template: &str, first: Program) -> (p: Program)
    ensures
        p@ == filled(template@, seq![first@]),
{
    let mut args: Vec<Program> = Vec::new();
    args.push(first);
    assert(codes(args@) =~= seq![first@]);
    splice(template, &args)
}

/// Fills a template with two arguments.
fn splice_two(template: &str, first: Program, second: Program) -> (p: Program)
    ensures
        p@ == filled(template@, seq![first@, second@]),
{
    let mut args: Vec<Program> = Vec::new();
    args.push(first);
    args.push(second);
    assert(codes(args@) =~= seq![first@, second@]);
    splice(template, &args)
}

/// The program of one entry.
fn entry_program(label: &str, position: usize, literal: &str, slots: usize) -> (p: Program)
    requires
        slots == slot_count(literal@),
    ensures
        p@ == entry(label@, position as nat, literal@),
{
    if slots == 1 {
        let mut p = text_program(label);
        p.push_text("=");
        let formatted = splice_one(literal, value_program(position));
        p.push_program(&formatted);
        p
    } else {
        splice_two(literal, text_program(label), value_program(position))
    }
}

/// The program of the entries of the given fields, joined with `", "`.
fn join_entries(
    fields: &Vec<FieldSpec>,
    ids: &Vec<usize>,
    literals: &Vec<String>,
    counts: &Vec<usize>,
) -> (out: Program)
    requires
        literals@.len() == ids@.len(),
        counts@.len() == ids@.len(),
        forall|j: int| 0 <= j < ids@.len() ==> (#[trigger] ids@[j]) < fields@.len(),
        forall|j: int| 0 <= j < ids@.len() ==> (#[trigger] counts@[j]) == slot_count(literals@[j]@),
    ensures
        out@ == joined(fields@, ids@, texts(literals@), ids@.len() as int),
{
    let mut out = Program::new();
    let mut j: usize = 0;
    while j < ids.len()
        invariant
            j <= ids.len(),
            literals@.len() == ids@.len(),
            counts@.len() == ids@.len(),
            forall|j: int| 0 <= j < ids@.len() ==> (#[trigger] ids@[j]) < fields@.len(),
            forall|j: int|
                0 <= j < ids@.len() ==> (#[trigger] counts@[j]) == slot_count(literals@[j]@),
            out@ == joined(fields@, ids@, texts(literals@), j as int),
        decreases ids.len() - j,
    {
        let position = ids[j];
        let label = fields[position].label(position);
        let e = entry_program(label.as_str(), position, literals[j].as_str(), counts[j]);
        assert(texts(literals@)[j as int] == literals@[j as int]@);
        if j > 0 {
            out.push_text(", ");
        } else {
            assert(out@ + e@ =~= e@);
        }
        out.push_program(&e);
        j += 1;
    }
    out
}

/// The template of a type or of a variant: the literal that its annotations give,
/// or `default`.
fn template_of(annotations: &Vec<Annotation>, axis: Axis, default: &str) -> (r: Result<
    (String, bool),
    Fault,
>)
    ensures
        match r {
            Ok((t, included)) => {
                &&& first_fault(annotations@, axis, annotations@.len() as int) is None
                &&& t@ == chosen_literal(annotations@, axis, default@)
                &&& included == includes(annotations@, true, axis)
            },
            Err(e) => first_fault(annotations@, axis, annotations@.len() as int) == Some(e),
        },
{
    match resolve(annotations, true, axis) {
        Ok(d) => {
            let included = d.included;
            match d.literal_override {
                Some(l) => Ok((l, included)),
                None => Ok((default.to_owned(), included)),
            }
        },
        Err(e) => Err(e),
    }
}

/// The template of the type itself, checked against the two slots it may have.
fn top_template(annotations: &Vec<Annotation>, axis: Axis, default: &str) -> (r: Result<
    String,
    ConfigError,
>)
    ensures
        match r {
            Ok(t) => top_fault(annotations@, axis, default@) is None && t@ == chosen_literal(
                annotations@,
                axis,
                default@,
            ),
            Err(e) => top_fault(annotations@, axis, default@) == Some(e),
        },
{
    match template_of(annotations, axis, default) {
        Err(e) => Err(ConfigError { fault: e, site: Site::Type }),
        Ok((t, _)) => {
            if count_slots(t.as_str()) > 2 {
                Err(ConfigError { fault: Fault::TooManySlots { max: 2 }, site: Site::Type })
            } else {
                Ok(t)
            }
        },
    }
}

/// The entries of the fields that take part, joined; or the first faulty field.
fn body_program(fields: &Vec<FieldSpec>, axis: Axis, is_enum: bool) -> (r: Result<
    Program,
    (usize, Fault),
>)
    ensures
        match r {
            Ok(p) => fields_fault(fields@, is_enum, axis, "{}"@, fields@.len() as int) is None
                && p@ == body(fields@, is_enum, axis),
            Err(found) => fields_fault(fields@, is_enum, axis, "{}"@, fields@.len() as int)
                == Some(found),
        },
{
    match extract_field_formatters(fields, "{}", axis, is_enum) {
        Err(found) => Err(found),
        Ok((ids, literals, counts)) => {
            proof {
                assert(fields.len() <= usize::MAX);
                lemma_shown_upto(fields@, is_enum, axis, fields@.len() as int);
                assert(texts(literals@) =~= shown_literals(fields@, is_enum, axis, "{}"@));
            }
            Ok(join_entries(fields, &ids, &literals, &counts))
        },
    }
}

/// Synthesizes the program that renders a record with the given name, annotations
/// and fields on `axis`.
pub fn generate_fmt_impl_for_struct(
    name: &str,
    annotations: &Vec<Annotation>,
    fields: &Vec<FieldSpec>,
    axis: Axis,
) -> (r: Result<Program, ConfigError>)
    ensures
        match r {
            Ok(p) => record_fault(annotations@, fields@, axis) is None && p@ == record_code(
                name@,
                annotations@,
                fields@,
                axis,
            ),
            Err(e) => record_fault(annotations@, fields@, axis) == Some(e),
        },
{
    let template = match top_template(annotations, axis, "{}({})") {
        Ok(t) => t,
        Err(e) => {
            return Err(e);
        },
    };
    match body_program(fields, axis, false) {
        Err((i, e)) => Err(ConfigError { fault: e, site: Site::Field(i) }),
        Ok(b) => Ok(splice_two(template.as_str(), text_program(name), b)),
    }
}

/// Synthesizes the program that renders a variant that takes part, without the
/// type's name; `template` is the variant's literal.
fn variant_program(v: &VariantSpec, index: usize, template: &str, axis: Axis) -> (r: Result<
    Program,
    ConfigError,
>)
    requires
        first_fault(v.annotations@, axis, v.annotations@.len() as int) is None,
        !odd_payload(*v),
        variant_shown(*v, axis),
        template@ == variant_literal(*v, axis),
    ensures
        match r {
            Ok(p) => variant_fault(*v, index, axis) is None && p@ == variant_code(*v, axis),
            Err(e) => variant_fault(*v, index, axis) == Some(e),
        },
{
    let slots = count_slots(template);
    match &v.fields {
        VariantFields::Unit => {
            if slots > 1 {
                return Err(
                    ConfigError {
                        fault: Fault::TooManySlots { max: 1 },
                        site: Site::Variant(index),
                    },
                );
            }
            Ok(splice_one(template, text_program(v.name.as_str())))
        },
        VariantFields::Tuple(_) => {
            if slots > 2 {
                return Err(
                    ConfigError {
                        fault: Fault::TooManySlots { max: 2 },
                        site: Site::Variant(index),
                    },
                );
            }
            if slots == 1 {
                Ok(splice_one(template, value_program(0)))
            } else {
                Ok(splice_two(template, text_program(v.name.as_str()), value_program(0)))
            }
        },
        VariantFields::Named(fields) => {
            if slots > 2 {
                return Err(
                    ConfigError {
                        fault: Fault::TooManySlots { max: 2 },
                        site: Site::Variant(index),
                    },
                );
            }
            match body_program(fields, axis, true) {
                Err((i, e)) => Err(ConfigError { fault: e, site: Site::VariantField(index, i) }),
                Ok(b) => Ok(splice_two(template, text_program(v.name.as_str()), b)),
            }
        },
    }
}

/// Synthesizes, for each variant of a tagged union with the given name,
/// annotations and variants, the program that renders a value of that variant
/// on `axis`.
pub fn generate_fmt_impl_for_enum(
    name: &str,
    annotations: &Vec<Annotation>,
    variants: &Vec<VariantSpec>,
    axis: Axis,
) -> (r: Result<Vec<Program>, ConfigError>)
    ensures
        match r {
            Ok(arms) => {
                &&& union_fault(annotations@, variants@, axis) is None
                &&& arms@.len() == variants@.len()
                &&& forall|v: int|
                    0 <= v < arms@.len() ==> (#[trigger] arms@[v])@ == union_arm(
                        name@,
                        annotations@,
                        variants@[v],
                        axis,
                    )
            },
            Err(e) => union_fault(annotations@, variants@, axis) == Some(e),
        },
{
    let template = match top_template(annotations, axis, "{}.{}") {
        Ok(t) => t,
        Err(e) => {
            return Err(e);
        },
    };
    let mut arms: Vec<Program> = Vec::new();
    let mut i: usize = 0;
    while i < variants.len()
        invariant
            i <= variants.len(),
            top_fault(annotations@, axis, "{}.{}"@) is None,
            template@ == chosen_literal(annotations@, axis, "{}.{}"@),
            variants_fault(variants@, axis, i as int) is None,
            arms@.len() == i,
            forall|v: int|
                0 <= v < i ==> (#[trigger] arms@[v])@ == union_arm(
                    name@,
                    annotations@,
                    variants@[v],
                    axis,
                ),
        decreases variants.len() - i,
    {
        let v = &variants[i];
        let default = match &v.fields {
            VariantFields::Unit => "{}",
            _ => "{}({})",
        };
        let arm = match template_of(&v.annotations, axis, default) {
            Err(e) => {
                proof {
                    lemma_variants_fault_stays(variants@, axis, i + 1, variants@.len() as int);
                }
                return Err(ConfigError { fault: e, site: Site::Variant(i) });
            },
            Ok((literal, included)) => {
                if has_odd_payload(v) {
                    proof {
                        lemma_variants_fault_stays(variants@, axis, i + 1, variants@.len() as int);
                    }
                    return Err(
                        ConfigError { fault: Fault::PayloadCount, site: Site::Variant(i) },
                    );
                }
                if !included {
                    text_program("<variant skipped>")
                } else {
                    match variant_program(v, i, literal.as_str(), axis) {
                        Err(e) => {
                            proof {
                                lemma_variants_fault_stays(
                                    variants@,
                                    axis,
                                    i + 1,
                                    variants@.len() as int,
                                );
                            }
                            return Err(e);
                        },
                        Ok(inner) => splice_two(template.as_str(), text_program(name), inner),
                    }
                }
            },
        };
        arms.push(arm);
        i += 1;
    }
    Ok(arms)
}

/// Synthesizes the programs that render the values of a type on `axis`: one for
/// each arm of the declaration.
pub fn impl_formatter(decl: &TypeDecl, axis: Axis) -> (r: Result<Vec<Program>, ConfigError>)
    ensures
        match r {
            Ok(arms) => {
                &&& formatter_fault(*decl, axis) is None
                &&& arms@.len() == arm_count(decl.shape)
                &&& forall|a: int|
                    0 <= a < arms@.len() ==> (#[trigger] arms@[a])@ == formatter_arm(
                        *decl,
                        axis,
                        a,
                    )
            },
            Err(e) => formatter_fault(*decl, axis) == Some(e),
        },
{
    match &decl.shape {
        TypeShape::Record { fields } => {
            match generate_fmt_impl_for_struct(
                decl.name.as_str(),
                &decl.annotations,
                fields,
                axis,
            ) {
                Ok(p) => {
                    let mut arms: Vec<Program> = Vec::new();
                    arms.push(p);
                    Ok(arms)
                },
                Err(e) => Err(e),
            }
        },
        TypeShape::RecordTuple { fields } => {
            match generate_fmt_impl_for_struct(
                decl.name.as_str(),
                &decl.annotations,
                fields,
                axis,
            ) {
                Ok(p) => {
                    let mut arms: Vec<Program> = Vec::new();
                    arms.push(p);
                    Ok(arms)
                },
                Err(e) => Err(e),
            }
        },
        TypeShape::RecordUnit => {
            let fields: Vec<FieldSpec> = Vec::new();
            match generate_fmt_impl_for_struct(
                decl.name.as_str(),
                &decl.annotations,
                &fields,
                axis,
            ) {
                Ok(p) => {
                    let mut arms: Vec<Program> = Vec::new();
                    arms.push(p);
                    Ok(arms)
                },
                Err(e) => Err(e),
            }
        },
        TypeShape::Union { variants } => generate_fmt_impl_for_enum(
            decl.name.as_str(),
            &decl.annotations,
            variants,
            axis,
        ),
        TypeShape::Untagged => Err(
            ConfigError { fault: Fault::UnionUnsupported, site: Site::Type },
        ),
    }
}

} // verus!
