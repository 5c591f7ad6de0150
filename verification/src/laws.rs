//! What holds of every declaration: laws that relate the derive functions, stated
//! over the same spec functions as their contracts.
use vstd::prelude::*;
use crate::annotation::Annotation;
use crate::axis::Axis;
use crate::containers::{display_each, displays_list};
use crate::error::{Fault, LookupError};
use crate::format::{body, entry, formatter_arm, framed, hole, joined, variant_code,
    variant_literal, variant_shown};
use crate::listing::{arm_table, entry_names, entry_views, first_match, lemma_first_match, lists,
    table, Listing};
use crate::runtime::{bracketed, complete, rendered_count_is_bounded, PyDisplay};
use crate::program::{eval, lemma_eval_concat, lemma_eval_lit, lit, reads, Atom, Code};
use crate::resolve::{any_forces, any_skips_all, any_skips_axis, includes, last_literal,
    resolve, AxisDecision};
use crate::select::{chosen_literal, field_shown, lemma_shown_upto, shown, shown_literals};
use crate::shape::{arm_count, label_of, FieldSpec, TypeDecl, TypeShape, VariantFields};
use crate::template::{arg_at, filled, filled_from, pair_at, slot_count};

verus! {

/// Resolving is idempotent: two resolutions of the same element on the same axis
/// give the same decision, or the same fault.
pub proof fn resolve_is_idempotent(
    annotations: &Vec<Annotation>,
    accessible: bool,
    axis: Axis,
    first: Result<AxisDecision, Fault>,
    second: Result<AxisDecision, Fault>,
)
    requires
        call_ensures(resolve, (annotations, accessible, axis), first),
        call_ensures(resolve, (annotations, accessible, axis), second),
    ensures
        match (first, second) {
            (Ok(a), Ok(b)) => a@ == b@,
            (Err(a), Err(b)) => a == b,
            _ => false,
        },
{
}

/// The axes agree where no annotation tells them apart: an element on which no
/// skip names either of two axes takes part on both or on neither.
pub proof fn axes_agree_without_specific_skips(
    annotations: Seq<Annotation>,
    accessible: bool,
    a: Axis,
    b: Axis,
)
    requires
        !any_skips_axis(annotations, a),
        !any_skips_axis(annotations, b),
    ensures
        includes(annotations, accessible, a) == includes(annotations, accessible, b),
{
}

/// A field that is not accessible takes part on every axis that no skip names, if
/// it carries a force-include marker: `pyo3_fmt_no_skip`, or a bare `format`.
pub proof fn forced_field_is_included(f: FieldSpec, axis: Axis)
    requires
        any_forces(f.annotations@),
        !any_skips_axis(f.annotations@, axis),
    ensures
        field_shown(f, false, axis),
{
}

/// The listing of a record is the sequence of the names of its fields that take
/// part, in the order of declaration: every such field is listed, nothing else is,
/// and a field that is listed before another is declared before it.
pub proof fn directory_lists_included_fields(fields: &Vec<FieldSpec>)
    ensures
        forall|p: int|
            0 <= p < fields@.len() ==> (field_shown(#[trigger] fields@[p], false, Axis::Directory)
                <==> shown(fields@, false, Axis::Directory).contains(p as usize)),
        forall|j: int|
            0 <= j < shown(fields@, false, Axis::Directory).len() ==> (#[trigger] shown(
                fields@,
                false,
                Axis::Directory,
            )[j]) < fields@.len(),
        forall|j: int, k: int|
            0 <= j < k < shown(fields@, false, Axis::Directory).len() ==> (#[trigger] shown(
                fields@,
                false,
                Axis::Directory,
            )[j]) < (#[trigger] shown(fields@, false, Axis::Directory)[k]),
{
    assert(fields.len() <= usize::MAX);
    lemma_shown_upto(fields@, false, Axis::Directory, fields@.len() as int);
    let s = shown(fields@, false, Axis::Directory);
    assert forall|p: int| 0 <= p < fields@.len() && s.contains(p as usize) implies field_shown(
        #[trigger] fields@[p],
        false,
        Axis::Directory,
    ) by {
        let j = choose|j: int| 0 <= j < s.len() && s[j] == p as usize;
        assert(field_shown(fields@[s[j] as int], false, Axis::Directory));
    }
}

/// A field takes no part on an axis if it is skipped on that very axis; nor if it
/// is not force-included and is either not accessible or skipped on all axes.
pub proof fn skipped_or_private_field_is_left_out(f: FieldSpec, axis: Axis)
    ensures
        any_skips_axis(f.annotations@, axis) ==> !field_shown(f, false, axis),
        !f.public && !any_forces(f.annotations@) ==> !field_shown(f, false, axis),
        any_skips_all(f.annotations@) && !any_forces(f.annotations@) ==> !field_shown(
            f,
            false,
            axis,
        ),
{
}

/// A variant that is skipped on a formatting axis renders as `<variant skipped>`
/// and nothing else, whatever its fields hold, and its program reads none of them.
pub proof fn skipped_variant_hides_fields(
    decl: TypeDecl,
    axis: Axis,
    arm: int,
    values: Seq<Seq<char>>,
)
    requires
        decl.shape matches TypeShape::Union { variants } && 0 <= arm < variants@.len() && (
        any_skips_axis(variants@[arm].annotations@, axis) || (any_skips_all(
            variants@[arm].annotations@,
        ) && !any_forces(variants@[arm].annotations@))),
    ensures
        eval(formatter_arm(decl, axis, arm), values) == "<variant skipped>"@,
        forall|k: nat| !reads(formatter_arm(decl, axis, arm), k),
{
    let text = "<variant skipped>"@;
    lemma_eval_lit(text, values);
    assert forall|k: nat| !reads(lit(text), k) by {
        if lit(text).contains(Atom::<char>::Field(k)) {
            let i = choose|i: int| 0 <= i < lit(text).len() && lit(text)[i] == Atom::<char>::Field(k);
            assert(lit(text)[i] == Atom::Char(text[i]));
        }
    }
}

/// The arguments of a template, each run on the values and taken as fixed text.
pub open spec fn rendered(args: Seq<Code>, values: Seq<Seq<char>>) -> Seq<Code> {
    Seq::new(args.len(), |j: int| lit(eval(args[j], values)))
}

proof fn lemma_filling_commutes(
    t: Seq<char>,
    i: int,
    args: Seq<Code>,
    next: int,
    values: Seq<Seq<char>>,
)
    ensures
        eval(filled_from(t, i, args, next), values) == eval(
            filled_from(t, i, rendered(args, values), next),
            values,
        ),
    decreases t.len() - i,
{
    let texts = rendered(args, values);
    if i < 0 || i >= t.len() {
    } else if pair_at(t, i, '{', '{') {
        lemma_filling_commutes(t, i + 2, args, next, values);
        lemma_eval_concat(seq![Atom::Char('{')], filled_from(t, i + 2, args, next), values);
        lemma_eval_concat(seq![Atom::Char('{')], filled_from(t, i + 2, texts, next), values);
    } else if pair_at(t, i, '}', '}') {
        lemma_filling_commutes(t, i + 2, args, next, values);
        lemma_eval_concat(seq![Atom::Char('}')], filled_from(t, i + 2, args, next), values);
        lemma_eval_concat(seq![Atom::Char('}')], filled_from(t, i + 2, texts, next), values);
    } else if pair_at(t, i, '{', '}') {
        lemma_filling_commutes(t, i + 2, args, next + 1, values);
        lemma_eval_concat(arg_at(args, next), filled_from(t, i + 2, args, next + 1), values);
        lemma_eval_concat(arg_at(texts, next), filled_from(t, i + 2, texts, next + 1), values);
        if 0 <= next < args.len() {
            lemma_eval_lit(eval(args[next], values), values);
        }
    } else {
        lemma_filling_commutes(t, i + 1, args, next, values);
        lemma_eval_concat(seq![Atom::Char(t[i])], filled_from(t, i + 1, args, next), values);
        lemma_eval_concat(seq![Atom::Char(t[i])], filled_from(t, i + 1, texts, next), values);
    }
}

/// Substitution composes: to fill a template with programs and run the result is
/// to run the programs first and fill the template with the texts they give. So
/// the entries of the fields are rendered first, and the body they make up fills
/// the template of the type.
pub proof fn filling_commutes_with_running(t: Seq<char>, args: Seq<Code>, values: Seq<Seq<char>>)
    ensures
        eval(filled(t, args), values) == eval(filled(t, rendered(args, values)), values),
{
    lemma_filling_commutes(t, 0, args, 0, values);
}

/// A list renders no more elements than the collection has, and no more than half
/// the bytes allowed and one: nothing is rendered after the first element that does
/// not fit.
pub proof fn list_renders_a_bounded_number<T: PyDisplay>(
    s: Seq<T>,
    start: char,
    end: char,
    n: nat,
    text: Seq<char>,
    rendered: nat,
)
    requires
        displays_list(s, start, end, n, text, rendered),
    ensures
        rendered <= s.len(),
        rendered <= n / 2 + 1,
{
    let items = choose|items: Seq<Seq<char>>|
        items.len() == rendered && display_each(s, items) && complete(items, s.len(), n) && text
            == bracketed(start, end, items, n);
    rendered_count_is_bounded(items, s.len(), n);
}

/// What a concatenation reads, one of its two parts reads.
proof fn lemma_reads_concat(a: Code, b: Code, k: nat)
    ensures
        reads(a + b, k) <==> reads(a, k) || reads(b, k),
{
    let x = Atom::<char>::Field(k);
    if (a + b).contains(x) {
        let i = choose|i: int| 0 <= i < (a + b).len() && (a + b)[i] == x;
        if i < a.len() {
            assert(a[i] == x);
        } else {
            assert(b[i - a.len()] == x);
        }
    }
    if a.contains(x) {
        let i = choose|i: int| 0 <= i < a.len() && a[i] == x;
        assert((a + b)[i] == x);
    }
    if b.contains(x) {
        let i = choose|i: int| 0 <= i < b.len() && b[i] == x;
        assert((a + b)[a.len() + i] == x);
    }
}

/// Literal text reads nothing.
proof fn lemma_lit_reads_nothing(s: Seq<char>, k: nat)
    ensures
        !reads(lit(s), k),
{
    if lit(s).contains(Atom::<char>::Field(k)) {
        let i = choose|i: int| 0 <= i < lit(s).len() && lit(s)[i] == Atom::<char>::Field(k);
        assert(lit(s)[i] == Atom::Char(s[i]));
    }
}

/// What a filled template reads, one of the arguments reads.
proof fn lemma_filled_reads(t: Seq<char>, i: int, args: Seq<Code>, next: int, k: nat)
    requires
        0 <= next,
        reads(filled_from(t, i, args, next), k),
    ensures
        exists|j: int| 0 <= j < args.len() && reads(#[trigger] args[j], k),
    decreases t.len() - i,
{
    if i < 0 || i >= t.len() {
        assert(filled_from(t, i, args, next) =~= Code::empty());
    } else if pair_at(t, i, '{', '{') {
        lemma_reads_concat(seq![Atom::Char('{')], filled_from(t, i + 2, args, next), k);
        lemma_single_char_reads_nothing('{', k);
        lemma_filled_reads(t, i + 2, args, next, k);
    } else if pair_at(t, i, '}', '}') {
        lemma_reads_concat(seq![Atom::Char('}')], filled_from(t, i + 2, args, next), k);
        lemma_single_char_reads_nothing('}', k);
        lemma_filled_reads(t, i + 2, args, next, k);
    } else if pair_at(t, i, '{', '}') {
        lemma_reads_concat(arg_at(args, next), filled_from(t, i + 2, args, next + 1), k);
        if reads(arg_at(args, next), k) {
            assert(next < args.len());
            assert(reads(args[next], k));
        } else {
            lemma_filled_reads(t, i + 2, args, next + 1, k);
        }
    } else {
        lemma_reads_concat(seq![Atom::Char(t[i])], filled_from(t, i + 1, args, next), k);
        lemma_single_char_reads_nothing(t[i], k);
        lemma_filled_reads(t, i + 1, args, next, k);
    }
}

/// A single character reads nothing.
proof fn lemma_single_char_reads_nothing(c: char, k: nat)
    ensures
        !reads(seq![Atom::Char(c)], k),
{
    let a: Code = seq![Atom::Char(c)];
    if a.contains(Atom::<char>::Field(k)) {
        let i = choose|i: int| 0 <= i < a.len() && a[i] == Atom::<char>::Field(k);
        assert(a[i] == Atom::Char(c));
    }
}

/// A hole reads its own field and no other.
proof fn lemma_hole_reads(position: nat, k: nat)
    requires
        reads(hole(position), k),
    ensures
        k == position,
{
    let i = choose|i: int|
        0 <= i < hole(position).len() && hole(position)[i] == Atom::<char>::Field(k);
    assert(hole(position)[i] == Atom::<char>::Field(position));
}

/// An entry reads its own field and no other.
proof fn lemma_entry_reads(label: Seq<char>, position: nat, literal: Seq<char>, k: nat)
    requires
        reads(entry(label, position, literal), k),
    ensures
        k == position,
{
    lemma_lit_reads_nothing(label, k);
    lemma_lit_reads_nothing("="@, k);
    if slot_count(literal) == 1 {
        let args = seq![hole(position)];
        lemma_reads_concat(lit(label) + lit("="@), filled(literal, args), k);
        lemma_reads_concat(lit(label), lit("="@), k);
        lemma_filled_reads(literal, 0, args, 0, k);
        let j = choose|j: int| 0 <= j < args.len() && reads(#[trigger] args[j], k);
        lemma_hole_reads(position, k);
    } else {
        let args = seq![lit(label), hole(position)];
        lemma_filled_reads(literal, 0, args, 0, k);
        let j = choose|j: int| 0 <= j < args.len() && reads(#[trigger] args[j], k);
        assert(j == 1);
        lemma_hole_reads(position, k);
    }
}

/// Joined entries read the fields at the joined positions and no others.
proof fn lemma_joined_reads(
    fields: Seq<FieldSpec>,
    positions: Seq<usize>,
    literals: Seq<Seq<char>>,
    m: int,
    k: nat,
)
    requires
        0 <= m <= positions.len(),
        reads(joined(fields, positions, literals, m), k),
    ensures
        exists|j: int| 0 <= j < m && (#[trigger] positions[j]) == k,
    decreases m,
{
    if m <= 0 {
        assert(joined(fields, positions, literals, m) =~= Code::empty());
    } else {
        let p = positions[m - 1] as int;
        let e = entry(label_of(fields[p], p), p as nat, literals[m - 1]);
        if m == 1 {
            lemma_entry_reads(label_of(fields[p], p), p as nat, literals[m - 1], k);
            assert(positions[m - 1] == k);
        } else {
            let before = joined(fields, positions, literals, m - 1);
            lemma_reads_concat(before + lit(", "@), e, k);
            lemma_reads_concat(before, lit(", "@), k);
            lemma_lit_reads_nothing(", "@, k);
            if reads(e, k) {
                lemma_entry_reads(label_of(fields[p], p), p as nat, literals[m - 1], k);
                assert(positions[m - 1] == k);
            } else {
                lemma_joined_reads(fields, positions, literals, m - 1, k);
            }
        }
    }
}

/// The entries of a record or of a variant read only fields that take part.
proof fn lemma_body_reads(fields: &Vec<FieldSpec>, in_variant: bool, axis: Axis, k: nat)
    requires
        reads(body(fields@, in_variant, axis), k),
    ensures
        k < fields@.len() && field_shown(fields@[k as int], in_variant, axis),
{
    assert(fields.len() <= usize::MAX);
    lemma_shown_upto(fields@, in_variant, axis, fields@.len() as int);
    let positions = shown(fields@, in_variant, axis);
    lemma_joined_reads(
        fields@,
        positions,
        shown_literals(fields@, in_variant, axis, "{}"@),
        positions.len() as int,
        k,
    );
    let j = choose|j: int| 0 <= j < positions.len() && (#[trigger] positions[j]) == k;
    assert(field_shown(fields@[positions[j] as int], in_variant, axis));
}

/// A name and a body in a template read what the body reads.
proof fn lemma_framed_reads(template: Seq<char>, name: Seq<char>, inner: Code, k: nat)
    requires
        reads(framed(template, name, inner), k),
    ensures
        reads(inner, k),
{
    let args = seq![lit(name), inner];
    lemma_filled_reads(template, 0, args, 0, k);
    lemma_lit_reads_nothing(name, k);
    let j = choose|j: int| 0 <= j < args.len() && reads(#[trigger] args[j], k);
    assert(j == 1);
}

/// A rendering reads only fields that take part: whatever a field holds that is
/// skipped, or that is not accessible and not force-included, the rendering does
/// not look at it. The rendering of a variant with a single payload reads that
/// payload alone, and that of a unit variant reads nothing.
pub proof fn rendering_reads_only_included_fields(decl: TypeDecl, axis: Axis, arm: int, k: nat)
    requires
        0 <= arm < arm_count(decl.shape),
        reads(formatter_arm(decl, axis, arm), k),
    ensures
        match decl.shape {
            TypeShape::Record { fields } => k < fields@.len() && field_shown(
                fields@[k as int],
                false,
                axis,
            ),
            TypeShape::RecordTuple { fields } => k < fields@.len() && field_shown(
                fields@[k as int],
                false,
                axis,
            ),
            TypeShape::Union { variants } => variant_shown(variants@[arm], axis)
                && match variants@[arm].fields {
                VariantFields::Named(fields) => k < fields@.len() && field_shown(
                    fields@[k as int],
                    true,
                    axis,
                ),
                VariantFields::Tuple(_) => k == 0,
                VariantFields::Unit => false,
            },
            _ => false,
        },
{
    match decl.shape {
        TypeShape::Record { fields } => {
            lemma_framed_reads(
                chosen_literal(decl.annotations@, axis, "{}({})"@),
                decl.name@,
                body(fields@, false, axis),
                k,
            );
            lemma_body_reads(&fields, false, axis, k);
        },
        TypeShape::RecordTuple { fields } => {
            lemma_framed_reads(
                chosen_literal(decl.annotations@, axis, "{}({})"@),
                decl.name@,
                body(fields@, false, axis),
                k,
            );
            lemma_body_reads(&fields, false, axis, k);
        },
        TypeShape::RecordUnit => {
            lemma_framed_reads(
                chosen_literal(decl.annotations@, axis, "{}({})"@),
                decl.name@,
                body(Seq::<FieldSpec>::empty(), false, axis),
                k,
            );
            assert(shown(Seq::<FieldSpec>::empty(), false, axis) =~= Seq::<usize>::empty());
            assert(body(Seq::<FieldSpec>::empty(), false, axis) =~= Code::empty());
        },
        TypeShape::Union { variants } => {
            let v = variants@[arm];
            if !variant_shown(v, axis) {
                lemma_lit_reads_nothing("<variant skipped>"@, k);
            } else {
                lemma_framed_reads(
                    chosen_literal(decl.annotations@, axis, "{}.{}"@),
                    decl.name@,
                    variant_code(v, axis),
                    k,
                );
                let literal = variant_literal(v, axis);
                match v.fields {
                    VariantFields::Unit => {
                        let args = seq![lit(v.name@)];
                        lemma_filled_reads(literal, 0, args, 0, k);
                        lemma_lit_reads_nothing(v.name@, k);
                    },
                    VariantFields::Tuple(_) => {
                        if slot_count(literal) == 1 {
                            let args = seq![hole(0)];
                            lemma_filled_reads(literal, 0, args, 0, k);
                            lemma_hole_reads(0, k);
                        } else {
                            let args = seq![lit(v.name@), hole(0)];
                            lemma_filled_reads(literal, 0, args, 0, k);
                            lemma_lit_reads_nothing(v.name@, k);
                            let j = choose|j: int|
                                0 <= j < args.len() && reads(#[trigger] args[j], k);
                            assert(j == 1);
                            lemma_hole_reads(0, k);
                        }
                    },
                    VariantFields::Named(fields) => {
                        lemma_framed_reads(literal, v.name@, body(fields@, true, axis), k);
                        lemma_body_reads(&fields, true, axis, k);
                    },
                }
            }
        },
        TypeShape::Untagged => {},
    }
}

/// A variant that is skipped on an axis that goes by names has no attributes.
pub proof fn skipped_variant_lists_nothing(decl: TypeDecl, axis: Axis, arm: int)
    requires
        decl.shape matches TypeShape::Union { variants } && 0 <= arm < variants@.len() && (
        any_skips_axis(variants@[arm].annotations@, axis) || (any_skips_all(
            variants@[arm].annotations@,
        ) && !any_forces(variants@[arm].annotations@))),
    ensures
        arm_table(decl, axis, arm) == Seq::<(Seq<char>, usize)>::empty(),
{
}

/// A record without fields has no attributes, and where no literal is given for
/// the type it renders as its name followed by `()`.
pub proof fn unit_record_is_bare(decl: TypeDecl, axis: Axis, values: Seq<Seq<char>>)
    requires
        decl.shape is RecordUnit,
    ensures
        arm_table(decl, Axis::Directory, 0) == Seq::<(Seq<char>, usize)>::empty(),
        last_literal(decl.annotations@, axis, decl.annotations@.len() as int) is None ==> eval(
            formatter_arm(decl, axis, 0),
            values,
        ) == decl.name@ + "()"@,
{
    if last_literal(decl.annotations@, axis, decl.annotations@.len() as int) is None {
        let t = "{}({})"@;
        let name = lit(decl.name@);
        let args = seq![name, Code::empty()];
        reveal_strlit("{}({})");
        reveal_strlit("()");
        reveal_with_fuel(filled_from, 6);
        let code = filled(t, args);
        assert(code =~= name + lit("()"@)) by {
            assert(lit("()"@) =~= seq![Atom::Char('('), Atom::Char(')')]);
        }
        assert(shown(Seq::<FieldSpec>::empty(), false, axis) =~= Seq::<usize>::empty());
        lemma_eval_concat(name, lit("()"@), values);
        lemma_eval_lit(decl.name@, values);
        lemma_eval_lit("()"@, values);
    }
}

/// The names in the table of fields are the names of the fields that take part:
/// a name that none of these has matches no entry.
proof fn lemma_no_match(
    fields: &Vec<FieldSpec>,
    in_variant: bool,
    entries: Seq<crate::listing::Entry>,
    attr: Seq<char>,
)
    requires
        entry_views(entries) == table(fields@, shown(fields@, in_variant, Axis::Access)),
        forall|p: int|
            0 <= p < fields@.len() && field_shown(#[trigger] fields@[p], in_variant, Axis::Access)
                ==> label_of(fields@[p], p) != attr,
    ensures
        first_match(entry_names(entries), attr, entries.len() as int) is None,
{
    let names = entry_names(entries);
    let positions = shown(fields@, in_variant, Axis::Access);
    assert(fields.len() <= usize::MAX);
    lemma_shown_upto(fields@, in_variant, Axis::Access, fields@.len() as int);
    lemma_first_match(names, attr, names.len() as int);
    assert(entry_views(entries).len() == entries.len());
    if first_match(names, attr, names.len() as int) is Some {
        let j = first_match(names, attr, names.len() as int)->0;
        let p = positions[j] as int;
        assert(field_shown(fields@[p], in_variant, Axis::Access));
        assert(entry_views(entries)[j].0 == names[j]);
        assert(table(fields@, positions)[j].0 == label_of(fields@[p], p));
    }
}

/// Access to a record by a name that none of the fields that take part has finds
/// nothing, whether a field that is skipped has the name or no field at all: the
/// two cannot be told apart. What is reported is the type's name and the name that
/// was asked for.
pub proof fn skipped_attribute_is_absent(decl: TypeDecl, arms: Seq<Listing>, attr: Seq<char>)
    requires
        decl.shape matches TypeShape::Record { fields } && forall|p: int|
            0 <= p < fields@.len() && field_shown(#[trigger] fields@[p], false, Axis::Access)
                ==> label_of(fields@[p], p) != attr,
        lists(decl, Axis::Access, arms),
    ensures
        first_match(entry_names(arms[0].entries@), attr, arms[0].entries@.len() as int) is None,
        arms[0].owner@ == decl.name@,
{
    match decl.shape {
        TypeShape::Record { fields } => {
            lemma_no_match(&fields, false, arms[0].entries@, attr);
        },
        _ => {},
    }
}

/// Access to a value of a variant by a name that none of the variant's fields that
/// take part has finds nothing; so it is with every name if the variant is
/// skipped. What is reported is the type's name, a dot and the tag, and the name
/// that was asked for.
pub proof fn skipped_variant_attribute_is_absent(
    decl: TypeDecl,
    arms: Seq<Listing>,
    arm: int,
    attr: Seq<char>,
)
    requires
        decl.shape matches TypeShape::Union { variants } && 0 <= arm < variants@.len() && (
        variant_shown(variants@[arm], Axis::Access) ==> (variants@[arm].fields matches VariantFields::Named(
            fields,
        ) ==> forall|p: int|
            0 <= p < fields@.len() && field_shown(#[trigger] fields@[p], true, Axis::Access)
                ==> label_of(fields@[p], p) != attr)),
        lists(decl, Axis::Access, arms),
    ensures
        first_match(entry_names(arms[arm].entries@), attr, arms[arm].entries@.len() as int)
            is None,
        arms[arm].owner@ == decl.name@ + "."@ + decl.shape->variants@[arm].name@,
{
    let entries = arms[arm].entries@;
    assert(entry_views(entries).len() == entries.len());
    match decl.shape {
        TypeShape::Union { variants } => {
            let v = variants@[arm];
            match v.fields {
                VariantFields::Named(fields) => {
                    if variant_shown(v, Axis::Access) {
                        lemma_no_match(&fields, true, entries, attr);
                    }
                },
                _ => {},
            }
        },
        _ => {},
    }
}

/// The report of a missing attribute names the owner and the attribute:
/// `'Owner' has no attribute 'name'`.
pub proof fn missing_attribute_message(e: LookupError, text: String)
    requires
        call_ensures(LookupError::message, (&e,), text),
    ensures
        text@ == "'"@ + e.owner@ + "' has no attribute '"@ + e.attribute@ + "'"@,
{
}

} // verus!
