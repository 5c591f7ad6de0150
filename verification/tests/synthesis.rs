use pyo3_special_method_derive::annotation::{Annotation, Argument};
use pyo3_special_method_derive::axis::Axis;
use pyo3_special_method_derive::derive::{
    auto_debug, auto_debug_only, auto_display, auto_display_only, dict_derive, dir_derive,
    getattr_derive, repr_derive, str_derive, Surface,
};
use pyo3_special_method_derive::error::{ConfigError, Fault, Site};
use pyo3_special_method_derive::format::{generate_fmt_impl_for_enum, generate_fmt_impl_for_struct, impl_formatter};
use pyo3_special_method_derive::program::{Piece, Program};
use pyo3_special_method_derive::shape::{FieldSpec, TypeDecl, TypeShape, VariantFields, VariantSpec};
use pyo3_special_method_derive::template::splice;

fn skip(axes: &[&str]) -> Annotation {
    Annotation::list("skip", axes.iter().map(|a| Argument::key(a)).collect())
}

fn fmt(literal: &str) -> Annotation {
    Annotation::list("format", vec![Argument::text("fmt", literal)])
}

fn record(name: &str, annotations: Vec<Annotation>, fields: Vec<FieldSpec>) -> TypeDecl {
    TypeDecl { name: name.to_string(), annotations, shape: TypeShape::Record { fields } }
}

fn union(name: &str, annotations: Vec<Annotation>, variants: Vec<VariantSpec>) -> TypeDecl {
    TypeDecl { name: name.to_string(), annotations, shape: TypeShape::Union { variants } }
}

fn variant(name: &str, annotations: Vec<Annotation>, fields: VariantFields) -> VariantSpec {
    VariantSpec { name: name.to_string(), annotations, fields }
}

fn strings(values: &[&str]) -> Vec<String> {
    values.iter().map(|v| v.to_string()).collect()
}

fn display(decl: &TypeDecl, arm: usize, values: &[&str]) -> String {
    str_derive(decl).unwrap().render(arm, &strings(values))
}

fn debug(decl: &TypeDecl, arm: usize, values: &[&str]) -> String {
    repr_derive(decl).unwrap().render(arm, &strings(values))
}

/// `struct WithFields { pub dora: u32, pub my: String, #[skip(Repr)] pub name: f32 }`
fn with_fields() -> TypeDecl {
    record(
        "WithFields",
        vec![],
        vec![
            FieldSpec::named("dora", true, vec![]),
            FieldSpec::named("my", true, vec![]),
            FieldSpec::named("name", true, vec![skip(&["Repr"])]),
        ],
    )
}

#[test]
fn record_with_a_field_skipped_for_debug_only() {
    let values = ["299792458", "\"Hello world\"", "3.1415927"];
    assert_eq!(debug(&with_fields(), 0, &values), "WithFields(dora=299792458, my=\"Hello world\")");
    assert_eq!(
        display(&with_fields(), 0, &values),
        "WithFields(dora=299792458, my=\"Hello world\", name=3.1415927)"
    );
}

#[test]
fn unit_record_is_its_name_and_empty_parentheses() {
    let decl = TypeDecl { name: "Region".to_string(), annotations: vec![], shape: TypeShape::RecordUnit };
    assert_eq!(display(&decl, 0, &[]), "Region()");
    assert_eq!(debug(&decl, 0, &[]), "Region()");
    assert!(dir_derive(&decl).unwrap().dir(0).is_empty());
    assert!(dict_derive(&decl).unwrap().dict(0).is_empty());
    let missing = getattr_derive(&decl).unwrap().getattr(0, "x").unwrap_err();
    assert_eq!(missing.message(), "'Region' has no attribute 'x'");
}

#[test]
fn record_without_included_fields_has_an_empty_body() {
    let decl = record("Hidden", vec![], vec![FieldSpec::named("a", false, vec![])]);
    assert_eq!(display(&decl, 0, &["1"]), "Hidden()");
}

#[test]
fn type_template_with_fewer_slots() {
    let fields = || vec![FieldSpec::named("x", true, vec![])];
    assert_eq!(display(&record("Data", vec![fmt("fixed")], fields()), 0, &["5"]), "fixed");
    assert_eq!(display(&record("Data", vec![fmt("<{}>")], fields()), 0, &["5"]), "<Data>");
    assert_eq!(display(&record("Data", vec![fmt("{}[{}]")], fields()), 0, &["5"]), "Data[x=5]");
    assert_eq!(display(&record("Data", vec![fmt("")], fields()), 0, &["5"]), "");
}

#[test]
fn escaped_braces_render_as_braces() {
    let decl = record("Data", vec![fmt("{{{}}}: {{}} {}")], vec![FieldSpec::named("x", true, vec![fmt("{{{}}}")])]);
    assert_eq!(display(&decl, 0, &["5"]), "{Data}: {} x={5}");
}

#[test]
fn field_literal_by_slot_count() {
    let decl = record(
        "Data",
        vec![],
        vec![
            FieldSpec::named("a", true, vec![fmt("label")]),
            FieldSpec::named("b", true, vec![fmt("[{}]")]),
            FieldSpec::named("c", true, vec![fmt("{}: {}")]),
            FieldSpec::named("d", true, vec![]),
        ],
    );
    assert_eq!(display(&decl, 0, &["1", "2", "3", "4"]), "Data(label, b=[2], c: 3, d=4)");
}

#[test]
fn field_literals_fill_before_the_type_template() {
    let decl = TypeDecl {
        name: "Data".to_string(),
        annotations: vec![fmt("Struct: {}({})")],
        shape: TypeShape::RecordTuple {
            fields: vec![
                FieldSpec::positional(true, vec![fmt("{}")]),
                FieldSpec::positional(true, vec![fmt("[{}]")]),
            ],
        },
    };
    assert_eq!(display(&decl, 0, &["5", "1.23"]), "Struct: Data(0=5, 1=[1.23])");
}

#[test]
fn positional_fields_are_labelled_by_their_declared_position() {
    let fields = (0..12)
        .map(|i| FieldSpec::positional(i == 0 || i == 11, vec![]))
        .collect();
    let decl = TypeDecl {
        name: "Wide".to_string(),
        annotations: vec![],
        shape: TypeShape::RecordTuple { fields },
    };
    let values: Vec<String> = (0..12).map(|i| format!("v{i}")).collect();
    assert_eq!(str_derive(&decl).unwrap().render(0, &values), "Wide(0=v0, 11=v11)");
}

#[test]
fn private_field_is_shown_when_forced() {
    let decl = record(
        "Person",
        vec![],
        vec![
            FieldSpec::named("name", true, vec![]),
            FieldSpec::named("age", false, vec![Annotation::bare("pyo3_fmt_no_skip")]),
            FieldSpec::named("hash", false, vec![Annotation::bare("format")]),
            FieldSpec::named("address", false, vec![]),
        ],
    );
    assert_eq!(display(&decl, 0, &["\"Ann\"", "7", "9", "x"]), "Person(name=\"Ann\", age=7, hash=9)");
    assert_eq!(dir_derive(&decl).unwrap().dir(0), strings(&["name", "age", "hash"]));
    assert_eq!(getattr_derive(&decl).unwrap().getattr(0, "age").unwrap(), 1);
    assert_eq!(getattr_derive(&decl).unwrap().getattr(0, "hash").unwrap(), 2);
    assert!(getattr_derive(&decl).unwrap().getattr(0, "address").is_err());
    let pairs = dict_derive(&decl).unwrap().dict(0);
    assert_eq!(
        pairs,
        vec![("name".to_string(), 0), ("age".to_string(), 1), ("hash".to_string(), 2)]
    );
}

#[test]
fn bare_format_marker_forces_a_private_field_into_the_listing() {
    let decl = record(
        "Data",
        vec![],
        vec![
            FieldSpec::named("a", false, vec![Annotation::bare("format")]),
            FieldSpec::named("b", false, vec![Annotation::bare("format"), skip(&["Dir"])]),
            FieldSpec::named("c", false, vec![skip(&["All"]), Annotation::bare("format")]),
            FieldSpec::named("d", false, vec![fmt("[{}]")]),
        ],
    );
    assert_eq!(dir_derive(&decl).unwrap().dir(0), strings(&["a", "c"]));
    assert_eq!(
        dict_derive(&decl).unwrap().dict(0),
        vec![("a".to_string(), 0), ("b".to_string(), 1), ("c".to_string(), 2)]
    );
    assert_eq!(getattr_derive(&decl).unwrap().getattr(0, "b").unwrap(), 1);
    assert!(getattr_derive(&decl).unwrap().getattr(0, "d").is_err());
    assert_eq!(display(&decl, 0, &["1", "2", "3", "4"]), "Data(a=1, b=2, c=3)");
}

#[test]
fn directory_keeps_the_order_of_declaration() {
    let decl = record(
        "Data",
        vec![],
        vec![
            FieldSpec::named("zeta", true, vec![]),
            FieldSpec::named("hidden", false, vec![]),
            FieldSpec::named("alpha", true, vec![]),
            FieldSpec::named("all", true, vec![skip(&["All"])]),
            FieldSpec::named("dir", true, vec![skip(&["Str", "Dir"])]),
            FieldSpec::named("mid", true, vec![skip(&["Getattr", "Dict", "Str", "Repr"])]),
        ],
    );
    assert_eq!(dir_derive(&decl).unwrap().dir(0), strings(&["zeta", "alpha", "mid"]));
    let pairs = dict_derive(&decl).unwrap().dict(0);
    assert_eq!(pairs, vec![("zeta".to_string(), 0), ("alpha".to_string(), 2), ("dir".to_string(), 4)]);
}

#[test]
fn skipped_field_is_reported_like_a_missing_one() {
    let decl = record(
        "Person",
        vec![],
        vec![
            FieldSpec::named("name", true, vec![]),
            FieldSpec::named("secret", true, vec![skip(&["Getattr"])]),
            FieldSpec::named("private", false, vec![]),
        ],
    );
    let plan = getattr_derive(&decl).unwrap();
    assert_eq!(plan.getattr(0, "name").unwrap(), 0);
    for attr in ["secret", "private", "nothing"] {
        let missing = plan.getattr(0, attr).unwrap_err();
        assert_eq!(missing.owner, "Person");
        assert_eq!(missing.attribute, attr);
        assert_eq!(missing.message(), format!("'Person' has no attribute '{attr}'"));
    }
}

#[test]
fn skipped_variant_renders_the_same_whatever_it_holds() {
    let decl = union(
        "Tester",
        vec![fmt("Enum: {}.{}")],
        vec![variant(
            "Gamma",
            vec![skip(&["Repr"]), fmt("{}{}{}{}")],
            VariantFields::Named(vec![
                FieldSpec::named("x", false, vec![Annotation::list("format", vec![])]),
                FieldSpec::named("y", false, vec![]),
            ]),
        )],
    );
    let plan = repr_derive(&decl).unwrap();
    for values in [vec![], strings(&["1", "2"]), strings(&["other", "values", "more"])] {
        assert_eq!(plan.render(0, &values), "<variant skipped>");
    }
    assert!(plan.arms[0].pieces.iter().all(|p| matches!(p, Piece::Text(_))));
    assert!(dir_derive(&decl).unwrap().dir(0) == strings(&["x", "y"]));
    // On the axis on which the variant takes part its faults count.
    let fault = str_derive(&decl).unwrap_err();
    assert_eq!(fault, ConfigError { fault: Fault::TooManySlots { max: 2 }, site: Site::Variant(0) });
}

#[test]
fn variant_with_a_single_payload() {
    let wrapper = |annotations: Vec<Annotation>| {
        union(
            "MyObjectWrapper",
            vec![],
            vec![
                variant("Country", vec![], VariantFields::Tuple(1)),
                variant("City", annotations, VariantFields::Tuple(1)),
            ],
        )
    };
    assert_eq!(display(&wrapper(vec![]), 1, &["Paris"]), "MyObjectWrapper.City(Paris)");
    assert_eq!(display(&wrapper(vec![fmt("<{}>")]), 1, &["Paris"]), "MyObjectWrapper.<Paris>");
    assert_eq!(display(&wrapper(vec![fmt("{} of {}")]), 1, &["Paris"]), "MyObjectWrapper.City of Paris");
    assert_eq!(display(&wrapper(vec![fmt("a city")]), 1, &["Paris"]), "MyObjectWrapper.a city");
    assert_eq!(display(&wrapper(vec![skip(&["Str"])]), 1, &["Paris"]), "<variant skipped>");
    assert_eq!(display(&wrapper(vec![skip(&["Str"])]), 0, &["France"]), "MyObjectWrapper.Country(France)");
    assert!(dir_derive(&wrapper(vec![])).unwrap().dir(1).is_empty());
    let missing = getattr_derive(&wrapper(vec![])).unwrap().getattr(1, "0").unwrap_err();
    assert_eq!(missing.message(), "'MyObjectWrapper.City' has no attribute '0'");
}

#[test]
fn unit_variant_literal() {
    let city = |annotations: Vec<Annotation>, variant_annotations: Vec<Annotation>| {
        union(
            "CityName",
            annotations,
            vec![
                variant("Paris", vec![], VariantFields::Unit),
                variant("NewYork", variant_annotations, VariantFields::Unit),
            ],
        )
    };
    assert_eq!(display(&city(vec![], vec![]), 1, &[]), "CityName.NewYork");
    assert_eq!(display(&city(vec![fmt("{}")], vec![]), 1, &[]), "CityName");
    assert_eq!(
        display(&city(vec![fmt("{}: {}")], vec![fmt("NYC the best city in the world")]), 1, &[]),
        "CityName: NYC the best city in the world"
    );
    assert_eq!(display(&city(vec![], vec![fmt("<{}>")]), 1, &[]), "CityName.<NewYork>");
    assert_eq!(display(&city(vec![], vec![fmt("<{}>")]), 0, &[]), "CityName.Paris");
}

#[test]
fn named_variant_fields_are_included_whatever_their_accessibility() {
    let decl = union(
        "Tester",
        vec![],
        vec![variant(
            "Beta",
            vec![],
            VariantFields::Named(vec![
                FieldSpec::named("x", false, vec![]),
                FieldSpec::named("y", false, vec![skip(&["Str"])]),
                FieldSpec::named("z", true, vec![fmt("<{}>")]),
            ]),
        )],
    );
    assert_eq!(display(&decl, 0, &["1", "2", "3"]), "Tester.Beta(x=1, z=<3>)");
    assert_eq!(debug(&decl, 0, &["1", "2", "3"]), "Tester.Beta(x=1, y=2, z=<3>)");
}

#[test]
fn too_many_slots() {
    let two = Fault::TooManySlots { max: 2 };
    let decl = record("Data", vec![fmt("{}{}{}")], vec![]);
    assert_eq!(str_derive(&decl).unwrap_err(), ConfigError { fault: two, site: Site::Type });
    let decl = record("Data", vec![], vec![FieldSpec::named("a", true, vec![]), FieldSpec::named("x", true, vec![fmt("{}{}{}")])]);
    assert_eq!(repr_derive(&decl).unwrap_err(), ConfigError { fault: two, site: Site::Field(1) });
    let decl = union("Data", vec![fmt("{}.{}({})")], vec![]);
    assert_eq!(str_derive(&decl).unwrap_err(), ConfigError { fault: two, site: Site::Type });
    let decl = union(
        "Data",
        vec![],
        vec![variant("A", vec![], VariantFields::Unit), variant("B", vec![fmt("{}{}")], VariantFields::Unit)],
    );
    assert_eq!(
        str_derive(&decl).unwrap_err(),
        ConfigError { fault: Fault::TooManySlots { max: 1 }, site: Site::Variant(1) }
    );
    let decl = union("Data", vec![], vec![variant("B", vec![fmt("{}{}{}")], VariantFields::Tuple(1))]);
    assert_eq!(str_derive(&decl).unwrap_err(), ConfigError { fault: two, site: Site::Variant(0) });
    let decl = union(
        "Data",
        vec![],
        vec![
            variant("A", vec![], VariantFields::Unit),
            variant(
                "B",
                vec![],
                VariantFields::Named(vec![
                    FieldSpec::named("x", false, vec![]),
                    FieldSpec::named("y", false, vec![fmt("{}{}{}")]),
                ]),
            ),
        ],
    );
    assert_eq!(str_derive(&decl).unwrap_err(), ConfigError { fault: two, site: Site::VariantField(1, 1) });
    assert_eq!(
        str_derive(&decl).unwrap_err().message(),
        "too many `{}` in the format literal, the most allowed is 2"
    );
}

#[test]
fn faulty_annotations() {
    let bad = || Annotation::list("format", vec![Argument::other("fmt")]);
    let odd = || Annotation::list("format", vec![Argument::key("other")]);
    let decl = record("Data", vec![bad()], vec![FieldSpec::named("x", true, vec![odd()])]);
    assert_eq!(
        str_derive(&decl).unwrap_err(),
        ConfigError { fault: Fault::LiteralNotString, site: Site::Type }
    );
    let decl = record("Data", vec![], vec![FieldSpec::named("x", false, vec![odd()])]);
    assert_eq!(
        str_derive(&decl).unwrap_err(),
        ConfigError { fault: Fault::MalformedAnnotation, site: Site::Field(0) }
    );
    let decl = union("Data", vec![], vec![variant("A", vec![bad()], VariantFields::Unit)]);
    assert_eq!(
        repr_derive(&decl).unwrap_err(),
        ConfigError { fault: Fault::LiteralNotString, site: Site::Variant(0) }
    );
    // The three behaviours that go by names do not read format markers.
    let decl = record("Data", vec![bad()], vec![FieldSpec::named("x", true, vec![odd()])]);
    assert_eq!(dir_derive(&decl).unwrap().dir(0), strings(&["x"]));
    assert_eq!(getattr_derive(&decl).unwrap().getattr(0, "x").unwrap(), 0);
    assert_eq!(dict_derive(&decl).unwrap().dict(0).len(), 1);
    assert_eq!(
        str_derive(&decl).unwrap_err().message(),
        "the value of `fmt` should be a string literal"
    );
}

#[test]
fn variants_with_several_payloads_are_refused() {
    for count in [0, 2, 3] {
        let decl = union(
            "Data",
            vec![],
            vec![
                variant("A", vec![], VariantFields::Tuple(1)),
                variant("B", vec![skip(&["All"])], VariantFields::Tuple(count)),
                variant("C", vec![], VariantFields::Tuple(5)),
            ],
        );
        let fault = ConfigError { fault: Fault::PayloadCount, site: Site::Variant(1) };
        assert_eq!(str_derive(&decl).unwrap_err(), fault);
        assert_eq!(repr_derive(&decl).unwrap_err(), fault);
        assert_eq!(dir_derive(&decl).unwrap_err(), fault);
        assert_eq!(getattr_derive(&decl).unwrap_err(), fault);
        assert_eq!(dict_derive(&decl).unwrap_err(), fault);
        assert_eq!(fault.message(), "a variant with unnamed fields must have exactly one of them");
    }
    // A fault among the annotations of the variant comes first on a formatting axis.
    let decl = union(
        "Data",
        vec![],
        vec![variant("B", vec![Annotation::list("format", vec![])], VariantFields::Tuple(2))],
    );
    assert_eq!(
        str_derive(&decl).unwrap_err(),
        ConfigError { fault: Fault::MalformedAnnotation, site: Site::Variant(0) }
    );
}

#[test]
fn untagged_unions_are_refused() {
    let decl = TypeDecl { name: "U".to_string(), annotations: vec![], shape: TypeShape::Untagged };
    let fault = ConfigError { fault: Fault::UnionUnsupported, site: Site::Type };
    assert_eq!(str_derive(&decl).unwrap_err(), fault);
    assert_eq!(repr_derive(&decl).unwrap_err(), fault);
    assert_eq!(dir_derive(&decl).unwrap_err(), fault);
    assert_eq!(getattr_derive(&decl).unwrap_err(), fault);
    assert_eq!(dict_derive(&decl).unwrap_err(), fault);
    assert_eq!(fault.message(), "untagged unions are not supported");
}

#[test]
fn records_without_names_are_refused_where_names_are_needed() {
    let decl = TypeDecl {
        name: "Point".to_string(),
        annotations: vec![],
        shape: TypeShape::RecordTuple { fields: vec![FieldSpec::positional(true, vec![])] },
    };
    let fault = ConfigError { fault: Fault::UnnamedFields, site: Site::Type };
    assert_eq!(dir_derive(&decl).unwrap_err(), fault);
    assert_eq!(getattr_derive(&decl).unwrap_err(), fault);
    assert_eq!(dict_derive(&decl).unwrap_err(), fault);
    assert_eq!(str_derive(&decl).unwrap().render(0, &strings(&["1"])), "Point(0=1)");
    assert_eq!(fault.message(), "records whose fields have no names are not supported");
}

#[test]
fn the_six_renderers_differ_in_axis_and_surface() {
    let decl = with_fields();
    let all = [
        (str_derive(&decl).unwrap(), Axis::Display, Surface::Method),
        (auto_display_only(&decl).unwrap(), Axis::Display, Surface::Capability),
        (auto_display(&decl).unwrap(), Axis::Display, Surface::Standard),
        (repr_derive(&decl).unwrap(), Axis::Debug, Surface::Method),
        (auto_debug_only(&decl).unwrap(), Axis::Debug, Surface::Capability),
        (auto_debug(&decl).unwrap(), Axis::Debug, Surface::Standard),
    ];
    for (plan, axis, surface) in all {
        assert_eq!(plan.axis, axis);
        assert_eq!(plan.surface, surface);
        assert_eq!(plan.arms.len(), 1);
        let expected = if axis == Axis::Display { "WithFields(dora=1, my=2, name=3)" } else { "WithFields(dora=1, my=2)" };
        assert_eq!(plan.render(0, &strings(&["1", "2", "3"])), expected);
    }
}

#[test]
fn formatter_functions_agree() {
    let decl = with_fields();
    let arms = impl_formatter(&decl, Axis::Debug).unwrap();
    assert_eq!(arms.len(), 1);
    assert_eq!(arms[0].run(&strings(&["1", "2", "3"])), "WithFields(dora=1, my=2)");
    let fields = vec![FieldSpec::named("x", true, vec![])];
    let program = generate_fmt_impl_for_struct("T", &vec![], &fields, Axis::Display).unwrap();
    assert_eq!(program.run(&strings(&["5"])), "T(x=5)");
    let variants = vec![variant("A", vec![], VariantFields::Unit), variant("B", vec![], VariantFields::Tuple(1))];
    let arms = generate_fmt_impl_for_enum("E", &vec![], &variants, Axis::Display).unwrap();
    assert_eq!(arms.len(), 2);
    assert_eq!(arms[0].run(&vec![]), "E.A");
    assert_eq!(arms[1].run(&strings(&["7"])), "E.B(7)");
}

#[test]
fn program_without_a_value_renders_nothing_for_it() {
    let mut program = Program::new();
    program.push_text("a=");
    program.push_value(3);
    program.push_text(";");
    assert_eq!(program.run(&strings(&["0", "1", "2", "3"])), "a=3;");
    assert_eq!(program.run(&strings(&["0"])), "a=;");
    let mut twice = Program::new();
    twice.push_program(&program);
    twice.push_program(&program);
    assert_eq!(twice.run(&strings(&["0", "1", "2", "3"])), "a=3;a=3;");
}

#[test]
fn splice_fills_slots_in_order() {
    let mut first = Program::new();
    first.push_text("one");
    let mut second = Program::new();
    second.push_value(0);
    let filled = splice("{}-{}-{}|{{}}", &vec![first, second]);
    assert_eq!(filled.run(&strings(&["two"])), "one-two-|{}");
}
