//! Concrete instances of the engine's laws: determinism of a pass,
//! independence of the directives on one record, and the reconstruction
//! policies for optional fields.

use partial_struct::directive::{parse_directive, Directive};
use partial_struct::partition::partition_fields;
use partial_struct::schema::{Field, RecordShape, SourceRecord};
use partial_struct::semantics::{
    from_full, from_full_with_remainder, split_then_rebuild, to_full, to_full_cloned, FieldValue,
    ProjectionValue,
};
use partial_struct::synth::generate;
use partial_struct::token::{Atom, Token};

fn field(name: &str, ty: &str) -> Field {
    Field { name: name.to_string(), ty: ty.to_string(), annotations: Vec::new() }
}

fn ident(name: &str) -> Token {
    Token::Atom(Atom::Ident(name.to_string()))
}

fn text(value: &str) -> Token {
    Token::Atom(Atom::Text(value.to_string()))
}

fn comma() -> Token {
    Token::Atom(Atom::Comma)
}

fn group(names: &[&str]) -> Token {
    let mut atoms = Vec::new();
    for (i, n) in names.iter().enumerate() {
        if i > 0 {
            atoms.push(Atom::Comma);
        }
        atoms.push(Atom::Ident(n.to_string()));
    }
    Token::Group(atoms)
}

fn xy_record() -> SourceRecord {
    SourceRecord {
        name: "Pair".to_string(),
        shape: RecordShape::NamedFields,
        fields: vec![field("x", "u32"), field("y", "u32")],
    }
}

#[test]
fn two_passes_agree() {
    let raws = vec![
        vec![text("A"), comma(), ident("omit"), group(&["x"])],
        vec![text("B"), comma(), ident("optional"), group(&["y"])],
    ];
    let first = generate(&xy_record(), &raws).unwrap();
    let second = generate(&xy_record(), &raws).unwrap();
    assert_eq!(first, second);
}

#[test]
fn two_directives_generate_independently() {
    let raw_a = vec![text("A"), comma(), ident("omit"), group(&["x"])];
    let raw_b = vec![text("B"), comma(), ident("omit"), group(&["y"])];
    let both = generate(&xy_record(), &vec![raw_a.clone(), raw_b.clone()]).unwrap();
    assert_eq!(both.len(), 2);

    let alone_a = generate(&xy_record(), &vec![raw_a]).unwrap();
    let alone_b = generate(&xy_record(), &vec![raw_b]).unwrap();
    assert_eq!(both[0], alone_a[0]);
    assert_eq!(both[1], alone_b[0]);

    // Each projection round-trips against its own omitted set.
    let full = vec![FieldValue::Int(5), FieldValue::Int(6)];
    for raw in [
        vec![text("A"), comma(), ident("omit"), group(&["x"])],
        vec![text("B"), comma(), ident("omit"), group(&["y"])],
    ] {
        let d = parse_directive(&raw).unwrap();
        let classes = partition_fields(&xy_record(), &d).classes;
        let (partial, omitted) = from_full_with_remainder(&classes, full.clone());
        let rebuilt = to_full(&classes, partial, omitted, Vec::new());
        assert_eq!(rebuilt, full);
    }

    // No cross-contamination: each remainder holds its own field only.
    assert_eq!(both[0].remainder.as_ref().unwrap().fields[0].name, "x");
    assert_eq!(both[1].remainder.as_ref().unwrap().fields[0].name, "y");
}

#[test]
fn own_optional_value_wins_over_supplied_fallback() {
    let d = parse_directive(&vec![ident("optional"), group(&["y"])]).unwrap();
    let classes = partition_fields(&xy_record(), &d).classes;
    let full = vec![FieldValue::Int(1), FieldValue::Int(2)];
    let (partial, omitted) = from_full_with_remainder(&classes, full.clone());
    assert_eq!(omitted, Vec::new());

    // The projection already resolved the optional field, so the
    // supplied fallback is ignored.
    let rebuilt = to_full(&classes, partial, omitted, vec![Some(FieldValue::Int(9))]);
    assert_eq!(rebuilt, full);
}

#[test]
fn supplied_fallback_fills_an_absent_optional_value() {
    let d = parse_directive(&vec![ident("optional"), group(&["y"])]).unwrap();
    let classes = partition_fields(&xy_record(), &d).classes;
    let partial = ProjectionValue { included: vec![FieldValue::Int(1)], optional: vec![None] };
    let rebuilt = to_full(&classes, partial, Vec::new(), vec![Some(FieldValue::Int(9))]);
    assert_eq!(rebuilt, vec![FieldValue::Int(1), FieldValue::Int(9)]);
}

#[test]
fn user_scenario_round_trip() {
    let rec = SourceRecord {
        name: "User".to_string(),
        shape: RecordShape::NamedFields,
        fields: vec![field("id", "u32"), field("name", "String"), field("email", "String")],
    };
    let d = parse_directive(&vec![
        ident("omit"),
        group(&["id"]),
        comma(),
        ident("optional"),
        group(&["email"]),
    ])
    .unwrap();
    let classes = partition_fields(&rec, &d).classes;

    let full = vec![
        FieldValue::Int(1),
        FieldValue::Text("Ada".to_string()),
        FieldValue::Text("a@x".to_string()),
    ];
    let (partial, omitted) = from_full_with_remainder(&classes, full.clone());
    assert_eq!(partial.included, vec![FieldValue::Text("Ada".to_string())]);
    assert_eq!(partial.optional, vec![Some(FieldValue::Text("a@x".to_string()))]);
    assert_eq!(omitted, vec![FieldValue::Int(1)]);

    // Rebuilding with the omitted value and no fallback restores the
    // record: the projection's own value takes priority over the
    // supplied `None`.
    let rebuilt = to_full(&classes, partial, vec![FieldValue::Int(1)], vec![None]);
    assert_eq!(rebuilt, full);
}

#[test]
fn default_projection_round_trips() {
    let rec = SourceRecord {
        name: "Point".to_string(),
        shape: RecordShape::NamedFields,
        fields: vec![field("x", "i32"), field("y", "i32")],
    };
    // No directive at all: the default projection carries both fields
    // and the remainder is the unit value.
    let d = Directive {
        target_name: None,
        capabilities: Vec::new(),
        omit: Vec::new(),
        optional: Vec::new(),
    };
    let classes = partition_fields(&rec, &d).classes;
    let full = vec![FieldValue::Int(1), FieldValue::Int(2)];
    let partial = from_full(&classes, full.clone());
    let rebuilt = to_full(&classes, partial, Vec::new(), Vec::new());
    assert_eq!(rebuilt, full);

    // The one-call round trip agrees.
    assert_eq!(split_then_rebuild(&classes, full.clone()), full);
}

#[test]
fn cloning_reconstruction_matches_and_keeps_the_projection() {
    let d = parse_directive(&vec![ident("omit"), group(&["x"])]).unwrap();
    let classes = partition_fields(&xy_record(), &d).classes;
    let full = vec![FieldValue::Int(3), FieldValue::Int(4)];
    let (partial, omitted) = from_full_with_remainder(&classes, full.clone());

    let cloned = to_full_cloned(&classes, &partial, omitted.clone(), Vec::new());
    assert_eq!(cloned, full);

    // The projection is still usable after the cloning reconstruction.
    let consumed = to_full(&classes, partial, omitted, Vec::new());
    assert_eq!(consumed, full);
}
