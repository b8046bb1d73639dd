//! Whole generation passes: the shapes of the generated descriptions,
//! the operation names, and every diagnostic.

use partial_struct::error::GenError;
use partial_struct::schema::{Field, RecordShape, SourceRecord};
use partial_struct::synth::generate;
use partial_struct::token::{Atom, Token};

fn field(name: &str, ty: &str) -> Field {
    Field { name: name.to_string(), ty: ty.to_string(), annotations: Vec::new() }
}

fn ident(name: &str) -> Token {
    Token::Atom(Atom::Ident(name.to_string()))
}

fn text(value: &str) -> Token {
    Token::Atom(Atom::Text(value.to_string()))
}

fn comma() -> Token {
    Token::Atom(Atom::Comma)
}

fn group(names: &[&str]) -> Token {
    let mut atoms = Vec::new();
    for (i, n) in names.iter().enumerate() {
        if i > 0 {
            atoms.push(Atom::Comma);
        }
        atoms.push(Atom::Ident(n.to_string()));
    }
    Token::Group(atoms)
}

fn user_record() -> SourceRecord {
    SourceRecord {
        name: "User".to_string(),
        shape: RecordShape::NamedFields,
        fields: vec![field("id", "u32"), field("name", "String"), field("email", "String")],
    }
}

fn field_names(fields: &[Field]) -> Vec<String> {
    fields.iter().map(|f| f.name.clone()).collect()
}

#[test]
fn user_projection_and_remainder_shape() {
    let rec = user_record();
    let raws = vec![vec![
        ident("omit"),
        group(&["id"]),
        comma(),
        ident("optional"),
        group(&["email"]),
    ]];
    let units = generate(&rec, &raws).unwrap();
    assert_eq!(units.len(), 1);
    let unit = &units[0];
    assert_eq!(unit.projection.name, "PartialUser");
    assert_eq!(field_names(&unit.projection.included), vec!["name".to_string()]);
    assert_eq!(field_names(&unit.projection.optional), vec!["email".to_string()]);
    let remainder = unit.remainder.as_ref().unwrap();
    assert_eq!(remainder.name, "PartialUserOmitted");
    assert_eq!(field_names(&remainder.fields), vec!["id".to_string()]);
}

#[test]
fn point_default_projection() {
    let rec = SourceRecord {
        name: "Point".to_string(),
        shape: RecordShape::NamedFields,
        fields: vec![field("x", "i32"), field("y", "i32")],
    };
    let units = generate(&rec, &Vec::new()).unwrap();
    assert_eq!(units.len(), 1);
    let unit = &units[0];
    assert_eq!(unit.projection.name, "PartialPoint");
    assert_eq!(
        field_names(&unit.projection.included),
        vec!["x".to_string(), "y".to_string()]
    );
    assert!(unit.projection.optional.is_empty());
    assert!(unit.projection.capabilities.is_empty());
    assert!(unit.remainder.is_none());
}

#[test]
fn operation_names_follow_snake_case() {
    let rec = SourceRecord {
        name: "MultiOmit".to_string(),
        shape: RecordShape::NamedFields,
        fields: vec![field("a", "u8"), field("b", "u8")],
    };
    let units = generate(&rec, &vec![vec![ident("omit"), group(&["a"])]]).unwrap();
    let ops = &units[0].operations;
    assert_eq!(ops.to_full, "to_multi_omit");
    assert_eq!(ops.to_full_cloned, "to_multi_omit_cloned");
    assert_eq!(ops.from_full, "from");
    assert_eq!(ops.split, "from_multi_omit_with_omitted");
    assert_eq!(ops.mirror_split, "into_partial_multi_omit_with_omitted");
}

#[test]
fn explicit_target_name_and_capabilities() {
    let rec = user_record();
    let raws = vec![vec![
        text("UserConstructor"),
        comma(),
        ident("derive"),
        group(&["Debug", "Clone"]),
        comma(),
        ident("omit"),
        group(&["id"]),
    ]];
    let units = generate(&rec, &raws).unwrap();
    let unit = &units[0];
    assert_eq!(unit.projection.name, "UserConstructor");
    assert_eq!(
        unit.projection.capabilities,
        vec!["Debug".to_string(), "Clone".to_string()]
    );
    assert_eq!(unit.operations.mirror_split, "into_user_constructor_with_omitted");
    assert_eq!(unit.remainder.as_ref().unwrap().name, "UserConstructorOmitted");
}

#[test]
fn conflicting_names_are_all_listed_sorted() {
    let rec = SourceRecord {
        name: "Pair".to_string(),
        shape: RecordShape::NamedFields,
        fields: vec![field("b", "u8"), field("a", "u8")],
    };
    let raws = vec![vec![
        ident("omit"),
        group(&["a", "b"]),
        comma(),
        ident("optional"),
        group(&["b", "a"]),
    ]];
    let err = generate(&rec, &raws).unwrap_err();
    match &err {
        GenError::ConflictingClassification { names } => {
            assert_eq!(names, &vec!["a".to_string(), "b".to_string()]);
        },
        other => panic!("unexpected diagnostic: {:?}", other),
    }
    assert_eq!(
        err.message(),
        "fields marked both omitted and optional: a, b"
    );
}

#[test]
fn unknown_field_is_reported() {
    let rec = user_record();
    let raws = vec![vec![ident("omit"), group(&["serial"])]];
    let err = generate(&rec, &raws).unwrap_err();
    assert_eq!(err, GenError::UnknownField { name: "serial".to_string() });
    assert_eq!(err.message(), "unknown field: serial");
}

#[test]
fn ineligible_shapes_are_rejected() {
    for shape in [RecordShape::PositionalFields, RecordShape::FieldLess, RecordShape::Variant] {
        let rec = SourceRecord {
            name: "Opaque".to_string(),
            shape,
            fields: Vec::new(),
        };
        let err = generate(&rec, &Vec::new()).unwrap_err();
        assert_eq!(err, GenError::UnsupportedShape);
    }
}

#[test]
fn second_target_literal_is_a_syntax_error() {
    let rec = user_record();
    let raws = vec![vec![text("First"), comma(), text("Second")]];
    let err = generate(&rec, &raws).unwrap_err();
    assert_eq!(err, GenError::DirectiveSyntax { directive: 0, token: 2 });
}

#[test]
fn unknown_keyword_is_a_syntax_error() {
    let rec = user_record();
    let raws = vec![vec![ident("exclude"), group(&["id"])]];
    let err = generate(&rec, &raws).unwrap_err();
    assert_eq!(err, GenError::DirectiveSyntax { directive: 0, token: 0 });
}

#[test]
fn malformed_list_is_a_syntax_error() {
    let rec = user_record();
    // The clause keyword is present, but no parenthesized list follows.
    let raws = vec![vec![ident("omit")]];
    let err = generate(&rec, &raws).unwrap_err();
    assert_eq!(err, GenError::DirectiveSyntax { directive: 0, token: 0 });

    // A string literal cannot stand in a name list.
    let bad = vec![vec![
        ident("omit"),
        Token::Group(vec![Atom::Text("id".to_string())]),
    ]];
    let err = generate(&rec, &bad).unwrap_err();
    assert_eq!(err, GenError::DirectiveSyntax { directive: 0, token: 0 });
}

#[test]
fn repeated_clause_is_a_syntax_error() {
    let rec = user_record();
    let raws = vec![vec![
        ident("omit"),
        group(&["id"]),
        comma(),
        ident("omit"),
        group(&["email"]),
    ]];
    let err = generate(&rec, &raws).unwrap_err();
    assert_eq!(err, GenError::DirectiveSyntax { directive: 0, token: 3 });
}

#[test]
fn commas_between_items_are_optional() {
    let rec = user_record();
    // The same directive, written without separating commas.
    let raws = vec![vec![
        text("Spare"),
        ident("omit"),
        group(&["id"]),
        ident("optional"),
        group(&["email"]),
    ]];
    let units = generate(&rec, &raws).unwrap();
    assert_eq!(units[0].projection.name, "Spare");
    assert_eq!(field_names(&units[0].projection.optional), vec!["email".to_string()]);
    assert_eq!(
        field_names(&units[0].remainder.as_ref().unwrap().fields),
        vec!["id".to_string()]
    );
}

#[test]
fn first_parse_error_wins_and_aborts_the_pass() {
    let rec = user_record();
    // The second directive is fine; the first one fails, and only its
    // diagnostic surfaces.
    let raws = vec![
        vec![ident("exclude"), group(&["id"])],
        vec![ident("omit"), group(&["id"])],
    ];
    let err = generate(&rec, &raws).unwrap_err();
    assert_eq!(err, GenError::DirectiveSyntax { directive: 0, token: 0 });

    // A later malformed directive carries its own index, and no partial
    // output is emitted for the earlier, well-formed one.
    let raws = vec![
        vec![ident("omit"), group(&["id"])],
        vec![comma()],
    ];
    let err = generate(&rec, &raws).unwrap_err();
    assert_eq!(err, GenError::DirectiveSyntax { directive: 1, token: 0 });
}
