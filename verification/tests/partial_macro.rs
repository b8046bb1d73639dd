//! The behaviour a generated projection shows at runtime, exercised
//! through the engine's model semantics: splitting a record value into a
//! projection and a remainder, and rebuilding the full value.

use partial_struct::directive::{parse_directive, Directive};
use partial_struct::partition::{partition_fields, FieldClass};
use partial_struct::schema::{Field, RecordShape, SourceRecord};
use partial_struct::semantics::{
    from_full_with_remainder, into_projection_with_remainder, to_full, FieldValue,
};
use partial_struct::token::{Atom, Token};

fn field(name: &str, ty: &str) -> Field {
    Field { name: name.to_string(), ty: ty.to_string(), annotations: Vec::new() }
}

fn ident(name: &str) -> Token {
    Token::Atom(Atom::Ident(name.to_string()))
}

fn comma() -> Token {
    Token::Atom(Atom::Comma)
}

fn group(names: &[&str]) -> Token {
    let mut atoms = Vec::new();
    for (i, n) in names.iter().enumerate() {
        if i > 0 {
            atoms.push(Atom::Comma);
        }
        atoms.push(Atom::Ident(n.to_string()));
    }
    Token::Group(atoms)
}

fn user_record() -> SourceRecord {
    SourceRecord {
        name: "User".to_string(),
        shape: RecordShape::NamedFields,
        fields: vec![field("id", "u32"), field("name", "String"), field("email", "String")],
    }
}

/// The directive written as `derive(Debug, PartialEq), omit(id), optional(email)`.
fn user_directive() -> Directive {
    let tokens = vec![
        ident("derive"),
        group(&["Debug", "PartialEq"]),
        comma(),
        ident("omit"),
        group(&["id"]),
        comma(),
        ident("optional"),
        group(&["email"]),
    ];
    parse_directive(&tokens).unwrap()
}

fn user_classes() -> Vec<FieldClass> {
    partition_fields(&user_record(), &user_directive()).classes
}

#[test]
fn split_and_rebuild_with_optional() {
    let classes = user_classes();
    let full = vec![
        FieldValue::Int(7),
        FieldValue::Text("Ada".to_string()),
        FieldValue::Text("ada@example.com".to_string()),
    ];

    let (partial, omitted) = from_full_with_remainder(&classes, full.clone());
    assert_eq!(partial.included, vec![FieldValue::Text("Ada".to_string())]);
    assert_eq!(
        partial.optional,
        vec![Some(FieldValue::Text("ada@example.com".to_string()))]
    );
    assert_eq!(omitted, vec![FieldValue::Int(7)]);

    let rebuilt = to_full(&classes, partial, omitted, vec![None]);
    assert_eq!(rebuilt, full);
}

#[test]
fn full_into_partial_with_omitted() {
    let classes = user_classes();
    let full = vec![
        FieldValue::Int(11),
        FieldValue::Text("Lin".to_string()),
        FieldValue::Text("lin@example.com".to_string()),
    ];

    let (partial, omitted) = into_projection_with_remainder(full, &classes);
    assert_eq!(partial.included, vec![FieldValue::Text("Lin".to_string())]);
    assert_eq!(
        partial.optional,
        vec![Some(FieldValue::Text("lin@example.com".to_string()))]
    );
    assert_eq!(omitted, vec![FieldValue::Int(11)]);
}

fn point_record() -> SourceRecord {
    SourceRecord {
        name: "Point".to_string(),
        shape: RecordShape::NamedFields,
        fields: vec![field("x", "i32"), field("y", "i32")],
    }
}

/// The directive written as `derive(Debug, PartialEq)`.
fn point_directive() -> Directive {
    let tokens = vec![ident("derive"), group(&["Debug", "PartialEq"])];
    parse_directive(&tokens).unwrap()
}

#[test]
fn split_without_omitted_fields() {
    let classes = partition_fields(&point_record(), &point_directive()).classes;

    let full = vec![FieldValue::Int(1), FieldValue::Int(2)];
    let (partial, omitted) = from_full_with_remainder(&classes, full);
    assert_eq!(partial.included, vec![FieldValue::Int(1), FieldValue::Int(2)]);
    assert_eq!(omitted, Vec::new());

    let full = vec![FieldValue::Int(3), FieldValue::Int(4)];
    let (partial, omitted) = into_projection_with_remainder(full, &classes);
    assert_eq!(partial.included, vec![FieldValue::Int(3), FieldValue::Int(4)]);
    assert_eq!(omitted, Vec::new());
}

fn multi_omit_record() -> SourceRecord {
    SourceRecord {
        name: "MultiOmit".to_string(),
        shape: RecordShape::NamedFields,
        fields: vec![field("a", "u8"), field("b", "u8"), field("c", "u8"), field("d", "u8")],
    }
}

/// The directive written as `derive(Debug, PartialEq), omit(a, b), optional(c)`.
fn multi_omit_directive() -> Directive {
    let tokens = vec![
        ident("derive"),
        group(&["Debug", "PartialEq"]),
        comma(),
        ident("omit"),
        group(&["a", "b"]),
        comma(),
        ident("optional"),
        group(&["c"]),
    ];
    parse_directive(&tokens).unwrap()
}

#[test]
fn split_with_multiple_omitted_fields() {
    let classes = partition_fields(&multi_omit_record(), &multi_omit_directive()).classes;
    let full = vec![
        FieldValue::Int(1),
        FieldValue::Int(2),
        FieldValue::Int(3),
        FieldValue::Int(4),
    ];

    let (partial, omitted) = from_full_with_remainder(&classes, full);
    assert_eq!(partial.included, vec![FieldValue::Int(4)]);
    assert_eq!(partial.optional, vec![Some(FieldValue::Int(3))]);
    assert_eq!(omitted[0], FieldValue::Int(1));
    assert_eq!(omitted[1], FieldValue::Int(2));
}
