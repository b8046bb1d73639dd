//! The source record schema: the record's name, its shape, and its ordered
//! fields. The engine only reads a schema; it never changes one.

use vstd::prelude::*;

verus! {

/// One field of a source record. The type is an uninterpreted token
/// sequence rendered as text; the annotations are opaque and are copied
/// verbatim onto the generated fields that stem from this one.
#[derive(Debug, Clone, PartialEq, Eq)]
pub struct Field {
    pub name: String,
    pub ty: String,
    pub annotations: Vec<String>,
}

/// The shape of the source declaration. Only a named-field composite is
/// eligible for projection; the other shapes are rejected by validation.
#[derive(Debug, Clone, Copy, PartialEq, Eq, Structural)]
pub enum RecordShape {
    /// A composite with named fields.
    NamedFields,
    /// A composite whose fields are positional.
    PositionalFields,
    /// A declaration without any field list.
    FieldLess,
    /// A variant (sum) or union declaration.
    Variant,
}

/// The schema of one source record. When the shape is not
/// [`RecordShape::NamedFields`] the field list carries no meaning and
/// validation rejects the record before reading it.
#[derive(Debug, Clone, PartialEq, Eq)]
pub struct SourceRecord {
    pub name: String,
    pub shape: RecordShape,
    pub fields: Vec<Field>,
}

/// The mathematical shape of a [`Field`].
pub struct FieldModel {
    pub name: Seq<char>,
    pub ty: Seq<char>,
    pub annotations: Seq<Seq<char>>,
}

/// The mathematical shape of a [`SourceRecord`].
pub struct RecordModel {
    pub name: Seq<char>,
    pub shape: RecordShape,
    pub fields: Seq<FieldModel>,
}

impl View for Field {
    type V = FieldModel;

    open spec fn view(&self) -> FieldModel {
        FieldModel {
            name: self.name@,
            ty: self.ty@,
            annotations: self.annotations.deep_view(),
        }
    }
}

impl DeepView for Field {
    type V = FieldModel;

    open spec fn deep_view(&self) -> FieldModel {
        self.view()
    }
}

impl View for SourceRecord {
    type V = RecordModel;

    open spec fn view(&self) -> RecordModel {
        RecordModel { name: self.name@, shape: self.shape, fields: self.fields.deep_view() }
    }
}

impl DeepView for SourceRecord {
    type V = RecordModel;

    open spec fn deep_view(&self) -> RecordModel {
        self.view()
    }
}

/// Duplicates a list of annotation texts.
pub fn clone_strings(v: &Vec<String>) -> (r: Vec<String>)
    ensures
        r.deep_view() == v.deep_view(),
{
    let mut out: Vec<String> = Vec::new();
    let mut i: usize = 0;
    while i < v.len()
        invariant
            i <= v.len(),
            out.deep_view() == v.deep_view().take(i as int),
        decreases v.len() - i,
    {
        proof {
            assert(v.deep_view()[i as int] == v@[i as int].deep_view());
        }
        let ghost out0 = out.deep_view();
        out.push(v[i].clone());
        proof {
            assert(out.deep_view() =~= out0.push(v.deep_view()[i as int]));
            assert(v.deep_view().take(i as int + 1) =~= out0.push(v.deep_view()[i as int]));
        }
        i = i + 1;
    }
    proof {
        assert(v.deep_view().take(i as int) =~= v.deep_view());
    }
    out
}

/// Duplicates one field description.
pub fn clone_field(f: &Field) -> (r: Field)
    ensures
        r@ == f@,
{
    Field { name: f.name.clone(), ty: f.ty.clone(), annotations: clone_strings(&f.annotations) }
}

/// The names of a field sequence, in declaration order.
pub open spec fn field_names(fields: Seq<FieldModel>) -> Seq<Seq<char>> {
    fields.map_values(|f: FieldModel| f.name)
}

/// A well-formed record has a non-empty name and non-empty field names,
/// each unique within the record.
pub open spec fn record_wf(r: RecordModel) -> bool {
    &&& r.name.len() > 0
    &&& forall|i: int| 0 <= i < r.fields.len() ==> (#[trigger] r.fields[i]).name.len() > 0
    &&& forall|i: int, j: int|
        0 <= i < j < r.fields.len() ==> (#[trigger] r.fields[i]).name != (
        #[trigger] r.fields[j]).name
}

} // verus!
