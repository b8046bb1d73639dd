//! The field partitioner: under one directive, every field of the record
//! falls into exactly one class, and each class keeps the declaration
//! order of its fields. The class list itself is kept in declaration
//! order, so a reconstruction can put every field back in its place.

use vstd::prelude::*;

use crate::directive::{Directive, DirectiveModel};
use crate::names::contains_text;
use crate::schema::{clone_field, Field, FieldModel, SourceRecord};

verus! {

/// A field classification under one directive: every field of the source
/// record falls into exactly one of these classes.
#[derive(Debug, Clone, Copy, PartialEq, Eq, Structural)]
pub enum FieldClass {
    /// The field is carried by the projection with its type unchanged.
    Included,
    /// The field is carried by the projection behind a
    /// presence-indicating container.
    Optional,
    /// The field is left out of the projection and lands in the
    /// remainder.
    Omitted,
}

/// The class of a field name under one directive: omitted wins, then
/// optional, then included. The omit and optional sets of a validated
/// directive are disjoint, so the order of the first two tests is
/// immaterial there.
pub open spec fn spec_classify(d: DirectiveModel, name: Seq<char>) -> FieldClass {
    if d.omit.contains(name) {
        FieldClass::Omitted
    } else if d.optional.contains(name) {
        FieldClass::Optional
    } else {
        FieldClass::Included
    }
}

/// The classes of all fields, in declaration order.
pub open spec fn spec_classes(fields: Seq<FieldModel>, d: DirectiveModel) -> Seq<FieldClass> {
    fields.map_values(|f: FieldModel| spec_classify(d, f.name))
}

/// Holds on fields the projection includes verbatim.
pub open spec fn included_pred(d: DirectiveModel) -> spec_fn(FieldModel) -> bool {
    |f: FieldModel| spec_classify(d, f.name) is Included
}

/// Holds on fields the projection carries as optional.
pub open spec fn optional_pred(d: DirectiveModel) -> spec_fn(FieldModel) -> bool {
    |f: FieldModel| spec_classify(d, f.name) is Optional
}

/// Holds on fields the directive omits.
pub open spec fn omitted_pred(d: DirectiveModel) -> spec_fn(FieldModel) -> bool {
    |f: FieldModel| spec_classify(d, f.name) is Omitted
}

/// The included fields, in declaration order.
pub open spec fn spec_included_fields(fields: Seq<FieldModel>, d: DirectiveModel) -> Seq<
    FieldModel,
> {
    fields.filter(included_pred(d))
}

/// The optional fields, in declaration order.
pub open spec fn spec_optional_fields(fields: Seq<FieldModel>, d: DirectiveModel) -> Seq<
    FieldModel,
> {
    fields.filter(optional_pred(d))
}

/// The omitted fields, in declaration order.
pub open spec fn spec_omitted_fields(fields: Seq<FieldModel>, d: DirectiveModel) -> Seq<
    FieldModel,
> {
    fields.filter(omitted_pred(d))
}

/// One record's fields split under one directive: the class of every
/// field in declaration order, and the three class lists, each in
/// declaration order.
#[derive(Debug, Clone, PartialEq, Eq)]
pub struct Partition {
    pub classes: Vec<FieldClass>,
    pub included: Vec<Field>,
    pub optional: Vec<Field>,
    pub omitted: Vec<Field>,
}

/// Under a directive with empty omit and optional sets — the default
/// directive among them — every field is included.
pub proof fn lemma_empty_directive_all_included(fields: Seq<FieldModel>, d: DirectiveModel)
    requires
        d.omit.len() == 0,
        d.optional.len() == 0,
    ensures
        spec_classes(fields, d).len() == fields.len(),
        forall|k: int|
            0 <= k < fields.len() ==> (#[trigger] spec_classes(fields, d)[k]) is Included,
{
    assert forall|k: int| 0 <= k < fields.len() implies (#[trigger] spec_classes(fields, d)[k])
        is Included by {
        assert(spec_classes(fields, d)[k] == spec_classify(d, fields[k].name));
        assert(!d.omit.contains(fields[k].name));
        assert(!d.optional.contains(fields[k].name));
    }
}

/// The class of one field name under the directive.
pub fn classify_field(d: &Directive, name: &String) -> (c: FieldClass)
    ensures
        c == spec_classify(d@, name@),
{
    if contains_text(&d.omit, name) {
        FieldClass::Omitted
    } else if contains_text(&d.optional, name) {
        FieldClass::Optional
    } else {
        FieldClass::Included
    }
}

/// Splits the record's fields under one directive.
pub fn partition_fields(rec: &SourceRecord, d: &Directive) -> (r: Partition)
    ensures
        r.classes@ == spec_classes(rec@.fields, d@),
        r.included.deep_view() == spec_included_fields(rec@.fields, d@),
        r.optional.deep_view() == spec_optional_fields(rec@.fields, d@),
        r.omitted.deep_view() == spec_omitted_fields(rec@.fields, d@),
{
    let ghost fv = rec@.fields;
    let ghost dv = d@;
    let mut classes: Vec<FieldClass> = Vec::new();
    let mut included: Vec<Field> = Vec::new();
    let mut optional: Vec<Field> = Vec::new();
    let mut omitted: Vec<Field> = Vec::new();
    let mut i: usize = 0;
    proof {
        reveal(Seq::filter);
        assert(fv.take(0) =~= Seq::<FieldModel>::empty());
        assert(included.deep_view() =~= fv.take(0).filter(included_pred(dv)));
        assert(optional.deep_view() =~= fv.take(0).filter(optional_pred(dv)));
        assert(omitted.deep_view() =~= fv.take(0).filter(omitted_pred(dv)));
    }
    while i < rec.fields.len()
        invariant
            i <= rec.fields.len(),
            fv == rec@.fields,
            dv == d@,
            fv.len() == rec.fields.len(),
            classes@.len() == i,
            forall|k: int| 0 <= k < i ==> classes@[k] == spec_classify(dv, fv[k].name),
            included.deep_view() == fv.take(i as int).filter(included_pred(dv)),
            optional.deep_view() == fv.take(i as int).filter(optional_pred(dv)),
            omitted.deep_view() == fv.take(i as int).filter(omitted_pred(dv)),
        decreases rec.fields.len() - i,
    {
        proof {
            assert(fv[i as int] == rec.fields@[i as int].deep_view());
        }
        let field = &rec.fields[i];
        let c = classify_field(d, &field.name);
        classes.push(c);
        proof {
            reveal(Seq::filter);
            assert(fv.take(i as int + 1).drop_last() =~= fv.take(i as int));
            assert(fv.take(i as int + 1).last() == fv[i as int]);
            assert(included_pred(dv)(fv[i as int]) == (spec_classify(dv, fv[i as int].name)
                is Included));
            assert(optional_pred(dv)(fv[i as int]) == (spec_classify(dv, fv[i as int].name)
                is Optional));
            assert(omitted_pred(dv)(fv[i as int]) == (spec_classify(dv, fv[i as int].name)
                is Omitted));
        }
        match c {
            FieldClass::Included => {
                let ghost before = included.deep_view();
                included.push(clone_field(field));
                proof {
                    assert(included.deep_view() =~= before.push(fv[i as int]));
                }
            },
            FieldClass::Optional => {
                let ghost before = optional.deep_view();
                optional.push(clone_field(field));
                proof {
                    assert(optional.deep_view() =~= before.push(fv[i as int]));
                }
            },
            FieldClass::Omitted => {
                let ghost before = omitted.deep_view();
                omitted.push(clone_field(field));
                proof {
                    assert(omitted.deep_view() =~= before.push(fv[i as int]));
                }
            },
        }
        i = i + 1;
    }
    proof {
        assert(fv.take(i as int) =~= fv);
        assert(classes@ =~= spec_classes(fv, dv));
    }
    Partition { classes, included, optional, omitted }
}

} // verus!
