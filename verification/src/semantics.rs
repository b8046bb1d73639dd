//! The runtime meaning of the generated conversions, over model record
//! values.
//!
//! The engine only emits descriptions; this module states what the five
//! generated operations do to the values of a record, and proves the
//! round-trip laws that the generated code is meant to satisfy: splitting
//! a record and rebuilding it restores every field, in the record's
//! declaration order, whatever the omit and optional sets were.
//!
//! A full record value is a vector of field values aligned with the
//! record's fields in declaration order. A projection value carries the
//! included values, in the declaration order of the included fields, and
//! one presence-wrapped value per optional field. A remainder value is
//! the omitted values in declaration order.

use vstd::prelude::*;

use crate::partition::FieldClass;

verus! {

/// One model field value: the engine never reads one, it only routes
/// them, so an integer or a text stands in for any field type.
#[derive(Debug, Clone, PartialEq, Eq)]
pub enum FieldValue {
    Int(u64),
    Text(String),
}

/// The mathematical shape of a [`FieldValue`].
pub enum ValueModel {
    Int(u64),
    Text(Seq<char>),
}

impl View for FieldValue {
    type V = ValueModel;

    open spec fn view(&self) -> ValueModel {
        match self {
            FieldValue::Int(n) => ValueModel::Int(*n),
            FieldValue::Text(s) => ValueModel::Text(s@),
        }
    }
}

impl DeepView for FieldValue {
    type V = ValueModel;

    open spec fn deep_view(&self) -> ValueModel {
        self.view()
    }
}

/// The value of one projection: the included values in declaration
/// order, and one presence-wrapped value per optional field, in
/// declaration order of the optional fields.
#[derive(Debug, Clone, PartialEq, Eq)]
pub struct ProjectionValue {
    pub included: Vec<FieldValue>,
    pub optional: Vec<Option<FieldValue>>,
}

/// Duplicates one field value.
pub fn dup_value(v: &FieldValue) -> (r: FieldValue)
    ensures
        r@ == v@,
{
    match v {
        FieldValue::Int(n) => FieldValue::Int(*n),
        FieldValue::Text(s) => FieldValue::Text(s.clone()),
    }
}

/// How many fields of the list fall in the given class.
pub open spec fn count_class(cs: Seq<FieldClass>, c: FieldClass) -> nat
    decreases cs.len(),
{
    if cs.len() == 0 {
        0
    } else {
        count_class(cs.drop_last(), c) + if cs.last() == c {
            1nat
        } else {
            0nat
        }
    }
}

/// Counting a prefix one longer adds the class of the next field.
pub proof fn lemma_count_take_step(cs: Seq<FieldClass>, i: int, c: FieldClass)
    requires
        0 <= i < cs.len(),
    ensures
        count_class(cs.take(i + 1), c) == count_class(cs.take(i), c) + if cs[i] == c {
            1nat
        } else {
            0nat
        },
{
    assert(cs.take(i + 1).drop_last() =~= cs.take(i));
    assert(cs.take(i + 1).last() == cs[i]);
}

/// A prefix never holds more fields of a class than the whole list.
pub proof fn lemma_count_take_le(cs: Seq<FieldClass>, i: int, c: FieldClass)
    requires
        0 <= i <= cs.len(),
    ensures
        count_class(cs.take(i), c) <= count_class(cs, c),
    decreases cs.len() - i,
{
    if i == cs.len() {
        assert(cs.take(i) =~= cs);
    } else {
        lemma_count_take_step(cs, i, c);
        lemma_count_take_le(cs, i + 1, c);
    }
}

/// The included values of a full record, in declaration order.
pub open spec fn included_values(cs: Seq<FieldClass>, full: Seq<ValueModel>) -> Seq<ValueModel>
    decreases cs.len(),
{
    if cs.len() == 0 {
        Seq::empty()
    } else {
        let rest = included_values(cs.drop_last(), full.drop_last());
        if cs.last() is Included {
            rest.push(full.last())
        } else {
            rest
        }
    }
}

/// The optional values of a full record, each wrapped as present, in
/// declaration order.
pub open spec fn optional_values(cs: Seq<FieldClass>, full: Seq<ValueModel>) -> Seq<
    Option<ValueModel>,
>
    decreases cs.len(),
{
    if cs.len() == 0 {
        Seq::empty()
    } else {
        let rest = optional_values(cs.drop_last(), full.drop_last());
        if cs.last() is Optional {
            rest.push(Some(full.last()))
        } else {
            rest
        }
    }
}

/// The omitted values of a full record, in declaration order.
pub open spec fn omitted_values(cs: Seq<FieldClass>, full: Seq<ValueModel>) -> Seq<ValueModel>
    decreases cs.len(),
{
    if cs.len() == 0 {
        Seq::empty()
    } else {
        let rest = omitted_values(cs.drop_last(), full.drop_last());
        if cs.last() is Omitted {
            rest.push(full.last())
        } else {
            rest
        }
    }
}

/// Each projection between the three value lists has as many entries as
/// its class has fields.
pub proof fn lemma_value_lengths(cs: Seq<FieldClass>, full: Seq<ValueModel>)
    requires
        cs.len() == full.len(),
    ensures
        included_values(cs, full).len() == count_class(cs, FieldClass::Included),
        optional_values(cs, full).len() == count_class(cs, FieldClass::Optional),
        omitted_values(cs, full).len() == count_class(cs, FieldClass::Omitted),
    decreases cs.len(),
{
    if cs.len() > 0 {
        lemma_value_lengths(cs.drop_last(), full.drop_last());
    }
}

/// The value an optional field takes on reconstruction: the
/// projection's own value when present, else the supplied fallback.
/// The projection's value wins by design: the fallback is a default for
/// a value the projection never resolved.
pub open spec fn resolve(own: Option<ValueModel>, fallback: Option<ValueModel>) -> ValueModel {
    match own {
        Some(v) => v,
        None => fallback->Some_0,
    }
}

/// Every optional slot can be resolved: the projection or the fallback
/// list holds a value for it. The generated code fails fatally on a slot
/// that neither holds; the model excludes such inputs instead.
pub open spec fn resolvable(own: Seq<Option<ValueModel>>, fallback: Seq<Option<ValueModel>>) -> bool {
    forall|k: int| 0 <= k < own.len() ==> ((#[trigger] own[k]) is Some || fallback[k] is Some)
}

/// The full record value rebuilt from a projection's parts: the fields
/// are walked in declaration order, and each takes its value from the
/// included list, the omitted list, or the resolved optional slot.
pub open spec fn rebuild(
    cs: Seq<FieldClass>,
    incl: Seq<ValueModel>,
    opt: Seq<Option<ValueModel>>,
    omit: Seq<ValueModel>,
    ovr: Seq<Option<ValueModel>>,
) -> Seq<ValueModel>
    decreases cs.len(),
{
    if cs.len() == 0 {
        Seq::empty()
    } else {
        match cs.last() {
            FieldClass::Included => rebuild(cs.drop_last(), incl.drop_last(), opt, omit, ovr).push(
                incl.last(),
            ),
            FieldClass::Optional => rebuild(
                cs.drop_last(),
                incl,
                opt.drop_last(),
                omit,
                ovr.drop_last(),
            ).push(resolve(opt.last(), ovr.last())),
            FieldClass::Omitted => rebuild(cs.drop_last(), incl, opt, omit.drop_last(), ovr).push(
                omit.last(),
            ),
        }
    }
}

/// Splits a full record value: the included values and the wrapped
/// optional values go to the projection, the omitted values to the
/// remainder.
pub fn from_full_with_remainder(classes: &Vec<FieldClass>, full: Vec<FieldValue>) -> (r: (
    ProjectionValue,
    Vec<FieldValue>,
))
    requires
        classes@.len() == full@.len(),
    ensures
        r.0.included.deep_view() == included_values(classes@, full.deep_view()),
        r.0.optional.deep_view() == optional_values(classes@, full.deep_view()),
        r.1.deep_view() == omitted_values(classes@, full.deep_view()),
{
    let ghost cs = classes@;
    let ghost fv = full.deep_view();
    let mut included: Vec<FieldValue> = Vec::new();
    let mut optional: Vec<Option<FieldValue>> = Vec::new();
    let mut omitted: Vec<FieldValue> = Vec::new();
    let mut i: usize = 0;
    proof {
        assert(cs.take(0) =~= Seq::<FieldClass>::empty());
        assert(fv.take(0) =~= Seq::<ValueModel>::empty());
        assert(included.deep_view() =~= Seq::<ValueModel>::empty());
        assert(optional.deep_view() =~= Seq::<Option<ValueModel>>::empty());
        assert(omitted.deep_view() =~= Seq::<ValueModel>::empty());
    }
    while i < classes.len()
        invariant
            i <= classes.len(),
            cs == classes@,
            fv == full.deep_view(),
            cs.len() == fv.len(),
            fv.len() == full@.len(),
            included.deep_view() == included_values(cs.take(i as int), fv.take(i as int)),
            optional.deep_view() == optional_values(cs.take(i as int), fv.take(i as int)),
            omitted.deep_view() == omitted_values(cs.take(i as int), fv.take(i as int)),
        decreases classes.len() - i,
    {
        proof {
            assert(fv[i as int] == full@[i as int].deep_view());
            assert(cs.take(i as int + 1).drop_last() =~= cs.take(i as int));
            assert(fv.take(i as int + 1).drop_last() =~= fv.take(i as int));
            assert(cs.take(i as int + 1).last() == cs[i as int]);
            assert(fv.take(i as int + 1).last() == fv[i as int]);
        }
        let v = dup_value(&full[i]);
        match classes[i] {
            FieldClass::Included => {
                let ghost before = included.deep_view();
                included.push(v);
                proof {
                    assert(included.deep_view() =~= before.push(fv[i as int]));
                }
            },
            FieldClass::Optional => {
                let ghost before = optional.deep_view();
                optional.push(Some(v));
                proof {
                    assert(optional.deep_view() =~= before.push(Some(fv[i as int])));
                }
            },
            FieldClass::Omitted => {
                let ghost before = omitted.deep_view();
                omitted.push(v);
                proof {
                    assert(omitted.deep_view() =~= before.push(fv[i as int]));
                }
            },
        }
        i = i + 1;
    }
    proof {
        assert(cs.take(i as int) =~= cs);
        assert(fv.take(i as int) =~= fv);
    }
    (ProjectionValue { included, optional }, omitted)
}

/// Converts a full record value into a projection value, discarding the
/// omitted values.
pub fn from_full(classes: &Vec<FieldClass>, full: Vec<FieldValue>) -> (r: ProjectionValue)
    requires
        classes@.len() == full@.len(),
    ensures
        r.included.deep_view() == included_values(classes@, full.deep_view()),
        r.optional.deep_view() == optional_values(classes@, full.deep_view()),
{
    let (projection, _) = from_full_with_remainder(classes, full);
    projection
}

/// The mirror split, exposed on the source record's side: a forwarding
/// call to [`from_full_with_remainder`].
pub fn into_projection_with_remainder(full: Vec<FieldValue>, classes: &Vec<FieldClass>) -> (r: (
    ProjectionValue,
    Vec<FieldValue>,
))
    requires
        classes@.len() == full@.len(),
    ensures
        r.0.included.deep_view() == included_values(classes@, full.deep_view()),
        r.0.optional.deep_view() == optional_values(classes@, full.deep_view()),
        r.1.deep_view() == omitted_values(classes@, full.deep_view()),
{
    from_full_with_remainder(classes, full)
}

/// Rebuilds the full record value from a projection read through a
/// reference, duplicating its values: one value per omitted field and
/// one fallback per optional field are supplied, and every field returns
/// to its declaration position.
pub fn to_full_cloned(
    classes: &Vec<FieldClass>,
    projection: &ProjectionValue,
    omitted: Vec<FieldValue>,
    overrides: Vec<Option<FieldValue>>,
) -> (r: Vec<FieldValue>)
    requires
        projection.included@.len() == count_class(classes@, FieldClass::Included),
        projection.optional@.len() == count_class(classes@, FieldClass::Optional),
        omitted@.len() == count_class(classes@, FieldClass::Omitted),
        overrides@.len() == count_class(classes@, FieldClass::Optional),
        resolvable(projection.optional.deep_view(), overrides.deep_view()),
    ensures
        r.deep_view() == rebuild(
            classes@,
            projection.included.deep_view(),
            projection.optional.deep_view(),
            omitted.deep_view(),
            overrides.deep_view(),
        ),
{
    let ghost cs = classes@;
    let ghost iv = projection.included.deep_view();
    let ghost pv = projection.optional.deep_view();
    let ghost mv = omitted.deep_view();
    let ghost ov = overrides.deep_view();
    let mut out: Vec<FieldValue> = Vec::new();
    let mut ci: usize = 0;
    let mut co: usize = 0;
    let mut cm: usize = 0;
    let mut i: usize = 0;
    let ilen = projection.included.len();
    let plen = projection.optional.len();
    let mlen = omitted.len();
    proof {
        assert(iv.len() == ilen);
        assert(pv.len() == plen);
        assert(mv.len() == mlen);
        assert(cs.take(0) =~= Seq::<FieldClass>::empty());
        assert(iv.take(0) =~= Seq::<ValueModel>::empty());
        assert(pv.take(0) =~= Seq::<Option<ValueModel>>::empty());
        assert(mv.take(0) =~= Seq::<ValueModel>::empty());
        assert(ov.take(0) =~= Seq::<Option<ValueModel>>::empty());
        assert(out.deep_view() =~= Seq::<ValueModel>::empty());
    }
    while i < classes.len()
        invariant
            i <= classes.len(),
            cs == classes@,
            iv == projection.included.deep_view(),
            pv == projection.optional.deep_view(),
            mv == omitted.deep_view(),
            ov == overrides.deep_view(),
            iv.len() == count_class(cs, FieldClass::Included),
            pv.len() == count_class(cs, FieldClass::Optional),
            mv.len() == count_class(cs, FieldClass::Omitted),
            iv.len() <= usize::MAX,
            pv.len() <= usize::MAX,
            mv.len() <= usize::MAX,
            ov.len() == count_class(cs, FieldClass::Optional),
            resolvable(pv, ov),
            ci == count_class(cs.take(i as int), FieldClass::Included),
            co == count_class(cs.take(i as int), FieldClass::Optional),
            cm == count_class(cs.take(i as int), FieldClass::Omitted),
            out.deep_view() == rebuild(
                cs.take(i as int),
                iv.take(ci as int),
                pv.take(co as int),
                mv.take(cm as int),
                ov.take(co as int),
            ),
        decreases classes.len() - i,
    {
        proof {
            lemma_count_take_step(cs, i as int, FieldClass::Included);
            lemma_count_take_step(cs, i as int, FieldClass::Optional);
            lemma_count_take_step(cs, i as int, FieldClass::Omitted);
            lemma_count_take_le(cs, i as int + 1, FieldClass::Included);
            lemma_count_take_le(cs, i as int + 1, FieldClass::Optional);
            lemma_count_take_le(cs, i as int + 1, FieldClass::Omitted);
            assert(cs.take(i as int + 1).drop_last() =~= cs.take(i as int));
            assert(cs.take(i as int + 1).last() == cs[i as int]);
        }
        let ghost before = out.deep_view();
        match classes[i] {
            FieldClass::Included => {
                proof {
                    assert(iv[ci as int] == projection.included@[ci as int].deep_view());
                    assert(iv.take(ci as int + 1).drop_last() =~= iv.take(ci as int));
                    assert(iv.take(ci as int + 1).last() == iv[ci as int]);
                }
                out.push(dup_value(&projection.included[ci]));
                ci = ci + 1;
                proof {
                    assert(out.deep_view() =~= before.push(iv[ci - 1]));
                }
            },
            FieldClass::Optional => {
                proof {
                    assert(pv[co as int] == projection.optional@[co as int].deep_view());
                    assert(ov[co as int] == overrides@[co as int].deep_view());
                    assert(pv.take(co as int + 1).drop_last() =~= pv.take(co as int));
                    assert(ov.take(co as int + 1).drop_last() =~= ov.take(co as int));
                    assert(pv.take(co as int + 1).last() == pv[co as int]);
                    assert(ov.take(co as int + 1).last() == ov[co as int]);
                    assert(pv[co as int] is Some || ov[co as int] is Some);
                }
                let v = match &projection.optional[co] {
                    Some(v) => dup_value(v),
                    None => {
                        match &overrides[co] {
                            Some(v) => dup_value(v),
                            None => unreached(),
                        }
                    },
                };
                out.push(v);
                co = co + 1;
                proof {
                    assert(out.deep_view() =~= before.push(resolve(pv[co - 1], ov[co - 1])));
                }
            },
            FieldClass::Omitted => {
                proof {
                    assert(mv[cm as int] == omitted@[cm as int].deep_view());
                    assert(mv.take(cm as int + 1).drop_last() =~= mv.take(cm as int));
                    assert(mv.take(cm as int + 1).last() == mv[cm as int]);
                }
                out.push(dup_value(&omitted[cm]));
                cm = cm + 1;
                proof {
                    assert(out.deep_view() =~= before.push(mv[cm - 1]));
                }
            },
        }
        i = i + 1;
    }
    proof {
        assert(cs.take(i as int) =~= cs);
        assert(iv.take(ci as int) =~= iv);
        assert(pv.take(co as int) =~= pv);
        assert(mv.take(cm as int) =~= mv);
        assert(ov.take(co as int) =~= ov);
    }
    out
}

/// Consuming reconstruction: takes ownership of the projection value and
/// rebuilds the full record value, with one value per omitted field and
/// one fallback per optional field.
pub fn to_full(
    classes: &Vec<FieldClass>,
    projection: ProjectionValue,
    omitted: Vec<FieldValue>,
    overrides: Vec<Option<FieldValue>>,
) -> (r: Vec<FieldValue>)
    requires
        projection.included@.len() == count_class(classes@, FieldClass::Included),
        projection.optional@.len() == count_class(classes@, FieldClass::Optional),
        omitted@.len() == count_class(classes@, FieldClass::Omitted),
        overrides@.len() == count_class(classes@, FieldClass::Optional),
        resolvable(projection.optional.deep_view(), overrides.deep_view()),
    ensures
        r.deep_view() == rebuild(
            classes@,
            projection.included.deep_view(),
            projection.optional.deep_view(),
            omitted.deep_view(),
            overrides.deep_view(),
        ),
{
    to_full_cloned(classes, &projection, omitted, overrides)
}

/// After a split, every optional slot of the projection is present.
pub proof fn lemma_optional_values_present(cs: Seq<FieldClass>, full: Seq<ValueModel>)
    ensures
        forall|k: int|
            0 <= k < optional_values(cs, full).len() ==> (#[trigger] optional_values(
                cs,
                full,
            )[k]) is Some,
    decreases cs.len(),
{
    if cs.len() > 0 {
        lemma_optional_values_present(cs.drop_last(), full.drop_last());
        let rest = optional_values(cs.drop_last(), full.drop_last());
        assert forall|k: int|
            0 <= k < optional_values(cs, full).len() implies (#[trigger] optional_values(
            cs,
            full,
        )[k]) is Some by {
            if cs.last() is Optional && k == optional_values(cs, full).len() - 1 {
            } else {
                assert(optional_values(cs, full)[k] == rest[k]);
            }
        }
    }
}

/// Splits a full record value and rebuilds it at once from its own
/// parts, with no fallback supplied for any optional field: the result
/// is the original record, which makes the round-trip law executable.
pub fn split_then_rebuild(classes: &Vec<FieldClass>, full: Vec<FieldValue>) -> (r: Vec<FieldValue>)
    requires
        classes@.len() == full@.len(),
    ensures
        r.deep_view() == full.deep_view(),
{
    let ghost cs = classes@;
    let ghost fv = full.deep_view();
    let (projection, omitted) = from_full_with_remainder(classes, full);
    let mut overrides: Vec<Option<FieldValue>> = Vec::new();
    let mut k: usize = 0;
    let olen = projection.optional.len();
    proof {
        assert(overrides.deep_view() =~= Seq::<Option<ValueModel>>::empty());
        lemma_value_lengths(cs, fv);
    }
    while k < olen
        invariant
            k <= olen,
            overrides@.len() == k,
            forall|m: int| 0 <= m < k ==> (#[trigger] overrides.deep_view()[m]) is None,
        decreases olen - k,
    {
        let ghost before = overrides.deep_view();
        overrides.push(None);
        proof {
            assert(overrides.deep_view() =~= before.push(None));
        }
        k = k + 1;
    }
    proof {
        lemma_optional_values_present(cs, fv);
        lemma_split_rebuild(cs, fv, overrides.deep_view());
    }
    to_full(classes, projection, omitted, overrides)
}

/// The round-trip law: splitting a full record value and rebuilding it
/// from its own parts restores the record, whatever the classes and
/// whatever the fallbacks, because every optional slot is present after
/// a split and the projection's own value wins. The equality is over
/// whole value lists, so every field also stands at its original
/// declaration position.
pub proof fn lemma_split_rebuild(
    cs: Seq<FieldClass>,
    full: Seq<ValueModel>,
    ovr: Seq<Option<ValueModel>>,
)
    requires
        full.len() == cs.len(),
        ovr.len() == count_class(cs, FieldClass::Optional),
    ensures
        rebuild(
            cs,
            included_values(cs, full),
            optional_values(cs, full),
            omitted_values(cs, full),
            ovr,
        ) == full,
    decreases cs.len(),
{
    lemma_value_lengths(cs, full);
    if cs.len() == 0 {
        assert(rebuild(
            cs,
            included_values(cs, full),
            optional_values(cs, full),
            omitted_values(cs, full),
            ovr,
        ) =~= full);
    } else {
        let cs0 = cs.drop_last();
        let full0 = full.drop_last();
        lemma_value_lengths(cs0, full0);
        match cs.last() {
            FieldClass::Included => {
                lemma_split_rebuild(cs0, full0, ovr);
                assert(included_values(cs, full).drop_last() =~= included_values(cs0, full0));
                assert(rebuild(
                    cs,
                    included_values(cs, full),
                    optional_values(cs, full),
                    omitted_values(cs, full),
                    ovr,
                ) =~= full);
            },
            FieldClass::Optional => {
                lemma_split_rebuild(cs0, full0, ovr.drop_last());
                assert(optional_values(cs, full).drop_last() =~= optional_values(cs0, full0));
                assert(rebuild(
                    cs,
                    included_values(cs, full),
                    optional_values(cs, full),
                    omitted_values(cs, full),
                    ovr,
                ) =~= full);
            },
            FieldClass::Omitted => {
                lemma_split_rebuild(cs0, full0, ovr);
                assert(omitted_values(cs, full).drop_last() =~= omitted_values(cs0, full0));
                assert(rebuild(
                    cs,
                    included_values(cs, full),
                    optional_values(cs, full),
                    omitted_values(cs, full),
                    ovr,
                ) =~= full);
            },
        }
    }
}

/// With every field included, the projection carries the whole record:
/// its included values are the full value list, and nothing is optional
/// or omitted.
pub proof fn lemma_all_included(cs: Seq<FieldClass>, full: Seq<ValueModel>)
    requires
        full.len() == cs.len(),
        forall|k: int| 0 <= k < cs.len() ==> (#[trigger] cs[k]) is Included,
    ensures
        included_values(cs, full) == full,
        optional_values(cs, full).len() == 0,
        omitted_values(cs, full).len() == 0,
    decreases cs.len(),
{
    if cs.len() == 0 {
        assert(included_values(cs, full) =~= full);
    } else {
        assert(cs.drop_last()[cs.len() - 2] == cs[cs.len() - 2] || cs.len() == 1);
        assert(forall|k: int| 0 <= k < cs.drop_last().len() ==> (#[trigger] cs.drop_last()[k])
            is Included);
        lemma_all_included(cs.drop_last(), full.drop_last());
        assert(included_values(cs, full) =~= full);
    }
}

/// The plain round trip: with nothing omitted and nothing optional, the
/// projection conversion followed by the reconstruction, with no values
/// supplied at all, restores the record.
pub proof fn lemma_round_trip_plain(cs: Seq<FieldClass>, full: Seq<ValueModel>)
    requires
        full.len() == cs.len(),
        forall|k: int| 0 <= k < cs.len() ==> (#[trigger] cs[k]) is Included,
    ensures
        rebuild(
            cs,
            included_values(cs, full),
            optional_values(cs, full),
            omitted_values(cs, full),
            Seq::empty(),
        ) == full,
{
    lemma_all_included(cs, full);
    lemma_value_lengths(cs, full);
    lemma_split_rebuild(cs, full, Seq::empty());
}

/// Reconstruction preserves the declaration order: the rebuilt record
/// equals the original field for field, at the original positions,
/// regardless of how the classes grouped the fields.
pub proof fn lemma_declaration_order_kept(
    cs: Seq<FieldClass>,
    full: Seq<ValueModel>,
    ovr: Seq<Option<ValueModel>>,
)
    requires
        full.len() == cs.len(),
        ovr.len() == count_class(cs, FieldClass::Optional),
    ensures
        ({
            let rebuilt = rebuild(
                cs,
                included_values(cs, full),
                optional_values(cs, full),
                omitted_values(cs, full),
                ovr,
            );
            rebuilt.len() == full.len() && forall|k: int|
                0 <= k < full.len() ==> rebuilt[k] == full[k]
        }),
{
    lemma_split_rebuild(cs, full, ovr);
}

} // verus!
