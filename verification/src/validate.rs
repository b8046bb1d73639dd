//! The schema validator: a record must be a named-field composite, every
//! name in a directive's omit and optional sets must be a declared field,
//! and no field may be named by both sets. The shape is checked once per
//! record; the name checks run per directive.

use vstd::prelude::*;

use crate::directive::{Directive, DirectiveModel};
use crate::error::{ErrorModel, GenError};
use crate::names::{contains_text, insert_le, insert_sorted, sort_strs, text_eq};
use crate::schema::{field_names, record_wf, RecordModel, RecordShape, SourceRecord};

verus! {

/// The first name of the list that is not a declared field, scanning in
/// list order.
pub open spec fn spec_first_unknown(names: Seq<Seq<char>>, declared: Seq<Seq<char>>) -> Option<
    Seq<char>,
>
    decreases names.len(),
{
    if names.len() == 0 {
        None
    } else if !declared.contains(names[0]) {
        Some(names[0])
    } else {
        spec_first_unknown(names.skip(1), declared)
    }
}

/// A field name is in conflict when the omit set and the optional set
/// both hold it.
pub open spec fn conflict_pred(d: DirectiveModel) -> spec_fn(Seq<char>) -> bool {
    |n: Seq<char>| d.omit.contains(n) && d.optional.contains(n)
}

/// Every conflicting field name, in sorted order. Scanning the declared
/// fields rather than the directive keeps each name listed once, since
/// field names are unique within a record.
pub open spec fn spec_conflicts(r: RecordModel, d: DirectiveModel) -> Seq<Seq<char>> {
    sort_strs(field_names(r.fields).filter(conflict_pred(d)))
}

/// What validating one directive against a record yields: the first
/// unknown name (omit set scanned before optional set), else the
/// conflict diagnostic, else nothing.
pub open spec fn spec_check_directive(r: RecordModel, d: DirectiveModel) -> Option<ErrorModel> {
    match spec_first_unknown(d.omit, field_names(r.fields)) {
        Some(n) => Some(ErrorModel::UnknownField { name: n }),
        None => match spec_first_unknown(d.optional, field_names(r.fields)) {
            Some(n) => Some(ErrorModel::UnknownField { name: n }),
            None => {
                let c = spec_conflicts(r, d);
                if c.len() > 0 {
                    Some(ErrorModel::ConflictingClassification { names: c })
                } else {
                    None
                }
            },
        },
    }
}

/// When the unknown-name scan finds nothing, every name is declared;
/// when it finds a name, that name is in the list and undeclared.
pub proof fn lemma_first_unknown_props(names: Seq<Seq<char>>, declared: Seq<Seq<char>>)
    ensures
        spec_first_unknown(names, declared) is None ==> forall|k: int|
            0 <= k < names.len() ==> declared.contains(#[trigger] names[k]),
        spec_first_unknown(names, declared) matches Some(n) ==> names.contains(n)
            && !declared.contains(n),
    decreases names.len(),
{
    if names.len() == 0 {
    } else if !declared.contains(names[0]) {
        assert(names.contains(names[0])) by {
            assert(names[0] == names[0]);
        }
    } else {
        lemma_first_unknown_props(names.skip(1), declared);
        if spec_first_unknown(names, declared) is None {
            assert forall|k: int| 0 <= k < names.len() implies declared.contains(
                #[trigger] names[k],
            ) by {
                if k > 0 {
                    assert(names.skip(1)[k - 1] == names[k]);
                    assert(declared.contains(names.skip(1)[k - 1]));
                }
            }
        } else {
            let n = spec_first_unknown(names, declared)->Some_0;
            assert(names.skip(1).contains(n));
            let m = choose|m: int| 0 <= m < names.skip(1).len() && names.skip(1)[m] == n;
            assert(names.contains(n)) by {
                assert(names[m + 1] == n);
            }
        }
    }
}

/// A directive fails with the unknown-field diagnostic exactly when its
/// omit or optional set names a field the record does not declare.
pub proof fn lemma_unknown_reference_reported(r: RecordModel, d: DirectiveModel)
    ensures
        (spec_check_directive(r, d) matches Some(e) && e is UnknownField) <==> exists|n: Seq<char>|
            #![trigger d.omit.contains(n)]
            #![trigger d.optional.contains(n)]
            (d.omit.contains(n) || d.optional.contains(n)) && !field_names(r.fields).contains(n),
{
    let fns = field_names(r.fields);
    lemma_first_unknown_props(d.omit, fns);
    lemma_first_unknown_props(d.optional, fns);
    if spec_check_directive(r, d) matches Some(e) && e is UnknownField {
        if spec_first_unknown(d.omit, fns) is Some {
            let n = spec_first_unknown(d.omit, fns)->Some_0;
            assert(d.omit.contains(n) && !fns.contains(n));
        } else {
            let n = spec_first_unknown(d.optional, fns)->Some_0;
            assert(d.optional.contains(n) && !fns.contains(n));
        }
    }
    if exists|n: Seq<char>|
        #![trigger d.omit.contains(n)]
        #![trigger d.optional.contains(n)]
        (d.omit.contains(n) || d.optional.contains(n)) && !field_names(r.fields).contains(n) {
        let n = choose|n: Seq<char>|
            #![trigger d.omit.contains(n)]
            #![trigger d.optional.contains(n)]
            (d.omit.contains(n) || d.optional.contains(n)) && !field_names(r.fields).contains(n);
        if d.omit.contains(n) {
            if spec_first_unknown(d.omit, fns) is None {
                let k = choose|k: int| 0 <= k < d.omit.len() && d.omit[k] == n;
                assert(fns.contains(d.omit[k]));
                assert(false);
            }
        } else {
            if spec_first_unknown(d.omit, fns) is None && spec_first_unknown(d.optional, fns)
                is None {
                let k = choose|k: int| 0 <= k < d.optional.len() && d.optional[k] == n;
                assert(fns.contains(d.optional[k]));
                assert(false);
            }
        }
    }
}

/// Filtering pairwise distinct names keeps them pairwise distinct.
proof fn lemma_filter_no_dup(s: Seq<Seq<char>>, p: spec_fn(Seq<char>) -> bool)
    requires
        s.no_duplicates(),
    ensures
        s.filter(p).no_duplicates(),
    decreases s.len(),
{
    reveal(Seq::filter);
    if s.len() > 0 {
        assert(s.drop_last().no_duplicates());
        lemma_filter_no_dup(s.drop_last(), p);
        if p(s.last()) {
            let f0 = s.drop_last().filter(p);
            let t = f0.push(s.last());
            assert(s.filter(p) == t);
            assert(!f0.contains(s.last())) by {
                if f0.contains(s.last()) {
                    s.drop_last().lemma_filter_contains_rev(p, s.last());
                    let k = choose|k: int|
                        0 <= k < s.drop_last().len() && s.drop_last()[k] == s.last();
                    assert(s[k] == s[s.len() - 1]);
                }
            }
            assert forall|i: int, j: int|
                0 <= i < t.len() && 0 <= j < t.len() && i != j implies t[i] != t[j] by {
                if i < f0.len() && j < f0.len() {
                    assert(t[i] == f0[i] && t[j] == f0[j]);
                } else if i < f0.len() {
                    if t[i] == t[j] {
                        assert(f0.contains(s.last())) by {
                            assert(f0[i] == s.last());
                        }
                    }
                } else {
                    if t[i] == t[j] {
                        assert(f0.contains(s.last())) by {
                            assert(f0[j] == s.last());
                        }
                    }
                }
            }
        }
    }
}

/// In a well-formed record the declared field names are pairwise
/// distinct.
pub proof fn lemma_wf_names_distinct(r: RecordModel)
    requires
        record_wf(r),
    ensures
        field_names(r.fields).no_duplicates(),
{
    let fns = field_names(r.fields);
    assert forall|i: int, j: int|
        0 <= i < fns.len() && 0 <= j < fns.len() && i != j implies fns[i] != fns[j] by {
        if i < j {
            assert(r.fields[i].name != r.fields[j].name);
        } else {
            assert(r.fields[j].name != r.fields[i].name);
        }
    }
}

/// The conflict diagnostic is sorted, lists exactly the declared field
/// names that the omit set and the optional set both hold, and — for a
/// well-formed record — lists each conflicting name once.
pub proof fn lemma_conflicts_reported(r: RecordModel, d: DirectiveModel)
    ensures
        crate::names::sorted_le(spec_conflicts(r, d)),
        forall|n: Seq<char>|
            #[trigger] spec_conflicts(r, d).contains(n) <==> (field_names(r.fields).contains(n)
                && d.omit.contains(n) && d.optional.contains(n)),
        record_wf(r) ==> spec_conflicts(r, d).no_duplicates(),
{
    if record_wf(r) {
        lemma_wf_names_distinct(r);
        lemma_filter_no_dup(field_names(r.fields), conflict_pred(d));
        crate::names::lemma_sort_strs_no_dup(
            field_names(r.fields).filter(conflict_pred(d)),
        );
    }
    broadcast use vstd::seq_lib::group_filter_ensures;

    let fns = field_names(r.fields);
    let p = conflict_pred(d);
    let f = fns.filter(p);
    crate::names::lemma_sort_strs_props(f);
    assert forall|n: Seq<char>|
        #[trigger] spec_conflicts(r, d).contains(n) <==> (fns.contains(n) && d.omit.contains(n)
            && d.optional.contains(n)) by {
        if spec_conflicts(r, d).contains(n) {
            assert(f.contains(n));
            fns.lemma_filter_contains_rev(p, n);
            let k = choose|k: int| 0 <= k < f.len() && f[k] == n;
            assert(p(f[k]));
            assert(p(n));
        }
        if fns.contains(n) && d.omit.contains(n) && d.optional.contains(n) {
            assert(p(n));
            let k = choose|k: int| 0 <= k < fns.len() && fns[k] == n;
            assert(p(fns[k]));
            assert(f.contains(fns[k]));
            assert(spec_conflicts(r, d).contains(n));
        }
    }
}

/// Rejects every record that is not a named-field composite.
pub fn check_shape(rec: &SourceRecord) -> (r: Result<(), GenError>)
    ensures
        r is Ok <==> rec@.shape is NamedFields,
        r is Err ==> r->Err_0@ == ErrorModel::UnsupportedShape,
{
    match rec.shape {
        RecordShape::NamedFields => Ok(()),
        _ => Err(GenError::UnsupportedShape),
    }
}

/// True exactly when the record declares a field of the given name.
pub fn record_has_field(rec: &SourceRecord, x: &String) -> (r: bool)
    ensures
        r == field_names(rec@.fields).contains(x@),
{
    let ghost fns = field_names(rec@.fields);
    let mut i: usize = 0;
    while i < rec.fields.len()
        invariant
            i <= rec.fields.len(),
            fns == field_names(rec@.fields),
            fns.len() == rec.fields.len(),
            forall|k: int| 0 <= k < i ==> fns[k] != x@,
        decreases rec.fields.len() - i,
    {
        proof {
            assert(rec@.fields[i as int] == rec.fields@[i as int].deep_view());
            assert(fns[i as int] == rec@.fields[i as int].name);
        }
        if text_eq(&rec.fields[i].name, x) {
            proof {
                assert(fns.contains(x@)) by {
                    assert(fns[i as int] == x@);
                }
            }
            return true;
        }
        i = i + 1;
    }
    proof {
        if fns.contains(x@) {
            let k = choose|k: int| 0 <= k < fns.len() && fns[k] == x@;
            assert(false);
        }
    }
    false
}

/// The first of the names that the record does not declare, in list
/// order, if any.
fn first_unknown_in(names: &Vec<String>, rec: &SourceRecord) -> (r: Option<String>)
    ensures
        ({
            let s = spec_first_unknown(names.deep_view(), field_names(rec@.fields));
            match r {
                Some(n) => s is Some && n@ == s->Some_0,
                None => s is None,
            }
        }),
{
    let ghost nv = names.deep_view();
    let ghost fns = field_names(rec@.fields);
    let mut i: usize = 0;
    proof {
        assert(nv.skip(0) =~= nv);
    }
    while i < names.len()
        invariant
            i <= names.len(),
            nv == names.deep_view(),
            fns == field_names(rec@.fields),
            spec_first_unknown(nv, fns) == spec_first_unknown(nv.skip(i as int), fns),
        decreases names.len() - i,
    {
        proof {
            assert(nv[i as int] == names@[i as int].deep_view());
            assert(nv.skip(i as int)[0] == nv[i as int]);
            assert(nv.skip(i as int).skip(1) =~= nv.skip(i as int + 1));
        }
        if !record_has_field(rec, &names[i]) {
            return Some(names[i].clone());
        }
        i = i + 1;
    }
    proof {
        assert(nv.skip(i as int) =~= Seq::<Seq<char>>::empty());
    }
    None
}

/// Every conflicting field name, sorted.
fn conflict_names(rec: &SourceRecord, d: &Directive) -> (r: Vec<String>)
    ensures
        r.deep_view() == spec_conflicts(rec@, d@),
{
    let ghost fns = field_names(rec@.fields);
    let ghost p = conflict_pred(d@);
    let mut out: Vec<String> = Vec::new();
    let mut i: usize = 0;
    proof {
        assert(fns.take(0) =~= Seq::<Seq<char>>::empty());
        reveal(Seq::filter);
        assert(fns.take(0).filter(p) =~= Seq::<Seq<char>>::empty());
        assert(out.deep_view() =~= Seq::<Seq<char>>::empty());
    }
    while i < rec.fields.len()
        invariant
            i <= rec.fields.len(),
            fns == field_names(rec@.fields),
            fns.len() == rec.fields.len(),
            p == conflict_pred(d@),
            out.deep_view() == sort_strs(fns.take(i as int).filter(p)),
        decreases rec.fields.len() - i,
    {
        proof {
            assert(rec@.fields[i as int] == rec.fields@[i as int].deep_view());
            assert(fns[i as int] == rec@.fields[i as int].name);
        }
        let name = &rec.fields[i].name;
        let in_omit = contains_text(&d.omit, name);
        let in_optional = contains_text(&d.optional, name);
        proof {
            reveal(Seq::filter);
            assert(fns.take(i as int + 1).drop_last() =~= fns.take(i as int));
            assert(fns.take(i as int + 1).last() == fns[i as int]);
            assert(p(fns[i as int]) == (in_omit && in_optional));
        }
        if in_omit && in_optional {
            proof {
                let f0 = fns.take(i as int).filter(p);
                let f1 = fns.take(i as int + 1).filter(p);
                assert(f1 == f0.push(fns[i as int]));
                assert(f1.drop_last() =~= f0);
                assert(f1.last() == fns[i as int]);
                assert(sort_strs(f1) == insert_le(fns[i as int], sort_strs(f0)));
            }
            insert_sorted(&mut out, name.clone());
        }
        i = i + 1;
    }
    proof {
        assert(fns.take(i as int) =~= fns);
    }
    out
}

/// Validates one directive against the record: every referenced name
/// must be declared, and no field may be both omitted and optional.
pub fn check_directive(rec: &SourceRecord, d: &Directive) -> (r: Result<(), GenError>)
    ensures
        ({
            let s = spec_check_directive(rec@, d@);
            match r {
                Ok(_) => s is None,
                Err(e) => s is Some && e@ == s->Some_0,
            }
        }),
{
    if let Some(n) = first_unknown_in(&d.omit, rec) {
        return Err(GenError::UnknownField { name: n });
    }
    if let Some(n) = first_unknown_in(&d.optional, rec) {
        return Err(GenError::UnknownField { name: n });
    }
    let conflicts = conflict_names(rec, d);
    if conflicts.len() > 0 {
        proof {
            assert(spec_conflicts(rec@, d@).len() == conflicts.deep_view().len());
        }
        return Err(GenError::ConflictingClassification { names: conflicts });
    }
    proof {
        assert(spec_conflicts(rec@, d@).len() == 0);
    }
    Ok(())
}

} // verus!
