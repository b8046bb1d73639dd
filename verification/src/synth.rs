//! The type and conversion synthesizers, and the whole generation pass.
//!
//! Per validated directive the engine emits one projection type
//! description, a remainder type description when any field is omitted,
//! and the names of the five conversion operations. All names are a pure
//! function of the record name and the target name, so a pass over
//! unchanged input always produces identical output.

use vstd::prelude::*;

use heck::ToSnakeCase;

use crate::directive::{
    collect_directives, spec_collect, Directive, DirectiveModel,
};
use crate::error::{ErrorModel, GenError};
use crate::partition::{
    partition_fields, spec_included_fields, spec_omitted_fields, spec_optional_fields,
};
use crate::schema::{clone_strings, Field, FieldModel, RecordModel, SourceRecord};
use crate::token::{Token, TokenModel};
use crate::validate::{check_directive, check_shape, spec_check_directive};

verus! {

/// What `heck`'s snake-case conversion returns for the given characters.
pub uninterp spec fn snake_case_of(s: Seq<char>) -> Seq<char>;

/// Relies on `heck::ToSnakeCase::to_snake_case` for `str`: the result is
/// a function of the input characters alone (word boundaries and
/// lowercasing do not depend on any environment).
#[verifier::external_body]
fn to_snake_case(s: &str) -> (r: String)
    ensures
        r@ == snake_case_of(s@),
{
    s.to_snake_case()
}

/// The description of one projection type: the fields carried verbatim,
/// the fields carried behind a presence-indicating container (type and
/// annotations still verbatim; the emission backend adds the wrapper),
/// and the capability requests forwarded unchecked.
#[derive(Debug, Clone, PartialEq, Eq)]
pub struct GeneratedProjection {
    pub name: String,
    pub included: Vec<Field>,
    pub optional: Vec<Field>,
    pub capabilities: Vec<String>,
}

/// The description of one remainder type: the omitted fields verbatim,
/// in declaration order. Generated only when a field is omitted; with
/// nothing omitted the remainder is the unit value and no type is named.
#[derive(Debug, Clone, PartialEq, Eq)]
pub struct GeneratedRemainder {
    pub name: String,
    pub fields: Vec<Field>,
}

/// The names of the five generated conversion operations.
#[derive(Debug, Clone, PartialEq, Eq)]
pub struct GeneratedOperations {
    /// Consuming reconstruction: projection plus one value per omitted
    /// field, and one fallback per optional field, back to the full
    /// record.
    pub to_full: String,
    /// Cloning reconstruction: as above, reading the projection through
    /// a reference and duplicating its values.
    pub to_full_cloned: String,
    /// Projection conversion, exposed as a conversion constructor on the
    /// projection type.
    pub from_full: String,
    /// Split: full record to projection plus remainder.
    pub split: String,
    /// Mirror split, exposed on the source record's own type and
    /// forwarding to the split.
    pub mirror_split: String,
}

/// Everything generated for one directive.
#[derive(Debug, Clone, PartialEq, Eq)]
pub struct GeneratedUnit {
    pub projection: GeneratedProjection,
    pub remainder: Option<GeneratedRemainder>,
    pub operations: GeneratedOperations,
}

/// The mathematical shape of a [`GeneratedProjection`].
pub struct ProjectionModel {
    pub name: Seq<char>,
    pub included: Seq<FieldModel>,
    pub optional: Seq<FieldModel>,
    pub capabilities: Seq<Seq<char>>,
}

/// The mathematical shape of a [`GeneratedRemainder`].
pub struct RemainderModel {
    pub name: Seq<char>,
    pub fields: Seq<FieldModel>,
}

/// The mathematical shape of a [`GeneratedOperations`].
pub struct OperationsModel {
    pub to_full: Seq<char>,
    pub to_full_cloned: Seq<char>,
    pub from_full: Seq<char>,
    pub split: Seq<char>,
    pub mirror_split: Seq<char>,
}

/// The mathematical shape of a [`GeneratedUnit`].
pub struct UnitModel {
    pub projection: ProjectionModel,
    pub remainder: Option<RemainderModel>,
    pub operations: OperationsModel,
}

impl View for GeneratedProjection {
    type V = ProjectionModel;

    open spec fn view(&self) -> ProjectionModel {
        ProjectionModel {
            name: self.name@,
            included: self.included.deep_view(),
            optional: self.optional.deep_view(),
            capabilities: self.capabilities.deep_view(),
        }
    }
}

impl View for GeneratedRemainder {
    type V = RemainderModel;

    open spec fn view(&self) -> RemainderModel {
        RemainderModel { name: self.name@, fields: self.fields.deep_view() }
    }
}

impl View for GeneratedOperations {
    type V = OperationsModel;

    open spec fn view(&self) -> OperationsModel {
        OperationsModel {
            to_full: self.to_full@,
            to_full_cloned: self.to_full_cloned@,
            from_full: self.from_full@,
            split: self.split@,
            mirror_split: self.mirror_split@,
        }
    }
}

impl View for GeneratedUnit {
    type V = UnitModel;

    open spec fn view(&self) -> UnitModel {
        UnitModel {
            projection: self.projection@,
            remainder: match &self.remainder {
                Some(r) => Some(r@),
                None => None,
            },
            operations: self.operations@,
        }
    }
}

impl DeepView for GeneratedUnit {
    type V = UnitModel;

    open spec fn deep_view(&self) -> UnitModel {
        self.view()
    }
}

/// The name of the projection type: the directive's target name, or the
/// default built from the record name.
pub open spec fn spec_target_name(r: RecordModel, d: DirectiveModel) -> Seq<char> {
    match d.target_name {
        Some(n) => n,
        None => "Partial"@ + r.name,
    }
}

/// The name of the remainder type, derived from the target name.
pub open spec fn spec_remainder_name(r: RecordModel, d: DirectiveModel) -> Seq<char> {
    spec_target_name(r, d) + "Omitted"@
}

/// The five operation names, derived from the record name and the target
/// name by the snake-case convention.
pub open spec fn spec_operations(r: RecordModel, d: DirectiveModel) -> OperationsModel {
    let s = snake_case_of(r.name);
    let t = snake_case_of(spec_target_name(r, d));
    OperationsModel {
        to_full: "to_"@ + s,
        to_full_cloned: "to_"@ + s + "_cloned"@,
        from_full: "from"@,
        split: "from_"@ + s + "_with_omitted"@,
        mirror_split: "into_"@ + t + "_with_omitted"@,
    }
}

/// The projection type description under one directive.
pub open spec fn spec_projection(r: RecordModel, d: DirectiveModel) -> ProjectionModel {
    ProjectionModel {
        name: spec_target_name(r, d),
        included: spec_included_fields(r.fields, d),
        optional: spec_optional_fields(r.fields, d),
        capabilities: d.capabilities,
    }
}

/// The remainder type description under one directive, absent when
/// nothing is omitted.
pub open spec fn spec_remainder(r: RecordModel, d: DirectiveModel) -> Option<RemainderModel> {
    if spec_omitted_fields(r.fields, d).len() == 0 {
        None
    } else {
        Some(
            RemainderModel {
                name: spec_remainder_name(r, d),
                fields: spec_omitted_fields(r.fields, d),
            },
        )
    }
}

/// Everything one validated directive generates.
pub open spec fn spec_unit(r: RecordModel, d: DirectiveModel) -> UnitModel {
    UnitModel {
        projection: spec_projection(r, d),
        remainder: spec_remainder(r, d),
        operations: spec_operations(r, d),
    }
}

/// The name of the projection type for this record and directive.
pub fn target_name_of(rec: &SourceRecord, d: &Directive) -> (r: String)
    ensures
        r@ == spec_target_name(rec@, d@),
{
    match &d.target_name {
        Some(n) => n.clone(),
        None => {
            let mut s = String::from_str("Partial");
            s.append(rec.name.as_str());
            s
        },
    }
}

/// The five operation names for this record and directive.
pub fn operations_of(rec: &SourceRecord, d: &Directive) -> (r: GeneratedOperations)
    ensures
        r@ == spec_operations(rec@, d@),
{
    let snake = to_snake_case(rec.name.as_str());
    let target = target_name_of(rec, d);
    let tsnake = to_snake_case(target.as_str());
    let mut to_full = String::from_str("to_");
    to_full.append(snake.as_str());
    let mut to_full_cloned = to_full.clone();
    to_full_cloned.append("_cloned");
    let from_full = String::from_str("from");
    let mut split = String::from_str("from_");
    split.append(snake.as_str());
    split.append("_with_omitted");
    let mut mirror_split = String::from_str("into_");
    mirror_split.append(tsnake.as_str());
    mirror_split.append("_with_omitted");
    GeneratedOperations { to_full, to_full_cloned, from_full, split, mirror_split }
}

/// Builds everything one validated directive generates: the projection
/// type, the remainder type when a field is omitted, and the five
/// operation names.
pub fn synthesize_unit(rec: &SourceRecord, d: &Directive) -> (u: GeneratedUnit)
    ensures
        u@ == spec_unit(rec@, d@),
{
    let part = partition_fields(rec, d);
    let target = target_name_of(rec, d);
    let operations = operations_of(rec, d);
    let remainder = if part.omitted.len() == 0 {
        None
    } else {
        let mut n = target.clone();
        n.append("Omitted");
        Some(GeneratedRemainder { name: n, fields: part.omitted })
    };
    let capabilities = clone_strings(&d.capabilities);
    let projection = GeneratedProjection {
        name: target,
        included: part.included,
        optional: part.optional,
        capabilities,
    };
    GeneratedUnit { projection, remainder, operations }
}

/// What a validated directive list generates: one unit per directive, in
/// order, or the first directive's validation error.
pub open spec fn spec_units(r: RecordModel, ds: Seq<DirectiveModel>) -> Result<
    Seq<UnitModel>,
    ErrorModel,
>
    decreases ds.len(),
{
    if ds.len() == 0 {
        Ok(Seq::empty())
    } else {
        match spec_check_directive(r, ds[0]) {
            Some(e) => Err(e),
            None => match spec_units(r, ds.skip(1)) {
                Err(e) => Err(e),
                Ok(us) => Ok(seq![spec_unit(r, ds[0])] + us),
            },
        }
    }
}

/// What one whole generation pass produces for a record and its raw
/// directives: the generated units in directive order, or the single
/// diagnostic of the first failing step. Directives are parsed first;
/// then the record shape is checked once; then each directive is
/// validated and synthesized, in order.
pub open spec fn spec_generate(r: RecordModel, raws: Seq<Seq<TokenModel>>) -> Result<
    Seq<UnitModel>,
    ErrorModel,
> {
    match spec_collect(raws) {
        Err(e) => Err(e),
        Ok(ds) => if !(r.shape is NamedFields) {
            Err(ErrorModel::UnsupportedShape)
        } else {
            spec_units(r, ds)
        },
    }
}

/// Runs one generation pass: parses and validates every directive
/// attached to the record and synthesizes the generated types and
/// operations, or surfaces the single diagnostic that aborts the pass.
pub fn generate(rec: &SourceRecord, raws: &Vec<Vec<Token>>) -> (r: Result<
    Vec<GeneratedUnit>,
    GenError,
>)
    ensures
        ({
            let s = spec_generate(rec@, raws.deep_view());
            match r {
                Ok(us) => s is Ok && us.deep_view() == s->Ok_0,
                Err(e) => s is Err && e@ == s->Err_0,
            }
        }),
{
    let ds = match collect_directives(raws) {
        Ok(ds) => ds,
        Err(e) => {
            return Err(e);
        },
    };
    if let Err(e) = check_shape(rec) {
        return Err(e);
    }
    let ghost rv = rec@;
    let ghost dsv = ds.deep_view();
    let mut out: Vec<GeneratedUnit> = Vec::new();
    let mut i: usize = 0;
    proof {
        assert(dsv.skip(0) =~= dsv);
        if spec_units(rv, dsv) is Ok {
            assert(Seq::<UnitModel>::empty() + spec_units(rv, dsv)->Ok_0 =~= spec_units(
                rv,
                dsv,
            )->Ok_0);
        }
    }
    while i < ds.len()
        invariant
            i <= ds.len(),
            rv == rec@,
            dsv == ds.deep_view(),
            spec_generate(rv, raws.deep_view()) == spec_units(rv, dsv),
            spec_units(rv, dsv) == (match spec_units(rv, dsv.skip(i as int)) {
                Ok(us) => Ok(out.deep_view() + us),
                Err(e) => Err::<Seq<UnitModel>, ErrorModel>(e),
            }),
        decreases ds.len() - i,
    {
        proof {
            assert(dsv[i as int] == ds@[i as int].deep_view());
            assert(dsv.skip(i as int)[0] == dsv[i as int]);
            assert(dsv.skip(i as int).skip(1) =~= dsv.skip(i as int + 1));
        }
        let d = &ds[i];
        if let Err(e) = check_directive(rec, d) {
            return Err(e);
        }
        let u = synthesize_unit(rec, d);
        let ghost out0 = out.deep_view();
        let ghost uv = u@;
        out.push(u);
        proof {
            assert(out.deep_view() =~= out0.push(uv));
            if spec_units(rv, dsv.skip(i as int + 1)) is Ok {
                let us = spec_units(rv, dsv.skip(i as int + 1))->Ok_0;
                assert(out0 + (seq![uv] + us) =~= out0.push(uv) + us);
            }
        }
        i = i + 1;
    }
    proof {
        assert(dsv.skip(i as int) =~= Seq::<DirectiveModel>::empty());
        assert(out.deep_view() + Seq::<UnitModel>::empty() =~= out.deep_view());
    }
    Ok(out)
}

/// A generation pass is deterministic: its outcome is a function of the
/// record and the raw directive list alone, so two passes over equal
/// inputs produce equal output descriptions.
pub proof fn lemma_generate_deterministic(
    r1: RecordModel,
    raws1: Seq<Seq<TokenModel>>,
    r2: RecordModel,
    raws2: Seq<Seq<TokenModel>>,
)
    requires
        r1 == r2,
        raws1 == raws2,
    ensures
        spec_generate(r1, raws1) == spec_generate(r2, raws2),
{
}

/// Two directives on one record generate independently: when the pass
/// over both succeeds, it produces exactly two units, and each equals
/// the single unit that its directive would generate on its own.
pub proof fn lemma_directives_independent(
    r: RecordModel,
    a: Seq<TokenModel>,
    b: Seq<TokenModel>,
)
    requires
        spec_generate(r, seq![a, b]) is Ok,
    ensures
        spec_generate(r, seq![a]) is Ok,
        spec_generate(r, seq![b]) is Ok,
        spec_generate(r, seq![a, b])->Ok_0.len() == 2,
        spec_generate(r, seq![a])->Ok_0 == seq![spec_generate(r, seq![a, b])->Ok_0[0]],
        spec_generate(r, seq![b])->Ok_0 == seq![spec_generate(r, seq![a, b])->Ok_0[1]],
{
    reveal_with_fuel(crate::directive::parse_all, 4);
    reveal_with_fuel(spec_units, 4);
    let two = seq![a, b];
    let one_a = seq![a];
    let one_b = seq![b];
    assert(two[0] == a && two[1] == b && one_a[0] == a && one_b[0] == b);
    assert(two.skip(1) =~= seq![b]);
    assert(seq![b].skip(1) =~= Seq::<Seq<TokenModel>>::empty());
    assert(one_a.skip(1) =~= Seq::<Seq<TokenModel>>::empty());
    let pa = crate::directive::spec_parse_directive(a);
    let pb = crate::directive::spec_parse_directive(b);
    assert(pa is Ok && pb is Ok);
    let da = pa->Ok_0;
    let db = pb->Ok_0;
    assert(spec_collect(two) == Ok::<Seq<DirectiveModel>, ErrorModel>(seq![da, db])) by {
        assert(seq![da] + (seq![db] + Seq::<DirectiveModel>::empty()) =~= seq![da, db]);
    }
    assert(spec_collect(one_a) == Ok::<Seq<DirectiveModel>, ErrorModel>(seq![da])) by {
        assert(seq![da] + Seq::<DirectiveModel>::empty() =~= seq![da]);
    }
    assert(spec_collect(one_b) == Ok::<Seq<DirectiveModel>, ErrorModel>(seq![db])) by {
        assert(seq![db] + Seq::<DirectiveModel>::empty() =~= seq![db]);
    }
    let ds = seq![da, db];
    assert(ds.skip(1) =~= seq![db]);
    assert(seq![da].skip(1) =~= Seq::<DirectiveModel>::empty());
    assert(seq![db].skip(1) =~= Seq::<DirectiveModel>::empty());
    assert(spec_check_directive(r, da) is None && spec_check_directive(r, db) is None);
    let ua = spec_unit(r, da);
    let ub = spec_unit(r, db);
    assert(spec_units(r, ds) == Ok::<Seq<UnitModel>, ErrorModel>(seq![ua, ub])) by {
        assert(seq![ua] + (seq![ub] + Seq::<UnitModel>::empty()) =~= seq![ua, ub]);
    }
    assert(spec_units(r, seq![da]) == Ok::<Seq<UnitModel>, ErrorModel>(seq![ua])) by {
        assert(seq![ua] + Seq::<UnitModel>::empty() =~= seq![ua]);
    }
    assert(spec_units(r, seq![db]) == Ok::<Seq<UnitModel>, ErrorModel>(seq![ub])) by {
        assert(seq![ub] + Seq::<UnitModel>::empty() =~= seq![ub]);
    }
}

} // verus!
