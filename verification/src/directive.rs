//! The directive parser: turns the token sequence of one projection
//! directive into a structured [`Directive`], or reports the position of
//! the first offending token.
//!
//! The grammar is order-independent and comma-separated: at most one
//! string literal (the target name), at most one `derive(...)` clause
//! (capability names), at most one `omit(...)` clause and at most one
//! `optional(...)` clause (field names). A comma after an item is
//! optional. A second string literal, a repeated clause, an unknown
//! keyword or a malformed parenthesized list is a syntax error.

use vstd::prelude::*;

use crate::token::{Atom, AtomModel, Token, TokenModel};

verus! {

/// One parsed projection directive.
#[derive(Debug, Clone, PartialEq, Eq)]
pub struct Directive {
    /// The requested name of the projection type; when absent, the engine
    /// falls back to a default derived from the record name.
    pub target_name: Option<String>,
    /// The capability names to be forwarded onto the projection type,
    /// in the order they were written.
    pub capabilities: Vec<String>,
    /// The names of the fields to leave out of the projection.
    pub omit: Vec<String>,
    /// The names of the fields the projection carries behind a
    /// presence-indicating container.
    pub optional: Vec<String>,
}

/// The mathematical shape of a [`Directive`].
pub struct DirectiveModel {
    pub target_name: Option<Seq<char>>,
    pub capabilities: Seq<Seq<char>>,
    pub omit: Seq<Seq<char>>,
    pub optional: Seq<Seq<char>>,
}

impl View for Directive {
    type V = DirectiveModel;

    open spec fn view(&self) -> DirectiveModel {
        DirectiveModel {
            target_name: self.target_name.deep_view(),
            capabilities: self.capabilities.deep_view(),
            omit: self.omit.deep_view(),
            optional: self.optional.deep_view(),
        }
    }
}

impl DeepView for Directive {
    type V = DirectiveModel;

    open spec fn deep_view(&self) -> DirectiveModel {
        self.view()
    }
}

/// The directive that stands in when a record carries no directive at
/// all: no target name, no capabilities, nothing omitted or optional.
pub open spec fn default_directive() -> DirectiveModel {
    DirectiveModel {
        target_name: None,
        capabilities: Seq::empty(),
        omit: Seq::empty(),
        optional: Seq::empty(),
    }
}

/// The parser's intermediate state: the components gathered so far, and
/// one flag per clause kind that has already been seen (a clause may be
/// seen and still empty, so the flags are not redundant).
pub struct ParseState {
    pub target: Option<Seq<char>>,
    pub caps: Seq<Seq<char>>,
    pub omit: Seq<Seq<char>>,
    pub optional: Seq<Seq<char>>,
    pub seen_derive: bool,
    pub seen_omit: bool,
    pub seen_optional: bool,
}

/// The state before any token has been read.
pub open spec fn init_state() -> ParseState {
    ParseState {
        target: None,
        caps: Seq::empty(),
        omit: Seq::empty(),
        optional: Seq::empty(),
        seen_derive: false,
        seen_omit: false,
        seen_optional: false,
    }
}

/// The directive a finished state denotes.
pub open spec fn state_directive(st: ParseState) -> DirectiveModel {
    DirectiveModel {
        target_name: st.target,
        capabilities: st.caps,
        omit: st.omit,
        optional: st.optional,
    }
}

/// The identifiers of a parenthesized list, or `None` if the list is
/// malformed. A list is a run of identifiers, each optionally followed
/// by one comma.
pub open spec fn group_items(g: Seq<AtomModel>) -> Option<Seq<Seq<char>>>
    decreases g.len(),
{
    if g.len() == 0 {
        Some(Seq::empty())
    } else {
        match g[0] {
            AtomModel::Ident(name) => {
                let rest = if g.len() >= 2 && g[1] is Comma {
                    g.skip(2)
                } else {
                    g.skip(1)
                };
                match group_items(rest) {
                    Some(ids) => Some(seq![name] + ids),
                    None => None,
                }
            },
            _ => None,
        }
    }
}

/// Parses the remaining tokens `toks`, whose first token stands at index
/// `pos` of the whole directive, on top of the state gathered so far.
/// An error carries the index of the offending token; for a fault in or
/// after a clause keyword, the keyword's index.
pub open spec fn parse_from(toks: Seq<TokenModel>, pos: int, st: ParseState) -> Result<
    DirectiveModel,
    int,
>
    decreases toks.len(), 0int,
{
    if toks.len() == 0 {
        Ok(state_directive(st))
    } else {
        match toks[0] {
            TokenModel::Atom(a) => match a {
                AtomModel::Text(s) => if st.target is Some {
                    Err(pos)
                } else {
                    after_item(toks.skip(1), pos + 1, ParseState { target: Some(s), ..st })
                },
                AtomModel::Ident(k) => if k == "derive"@ {
                    if st.seen_derive {
                        Err(pos)
                    } else if toks.len() >= 2 && toks[1] is Group && group_items(
                        toks[1]->Group_0,
                    ) is Some {
                        after_item(
                            toks.skip(2),
                            pos + 2,
                            ParseState {
                                caps: group_items(toks[1]->Group_0)->Some_0,
                                seen_derive: true,
                                ..st
                            },
                        )
                    } else {
                        Err(pos)
                    }
                } else if k == "omit"@ {
                    if st.seen_omit {
                        Err(pos)
                    } else if toks.len() >= 2 && toks[1] is Group && group_items(
                        toks[1]->Group_0,
                    ) is Some {
                        after_item(
                            toks.skip(2),
                            pos + 2,
                            ParseState {
                                omit: group_items(toks[1]->Group_0)->Some_0,
                                seen_omit: true,
                                ..st
                            },
                        )
                    } else {
                        Err(pos)
                    }
                } else if k == "optional"@ {
                    if st.seen_optional {
                        Err(pos)
                    } else if toks.len() >= 2 && toks[1] is Group && group_items(
                        toks[1]->Group_0,
                    ) is Some {
                        after_item(
                            toks.skip(2),
                            pos + 2,
                            ParseState {
                                optional: group_items(toks[1]->Group_0)->Some_0,
                                seen_optional: true,
                                ..st
                            },
                        )
                    } else {
                        Err(pos)
                    }
                } else {
                    Err(pos)
                },
                _ => Err(pos),
            },
            TokenModel::Group(_) => Err(pos),
        }
    }
}

/// After one parsed item: one comma may separate it from the next item.
pub open spec fn after_item(toks: Seq<TokenModel>, pos: int, st: ParseState) -> Result<
    DirectiveModel,
    int,
>
    decreases toks.len(), 1int,
{
    if toks.len() > 0 && toks[0] is Atom && toks[0]->Atom_0 is Comma {
        parse_from(toks.skip(1), pos + 1, st)
    } else {
        parse_from(toks, pos, st)
    }
}

/// What the whole token sequence of one directive parses to: a directive,
/// or the index of the first offending token.
pub open spec fn spec_parse_directive(toks: Seq<TokenModel>) -> Result<DirectiveModel, int> {
    parse_from(toks, 0, init_state())
}

/// What a list of raw directives collects to. Parsing stops at the first
/// malformed directive and surfaces it alone; `idx` is the index of the
/// first entry of `raws` within the whole attached list.
pub open spec fn parse_all(raws: Seq<Seq<TokenModel>>, idx: int) -> Result<
    Seq<DirectiveModel>,
    crate::error::ErrorModel,
>
    decreases raws.len(),
{
    if raws.len() == 0 {
        Ok(Seq::empty())
    } else {
        match spec_parse_directive(raws[0]) {
            Err(p) => Err(crate::error::ErrorModel::DirectiveSyntax { directive: idx, token: p }),
            Ok(d) => match parse_all(raws.skip(1), idx + 1) {
                Err(e) => Err(e),
                Ok(ds) => Ok(seq![d] + ds),
            },
        }
    }
}

/// What the directive collector produces: the parsed directives in
/// source order; the single default directive when none is attached; or
/// the first parse error.
pub open spec fn spec_collect(raws: Seq<Seq<TokenModel>>) -> Result<
    Seq<DirectiveModel>,
    crate::error::ErrorModel,
> {
    if raws.len() == 0 {
        Ok(seq![default_directive()])
    } else {
        parse_all(raws, 0)
    }
}

/// Gathers all directives attached to one record. An empty list stands
/// for the single default directive; otherwise every entry must parse,
/// and the first malformed one aborts the pass.
pub fn collect_directives(raws: &Vec<Vec<Token>>) -> (r: Result<
    Vec<Directive>,
    crate::error::GenError,
>)
    ensures
        ({
            let s = spec_collect(raws.deep_view());
            match r {
                Ok(ds) => s is Ok && ds.deep_view() == s->Ok_0,
                Err(e) => s is Err && e@ == s->Err_0,
            }
        }),
{
    let ghost rv = raws.deep_view();
    if raws.len() == 0 {
        let d = Directive {
            target_name: None,
            capabilities: Vec::new(),
            omit: Vec::new(),
            optional: Vec::new(),
        };
        proof {
            assert(d@.capabilities =~= Seq::<Seq<char>>::empty());
            assert(d@.omit =~= Seq::<Seq<char>>::empty());
            assert(d@.optional =~= Seq::<Seq<char>>::empty());
            assert(d@ == default_directive());
        }
        let ghost dv = d@;
        let mut out: Vec<Directive> = Vec::new();
        out.push(d);
        proof {
            assert(out.deep_view() =~= seq![dv]);
        }
        return Ok(out);
    }
    let mut out: Vec<Directive> = Vec::new();
    let mut i: usize = 0;
    proof {
        assert(rv.skip(0) =~= rv);
        if parse_all(rv, 0) is Ok {
            assert(Seq::<DirectiveModel>::empty() + parse_all(rv, 0)->Ok_0 =~= parse_all(
                rv,
                0,
            )->Ok_0);
        }
    }
    while i < raws.len()
        invariant
            i <= raws.len(),
            rv == raws.deep_view(),
            parse_all(rv, 0) == (match parse_all(rv.skip(i as int), i as int) {
                Ok(ds) => Ok(out.deep_view() + ds),
                Err(e) => Err::<Seq<DirectiveModel>, crate::error::ErrorModel>(e),
            }),
        decreases raws.len() - i,
    {
        proof {
            assert(rv[i as int] == raws@[i as int].deep_view());
            assert(rv.skip(i as int)[0] == rv[i as int]);
            assert(rv.skip(i as int).skip(1) =~= rv.skip(i as int + 1));
        }
        match parse_directive(&raws[i]) {
            Ok(d) => {
                let ghost out0 = out.deep_view();
                let ghost dv = d@;
                out.push(d);
                proof {
                    assert(out.deep_view() =~= out0.push(dv));
                    if parse_all(rv.skip(i as int + 1), i as int + 1) is Ok {
                        let ds = parse_all(rv.skip(i as int + 1), i as int + 1)->Ok_0;
                        assert(out0 + (seq![dv] + ds) =~= out0.push(dv) + ds);
                    }
                }
                i = i + 1;
            },
            Err(p) => {
                return Err(crate::error::GenError::DirectiveSyntax { directive: i, token: p });
            },
        }
    }
    proof {
        assert(rv.skip(i as int) =~= Seq::<Seq<TokenModel>>::empty());
        assert(out.deep_view() + Seq::<DirectiveModel>::empty() =~= out.deep_view());
    }
    Ok(out)
}

/// True exactly when the text equals the given comparison string.
fn text_eq(a: &String, b: &str) -> (r: bool)
    ensures
        r == (a@ == b@),
{
    let bs = String::from_str(b);
    *a == bs
}

/// Collects the identifiers of one parenthesized list, or reports that
/// the list is malformed.
pub fn parse_group(items: &Vec<Atom>) -> (r: Option<Vec<String>>)
    ensures
        ({
            let s = group_items(items.deep_view());
            match r {
                Some(ids) => s is Some && ids.deep_view() == s->Some_0,
                None => s is None,
            }
        }),
{
    let ghost gv = items.deep_view();
    let mut out: Vec<String> = Vec::new();
    let mut j: usize = 0;
    proof {
        assert(gv.skip(0) =~= gv);
        if group_items(gv) is Some {
            assert(Seq::<Seq<char>>::empty() + group_items(gv)->Some_0 =~= group_items(
                gv,
            )->Some_0);
        }
    }
    while j < items.len()
        invariant
            j <= items.len(),
            gv == items.deep_view(),
            group_items(gv) == (match group_items(gv.skip(j as int)) {
                Some(ids) => Some(out.deep_view() + ids),
                None => None::<Seq<Seq<char>>>,
            }),
        decreases items.len() - j,
    {
        match &items[j] {
            Atom::Ident(name) => {
                let ghost out0 = out.deep_view();
                out.push(name.clone());
                proof {
                    assert(out.deep_view() =~= out0.push(name@));
                }
                if j + 1 < items.len() && atom_is_comma(&items[j + 1]) {
                    proof {
                        assert(gv.skip(j as int).skip(2) =~= gv.skip(j as int + 2));
                        if group_items(gv.skip(j as int + 2)) is Some {
                            let ids = group_items(gv.skip(j as int + 2))->Some_0;
                            assert(out0 + (seq![name@] + ids) =~= out0.push(name@) + ids);
                        }
                    }
                    j = j + 2;
                } else {
                    proof {
                        assert(gv.skip(j as int).skip(1) =~= gv.skip(j as int + 1));
                        if group_items(gv.skip(j as int + 1)) is Some {
                            let ids = group_items(gv.skip(j as int + 1))->Some_0;
                            assert(out0 + (seq![name@] + ids) =~= out0.push(name@) + ids);
                        }
                    }
                    j = j + 1;
                }
            },
            _ => {
                return None;
            },
        }
    }
    proof {
        assert(gv.skip(j as int) =~= Seq::<AtomModel>::empty());
        assert(out.deep_view() + Seq::<Seq<char>>::empty() =~= out.deep_view());
    }
    Some(out)
}

/// True exactly when the atom is a comma.
fn atom_is_comma(a: &Atom) -> (r: bool)
    ensures
        r == (a@ is Comma),
{
    match a {
        Atom::Comma => true,
        _ => false,
    }
}

/// True exactly when the token at index `j` is a comma.
fn token_is_comma(toks: &Vec<Token>, j: usize) -> (r: bool)
    requires
        j < toks.len(),
    ensures
        r == ({
            let t = toks.deep_view()[j as int];
            t is Atom && t->Atom_0 is Comma
        }),
{
    match &toks[j] {
        Token::Atom(Atom::Comma) => true,
        _ => false,
    }
}

/// Steps over the optional comma that may follow a parsed item, and
/// carries the parse of the remaining tokens back to `parse_from`.
fn skip_comma(toks: &Vec<Token>, i: usize, Ghost(st): Ghost<ParseState>) -> (j: usize)
    requires
        i <= toks.len(),
    ensures
        i <= j <= toks.len(),
        after_item(toks.deep_view().skip(i as int), i as int, st) == parse_from(
            toks.deep_view().skip(j as int),
            j as int,
            st,
        ),
{
    let ghost tv = toks.deep_view();
    if i < toks.len() && token_is_comma(toks, i) {
        proof {
            assert(tv.skip(i as int).skip(1) =~= tv.skip(i as int + 1));
        }
        i + 1
    } else {
        i
    }
}

/// Parses the token sequence of one projection directive. An error is
/// the index of the first offending token.
pub fn parse_directive(toks: &Vec<Token>) -> (r: Result<Directive, usize>)
    ensures
        ({
            let s = spec_parse_directive(toks.deep_view());
            match r {
                Ok(d) => s is Ok && d@ == s->Ok_0,
                Err(p) => s is Err && p as int == s->Err_0,
            }
        }),
{
    let ghost tv = toks.deep_view();
    let mut target: Option<String> = None;
    let mut caps: Vec<String> = Vec::new();
    let mut omit: Vec<String> = Vec::new();
    let mut optional: Vec<String> = Vec::new();
    let mut seen_derive: bool = false;
    let mut seen_omit: bool = false;
    let mut seen_optional: bool = false;
    let mut i: usize = 0;
    proof {
        assert(tv.skip(0) =~= tv);
        assert(caps.deep_view() =~= Seq::<Seq<char>>::empty());
        assert(omit.deep_view() =~= Seq::<Seq<char>>::empty());
        assert(optional.deep_view() =~= Seq::<Seq<char>>::empty());
    }
    while i < toks.len()
        invariant
            i <= toks.len(),
            tv == toks.deep_view(),
            parse_from(
                tv.skip(i as int),
                i as int,
                ParseState {
                    target: target.deep_view(),
                    caps: caps.deep_view(),
                    omit: omit.deep_view(),
                    optional: optional.deep_view(),
                    seen_derive,
                    seen_omit,
                    seen_optional,
                },
            ) == parse_from(tv, 0, init_state()),
        decreases toks.len() - i,
    {
        let ghost st0 = ParseState {
            target: target.deep_view(),
            caps: caps.deep_view(),
            omit: omit.deep_view(),
            optional: optional.deep_view(),
            seen_derive,
            seen_omit,
            seen_optional,
        };
        proof {
            assert(tv[i as int] == toks@[i as int].deep_view());
            assert(tv.skip(i as int)[0] == tv[i as int]);
            assert(tv.skip(i as int).skip(1) =~= tv.skip(i as int + 1));
            if i + 1 < toks.len() {
                assert(tv[i as int + 1] == toks@[i as int + 1].deep_view());
                assert(tv.skip(i as int)[1] == tv[i as int + 1]);
            }
        }
        match &toks[i] {
            Token::Atom(Atom::Text(s)) => {
                if target.is_some() {
                    return Err(i);
                }
                target = Some(s.clone());
                let ghost st1 = ParseState { target: Some(s@), ..st0 };
                proof {
                    assert(parse_from(tv.skip(i as int), i as int, st0) == after_item(
                        tv.skip(i as int + 1),
                        i as int + 1,
                        st1,
                    ));
                }
                i = skip_comma(toks, i + 1, Ghost(st1));
            },
            Token::Atom(Atom::Ident(k)) => {
                let is_derive = text_eq(k, "derive");
                let is_omit = text_eq(k, "omit");
                let is_optional = text_eq(k, "optional");
                proof {
                    reveal_strlit("derive");
                    reveal_strlit("omit");
                    reveal_strlit("optional");
                    assert("derive"@.len() != "omit"@.len());
                    assert("derive"@.len() != "optional"@.len());
                    assert("omit"@.len() != "optional"@.len());
                }
                if !(is_derive || is_omit || is_optional) {
                    return Err(i);
                }
                if (is_derive && seen_derive) || (is_omit && seen_omit) || (is_optional
                    && seen_optional) {
                    return Err(i);
                }
                if i + 1 >= toks.len() {
                    return Err(i);
                }
                match &toks[i + 1] {
                    Token::Group(items) => {
                        match parse_group(items) {
                            Some(ids) => {
                                proof {
                                    assert(tv.skip(i as int)[1] == tv[i as int + 1]);
                                    assert(tv.skip(i as int).skip(2) =~= tv.skip(i as int + 2));
                                }
                                let ghost ids_v = ids.deep_view();
                                if is_derive {
                                    caps = ids;
                                    seen_derive = true;
                                    let ghost st1 = ParseState {
                                        caps: ids_v,
                                        seen_derive: true,
                                        ..st0
                                    };
                                    proof {
                                        assert(parse_from(tv.skip(i as int), i as int, st0)
                                            == after_item(
                                            tv.skip(i as int + 2),
                                            i as int + 2,
                                            st1,
                                        ));
                                    }
                                    i = skip_comma(toks, i + 2, Ghost(st1));
                                } else if is_omit {
                                    omit = ids;
                                    seen_omit = true;
                                    let ghost st1 = ParseState {
                                        omit: ids_v,
                                        seen_omit: true,
                                        ..st0
                                    };
                                    proof {
                                        assert(parse_from(tv.skip(i as int), i as int, st0)
                                            == after_item(
                                            tv.skip(i as int + 2),
                                            i as int + 2,
                                            st1,
                                        ));
                                    }
                                    i = skip_comma(toks, i + 2, Ghost(st1));
                                } else {
                                    optional = ids;
                                    seen_optional = true;
                                    let ghost st1 = ParseState {
                                        optional: ids_v,
                                        seen_optional: true,
                                        ..st0
                                    };
                                    proof {
                                        assert(parse_from(tv.skip(i as int), i as int, st0)
                                            == after_item(
                                            tv.skip(i as int + 2),
                                            i as int + 2,
                                            st1,
                                        ));
                                    }
                                    i = skip_comma(toks, i + 2, Ghost(st1));
                                }
                            },
                            None => {
                                return Err(i);
                            },
                        }
                    },
                    Token::Atom(_) => {
                        return Err(i);
                    },
                }
            },
            Token::Atom(_) => {
                return Err(i);
            },
            Token::Group(_) => {
                return Err(i);
            },
        }
    }
    proof {
        assert(tv.skip(i as int) =~= Seq::<TokenModel>::empty());
    }
    Ok(Directive { target_name: target, capabilities: caps, omit, optional })
}

} // verus!
