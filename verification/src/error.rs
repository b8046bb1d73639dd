//! The diagnostics of a generation pass. A pass surfaces at most one
//! structured error; any error aborts the whole pass for its record, so a
//! caller never sees partial output.

use vstd::prelude::*;

verus! {

/// The single structured error of a failing generation pass.
#[derive(Debug, Clone, PartialEq, Eq)]
pub enum GenError {
    /// A directive does not follow the directive grammar. `directive` is
    /// the index of the offending directive in the list handed to the
    /// engine, and `token` the index of the offending token within it (for
    /// a fault inside a parenthesized list, the index of the clause
    /// keyword that opened it).
    DirectiveSyntax { directive: usize, token: usize },
    /// The source record is not a named-field composite.
    UnsupportedShape,
    /// An omit or optional set names a field the record does not declare.
    UnknownField { name: String },
    /// One or more fields are named by both the omit set and the optional
    /// set. `names` holds every conflicting name, sorted.
    ConflictingClassification { names: Vec<String> },
}

/// The mathematical shape of a [`GenError`].
pub enum ErrorModel {
    DirectiveSyntax { directive: int, token: int },
    UnsupportedShape,
    UnknownField { name: Seq<char> },
    ConflictingClassification { names: Seq<Seq<char>> },
}

impl View for GenError {
    type V = ErrorModel;

    open spec fn view(&self) -> ErrorModel {
        match self {
            GenError::DirectiveSyntax { directive, token } => ErrorModel::DirectiveSyntax {
                directive: *directive as int,
                token: *token as int,
            },
            GenError::UnsupportedShape => ErrorModel::UnsupportedShape,
            GenError::UnknownField { name } => ErrorModel::UnknownField { name: name@ },
            GenError::ConflictingClassification { names } => ErrorModel::ConflictingClassification {
                names: names.deep_view(),
            },
        }
    }
}

impl DeepView for GenError {
    type V = ErrorModel;

    open spec fn deep_view(&self) -> ErrorModel {
        self.view()
    }
}

/// The given names joined with a comma and a space between two neighbours.
pub open spec fn joined_names(names: Seq<Seq<char>>) -> Seq<char>
    decreases names.len(),
{
    if names.len() == 0 {
        Seq::empty()
    } else if names.len() == 1 {
        names[0]
    } else {
        joined_names(names.drop_last()) + ", "@ + names.last()
    }
}

/// The human-readable text of an error. A syntax error's positions stand
/// in the structured fields, not in the text.
pub open spec fn spec_message(e: ErrorModel) -> Seq<char> {
    match e {
        ErrorModel::DirectiveSyntax { .. } => "malformed projection directive"@,
        ErrorModel::UnsupportedShape => "projections require a composite with named fields"@,
        ErrorModel::UnknownField { name } => "unknown field: "@ + name,
        ErrorModel::ConflictingClassification { names } => "fields marked both omitted and optional: "@
            + joined_names(names),
    }
}

impl GenError {
    /// Renders the error as one line of text for a diagnostics channel.
    pub fn message(&self) -> (r: String)
        ensures
            r@ == spec_message(self@),
    {
        match self {
            GenError::DirectiveSyntax { .. } => String::from_str("malformed projection directive"),
            GenError::UnsupportedShape => String::from_str(
                "projections require a composite with named fields",
            ),
            GenError::UnknownField { name } => {
                let mut r = String::from_str("unknown field: ");
                r.append(name.as_str());
                r
            },
            GenError::ConflictingClassification { names } => {
                let mut r = String::from_str("fields marked both omitted and optional: ");
                let mut i: usize = 0;
                while i < names.len()
                    invariant
                        i <= names.len(),
                        r@ == "fields marked both omitted and optional: "@ + joined_names(
                            names.deep_view().take(i as int),
                        ),
                    decreases names.len() - i,
                {
                    if i > 0 {
                        r.append(", ");
                    }
                    r.append(names[i].as_str());
                    proof {
                        let ns = names.deep_view();
                        assert(ns.take(i + 1).drop_last() =~= ns.take(i as int));
                        assert(ns.take(i + 1).last() == ns[i as int]);
                    }
                    i = i + 1;
                }
                proof {
                    assert(names.deep_view().take(names.len() as int) =~= names.deep_view());
                }
                r
            },
        }
    }
}

} // verus!
