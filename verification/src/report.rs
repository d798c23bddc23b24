//! Diagnostics: every recoverable-but-unsupported condition is reported as
//! one `Diag` value naming the offending declaration; surfacing them is the
//! caller's concern.

use vstd::prelude::*;

verus! {

/// One advisory diagnostic. The payload names the offending declaration.
pub enum Diag {
    UnsupportedGlobal(String),
    UnsupportedAlias(String),
    UnsupportedField(String),
    UnsupportedParam(String),
    UnsupportedReturn(String),
    UnsupportedEval,
}

pub ghost enum SpecDiag {
    UnsupportedGlobal(Seq<char>),
    UnsupportedAlias(Seq<char>),
    UnsupportedField(Seq<char>),
    UnsupportedParam(Seq<char>),
    UnsupportedReturn(Seq<char>),
    UnsupportedEval,
}

impl View for Diag {
    type V = SpecDiag;

    open spec fn view(&self) -> SpecDiag {
        match *self {
            Diag::UnsupportedGlobal(ref s) => SpecDiag::UnsupportedGlobal(s@),
            Diag::UnsupportedAlias(ref s) => SpecDiag::UnsupportedAlias(s@),
            Diag::UnsupportedField(ref s) => SpecDiag::UnsupportedField(s@),
            Diag::UnsupportedParam(ref s) => SpecDiag::UnsupportedParam(s@),
            Diag::UnsupportedReturn(ref s) => SpecDiag::UnsupportedReturn(s@),
            Diag::UnsupportedEval => SpecDiag::UnsupportedEval,
        }
    }
}

/// The view of a diagnostics list.
pub open spec fn diags_view(s: Seq<Diag>) -> Seq<SpecDiag> {
    crate::schema::seq_view(s)
}

} // verus!
