//! The constant-value evaluator: turns the engine's evaluation of an
//! initializer or default-value expression into a typed literal `Value`,
//! keyed by the primitive kind of the expression's type.

use vstd::prelude::*;

use crate::input::{Expr, PrimKind, SpecEvalResult, SpecExpr, SpecTypeNode};
use crate::report::{Diag, SpecDiag};
use crate::schema::{SpecValue, Value};

verus! {

/// Primitive kinds whose integer evaluation is read unsigned.
pub open spec fn unsigned_int_kind(k: PrimKind) -> bool {
    ||| k == PrimKind::Bool
    ||| k == PrimKind::UChar
    ||| k == PrimKind::UShort
    ||| k == PrimKind::UInt
    ||| k == PrimKind::ULong
    ||| k == PrimKind::ULongLong
}

/// Primitive kinds whose integer evaluation is read signed.
pub open spec fn signed_int_kind(k: PrimKind) -> bool {
    ||| k == PrimKind::Char
    ||| k == PrimKind::WChar
    ||| k == PrimKind::Short
    ||| k == PrimKind::Int
    ||| k == PrimKind::Long
    ||| k == PrimKind::LongLong
}

/// The primitive kind of an expression's type, if it has one.
pub open spec fn expr_prim_kind(t: SpecTypeNode) -> Option<PrimKind> {
    match t {
        SpecTypeNode::Prim { kind, .. } => Option::Some(kind),
        _ => Option::None,
    }
}

/// Evaluation of an expression: the typed literal if the evaluation shape
/// and the declared kind agree, together with the diagnostics emitted. A
/// missing type or a failed evaluation is silently not evaluable; a shape
/// the compiler does not support yields one diagnostic.
pub open spec fn spec_eval(e: SpecExpr) -> (Option<SpecValue>, Seq<SpecDiag>) {
    match (e.ty, e.eval) {
        (Option::Some(t), Option::Some(v)) => match v {
            SpecEvalResult::Integer(i) => match expr_prim_kind(t) {
                Option::Some(k) => if unsigned_int_kind(k) {
                    (Option::Some(SpecValue::UInt(i as u64)), Seq::empty())
                } else if signed_int_kind(k) {
                    (Option::Some(SpecValue::Int(i)), Seq::empty())
                } else {
                    (Option::None, seq![SpecDiag::UnsupportedEval])
                },
                Option::None => (Option::None, seq![SpecDiag::UnsupportedEval]),
            },
            SpecEvalResult::Float { bits64, bits32 } => match expr_prim_kind(t) {
                Option::Some(PrimKind::Float) => (
                    Option::Some(SpecValue::Float(bits32)),
                    Seq::empty(),
                ),
                Option::Some(PrimKind::Double) => (
                    Option::Some(SpecValue::Double(bits64)),
                    Seq::empty(),
                ),
                _ => (Option::None, seq![SpecDiag::UnsupportedEval]),
            },
            SpecEvalResult::Str(s) => (Option::Some(SpecValue::Str(s)), Seq::empty()),
            SpecEvalResult::Other => (Option::None, seq![SpecDiag::UnsupportedEval]),
        },
        _ => (Option::None, Seq::empty()),
    }
}

/// Evaluation of an optional expression: absent means not evaluable.
pub open spec fn spec_eval_opt(o: Option<SpecExpr>) -> (Option<SpecValue>, Seq<SpecDiag>) {
    match o {
        Option::Some(e) => spec_eval(e),
        Option::None => (Option::None, Seq::empty()),
    }
}

fn prim_kind_of(t: &crate::input::TypeNode) -> (r: Option<PrimKind>)
    ensures
        r == expr_prim_kind(t@),
{
    match t {
        crate::input::TypeNode::Prim { kind, .. } => Option::Some(*kind),
        _ => Option::None,
    }
}

/// Evaluates an expression into a `Value`, exactly as `spec_eval` states,
/// appending the diagnostics it emits.
pub fn parse_value(e: &Expr, diags: &mut Vec<Diag>) -> (r: Option<Value>)
    ensures
        ({
            let (sv, sd) = spec_eval(e@);
            &&& crate::schema::opt_value_view(r) == sv
            &&& crate::report::diags_view(final(diags)@) == crate::report::diags_view(old(diags)@) + sd
        }),
{
    let ghost d0 = diags@;
    match (&e.ty, &e.eval) {
        (Option::Some(t), Option::Some(v)) => {
            let r = match v {
                crate::input::EvalResult::Integer(i) => match prim_kind_of(t) {
                    Option::Some(k) => {
                        if k == PrimKind::Bool || k == PrimKind::UChar || k == PrimKind::UShort
                            || k == PrimKind::UInt || k == PrimKind::ULong
                            || k == PrimKind::ULongLong {
                            Option::Some(Value::UInt(#[verifier::truncate] (*i as u64)))
                        } else if k == PrimKind::Char || k == PrimKind::WChar
                            || k == PrimKind::Short || k == PrimKind::Int || k == PrimKind::Long
                            || k == PrimKind::LongLong {
                            Option::Some(Value::Int(*i))
                        } else {
                            diags.push(Diag::UnsupportedEval);
                            Option::None
                        }
                    },
                    Option::None => {
                        diags.push(Diag::UnsupportedEval);
                        Option::None
                    },
                },
                crate::input::EvalResult::Float { bits64, bits32 } => match prim_kind_of(t) {
                    Option::Some(PrimKind::Float) => Option::Some(Value::Float(*bits32)),
                    Option::Some(PrimKind::Double) => Option::Some(Value::Double(*bits64)),
                    _ => {
                        diags.push(Diag::UnsupportedEval);
                        Option::None
                    },
                },
                crate::input::EvalResult::Str(s) => Option::Some(Value::Str(s.clone())),
                crate::input::EvalResult::Other => {
                    diags.push(Diag::UnsupportedEval);
                    Option::None
                },
            };
            proof {
                if diags@ != d0 {
                    crate::schema::lemma_seq_view_push(d0, Diag::UnsupportedEval);
                }
                assert(crate::report::diags_view(diags@) =~= crate::report::diags_view(d0)
                    + spec_eval(e@).1);
            }
            r
        },
        _ => {
            proof {
                assert(crate::report::diags_view(diags@) =~= crate::report::diags_view(d0)
                    + spec_eval(e@).1);
            }
            Option::None
        },
    }
}

} // verus!
