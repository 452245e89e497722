//! Engine-wide laws, each proved from the specification functions that the
//! public contracts speak of.

use vstd::prelude::*;

use crate::error::EvalError;
use crate::node::{
    lemma_path_lookup_null, obj_get, spec_eval, spec_path_lookup, SpecNode,
};
use crate::parser::{sp_climb, sp_expr, sp_primary};
use crate::runtime::{
    is_nil_word, is_null_word, spec_tokenize, Arity, OpInfo, OpKind, SpecOperator, Token,
};
use crate::value::{spec_truthy, SpecValue};

verus! {

/// Determinism: evaluation is a pure function of the tree and the context,
/// so evaluating the same compiled tree against equal contexts yields equal
/// results, however often it is repeated.
pub proof fn lemma_eval_deterministic(n: SpecNode, c1: SpecValue, c2: SpecValue)
    requires
        c1 == c2,
    ensures
        spec_eval(n, c1) == spec_eval(n, c2),
{
}

/// Null propagation: when the first segment of a path resolves to `Null` in
/// the context object — whether the key holds `Null` or is absent entirely —
/// the whole path reference evaluates to `Null`, and comparing it with the
/// null literal for equality yields `true`, whatever the remaining segments.
pub proof fn lemma_null_path_propagates(ctx: SpecValue, p: Seq<Seq<u8>>, eq_op: OpInfo)
    requires
        p.len() >= 1,
        ctx is Object,
        obj_get(ctx->Object_0, p[0]) == SpecValue::Null,
        eq_op.arity == Arity::Binary,
        eq_op.semantics == OpKind::CmpEq,
    ensures
        spec_path_lookup(ctx, p, 0) == SpecValue::Null,
        spec_eval(
            SpecNode::Binary(eq_op, Box::new(SpecNode::Arg(p)), Box::new(SpecNode::NullLit)),
            ctx,
        ) == Result::<SpecValue, EvalError>::Ok(SpecValue::Bool(true)),
{
    reveal_with_fuel(spec_eval, 3);
    lemma_path_lookup_null(p, 1);
}

/// Short-circuit of `&&`: when the left operand evaluates to a falsy value,
/// the conjunction is `false` and the right operand is never consulted — in
/// particular an error it would raise (such as a division by zero) does not
/// surface.
pub proof fn lemma_and_short_circuit(
    op: OpInfo,
    l: SpecNode,
    r: SpecNode,
    ctx: SpecValue,
    lv: SpecValue,
)
    requires
        op.arity == Arity::Binary,
        op.semantics == OpKind::LogAnd,
        spec_eval(l, ctx) == Result::<SpecValue, EvalError>::Ok(lv),
        !spec_truthy(lv),
    ensures
        spec_eval(SpecNode::Binary(op, Box::new(l), Box::new(r)), ctx)
            == Result::<SpecValue, EvalError>::Ok(SpecValue::Bool(false)),
{
}

/// Short-circuit of `||`: when the left operand evaluates to a truthy value,
/// the disjunction is `true` and the right operand is never consulted.
pub proof fn lemma_or_short_circuit(
    op: OpInfo,
    l: SpecNode,
    r: SpecNode,
    ctx: SpecValue,
    lv: SpecValue,
)
    requires
        op.arity == Arity::Binary,
        op.semantics == OpKind::LogOr,
        spec_eval(l, ctx) == Result::<SpecValue, EvalError>::Ok(lv),
        spec_truthy(lv),
    ensures
        spec_eval(SpecNode::Binary(op, Box::new(l), Box::new(r)), ctx)
            == Result::<SpecValue, EvalError>::Ok(SpecValue::Bool(true)),
{
}

/// String concatenation overload: whenever both operands of `+` evaluate to
/// text, the result is their concatenation, whatever the operand trees were.
pub proof fn lemma_concat_text(
    op: OpInfo,
    l: SpecNode,
    r: SpecNode,
    ctx: SpecValue,
    x: Seq<u8>,
    y: Seq<u8>,
)
    requires
        op.arity == Arity::Binary,
        op.semantics == OpKind::ArithAdd,
        spec_eval(l, ctx) == Result::<SpecValue, EvalError>::Ok(SpecValue::Text(x)),
        spec_eval(r, ctx) == Result::<SpecValue, EvalError>::Ok(SpecValue::Text(y)),
    ensures
        spec_eval(SpecNode::Binary(op, Box::new(l), Box::new(r)), ctx)
            == Result::<SpecValue, EvalError>::Ok(SpecValue::Text(x + y)),
{
}

/// The two null spellings are interchangeable: against any operator table,
/// the inputs `null` and `nil` tokenize to the same single token, so the two
/// spellings denote the same value everywhere an expression holds one.
pub proof fn lemma_null_nil_equivalent(t: Seq<SpecOperator>)
    ensures
        spec_tokenize(seq![110u8, 117u8, 108u8, 108u8], t) == Result::<
            Seq<Token>,
            crate::error::SyntaxError,
        >::Ok(seq![Token::NullLit]),
        spec_tokenize(seq![110u8, 105u8, 108u8], t) == Result::<
            Seq<Token>,
            crate::error::SyntaxError,
        >::Ok(seq![Token::NullLit]),
{
    reveal_with_fuel(crate::runtime::spec_tokenize_from, 3);
    let s1 = seq![110u8, 117u8, 108u8, 108u8];
    assert(crate::runtime::ident_end(s1, 4) == 4);
    assert(crate::runtime::ident_end(s1, 3) == 4);
    assert(crate::runtime::ident_end(s1, 2) == 4);
    assert(crate::runtime::ident_end(s1, 1) == 4);
    assert(crate::runtime::ident_end(s1, 0) == 4);
    assert(is_null_word(s1, 0, 4));
    assert(spec_tokenize(s1, t) == Result::<Seq<Token>, crate::error::SyntaxError>::Ok(
        seq![Token::NullLit] + Seq::<Token>::empty(),
    ));
    assert(seq![Token::NullLit] + Seq::<Token>::empty() =~= seq![Token::NullLit]);
    let s2 = seq![110u8, 105u8, 108u8];
    assert(crate::runtime::ident_end(s2, 3) == 3);
    assert(crate::runtime::ident_end(s2, 2) == 3);
    assert(crate::runtime::ident_end(s2, 1) == 3);
    assert(crate::runtime::ident_end(s2, 0) == 3);
    assert(is_nil_word(s2, 0, 3));
    assert(spec_tokenize(s2, t) == Result::<Seq<Token>, crate::error::SyntaxError>::Ok(
        seq![Token::NullLit] + Seq::<Token>::empty(),
    ));
    assert(seq![Token::NullLit] + Seq::<Token>::empty() =~= seq![Token::NullLit]);
}


/// Whether token `k` of `toks` is a binary operator.
pub open spec fn binary_op_at(toks: Seq<Token>, k: int) -> bool {
    0 <= k < toks.len() && (toks[k] matches Token::Operator(i) && i.arity == Arity::Binary)
}

/// A successful primary parse consumes at least one token and its last
/// consumed token is not a binary operator.
pub proof fn lemma_primary_shape(s: Seq<u8>, toks: Seq<Token>, pos: int, fuel: nat)
    ensures
        match sp_primary(s, toks, pos, fuel) {
            Ok(r) => pos < r.1 <= toks.len() && !binary_op_at(toks, r.1 - 1),
            Err(_) => true,
        },
    decreases fuel,
{
    if fuel > 0 && 0 <= pos < toks.len() {
        match toks[pos] {
            Token::LParen => {
                lemma_expr_shape(s, toks, pos + 1, 0, (fuel - 1) as nat);
            },
            Token::Operator(info) => {
                if info.arity == Arity::Unary || info.semantics == OpKind::ArithSub {
                    lemma_primary_shape(s, toks, pos + 1, (fuel - 1) as nat);
                }
            },
            _ => {},
        }
    }
}

/// A successful climb never moves backwards, and when it consumes anything
/// its last consumed token is not a binary operator.
pub proof fn lemma_climb_shape(
    s: Seq<u8>,
    toks: Seq<Token>,
    left: SpecNode,
    pos: int,
    min_prec: u64,
    fuel: nat,
)
    ensures
        match sp_climb(s, toks, left, pos, min_prec, fuel) {
            Ok(r) => pos <= r.1 && (r.1 == pos || (r.1 <= toks.len() && !binary_op_at(
                toks,
                r.1 - 1,
            ))),
            Err(_) => true,
        },
    decreases fuel,
{
    if fuel > 0 && 0 <= pos < toks.len() {
        match toks[pos] {
            Token::Operator(info) => {
                if info.arity == Arity::Binary && info.precedence as u64 >= min_prec {
                    lemma_expr_shape(s, toks, pos + 1, (info.precedence + 1) as u64, (fuel - 1) as nat);
                    match sp_expr(s, toks, pos + 1, (info.precedence + 1) as u64, (fuel - 1) as nat) {
                        Ok(r) => {
                            lemma_climb_shape(
                                s,
                                toks,
                                SpecNode::Binary(info, Box::new(left), Box::new(r.0)),
                                r.1,
                                min_prec,
                                (fuel - 1) as nat,
                            );
                        },
                        Err(_) => {},
                    }
                }
            },
            _ => {},
        }
    }
}

/// A successful expression parse consumes at least one token and its last
/// consumed token is not a binary operator.
pub proof fn lemma_expr_shape(s: Seq<u8>, toks: Seq<Token>, pos: int, min_prec: u64, fuel: nat)
    ensures
        match sp_expr(s, toks, pos, min_prec, fuel) {
            Ok(r) => pos < r.1 <= toks.len() && !binary_op_at(toks, r.1 - 1),
            Err(_) => true,
        },
    decreases fuel,
{
    if fuel > 0 {
        lemma_primary_shape(s, toks, pos, (fuel - 1) as nat);
        match sp_primary(s, toks, pos, (fuel - 1) as nat) {
            Ok(r) => {
                lemma_climb_shape(s, toks, r.0, r.1, min_prec, (fuel - 1) as nat);
            },
            Err(_) => {},
        }
    }
}

/// Syntax failure on a dangling operator: an expression whose token
/// sequence ends in a binary operator never parses — the parser returns a
/// syntax error rather than a tree.
pub proof fn lemma_dangling_operator_fails(s: Seq<u8>, t: Seq<SpecOperator>)
    requires
        spec_tokenize(s, t) matches Ok(toks) && toks.len() > 0 && binary_op_at(
            toks,
            toks.len() - 1,
        ),
    ensures
        crate::parser::spec_parse(s, t) is Err,
{
    let toks = spec_tokenize(s, t)->Ok_0;
    if !(4 * toks.len() + 16 > usize::MAX) {
        lemma_expr_shape(s, toks, 0, 0, crate::parser::fuel_for(toks.len()));
    }
}

} // verus!

