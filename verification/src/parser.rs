//! The parser: precedence climbing over the token sequence.
//!
//! A primary expression is a literal, a path, a parenthesized
//! sub-expression or a prefix operator applied to a primary; the climbing
//! step repeatedly consumes a binary operator of sufficient precedence and
//! parses its right operand at one level higher, so equal precedence
//! associates left to right.  The functions carry a fuel bound on recursion
//! depth; the entry point supplies more than any token sequence can use, so
//! parsing always terminates and a well-formed expression never exhausts it.

use vstd::prelude::*;
use vstd::string::StringSliceAdditionalSpecFns;

use crate::error::{SyntaxError, SyntaxErrorKind};
use crate::node::{split_dots, split_path, copy_range, Node, SpecNode};
use crate::runtime::{
    parser_tokens, spec_tokenize, Arity, OpInfo, OpKind, OptMap, SpecOperator, Token,
};

verus! {

/// The precedence given to prefix negation, above every binary built-in.
pub const NEG_PRECEDENCE: u32 = 7;

/// A parsed primary expression at token `pos`, with the next position.
pub open spec fn sp_primary(s: Seq<u8>, toks: Seq<Token>, pos: int, fuel: nat) -> Result<
    (SpecNode, int),
    SyntaxError,
>
    decreases fuel,
{
    if fuel == 0 {
        Err(SyntaxError { pos: 0, kind: SyntaxErrorKind::TooDeep })
    } else if !(0 <= pos <= toks.len()) {
        Err(SyntaxError { pos: 0, kind: SyntaxErrorKind::UnexpectedToken })
    } else if pos == toks.len() {
        Err(SyntaxError { pos: pos as usize, kind: SyntaxErrorKind::UnexpectedEnd })
    } else {
        match toks[pos] {
            Token::Text { start, end } => if start <= end <= s.len() {
                Ok((SpecNode::Text(s.subrange(start as int, end as int)), pos + 1))
            } else {
                Err(SyntaxError { pos: pos as usize, kind: SyntaxErrorKind::UnexpectedToken })
            },
            Token::Number(v) => Ok((SpecNode::Number(v), pos + 1)),
            Token::NullLit => Ok((SpecNode::NullLit, pos + 1)),
            Token::Path { start, end } => if start <= end <= s.len() {
                Ok((SpecNode::Arg(split_dots(s.subrange(start as int, end as int))), pos + 1))
            } else {
                Err(SyntaxError { pos: pos as usize, kind: SyntaxErrorKind::UnexpectedToken })
            },
            Token::LParen => match sp_expr(s, toks, pos + 1, 0, (fuel - 1) as nat) {
                Err(e) => Err(e),
                Ok((n, p)) => if 0 <= p < toks.len() && toks[p] == Token::RParen {
                    Ok((n, p + 1))
                } else {
                    Err(SyntaxError { pos: pos as usize, kind: SyntaxErrorKind::UnmatchedParen })
                },
            },
            Token::RParen => Err(
                SyntaxError { pos: pos as usize, kind: SyntaxErrorKind::UnexpectedToken },
            ),
            Token::Operator(info) => if info.arity == Arity::Unary {
                match sp_primary(s, toks, pos + 1, (fuel - 1) as nat) {
                    Err(e) => Err(e),
                    Ok((c, p)) => Ok((SpecNode::Unary(info, Box::new(c)), p)),
                }
            } else if info.semantics == OpKind::ArithSub {
                match sp_primary(s, toks, pos + 1, (fuel - 1) as nat) {
                    Err(e) => Err(e),
                    Ok((c, p)) => Ok(
                        (
                            SpecNode::Unary(
                                OpInfo {
                                    precedence: NEG_PRECEDENCE,
                                    arity: Arity::Unary,
                                    semantics: OpKind::ArithNeg,
                                },
                                Box::new(c),
                            ),
                            p,
                        ),
                    ),
                }
            } else {
                Err(SyntaxError { pos: pos as usize, kind: SyntaxErrorKind::UnexpectedToken })
            },
        }
    }
}

/// Folds binary operators of precedence at least `min_prec` onto `left`.
pub open spec fn sp_climb(
    s: Seq<u8>,
    toks: Seq<Token>,
    left: SpecNode,
    pos: int,
    min_prec: u64,
    fuel: nat,
) -> Result<(SpecNode, int), SyntaxError>
    decreases fuel,
{
    if fuel == 0 {
        Err(SyntaxError { pos: 0, kind: SyntaxErrorKind::TooDeep })
    } else if 0 <= pos < toks.len() && (toks[pos] matches Token::Operator(info) && info.arity
        == Arity::Binary && info.precedence as u64 >= min_prec) {
        match toks[pos] {
            Token::Operator(info) => match sp_expr(
                s,
                toks,
                pos + 1,
                (info.precedence + 1) as u64,
                (fuel - 1) as nat,
            ) {
                Err(e) => Err(e),
                Ok((r, p2)) => sp_climb(
                    s,
                    toks,
                    SpecNode::Binary(info, Box::new(left), Box::new(r)),
                    p2,
                    min_prec,
                    (fuel - 1) as nat,
                ),
            },
            _ => Ok((left, pos)),
        }
    } else {
        Ok((left, pos))
    }
}

/// A parsed expression at token `pos`, consuming operators of precedence at
/// least `min_prec`.
pub open spec fn sp_expr(s: Seq<u8>, toks: Seq<Token>, pos: int, min_prec: u64, fuel: nat) -> Result<
    (SpecNode, int),
    SyntaxError,
>
    decreases fuel,
{
    if fuel == 0 {
        Err(SyntaxError { pos: 0, kind: SyntaxErrorKind::TooDeep })
    } else {
        match sp_primary(s, toks, pos, (fuel - 1) as nat) {
            Err(e) => Err(e),
            Ok((l, p)) => sp_climb(s, toks, l, p, min_prec, (fuel - 1) as nat),
        }
    }
}

/// The fuel the entry point grants: ample for any token sequence.
pub open spec fn fuel_for(n: nat) -> nat {
    4 * n + 16
}

/// The parse of a whole expression: tokenize, parse one expression, and
/// demand that every token was consumed.
pub open spec fn spec_parse(s: Seq<u8>, t: Seq<SpecOperator>) -> Result<SpecNode, SyntaxError> {
    match spec_tokenize(s, t) {
        Err(e) => Err(e),
        Ok(toks) => if 4 * toks.len() + 16 > usize::MAX {
            Err(SyntaxError { pos: 0, kind: SyntaxErrorKind::TooLong })
        } else {
            match sp_expr(s, toks, 0, 0, fuel_for(toks.len())) {
                Err(e) => Err(e),
                Ok((n, p)) => if p == toks.len() {
                    Ok(n)
                } else {
                    Err(SyntaxError { pos: p as usize, kind: SyntaxErrorKind::TrailingToken })
                },
            }
        },
    }
}

/// Whether an executable parsing step matches a specified one.
pub open spec fn step_res_matches(
    r: Result<(Node, usize), SyntaxError>,
    sp: Result<(SpecNode, int), SyntaxError>,
) -> bool {
    match (r, sp) {
        (Ok((n, p)), Ok((sn, spp))) => n@ == sn && p as int == spp,
        (Err(a), Err(b)) => a == b,
        _ => false,
    }
}

/// Whether an executable parse result matches a specified one.
pub open spec fn parse_res_matches(
    r: Result<Node, SyntaxError>,
    sp: Result<SpecNode, SyntaxError>,
) -> bool {
    match (r, sp) {
        (Ok(n), Ok(sn)) => n@ == sn,
        (Err(a), Err(b)) => a == b,
        _ => false,
    }
}

fn p_primary(s: &Vec<u8>, toks: &Vec<Token>, pos: usize, fuel: usize) -> (r: Result<
    (Node, usize),
    SyntaxError,
>)
    requires
        pos <= toks@.len(),
    ensures
        step_res_matches(r, sp_primary(s@, toks@, pos as int, fuel as nat)),
        r matches Ok(p) ==> p.1 <= toks@.len(),
    decreases fuel,
{
    if fuel == 0 {
        return Err(SyntaxError { pos: 0, kind: SyntaxErrorKind::TooDeep });
    }
    if pos == toks.len() {
        return Err(SyntaxError { pos, kind: SyntaxErrorKind::UnexpectedEnd });
    }
    match toks[pos] {
        Token::Text { start, end } => {
            if start <= end && end <= s.len() {
                Ok((Node::Text(copy_range(s, start, end)), pos + 1))
            } else {
                Err(SyntaxError { pos, kind: SyntaxErrorKind::UnexpectedToken })
            }
        },
        Token::Number(v) => Ok((Node::Number(v), pos + 1)),
        Token::NullLit => Ok((Node::NullLit, pos + 1)),
        Token::Path { start, end } => {
            if start <= end && end <= s.len() {
                let raw = copy_range(s, start, end);
                Ok((Node::Arg(split_path(&raw, 0)), pos + 1))
            } else {
                Err(SyntaxError { pos, kind: SyntaxErrorKind::UnexpectedToken })
            }
        },
        Token::LParen => {
            match p_expr(s, toks, pos + 1, 0, fuel - 1) {
                Err(e) => Err(e),
                Ok((n, p)) => {
                    if p < toks.len() && toks[p] == Token::RParen {
                        Ok((n, p + 1))
                    } else {
                        Err(SyntaxError { pos, kind: SyntaxErrorKind::UnmatchedParen })
                    }
                },
            }
        },
        Token::RParen => Err(SyntaxError { pos, kind: SyntaxErrorKind::UnexpectedToken }),
        Token::Operator(info) => {
            if matches!(info.arity, Arity::Unary) {
                match p_primary(s, toks, pos + 1, fuel - 1) {
                    Err(e) => Err(e),
                    Ok((c, p)) => Ok((Node::Unary(info, Box::new(c)), p)),
                }
            } else if matches!(info.semantics, OpKind::ArithSub) {
                match p_primary(s, toks, pos + 1, fuel - 1) {
                    Err(e) => Err(e),
                    Ok((c, p)) => Ok(
                        (
                            Node::Unary(
                                OpInfo {
                                    precedence: NEG_PRECEDENCE,
                                    arity: Arity::Unary,
                                    semantics: OpKind::ArithNeg,
                                },
                                Box::new(c),
                            ),
                            p,
                        ),
                    ),
                }
            } else {
                Err(SyntaxError { pos, kind: SyntaxErrorKind::UnexpectedToken })
            }
        },
    }
}

fn p_climb(
    s: &Vec<u8>,
    toks: &Vec<Token>,
    left: Node,
    pos: usize,
    min_prec: u64,
    fuel: usize,
) -> (r: Result<(Node, usize), SyntaxError>)
    requires
        pos <= toks@.len(),
    ensures
        step_res_matches(r, sp_climb(s@, toks@, left@, pos as int, min_prec, fuel as nat)),
        r matches Ok(p) ==> p.1 <= toks@.len(),
    decreases fuel,
{
    if fuel == 0 {
        return Err(SyntaxError { pos: 0, kind: SyntaxErrorKind::TooDeep });
    }
    if pos < toks.len() {
        match toks[pos] {
            Token::Operator(info) => {
                if matches!(info.arity, Arity::Binary) && info.precedence as u64 >= min_prec {
                    match p_expr(s, toks, pos + 1, info.precedence as u64 + 1, fuel - 1) {
                        Err(e) => Err(e),
                        Ok((rhs, p2)) => p_climb(
                            s,
                            toks,
                            Node::Binary(info, Box::new(left), Box::new(rhs)),
                            p2,
                            min_prec,
                            fuel - 1,
                        ),
                    }
                } else {
                    Ok((left, pos))
                }
            },
            _ => Ok((left, pos)),
        }
    } else {
        Ok((left, pos))
    }
}

fn p_expr(s: &Vec<u8>, toks: &Vec<Token>, pos: usize, min_prec: u64, fuel: usize) -> (r: Result<
    (Node, usize),
    SyntaxError,
>)
    requires
        pos <= toks@.len(),
    ensures
        step_res_matches(r, sp_expr(s@, toks@, pos as int, min_prec, fuel as nat)),
        r matches Ok(p) ==> p.1 <= toks@.len(),
    decreases fuel,
{
    if fuel == 0 {
        return Err(SyntaxError { pos: 0, kind: SyntaxErrorKind::TooDeep });
    }
    match p_primary(s, toks, pos, fuel - 1) {
        Err(e) => Err(e),
        Ok((l, p)) => p_climb(s, toks, l, p, min_prec, fuel - 1),
    }
}

/// Compiles an expression string into an AST against an operator table.
pub fn parser(express: &str, opt_map: &OptMap) -> (r: Result<Node, SyntaxError>)
    ensures
        parse_res_matches(r, spec_parse(express.spec_bytes(), opt_map@)),
{
    let bytes = vstd::slice::slice_to_vec(express.as_bytes());
    match parser_tokens(express, opt_map) {
        Err(e) => Err(e),
        Ok(toks) => {
            let fuel = match toks.len().checked_mul(4) {
                None => {
                    return Err(SyntaxError { pos: 0, kind: SyntaxErrorKind::TooLong });
                },
                Some(m) => match m.checked_add(16) {
                    None => {
                        return Err(SyntaxError { pos: 0, kind: SyntaxErrorKind::TooLong });
                    },
                    Some(f) => f,
                },
            };
            match p_expr(&bytes, &toks, 0, 0, fuel) {
                Err(e) => Err(e),
                Ok((n, p)) => {
                    if p == toks.len() {
                        Ok(n)
                    } else {
                        Err(SyntaxError { pos: p, kind: SyntaxErrorKind::TrailingToken })
                    }
                },
            }
        },
    }
}

/// The entry point combining tokenizer and parser.
pub fn compile(express: &str, opt_map: &OptMap) -> (r: Result<Node, SyntaxError>)
    ensures
        parse_res_matches(r, spec_parse(express.spec_bytes(), opt_map@)),
{
    parser(express, opt_map)
}

} // verus!
