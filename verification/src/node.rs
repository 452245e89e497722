//! The AST node model and the evaluator.
//!
//! A [`Node`] tree is immutable after construction and is evaluated against a
//! context [`Value`] post-order, children first.  Path references never fail:
//! absence degrades to `Null`.  The whole evaluation semantics is given by
//! the specification function [`spec_eval`], and `Node::eval` is proved to
//! return exactly what it says.

use vstd::prelude::*;
use vstd::string::StringSliceAdditionalSpecFns;

use crate::error::EvalError;
use crate::runtime::{digit_end, num_value, Arity, OpInfo, OpKind};
use crate::value::{
    bytes_clone, bytes_eq, lemma_view_object_index, spec_truthy, truthy, view_object, view_value,
    SpecValue, Value,
};

verus! {

broadcast use vstd::std_specs::vec::group_vec_axioms;

/// The mathematical model of a [`Node`].
pub enum SpecNode {
    Text(Seq<u8>),
    Number(i64),
    NullLit,
    Arg(Seq<Seq<u8>>),
    Binary(OpInfo, Box<SpecNode>, Box<SpecNode>),
    Unary(OpInfo, Box<SpecNode>),
}

/// One node of the abstract syntax tree: a text literal, a number literal,
/// the null literal, a dotted path reference into the context, a binary
/// operation or a unary operation.
#[derive(Debug)]
pub enum Node {
    Text(Vec<u8>),
    Number(i64),
    NullLit,
    Arg(Vec<Vec<u8>>),
    Binary(OpInfo, Box<Node>, Box<Node>),
    Unary(OpInfo, Box<Node>),
}

/// The models of the segments of a path, in order.
pub open spec fn view_path(s: Seq<Vec<u8>>) -> Seq<Seq<u8>>
    decreases s.len(),
{
    if s.len() == 0 {
        Seq::empty()
    } else {
        view_path(s.drop_last()).push(s.last()@)
    }
}

/// `view_path` maps the sequence pointwise.
pub proof fn lemma_view_path_index(s: Seq<Vec<u8>>)
    ensures
        view_path(s).len() == s.len(),
        forall|i: int| 0 <= i < s.len() ==> view_path(s)[i] == s[i]@,
    decreases s.len(),
{
    if s.len() > 0 {
        lemma_view_path_index(s.drop_last());
    }
}

/// The model of an executable node.
pub open spec fn view_node(n: Node) -> SpecNode
    decreases n,
{
    match n {
        Node::Text(t) => SpecNode::Text(t@),
        Node::Number(x) => SpecNode::Number(x),
        Node::NullLit => SpecNode::NullLit,
        Node::Arg(p) => SpecNode::Arg(view_path(p@)),
        Node::Binary(op, l, r) => SpecNode::Binary(
            op,
            Box::new(view_node(*l)),
            Box::new(view_node(*r)),
        ),
        Node::Unary(op, c) => SpecNode::Unary(op, Box::new(view_node(*c))),
    }
}

impl View for Node {
    type V = SpecNode;

    open spec fn view(&self) -> SpecNode {
        view_node(*self)
    }
}

/// The decimal digits of `n`, most significant first (`0` for values
/// below one).
pub open spec fn udec(n: int) -> Seq<u8>
    decreases n,
{
    if n < 10 {
        seq![
            (48 + (if n < 0 {
                0
            } else {
                n
            })) as u8,
        ]
    } else {
        udec(n / 10) + seq![(48 + n % 10) as u8]
    }
}

/// The decimal text of a 64-bit integer, with a leading `-` when negative.
pub open spec fn dec_i64(x: i64) -> Seq<u8> {
    if x >= 0 {
        udec(x as int)
    } else {
        seq![45u8] + udec(-(x as int))
    }
}

fn udec_x(n: u64) -> (r: Vec<u8>)
    ensures
        r@ == udec(n as int),
    decreases n,
{
    if n < 10 {
        let mut v: Vec<u8> = Vec::new();
        v.push((48 + n) as u8);
        proof {
            assert(v@ =~= udec(n as int));
        }
        v
    } else {
        let mut v = udec_x(n / 10);
        v.push((48 + n % 10) as u8);
        proof {
            assert(v@ =~= udec((n / 10) as int) + seq![(48 + (n as int) % 10) as u8]);
        }
        v
    }
}

/// A fresh vector holding `a` followed by `b`.
pub fn concat_bytes(a: &Vec<u8>, b: &Vec<u8>) -> (r: Vec<u8>)
    ensures
        r@ == a@ + b@,
{
    let mut r = bytes_clone(a);
    let mut i: usize = 0;
    while i < b.len()
        invariant
            i <= b.len(),
            r@ =~= a@ + b@.subrange(0, i as int),
        decreases b.len() - i,
    {
        r.push(b[i]);
        proof {
            assert(r@ =~= a@ + b@.subrange(0, i + 1 as int));
        }
        i = i + 1;
    }
    proof {
        assert(a@ + b@.subrange(0, b@.len() as int) =~= a@ + b@);
    }
    r
}

fn dec_i64_x(x: i64) -> (r: Vec<u8>)
    ensures
        r@ == dec_i64(x),
{
    if x >= 0 {
        udec_x(x as u64)
    } else {
        let mag: u64 = if x == i64::MIN {
            9223372036854775808u64
        } else {
            (-x) as u64
        };
        proof {
            assert(mag as int == -(x as int));
        }
        let digits = udec_x(mag);
        let mut r: Vec<u8> = Vec::new();
        r.push(45u8);
        let out = concat_bytes(&r, &digits);
        proof {
            assert(r@ =~= seq![45u8]);
        }
        out
    }
}

/// The textual representation a value takes when concatenated with text:
/// text stays itself, numbers print in decimal, booleans as `true`/`false`,
/// null as `null`; arrays and objects have none.
pub open spec fn spec_text_of(v: SpecValue) -> Option<Seq<u8>> {
    match v {
        SpecValue::Text(t) => Some(t),
        SpecValue::Number(x) => Some(dec_i64(x)),
        SpecValue::Bool(b) => Some(
            if b {
                seq![116u8, 114u8, 117u8, 101u8]
            } else {
                seq![102u8, 97u8, 108u8, 115u8, 101u8]
            },
        ),
        SpecValue::Null => Some(seq![110u8, 117u8, 108u8, 108u8]),
        SpecValue::Array(_) => None,
        SpecValue::Object(_) => None,
    }
}

fn text_of(v: &Value) -> (r: Option<Vec<u8>>)
    ensures
        match r {
            Some(t) => spec_text_of(v@) == Some(t@),
            None => spec_text_of(v@) is None,
        },
{
    match v {
        Value::Text(t) => Some(bytes_clone(t)),
        Value::Number(x) => Some(dec_i64_x(*x)),
        Value::Bool(b) => {
            let mut t: Vec<u8> = Vec::new();
            if *b {
                t.push(116u8);
                t.push(114u8);
                t.push(117u8);
                t.push(101u8);
                proof {
                    assert(t@ =~= seq![116u8, 114u8, 117u8, 101u8]);
                }
            } else {
                t.push(102u8);
                t.push(97u8);
                t.push(108u8);
                t.push(115u8);
                t.push(101u8);
                proof {
                    assert(t@ =~= seq![102u8, 97u8, 108u8, 115u8, 101u8]);
                }
            }
            Some(t)
        },
        Value::Null => {
            let mut t: Vec<u8> = Vec::new();
            t.push(110u8);
            t.push(117u8);
            t.push(108u8);
            t.push(108u8);
            proof {
                assert(t@ =~= seq![110u8, 117u8, 108u8, 108u8]);
            }
            Some(t)
        },
        Value::Array(_) => None,
        Value::Object(_) => None,
    }
}

/// Strict lexicographic byte order, comparing from index `i` on.
pub open spec fn lex_lt_at(a: Seq<u8>, b: Seq<u8>, i: int) -> bool
    decreases a.len() - i,
{
    if i < 0 || i >= b.len() {
        false
    } else if i >= a.len() {
        true
    } else if a[i] < b[i] {
        true
    } else if a[i] > b[i] {
        false
    } else {
        lex_lt_at(a, b, i + 1)
    }
}

/// Strict lexicographic byte order on whole sequences.
pub open spec fn lex_lt(a: Seq<u8>, b: Seq<u8>) -> bool {
    lex_lt_at(a, b, 0)
}

fn lex_lt_at_x(a: &Vec<u8>, b: &Vec<u8>, i: usize) -> (r: bool)
    requires
        i <= a@.len(),
        i <= b@.len(),
    ensures
        r == lex_lt_at(a@, b@, i as int),
    decreases a@.len() - i,
{
    if i >= b.len() {
        false
    } else if i >= a.len() {
        true
    } else if a[i] < b[i] {
        true
    } else if a[i] > b[i] {
        false
    } else {
        lex_lt_at_x(a, b, i + 1)
    }
}

/// The value of an all-digit path segment, if it is one and it fits.
pub open spec fn seg_index(seg: Seq<u8>) -> Option<int> {
    if seg.len() == 0 {
        None
    } else if digit_end(seg, 0) != seg.len() {
        None
    } else {
        match num_value(seg, 0, seg.len() as int) {
            None => None,
            Some(m) => Some(m as int),
        }
    }
}

fn seg_index_x(seg: &Vec<u8>) -> (r: Option<i64>)
    ensures
        match r {
            Some(m) => seg_index(seg@) == Some(m as int) && m >= 0,
            None => seg_index(seg@) is None,
        },
{
    if seg.len() == 0 {
        return None;
    }
    let e = crate::runtime::digit_end_x(seg, 0);
    if e != seg.len() {
        return None;
    }
    proof {
        crate::runtime::lemma_num_value_nonneg(seg@, 0, seg@.len() as int);
    }
    crate::runtime::num_value_x(seg, 0, seg.len())
}

/// The value a key maps to among an object's entries; `Null` when absent.
/// The first entry with the key wins.
pub open spec fn obj_get(fields: Seq<(Seq<u8>, SpecValue)>, key: Seq<u8>) -> SpecValue
    decreases fields.len(),
{
    if fields.len() == 0 {
        SpecValue::Null
    } else if fields[0].0 == key {
        fields[0].1
    } else {
        obj_get(fields.drop_first(), key)
    }
}

/// Walks a value along path segments `p[i..]`.  Objects are looked up by
/// key, arrays are indexed by numeric segments, and any miss or scalar step
/// degrades to `Null` — the walk is total.
pub open spec fn spec_path_lookup(v: SpecValue, p: Seq<Seq<u8>>, i: int) -> SpecValue
    decreases p.len() - i,
{
    if i < 0 || i >= p.len() {
        v
    } else {
        match v {
            SpecValue::Object(fields) => spec_path_lookup(obj_get(fields, p[i]), p, i + 1),
            SpecValue::Array(elems) => match seg_index(p[i]) {
                Some(m) => if 0 <= m < elems.len() {
                    spec_path_lookup(elems[m], p, i + 1)
                } else {
                    spec_path_lookup(SpecValue::Null, p, i + 1)
                },
                None => spec_path_lookup(SpecValue::Null, p, i + 1),
            },
            _ => spec_path_lookup(SpecValue::Null, p, i + 1),
        }
    }
}

/// Walking onward from `Null` stays `Null`.
pub proof fn lemma_path_lookup_null(p: Seq<Seq<u8>>, i: int)
    ensures
        spec_path_lookup(SpecValue::Null, p, i) == SpecValue::Null,
    decreases p.len() - i,
{
    if 0 <= i < p.len() {
        lemma_path_lookup_null(p, i + 1);
    }
}

/// The index of the first entry of `fields` whose key is `key`.
fn obj_find(fields: &Vec<(Vec<u8>, Value)>, key: &Vec<u8>) -> (r: Option<usize>)
    ensures
        match r {
            Some(k) => k < fields@.len() && obj_get(view_object(fields@), key@) == view_value(
                fields@[k as int].1,
            ),
            None => obj_get(view_object(fields@), key@) == SpecValue::Null,
        },
{
    proof {
        lemma_view_object_index(fields@);
        assert(view_object(fields@).skip(0) =~= view_object(fields@));
    }
    let ghost vf = view_object(fields@);
    let mut k: usize = 0;
    while k < fields.len()
        invariant
            k <= fields@.len(),
            vf == view_object(fields@),
            vf.len() == fields@.len(),
            forall|j: int|
                0 <= j < fields@.len() ==> vf[j] == (fields@[j].0@, view_value(fields@[j].1)),
            obj_get(vf, key@) == obj_get(vf.skip(k as int), key@),
        decreases fields@.len() - k,
    {
        proof {
            assert(vf.skip(k as int)[0] == vf[k as int]);
            assert(vf.skip(k as int).drop_first() =~= vf.skip(k + 1));
        }
        if bytes_eq(&fields[k].0, key) {
            return Some(k);
        }
        k = k + 1;
    }
    proof {
        assert(vf.skip(fields@.len() as int).len() == 0);
    }
    None
}

/// Evaluates a path against a context value; total, never an error.
fn path_value(ctx: &Value, path: &Vec<Vec<u8>>) -> (r: Value)
    ensures
        r@ == spec_path_lookup(ctx@, view_path(path@), 0),
{
    proof {
        lemma_view_path_index(path@);
    }
    let ghost vp = view_path(path@);
    let mut cur: &Value = ctx;
    let mut i: usize = 0;
    while i < path.len()
        invariant
            i <= path@.len(),
            vp == view_path(path@),
            vp.len() == path@.len(),
            forall|j: int| 0 <= j < path@.len() ==> vp[j] == path@[j]@,
            spec_path_lookup(ctx@, vp, 0) == spec_path_lookup(cur@, vp, i as int),
        decreases path@.len() - i,
    {
        let seg = &path[i];
        match cur {
            Value::Object(fields) => {
                match obj_find(fields, seg) {
                    Some(k) => {
                        cur = &fields[k].1;
                    },
                    None => {
                        proof {
                            lemma_path_lookup_null(vp, i + 1 as int);
                        }
                        return Value::Null;
                    },
                }
            },
            Value::Array(elems) => {
                proof {
                    crate::value::lemma_view_array_index(elems@);
                }
                match seg_index_x(seg) {
                    Some(m) => {
                        if (m as u64) < (elems.len() as u64) {
                            let idx = m as usize;
                            cur = &elems[idx];
                        } else {
                            proof {
                                lemma_path_lookup_null(vp, i + 1 as int);
                            }
                            return Value::Null;
                        }
                    },
                    None => {
                        proof {
                            lemma_path_lookup_null(vp, i + 1 as int);
                        }
                        return Value::Null;
                    },
                }
            },
            _ => {
                proof {
                    lemma_path_lookup_null(vp, i + 1 as int);
                }
                return Value::Null;
            },
        }
        i = i + 1;
    }
    cur.deep_clone()
}

/// The result of a unary operator applied to an evaluated operand.
pub open spec fn spec_apply_unary(sem: OpKind, v: SpecValue) -> Result<SpecValue, EvalError> {
    match sem {
        OpKind::LogNot => Ok(SpecValue::Bool(!spec_truthy(v))),
        OpKind::ArithNeg => match v {
            SpecValue::Number(x) => Ok(
                SpecValue::Number(
                    if x == i64::MIN {
                        i64::MIN
                    } else {
                        (-(x as int)) as i64
                    },
                ),
            ),
            _ => Err(EvalError::TypeMismatch),
        },
        _ => Err(EvalError::UnknownOperator),
    }
}

/// The result of an ordering comparison: numbers compare as integers, text
/// compares lexicographically by bytes, `Null` is unordered (always false),
/// and any other mix of types is a type mismatch.
pub open spec fn spec_order(sem: OpKind, a: SpecValue, b: SpecValue) -> Result<
    SpecValue,
    EvalError,
> {
    match (a, b) {
        (SpecValue::Number(x), SpecValue::Number(y)) => Ok(
            SpecValue::Bool(
                match sem {
                    OpKind::CmpGt => x > y,
                    OpKind::CmpGe => x >= y,
                    OpKind::CmpLt => x < y,
                    OpKind::CmpLe => x <= y,
                    _ => false,
                },
            ),
        ),
        (SpecValue::Text(x), SpecValue::Text(y)) => Ok(
            SpecValue::Bool(
                match sem {
                    OpKind::CmpGt => lex_lt(y, x),
                    OpKind::CmpGe => !lex_lt(x, y),
                    OpKind::CmpLt => lex_lt(x, y),
                    OpKind::CmpLe => !lex_lt(y, x),
                    _ => false,
                },
            ),
        ),
        (SpecValue::Null, _) => Ok(SpecValue::Bool(false)),
        (_, SpecValue::Null) => Ok(SpecValue::Bool(false)),
        _ => Err(EvalError::TypeMismatch),
    }
}

/// The result of a non-short-circuit binary operator on evaluated operands.
/// Equality is structural; `+` concatenates when either side is text and
/// adds (wrapping) on numbers; `-` and `*` wrap; `/` divides truncating,
/// rejects a zero divisor, and wraps on the one overflowing quotient.
pub open spec fn spec_apply_binary(sem: OpKind, a: SpecValue, b: SpecValue) -> Result<
    SpecValue,
    EvalError,
> {
    match sem {
        OpKind::CmpEq => Ok(SpecValue::Bool(a == b)),
        OpKind::CmpNe => Ok(SpecValue::Bool(a != b)),
        OpKind::CmpGt => spec_order(sem, a, b),
        OpKind::CmpGe => spec_order(sem, a, b),
        OpKind::CmpLt => spec_order(sem, a, b),
        OpKind::CmpLe => spec_order(sem, a, b),
        OpKind::ArithAdd => if a is Text || b is Text {
            match (spec_text_of(a), spec_text_of(b)) {
                (Some(x), Some(y)) => Ok(SpecValue::Text(x + y)),
                _ => Err(EvalError::TypeMismatch),
            }
        } else {
            match (a, b) {
                (SpecValue::Number(x), SpecValue::Number(y)) => Ok(
                    SpecValue::Number(x.wrapping_add(y)),
                ),
                _ => Err(EvalError::TypeMismatch),
            }
        },
        OpKind::ArithSub => match (a, b) {
            (SpecValue::Number(x), SpecValue::Number(y)) => Ok(
                SpecValue::Number(x.wrapping_sub(y)),
            ),
            _ => Err(EvalError::TypeMismatch),
        },
        OpKind::ArithMul => match (a, b) {
            (SpecValue::Number(x), SpecValue::Number(y)) => Ok(
                SpecValue::Number(x.wrapping_mul(y)),
            ),
            _ => Err(EvalError::TypeMismatch),
        },
        OpKind::ArithDiv => match (a, b) {
            (SpecValue::Number(x), SpecValue::Number(y)) => if y == 0 {
                Err(EvalError::DivideByZero)
            } else {
                match x.checked_div(y) {
                    Some(q) => Ok(SpecValue::Number(q)),
                    None => Ok(SpecValue::Number(i64::MIN)),
                }
            },
            _ => Err(EvalError::TypeMismatch),
        },
        _ => Err(EvalError::UnknownOperator),
    }
}

/// The full evaluation semantics: children evaluate first; `&&` and `||`
/// short-circuit on the left operand's truthiness and yield a boolean; every
/// other binary operator evaluates both operands and applies
/// [`spec_apply_binary`].
pub open spec fn spec_eval(n: SpecNode, ctx: SpecValue) -> Result<SpecValue, EvalError>
    decreases n,
{
    match n {
        SpecNode::Text(t) => Ok(SpecValue::Text(t)),
        SpecNode::Number(x) => Ok(SpecValue::Number(x)),
        SpecNode::NullLit => Ok(SpecValue::Null),
        SpecNode::Arg(p) => Ok(spec_path_lookup(ctx, p, 0)),
        SpecNode::Unary(op, c) => if op.arity != Arity::Unary {
            Err(EvalError::UnknownOperator)
        } else {
            match spec_eval(*c, ctx) {
                Err(e) => Err(e),
                Ok(v) => spec_apply_unary(op.semantics, v),
            }
        },
        SpecNode::Binary(op, l, r) => if op.arity != Arity::Binary {
            Err(EvalError::UnknownOperator)
        } else {
            match spec_eval(*l, ctx) {
                Err(e) => Err(e),
                Ok(lv) => if op.semantics == OpKind::LogAnd {
                    if !spec_truthy(lv) {
                        Ok(SpecValue::Bool(false))
                    } else {
                        match spec_eval(*r, ctx) {
                            Err(e) => Err(e),
                            Ok(rv) => Ok(SpecValue::Bool(spec_truthy(rv))),
                        }
                    }
                } else if op.semantics == OpKind::LogOr {
                    if spec_truthy(lv) {
                        Ok(SpecValue::Bool(true))
                    } else {
                        match spec_eval(*r, ctx) {
                            Err(e) => Err(e),
                            Ok(rv) => Ok(SpecValue::Bool(spec_truthy(rv))),
                        }
                    }
                } else {
                    match spec_eval(*r, ctx) {
                        Err(e) => Err(e),
                        Ok(rv) => spec_apply_binary(op.semantics, lv, rv),
                    }
                },
            }
        },
    }
}

/// Whether an executable evaluation result matches a specified one.
pub open spec fn eval_res_matches(
    r: Result<Value, EvalError>,
    sp: Result<SpecValue, EvalError>,
) -> bool {
    match (r, sp) {
        (Ok(v), Ok(sv)) => v@ == sv,
        (Err(a), Err(b)) => a == b,
        _ => false,
    }
}

fn apply_unary(sem: OpKind, v: &Value) -> (r: Result<Value, EvalError>)
    ensures
        eval_res_matches(r, spec_apply_unary(sem, v@)),
{
    match sem {
        OpKind::LogNot => Ok(Value::Bool(!truthy(v))),
        OpKind::ArithNeg => match v {
            Value::Number(x) => {
                let y: i64 = if *x == i64::MIN {
                    i64::MIN
                } else {
                    -*x
                };
                Ok(Value::Number(y))
            },
            _ => Err(EvalError::TypeMismatch),
        },
        _ => Err(EvalError::UnknownOperator),
    }
}

fn apply_binary(sem: OpKind, a: &Value, b: &Value) -> (r: Result<Value, EvalError>)
    ensures
        eval_res_matches(r, spec_apply_binary(sem, a@, b@)),
{
    match sem {
        OpKind::CmpEq => Ok(Value::Bool(a.eq_value(b))),
        OpKind::CmpNe => Ok(Value::Bool(!a.eq_value(b))),
        OpKind::CmpGt | OpKind::CmpGe | OpKind::CmpLt | OpKind::CmpLe => match (a, b) {
            (Value::Number(x), Value::Number(y)) => {
                let c = match sem {
                    OpKind::CmpGt => *x > *y,
                    OpKind::CmpGe => *x >= *y,
                    OpKind::CmpLt => *x < *y,
                    _ => *x <= *y,
                };
                Ok(Value::Bool(c))
            },
            (Value::Text(x), Value::Text(y)) => {
                let c = match sem {
                    OpKind::CmpGt => lex_lt_at_x(y, x, 0),
                    OpKind::CmpGe => !lex_lt_at_x(x, y, 0),
                    OpKind::CmpLt => lex_lt_at_x(x, y, 0),
                    _ => !lex_lt_at_x(y, x, 0),
                };
                Ok(Value::Bool(c))
            },
            (Value::Null, _) => Ok(Value::Bool(false)),
            (_, Value::Null) => Ok(Value::Bool(false)),
            _ => Err(EvalError::TypeMismatch),
        },
        OpKind::ArithAdd => {
            let textual = match a {
                Value::Text(_) => true,
                _ => match b {
                    Value::Text(_) => true,
                    _ => false,
                },
            };
            if textual {
                match (text_of(a), text_of(b)) {
                    (Some(x), Some(y)) => Ok(Value::Text(concat_bytes(&x, &y))),
                    _ => Err(EvalError::TypeMismatch),
                }
            } else {
                match (a, b) {
                    (Value::Number(x), Value::Number(y)) => Ok(
                        Value::Number(x.wrapping_add(*y)),
                    ),
                    _ => Err(EvalError::TypeMismatch),
                }
            }
        },
        OpKind::ArithSub => match (a, b) {
            (Value::Number(x), Value::Number(y)) => Ok(Value::Number(x.wrapping_sub(*y))),
            _ => Err(EvalError::TypeMismatch),
        },
        OpKind::ArithMul => match (a, b) {
            (Value::Number(x), Value::Number(y)) => Ok(Value::Number(x.wrapping_mul(*y))),
            _ => Err(EvalError::TypeMismatch),
        },
        OpKind::ArithDiv => match (a, b) {
            (Value::Number(x), Value::Number(y)) => if *y == 0 {
                Err(EvalError::DivideByZero)
            } else {
                match x.checked_div(*y) {
                    Some(q) => Ok(Value::Number(q)),
                    None => Ok(Value::Number(i64::MIN)),
                }
            },
            _ => Err(EvalError::TypeMismatch),
        },
        _ => Err(EvalError::UnknownOperator),
    }
}

impl Node {
    /// A text literal node.
    pub fn new_string(express: &str) -> (n: Node)
        ensures
            n@ == SpecNode::Text(express.spec_bytes()),
    {
        Node::Text(vstd::slice::slice_to_vec(express.as_bytes()))
    }

    /// A number literal node.
    pub fn new_number(value: i64) -> (n: Node)
        ensures
            n@ == SpecNode::Number(value),
    {
        Node::Number(value)
    }

    /// A path-reference node: the dotted identifier is split into segments.
    pub fn new_arg(express: &str) -> (n: Node)
        ensures
            n@ == SpecNode::Arg(split_dots(express.spec_bytes())),
    {
        let bytes = vstd::slice::slice_to_vec(express.as_bytes());
        Node::Arg(split_path(&bytes, 0))
    }

    /// Evaluates this node against a context value.
    pub fn eval(&self, ctx: &Value) -> (r: Result<Value, EvalError>)
        ensures
            eval_res_matches(r, spec_eval(self@, ctx@)),
        decreases *self,
    {
        match self {
            Node::Text(t) => Ok(Value::Text(bytes_clone(t))),
            Node::Number(x) => Ok(Value::Number(*x)),
            Node::NullLit => Ok(Value::Null),
            Node::Arg(p) => Ok(path_value(ctx, p)),
            Node::Unary(op, c) => {
                if !matches!(op.arity, Arity::Unary) {
                    return Err(EvalError::UnknownOperator);
                }
                match c.eval(ctx) {
                    Err(e) => Err(e),
                    Ok(v) => apply_unary(op.semantics, &v),
                }
            },
            Node::Binary(op, l, r) => {
                if !matches!(op.arity, Arity::Binary) {
                    return Err(EvalError::UnknownOperator);
                }
                let lv = match l.eval(ctx) {
                    Err(e) => {
                        return Err(e);
                    },
                    Ok(v) => v,
                };
                if matches!(op.semantics, OpKind::LogAnd) {
                    if !truthy(&lv) {
                        return Ok(Value::Bool(false));
                    }
                    return match r.eval(ctx) {
                        Err(e) => Err(e),
                        Ok(rv) => Ok(Value::Bool(truthy(&rv))),
                    };
                }
                if matches!(op.semantics, OpKind::LogOr) {
                    if truthy(&lv) {
                        return Ok(Value::Bool(true));
                    }
                    return match r.eval(ctx) {
                        Err(e) => Err(e),
                        Ok(rv) => Ok(Value::Bool(truthy(&rv))),
                    };
                }
                match r.eval(ctx) {
                    Err(e) => Err(e),
                    Ok(rv) => apply_binary(op.semantics, &lv, &rv),
                }
            },
        }
    }
}


/// The end of the path segment starting at `i`: the next `.` or the end of
/// the input.
pub open spec fn seg_end(s: Seq<u8>, i: int) -> int
    decreases s.len() - i,
{
    if 0 <= i < s.len() && s[i] != 46 {
        seg_end(s, i + 1)
    } else {
        i
    }
}

/// `seg_end` stays within `[i, s.len()]` for `i` in range.
pub proof fn lemma_seg_end_bounds(s: Seq<u8>, i: int)
    requires
        0 <= i <= s.len(),
    ensures
        i <= seg_end(s, i) <= s.len(),
    decreases s.len() - i,
{
    if i < s.len() && s[i] != 46 {
        lemma_seg_end_bounds(s, i + 1);
    }
}

/// The segments of `s[i..]`, split on `.`; a trailing or doubled dot yields
/// an empty segment, and the empty input yields one empty segment.
pub open spec fn split_dots_from(s: Seq<u8>, i: int) -> Seq<Seq<u8>>
    decreases s.len() - i,
    via split_dots_from_dec
{
    if !(0 <= i <= s.len()) {
        Seq::empty()
    } else {
        let j = seg_end(s, i);
        if j >= s.len() {
            seq![s.subrange(i, j)]
        } else {
            seq![s.subrange(i, j)] + split_dots_from(s, j + 1)
        }
    }
}

#[via_fn]
proof fn split_dots_from_dec(s: Seq<u8>, i: int) {
    if 0 <= i <= s.len() {
        lemma_seg_end_bounds(s, i);
    }
}

/// The dotted-path segments of a whole identifier.
pub open spec fn split_dots(s: Seq<u8>) -> Seq<Seq<u8>> {
    split_dots_from(s, 0)
}

fn seg_end_x(s: &Vec<u8>, i: usize) -> (r: usize)
    requires
        i <= s@.len(),
    ensures
        r as int == seg_end(s@, i as int),
        i <= r <= s@.len(),
    decreases s@.len() - i,
{
    if i < s.len() && s[i] != 46 {
        seg_end_x(s, i + 1)
    } else {
        i
    }
}

/// A fresh copy of `s[i..j)`.
pub fn copy_range(s: &Vec<u8>, i: usize, j: usize) -> (r: Vec<u8>)
    requires
        i <= j <= s@.len(),
    ensures
        r@ == s@.subrange(i as int, j as int),
{
    let mut r: Vec<u8> = Vec::new();
    let mut k: usize = i;
    while k < j
        invariant
            i <= k <= j <= s@.len(),
            r@ =~= s@.subrange(i as int, k as int),
        decreases j - k,
    {
        r.push(s[k]);
        proof {
            assert(r@ =~= s@.subrange(i as int, k + 1 as int));
        }
        k = k + 1;
    }
    r
}

/// Splits `s[i..]` into path segments on `.`.
pub fn split_path(s: &Vec<u8>, i: usize) -> (r: Vec<Vec<u8>>)
    requires
        i <= s@.len(),
    ensures
        view_path(r@) == split_dots_from(s@, i as int),
    decreases s@.len() - i,
{
    let j = seg_end_x(s, i);
    let seg = copy_range(s, i, j);
    if j >= s.len() {
        let mut r: Vec<Vec<u8>> = Vec::new();
        r.push(seg);
        proof {
            lemma_view_path_index(r@);
            assert(view_path(r@) =~= split_dots_from(s@, i as int));
        }
        r
    } else {
        let mut r = split_path(s, j + 1);
        let ghost tail = r@;
        r.insert(0, seg);
        proof {
            lemma_view_path_index(r@);
            lemma_view_path_index(tail);
            assert(view_path(r@) =~= seq![seg@] + view_path(tail));
        }
        r
    }
}

} // verus!

