use rbatis_engine::error::{EvalError, SyntaxErrorKind};
use rbatis_engine::node::Node;
use rbatis_engine::parser::{compile, parser};
use rbatis_engine::runtime::{Arity, OpInfo, OpKind, OperatorSpec, OptMap};
use rbatis_engine::tx::{rollback_decision, begin_allowed, TxState};
use rbatis_engine::value::Value;

fn bytes(s: &str) -> Vec<u8> {
    s.as_bytes().to_vec()
}

fn text(s: &str) -> Value {
    Value::Text(bytes(s))
}

fn ctx() -> Value {
    Value::Object(vec![
        (bytes("a"), Value::Number(1)),
        (bytes("b"), Value::Number(2)),
        (bytes("c"), text("c")),
        (bytes("d"), Value::Null),
    ])
}

fn run(express: &str, context: &Value) -> Result<Value, EvalError> {
    parser(express, &OptMap::new()).unwrap().eval(context)
}

#[test]
fn evaluation_is_deterministic() {
    let node = parser("a + 1 > b * 8", &OptMap::new()).unwrap();
    let c = ctx();
    let first = node.eval(&c).unwrap();
    let second = node.eval(&c).unwrap();
    assert!(first.eq_value(&second));
}

#[test]
fn null_propagation_on_null_key() {
    assert!(run("d.a == null", &ctx()).unwrap().eq_value(&Value::Bool(true)));
}

#[test]
fn null_propagation_on_absent_key() {
    let c = Value::Object(vec![(bytes("a"), Value::Number(1))]);
    assert!(run("d.a.b.c == null", &c).unwrap().eq_value(&Value::Bool(true)));
}

#[test]
fn short_circuit_and_hides_divide_by_zero() {
    // `off` is absent, hence null, hence falsy: `&&` must not evaluate 1/0.
    assert!(run("off && 1 / 0", &ctx()).unwrap().eq_value(&Value::Bool(false)));
}

#[test]
fn short_circuit_or_hides_divide_by_zero() {
    assert!(run("a || 1 / 0", &ctx()).unwrap().eq_value(&Value::Bool(true)));
}

#[test]
fn divide_by_zero_error() {
    assert_eq!(run("1 / 0", &ctx()).unwrap_err(), EvalError::DivideByZero);
}

#[test]
fn concat_literal_and_context_text() {
    assert!(run("'a'+c", &ctx()).unwrap().eq_value(&text("ac")));
}

#[test]
fn concat_backtick_literals() {
    assert!(run("`f`+`s`", &ctx()).unwrap().eq_value(&text("fs")));
}

#[test]
fn concat_number_coerces_to_text() {
    assert!(run("'n=' + b", &ctx()).unwrap().eq_value(&text("n=2")));
    assert!(run("'v' + d", &ctx()).unwrap().eq_value(&text("vnull")));
}

#[test]
fn precedence_binds_mul_over_cmp() {
    // (a + 1) > (b * 8) with a = 1, b = 2: 2 > 16 is false.
    assert!(run("a + 1 > b * 8", &ctx()).unwrap().eq_value(&Value::Bool(false)));
    assert!(run("(a + 1) > (b * 8)", &ctx()).unwrap().eq_value(&Value::Bool(false)));
    assert!(run("a + (1 > b) * 8", &ctx()).unwrap_err() == EvalError::TypeMismatch);
}

#[test]
fn left_associativity_of_subtraction() {
    assert!(run("8 - 4 - 2", &ctx()).unwrap().eq_value(&Value::Number(2)));
}

#[test]
fn null_and_nil_are_interchangeable() {
    assert!(run("1 != null", &ctx()).unwrap().eq_value(&Value::Bool(true)));
    assert!(run("1 + 2 != nil", &ctx()).unwrap().eq_value(&Value::Bool(true)));
    assert!(run("null == nil", &ctx()).unwrap().eq_value(&Value::Bool(true)));
}

#[test]
fn round_trip_context_scenario() {
    let c = ctx();
    assert!(run("a >= 0", &c).unwrap().eq_value(&Value::Bool(true)));
    assert!(run("'a'+c", &c).unwrap().eq_value(&text("ac")));
    assert!(run("b", &c).unwrap().eq_value(&Value::Number(2)));
    assert!(run("a == 1 && a != 0", &c).unwrap().eq_value(&Value::Bool(true)));
}

#[test]
fn unmatched_paren_is_syntax_error() {
    let e = parser("(a + 1", &OptMap::new()).unwrap_err();
    assert_eq!(e.kind, SyntaxErrorKind::UnmatchedParen);
}

#[test]
fn dangling_operator_is_syntax_error() {
    let e = parser("a +", &OptMap::new()).unwrap_err();
    assert_eq!(e.kind, SyntaxErrorKind::UnexpectedEnd);
}

#[test]
fn trailing_token_is_syntax_error() {
    let e = parser("a b", &OptMap::new()).unwrap_err();
    assert_eq!(e.kind, SyntaxErrorKind::TrailingToken);
}

#[test]
fn unterminated_quote_is_syntax_error() {
    let e = parser("'abc", &OptMap::new()).unwrap_err();
    assert_eq!(e.kind, SyntaxErrorKind::UnterminatedText);
    assert_eq!(e.pos, 0);
}

#[test]
fn unknown_operator_is_syntax_error() {
    let e = parser("a # b", &OptMap::new()).unwrap_err();
    assert_eq!(e.kind, SyntaxErrorKind::UnknownOperator);
    assert_eq!(e.pos, 2);
}

#[test]
fn empty_expression_is_syntax_error() {
    let e = parser("", &OptMap::new()).unwrap_err();
    assert_eq!(e.kind, SyntaxErrorKind::UnexpectedEnd);
}

#[test]
fn fractional_literal_is_rejected() {
    let e = parser("1.5 > 1", &OptMap::new()).unwrap_err();
    assert_eq!(e.kind, SyntaxErrorKind::FractionalNumber);
}

#[test]
fn oversized_literal_is_rejected() {
    let e = parser("99999999999999999999", &OptMap::new()).unwrap_err();
    assert_eq!(e.kind, SyntaxErrorKind::NumberTooLarge);
}

#[test]
fn type_mismatch_on_mixed_ordering() {
    assert_eq!(run("'a' > 1", &ctx()).unwrap_err(), EvalError::TypeMismatch);
}

#[test]
fn mixed_equality_is_false_not_error() {
    assert!(run("'a' == 1", &ctx()).unwrap().eq_value(&Value::Bool(false)));
    assert!(run("c == 1", &ctx()).unwrap().eq_value(&Value::Bool(false)));
}

#[test]
fn null_is_unordered() {
    assert!(run("d > 1", &ctx()).unwrap().eq_value(&Value::Bool(false)));
    assert!(run("1 < d", &ctx()).unwrap().eq_value(&Value::Bool(false)));
}

#[test]
fn unknown_operator_eval_error_on_malformed_node() {
    // A hand-built node whose operator arity does not fit its shape.
    let bad = Node::Binary(
        OpInfo { precedence: 7, arity: Arity::Unary, semantics: OpKind::LogNot },
        Box::new(Node::Number(1)),
        Box::new(Node::Number(2)),
    );
    assert_eq!(bad.eval(&Value::Null).unwrap_err(), EvalError::UnknownOperator);
}

#[test]
fn negative_literals_and_prefix_negation() {
    assert!(run("1 - -2", &ctx()).unwrap().eq_value(&Value::Number(3)));
    assert!(run("-b", &ctx()).unwrap().eq_value(&Value::Number(-2)));
    assert!(run("-'x'", &ctx()).unwrap_err() == EvalError::TypeMismatch);
}

#[test]
fn logical_not_flips_truthiness() {
    assert!(run("!a", &ctx()).unwrap().eq_value(&Value::Bool(false)));
    assert!(run("!d", &ctx()).unwrap().eq_value(&Value::Bool(true)));
    assert!(run("!''", &ctx()).unwrap().eq_value(&Value::Bool(true)));
}

#[test]
fn array_indexing_by_numeric_segment() {
    let c = Value::Object(vec![(
        bytes("phones"),
        Value::Array(vec![text("+44 1234567"), text("+44 2345678")]),
    )]);
    assert!(run("phones.1", &c).unwrap().eq_value(&text("+44 2345678")));
    assert!(run("phones.7 == null", &c).unwrap().eq_value(&Value::Bool(true)));
}

#[test]
fn lexicographic_text_ordering() {
    assert!(run("'abc' < 'abd'", &ctx()).unwrap().eq_value(&Value::Bool(true)));
    assert!(run("'ab' < 'abc'", &ctx()).unwrap().eq_value(&Value::Bool(true)));
    assert!(run("'b' >= 'b'", &ctx()).unwrap().eq_value(&Value::Bool(true)));
}

#[test]
fn registered_operator_is_tokenized_and_applied() {
    let mut table = OptMap::new();
    // `**` as a second spelling of multiplication, binding like `*`.
    table.register(OperatorSpec {
        lexeme: bytes("**"),
        info: OpInfo { precedence: 6, arity: Arity::Binary, semantics: OpKind::ArithMul },
    });
    let node = compile("7 ** 3 + 1", &table).unwrap();
    assert!(node.eval(&Value::Null).unwrap().eq_value(&Value::Number(22)));
}

#[test]
fn lookup_finds_registered_lexeme() {
    let mut table = OptMap::new();
    assert!(table.lookup(&bytes("&&")).is_some());
    assert!(table.lookup(&bytes("@")).is_none());
    table.register(OperatorSpec {
        lexeme: bytes("@"),
        info: OpInfo { precedence: 3, arity: Arity::Binary, semantics: OpKind::CmpEq },
    });
    let found = table.lookup(&bytes("@")).unwrap();
    assert_eq!(found.info.semantics, OpKind::CmpEq);
}

#[test]
fn longest_match_prefers_two_byte_operator() {
    // `>=` must win over `>` so `a >= 0` is not read as `a > (= 0)`.
    assert!(run("a >= 1", &ctx()).unwrap().eq_value(&Value::Bool(true)));
    assert!(run("a > 1", &ctx()).unwrap().eq_value(&Value::Bool(false)));
}

#[test]
fn wrapping_arithmetic_on_extremes() {
    assert!(
        run("9223372036854775807 + 1", &ctx())
            .unwrap()
            .eq_value(&Value::Number(i64::MIN))
    );
}

#[test]
fn tx_rollback_decision_picks_expired() {
    let states = vec![
        TxState::StateBegin(0),
        TxState::StateBegin(6_000),
        TxState::StateFinish(0),
    ];
    // At 11s with a 10s allowance only the first has overrun.
    let due = rollback_decision(&states, true, 11_000, 10_000);
    assert_eq!(due, vec![0usize]);
}

#[test]
fn tx_rollback_decision_takes_all_when_dead() {
    let states = vec![TxState::StateBegin(0), TxState::StateFinish(0)];
    let due = rollback_decision(&states, false, 1, 10_000);
    assert_eq!(due, vec![0usize, 1usize]);
}

#[test]
fn tx_begin_requires_identifier() {
    assert!(!begin_allowed(""));
    assert!(begin_allowed("tx-1"));
}
