#![allow(non_snake_case)]

use rbatis_engine::node::Node;
use rbatis_engine::parser;
use rbatis_engine::runtime::{parser_tokens, OptMap};
use rbatis_engine::value::Value;

fn bytes(s: &str) -> Vec<u8> {
    s.as_bytes().to_vec()
}

fn text(s: &str) -> Value {
    Value::Text(bytes(s))
}

/// The context `{a:1, b:2, c:"c", d:null}`.
fn john_context() -> Value {
    Value::Object(vec![
        (bytes("a"), Value::Number(1)),
        (bytes("b"), Value::Number(2)),
        (bytes("c"), text("c")),
        (bytes("d"), Value::Null),
    ])
}

struct Eq<'a> {
    pub express: &'a str,
    pub eq: Value,
}

#[test]
fn TestNodeRun() {
    let john = john_context();
    let expressions: Vec<Eq> = vec![
        Eq { express: "d.a == null", eq: Value::Bool(true) },
        Eq { express: "'2019-02-26' == '2019-02-26'", eq: Value::Bool(true) },
        Eq { express: "`f`+`s`", eq: text("fs") },
        Eq { express: "a +1 > b * 8", eq: Value::Bool(false) },
        Eq { express: "a >= 0", eq: Value::Bool(true) },
        Eq { express: "'a'+c", eq: text("ac") },
        Eq { express: "b", eq: Value::Number(2) },
        Eq { express: "a < 1", eq: Value::Bool(false) },
        Eq { express: "a +1 > b*8", eq: Value::Bool(false) },
        Eq { express: "a * b == 2", eq: Value::Bool(true) },
        Eq { express: "a - b == 0", eq: Value::Bool(false) },
        Eq { express: "a >= 0 && a != 0", eq: Value::Bool(true) },
        Eq { express: "a == 1 && a != 0", eq: Value::Bool(true) },
        Eq { express: "1 > 3 ", eq: Value::Bool(false) },
        Eq { express: "1 + 2 != nil", eq: Value::Bool(true) },
        Eq { express: "1 != null", eq: Value::Bool(true) },
        Eq { express: "1 + 2 != nil && 1 > 0 ", eq: Value::Bool(true) },
        Eq { express: "1 + 2 != nil && 2 < b*8 ", eq: Value::Bool(true) },
    ];

    for item in expressions {
        let node = parser::parser(item.express, &OptMap::new()).unwrap();
        let result = node.eval(&john).unwrap();
        if !result.eq_value(&item.eq) {
            panic!("exe fail express:'{}'", item.express);
        }
    }
}

#[test]
fn TestStringNode() {
    let str_node = Node::new_string("sadf");
    str_node.eval(&Value::Null).unwrap();
}

/// The richer context used by the argument-node tests.
fn person_context(age: Value) -> Value {
    Value::Object(vec![
        (bytes("name"), text("John Doe")),
        (bytes("age"), age),
        (
            bytes("sex"),
            Value::Object(vec![
                (bytes("a"), text("i'm a")),
                (bytes("b"), text("i'm b")),
            ]),
        ),
        (
            bytes("phones"),
            Value::Array(vec![text("+44 1234567"), text("+44 2345678")]),
        ),
    ])
}

#[test]
fn TestArgNode() {
    let john = person_context(Value::Null);
    let arg_node = Node::new_arg("sex.a");
    let got = arg_node.eval(&john).unwrap();
    assert!(got.eq_value(&text("i'm a")));
}

#[test]
fn benchmark_arg_node() {
    let john = person_context(Value::Null);
    let arg_node = Node::new_arg("sex.a");
    let total = 100000;
    let mut i = 0;
    while i < total {
        arg_node.eval(&john).unwrap();
        i += 1;
    }
}

#[test]
fn TestNumberNode() {
    let john = person_context(Value::Number(1));
    let numb = Node::new_number(1);
    numb.eval(&john).unwrap();
}

#[test]
fn benchmark_parser_token() {
    let s = "'2019-02-26' == '2019-02-26'";
    let opt_map = OptMap::new();
    let total = 100000;
    let mut i = 0;
    while i < total {
        parser_tokens(s, &opt_map).unwrap();
        i += 1;
    }
}
