use std::rc::Rc;

use jqcore::ast::Ast;
use jqcore::error::QueryExecutionError;
use jqcore::eval::{run, Status};
use jqcore::number::Number;
use jqcore::ops::BinaryOp;
use jqcore::value::Value;

fn chars(s: &str) -> Vec<char> {
    s.chars().collect()
}

fn num(i: i64) -> Value {
    Value::Number(Number { units: i * 1_000_000_000 })
}

fn lit(v: Value) -> Box<Ast> {
    Box::new(Ast::Literal(v))
}

const FUEL: u64 = 64;

#[test]
fn identity_emits_subject() {
    let (vals, st) = run(&Ast::Identity, num(7), FUEL);
    assert_eq!(st, Status::Finished);
    assert_eq!(vals, vec![num(7)]);

    let subject = Value::Array(vec![num(1), Value::Str(chars("x"))]);
    let (vals, st) = run(&Ast::Identity, subject, FUEL);
    assert_eq!(st, Status::Finished);
    assert_eq!(vals, vec![Value::Array(vec![num(1), Value::Str(chars("x"))])]);
}

fn obj_a1() -> Value {
    Value::Object(vec![(chars("a"), num(1))])
}

#[test]
fn index_object_present() {
    let prog = Ast::Index { base: Box::new(Ast::Identity), key: lit(Value::Str(chars("a"))) };
    let (vals, st) = run(&prog, obj_a1(), FUEL);
    assert_eq!(st, Status::Finished);
    assert_eq!(vals, vec![num(1)]);
}

#[test]
fn index_object_absent_is_null() {
    let prog = Ast::Index { base: Box::new(Ast::Identity), key: lit(Value::Str(chars("b"))) };
    let (vals, st) = run(&prog, obj_a1(), FUEL);
    assert_eq!(st, Status::Finished);
    assert_eq!(vals, vec![Value::Null]);
}

#[test]
fn index_object_by_number_fails() {
    let prog = Ast::Index { base: Box::new(Ast::Identity), key: lit(num(0)) };
    let (vals, st) = run(&prog, obj_a1(), FUEL);
    assert_eq!(vals, Vec::<Value>::new());
    assert_eq!(st, Status::Failed(QueryExecutionError::ObjectIndexByNonString(num(0))));
}

#[test]
fn iterate_emits_in_order() {
    let prog = Ast::Iterate(Box::new(Ast::Identity));
    let (vals, st) = run(&prog, Value::Array(vec![num(1), num(2), num(3)]), FUEL);
    assert_eq!(st, Status::Finished);
    assert_eq!(vals, vec![num(1), num(2), num(3)]);
}

#[test]
fn division_by_zero_fails_emitting_nothing() {
    let prog = Ast::BinOp { op: BinaryOp::Div, lhs: lit(num(1)), rhs: lit(num(0)) };
    let (vals, st) = run(&prog, Value::Null, FUEL);
    assert_eq!(vals, Vec::<Value>::new());
    assert_eq!(st, Status::Failed(QueryExecutionError::DivModByZero));
}

#[test]
fn object_with_numeric_key_fails() {
    let prog = Ast::ObjectCons(vec![(Ast::Literal(num(1)), Ast::Literal(num(2)))]);
    let (vals, st) = run(&prog, Value::Null, FUEL);
    assert_eq!(vals, Vec::<Value>::new());
    assert_eq!(st, Status::Failed(QueryExecutionError::ObjectNonStringKey(num(1))));
}

#[test]
fn string_plus_number_is_incompatible() {
    let prog = Ast::BinOp {
        op: BinaryOp::Add,
        lhs: lit(Value::Str(chars("a"))),
        rhs: lit(num(1)),
    };
    let (vals, st) = run(&prog, Value::Null, FUEL);
    assert_eq!(vals, Vec::<Value>::new());
    assert_eq!(
        st,
        Status::Failed(QueryExecutionError::IncompatibleBinaryOperator(
            "+",
            Value::Str(chars("a")),
            num(1),
        ))
    );
}

#[test]
fn comma_concatenates_in_order() {
    let left = Ast::Comma(lit(num(1)), lit(num(2)));
    let right = Ast::Comma(lit(num(3)), lit(num(4)));
    let prog = Ast::Comma(Box::new(left), Box::new(right));
    let (vals, st) = run(&prog, Value::Null, FUEL);
    assert_eq!(st, Status::Finished);
    assert_eq!(vals, vec![num(1), num(2), num(3), num(4)]);
}

#[test]
fn optional_swallows_failure() {
    let div = Ast::BinOp { op: BinaryOp::Div, lhs: lit(num(1)), rhs: lit(num(0)) };
    let prog = Ast::Optional(Box::new(div));
    let (vals, st) = run(&prog, Value::Null, FUEL);
    assert_eq!(st, Status::Finished);
    assert_eq!(vals, Vec::<Value>::new());
}

#[test]
fn pipe_binding_not_visible_to_sibling() {
    // (1 as $x | $x), $x  — the second $x has no binding in scope.
    let bound = Ast::BindVar {
        source: lit(num(1)),
        name: chars("x"),
        body: Box::new(Ast::Variable(chars("x"))),
    };
    let prog = Ast::Comma(Box::new(bound), Box::new(Ast::Variable(chars("x"))));
    let (vals, st) = run(&prog, Value::Null, FUEL);
    assert_eq!(vals, vec![num(1)]);
    assert_eq!(st, Status::Failed(QueryExecutionError::UndefinedVariable(chars("x"))));
}

#[test]
fn function_body_sees_definition_site() {
    // 5 as $x | def f: $x; 6 as $x | f  — emits the definition-site 5.
    let call = Ast::FunCall { name: chars("f"), args: vec![] };
    let inner_bind = Ast::BindVar { source: lit(num(6)), name: chars("x"), body: Box::new(call) };
    let def = Ast::FunDef {
        name: chars("f"),
        params: vec![],
        body: Rc::new(Ast::Variable(chars("x"))),
        rest: Box::new(inner_bind),
    };
    let prog = Ast::BindVar { source: lit(num(5)), name: chars("x"), body: Box::new(def) };
    let (vals, st) = run(&prog, Value::Null, FUEL);
    assert_eq!(st, Status::Finished);
    assert_eq!(vals, vec![num(5)]);
}

#[test]
fn recursive_function_exhausts_fuel() {
    // def f: f; f  — unbounded recursion ends with fuel exhaustion.
    let def = Ast::FunDef {
        name: chars("f"),
        params: vec![],
        body: Rc::new(Ast::FunCall { name: chars("f"), args: vec![] }),
        rest: Box::new(Ast::FunCall { name: chars("f"), args: vec![] }),
    };
    let (vals, st) = run(&def, Value::Null, 16);
    assert_eq!(vals, Vec::<Value>::new());
    assert_eq!(st, Status::Exhausted);
}

#[test]
fn slice_array_clamps_bounds() {
    let prog = Ast::Slice {
        base: Box::new(Ast::Identity),
        lo: Some(lit(num(1))),
        hi: Some(lit(num(3))),
    };
    let subject = Value::Array(vec![num(10), num(20), num(30), num(40)]);
    let (vals, st) = run(&prog, subject, FUEL);
    assert_eq!(st, Status::Finished);
    assert_eq!(vals, vec![Value::Array(vec![num(20), num(30)])]);
}

#[test]
fn negative_array_index_counts_from_end() {
    let prog = Ast::Index { base: Box::new(Ast::Identity), key: lit(num(-1)) };
    let (vals, st) = run(&prog, Value::Array(vec![num(10), num(20)]), FUEL);
    assert_eq!(st, Status::Finished);
    assert_eq!(vals, vec![num(20)]);
}

#[test]
fn string_repetition() {
    let prog = Ast::BinOp {
        op: BinaryOp::Mul,
        lhs: lit(Value::Str(chars("ab"))),
        rhs: lit(num(3)),
    };
    let (vals, st) = run(&prog, Value::Null, FUEL);
    assert_eq!(st, Status::Finished);
    assert_eq!(vals, vec![Value::Str(chars("ababab"))]);
}

#[test]
fn object_merge_is_right_biased() {
    let left = Value::Object(vec![(chars("a"), num(1)), (chars("b"), num(2))]);
    let right = Value::Object(vec![(chars("b"), num(9)), (chars("c"), num(3))]);
    let prog = Ast::BinOp { op: BinaryOp::Add, lhs: lit(left), rhs: lit(right) };
    let (vals, st) = run(&prog, Value::Null, FUEL);
    assert_eq!(st, Status::Finished);
    assert_eq!(
        vals,
        vec![Value::Object(vec![
            (chars("a"), num(1)),
            (chars("b"), num(9)),
            (chars("c"), num(3)),
        ])]
    );
}

#[test]
fn division_is_fixed_point_exact() {
    let prog = Ast::BinOp { op: BinaryOp::Div, lhs: lit(num(1)), rhs: lit(num(2)) };
    let (vals, st) = run(&prog, Value::Null, FUEL);
    assert_eq!(st, Status::Finished);
    assert_eq!(vals, vec![Value::Number(Number { units: 500_000_000 })]);
}

#[test]
fn binop_right_operand_varies_slowest() {
    // (1,2) + (10,20) emits 11, 12, 21, 22: for each right value, each left.
    let prog = Ast::BinOp {
        op: BinaryOp::Add,
        lhs: Box::new(Ast::Comma(lit(num(1)), lit(num(2)))),
        rhs: Box::new(Ast::Comma(lit(num(10)), lit(num(20)))),
    };
    let (vals, st) = run(&prog, Value::Null, FUEL);
    assert_eq!(st, Status::Finished);
    assert_eq!(vals, vec![num(11), num(12), num(21), num(22)]);
}

#[test]
fn failure_keeps_earlier_emissions() {
    // (1, 2, 1/0) delivers 1 and 2 before the failure.
    let div = Ast::BinOp { op: BinaryOp::Div, lhs: lit(num(1)), rhs: lit(num(0)) };
    let prog = Ast::Comma(
        Box::new(Ast::Comma(lit(num(1)), lit(num(2)))),
        Box::new(div),
    );
    let (vals, st) = run(&prog, Value::Null, FUEL);
    assert_eq!(vals, vec![num(1), num(2)]);
    assert_eq!(st, Status::Failed(QueryExecutionError::DivModByZero));
}

#[test]
fn try_catch_runs_fallback_after_prefix() {
    let div = Ast::BinOp { op: BinaryOp::Div, lhs: lit(num(1)), rhs: lit(num(0)) };
    let body = Ast::Comma(lit(num(7)), Box::new(div));
    let prog = Ast::TryCatch {
        body: Box::new(body),
        fallback: Some(lit(num(0))),
    };
    let (vals, st) = run(&prog, Value::Null, FUEL);
    assert_eq!(st, Status::Finished);
    assert_eq!(vals, vec![num(7), num(0)]);
}

#[test]
fn iterate_scalar_fails() {
    let prog = Ast::Iterate(Box::new(Ast::Identity));
    let (vals, st) = run(&prog, num(3), FUEL);
    assert_eq!(vals, Vec::<Value>::new());
    assert_eq!(st, Status::Failed(QueryExecutionError::IterateOnNonIterable(num(3))));
}
