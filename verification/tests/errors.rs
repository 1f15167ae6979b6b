// One input for each error kind, compile-time and runtime.

use dusty::dusty_context::DustyContext;
use dusty::lang::{CompileError, Node, Rule, RuntimeError, Type};
use dusty::quadruple_unit::{Quad, QuadrupleUnit};
use dusty::quadruples::compile;
use dusty::var_info::VarInfo;
use dusty::virtual_machine::{vm_step, Vm};

fn leaf(r: Rule, t: &str) -> Node {
    Node::leaf(r, t, 2, 7)
}

fn n(r: Rule, children: Vec<Node>) -> Node {
    Node::new(r, String::new(), 2, 7, children)
}

fn expr_of(v: Node) -> Node {
    n(
        Rule::Expression,
        vec![n(Rule::Exp, vec![n(Rule::Term, vec![n(Rule::Factor, vec![v])])])],
    )
}

fn value_id(name: &str) -> Node {
    n(Rule::Value, vec![leaf(Rule::Id, name)])
}

fn value_int(t: &str) -> Node {
    n(Rule::Value, vec![n(Rule::Cte, vec![leaf(Rule::CteInt, t)])])
}

fn value_float(t: &str) -> Node {
    n(Rule::Value, vec![n(Rule::Cte, vec![leaf(Rule::CteFloat, t)])])
}

fn assign_stmt(name: &str, e: Node) -> Node {
    n(
        Rule::Statement,
        vec![n(Rule::Assign, vec![leaf(Rule::Id, name), leaf(Rule::Equals, "="), e])],
    )
}

fn vars_decl(names: &[&str], ty: &str) -> Node {
    let ids: Vec<Node> = names.iter().map(|s| leaf(Rule::Id, s)).collect();
    n(
        Rule::Vars,
        vec![n(Rule::IdList, ids), leaf(Rule::TypeVar, ty), leaf(Rule::Delimiter, ";")],
    )
}

fn program(vars: Option<Node>, funcs: Vec<Node>, body: Vec<Node>) -> Node {
    let mut ch = vec![leaf(Rule::Id, "p"), leaf(Rule::Delimiter, ";")];
    if let Some(v) = vars {
        ch.push(v);
    }
    for f in funcs {
        ch.push(f);
    }
    ch.push(leaf(Rule::BeginKeyword, "begin"));
    ch.push(n(Rule::Body, body));
    ch.push(leaf(Rule::EndKeyword, "end"));
    Node::new(Rule::Program, String::from("p"), 1, 1, ch)
}

#[test]
fn undeclared_identifier_is_reported_with_its_position() {
    let tree = program(None, vec![], vec![assign_stmt("x", expr_of(value_int("1")))]);
    let err = compile(&tree).unwrap_err();
    match err {
        CompileError::UndeclaredIdentifier { name, line, col } => {
            assert_eq!(name, "x");
            assert_eq!(line, 2);
            assert_eq!(col, 7);
        }
        other => panic!("wrong error: {:?}", other),
    }
}

#[test]
fn redeclared_identifier_is_rejected() {
    let tree = program(Some(vars_decl(&["x", "x"], "int")), vec![], vec![]);
    let err = compile(&tree).unwrap_err();
    assert!(matches!(err, CompileError::RedeclaredIdentifier { .. }));
}

#[test]
fn assignment_type_mismatch_is_rejected() {
    // x: int; x = 1.5
    let tree = program(
        Some(vars_decl(&["x"], "int")),
        vec![],
        vec![assign_stmt("x", expr_of(value_float("1.5")))],
    );
    let err = compile(&tree).unwrap_err();
    assert!(matches!(err, CompileError::TypeMismatch { .. }));
}

#[test]
fn mixed_relational_types_are_rejected() {
    // if (1 < 1.5) ...
    let cond = n(
        Rule::Expression,
        vec![
            n(Rule::Exp, vec![n(Rule::Term, vec![n(Rule::Factor, vec![value_int("1")])])]),
            leaf(Rule::Comparator, "<"),
            n(Rule::Exp, vec![n(Rule::Term, vec![n(Rule::Factor, vec![value_float("1.5")])])]),
        ],
    );
    let stmt = n(
        Rule::Statement,
        vec![n(
            Rule::Condition,
            vec![
                leaf(Rule::OpenP, "("),
                cond,
                leaf(Rule::CloseP, ")"),
                n(Rule::Body, vec![]),
                leaf(Rule::Delimiter, ";"),
            ],
        )],
    );
    let tree = program(None, vec![], vec![stmt]);
    let err = compile(&tree).unwrap_err();
    assert!(matches!(err, CompileError::TypeMismatch { .. }));
}

#[test]
fn non_int_condition_is_rejected() {
    // if (1.5) ...
    let stmt = n(
        Rule::Statement,
        vec![n(
            Rule::Condition,
            vec![
                leaf(Rule::OpenP, "("),
                expr_of(value_float("1.5")),
                leaf(Rule::CloseP, ")"),
                n(Rule::Body, vec![]),
                leaf(Rule::Delimiter, ";"),
            ],
        )],
    );
    let tree = program(None, vec![], vec![stmt]);
    let err = compile(&tree).unwrap_err();
    assert!(matches!(err, CompileError::BadConditionType { found: Type::Float }));
}

#[test]
fn arity_mismatch_is_rejected() {
    let func = n(
        Rule::Funcs,
        vec![
            leaf(Rule::Id, "f"),
            leaf(Rule::OpenP, "("),
            n(
                Rule::Parameters,
                vec![n(Rule::IdTypeList, vec![leaf(Rule::Id, "a"), leaf(Rule::TypeVar, "int")])],
            ),
            leaf(Rule::CloseP, ")"),
            n(Rule::FuncBody, vec![n(Rule::Body, vec![])]),
            leaf(Rule::Delimiter, ";"),
        ],
    );
    let call = n(
        Rule::Statement,
        vec![n(
            Rule::FuncCall,
            vec![leaf(Rule::Id, "f"), leaf(Rule::OpenP, "("), leaf(Rule::CloseP, ")")],
        )],
    );
    let tree = program(None, vec![func], vec![call]);
    let err = compile(&tree).unwrap_err();
    match err {
        CompileError::ArityMismatch { expected, got, .. } => {
            assert_eq!(expected, 1);
            assert_eq!(got, 0);
        }
        other => panic!("wrong error: {:?}", other),
    }
}

#[test]
fn calling_an_unknown_function_is_rejected() {
    let call = n(
        Rule::Statement,
        vec![n(
            Rule::FuncCall,
            vec![leaf(Rule::Id, "g"), leaf(Rule::OpenP, "("), leaf(Rule::CloseP, ")")],
        )],
    );
    let tree = program(None, vec![], vec![call]);
    let err = compile(&tree).unwrap_err();
    assert!(matches!(err, CompileError::UndeclaredIdentifier { .. }));
}

#[test]
fn a_tree_off_the_grammar_is_rejected() {
    let tree = Node::new(Rule::Program, String::from("p"), 1, 1, vec![]);
    let err = compile(&tree).unwrap_err();
    assert!(matches!(err, CompileError::MalformedTree { .. }));
}

#[test]
fn a_missing_operand_is_a_stack_underflow() {
    let mut ctx = DustyContext::new();
    ctx.declare_function("global", 0);
    ctx.current_func = String::from("global");
    let err = ctx.generate_full_quad().unwrap_err();
    assert!(matches!(err, CompileError::StackUnderflow));
}

#[test]
fn division_by_zero_is_fatal() {
    // y: float; y = 1 / 0
    let e = n(
        Rule::Expression,
        vec![n(
            Rule::Exp,
            vec![n(
                Rule::Term,
                vec![
                    n(Rule::Factor, vec![value_int("1")]),
                    leaf(Rule::Operator, "/"),
                    n(Rule::Factor, vec![value_int("0")]),
                ],
            )],
        )],
    );
    let tree = program(Some(vars_decl(&["y"], "float")), vec![], vec![assign_stmt("y", e)]);
    let ctx = compile(&tree).expect("compiles");
    let (mut vm, _) = Vm::new(&ctx).expect("machine");
    let mut steps = 0;
    loop {
        steps += 1;
        assert!(steps < 1000);
        match vm_step(&mut vm, &ctx) {
            Ok(dusty::virtual_machine::VmEvent::Halted) => panic!("ran to completion"),
            Ok(_) => {}
            Err(e) => {
                assert!(matches!(e, RuntimeError::DivideByZero));
                break;
            }
        }
    }
}

#[test]
fn writing_to_a_constant_is_fatal() {
    let mut ctx = DustyContext::new();
    ctx.declare_function("global", 0);
    ctx.const_dir.push(VarInfo::new(String::from("3"), Type::Int, 21000));
    ctx.constants.int_count = 1;
    // a hand-made assignment aimed at the constant segment
    ctx.quadruples.push(Quad {
        op: QuadrupleUnit::new(String::from("="), 9),
        arg1: QuadrupleUnit::new(String::from("3"), 21000),
        arg2: QuadrupleUnit::new(String::from("_"), 0),
        dest: QuadrupleUnit::new(String::from("3"), 21000),
    });
    let (mut vm, _) = Vm::new(&ctx).expect("machine");
    let err = vm_step(&mut vm, &ctx).unwrap_err();
    assert!(matches!(err, RuntimeError::WriteToConstant { address: 21000 }));
}

#[test]
fn an_unmapped_address_is_fatal() {
    let mut ctx = DustyContext::new();
    ctx.declare_function("global", 0);
    ctx.quadruples.push(Quad {
        op: QuadrupleUnit::new(String::from("print"), 15),
        arg1: QuadrupleUnit::new(String::from("_"), 0),
        arg2: QuadrupleUnit::new(String::from("_"), 0),
        dest: QuadrupleUnit::new(String::from("x"), 999),
    });
    let (mut vm, _) = Vm::new(&ctx).expect("machine");
    let err = vm_step(&mut vm, &ctx).unwrap_err();
    assert!(matches!(err, RuntimeError::AddressOutOfRange { address: 999 }));
}

#[test]
fn a_malformed_literal_is_fatal_at_startup() {
    let mut ctx = DustyContext::new();
    ctx.declare_function("global", 0);
    ctx.const_dir.push(VarInfo::new(String::from("12x"), Type::Int, 21000));
    ctx.constants.int_count = 1;
    let err = match Vm::new(&ctx) {
        Ok(_) => panic!("started up"),
        Err(e) => e,
    };
    assert!(matches!(err, RuntimeError::MalformedLiteral { .. }));
}

#[test]
fn a_stray_endfunc_breaks_the_call_sequence() {
    let mut ctx = DustyContext::new();
    ctx.declare_function("global", 0);
    ctx.quadruples.push(Quad {
        op: QuadrupleUnit::new(String::from("endfunc"), 17),
        arg1: QuadrupleUnit::new(String::from("_"), 0),
        arg2: QuadrupleUnit::new(String::from("_"), 0),
        dest: QuadrupleUnit::new(String::from("_"), 0),
    });
    let (mut vm, _) = Vm::new(&ctx).expect("machine");
    let err = vm_step(&mut vm, &ctx).unwrap_err();
    assert!(matches!(err, RuntimeError::BrokenCallSequence));
}

#[test]
fn exhausting_a_segment_is_reported() {
    let mut ctx = DustyContext::new();
    ctx.declare_function("global", 0);
    ctx.current_func = String::from("global");
    for i in 0..2000 {
        ctx.declare_var_in_current(format!("v{}", i)).expect("fits the segment");
    }
    let err = ctx.declare_var_in_current(String::from("overflowing")).unwrap_err();
    assert!(matches!(err, CompileError::SegmentExhausted { .. }));
}
