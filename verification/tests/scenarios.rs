// End-to-end runs: build a parse tree, translate it, and drive the machine,
// performing the float arithmetic and collecting the printed lines.

use dusty::dusty_context::DustyContext;
use dusty::lang::{BinOp, Node, Rule};
use dusty::quadruples::compile;
use dusty::virtual_machine::{vm_step, Value, Vm, VmEvent};

fn leaf(r: Rule, t: &str) -> Node {
    Node::leaf(r, t, 1, 1)
}

fn n(r: Rule, children: Vec<Node>) -> Node {
    Node::new(r, String::new(), 1, 1, children)
}

fn value_id(name: &str) -> Node {
    n(Rule::Value, vec![leaf(Rule::Id, name)])
}

fn value_int(t: &str) -> Node {
    n(Rule::Value, vec![n(Rule::Cte, vec![leaf(Rule::CteInt, t)])])
}

fn value_float(t: &str) -> Node {
    n(Rule::Value, vec![n(Rule::Cte, vec![leaf(Rule::CteFloat, t)])])
}

fn factor(v: Node) -> Node {
    n(Rule::Factor, vec![v])
}

fn term1(f: Node) -> Node {
    n(Rule::Term, vec![f])
}

fn exp1(t: Node) -> Node {
    n(Rule::Exp, vec![t])
}

fn expr1(e: Node) -> Node {
    n(Rule::Expression, vec![e])
}

fn expr_of(v: Node) -> Node {
    expr1(exp1(term1(factor(v))))
}

fn compare(l: Node, op: &str, r: Node) -> Node {
    n(
        Rule::Expression,
        vec![exp1(term1(factor(l))), leaf(Rule::Comparator, op), exp1(term1(factor(r)))],
    )
}

fn assign_stmt(name: &str, e: Node) -> Node {
    n(
        Rule::Statement,
        vec![n(
            Rule::Assign,
            vec![leaf(Rule::Id, name), leaf(Rule::Equals, "="), e, leaf(Rule::Delimiter, ";")],
        )],
    )
}

fn print_stmt(element: Node) -> Node {
    n(
        Rule::Statement,
        vec![n(
            Rule::Print,
            vec![
                leaf(Rule::OpenP, "("),
                n(Rule::PrintElement, vec![element]),
                leaf(Rule::CloseP, ")"),
                leaf(Rule::Delimiter, ";"),
            ],
        )],
    )
}

fn vars_decl(names: &[&str], ty: &str) -> Node {
    let ids: Vec<Node> = names.iter().map(|s| leaf(Rule::Id, s)).collect();
    n(
        Rule::Vars,
        vec![n(Rule::IdList, ids), leaf(Rule::TypeVar, ty), leaf(Rule::Delimiter, ";")],
    )
}

fn program(vars: Option<Node>, funcs: Vec<Node>, body: Vec<Node>) -> Node {
    let mut ch = vec![leaf(Rule::Id, "p"), leaf(Rule::Delimiter, ";")];
    if let Some(v) = vars {
        ch.push(v);
    }
    for f in funcs {
        ch.push(f);
    }
    ch.push(leaf(Rule::BeginKeyword, "begin"));
    ch.push(n(Rule::Body, body));
    ch.push(leaf(Rule::EndKeyword, "end"));
    Node::new(Rule::Program, String::from("p"), 1, 1, ch)
}

fn to_f32(v: &Value) -> f32 {
    match v {
        Value::IntVal(x) => *x as f32,
        Value::FloatBits(b) => f32::from_bits(*b),
        Value::StrVal(_) => panic!("string in arithmetic"),
    }
}

fn format_value(v: &Value) -> String {
    match v {
        Value::IntVal(x) => x.to_string(),
        Value::FloatBits(b) => f32::from_bits(*b).to_string(),
        Value::StrVal(s) => s.clone(),
    }
}

fn run_program(ctx: &DustyContext) -> Vec<String> {
    let (mut vm, requests) = Vm::new(ctx).expect("machine startup");
    for r in requests {
        let bits = r.text.parse::<f32>().expect("float literal").to_bits();
        vm.set_float_const(r.offset, bits).expect("float constant slot");
    }
    let mut out: Vec<String> = Vec::new();
    let mut steps: usize = 0;
    loop {
        steps += 1;
        assert!(steps < 100000, "runaway program");
        match vm_step(&mut vm, ctx).expect("step") {
            VmEvent::Ran => {}
            VmEvent::Output(v) => out.push(format_value(&v)),
            VmEvent::FloatOp { op, left, right, dest } => {
                let l = to_f32(&left);
                let r = to_f32(&right);
                let res = match op {
                    BinOp::Add => l + r,
                    BinOp::Sub => l - r,
                    BinOp::Mul => l * r,
                    BinOp::Div => l / r,
                    _ => panic!("relational float op"),
                };
                vm.supply_float(dest, res.to_bits()).expect("float result");
            }
            VmEvent::StoreFloatOfInt { value, dest } => {
                vm.supply_float(dest, (value as f32).to_bits()).expect("store int as float");
            }
            VmEvent::Halted => break,
        }
    }
    out
}

#[test]
fn hello_print() {
    let tree = program(None, vec![], vec![print_stmt(leaf(Rule::StringLit, "\"hi\""))]);
    let ctx = compile(&tree).expect("compiles");
    assert_eq!(run_program(&ctx), vec!["hi".to_string()]);
}

#[test]
fn arithmetic_precedence() {
    // x = 2 + 3 * 4; print(x) -> 14
    let e = n(
        Rule::Expression,
        vec![n(
            Rule::Exp,
            vec![
                term1(factor(value_int("2"))),
                leaf(Rule::Sign, "+"),
                n(
                    Rule::Term,
                    vec![
                        factor(value_int("3")),
                        leaf(Rule::Operator, "*"),
                        factor(value_int("4")),
                    ],
                ),
            ],
        )],
    );
    let tree = program(
        Some(vars_decl(&["x"], "int")),
        vec![],
        vec![assign_stmt("x", e), print_stmt(expr_of(value_id("x")))],
    );
    let ctx = compile(&tree).expect("compiles");
    assert_eq!(run_program(&ctx), vec!["14".to_string()]);
}

#[test]
fn int_float_promotion() {
    // y = 1 + 2.5; print(y) -> 3.5
    let e = n(
        Rule::Expression,
        vec![n(
            Rule::Exp,
            vec![
                term1(factor(value_int("1"))),
                leaf(Rule::Sign, "+"),
                term1(factor(value_float("2.5"))),
            ],
        )],
    );
    let tree = program(
        Some(vars_decl(&["y"], "float")),
        vec![],
        vec![assign_stmt("y", e), print_stmt(expr_of(value_id("y")))],
    );
    let ctx = compile(&tree).expect("compiles");
    assert_eq!(run_program(&ctx), vec!["3.5".to_string()]);
}

fn if_else_stmt(cond: Node, then_body: Vec<Node>, else_body: Option<Vec<Node>>) -> Node {
    let mut ch = vec![
        leaf(Rule::OpenP, "("),
        cond,
        leaf(Rule::CloseP, ")"),
        n(Rule::Body, then_body),
    ];
    if let Some(eb) = else_body {
        ch.push(leaf(Rule::ElseKeyword, "else"));
        ch.push(n(Rule::Body, eb));
    }
    ch.push(leaf(Rule::Delimiter, ";"));
    n(Rule::Statement, vec![n(Rule::Condition, ch)])
}

fn while_stmt(cond: Node, body: Vec<Node>) -> Node {
    n(
        Rule::Statement,
        vec![n(
            Rule::WhileLoop,
            vec![
                leaf(Rule::OpenP, "("),
                cond,
                leaf(Rule::CloseP, ")"),
                leaf(Rule::DoKeyword, "do"),
                n(Rule::Body, body),
                leaf(Rule::Delimiter, ";"),
            ],
        )],
    )
}

#[test]
fn if_else_takes_the_true_branch() {
    // a = 3; if (a > 1) { print("yes") } else { print("no") } -> yes
    let tree = program(
        Some(vars_decl(&["a"], "int")),
        vec![],
        vec![
            assign_stmt("a", expr_of(value_int("3"))),
            if_else_stmt(
                compare(value_id("a"), ">", value_int("1")),
                vec![print_stmt(leaf(Rule::StringLit, "\"yes\""))],
                Some(vec![print_stmt(leaf(Rule::StringLit, "\"no\""))]),
            ),
        ],
    );
    let ctx = compile(&tree).expect("compiles");
    assert_eq!(run_program(&ctx), vec!["yes".to_string()]);
}

#[test]
fn if_else_takes_the_false_branch() {
    let tree = program(
        Some(vars_decl(&["a"], "int")),
        vec![],
        vec![
            assign_stmt("a", expr_of(value_int("0"))),
            if_else_stmt(
                compare(value_id("a"), ">", value_int("1")),
                vec![print_stmt(leaf(Rule::StringLit, "\"yes\""))],
                Some(vec![print_stmt(leaf(Rule::StringLit, "\"no\""))]),
            ),
        ],
    );
    let ctx = compile(&tree).expect("compiles");
    assert_eq!(run_program(&ctx), vec!["no".to_string()]);
}

#[test]
fn while_loop_counts() {
    // i = 0; while (i < 3) do { print(i); i = i + 1; } -> 0 1 2
    let incr = n(
        Rule::Expression,
        vec![n(
            Rule::Exp,
            vec![
                term1(factor(value_id("i"))),
                leaf(Rule::Sign, "+"),
                term1(factor(value_int("1"))),
            ],
        )],
    );
    let tree = program(
        Some(vars_decl(&["i"], "int")),
        vec![],
        vec![
            assign_stmt("i", expr_of(value_int("0"))),
            while_stmt(
                compare(value_id("i"), "<", value_int("3")),
                vec![print_stmt(expr_of(value_id("i"))), assign_stmt("i", incr)],
            ),
        ],
    );
    let ctx = compile(&tree).expect("compiles");
    assert_eq!(
        run_program(&ctx),
        vec!["0".to_string(), "1".to_string(), "2".to_string()]
    );
}

fn func_decl(name: &str, params: Vec<(&str, &str)>, body: Vec<Node>) -> Node {
    let mut ch = vec![leaf(Rule::Id, name), leaf(Rule::OpenP, "(")];
    if !params.is_empty() {
        let entries: Vec<Node> = params
            .iter()
            .map(|(pn, pt)| {
                n(Rule::IdTypeList, vec![leaf(Rule::Id, pn), leaf(Rule::TypeVar, pt)])
            })
            .collect();
        ch.push(n(Rule::Parameters, entries));
    }
    ch.push(leaf(Rule::CloseP, ")"));
    ch.push(n(Rule::FuncBody, vec![n(Rule::Body, body)]));
    ch.push(leaf(Rule::Delimiter, ";"));
    n(Rule::Funcs, ch)
}

fn call_stmt(name: &str, args: Vec<Node>) -> Node {
    let mut ch = vec![leaf(Rule::Id, name), leaf(Rule::OpenP, "(")];
    for a in args {
        ch.push(a);
    }
    ch.push(leaf(Rule::CloseP, ")"));
    ch.push(leaf(Rule::Delimiter, ";"));
    n(Rule::Statement, vec![n(Rule::FuncCall, ch)])
}

#[test]
fn procedure_call_with_parameter() {
    // void f(n: int) { print(n + 1); } begin f(41); end -> 42
    let body_expr = n(
        Rule::Expression,
        vec![n(
            Rule::Exp,
            vec![
                term1(factor(value_id("n"))),
                leaf(Rule::Sign, "+"),
                term1(factor(value_int("1"))),
            ],
        )],
    );
    let tree = program(
        None,
        vec![func_decl("f", vec![("n", "int")], vec![print_stmt(body_expr)])],
        vec![call_stmt("f", vec![expr_of(value_int("41"))])],
    );
    let ctx = compile(&tree).expect("compiles");
    assert_eq!(run_program(&ctx), vec!["42".to_string()]);
}

#[test]
fn jump_stack_is_empty_after_translation() {
    let tree = program(
        Some(vars_decl(&["a"], "int")),
        vec![],
        vec![
            assign_stmt("a", expr_of(value_int("1"))),
            if_else_stmt(
                compare(value_id("a"), ">", value_int("0")),
                vec![while_stmt(
                    compare(value_id("a"), "<", value_int("0")),
                    vec![print_stmt(expr_of(value_id("a")))],
                )],
                Some(vec![print_stmt(expr_of(value_id("a")))]),
            ),
        ],
    );
    let ctx = compile(&tree).expect("compiles");
    assert_eq!(ctx.quad_data.jump_stack.len(), 0);
}

#[test]
fn empty_function_body_emits_only_endfunc() {
    let tree = program(None, vec![func_decl("f", vec![], vec![])], vec![]);
    let ctx = compile(&tree).expect("compiles");
    // quad 1: the initial goto; quad 2: the function's lone endfunc;
    // quad 3: end
    assert_eq!(ctx.quadruples.len(), 3);
    assert_eq!(ctx.quadruples[1].op.memory, 17);
}

#[test]
fn if_without_else_backpatches_past_the_body() {
    // a = 3; if (a > 1) { a = 2; }
    let tree = program(
        Some(vars_decl(&["a"], "int")),
        vec![],
        vec![
            assign_stmt("a", expr_of(value_int("3"))),
            if_else_stmt(
                compare(value_id("a"), ">", value_int("1")),
                vec![assign_stmt("a", expr_of(value_int("2")))],
                None,
            ),
        ],
    );
    let ctx = compile(&tree).expect("compiles");
    // quads: 1 goto, 2 assign, 3 compare, 4 gotof, 5 assign, 6 end
    let gotofs: Vec<usize> = (0..ctx.quadruples.len())
        .filter(|&i| ctx.quadruples[i].op.memory == 11)
        .collect();
    assert_eq!(gotofs.len(), 1);
    assert_eq!(ctx.quadruples[gotofs[0]].dest.memory, 6);
    // and running it works: the branch is taken, a becomes 2, no output
    assert_eq!(run_program(&ctx), Vec::<String>::new());
}

#[test]
fn while_with_false_condition_skips_body_but_emits_it() {
    let tree = program(
        Some(vars_decl(&["i"], "int")),
        vec![],
        vec![
            assign_stmt("i", expr_of(value_int("5"))),
            while_stmt(
                compare(value_id("i"), "<", value_int("3")),
                vec![print_stmt(expr_of(value_id("i")))],
            ),
        ],
    );
    let ctx = compile(&tree).expect("compiles");
    // the body's print quadruple is emitted...
    let prints = ctx
        .quadruples
        .iter()
        .filter(|q| q.op.memory == 15)
        .count();
    assert_eq!(prints, 1);
    // ...but never executed
    assert_eq!(run_program(&ctx), Vec::<String>::new());
}

#[test]
fn param_count_between_era_and_gosub_equals_arity() {
    let tree = program(
        None,
        vec![func_decl(
            "f",
            vec![("a", "int"), ("b", "int")],
            vec![print_stmt(expr_of(value_id("a")))],
        )],
        vec![call_stmt(
            "f",
            vec![expr_of(value_int("7")), expr_of(value_int("9"))],
        )],
    );
    let ctx = compile(&tree).expect("compiles");
    let era = (0..ctx.quadruples.len())
        .find(|&i| ctx.quadruples[i].op.memory == 12)
        .expect("an era");
    let gosub = (0..ctx.quadruples.len())
        .find(|&i| ctx.quadruples[i].op.memory == 14)
        .expect("a gosub");
    assert!(era < gosub);
    let params = (era..gosub)
        .filter(|&i| ctx.quadruples[i].op.memory == 13)
        .count();
    assert_eq!(params, 2);
    assert_eq!(run_program(&ctx), vec!["7".to_string()]);
}

#[test]
fn same_literal_resolves_to_the_same_address() {
    // print(3); print(3); -> both print quads read one address
    let tree = program(
        None,
        vec![],
        vec![
            print_stmt(expr_of(value_int("3"))),
            print_stmt(expr_of(value_int("3"))),
        ],
    );
    let ctx = compile(&tree).expect("compiles");
    let prints: Vec<u32> = ctx
        .quadruples
        .iter()
        .filter(|q| q.op.memory == 15)
        .map(|q| q.dest.memory)
        .collect();
    assert_eq!(prints.len(), 2);
    assert_eq!(prints[0], prints[1]);
    assert_eq!(prints[0], 21000);
}

#[test]
fn integer_division_lands_in_a_float_cell() {
    // vars y: float; y = 7 / 2; print(y) -> 3 (integer division, float cell)
    let e = n(
        Rule::Expression,
        vec![exp1(n(
            Rule::Term,
            vec![
                factor(value_int("7")),
                leaf(Rule::Operator, "/"),
                factor(value_int("2")),
            ],
        ))],
    );
    let tree = program(
        Some(vars_decl(&["y"], "float")),
        vec![],
        vec![assign_stmt("y", e), print_stmt(expr_of(value_id("y")))],
    );
    let ctx = compile(&tree).expect("compiles");
    assert_eq!(run_program(&ctx), vec!["3".to_string()]);
}

#[test]
fn parentheses_override_precedence() {
    // x = 2 * (1 + 3); print(x) -> 8
    let inner = n(
        Rule::Expression,
        vec![n(
            Rule::Exp,
            vec![
                term1(factor(value_int("1"))),
                leaf(Rule::Sign, "+"),
                term1(factor(value_int("3"))),
            ],
        )],
    );
    let paren_factor = n(
        Rule::Factor,
        vec![leaf(Rule::OpenP, "("), inner, leaf(Rule::CloseP, ")")],
    );
    let e = expr1(exp1(n(
        Rule::Term,
        vec![factor(value_int("2")), leaf(Rule::Operator, "*"), paren_factor],
    )));
    let tree = program(
        Some(vars_decl(&["x"], "int")),
        vec![],
        vec![assign_stmt("x", e), print_stmt(expr_of(value_id("x")))],
    );
    let ctx = compile(&tree).expect("compiles");
    assert_eq!(run_program(&ctx), vec!["8".to_string()]);
}

#[test]
fn a_function_reads_globals_and_shadows_them_with_parameters() {
    // vars g: int; void f(g: int) { print(g); }; begin g = 5; f(9); print(g); end
    let tree = program(
        Some(vars_decl(&["g"], "int")),
        vec![func_decl("f", vec![("g", "int")], vec![print_stmt(expr_of(value_id("g")))])],
        vec![
            assign_stmt("g", expr_of(value_int("5"))),
            call_stmt("f", vec![expr_of(value_int("9"))]),
            print_stmt(expr_of(value_id("g"))),
        ],
    );
    let ctx = compile(&tree).expect("compiles");
    assert_eq!(run_program(&ctx), vec!["9".to_string(), "5".to_string()]);
}

#[test]
fn print_takes_several_elements_in_order() {
    let tree = program(
        None,
        vec![],
        vec![n(
            Rule::Statement,
            vec![n(
                Rule::Print,
                vec![
                    leaf(Rule::OpenP, "("),
                    n(Rule::PrintElement, vec![leaf(Rule::StringLit, "\"a\"")]),
                    leaf(Rule::Delimiter, ","),
                    n(Rule::PrintElement, vec![expr_of(value_int("7"))]),
                    leaf(Rule::CloseP, ")"),
                    leaf(Rule::Delimiter, ";"),
                ],
            )],
        )],
    );
    let ctx = compile(&tree).expect("compiles");
    assert_eq!(run_program(&ctx), vec!["a".to_string(), "7".to_string()]);
}
