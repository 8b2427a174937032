use mini_c::codegen::tac_code_gen::{translate_program, translate_statement, Environment};
use mini_c::ir::ast::{
    CheckedProgram, CheckedStmt, Expr, ExprD, FieldDecl, FunDecl, Literal, MatchArm, Param, Program,
    Statement, StatementD, Type, UDTDecl, UDTKind, UDTMember, UncheckedExpr, UncheckedProgram,
    UncheckedStmt,
};
use mini_c::ir::tac::{Address, Instruction, Operator};
use mini_c::semantic::type_check;

// Builders for unchecked syntax trees, written as the parser produces them.

fn ex(exp: Expr<()>) -> UncheckedExpr {
    ExprD { exp, ty: () }
}

fn int_lit(v: i64) -> UncheckedExpr {
    ex(Expr::Literal(Literal::Int(v)))
}


fn ident(name: &str) -> UncheckedExpr {
    ex(Expr::Ident(name.to_string()))
}

fn member(base: UncheckedExpr, name: &str) -> UncheckedExpr {
    ex(Expr::Member { base: Box::new(base), member: name.to_string() })
}

fn init(fields: Vec<(&str, Option<UncheckedExpr>)>) -> UncheckedExpr {
    ex(Expr::Init { fields: fields.into_iter().map(|(n, e)| (n.to_string(), e)).collect() })
}


fn st(stmt: Statement<()>) -> UncheckedStmt {
    StatementD { stmt, ty: () }
}

fn decl(name: &str, ty: Type, e: UncheckedExpr) -> UncheckedStmt {
    st(Statement::Decl { name: name.to_string(), ty, init: Box::new(e) })
}

fn assign(target: UncheckedExpr, value: UncheckedExpr) -> UncheckedStmt {
    st(Statement::Assign { target: Box::new(target), value: Box::new(value) })
}

fn call(name: &str, args: Vec<UncheckedExpr>) -> UncheckedStmt {
    st(Statement::Call { name: name.to_string(), args })
}

fn block(seq: Vec<UncheckedStmt>) -> UncheckedStmt {
    st(Statement::Block { seq })
}


fn match_on(target: UncheckedExpr, arms: Vec<(&str, Vec<UncheckedStmt>)>) -> UncheckedStmt {
    st(Statement::Match {
        target: Box::new(target),
        arms: arms
            .into_iter()
            .map(|(v, body)| MatchArm { variant: v.to_string(), binding: None, body: Box::new(block(body)) })
            .collect(),
    })
}

fn struct_ty(name: &str) -> Type {
    Type::Struct(name.to_string())
}

fn enum_ty(name: &str) -> Type {
    Type::Enum(name.to_string())
}

fn struct_decl(name: &str, fields: Vec<(Type, &str)>) -> UDTDecl {
    UDTDecl {
        specifier: UDTKind::Struct,
        identifier: name.to_string(),
        members: fields
            .into_iter()
            .map(|(ty, n)| UDTMember::Field(FieldDecl { name: n.to_string(), ty }))
            .collect(),
    }
}

fn enum_decl(name: &str, variants: Vec<(Option<Type>, &str)>) -> UDTDecl {
    UDTDecl {
        specifier: UDTKind::Enum,
        identifier: name.to_string(),
        members: variants
            .into_iter()
            .map(|(ty, n)| UDTMember::EnumVariant { name: n.to_string(), ty })
            .collect(),
    }
}

fn func(ret_ty: Type, name: &str, params: Vec<(Type, &str)>, body: Vec<UncheckedStmt>) -> FunDecl<()> {
    FunDecl {
        name: name.to_string(),
        params: params.into_iter().map(|(ty, n)| Param { name: n.to_string(), ty }).collect(),
        return_type: ret_ty,
        body: Box::new(block(body)),
    }
}

fn main_fn(body: Vec<UncheckedStmt>) -> FunDecl<()> {
    func(Type::Unit, "main", vec![], body)
}

fn program(decls: Vec<UDTDecl>, functions: Vec<FunDecl<()>>) -> UncheckedProgram {
    Program { type_declarations: decls, functions }
}

fn type_check_src(p: UncheckedProgram) -> CheckedProgram {
    type_check(&p).expect("source should type-check")
}

fn boolean(b: bool) -> UncheckedExpr {
    ex(Expr::Literal(Literal::Bool(b)))
}

fn option_decl() -> UDTDecl {
    enum_decl("Option", vec![(Some(Type::Int), "Some"), (None, "None")])
}


fn binary(f: fn(Box<UncheckedExpr>, Box<UncheckedExpr>) -> Expr<()>, l: UncheckedExpr, r: UncheckedExpr) -> UncheckedExpr {
    ex(f(Box::new(l), Box::new(r)))
}

fn if_else(cond: UncheckedExpr, then_body: Vec<UncheckedStmt>, else_body: Vec<UncheckedStmt>) -> UncheckedStmt {
    st(Statement::If {
        cond: Box::new(cond),
        then_branch: Box::new(block(then_body)),
        else_branch: Some(Box::new(block(else_body))),
    })
}

fn var(name: &str, ty: Type) -> Address {
    Address::Variable(name.to_string(), ty)
}

fn temp(name: &str, ty: Type) -> Address {
    Address::Temporary(name.to_string(), ty)
}

fn int_const(v: i64) -> Address {
    Address::Constant(Literal::Int(v), Type::Int)
}

fn bool_const(b: bool) -> Address {
    Address::Constant(Literal::Bool(b), Type::Bool)
}

fn label(l: &str) -> Instruction {
    Instruction::Label(l.to_string())
}

fn jmp(l: &str) -> Instruction {
    Instruction::JMP(l.to_string())
}

fn print_call() -> Instruction {
    Instruction::Call(None, "print".to_string(), 1)
}

fn translate(p: UncheckedProgram, env: &mut Environment) -> Vec<Instruction> {
    translate_program(type_check_src(p), env)
}

fn tag_test(tag_var: &str, ordinal: i64, next: &str) -> Instruction {
    Instruction::ConditionalJMPRelational(Operator::NE, var(&format!("{}.tag", tag_var), Type::Int), int_const(ordinal), next.to_string())
}

// void main() { int x = 1; if (x < 2) { print(x); } else { print(0); } }
#[test]
fn if_else_jumps_on_negated_comparison() {
    let p = program(
        vec![],
        vec![main_fn(vec![
            decl("x", Type::Int, int_lit(1)),
            if_else(
                binary(Expr::Lt, ident("x"), int_lit(2)),
                vec![call("print", vec![ident("x")])],
                vec![call("print", vec![int_lit(0)])],
            ),
        ])],
    );
    let mut env = Environment::new();
    assert_eq!(
        translate(p, &mut env),
        vec![
            label("main"),
            Instruction::CopyAssignment(var("x", Type::Int), int_const(1)),
            Instruction::ConditionalJMPRelational(Operator::GTE, var("x", Type::Int), int_const(2), "Label1:".to_string()),
            Instruction::Param(var("x", Type::Int)),
            print_call(),
            jmp("Label2:"),
            label("Label1:"),
            Instruction::Param(int_const(0)),
            print_call(),
            label("Label2:"),
        ]
    );
}

// void main() { bool b = true; if (b) { print(1); } else { print(2); } }
#[test]
fn if_on_variable_jumps_when_false() {
    let p = program(
        vec![],
        vec![main_fn(vec![
            decl("b", Type::Bool, ex(Expr::Literal(Literal::Bool(true)))),
            if_else(ident("b"), vec![call("print", vec![int_lit(1)])], vec![call("print", vec![int_lit(2)])]),
        ])],
    );
    let mut env = Environment::new();
    let code = translate(p, &mut env);
    assert_eq!(code[2], Instruction::ConditionalJMPFalse(var("b", Type::Bool), "Label1:".to_string()));
}

// void main() { bool b = true; bool c = !b && b; int s = 1 + 2; }
#[test]
fn boolean_and_arithmetic_use_fresh_temporaries() {
    let p = program(
        vec![],
        vec![main_fn(vec![
            decl("b", Type::Bool, ex(Expr::Literal(Literal::Bool(true)))),
            decl("c", Type::Bool, binary(Expr::And, ex(Expr::Not(Box::new(ident("b")))), ident("b"))),
            decl("s", Type::Int, binary(Expr::Add, int_lit(1), int_lit(2))),
        ])],
    );
    let mut env = Environment::new();
    assert_eq!(
        translate(p, &mut env),
        vec![
            label("main"),
            Instruction::CopyAssignment(var("b", Type::Bool), bool_const(true)),
            Instruction::ConditionalJMPFalse(var("b", Type::Bool), "Label1:".to_string()),
            Instruction::CopyAssignment(temp("temp1", Type::Bool), bool_const(false)),
            jmp("Label2:"),
            label("Label1:"),
            Instruction::CopyAssignment(temp("temp1", Type::Bool), bool_const(true)),
            label("Label2:"),
            Instruction::ConditionalJMPFalse(temp("temp1", Type::Bool), "Label3:".to_string()),
            Instruction::ConditionalJMPFalse(var("b", Type::Bool), "Label3:".to_string()),
            Instruction::CopyAssignment(temp("temp2", Type::Bool), bool_const(true)),
            jmp("Label4:"),
            label("Label3:"),
            Instruction::CopyAssignment(temp("temp2", Type::Bool), bool_const(false)),
            label("Label4:"),
            Instruction::CopyAssignment(var("c", Type::Bool), temp("temp2", Type::Bool)),
            Instruction::BinaryAssignment(Operator::Add, temp("temp3", Type::Int), int_const(1), int_const(2)),
            Instruction::CopyAssignment(var("s", Type::Int), temp("temp3", Type::Int)),
        ]
    );
}

// void main() { bool b = true; bool c = b || b; }
#[test]
fn disjunction_short_circuits() {
    let p = program(
        vec![],
        vec![main_fn(vec![
            decl("b", Type::Bool, ex(Expr::Literal(Literal::Bool(true)))),
            decl("c", Type::Bool, binary(Expr::Or, ident("b"), ident("b"))),
        ])],
    );
    let mut env = Environment::new();
    assert_eq!(
        translate(p, &mut env),
        vec![
            label("main"),
            Instruction::CopyAssignment(var("b", Type::Bool), bool_const(true)),
            Instruction::ConditionalJMPFalse(var("b", Type::Bool), "Label2:".to_string()),
            jmp("Label1:"),
            label("Label2:"),
            Instruction::ConditionalJMP(var("b", Type::Bool), "Label1:".to_string()),
            Instruction::CopyAssignment(temp("temp1", Type::Bool), bool_const(false)),
            jmp("Label3:"),
            label("Label1:"),
            Instruction::CopyAssignment(temp("temp1", Type::Bool), bool_const(true)),
            label("Label3:"),
            Instruction::CopyAssignment(var("c", Type::Bool), temp("temp1", Type::Bool)),
        ]
    );
}

// enum Option { int Some; None; }
// void main() { enum Option a = { .Some = 1 }; enum Option b = { .Some = 2 };
//   match a { case Some: { match b { case Some: { print(Some); } case None: { } } print(Some); }
//             case None: { } } }
#[test]
fn inner_match_binding_shadows_and_outer_one_comes_back() {
    let inner = match_on(ident("b"), vec![("Some", vec![call("print", vec![ident("Some")])]), ("None", vec![])]);
    let p = program(
        vec![option_decl()],
        vec![main_fn(vec![
            decl("a", enum_ty("Option"), init(vec![("Some", Some(int_lit(1)))])),
            decl("b", enum_ty("Option"), init(vec![("Some", Some(int_lit(2)))])),
            match_on(ident("a"), vec![("Some", vec![inner, call("print", vec![ident("Some")])]), ("None", vec![])]),
        ])],
    );
    let mut env = Environment::new();
    assert_eq!(
        translate(p, &mut env),
        vec![
            label("main"),
            Instruction::CopyAssignment(var("a.tag", Type::Int), int_const(0)),
            Instruction::CopyAssignment(var("a.payload", Type::Int), int_const(1)),
            Instruction::CopyAssignment(var("b.tag", Type::Int), int_const(0)),
            Instruction::CopyAssignment(var("b.payload", Type::Int), int_const(2)),
            tag_test("a", 0, "Label2:"),
            Instruction::CopyAssignment(temp("_match1", Type::Int), var("a.payload", Type::Int)),
            tag_test("b", 0, "Label4:"),
            Instruction::CopyAssignment(temp("_match2", Type::Int), var("b.payload", Type::Int)),
            Instruction::Param(temp("_match2", Type::Int)),
            print_call(),
            jmp("Label3:"),
            label("Label4:"),
            tag_test("b", 1, "Label5:"),
            jmp("Label3:"),
            label("Label5:"),
            label("Label3:"),
            Instruction::Param(temp("_match1", Type::Int)),
            print_call(),
            jmp("Label1:"),
            label("Label2:"),
            tag_test("a", 1, "Label6:"),
            jmp("Label1:"),
            label("Label6:"),
            label("Label1:"),
        ]
    );
}

// Two programs translated with one environment: the second one's labels
// continue after the first one's.
#[test]
fn counters_carry_over_between_translations() {
    let make = || {
        program(
            vec![],
            vec![main_fn(vec![if_else(ex(Expr::Literal(Literal::Bool(true))), vec![], vec![])])],
        )
    };
    let mut env = Environment::new();
    let first = translate(make(), &mut env);
    let second = translate(make(), &mut env);
    assert_eq!(first, vec![label("main"), jmp("Label2:"), label("Label1:"), label("Label2:")]);
    assert_eq!(second, vec![label("main"), jmp("Label4:"), label("Label3:"), label("Label4:")]);
}

// void main() { if (false) { } else { } }
#[test]
fn false_condition_jumps_to_else() {
    let p = program(vec![], vec![main_fn(vec![if_else(ex(Expr::Literal(Literal::Bool(false))), vec![], vec![])])]);
    let mut env = Environment::new();
    assert_eq!(
        translate(p, &mut env),
        vec![label("main"), jmp("Label1:"), jmp("Label2:"), label("Label1:"), label("Label2:")]
    );
}

// struct Point { int x; int y; }
// void show(struct Point p) { }
// void main() { show({ .x = 1, .y = 2 }); print("hi"); }
#[test]
fn initializer_argument_goes_through_init_temporary() {
    let p = program(
        vec![struct_decl("Point", vec![(Type::Int, "x"), (Type::Int, "y")])],
        vec![
            func(Type::Unit, "show", vec![(struct_ty("Point"), "p")], vec![]),
            main_fn(vec![
                call("show", vec![init(vec![("x", Some(int_lit(1))), ("y", Some(int_lit(2)))])]),
                call("print", vec![ex(Expr::Literal(Literal::Str("hi".to_string())))]),
            ]),
        ],
    );
    let mut env = Environment::new();
    assert_eq!(
        translate(p, &mut env),
        vec![
            label("main"),
            Instruction::CopyAssignment(var("_init1.x", Type::Int), int_const(1)),
            Instruction::CopyAssignment(var("_init1.y", Type::Int), int_const(2)),
            Instruction::Param(var("_init1", struct_ty("Point"))),
            Instruction::Call(None, "show".to_string(), 1),
            Instruction::Param(Address::Constant(Literal::Str("hi".to_string()), Type::Str)),
            print_call(),
        ]
    );
}

// void main() { float f = 1.5; int i = (int)f; }
#[test]
fn cast_retypes_the_address() {
    let p = program(
        vec![],
        vec![main_fn(vec![
            decl("f", Type::Float, ex(Expr::Literal(Literal::Float(1.5f64.to_bits())))),
            decl("i", Type::Int, ex(Expr::Cast { ty: Type::Int, expr: Box::new(ident("f")) })),
        ])],
    );
    let mut env = Environment::new();
    assert_eq!(
        translate(p, &mut env),
        vec![
            label("main"),
            Instruction::CopyAssignment(var("f", Type::Float), Address::Constant(Literal::Float(1.5f64.to_bits()), Type::Float)),
            Instruction::CopyAssignment(var("i", Type::Int), var("f", Type::Int)),
        ]
    );
}

// enum Shape { int Circle; int Square; bool Dot; }
// void main() { enum Shape a = { .Dot = true }; enum Shape b = a; }
#[test]
fn enum_copy_copies_each_payload_type_once() {
    let p = program(
        vec![enum_decl("Shape", vec![(Some(Type::Int), "Circle"), (Some(Type::Int), "Square"), (Some(Type::Bool), "Dot")])],
        vec![main_fn(vec![
            decl("a", enum_ty("Shape"), init(vec![("Dot", Some(ex(Expr::Literal(Literal::Bool(true)))))])),
            decl("b", enum_ty("Shape"), ident("a")),
        ])],
    );
    let mut env = Environment::new();
    assert_eq!(
        translate(p, &mut env),
        vec![
            label("main"),
            Instruction::CopyAssignment(var("a.tag", Type::Int), int_const(2)),
            Instruction::CopyAssignment(var("a.payload", Type::Bool), bool_const(true)),
            Instruction::CopyAssignment(var("b.tag", Type::Int), var("a.tag", Type::Int)),
            Instruction::CopyAssignment(var("b.payload", Type::Int), var("a.payload", Type::Int)),
            Instruction::CopyAssignment(var("b.payload", Type::Bool), var("a.payload", Type::Bool)),
        ]
    );
}

// struct Point { int x; int y; }
// void main() { struct Point p = { .x = 1, .y = 2 }; p.x = 5; }
#[test]
fn member_assignment_targets_the_component() {
    let p = program(
        vec![struct_decl("Point", vec![(Type::Int, "x"), (Type::Int, "y")])],
        vec![main_fn(vec![
            decl("p", struct_ty("Point"), init(vec![("x", Some(int_lit(1))), ("y", Some(int_lit(2)))])),
            assign(member(ident("p"), "x"), int_lit(5)),
        ])],
    );
    let mut env = Environment::new();
    let code = translate(p, &mut env);
    assert_eq!(code.last(), Some(&Instruction::CopyAssignment(var("p.x", Type::Int), int_const(5))));
}

fn checked_main_body(p: UncheckedProgram) -> CheckedStmt {
    let checked: CheckedProgram = type_check_src(p);
    let main = checked.functions.into_iter().find(|f| f.name == "main").expect("main");
    *main.body
}

// translate_statement numbers temporaries across calls on one environment.
#[test]
fn translate_statement_continues_numbering() {
    let body = || {
        checked_main_body(program(vec![], vec![main_fn(vec![decl("s", Type::Int, binary(Expr::Add, int_lit(1), int_lit(2)))])]))
    };
    let mut env = Environment::new();
    let first = translate_statement(body(), &mut env);
    let second = translate_statement(body(), &mut env);
    assert_eq!(
        first,
        vec![
            Instruction::BinaryAssignment(Operator::Add, temp("temp1", Type::Int), int_const(1), int_const(2)),
            Instruction::CopyAssignment(var("s", Type::Int), temp("temp1", Type::Int)),
        ]
    );
    assert_eq!(
        second,
        vec![
            Instruction::BinaryAssignment(Operator::Add, temp("temp2", Type::Int), int_const(1), int_const(2)),
            Instruction::CopyAssignment(var("s", Type::Int), temp("temp2", Type::Int)),
        ]
    );
}

// Only main is translated; other functions are left out.
#[test]
fn only_main_is_translated() {
    let p = program(
        vec![],
        vec![
            func(Type::Unit, "helper", vec![], vec![call("print", vec![int_lit(7)])]),
            main_fn(vec![call("print", vec![int_lit(1)])]),
        ],
    );
    let mut env = Environment::new();
    assert_eq!(translate(p, &mut env), vec![label("main"), Instruction::Param(int_const(1)), print_call()]);
}

// A cloned environment continues from the same counters as the original.
#[test]
fn cloned_environment_continues_alike() {
    let make = || {
        program(vec![], vec![main_fn(vec![if_else(ex(Expr::Literal(Literal::Bool(true))), vec![], vec![])])])
    };
    let mut env = Environment::new();
    let _ = translate(make(), &mut env);
    let mut copy = env.clone();
    let a = translate(make(), &mut env);
    let b = translate(make(), &mut copy);
    assert_eq!(a, b);
    assert_eq!(a, vec![label("main"), jmp("Label4:"), label("Label3:"), label("Label4:")]);
}
