use mini_c::codegen::tac_code_gen::{translate_program, Environment};
use mini_c::ir::ast::{
    CheckedProgram, Expr, ExprD, FieldDecl, FunDecl, Literal, MatchArm, Param, Program, Statement,
    StatementD, Type, UDTDecl, UDTKind, UDTMember, UncheckedExpr, UncheckedProgram, UncheckedStmt,
};
use mini_c::ir::tac::{Address, Instruction, Operator};
use mini_c::semantic::type_check;

// Builders for unchecked syntax trees, written as the parser produces them.

fn ex(exp: Expr<()>) -> UncheckedExpr {
    ExprD { exp, ty: () }
}

fn int_lit(v: i64) -> UncheckedExpr {
    ex(Expr::Literal(Literal::Int(v)))
}


fn ident(name: &str) -> UncheckedExpr {
    ex(Expr::Ident(name.to_string()))
}

fn member(base: UncheckedExpr, name: &str) -> UncheckedExpr {
    ex(Expr::Member { base: Box::new(base), member: name.to_string() })
}

fn init(fields: Vec<(&str, Option<UncheckedExpr>)>) -> UncheckedExpr {
    ex(Expr::Init { fields: fields.into_iter().map(|(n, e)| (n.to_string(), e)).collect() })
}


fn st(stmt: Statement<()>) -> UncheckedStmt {
    StatementD { stmt, ty: () }
}

fn decl(name: &str, ty: Type, e: UncheckedExpr) -> UncheckedStmt {
    st(Statement::Decl { name: name.to_string(), ty, init: Box::new(e) })
}

fn assign(target: UncheckedExpr, value: UncheckedExpr) -> UncheckedStmt {
    st(Statement::Assign { target: Box::new(target), value: Box::new(value) })
}

fn call(name: &str, args: Vec<UncheckedExpr>) -> UncheckedStmt {
    st(Statement::Call { name: name.to_string(), args })
}

fn block(seq: Vec<UncheckedStmt>) -> UncheckedStmt {
    st(Statement::Block { seq })
}


fn match_on(target: UncheckedExpr, arms: Vec<(&str, Vec<UncheckedStmt>)>) -> UncheckedStmt {
    st(Statement::Match {
        target: Box::new(target),
        arms: arms
            .into_iter()
            .map(|(v, body)| MatchArm { variant: v.to_string(), binding: None, body: Box::new(block(body)) })
            .collect(),
    })
}

fn struct_ty(name: &str) -> Type {
    Type::Struct(name.to_string())
}

fn enum_ty(name: &str) -> Type {
    Type::Enum(name.to_string())
}

fn struct_decl(name: &str, fields: Vec<(Type, &str)>) -> UDTDecl {
    UDTDecl {
        specifier: UDTKind::Struct,
        identifier: name.to_string(),
        members: fields
            .into_iter()
            .map(|(ty, n)| UDTMember::Field(FieldDecl { name: n.to_string(), ty }))
            .collect(),
    }
}

fn enum_decl(name: &str, variants: Vec<(Option<Type>, &str)>) -> UDTDecl {
    UDTDecl {
        specifier: UDTKind::Enum,
        identifier: name.to_string(),
        members: variants
            .into_iter()
            .map(|(ty, n)| UDTMember::EnumVariant { name: n.to_string(), ty })
            .collect(),
    }
}

fn func(ret_ty: Type, name: &str, params: Vec<(Type, &str)>, body: Vec<UncheckedStmt>) -> FunDecl<()> {
    FunDecl {
        name: name.to_string(),
        params: params.into_iter().map(|(ty, n)| Param { name: n.to_string(), ty }).collect(),
        return_type: ret_ty,
        body: Box::new(block(body)),
    }
}

fn main_fn(body: Vec<UncheckedStmt>) -> FunDecl<()> {
    func(Type::Unit, "main", vec![], body)
}

fn program(decls: Vec<UDTDecl>, functions: Vec<FunDecl<()>>) -> UncheckedProgram {
    Program { type_declarations: decls, functions }
}

fn type_check_src(p: UncheckedProgram) -> CheckedProgram {
    type_check(&p).expect("source should type-check")
}

fn boolean(b: bool) -> UncheckedExpr {
    ex(Expr::Literal(Literal::Bool(b)))
}

fn option_decl() -> UDTDecl {
    enum_decl("Option", vec![(Some(Type::Int), "Some"), (None, "None")])
}


// struct Flagged { bool valid; int x; }
// void main() { struct Flagged p = { .valid = true, .x = 42 }; print(p.valid); }
fn struct_fixture() -> UncheckedProgram {
    program(
        vec![struct_decl("Flagged", vec![(Type::Bool, "valid"), (Type::Int, "x")])],
        vec![main_fn(vec![
            decl("p", struct_ty("Flagged"), init(vec![("valid", Some(boolean(true))), ("x", Some(int_lit(42)))])),
            call("print", vec![member(ident("p"), "valid")]),
        ])],
    )
}

// enum Option { int Some; None; }
// void main() { enum Option k = { .Some = 42 };
//   match k { case Some: { print(Some); } case None: { print(0); } } }
fn enum_fixture() -> UncheckedProgram {
    program(
        vec![option_decl()],
        vec![main_fn(vec![
            decl("k", enum_ty("Option"), init(vec![("Some", Some(int_lit(42)))])),
            match_on(
                ident("k"),
                vec![
                    ("Some", vec![call("print", vec![ident("Some")])]),
                    ("None", vec![call("print", vec![int_lit(0)])]),
                ],
            ),
        ])],
    )
}

// enum Inner { int V; None; }
// struct Outer { enum Inner field; }
// void main() { struct Outer o = { .field = { .V = 42 } }; }
fn nested_fixture() -> UncheckedProgram {
    program(
        vec![
            enum_decl("Inner", vec![(Some(Type::Int), "V"), (None, "None")]),
            struct_decl("Outer", vec![(enum_ty("Inner"), "field")]),
        ],
        vec![main_fn(vec![decl(
            "o",
            struct_ty("Outer"),
            init(vec![("field", Some(init(vec![("V", Some(int_lit(42)))])))]),
        )])],
    )
}

fn type_check_fixture(p: UncheckedProgram) -> Result<CheckedProgram, mini_c::semantic::TypeError> {
    type_check(&p)
}

#[test]
fn struct_init_tac() {
    let checked = type_check_fixture(struct_fixture()).expect("struct fixture should type-check");
    let mut env = Environment::new();
    let instructions = translate_program(checked, &mut env);

    assert_eq!(
        instructions,
        vec![
            Instruction::Label("main".to_string()),
            Instruction::CopyAssignment(
                Address::Variable("p.valid".to_string(), Type::Bool),
                Address::Constant(Literal::Bool(true), Type::Bool)
            ),
            Instruction::CopyAssignment(
                Address::Variable("p.x".to_string(), Type::Int),
                Address::Constant(Literal::Int(42), Type::Int)
            ),
            Instruction::Param(Address::Variable("p.valid".to_string(), Type::Bool)),
            Instruction::Call(None, "print".to_string(), 1),
        ]
    );
}

#[test]
fn enum_init_match_tac() {
    let checked = type_check_fixture(enum_fixture()).expect("enum fixture should type-check");
    let mut env = Environment::new();
    let instructions = translate_program(checked, &mut env);

    assert_eq!(
        instructions,
        vec![
            Instruction::Label("main".to_string()),
            Instruction::CopyAssignment(
                Address::Variable("k.tag".to_string(), Type::Int),
                Address::Constant(Literal::Int(0), Type::Int)
            ),
            Instruction::CopyAssignment(
                Address::Variable("k.payload".to_string(), Type::Int),
                Address::Constant(Literal::Int(42), Type::Int)
            ),
            Instruction::ConditionalJMPRelational(
                Operator::NE,
                Address::Variable("k.tag".to_string(), Type::Int),
                Address::Constant(Literal::Int(0), Type::Int),
                "Label2:".to_string()
            ),
            Instruction::CopyAssignment(
                Address::Temporary("_match1".to_string(), Type::Int),
                Address::Variable("k.payload".to_string(), Type::Int)
            ),
            Instruction::Param(Address::Temporary("_match1".to_string(), Type::Int)),
            Instruction::Call(None, "print".to_string(), 1),
            Instruction::JMP("Label1:".to_string()),
            Instruction::Label("Label2:".to_string()),
            Instruction::ConditionalJMPRelational(
                Operator::NE,
                Address::Variable("k.tag".to_string(), Type::Int),
                Address::Constant(Literal::Int(1), Type::Int),
                "Label3:".to_string()
            ),
            Instruction::Param(Address::Constant(Literal::Int(0), Type::Int)),
            Instruction::Call(None, "print".to_string(), 1),
            Instruction::JMP("Label1:".to_string()),
            Instruction::Label("Label3:".to_string()),
            Instruction::Label("Label1:".to_string()),
        ]
    );
}

#[test]
fn nested_types_tac() {
    let checked = type_check_fixture(nested_fixture()).expect("nested fixture should type-check");
    let mut env = Environment::new();
    let instructions = translate_program(checked, &mut env);

    assert_eq!(
        instructions,
        vec![
            Instruction::Label("main".to_string()),
            Instruction::CopyAssignment(
                Address::Variable("o.field.tag".to_string(), Type::Int),
                Address::Constant(Literal::Int(0), Type::Int)
            ),
            Instruction::CopyAssignment(
                Address::Variable("o.field.payload".to_string(), Type::Int),
                Address::Constant(Literal::Int(42), Type::Int)
            ),
        ]
    );
}

fn point_decl() -> UDTDecl {
    struct_decl("Point", vec![(Type::Int, "x"), (Type::Int, "y")])
}

// struct Point { int x; int y; }
// void main() { struct Point p = { .x = 1, .y = 2 }; struct Point q = p; print(q.x); }
#[test]
fn struct_copy_tac() {
    let checked = type_check_src(program(
        vec![point_decl()],
        vec![main_fn(vec![
            decl("p", struct_ty("Point"), init(vec![("x", Some(int_lit(1))), ("y", Some(int_lit(2)))])),
            decl("q", struct_ty("Point"), ident("p")),
            call("print", vec![member(ident("q"), "x")]),
        ])],
    ));
    let mut env = Environment::new();
    let instructions = translate_program(checked, &mut env);

    assert_eq!(
        instructions,
        vec![
            Instruction::Label("main".to_string()),
            Instruction::CopyAssignment(
                Address::Variable("p.x".to_string(), Type::Int),
                Address::Constant(Literal::Int(1), Type::Int)
            ),
            Instruction::CopyAssignment(
                Address::Variable("p.y".to_string(), Type::Int),
                Address::Constant(Literal::Int(2), Type::Int)
            ),
            Instruction::CopyAssignment(
                Address::Variable("q.x".to_string(), Type::Int),
                Address::Variable("p.x".to_string(), Type::Int)
            ),
            Instruction::CopyAssignment(
                Address::Variable("q.y".to_string(), Type::Int),
                Address::Variable("p.y".to_string(), Type::Int)
            ),
            Instruction::Param(Address::Variable("q.x".to_string(), Type::Int)),
            Instruction::Call(None, "print".to_string(), 1),
        ]
    );
}

// struct Point { int x; int y; }
// void main() { struct Point p = { .x = 1, .y = 2 }; struct Point q = { .x = 0, .y = 0 };
//   q = p; print(q.y); }
#[test]
fn struct_assignment_tac() {
    let checked = type_check_src(program(
        vec![point_decl()],
        vec![main_fn(vec![
            decl("p", struct_ty("Point"), init(vec![("x", Some(int_lit(1))), ("y", Some(int_lit(2)))])),
            decl("q", struct_ty("Point"), init(vec![("x", Some(int_lit(0))), ("y", Some(int_lit(0)))])),
            assign(ident("q"), ident("p")),
            call("print", vec![member(ident("q"), "y")]),
        ])],
    ));
    let mut env = Environment::new();
    let instructions = translate_program(checked, &mut env);

    assert!(instructions.contains(&Instruction::CopyAssignment(
        Address::Variable("q.x".to_string(), Type::Int),
        Address::Variable("p.x".to_string(), Type::Int)
    )));
    assert!(instructions.contains(&Instruction::CopyAssignment(
        Address::Variable("q.y".to_string(), Type::Int),
        Address::Variable("p.y".to_string(), Type::Int)
    )));
    assert!(!instructions.contains(&Instruction::CopyAssignment(
        Address::Variable("q".to_string(), Type::Struct("Point".to_string())),
        Address::Variable("p".to_string(), Type::Struct("Point".to_string()))
    )));
}

fn print_match(target: &str) -> UncheckedStmt {
    match_on(
        ident(target),
        vec![
            ("Some", vec![call("print", vec![ident("Some")])]),
            ("None", vec![call("print", vec![int_lit(0)])]),
        ],
    )
}

// enum Option { int Some; None; }
// void main() { enum Option a = { .Some = 10 }; enum Option b = a;
//   match b { case Some: { print(Some); } case None: { print(0); } } }
#[test]
fn enum_copy_and_match_tac() {
    let checked = type_check_src(program(
        vec![option_decl()],
        vec![main_fn(vec![
            decl("a", enum_ty("Option"), init(vec![("Some", Some(int_lit(10)))])),
            decl("b", enum_ty("Option"), ident("a")),
            print_match("b"),
        ])],
    ));
    let mut env = Environment::new();
    let instructions = translate_program(checked, &mut env);

    assert!(instructions.contains(&Instruction::CopyAssignment(
        Address::Variable("b.tag".to_string(), Type::Int),
        Address::Variable("a.tag".to_string(), Type::Int)
    )));
    assert!(instructions.contains(&Instruction::CopyAssignment(
        Address::Variable("b.payload".to_string(), Type::Int),
        Address::Variable("a.payload".to_string(), Type::Int)
    )));
    assert!(instructions.contains(&Instruction::ConditionalJMPRelational(
        Operator::NE,
        Address::Variable("b.tag".to_string(), Type::Int),
        Address::Constant(Literal::Int(1), Type::Int),
        "Label3:".to_string()
    )));
}

// enum Option { int Some; None; }
// void main() { enum Option a = { .Some = 10 }; enum Option b = { .None }; b = a;
//   match b { case Some: { print(Some); } case None: { print(0); } } }
#[test]
fn enum_assignment_tac() {
    let checked = type_check_src(program(
        vec![option_decl()],
        vec![main_fn(vec![
            decl("a", enum_ty("Option"), init(vec![("Some", Some(int_lit(10)))])),
            decl("b", enum_ty("Option"), init(vec![("None", None)])),
            assign(ident("b"), ident("a")),
            print_match("b"),
        ])],
    ));
    let mut env = Environment::new();
    let instructions = translate_program(checked, &mut env);

    assert!(instructions.contains(&Instruction::CopyAssignment(
        Address::Variable("b.tag".to_string(), Type::Int),
        Address::Variable("a.tag".to_string(), Type::Int)
    )));
    assert!(instructions.contains(&Instruction::CopyAssignment(
        Address::Variable("b.payload".to_string(), Type::Int),
        Address::Variable("a.payload".to_string(), Type::Int)
    )));
}

// struct Inner { int x; }
// struct Outer { struct Inner inner; }
// void main() { struct Outer a = { .inner = { .x = 7 } }; struct Outer b = a; print(b.inner.x); }
#[test]
fn nested_struct_copy_tac() {
    let checked = type_check_src(program(
        vec![
            struct_decl("Inner", vec![(Type::Int, "x")]),
            struct_decl("Outer", vec![(struct_ty("Inner"), "inner")]),
        ],
        vec![main_fn(vec![
            decl("a", struct_ty("Outer"), init(vec![("inner", Some(init(vec![("x", Some(int_lit(7)))])))])),
            decl("b", struct_ty("Outer"), ident("a")),
            call("print", vec![member(member(ident("b"), "inner"), "x")]),
        ])],
    ));
    let mut env = Environment::new();
    let instructions = translate_program(checked, &mut env);

    assert!(instructions.contains(&Instruction::CopyAssignment(
        Address::Variable("b.inner.x".to_string(), Type::Int),
        Address::Variable("a.inner.x".to_string(), Type::Int)
    )));
}

// enum Option { int Some; None; }
// void main() { int Some = 5; enum Option a = { .Some = 10 };
//   match a { case Some: { print(Some); } case None: { print(0); } } print(Some); }
#[test]
fn match_payload_binding_uses_internal_tac_temp() {
    let checked = type_check_src(program(
        vec![option_decl()],
        vec![main_fn(vec![
            decl("Some", Type::Int, int_lit(5)),
            decl("a", enum_ty("Option"), init(vec![("Some", Some(int_lit(10)))])),
            print_match("a"),
            call("print", vec![ident("Some")]),
        ])],
    ));
    let mut env = Environment::new();
    let instructions = translate_program(checked, &mut env);

    assert!(instructions.contains(&Instruction::CopyAssignment(
        Address::Temporary("_match1".to_string(), Type::Int),
        Address::Variable("a.payload".to_string(), Type::Int)
    )));
    assert!(instructions.contains(&Instruction::Param(Address::Temporary(
        "_match1".to_string(),
        Type::Int
    ))));
    assert!(instructions.contains(&Instruction::Param(Address::Variable(
        "Some".to_string(),
        Type::Int
    ))));
    assert!(!instructions.contains(&Instruction::CopyAssignment(
        Address::Variable("Some".to_string(), Type::Int),
        Address::Variable("a.payload".to_string(), Type::Int)
    )));
}
