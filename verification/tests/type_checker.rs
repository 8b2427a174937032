use mini_c::ir::ast::{
    Expr, ExprD, FieldDecl, FunDecl, Literal, MatchArm, Param, Program, Statement, StatementD, Type,
    UDTDecl, UDTKind, UDTMember, UncheckedExpr, UncheckedProgram, UncheckedStmt,
};
use mini_c::semantic::{type_check, TypeError};
use mini_c::ir::ast::CheckedProgram;

// Builders for unchecked syntax trees, written as the parser produces them.

fn ex(exp: Expr<()>) -> UncheckedExpr {
    ExprD { exp, ty: () }
}

fn int_lit(v: i64) -> UncheckedExpr {
    ex(Expr::Literal(Literal::Int(v)))
}

fn float(v: f64) -> UncheckedExpr {
    ex(Expr::Literal(Literal::Float(v.to_bits())))
}

fn ident(name: &str) -> UncheckedExpr {
    ex(Expr::Ident(name.to_string()))
}

fn member(base: UncheckedExpr, name: &str) -> UncheckedExpr {
    ex(Expr::Member { base: Box::new(base), member: name.to_string() })
}

fn init(fields: Vec<(&str, Option<UncheckedExpr>)>) -> UncheckedExpr {
    ex(Expr::Init { fields: fields.into_iter().map(|(n, e)| (n.to_string(), e)).collect() })
}

fn cast(ty: Type, e: UncheckedExpr) -> UncheckedExpr {
    ex(Expr::Cast { ty, expr: Box::new(e) })
}

fn st(stmt: Statement<()>) -> UncheckedStmt {
    StatementD { stmt, ty: () }
}

fn decl(name: &str, ty: Type, e: UncheckedExpr) -> UncheckedStmt {
    st(Statement::Decl { name: name.to_string(), ty, init: Box::new(e) })
}

fn assign(target: UncheckedExpr, value: UncheckedExpr) -> UncheckedStmt {
    st(Statement::Assign { target: Box::new(target), value: Box::new(value) })
}

fn call(name: &str, args: Vec<UncheckedExpr>) -> UncheckedStmt {
    st(Statement::Call { name: name.to_string(), args })
}

fn block(seq: Vec<UncheckedStmt>) -> UncheckedStmt {
    st(Statement::Block { seq })
}

fn ret(e: Option<UncheckedExpr>) -> UncheckedStmt {
    st(Statement::Return(e.map(Box::new)))
}

fn match_on(target: UncheckedExpr, arms: Vec<(&str, Vec<UncheckedStmt>)>) -> UncheckedStmt {
    st(Statement::Match {
        target: Box::new(target),
        arms: arms
            .into_iter()
            .map(|(v, body)| MatchArm { variant: v.to_string(), binding: None, body: Box::new(block(body)) })
            .collect(),
    })
}

fn struct_ty(name: &str) -> Type {
    Type::Struct(name.to_string())
}

fn enum_ty(name: &str) -> Type {
    Type::Enum(name.to_string())
}

fn struct_decl(name: &str, fields: Vec<(Type, &str)>) -> UDTDecl {
    UDTDecl {
        specifier: UDTKind::Struct,
        identifier: name.to_string(),
        members: fields
            .into_iter()
            .map(|(ty, n)| UDTMember::Field(FieldDecl { name: n.to_string(), ty }))
            .collect(),
    }
}

fn enum_decl(name: &str, variants: Vec<(Option<Type>, &str)>) -> UDTDecl {
    UDTDecl {
        specifier: UDTKind::Enum,
        identifier: name.to_string(),
        members: variants
            .into_iter()
            .map(|(ty, n)| UDTMember::EnumVariant { name: n.to_string(), ty })
            .collect(),
    }
}

fn func(ret_ty: Type, name: &str, params: Vec<(Type, &str)>, body: Vec<UncheckedStmt>) -> FunDecl<()> {
    FunDecl {
        name: name.to_string(),
        params: params.into_iter().map(|(ty, n)| Param { name: n.to_string(), ty }).collect(),
        return_type: ret_ty,
        body: Box::new(block(body)),
    }
}

fn main_fn(body: Vec<UncheckedStmt>) -> FunDecl<()> {
    func(Type::Unit, "main", vec![], body)
}

fn program(decls: Vec<UDTDecl>, functions: Vec<FunDecl<()>>) -> UncheckedProgram {
    Program { type_declarations: decls, functions }
}

fn check(p: UncheckedProgram) -> Result<CheckedProgram, TypeError> {
    type_check(&p)
}

fn option_decl() -> UDTDecl {
    enum_decl("Option", vec![(Some(Type::Int), "Some"), (None, "None")])
}

// struct Point { int x; int y; }
// void main() { struct Point p = { .x = 12, .y = 0 }; int v = p.x; }
#[test]
fn struct_decl_and_member_access() {
    let p = program(
        vec![struct_decl("Point", vec![(Type::Int, "x"), (Type::Int, "y")])],
        vec![main_fn(vec![
            decl("p", struct_ty("Point"), init(vec![("x", Some(int_lit(12))), ("y", Some(int_lit(0)))])),
            decl("v", Type::Int, member(ident("p"), "x")),
        ])],
    );
    assert!(check(p).is_ok());
}

// enum Option { int Some; None; }
// void main() { enum Option x = { .Some = 42 }; }
#[test]
fn enum_decl_and_init() {
    let p = program(
        vec![option_decl()],
        vec![main_fn(vec![decl("x", enum_ty("Option"), init(vec![("Some", Some(int_lit(42)))]))])],
    );
    assert!(check(p).is_ok());
}

// enum Option { int Some; None; }
// void main() { enum Option x = { .Some = 42 };
//   match x { case Some: { int y = Some; } case None: { int z = 0; } } }
#[test]
fn match_on_enum() {
    let p = program(
        vec![option_decl()],
        vec![main_fn(vec![
            decl("x", enum_ty("Option"), init(vec![("Some", Some(int_lit(42)))])),
            match_on(
                ident("x"),
                vec![
                    ("Some", vec![decl("y", Type::Int, ident("Some"))]),
                    ("None", vec![decl("z", Type::Int, int_lit(0))]),
                ],
            ),
        ])],
    );
    assert!(check(p).is_ok());
}

// struct Point { int x; }
// void main() { struct Point p = { .x = 0 }; int v = p.y; }
#[test]
fn struct_unknown_member() {
    let p = program(
        vec![struct_decl("Point", vec![(Type::Int, "x")])],
        vec![main_fn(vec![
            decl("p", struct_ty("Point"), init(vec![("x", Some(int_lit(0)))])),
            decl("v", Type::Int, member(ident("p"), "y")),
        ])],
    );
    let result = check(p);
    assert!(result.is_err());
    assert!(result.unwrap_err().message.contains("unknown member"));
}

// enum Color { Red; Green; }
// void main() { enum Color c = { .Red }; int v = c.Red; }
#[test]
fn enum_member_access() {
    let p = program(
        vec![enum_decl("Color", vec![(None, "Red"), (None, "Green")])],
        vec![main_fn(vec![
            decl("c", enum_ty("Color"), init(vec![("Red", None)])),
            decl("v", Type::Int, member(ident("c"), "Red")),
        ])],
    );
    let result = check(p);
    assert!(result.is_err());
    assert!(result.unwrap_err().message.contains("cannot access enum variants directly"));
}

// void main() { struct Missing x = { .x = 0 }; }
#[test]
fn unknown_type_declaration_use() {
    let p = program(
        vec![],
        vec![main_fn(vec![decl("x", struct_ty("Missing"), init(vec![("x", Some(int_lit(0)))]))])],
    );
    let result = check(p);
    assert!(result.is_err());
    assert!(result.unwrap_err().message.contains("unknown struct type"));
}

// void main() { int x = 0; int y = x.foo; }
#[test]
fn member_access_on_non_struct() {
    let p = program(
        vec![],
        vec![main_fn(vec![decl("x", Type::Int, int_lit(0)), decl("y", Type::Int, member(ident("x"), "foo"))])],
    );
    let result = check(p);
    assert!(result.is_err());
    assert!(result.unwrap_err().message.contains("member access requires struct base type"));
}

// struct Point { int x; }
// struct Point { int y; }
// void main() { int z = 0; }
#[test]
fn duplicate_type_declarations() {
    let p = program(
        vec![struct_decl("Point", vec![(Type::Int, "x")]), struct_decl("Point", vec![(Type::Int, "y")])],
        vec![main_fn(vec![decl("z", Type::Int, int_lit(0))])],
    );
    let result = check(p);
    assert!(result.is_err());
    assert!(result.unwrap_err().message.contains("duplicate type declaration"));
}

// struct Point { int x; int y; }
// void main() { struct Point p = { .x = 1, .x = 2, .y = 3 }; }
#[test]
fn duplicate_struct_init_fields() {
    let p = program(
        vec![struct_decl("Point", vec![(Type::Int, "x"), (Type::Int, "y")])],
        vec![main_fn(vec![decl(
            "p",
            struct_ty("Point"),
            init(vec![("x", Some(int_lit(1))), ("x", Some(int_lit(2))), ("y", Some(int_lit(3)))]),
        )])],
    );
    let result = check(p);
    assert!(result.is_err());
    assert!(result.unwrap_err().message.contains("duplicate field"));
}

// enum Option { int Some; None; }
// void main() { enum Option x = (int){ .Some = 42 }; }
#[test]
fn cast_mismatch_in_enum_decl() {
    let p = program(
        vec![option_decl()],
        vec![main_fn(vec![decl(
            "x",
            enum_ty("Option"),
            cast(Type::Int, init(vec![("Some", Some(int_lit(42)))])),
        )])],
    );
    assert!(check(p).is_err());
}

// enum Option { int Some; None; }
// void main() { enum Option x = { .None = 42 }; }
#[test]
fn unit_variant_with_payload() {
    let p = program(
        vec![option_decl()],
        vec![main_fn(vec![decl("x", enum_ty("Option"), init(vec![("None", Some(int_lit(42)))]))])],
    );
    assert!(check(p).is_err());
}

// enum Option { int Some; None; }
// void main() { enum Option x = { .Some }; }
#[test]
fn payload_variant_without_arg() {
    let p = program(
        vec![option_decl()],
        vec![main_fn(vec![decl("x", enum_ty("Option"), init(vec![("Some", None)]))])],
    );
    assert!(check(p).is_err());
}

// enum Option { int Some; None; }
// void foo(enum Option x) { }
// void main() { foo((enum Option){ .Some = 42 }); }
#[test]
fn cast_in_expression() {
    let p = program(
        vec![option_decl()],
        vec![
            func(Type::Unit, "foo", vec![(enum_ty("Option"), "x")], vec![]),
            main_fn(vec![call("foo", vec![cast(enum_ty("Option"), init(vec![("Some", Some(int_lit(42)))]))])]),
        ],
    );
    assert!(check(p).is_ok());
}

// struct Inner { int x; }
// struct Outer { struct Inner inner; }
// void main() { struct Outer o = { .inner = { .x = 42 } }; }
#[test]
fn nested_struct_init() {
    let p = program(
        vec![
            struct_decl("Inner", vec![(Type::Int, "x")]),
            struct_decl("Outer", vec![(struct_ty("Inner"), "inner")]),
        ],
        vec![main_fn(vec![decl(
            "o",
            struct_ty("Outer"),
            init(vec![("inner", Some(init(vec![("x", Some(int_lit(42)))])))]),
        )])],
    );
    assert!(check(p).is_ok());
}

// struct Point { int x; int y; }
// void foo(struct Point p) { }
// void main() { foo({ .x = 1, .y = 2 }); }
#[test]
fn struct_init_in_call() {
    let p = program(
        vec![struct_decl("Point", vec![(Type::Int, "x"), (Type::Int, "y")])],
        vec![
            func(Type::Unit, "foo", vec![(struct_ty("Point"), "p")], vec![]),
            main_fn(vec![call("foo", vec![init(vec![("x", Some(int_lit(1))), ("y", Some(int_lit(2)))])])]),
        ],
    );
    assert!(check(p).is_ok());
}

// enum Inner { int V; None; }
// struct Outer { enum Inner field; }
// void main() { struct Outer o = { .field = { .V = 42 } }; }
#[test]
fn enum_init_in_struct_field() {
    let p = program(
        vec![
            enum_decl("Inner", vec![(Some(Type::Int), "V"), (None, "None")]),
            struct_decl("Outer", vec![(enum_ty("Inner"), "field")]),
        ],
        vec![main_fn(vec![decl(
            "o",
            struct_ty("Outer"),
            init(vec![("field", Some(init(vec![("V", Some(int_lit(42)))])))]),
        )])],
    );
    assert!(check(p).is_ok());
}

// enum Option { int Some; None; }
// void foo(enum Option x) { }
// void main() { foo({ .Some = 42 }); }
#[test]
fn enum_init_in_call() {
    let p = program(
        vec![option_decl()],
        vec![
            func(Type::Unit, "foo", vec![(enum_ty("Option"), "x")], vec![]),
            main_fn(vec![call("foo", vec![init(vec![("Some", Some(int_lit(42)))])])]),
        ],
    );
    assert!(check(p).is_ok());
}

// struct Point { int x; }
// struct Other { int y; }
// void foo(struct Point p) { }
// void main() { foo({ .y = 1 }); }
#[test]
fn struct_init_in_call_type_mismatch() {
    let p = program(
        vec![struct_decl("Point", vec![(Type::Int, "x")]), struct_decl("Other", vec![(Type::Int, "y")])],
        vec![
            func(Type::Unit, "foo", vec![(struct_ty("Point"), "p")], vec![]),
            main_fn(vec![call("foo", vec![init(vec![("y", Some(int_lit(1)))])])]),
        ],
    );
    assert!(check(p).is_err());
}

// enum A { int X; }
// enum B { int Y; }
// void foo(enum A a) { }
// void main() { foo({ .Y = 1 }); }
#[test]
fn enum_init_in_call_type_mismatch() {
    let p = program(
        vec![enum_decl("A", vec![(Some(Type::Int), "X")]), enum_decl("B", vec![(Some(Type::Int), "Y")])],
        vec![
            func(Type::Unit, "foo", vec![(enum_ty("A"), "a")], vec![]),
            main_fn(vec![call("foo", vec![init(vec![("Y", Some(int_lit(1)))])])]),
        ],
    );
    assert!(check(p).is_err());
}

// enum Option { int Some; None; }
// void main() { enum Option x = { .Some = 1 }; match x { case Some: { int y = Some; } } }
#[test]
fn non_exhaustive_match_rejected() {
    let p = program(
        vec![option_decl()],
        vec![main_fn(vec![
            decl("x", enum_ty("Option"), init(vec![("Some", Some(int_lit(1)))])),
            match_on(ident("x"), vec![("Some", vec![decl("y", Type::Int, ident("Some"))])]),
        ])],
    );
    let result = check(p);
    assert!(result.is_err());
    assert!(result.unwrap_err().message.contains("non-exhaustive match"));
}

// enum Option { int Some; None; }
// void main() { enum Option x = { .Some = 1 };
//   match x { case Some: { int y = Some; } case Some: { int z = Some; } case None: { } } }
#[test]
fn duplicate_match_arm_rejected() {
    let p = program(
        vec![option_decl()],
        vec![main_fn(vec![
            decl("x", enum_ty("Option"), init(vec![("Some", Some(int_lit(1)))])),
            match_on(
                ident("x"),
                vec![
                    ("Some", vec![decl("y", Type::Int, ident("Some"))]),
                    ("Some", vec![decl("z", Type::Int, ident("Some"))]),
                    ("None", vec![]),
                ],
            ),
        ])],
    );
    let result = check(p);
    assert!(result.is_err());
    assert!(result.unwrap_err().message.contains("duplicate match arm"));
}

// enum Option { int Some; None; }
// void main() { enum Option x = { .Some = 1 }; match x { case Other: { } case None: { } } }
#[test]
fn unknown_match_variant_rejected() {
    let p = program(
        vec![option_decl()],
        vec![main_fn(vec![
            decl("x", enum_ty("Option"), init(vec![("Some", Some(int_lit(1)))])),
            match_on(ident("x"), vec![("Other", vec![]), ("None", vec![])]),
        ])],
    );
    let result = check(p);
    assert!(result.is_err());
    assert!(result.unwrap_err().message.contains("unknown variant"));
}

// struct Box { struct Missing value; }
// void main() { int x = 0; }
#[test]
fn unknown_udt_in_struct_field_rejected() {
    let p = program(
        vec![struct_decl("Box", vec![(struct_ty("Missing"), "value")])],
        vec![main_fn(vec![decl("x", Type::Int, int_lit(0))])],
    );
    let result = check(p);
    assert!(result.is_err());
    assert!(result.unwrap_err().message.contains("unknown struct type"));
}

// enum Box { struct Missing Value; None; }
// void main() { int x = 0; }
#[test]
fn unknown_udt_in_enum_payload_rejected() {
    let p = program(
        vec![enum_decl("Box", vec![(Some(struct_ty("Missing")), "Value"), (None, "None")])],
        vec![main_fn(vec![decl("x", Type::Int, int_lit(0))])],
    );
    let result = check(p);
    assert!(result.is_err());
    assert!(result.unwrap_err().message.contains("unknown struct type"));
}

// void take(struct Missing x) { }
// void main() { int x = 0; }
#[test]
fn unknown_udt_in_function_parameter_rejected() {
    let p = program(
        vec![],
        vec![
            func(Type::Unit, "take", vec![(struct_ty("Missing"), "x")], vec![]),
            main_fn(vec![decl("x", Type::Int, int_lit(0))]),
        ],
    );
    let result = check(p);
    assert!(result.is_err());
    assert!(result.unwrap_err().message.contains("unknown struct type"));
}

// struct Missing make() { return { .x = 0 }; }
// void main() { int x = 0; }
#[test]
fn unknown_udt_in_function_return_rejected() {
    let p = program(
        vec![],
        vec![
            func(struct_ty("Missing"), "make", vec![], vec![ret(Some(init(vec![("x", Some(int_lit(0)))])))]),
            main_fn(vec![decl("x", Type::Int, int_lit(0))]),
        ],
    );
    let result = check(p);
    assert!(result.is_err());
    assert!(result.unwrap_err().message.contains("unknown struct type"));
}

// struct Box { struct Missing[] values; }
// void main() { int x = 0; }
#[test]
fn nested_unknown_udt_rejected() {
    let p = program(
        vec![struct_decl("Box", vec![(Type::Array(Box::new(struct_ty("Missing"))), "values")])],
        vec![main_fn(vec![decl("x", Type::Int, int_lit(0))])],
    );
    let result = check(p);
    assert!(result.is_err());
    assert!(result.unwrap_err().message.contains("unknown struct type"));
}

// struct Point { int x; }
// void main() { struct Point p = (struct Point)42; }
#[test]
fn invalid_scalar_to_struct_cast_rejected() {
    let p = program(
        vec![struct_decl("Point", vec![(Type::Int, "x")])],
        vec![main_fn(vec![decl("p", struct_ty("Point"), cast(struct_ty("Point"), int_lit(42)))])],
    );
    assert!(check(p).is_err());
}

// enum Option { int Some; None; }
// void main() { enum Option x = (enum Option)42; }
#[test]
fn invalid_scalar_to_enum_cast_rejected() {
    let p = program(
        vec![option_decl()],
        vec![main_fn(vec![decl("x", enum_ty("Option"), cast(enum_ty("Option"), int_lit(42)))])],
    );
    assert!(check(p).is_err());
}

// struct Point { int x; }
// void main() { struct Point p = { .x = 1 }; int y = (int)p; }
#[test]
fn invalid_struct_to_scalar_cast_rejected() {
    let p = program(
        vec![struct_decl("Point", vec![(Type::Int, "x")])],
        vec![main_fn(vec![
            decl("p", struct_ty("Point"), init(vec![("x", Some(int_lit(1)))])),
            decl("y", Type::Int, cast(Type::Int, ident("p"))),
        ])],
    );
    assert!(check(p).is_err());
}

// enum Option { int Some; None; }
// void main() { enum Option x = { .Some = 1 }; float y = (float)x; }
#[test]
fn invalid_enum_to_scalar_cast_rejected() {
    let p = program(
        vec![option_decl()],
        vec![main_fn(vec![
            decl("x", enum_ty("Option"), init(vec![("Some", Some(int_lit(1)))])),
            decl("y", Type::Float, cast(Type::Float, ident("x"))),
        ])],
    );
    assert!(check(p).is_err());
}

// struct Point { int x; }
// struct Other { int y; }
// void main() { struct Other o = { .y = 1 }; struct Point p = (struct Point)o; }
#[test]
fn invalid_unrelated_udt_cast_rejected() {
    let p = program(
        vec![struct_decl("Point", vec![(Type::Int, "x")]), struct_decl("Other", vec![(Type::Int, "y")])],
        vec![main_fn(vec![
            decl("o", struct_ty("Other"), init(vec![("y", Some(int_lit(1)))])),
            decl("p", struct_ty("Point"), cast(struct_ty("Point"), ident("o"))),
        ])],
    );
    assert!(check(p).is_err());
}

// void main() { int x = (int)1.5; float y = (float)x; }
#[test]
fn numeric_casts_still_work() {
    let p = program(
        vec![],
        vec![main_fn(vec![
            decl("x", Type::Int, cast(Type::Int, float(1.5))),
            decl("y", Type::Float, cast(Type::Float, ident("x"))),
        ])],
    );
    assert!(check(p).is_ok());
}

// struct Point { int x; }
// struct Point make() { return { .x = 1 }; }
// void main() { struct Point p = { .x = 0 }; p = { .x = 2 }; }
#[test]
fn contextual_udt_initializer_assignment_and_return_work() {
    let p = program(
        vec![struct_decl("Point", vec![(Type::Int, "x")])],
        vec![
            func(struct_ty("Point"), "make", vec![], vec![ret(Some(init(vec![("x", Some(int_lit(1)))])))]),
            main_fn(vec![
                decl("p", struct_ty("Point"), init(vec![("x", Some(int_lit(0)))])),
                assign(ident("p"), init(vec![("x", Some(int_lit(2)))])),
            ]),
        ],
    );
    assert!(check(p).is_ok());
}
