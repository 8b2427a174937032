use mini_c::ir::ast::{
    CheckedProgram, Expr, ExprD, FieldDecl, FunDecl, Literal, MatchArm, Param, Program, Statement,
    StatementD, Type, UDTDecl, UDTKind, UDTMember, UncheckedExpr, UncheckedProgram, UncheckedStmt,
};
use mini_c::semantic::{type_check, TypeError};

// Builders for unchecked syntax trees, written as the parser produces them.

fn ex(exp: Expr<()>) -> UncheckedExpr {
    ExprD { exp, ty: () }
}

fn int_lit(v: i64) -> UncheckedExpr {
    ex(Expr::Literal(Literal::Int(v)))
}

fn float(v: f64) -> UncheckedExpr {
    ex(Expr::Literal(Literal::Float(v.to_bits())))
}

fn ident(name: &str) -> UncheckedExpr {
    ex(Expr::Ident(name.to_string()))
}

fn member(base: UncheckedExpr, name: &str) -> UncheckedExpr {
    ex(Expr::Member { base: Box::new(base), member: name.to_string() })
}

fn init(fields: Vec<(&str, Option<UncheckedExpr>)>) -> UncheckedExpr {
    ex(Expr::Init { fields: fields.into_iter().map(|(n, e)| (n.to_string(), e)).collect() })
}

fn cast(ty: Type, e: UncheckedExpr) -> UncheckedExpr {
    ex(Expr::Cast { ty, expr: Box::new(e) })
}

fn st(stmt: Statement<()>) -> UncheckedStmt {
    StatementD { stmt, ty: () }
}

fn decl(name: &str, ty: Type, e: UncheckedExpr) -> UncheckedStmt {
    st(Statement::Decl { name: name.to_string(), ty, init: Box::new(e) })
}

fn assign(target: UncheckedExpr, value: UncheckedExpr) -> UncheckedStmt {
    st(Statement::Assign { target: Box::new(target), value: Box::new(value) })
}

fn call(name: &str, args: Vec<UncheckedExpr>) -> UncheckedStmt {
    st(Statement::Call { name: name.to_string(), args })
}

fn block(seq: Vec<UncheckedStmt>) -> UncheckedStmt {
    st(Statement::Block { seq })
}

fn ret(e: Option<UncheckedExpr>) -> UncheckedStmt {
    st(Statement::Return(e.map(Box::new)))
}

fn match_on(target: UncheckedExpr, arms: Vec<(&str, Vec<UncheckedStmt>)>) -> UncheckedStmt {
    st(Statement::Match {
        target: Box::new(target),
        arms: arms
            .into_iter()
            .map(|(v, body)| MatchArm { variant: v.to_string(), binding: None, body: Box::new(block(body)) })
            .collect(),
    })
}

fn struct_ty(name: &str) -> Type {
    Type::Struct(name.to_string())
}

fn enum_ty(name: &str) -> Type {
    Type::Enum(name.to_string())
}

fn struct_decl(name: &str, fields: Vec<(Type, &str)>) -> UDTDecl {
    UDTDecl {
        specifier: UDTKind::Struct,
        identifier: name.to_string(),
        members: fields
            .into_iter()
            .map(|(ty, n)| UDTMember::Field(FieldDecl { name: n.to_string(), ty }))
            .collect(),
    }
}

fn enum_decl(name: &str, variants: Vec<(Option<Type>, &str)>) -> UDTDecl {
    UDTDecl {
        specifier: UDTKind::Enum,
        identifier: name.to_string(),
        members: variants
            .into_iter()
            .map(|(ty, n)| UDTMember::EnumVariant { name: n.to_string(), ty })
            .collect(),
    }
}

fn func(ret_ty: Type, name: &str, params: Vec<(Type, &str)>, body: Vec<UncheckedStmt>) -> FunDecl<()> {
    FunDecl {
        name: name.to_string(),
        params: params.into_iter().map(|(ty, n)| Param { name: n.to_string(), ty }).collect(),
        return_type: ret_ty,
        body: Box::new(block(body)),
    }
}

fn main_fn(body: Vec<UncheckedStmt>) -> FunDecl<()> {
    func(Type::Unit, "main", vec![], body)
}

fn program(decls: Vec<UDTDecl>, functions: Vec<FunDecl<()>>) -> UncheckedProgram {
    Program { type_declarations: decls, functions }
}

fn check(p: UncheckedProgram) -> Result<CheckedProgram, TypeError> {
    type_check(&p)
}

fn option_decl() -> UDTDecl {
    enum_decl("Option", vec![(Some(Type::Int), "Some"), (None, "None")])
}


fn boolean(b: bool) -> UncheckedExpr {
    ex(Expr::Literal(Literal::Bool(b)))
}

fn binary(f: fn(Box<UncheckedExpr>, Box<UncheckedExpr>) -> Expr<()>, l: UncheckedExpr, r: UncheckedExpr) -> UncheckedExpr {
    ex(f(Box::new(l), Box::new(r)))
}

fn if_else(cond: UncheckedExpr, then_body: Vec<UncheckedStmt>, else_body: Vec<UncheckedStmt>) -> UncheckedStmt {
    st(Statement::If {
        cond: Box::new(cond),
        then_branch: Box::new(block(then_body)),
        else_branch: Some(Box::new(block(else_body))),
    })
}

fn while_loop(cond: UncheckedExpr, body: Vec<UncheckedStmt>) -> UncheckedStmt {
    st(Statement::While { cond: Box::new(cond), body: Box::new(block(body)) })
}

fn error_of(p: UncheckedProgram) -> String {
    check(p).expect_err("program should be rejected").message
}

fn main_only(body: Vec<UncheckedStmt>) -> UncheckedProgram {
    program(vec![], vec![main_fn(body)])
}

fn point_decl() -> UDTDecl {
    struct_decl("Point", vec![(Type::Int, "x"), (Type::Int, "y")])
}

#[test]
fn type_error_new_keeps_message() {
    let e = TypeError::new("boom".to_string());
    assert_eq!(e.message, "boom");
}

#[test]
fn missing_main_rejected() {
    let p = program(vec![], vec![func(Type::Unit, "helper", vec![], vec![])]);
    assert_eq!(error_of(p), "program must have a main function");
}

#[test]
fn main_must_return_void() {
    let p = program(vec![], vec![func(Type::Int, "main", vec![], vec![ret(Some(int_lit(0)))])]);
    assert_eq!(error_of(p), "main function must return void");
}

#[test]
fn main_must_take_no_parameters() {
    let p = program(vec![], vec![func(Type::Unit, "main", vec![(Type::Int, "argc")], vec![])]);
    assert_eq!(error_of(p), "main function must have no parameters");
}

#[test]
fn duplicate_type_declaration_message() {
    let p = program(
        vec![enum_decl("Color", vec![(None, "Red")]), enum_decl("Color", vec![(None, "Blue")])],
        vec![main_fn(vec![])],
    );
    assert_eq!(error_of(p), "duplicate type declaration: Enum Color");
}

#[test]
fn struct_and_enum_may_share_a_name() {
    let p = program(
        vec![struct_decl("Shape", vec![(Type::Int, "x")]), enum_decl("Shape", vec![(None, "Dot")])],
        vec![main_fn(vec![])],
    );
    assert!(check(p).is_ok());
}

#[test]
fn unknown_field_type_message() {
    let p = program(vec![struct_decl("Box", vec![(struct_ty("Missing"), "value")])], vec![main_fn(vec![])]);
    assert_eq!(error_of(p), "unknown struct type 'Missing' in field 'Box.value'");
}

#[test]
fn unknown_enum_parameter_message() {
    let p = program(
        vec![],
        vec![func(Type::Unit, "take", vec![(enum_ty("Gone"), "g")], vec![]), main_fn(vec![])],
    );
    assert_eq!(error_of(p), "unknown enum type 'Gone' in parameter 'g' of function 'take'");
}

#[test]
fn undeclared_variable_rejected() {
    assert_eq!(error_of(main_only(vec![decl("x", Type::Int, ident("y"))])), "undeclared variable: y");
}

#[test]
fn redeclaration_rejected() {
    let p = main_only(vec![decl("x", Type::Int, int_lit(1)), decl("x", Type::Int, int_lit(2))]);
    assert_eq!(error_of(p), "redeclaration of variable: x");
}

#[test]
fn block_scope_ends_with_block() {
    let p = main_only(vec![block(vec![decl("x", Type::Int, int_lit(1))]), decl("x", Type::Int, int_lit(2))]);
    assert!(check(p).is_ok());
}

#[test]
fn match_binding_not_visible_after_match() {
    let p = program(
        vec![option_decl()],
        vec![main_fn(vec![
            decl("a", enum_ty("Option"), init(vec![("Some", Some(int_lit(1)))])),
            match_on(ident("a"), vec![("Some", vec![decl("y", Type::Int, ident("Some"))]), ("None", vec![])]),
            decl("z", Type::Int, ident("Some")),
        ])],
    );
    assert_eq!(error_of(p), "undeclared variable: Some");
}

#[test]
fn void_variable_rejected() {
    assert_eq!(error_of(main_only(vec![decl("u", Type::Unit, int_lit(1))])), "cannot declare variable of type void");
}

#[test]
fn declaration_type_mismatch_message() {
    let p = main_only(vec![decl("b", Type::Bool, int_lit(1))]);
    assert_eq!(error_of(p), "declaration of b: expected Bool, got Int");
}

#[test]
fn int_and_float_convert_in_declarations() {
    let p = main_only(vec![decl("f", Type::Float, int_lit(1)), decl("i", Type::Int, float(2.5))]);
    assert!(check(p).is_ok());
}

#[test]
fn print_accepts_any_argument() {
    let p = program(
        vec![point_decl()],
        vec![main_fn(vec![
            decl("p", struct_ty("Point"), init(vec![("x", Some(int_lit(1))), ("y", Some(int_lit(2)))])),
            call("print", vec![ident("p")]),
            call("print", vec![boolean(true)]),
        ])],
    );
    assert!(check(p).is_ok());
}

#[test]
fn if_condition_must_be_bool() {
    let p = main_only(vec![if_else(int_lit(1), vec![], vec![])]);
    assert_eq!(error_of(p), "if condition must be Bool, got Int");
}

#[test]
fn while_condition_must_be_bool() {
    let p = main_only(vec![while_loop(float(1.0), vec![])]);
    assert_eq!(error_of(p), "while condition must be Bool, got Float");
}

#[test]
fn void_function_must_not_return_value() {
    assert_eq!(error_of(main_only(vec![ret(Some(int_lit(1)))])), "void function must not return a value");
}

#[test]
fn non_void_function_must_return_value() {
    let p = program(vec![], vec![func(Type::Int, "f", vec![], vec![ret(None)]), main_fn(vec![])]);
    assert_eq!(error_of(p), "non-void function must return a value of type Int");
}

#[test]
fn return_type_mismatch_message() {
    let p = program(vec![], vec![func(Type::Int, "f", vec![], vec![ret(Some(boolean(true)))]), main_fn(vec![])]);
    assert_eq!(error_of(p), "return type mismatch: expected Int, got Bool");
}

#[test]
fn undefined_function_rejected() {
    assert_eq!(error_of(main_only(vec![call("nowhere", vec![])])), "undefined function: nowhere");
}

#[test]
fn calling_a_variable_rejected() {
    let p = main_only(vec![decl("x", Type::Int, int_lit(1)), call("x", vec![])]);
    assert_eq!(error_of(p), "'x' is not a function");
}

#[test]
fn argument_count_checked() {
    let p = program(
        vec![],
        vec![func(Type::Unit, "foo", vec![(Type::Int, "a")], vec![]), main_fn(vec![call("foo", vec![int_lit(1), int_lit(2)])])],
    );
    assert_eq!(error_of(p), "function 'foo' expects 1 arguments, got 2");
}

#[test]
fn argument_type_checked() {
    let p = program(
        vec![],
        vec![
            func(Type::Unit, "foo", vec![(Type::Int, "a"), (Type::Bool, "b")], vec![]),
            main_fn(vec![call("foo", vec![int_lit(1), int_lit(2)])]),
        ],
    );
    assert_eq!(error_of(p), "argument 2 to foo: expected Bool, got Int");
}

#[test]
fn invalid_assignment_target_rejected() {
    let p = main_only(vec![decl("x", Type::Int, int_lit(1)), assign(binary(Expr::Add, ident("x"), int_lit(1)), int_lit(2))]);
    assert_eq!(error_of(p), "invalid assignment target");
}

#[test]
fn assignment_type_mismatch_message() {
    let p = main_only(vec![decl("x", Type::Int, int_lit(1)), assign(ident("x"), boolean(false))]);
    assert_eq!(error_of(p), "assignment: expected Int, got Bool");
}

#[test]
fn arithmetic_needs_numbers() {
    let p = main_only(vec![decl("x", Type::Int, binary(Expr::Add, int_lit(1), boolean(true)))]);
    assert_eq!(error_of(p), "arithmetic operands must be Int or Float");
}

#[test]
fn mixed_arithmetic_is_float() {
    let p = main_only(vec![decl("x", Type::Bool, binary(Expr::Mul, int_lit(2), float(0.5)))]);
    assert_eq!(error_of(p), "declaration of x: expected Bool, got Float");
}

#[test]
fn ordering_needs_numbers() {
    let p = main_only(vec![decl("b", Type::Bool, binary(Expr::Lt, boolean(true), int_lit(1)))]);
    assert_eq!(error_of(p), "ordering comparison requires numeric operands, got Bool and Int");
}

#[test]
fn equality_needs_compatible_operands() {
    let p = main_only(vec![decl("b", Type::Bool, binary(Expr::Eq, boolean(true), int_lit(1)))]);
    assert_eq!(error_of(p), "equality operands must have compatible types, got Bool and Int");
}

#[test]
fn logic_needs_booleans() {
    let p = main_only(vec![decl("b", Type::Bool, binary(Expr::And, boolean(true), int_lit(1)))]);
    assert_eq!(error_of(p), "and/or require Bool operands");
}

#[test]
fn not_needs_boolean() {
    let p = main_only(vec![decl("b", Type::Bool, ex(Expr::Not(Box::new(int_lit(1)))))]);
    assert_eq!(error_of(p), "not requires Bool operand");
}

#[test]
fn negation_needs_number() {
    let p = main_only(vec![decl("b", Type::Int, ex(Expr::Neg(Box::new(boolean(true)))))]);
    assert_eq!(error_of(p), "unary minus requires Int or Float");
}

#[test]
fn init_outside_declaration_rejected() {
    let p = main_only(vec![decl("x", Type::Int, int_lit(0)), assign(ident("x"), init(vec![]))]);
    assert_eq!(error_of(p), "struct/enum init used with non-struct, non-enum type Int");
}

#[test]
fn missing_struct_field_message() {
    let p = program(
        vec![point_decl()],
        vec![main_fn(vec![decl("p", struct_ty("Point"), init(vec![("x", Some(int_lit(1)))]))])],
    );
    assert_eq!(error_of(p), "missing fields in struct Point initializer: [\"y\"]");
}

#[test]
fn unknown_struct_field_message() {
    let p = program(
        vec![point_decl()],
        vec![main_fn(vec![decl("p", struct_ty("Point"), init(vec![("z", Some(int_lit(1)))]))])],
    );
    assert_eq!(error_of(p), "unknown field 'z' in struct Point");
}

#[test]
fn struct_field_needs_value() {
    let p = program(
        vec![point_decl()],
        vec![main_fn(vec![decl("p", struct_ty("Point"), init(vec![("x", None)]))])],
    );
    assert_eq!(error_of(p), "field 'x' in struct Point must have a value");
}

#[test]
fn struct_field_type_message() {
    let p = program(
        vec![point_decl()],
        vec![main_fn(vec![decl("p", struct_ty("Point"), init(vec![("x", Some(boolean(true))), ("y", Some(int_lit(1)))]))])],
    );
    assert_eq!(error_of(p), "field 'x' expects Int, got Bool");
}

#[test]
fn enum_init_takes_one_variant() {
    let p = program(
        vec![option_decl()],
        vec![main_fn(vec![decl("o", enum_ty("Option"), init(vec![("Some", Some(int_lit(1))), ("None", None)]))])],
    );
    assert_eq!(error_of(p), "enum init requires exactly one variant, got 2");
}

#[test]
fn enum_payload_type_message() {
    let p = program(
        vec![option_decl()],
        vec![main_fn(vec![decl("o", enum_ty("Option"), init(vec![("Some", Some(boolean(true)))]))])],
    );
    assert_eq!(error_of(p), "variant 'Some' expects Int payload, got Bool");
}

#[test]
fn payload_variant_message() {
    let p = program(vec![option_decl()], vec![main_fn(vec![decl("o", enum_ty("Option"), init(vec![("Some", None)]))])]);
    assert_eq!(error_of(p), "variant 'Some' requires a payload value, use { .Some = expr }");
}

#[test]
fn unit_variant_message() {
    let p = program(
        vec![option_decl()],
        vec![main_fn(vec![decl("o", enum_ty("Option"), init(vec![("None", Some(int_lit(1)))]))])],
    );
    assert_eq!(error_of(p), "variant 'None' is a unit variant and takes no value");
}

#[test]
fn match_target_must_be_enum() {
    let p = main_only(vec![decl("x", Type::Int, int_lit(1)), match_on(ident("x"), vec![])]);
    assert_eq!(error_of(p), "match target must be an enum, got Int");
}

#[test]
fn non_exhaustive_match_lists_missing_variants_sorted() {
    let p = program(
        vec![enum_decl("Dir", vec![(None, "North"), (None, "East"), (None, "South")])],
        vec![main_fn(vec![
            decl("d", enum_ty("Dir"), init(vec![("North", None)])),
            match_on(ident("d"), vec![("North", vec![])]),
        ])],
    );
    assert_eq!(error_of(p), "non-exhaustive match for enum Dir: missing variants [\"East\", \"South\"]");
}

#[test]
fn invalid_cast_message_writes_types_as_debug() {
    let p = program(
        vec![point_decl()],
        vec![main_fn(vec![
            decl("p", struct_ty("Point"), init(vec![("x", Some(int_lit(1))), ("y", Some(int_lit(2)))])),
            decl("b", Type::Bool, cast(Type::Bool, ident("p"))),
        ])],
    );
    let expected = format!("invalid cast from {:?} to {:?}", struct_ty("Point"), Type::Bool);
    assert_eq!(error_of(p), expected);
}

#[test]
fn function_used_as_value_rejected() {
    let p = main_only(vec![decl("f", Type::Int, ident("print"))]);
    assert_eq!(error_of(p), "cannot use function 'print' as a value");
}

#[test]
fn array_literal_and_index() {
    let arr = ex(Expr::ArrayLit(vec![int_lit(1), int_lit(2)]));
    let p = main_only(vec![
        decl("a", Type::Array(Box::new(Type::Int)), arr),
        decl("x", Type::Int, ex(Expr::Index { base: Box::new(ident("a")), index: Box::new(int_lit(0)) })),
    ]);
    assert!(check(p).is_ok());
}

#[test]
fn empty_array_literal_rejected() {
    let p = main_only(vec![decl("a", Type::Array(Box::new(Type::Int)), ex(Expr::ArrayLit(vec![])))]);
    assert_eq!(error_of(p), "empty array literal needs type annotation");
}

#[test]
fn checked_program_keeps_signatures_and_annotates() {
    let p = program(
        vec![point_decl()],
        vec![
            func(Type::Int, "inc", vec![(Type::Int, "n")], vec![ret(Some(binary(Expr::Add, ident("n"), int_lit(1))))]),
            main_fn(vec![decl("v", Type::Int, ex(Expr::Call { name: "inc".to_string(), args: vec![int_lit(1)] }))]),
        ],
    );
    let checked: CheckedProgram = check(p).expect("program should type-check");
    assert_eq!(checked.type_declarations, vec![point_decl()]);
    assert_eq!(checked.functions.len(), 2);
    assert_eq!(checked.functions[0].name, "inc");
    assert_eq!(checked.functions[0].params, vec![Param { name: "n".to_string(), ty: Type::Int }]);
    assert_eq!(checked.functions[0].return_type, Type::Int);
    assert_eq!(checked.functions[1].name, "main");
    assert!(checked.main_function().is_some());
    match &checked.functions[1].body.stmt {
        Statement::Block { seq } => match &seq[0].stmt {
            Statement::Decl { init, .. } => assert_eq!(init.ty, Type::Int),
            other => panic!("unexpected statement {:?}", other),
        },
        other => panic!("unexpected body {:?}", other),
    }
}

#[test]
fn functions_may_call_each_other() {
    let p = program(
        vec![],
        vec![
            main_fn(vec![call("later", vec![])]),
            func(Type::Unit, "later", vec![], vec![call("main", vec![])]),
        ],
    );
    assert!(check(p).is_ok());
}

#[test]
fn parameters_do_not_leak_between_functions() {
    let p = program(
        vec![],
        vec![
            func(Type::Unit, "f", vec![(Type::Int, "n")], vec![]),
            main_fn(vec![decl("x", Type::Int, ident("n"))]),
        ],
    );
    assert_eq!(error_of(p), "undeclared variable: n");
}

fn index(base: UncheckedExpr, i: UncheckedExpr) -> UncheckedExpr {
    ex(Expr::Index { base: Box::new(base), index: Box::new(i) })
}

fn int_array(elems: Vec<i64>) -> UncheckedExpr {
    ex(Expr::ArrayLit(elems.into_iter().map(int_lit).collect()))
}

fn int_array_ty() -> Type {
    Type::Array(Box::new(Type::Int))
}

// enum Option { int Some; None; }
// void main() { enum Option x = { .Some = 42 }; int result = 0;
//   match x { case Some: { result = Some; } case None: { result = -1; } } }
#[test]
fn match_arms_assign_outer_variable() {
    let p = program(
        vec![option_decl()],
        vec![main_fn(vec![
            decl("x", enum_ty("Option"), init(vec![("Some", Some(int_lit(42)))])),
            decl("result", Type::Int, int_lit(0)),
            match_on(
                ident("x"),
                vec![
                    ("Some", vec![assign(ident("result"), ident("Some"))]),
                    ("None", vec![assign(ident("result"), ex(Expr::Neg(Box::new(int_lit(1)))))]),
                ],
            ),
        ])],
    );
    assert!(check(p).is_ok());
}

// struct Point { int x; int y; }
// void main() { struct Point p = { .x = 0, .y = 10 }; int[] arr = [1]; int v = arr[p.y]; }
#[test]
fn member_may_index_an_array() {
    let p = program(
        vec![point_decl()],
        vec![main_fn(vec![
            decl("p", struct_ty("Point"), init(vec![("x", Some(int_lit(0))), ("y", Some(int_lit(10)))])),
            decl("arr", int_array_ty(), int_array(vec![1])),
            decl("v", Type::Int, index(ident("arr"), member(ident("p"), "y"))),
        ])],
    );
    assert!(check(p).is_ok());
}

// struct Pair { int a; int b; }
// void main() { struct Pair p = { .a = 1, .b = 2 }; struct Pair q = { .a = 1, .b = 2 }; bool eq = p == q; }
#[test]
fn struct_values_compare_for_equality() {
    let pair = || init(vec![("a", Some(int_lit(1))), ("b", Some(int_lit(2)))]);
    let p = program(
        vec![struct_decl("Pair", vec![(Type::Int, "a"), (Type::Int, "b")])],
        vec![main_fn(vec![
            decl("p", struct_ty("Pair"), pair()),
            decl("q", struct_ty("Pair"), pair()),
            decl("eq", Type::Bool, binary(Expr::Eq, ident("p"), ident("q"))),
        ])],
    );
    assert!(check(p).is_ok());
}

// enum Option { int Some; None; }
// void main() { int Some = 0; enum Option x = { .Some = 42 };
//   match x { case Some: { int y = Some; } case None: { } } int[] arr = [1]; int v = arr[Some]; }
#[test]
fn outer_variable_named_like_variant_survives_match() {
    let p = program(
        vec![option_decl()],
        vec![main_fn(vec![
            decl("Some", Type::Int, int_lit(0)),
            decl("x", enum_ty("Option"), init(vec![("Some", Some(int_lit(42)))])),
            match_on(ident("x"), vec![("Some", vec![decl("y", Type::Int, ident("Some"))]), ("None", vec![])]),
            decl("arr", int_array_ty(), int_array(vec![1])),
            decl("v", Type::Int, index(ident("arr"), ident("Some"))),
        ])],
    );
    let checked = check(p).expect("program should type-check");
    match &checked.functions[0].body.stmt {
        Statement::Block { seq } => match &seq[2].stmt {
            Statement::Match { arms, .. } => {
                assert_eq!(arms[0].binding, Some("Some".to_string()));
                assert_eq!(arms[1].binding, None);
            },
            other => panic!("unexpected statement {:?}", other),
        },
        other => panic!("unexpected body {:?}", other),
    }
}

#[test]
fn type_error_clones() {
    let e = TypeError::new("boom".to_string());
    let c = e.clone();
    assert_eq!(c, e);
}

// Names in messages are quoted as `{:?}` quotes them, escapes beyond ASCII included.
#[test]
fn quoted_names_follow_debug_escaping() {
    for name in ["P\u{85}", "Caf\u{e9}", "Tab\tName", "Zero\u{200b}Width"] {
        let p = program(
            vec![struct_decl(name, vec![(Type::Int, "x")])],
            vec![main_fn(vec![
                decl("p", struct_ty(name), init(vec![("x", Some(int_lit(1)))])),
                decl("x", Type::Int, ident("p")),
            ])],
        );
        let expected = format!("declaration of x: expected Int, got {:?}", struct_ty(name));
        assert_eq!(error_of(p), expected);
    }
    assert_eq!(format!("{:?}", struct_ty("P\u{85}")), "Struct(\"P\\u{85}\")");
}

// struct Point { int x; int y; }
// void main() { struct Point p = { .x = 21, .y = 0 }; int v = p.x; }
#[test]
fn member_read_after_init_type_checks() {
    let p = program(
        vec![point_decl()],
        vec![main_fn(vec![
            decl("p", struct_ty("Point"), init(vec![("x", Some(int_lit(21))), ("y", Some(int_lit(0)))])),
            decl("v", Type::Int, member(ident("p"), "x")),
        ])],
    );
    assert!(check(p).is_ok());
}

// enum Option { int Some; None; }
// void main() { enum Option x = { .None }; int result = -1;
//   match x { case Some: { result = Some; } case None: { result = 99; } } }
#[test]
fn unit_variant_match_type_checks() {
    let p = program(
        vec![option_decl()],
        vec![main_fn(vec![
            decl("x", enum_ty("Option"), init(vec![("None", None)])),
            decl("result", Type::Int, ex(Expr::Neg(Box::new(int_lit(1))))),
            match_on(
                ident("x"),
                vec![
                    ("Some", vec![assign(ident("result"), ident("Some"))]),
                    ("None", vec![assign(ident("result"), int_lit(99))]),
                ],
            ),
        ])],
    );
    assert!(check(p).is_ok());
}

// enum Option { int Some; None; }
// void main() { enum Option a = { .Some = 1 }; enum Option b = { .Some = 1 }; bool eq = a == b; }
#[test]
fn enum_values_compare_for_equality() {
    let p = program(
        vec![option_decl()],
        vec![main_fn(vec![
            decl("a", enum_ty("Option"), init(vec![("Some", Some(int_lit(1)))])),
            decl("b", enum_ty("Option"), init(vec![("Some", Some(int_lit(1)))])),
            decl("eq", Type::Bool, binary(Expr::Eq, ident("a"), ident("b"))),
        ])],
    );
    assert!(check(p).is_ok());
}
