//! Type checker for MiniC.
//!
//! [`type_check`] walks an [`UncheckedProgram`] and returns either a
//! [`CheckedProgram`] (every node annotated with its [`Type`]) or a
//! [`TypeError`] describing the first violation found. What it computes is
//! defined in [`crate::semantic::rules`].
use vstd::prelude::*;
use crate::ir::ast::{
    main_index, FunDeclV, ParamV, UDTDeclV, ProgramV,
    clone_decl, clone_decls, clone_params, clone_opt_type, clone_type, opt_type_view, CExprV, CStmtV, MatchArmV, StatementV, StatementDV, push_type_debug, type_eq, type_debug, CheckedExpr,
    CheckedFunDecl, CheckedProgram, CheckedStmt, Expr, ExprD, ExprDV, ExprV, FunDecl, Literal,
    MatchArm, Param, Program, Statement, StatementD, Type, TypeV, UDTDecl, UDTKind, UDTMember,
    UDTMemberV,
    UncheckedExpr, UncheckedFunDecl, UncheckedProgram, UncheckedStmt,
};
use crate::semantic::environment::{find_decl, lookup, TypeEnv, TypeEnvV};
use crate::semantic::rules::{
    check_fun_decl, check_fun_decls, param_bindings, signature_type, function_bindings,
    native_bindings, function_env, type_check_spec, check_type_decls_unique, same_decl_key,
    kind_debug, validate_members, validate_decls, validate_params, validate_functions,
    validate_program_type_references, check_main,
    check_stmt, check_stmts, check_arms, check_call, str_lt, insert_position, insert_sorted,
    sort_names, unmatched_variants, declare,
    check_expr, check_args, check_elems, check_struct_fields, check_argument_types,
    check_elements_agree, check_arith, check_equality, check_ordering, check_logic, init_misuse, mk,
    field_names, field_type, remove_name, variant_payload, quoted_list, name_list_debug,
    compatible, is_assignable_target, is_numeric, is_valid_cast, literal_type, numeric_binop_result,
    validate_type_reference, validate_type_references,
};
use crate::text::{push_decimal, push_quoted};

verus! {

/// A type error reported by the type checker.
#[derive(Debug, Clone, PartialEq)]
pub struct TypeError {
    pub message: String,
}

impl TypeError {
    pub fn new(message: String) -> (r: TypeError)
        ensures
            r.message@ == message@,
    {
        TypeError { message }
    }
}

/// The view of a checking result: the view of what was checked, or the
/// error's message.
pub open spec fn result_view<X: View>(r: Result<X, TypeError>) -> Result<X::V, Seq<char>> {
    match r {
        Ok(x) => Ok(x@),
        Err(e) => Err(e.message@),
    }
}

fn fail<X>(message: String) -> (r: Result<X, TypeError>)
    ensures
        r matches Err(e) && e.message@ == message@,
{
    Err(TypeError::new(message))
}

/// A string holding `s`.
fn text(s: &str) -> (r: String)
    ensures
        r@ == s@,
{
    String::from_str(s)
}

fn types_compatible(a: &Type, b: &Type) -> (r: bool)
    ensures
        r == compatible(a@, b@),
    decreases a,
{
    if let Type::Any = b {
        return true;
    }
    match a {
        Type::Int => matches!(b, Type::Int | Type::Float),
        Type::Float => matches!(b, Type::Int | Type::Float),
        Type::Bool => matches!(b, Type::Bool),
        Type::Str => matches!(b, Type::Str),
        Type::Unit => matches!(b, Type::Unit),
        Type::Array(x) => match b {
            Type::Array(y) => types_compatible(x, y),
            _ => false,
        },
        Type::Struct(x) => match b {
            Type::Struct(y) => *x == *y,
            _ => false,
        },
        Type::Enum(x) => match b {
            Type::Enum(y) => *x == *y,
            _ => false,
        },
        _ => false,
    }
}

fn type_is_numeric(t: &Type) -> (r: bool)
    ensures
        r == is_numeric(t@),
{
    matches!(t, Type::Int | Type::Float)
}

fn literal_type_of(l: &Literal) -> (r: (Literal, Type))
    ensures
        r.0@ == l@,
        r.1@ == literal_type(l@),
{
    match l {
        Literal::Int(i) => (Literal::Int(*i), Type::Int),
        Literal::Float(f) => (Literal::Float(*f), Type::Float),
        Literal::Str(s) => (Literal::Str(s.clone()), Type::Str),
        Literal::Bool(b) => (Literal::Bool(*b), Type::Bool),
    }
}

fn numeric_binop_type(l: &Type, r: &Type) -> (res: Result<Type, TypeError>)
    ensures
        result_view(res) == numeric_binop_result(l@, r@),
{
    if matches!(l, Type::Int) && matches!(r, Type::Int) {
        Ok(Type::Int)
    } else if type_is_numeric(l) && type_is_numeric(r) {
        Ok(Type::Float)
    } else {
        fail(text("arithmetic operands must be Int or Float"))
    }
}

fn valid_cast(from: &Type, to: &Type, checked: &CheckedExpr) -> (r: bool)
    ensures
        r == is_valid_cast(from@, to@, checked@.exp),
{
    if type_eq(from, to) {
        return true;
    }
    if (matches!(from, Type::Int) && matches!(to, Type::Float)) || (matches!(from, Type::Float)
        && matches!(to, Type::Int)) {
        return true;
    }
    (matches!(to, Type::Struct(_)) && matches!(checked.exp, Expr::Init { .. })) || (matches!(
        to,
        Type::Enum(_)
    ) && matches!(checked.exp, Expr::EnumVariant { .. }))
}

fn assignable_target(target: &UncheckedExpr) -> (r: bool)
    ensures
        r == is_assignable_target(target@.exp),
    decreases target,
{
    match &target.exp {
        Expr::Ident(_) => true,
        Expr::Index { base, .. } => assignable_target(base),
        Expr::Member { base, .. } => assignable_target(base),
        _ => false,
    }
}

fn check_type_reference(ty: &Type, env: &TypeEnv, context: &String) -> (r: Result<(), TypeError>)
    ensures
        result_view(r) == validate_type_reference(ty@, env@.decls, context@),
    decreases ty,
{
    match ty {
        Type::Array(inner) => check_type_reference(inner, env, context),
        Type::Struct(name) => {
            if env.has_type_decl(UDTKind::Struct, name) {
                Ok(())
            } else {
                let mut m = text("unknown struct type '");
                m.append(name.as_str());
                m.append("' in ");
                m.append(context.as_str());
                fail(m)
            }
        },
        Type::Enum(name) => {
            if env.has_type_decl(UDTKind::Enum, name) {
                Ok(())
            } else {
                let mut m = text("unknown enum type '");
                m.append(name.as_str());
                m.append("' in ");
                m.append(context.as_str());
                fail(m)
            }
        },
        Type::Function { params, return_type } => {
            let r = check_type_references(params, env, context);
            proof {
                assert(ty@->params =~= Seq::new(params@.len(), |j: int| params@[j]@));
            }
            if r.is_err() {
                return r;
            }
            check_type_reference(return_type, env, context)
        },
        _ => Ok(()),
    }
}

fn check_type_references(ts: &Vec<Type>, env: &TypeEnv, context: &String) -> (r: Result<(), TypeError>)
    ensures
        result_view(r) == validate_type_references(
            Seq::new(ts@.len(), |j: int| ts@[j]@),
            env@.decls,
            context@,
        ),
    decreases ts,
{
    let ghost tv = Seq::new(ts@.len(), |j: int| ts@[j]@);
    let mut i: usize = 0;
    assert(tv.skip(0) =~= tv);
    while i < ts.len()
        invariant
            i <= ts@.len(),
            tv == Seq::new(ts@.len(), |j: int| ts@[j]@),
            validate_type_references(tv, env@.decls, context@) == validate_type_references(
                tv.skip(i as int),
                env@.decls,
                context@,
            ),
        decreases ts@.len() - i,
    {
        proof {
            assert(decreases_to!(ts => ts@[i as int]));
            assert(tv.skip(i as int)[0] == tv[i as int]);
            assert(tv.skip(i as int).drop_first() =~= tv.skip(i + 1));
        }
        let r = check_type_reference(&ts[i], env, context);
        if r.is_err() {
            return r;
        }
        i = i + 1;
    }
    proof {
        assert(tv.skip(i as int) =~= Seq::<TypeV>::empty());
    }
    Ok(())
}


/// The views of the members of a declaration.
pub open spec fn members_view(ms: Seq<UDTMember>) -> Seq<UDTMemberV> {
    Seq::new(ms.len(), |i: int| ms[i]@)
}

/// The views of a list of names.
pub open spec fn names_view(ns: Seq<String>) -> Seq<Seq<char>> {
    Seq::new(ns.len(), |i: int| ns[i]@)
}

/// The type of the first field named `name` among `members`.
fn find_field_type<'a>(members: &'a Vec<UDTMember>, name: &String) -> (r: Option<&'a Type>)
    ensures
        opt_type_view(match r { Some(t) => Some(*t), None => None }) == field_type(
            members_view(members@),
            name@,
        ),
{
    let ghost mv = members_view(members@);
    let mut i: usize = 0;
    assert(mv.skip(0) =~= mv);
    while i < members.len()
        invariant
            i <= members@.len(),
            mv == members_view(members@),
            field_type(mv, name@) == field_type(mv.skip(i as int), name@),
        decreases members@.len() - i,
    {
        proof {
            assert(mv.skip(i as int)[0] == mv[i as int]);
            assert(mv.skip(i as int).drop_first() =~= mv.skip(i + 1));
        }
        if let UDTMember::Field(f) = &members[i] {
            if f.name == *name {
                return Some(&f.ty);
            }
        }
        i = i + 1;
    }
    None
}

/// The payload type of the first variant named `name` among `members`.
fn find_variant_payload<'a>(members: &'a Vec<UDTMember>, name: &String) -> (r: Option<&'a Option<Type>>)
    ensures
        match r {
            Some(t) => variant_payload(members_view(members@), name@) == Some(opt_type_view(*t)),
            None => variant_payload(members_view(members@), name@) is None,
        },
{
    let ghost mv = members_view(members@);
    let mut i: usize = 0;
    assert(mv.skip(0) =~= mv);
    while i < members.len()
        invariant
            i <= members@.len(),
            mv == members_view(members@),
            variant_payload(mv, name@) == variant_payload(mv.skip(i as int), name@),
        decreases members@.len() - i,
    {
        proof {
            assert(mv.skip(i as int)[0] == mv[i as int]);
            assert(mv.skip(i as int).drop_first() =~= mv.skip(i + 1));
        }
        if let UDTMember::EnumVariant { name: n, ty } = &members[i] {
            if *n == *name {
                return Some(ty);
            }
        }
        i = i + 1;
    }
    None
}

/// Whether `names` holds `name`.
fn contains_name(names: &Vec<String>, name: &String) -> (r: bool)
    ensures
        r == names_view(names@).contains(name@),
{
    let mut i: usize = 0;
    while i < names.len()
        invariant
            i <= names@.len(),
            forall|j: int| 0 <= j < i ==> names@[j]@ != name@,
        decreases names@.len() - i,
    {
        if names[i] == *name {
            assert(names_view(names@)[i as int] == name@);
            return true;
        }
        i = i + 1;
    }
    proof {
        if names_view(names@).contains(name@) {
            let k = choose|k: int| 0 <= k < names@.len() && names_view(names@)[k] == name@;
            assert(names@[k]@ == name@);
        }
    }
    false
}

/// The field names of `members`, each once, in declaration order.
fn member_field_names(members: &Vec<UDTMember>) -> (r: Vec<String>)
    ensures
        names_view(r@) == field_names(members_view(members@)),
{
    let ghost mv = members_view(members@);
    let mut r: Vec<String> = Vec::new();
    let mut i: usize = 0;
    while i < members.len()
        invariant
            i <= members@.len(),
            mv == members_view(members@),
            names_view(r@) == field_names(mv.take(i as int)),
        decreases members@.len() - i,
    {
        proof {
            assert(mv.take(i + 1).drop_last() =~= mv.take(i as int));
        }
        if let UDTMember::Field(f) = &members[i] {
            if !contains_name(&r, &f.name) {
                r.push(f.name.clone());
                assert(names_view(r@) =~= field_names(mv.take(i as int)).push(f.name@));
            }
        }
        i = i + 1;
    }
    assert(mv.take(members@.len() as int) =~= mv);
    r
}

/// `names` without `name`.
fn without_name(names: &Vec<String>, name: &String) -> (r: Vec<String>)
    ensures
        names_view(r@) == remove_name(names_view(names@), name@),
{
    let ghost nv = names_view(names@);
    let mut r: Vec<String> = Vec::new();
    let mut i: usize = 0;
    while i < names.len()
        invariant
            i <= names@.len(),
            nv == names_view(names@),
            names_view(r@) == remove_name(nv.take(i as int), name@),
        decreases names@.len() - i,
    {
        proof {
            assert(nv.take(i + 1).drop_last() =~= nv.take(i as int));
        }
        if names[i] != *name {
            r.push(names[i].clone());
            assert(names_view(r@) =~= remove_name(nv.take(i as int), name@).push(names@[i as int]@));
        }
        i = i + 1;
    }
    assert(nv.take(names@.len() as int) =~= nv);
    r
}

/// Appends the names, written as by `{:?}` for a list of strings, to `out`.
fn push_name_list_debug(out: &mut String, names: &Vec<String>)
    ensures
        final(out)@ == old(out)@ + name_list_debug(names_view(names@)),
{
    let ghost start = out@;
    let ghost nv = names_view(names@);
    out.append("[");
    let mut i: usize = 0;
    while i < names.len()
        invariant
            i <= names@.len(),
            nv == names_view(names@),
            out@ == start + "["@ + quoted_list(nv.take(i as int)),
        decreases names@.len() - i,
    {
        if i > 0 {
            out.append(", ");
        }
        push_quoted(out, names[i].as_str());
        proof {
            assert(nv.take(i + 1).drop_last() =~= nv.take(i as int));
            if i == 0 {
                assert(nv.take(0) =~= Seq::<Seq<char>>::empty());
            }
        }
        i = i + 1;
    }
    assert(nv.take(names@.len() as int) =~= nv);
    out.append("]");
    assert(out@ =~= start + name_list_debug(nv));
}


pub open spec fn exprs_view<T: View>(s: Seq<ExprD<T>>) -> Seq<ExprDV<T::V>> {
    Seq::new(s.len(), |i: int| s[i]@)
}

pub open spec fn types_view(s: Seq<Type>) -> Seq<TypeV> {
    Seq::new(s.len(), |i: int| s[i]@)
}

pub open spec fn fields_view<T: View>(s: Seq<(String, Option<ExprD<T>>)>) -> Seq<
    (Seq<char>, Option<ExprDV<T::V>>),
> {
    Seq::new(
        s.len(),
        |i: int|
            (
                s[i].0@,
                match s[i].1 {
                    Some(e) => Some(e@),
                    None => None,
                },
            ),
    )
}

pub open spec fn expected_view(expected: Option<&Type>) -> Option<TypeV> {
    match expected {
        Some(t) => Some(t@),
        None => None,
    }
}

/// Whether `e` is a binary operator application.
pub open spec fn is_binary<A>(e: ExprV<A>) -> bool {
    ||| e is Add
    ||| e is Sub
    ||| e is Mul
    ||| e is Div
    ||| e is Eq
    ||| e is Ne
    ||| e is Lt
    ||| e is Le
    ||| e is Gt
    ||| e is Ge
    ||| e is And
    ||| e is Or
}

/// The operands of a binary operator application.
pub open spec fn operands<A>(e: ExprV<A>) -> (ExprDV<A>, ExprDV<A>) {
    match e {
        ExprV::Add(l, r) => (*l, *r),
        ExprV::Sub(l, r) => (*l, *r),
        ExprV::Mul(l, r) => (*l, *r),
        ExprV::Div(l, r) => (*l, *r),
        ExprV::Eq(l, r) => (*l, *r),
        ExprV::Ne(l, r) => (*l, *r),
        ExprV::Lt(l, r) => (*l, *r),
        ExprV::Le(l, r) => (*l, *r),
        ExprV::Gt(l, r) => (*l, *r),
        ExprV::Ge(l, r) => (*l, *r),
        ExprV::And(l, r) => (*l, *r),
        ExprV::Or(l, r) => (*l, *r),
        _ => arbitrary(),
    }
}

/// Both operands checked, left first.
pub open spec fn operands_result(e: ExprV<()>, env: TypeEnvV) -> Result<(CExprV, CExprV), Seq<char>> {
    match check_expr(operands(e).0, env, None) {
        Err(m) => Err(m),
        Ok(a) => match check_expr(operands(e).1, env, None) {
            Err(m) => Err(m),
            Ok(b) => Ok((a, b)),
        },
    }
}

fn check_operands(e: &UncheckedExpr, env: &TypeEnv) -> (r: Result<(CheckedExpr, CheckedExpr), TypeError>)
    requires
        is_binary(e@.exp),
    ensures
        result_view(r) == operands_result(e@.exp, env@),
    decreases e, 0nat,
{
    let (l, r) = match &e.exp {
        Expr::Add(l, r) => (l, r),
        Expr::Sub(l, r) => (l, r),
        Expr::Mul(l, r) => (l, r),
        Expr::Div(l, r) => (l, r),
        Expr::Eq(l, r) => (l, r),
        Expr::Ne(l, r) => (l, r),
        Expr::Lt(l, r) => (l, r),
        Expr::Le(l, r) => (l, r),
        Expr::Gt(l, r) => (l, r),
        Expr::Ge(l, r) => (l, r),
        Expr::And(l, r) => (l, r),
        Expr::Or(l, r) => (l, r),
        _ => {
            proof {
                assert(false);
            }
            return fail(String::new());
        },
    };
    let a = match type_check_expr(l, env, None) {
        Ok(a) => a,
        Err(err) => return Err(err),
    };
    let b = match type_check_expr(r, env, None) {
        Ok(b) => b,
        Err(err) => return Err(err),
    };
    Ok((a, b))
}

fn check_args_exec(args: &Vec<UncheckedExpr>, params: &Vec<Type>, env: &TypeEnv) -> (r: Result<
    Vec<CheckedExpr>,
    TypeError,
>)
    requires
        args@.len() == params@.len(),
    ensures
        match r {
            Ok(cs) => check_args(exprs_view(args@), types_view(params@), env@) == Ok::<
                Seq<CExprV>,
                Seq<char>,
            >(exprs_view(cs@)),
            Err(err) => check_args(exprs_view(args@), types_view(params@), env@) == Err::<
                Seq<CExprV>,
                Seq<char>,
            >(err.message@),
        },
        r matches Ok(cs) ==> cs@.len() == args@.len(),
    decreases args, 0nat,
{
    let ghost av = exprs_view(args@);
    let ghost pv = types_view(params@);
    let mut out: Vec<CheckedExpr> = Vec::new();
    let mut i: usize = 0;
    assert(av.skip(0) =~= av);
    assert(pv.skip(0) =~= pv);
    while i < args.len()
        invariant
            i <= args@.len(),
            args@.len() == params@.len(),
            av == exprs_view(args@),
            pv == types_view(params@),
            out@.len() == i,
            check_args(av, pv, env@) == match check_args(av.skip(i as int), pv.skip(i as int), env@) {
                Err(m) => Err(m),
                Ok(cs) => Ok(exprs_view(out@) + cs),
            },
        decreases args@.len() - i,
    {
        proof {
            assert(decreases_to!(args => args@[i as int]));
            assert(av.skip(i as int)[0] == av[i as int]);
            assert(pv.skip(i as int)[0] == pv[i as int]);
            assert(av.skip(i as int).drop_first() =~= av.skip(i + 1));
            assert(pv.skip(i as int).drop_first() =~= pv.skip(i + 1));
        }
        let c = match type_check_expr(&args[i], env, Some(&params[i])) {
            Ok(c) => c,
            Err(err) => return Err(err),
        };
        let ghost before = exprs_view(out@);
        out.push(c);
        proof {
            assert(exprs_view(out@) =~= before.push(c@));
            assert forall|cs: Seq<CExprV>| #![auto] before + (seq![c@] + cs) == exprs_view(out@) + cs by {
                assert(before + (seq![c@] + cs) =~= exprs_view(out@) + cs);
            }
        }
        i = i + 1;
    }
    proof {
        assert(av.skip(i as int) =~= Seq::<ExprDV<()>>::empty());
        assert(exprs_view(out@) + Seq::<CExprV>::empty() =~= exprs_view(out@));
    }
    Ok(out)
}

fn check_elems_exec(elems: &Vec<UncheckedExpr>, env: &TypeEnv) -> (r: Result<Vec<CheckedExpr>, TypeError>)
    ensures
        match r {
            Ok(cs) => check_elems(exprs_view(elems@), env@) == Ok::<Seq<CExprV>, Seq<char>>(
                exprs_view(cs@),
            ),
            Err(err) => check_elems(exprs_view(elems@), env@) == Err::<Seq<CExprV>, Seq<char>>(
                err.message@,
            ),
        },
    decreases elems, 0nat,
{
    let ghost av = exprs_view(elems@);
    let mut out: Vec<CheckedExpr> = Vec::new();
    let mut i: usize = 0;
    assert(av.skip(0) =~= av);
    while i < elems.len()
        invariant
            i <= elems@.len(),
            av == exprs_view(elems@),
            out@.len() == i,
            check_elems(av, env@) == match check_elems(av.skip(i as int), env@) {
                Err(m) => Err(m),
                Ok(cs) => Ok(exprs_view(out@) + cs),
            },
        decreases elems@.len() - i,
    {
        proof {
            assert(decreases_to!(elems => elems@[i as int]));
            assert(av.skip(i as int)[0] == av[i as int]);
            assert(av.skip(i as int).drop_first() =~= av.skip(i + 1));
        }
        let c = match type_check_expr(&elems[i], env, None) {
            Ok(c) => c,
            Err(err) => return Err(err),
        };
        let ghost before = exprs_view(out@);
        out.push(c);
        proof {
            assert(exprs_view(out@) =~= before.push(c@));
            assert forall|cs: Seq<CExprV>| #![auto] before + (seq![c@] + cs) == exprs_view(out@) + cs by {
                assert(before + (seq![c@] + cs) =~= exprs_view(out@) + cs);
            }
        }
        i = i + 1;
    }
    proof {
        assert(av.skip(i as int) =~= Seq::<ExprDV<()>>::empty());
        assert(exprs_view(out@) + Seq::<CExprV>::empty() =~= exprs_view(out@));
    }
    Ok(out)
}

fn type_check_expr(e: &UncheckedExpr, env: &TypeEnv, expected: Option<&Type>) -> (r: Result<
    CheckedExpr,
    TypeError,
>)
    ensures
        result_view(r) == check_expr(e@, env@, expected_view(expected)),
    decreases e, 2nat,
{
    match &e.exp {
        Expr::Literal(l) => {
            let (l2, t) = literal_type_of(l);
            Ok(ExprD { exp: Expr::Literal(l2), ty: t })
        },
        Expr::Ident(name) => match env.get(name) {
            Some(Type::Function { .. }) => {
                let mut m = text("cannot use function '");
                m.append(name.as_str());
                m.append("' as a value");
                fail(m)
            },
            Some(t) => Ok(ExprD { exp: Expr::Ident(name.clone()), ty: clone_type(t) }),
            None => {
                let mut m = text("undeclared variable: ");
                m.append(name.as_str());
                fail(m)
            },
        },
        Expr::Neg(inner) => {
            let c = match type_check_expr(inner, env, None) {
                Ok(c) => c,
                Err(err) => return Err(err),
            };
            if !type_is_numeric(&c.ty) {
                return fail(text("unary minus requires Int or Float"));
            }
            let ty = clone_type(&c.ty);
            Ok(ExprD { exp: Expr::Neg(Box::new(c)), ty })
        },
        Expr::Add(..) | Expr::Sub(..) | Expr::Mul(..) | Expr::Div(..) => {
            let (a, b) = match check_operands(e, env) {
                Ok(p) => p,
                Err(err) => return Err(err),
            };
            let ty = match numeric_binop_type(&a.ty, &b.ty) {
                Ok(t) => t,
                Err(err) => return Err(err),
            };
            let (a, b) = (Box::new(a), Box::new(b));
            let exp = match &e.exp {
                Expr::Add(..) => Expr::Add(a, b),
                Expr::Sub(..) => Expr::Sub(a, b),
                Expr::Mul(..) => Expr::Mul(a, b),
                _ => Expr::Div(a, b),
            };
            Ok(ExprD { exp, ty })
        },
        Expr::Eq(..) | Expr::Ne(..) => {
            let (a, b) = match check_operands(e, env) {
                Ok(p) => p,
                Err(err) => return Err(err),
            };
            if !types_compatible(&a.ty, &b.ty) {
                let mut m = text("equality operands must have compatible types, got ");
                push_type_debug(&mut m, &a.ty);
                m.append(" and ");
                push_type_debug(&mut m, &b.ty);
                return fail(m);
            }
            let (a, b) = (Box::new(a), Box::new(b));
            let exp = match &e.exp {
                Expr::Eq(..) => Expr::Eq(a, b),
                _ => Expr::Ne(a, b),
            };
            Ok(ExprD { exp, ty: Type::Bool })
        },
        Expr::Lt(..) | Expr::Le(..) | Expr::Gt(..) | Expr::Ge(..) => {
            let (a, b) = match check_operands(e, env) {
                Ok(p) => p,
                Err(err) => return Err(err),
            };
            if !type_is_numeric(&a.ty) || !type_is_numeric(&b.ty) {
                let mut m = text("ordering comparison requires numeric operands, got ");
                push_type_debug(&mut m, &a.ty);
                m.append(" and ");
                push_type_debug(&mut m, &b.ty);
                return fail(m);
            }
            let (a, b) = (Box::new(a), Box::new(b));
            let exp = match &e.exp {
                Expr::Lt(..) => Expr::Lt(a, b),
                Expr::Le(..) => Expr::Le(a, b),
                Expr::Gt(..) => Expr::Gt(a, b),
                _ => Expr::Ge(a, b),
            };
            Ok(ExprD { exp, ty: Type::Bool })
        },
        Expr::Not(inner) => {
            let c = match type_check_expr(inner, env, None) {
                Ok(c) => c,
                Err(err) => return Err(err),
            };
            if !matches!(c.ty, Type::Bool) {
                return fail(text("not requires Bool operand"));
            }
            Ok(ExprD { exp: Expr::Not(Box::new(c)), ty: Type::Bool })
        },
        Expr::And(..) | Expr::Or(..) => {
            let (a, b) = match check_operands(e, env) {
                Ok(p) => p,
                Err(err) => return Err(err),
            };
            if !matches!(a.ty, Type::Bool) || !matches!(b.ty, Type::Bool) {
                return fail(text("and/or require Bool operands"));
            }
            let (a, b) = (Box::new(a), Box::new(b));
            let exp = match &e.exp {
                Expr::And(..) => Expr::And(a, b),
                _ => Expr::Or(a, b),
            };
            Ok(ExprD { exp, ty: Type::Bool })
        },
        _ => type_check_compound_expr(e, env, expected),
    }
}

fn check_argument_types_exec(args: &Vec<CheckedExpr>, params: &Vec<Type>, name: &String) -> (r: Result<
    (),
    TypeError,
>)
    requires
        args@.len() == params@.len(),
    ensures
        result_view(r) == check_argument_types(exprs_view(args@), types_view(params@), name@, 0),
{
    let ghost av = exprs_view(args@);
    let ghost pv = types_view(params@);
    let mut i: usize = 0;
    while i < args.len()
        invariant
            i <= args@.len(),
            args@.len() == params@.len(),
            av == exprs_view(args@),
            pv == types_view(params@),
            check_argument_types(av, pv, name@, 0) == check_argument_types(av, pv, name@, i as nat),
        decreases args@.len() - i,
    {
        if !types_compatible(&args[i].ty, &params[i]) {
            let mut m = text("argument ");
            push_decimal(&mut m, i + 1);
            m.append(" to ");
            m.append(name.as_str());
            m.append(": expected ");
            push_type_debug(&mut m, &params[i]);
            m.append(", got ");
            push_type_debug(&mut m, &args[i].ty);
            return fail(m);
        }
        i = i + 1;
    }
    Ok(())
}

fn elements_agree(elems: &Vec<CheckedExpr>, first: &Type) -> (r: bool)
    ensures
        r == check_elements_agree(exprs_view(elems@), first@, 1),
{
    let ghost ev = exprs_view(elems@);
    let mut i: usize = 1;
    while i < elems.len()
        invariant
            1 <= i,
            ev == exprs_view(elems@),
            check_elements_agree(ev, first@, 1) == check_elements_agree(ev, first@, i as nat),
        decreases elems@.len() - i,
    {
        if !types_compatible(&elems[i].ty, first) {
            return false;
        }
        i = i + 1;
    }
    true
}

fn type_check_compound_expr(e: &UncheckedExpr, env: &TypeEnv, expected: Option<&Type>) -> (r: Result<
    CheckedExpr,
    TypeError,
>)
    requires
        !is_binary(e@.exp),
        !(e@.exp is Literal || e@.exp is Ident || e@.exp is Neg || e@.exp is Not),
    ensures
        result_view(r) == check_expr(e@, env@, expected_view(expected)),
    decreases e, 1nat,
{
    match &e.exp {
        Expr::Call { .. } => check_call_expr(e, env),
        Expr::ArrayLit(..) => check_array_literal(e, env),
        Expr::Index { .. } => check_index_expr(e, env),
        Expr::Member { .. } => check_member_expr(e, env),
        Expr::Init { .. } => match expected {
            Some(Type::Struct(sname)) => check_struct_init(e, sname, env),
            Some(Type::Enum(ename)) => check_enum_init(e, ename, env),
            Some(other) => {
                let mut m = text("struct/enum init used with non-struct, non-enum type ");
                push_type_debug(&mut m, other);
                fail(m)
            },
            None => fail(text("struct/enum init used outside of variable declaration")),
        },
        Expr::Cast { .. } => check_cast_expr(e, env),
        Expr::EnumVariant { .. } => check_enum_variant_expr(e, env),
        _ => {
            proof {
                assert(false);
            }
            fail(String::new())
        },
    }
}

fn check_call_expr(e: &UncheckedExpr, env: &TypeEnv) -> (r: Result<CheckedExpr, TypeError>)
    requires
        e@.exp is Call,
    ensures
        forall|x: Option<TypeV>| #![auto] result_view(r) == check_expr(e@, env@, x),
    decreases e, 0nat,
{
    let Expr::Call { name, args } = &e.exp else {
        proof {
            assert(false);
        }
        return fail(String::new());
    };
    let t = match env.get(name) {
        Some(t) => t,
        None => {
            let mut m = text("undefined function: ");
            m.append(name.as_str());
            return fail(m);
        },
    };
    let (params, return_type) = match t {
        Type::Function { params, return_type } => (params, return_type),
        _ => {
            let mut m = text("'");
            m.append(name.as_str());
            m.append("' is not a function");
            return fail(m);
        },
    };
    proof {
        assert(exprs_view(args@) =~= e@.exp->Call_args);
        assert(t@->params =~= types_view(params@));
    }
    if args.len() != params.len() {
        let mut m = text("function '");
        m.append(name.as_str());
        m.append("' expects ");
        push_decimal(&mut m, params.len());
        m.append(" arguments, got ");
        push_decimal(&mut m, args.len());
        return fail(m);
    }
    let cs = match check_args_exec(args, params, env) {
        Ok(cs) => cs,
        Err(err) => return Err(err),
    };
    match check_argument_types_exec(&cs, params, name) {
        Ok(_) => {},
        Err(err) => return Err(err),
    }
    let r = ExprD {
        exp: Expr::Call { name: name.clone(), args: cs },
        ty: clone_type(return_type),
    };
    proof {
        assert(r@.exp->Call_args =~= exprs_view(cs@));
    }
    Ok(r)
}

fn check_array_literal(e: &UncheckedExpr, env: &TypeEnv) -> (r: Result<CheckedExpr, TypeError>)
    requires
        e@.exp is ArrayLit,
    ensures
        forall|x: Option<TypeV>| #![auto] result_view(r) == check_expr(e@, env@, x),
    decreases e, 0nat,
{
    let Expr::ArrayLit(elems) = &e.exp else {
        proof {
            assert(false);
        }
        return fail(String::new());
    };
    proof {
        assert(exprs_view(elems@) =~= e@.exp->ArrayLit_0);
    }
    if elems.len() == 0 {
        return fail(text("empty array literal needs type annotation"));
    }
    let cs = match check_elems_exec(elems, env) {
        Ok(cs) => cs,
        Err(err) => return Err(err),
    };
    proof {
        assert(exprs_view(cs@)[0] == cs@[0]@);
    }
    let first = clone_type(&cs[0].ty);
    if !elements_agree(&cs, &first) {
        return fail(text("array elements must have same type"));
    }
    let r = ExprD { exp: Expr::ArrayLit(cs), ty: Type::Array(Box::new(first)) };
    proof {
        assert(r@.exp->ArrayLit_0 =~= exprs_view(cs@));
    }
    Ok(r)
}

fn check_index_expr(e: &UncheckedExpr, env: &TypeEnv) -> (r: Result<CheckedExpr, TypeError>)
    requires
        e@.exp is Index,
    ensures
        forall|x: Option<TypeV>| #![auto] result_view(r) == check_expr(e@, env@, x),
    decreases e, 0nat,
{
    let Expr::Index { base, index } = &e.exp else {
        proof {
            assert(false);
        }
        return fail(String::new());
    };
    let ci = match type_check_expr(index, env, None) {
        Ok(c) => c,
        Err(err) => return Err(err),
    };
    if !matches!(ci.ty, Type::Int) {
        return fail(text("array index must be Int"));
    }
    let cb = match type_check_expr(base, env, None) {
        Ok(c) => c,
        Err(err) => return Err(err),
    };
    let elem = match &cb.ty {
        Type::Array(elem) => clone_type(elem),
        _ => return fail(text("indexed expression must be array")),
    };
    Ok(ExprD { exp: Expr::Index { base: Box::new(cb), index: Box::new(ci) }, ty: elem })
}

fn check_member_expr(e: &UncheckedExpr, env: &TypeEnv) -> (r: Result<CheckedExpr, TypeError>)
    requires
        e@.exp is Member,
    ensures
        forall|x: Option<TypeV>| #![auto] result_view(r) == check_expr(e@, env@, x),
    decreases e, 0nat,
{
    let Expr::Member { base, member } = &e.exp else {
        proof {
            assert(false);
        }
        return fail(String::new());
    };
    let cb = match type_check_expr(base, env, None) {
        Ok(c) => c,
        Err(err) => return Err(err),
    };
    let field_ty = match &cb.ty {
        Type::Struct(identifier) => {
            let decl = match env.get_type_decl(UDTKind::Struct, identifier) {
                Some(d) => d,
                None => {
                    let mut m = text("unknown struct type in member access: ");
                    m.append(identifier.as_str());
                    return fail(m);
                },
            };
            match find_field_type(&decl.members, member) {
                Some(t) => clone_type(t),
                None => {
                    let mut m = text("unknown member '");
                    m.append(member.as_str());
                    m.append("' on struct ");
                    m.append(identifier.as_str());
                    return fail(m);
                },
            }
        },
        Type::Enum(identifier) => {
            let mut m = text("cannot access enum variants directly, use match for '");
            m.append(identifier.as_str());
            m.append("'");
            return fail(m);
        },
        other => {
            let mut m = text("member access requires struct base type, got ");
            push_type_debug(&mut m, other);
            return fail(m);
        },
    };
    Ok(ExprD { exp: Expr::Member { base: Box::new(cb), member: member.clone() }, ty: field_ty })
}

fn check_cast_expr(e: &UncheckedExpr, env: &TypeEnv) -> (r: Result<CheckedExpr, TypeError>)
    requires
        e@.exp is Cast,
    ensures
        forall|x: Option<TypeV>| #![auto] result_view(r) == check_expr(e@, env@, x),
    decreases e, 0nat,
{
    let Expr::Cast { ty, expr } = &e.exp else {
        proof {
            assert(false);
        }
        return fail(String::new());
    };
    match check_type_reference(ty, env, &text("cast target type")) {
        Ok(_) => {},
        Err(err) => return Err(err),
    }
    let ci = match type_check_expr(expr, env, Some(ty)) {
        Ok(c) => c,
        Err(err) => return Err(err),
    };
    if !valid_cast(&ci.ty, ty, &ci) {
        let mut m = text("invalid cast from ");
        push_type_debug(&mut m, &ci.ty);
        m.append(" to ");
        push_type_debug(&mut m, ty);
        return fail(m);
    }
    Ok(ExprD { exp: Expr::Cast { ty: clone_type(ty), expr: Box::new(ci) }, ty: clone_type(ty) })
}

fn check_enum_variant_expr(e: &UncheckedExpr, env: &TypeEnv) -> (r: Result<CheckedExpr, TypeError>)
    requires
        e@.exp is EnumVariant,
    ensures
        forall|x: Option<TypeV>| #![auto] result_view(r) == check_expr(e@, env@, x),
    decreases e, 0nat,
{
    let Expr::EnumVariant { enum_name, variant, payload } = &e.exp else {
        proof {
            assert(false);
        }
        return fail(String::new());
    };
    let cp = match payload {
        Some(p) => match type_check_expr(p, env, None) {
            Ok(c) => Some(Box::new(c)),
            Err(err) => return Err(err),
        },
        None => None,
    };
    match enum_name {
        Some(n) => Ok(
            ExprD {
                exp: Expr::EnumVariant {
                    enum_name: Some(n.clone()),
                    variant: variant.clone(),
                    payload: cp,
                },
                ty: Type::Enum(n.clone()),
            },
        ),
        None => fail(text("enum variant without enum type")),
    }
}

fn check_struct_fields_exec(
    fields: &Vec<(String, Option<UncheckedExpr>)>,
    sname: &String,
    members: &Vec<UDTMember>,
    env: &TypeEnv,
    initial_expected: Vec<String>,
) -> (r: Result<(Vec<(String, Option<CheckedExpr>)>, Vec<String>), TypeError>)
    ensures
        match r {
            Ok((cs, missing)) => check_struct_fields(
                fields_view(fields@),
                sname@,
                members_view(members@),
                env@,
                names_view(initial_expected@),
            ) == Ok::<_, Seq<char>>((fields_view(cs@), names_view(missing@))),
            Err(err) => check_struct_fields(
                fields_view(fields@),
                sname@,
                members_view(members@),
                env@,
                names_view(initial_expected@),
            ) == Err::<(Seq<(Seq<char>, Option<CExprV>)>, Seq<Seq<char>>), _>(err.message@),
        },
    decreases fields, 0nat,
{
    let ghost fv = fields_view(fields@);
    let ghost mv = members_view(members@);
    let ghost ev0 = names_view(initial_expected@);
    let mut expected = initial_expected;
    let mut out: Vec<(String, Option<CheckedExpr>)> = Vec::new();
    let mut i: usize = 0;
    assert(fv.skip(0) =~= fv);
    while i < fields.len()
        invariant
            i <= fields@.len(),
            fv == fields_view(fields@),
            mv == members_view(members@),
            ev0 == names_view(initial_expected@),
            check_struct_fields(fv, sname@, mv, env@, ev0) == match check_struct_fields(
                fv.skip(i as int),
                sname@,
                mv,
                env@,
                names_view(expected@),
            ) {
                Err(m) => Err(m),
                Ok((cs, missing)) => Ok((fields_view(out@) + cs, missing)),
            },
        decreases fields@.len() - i,
    {
        proof {
            assert(decreases_to!(fields => fields@[i as int]));
            assert(fv.skip(i as int)[0] == fv[i as int]);
            assert(fv.skip(i as int).drop_first() =~= fv.skip(i + 1));
        }
        let fname = &fields[i].0;
        let fe = match &fields[i].1 {
            Some(fe) => fe,
            None => {
                let mut m = text("field '");
                m.append(fname.as_str());
                m.append("' in struct ");
                m.append(sname.as_str());
                m.append(" must have a value");
                return fail(m);
            },
        };
        let ft = match find_field_type(members, fname) {
            Some(t) => t,
            None => {
                let mut m = text("unknown field '");
                m.append(fname.as_str());
                m.append("' in struct ");
                m.append(sname.as_str());
                return fail(m);
            },
        };
        let c = match type_check_expr(fe, env, Some(ft)) {
            Ok(c) => c,
            Err(err) => return Err(err),
        };
        if !types_compatible(&c.ty, ft) {
            let mut m = text("field '");
            m.append(fname.as_str());
            m.append("' expects ");
            push_type_debug(&mut m, ft);
            m.append(", got ");
            push_type_debug(&mut m, &c.ty);
            return fail(m);
        }
        if !contains_name(&expected, fname) {
            let mut m = text("duplicate field '");
            m.append(fname.as_str());
            m.append("' in struct ");
            m.append(sname.as_str());
            m.append(" initializer");
            return fail(m);
        }
        expected = without_name(&expected, fname);
        let ghost before = fields_view(out@);
        let ghost entry = (fname@, Some(c@));
        out.push((fname.clone(), Some(c)));
        proof {
            assert(fields_view(out@) =~= before.push(entry));
            assert forall|cs: Seq<(Seq<char>, Option<CExprV>)>| #![auto] before + (seq![entry] + cs)
                == fields_view(out@) + cs by {
                assert(before + (seq![entry] + cs) =~= fields_view(out@) + cs);
            }
        }
        i = i + 1;
    }
    proof {
        assert(fv.skip(i as int) =~= Seq::<(Seq<char>, Option<ExprDV<()>>)>::empty());
        assert(fields_view(out@) + Seq::<(Seq<char>, Option<CExprV>)>::empty() =~= fields_view(
            out@,
        ));
    }
    Ok((out, expected))
}

fn check_struct_init(e: &UncheckedExpr, sname: &String, env: &TypeEnv) -> (r: Result<CheckedExpr, TypeError>)
    requires
        e@.exp is Init,
    ensures
        result_view(r) == check_expr(e@, env@, Some(TypeV::Struct(sname@))),
    decreases e, 0nat,
{
    let Expr::Init { fields } = &e.exp else {
        proof {
            assert(false);
        }
        return fail(String::new());
    };
    proof {
        assert(fields_view(fields@) =~= e@.exp->Init_fields);
    }
    let decl = match env.get_type_decl(UDTKind::Struct, sname) {
        Some(d) => d,
        None => {
            let mut m = text("unknown struct type: ");
            m.append(sname.as_str());
            return fail(m);
        },
    };
    proof {
        assert(decl@.members =~= members_view(decl.members@));
    }
    let expected_fields = member_field_names(&decl.members);
    let (cs, missing) = match check_struct_fields_exec(fields, sname, &decl.members, env, expected_fields) {
        Ok(p) => p,
        Err(err) => return Err(err),
    };
    if missing.len() != 0 {
        let mut m = text("missing fields in struct ");
        m.append(sname.as_str());
        m.append(" initializer: ");
        push_name_list_debug(&mut m, &missing);
        return fail(m);
    }
    let r = ExprD { exp: Expr::Init { fields: cs }, ty: Type::Struct(sname.clone()) };
    proof {
        assert(r@.exp->Init_fields =~= fields_view(cs@));
    }
    Ok(r)
}

fn check_enum_init(e: &UncheckedExpr, ename: &String, env: &TypeEnv) -> (r: Result<CheckedExpr, TypeError>)
    requires
        e@.exp is Init,
    ensures
        result_view(r) == check_expr(e@, env@, Some(TypeV::Enum(ename@))),
    decreases e, 0nat,
{
    let Expr::Init { fields } = &e.exp else {
        proof {
            assert(false);
        }
        return fail(String::new());
    };
    proof {
        assert(fields_view(fields@) =~= e@.exp->Init_fields);
    }
    if fields.len() != 1 {
        let mut m = text("enum init requires exactly one variant, got ");
        push_decimal(&mut m, fields.len());
        return fail(m);
    }
    let variant = &fields[0].0;
    let payload = &fields[0].1;
    let decl = match env.get_type_decl(UDTKind::Enum, ename) {
        Some(d) => d,
        None => {
            let mut m = text("unknown enum type: ");
            m.append(ename.as_str());
            return fail(m);
        },
    };
    proof {
        assert(decl@.members =~= members_view(decl.members@));
    }
    let member_ty = match find_variant_payload(&decl.members, variant) {
        Some(t) => t,
        None => {
            let mut m = text("unknown variant '");
            m.append(variant.as_str());
            m.append("' for enum ");
            m.append(ename.as_str());
            return fail(m);
        },
    };
    match (member_ty, payload) {
        (Some(expected_ty), Some(payload_expr)) => {
            proof {
                assert(decreases_to!(fields => fields@[0]));
            }
            let cp = match type_check_expr(payload_expr, env, Some(expected_ty)) {
                Ok(c) => c,
                Err(err) => return Err(err),
            };
            if !types_compatible(&cp.ty, expected_ty) {
                let mut m = text("variant '");
                m.append(variant.as_str());
                m.append("' expects ");
                push_type_debug(&mut m, expected_ty);
                m.append(" payload, got ");
                push_type_debug(&mut m, &cp.ty);
                return fail(m);
            }
            Ok(
                ExprD {
                    exp: Expr::EnumVariant {
                        enum_name: Some(ename.clone()),
                        variant: variant.clone(),
                        payload: Some(Box::new(cp)),
                    },
                    ty: Type::Enum(ename.clone()),
                },
            )
        },
        (None, None) => Ok(
            ExprD {
                exp: Expr::EnumVariant {
                    enum_name: Some(ename.clone()),
                    variant: variant.clone(),
                    payload: None,
                },
                ty: Type::Enum(ename.clone()),
            },
        ),
        (Some(_), None) => {
            let mut m = text("variant '");
            m.append(variant.as_str());
            m.append("' requires a payload value, use { .");
            m.append(variant.as_str());
            m.append(" = expr }");
            fail(m)
        },
        (None, Some(_)) => {
            let mut m = text("variant '");
            m.append(variant.as_str());
            m.append("' is a unit variant and takes no value");
            fail(m)
        },
    }
}


/// Whether `a` sorts before `b`.
fn string_lt(a: &String, b: &String) -> (r: bool)
    ensures
        r == str_lt(a@, b@),
{
    let sa = a.as_str();
    let sb = b.as_str();
    let na = sa.unicode_len();
    let nb = sb.unicode_len();
    let mut i: usize = 0;
    assert(a@.skip(0) =~= a@);
    assert(b@.skip(0) =~= b@);
    while i < na && i < nb
        invariant
            na == a@.len(),
            nb == b@.len(),
            sa@ == a@,
            sb@ == b@,
            i <= na,
            i <= nb,
            str_lt(a@, b@) == str_lt(a@.skip(i as int), b@.skip(i as int)),
        decreases na - i,
    {
        let ca = sa.get_char(i);
        let cb = sb.get_char(i);
        assert(a@.skip(i as int)[0] == ca);
        assert(b@.skip(i as int)[0] == cb);
        if ca != cb {
            return (ca as u32) < (cb as u32);
        }
        assert(a@.skip(i as int).drop_first() =~= a@.skip(i + 1));
        assert(b@.skip(i as int).drop_first() =~= b@.skip(i + 1));
        i = i + 1;
    }
    i == na && i < nb
}

/// Inserts `x` into `v` before the first name that does not sort before it.
fn insert_sorted_exec(v: &mut Vec<String>, x: String)
    ensures
        names_view(final(v)@) == insert_sorted(names_view(old(v)@), x@),
{
    let ghost nv = names_view(v@);
    let mut k: usize = 0;
    assert(nv.skip(0) =~= nv);
    while k < v.len() && string_lt(&v[k], &x)
        invariant
            k <= v@.len(),
            nv == names_view(v@),
            insert_position(nv, x@) == k + insert_position(nv.skip(k as int), x@),
        decreases v@.len() - k,
    {
        assert(nv.skip(k as int)[0] == nv[k as int]);
        assert(nv.skip(k as int).drop_first() =~= nv.skip(k + 1));
        k = k + 1;
    }
    proof {
        if k < v@.len() {
            assert(nv.skip(k as int)[0] == nv[k as int]);
        }
    }
    let ghost xv = x@;
    v.insert(k, x);
    assert(names_view(v@) =~= nv.take(k as int).push(xv) + nv.skip(k as int));
}

/// `names` sorted.
fn sort_names_exec(names: &Vec<String>) -> (r: Vec<String>)
    ensures
        names_view(r@) == sort_names(names_view(names@)),
{
    let ghost nv = names_view(names@);
    let mut r: Vec<String> = Vec::new();
    let mut i: usize = 0;
    assert(nv.take(0) =~= Seq::<Seq<char>>::empty());
    while i < names.len()
        invariant
            i <= names@.len(),
            nv == names_view(names@),
            names_view(r@) == sort_names(nv.take(i as int)),
        decreases names@.len() - i,
    {
        assert(nv.take(i + 1).drop_last() =~= nv.take(i as int));
        insert_sorted_exec(&mut r, names[i].clone());
        i = i + 1;
    }
    assert(nv.take(names@.len() as int) =~= nv);
    r
}

/// The variant names of `members` that are not in `seen`, each once.
fn unmatched_variants_exec(members: &Vec<UDTMember>, seen: &Vec<String>) -> (r: Vec<String>)
    ensures
        names_view(r@) == unmatched_variants(members_view(members@), names_view(seen@)),
{
    let ghost mv = members_view(members@);
    let mut r: Vec<String> = Vec::new();
    let mut i: usize = 0;
    while i < members.len()
        invariant
            i <= members@.len(),
            mv == members_view(members@),
            names_view(r@) == unmatched_variants(mv.take(i as int), names_view(seen@)),
        decreases members@.len() - i,
    {
        assert(mv.take(i + 1).drop_last() =~= mv.take(i as int));
        if let UDTMember::EnumVariant { name, .. } = &members[i] {
            if !contains_name(&r, name) && !contains_name(seen, name) {
                r.push(name.clone());
                assert(names_view(r@) =~= unmatched_variants(mv.take(i as int), names_view(seen@)).push(
                    name@,
                ));
            }
        }
        i = i + 1;
    }
    assert(mv.take(members@.len() as int) =~= mv);
    r
}


/// `env1` holds every binding of `env0`, in place, and the same declarations.
pub open spec fn extends(env1: TypeEnvV, env0: TypeEnvV) -> bool {
    &&& env1.decls == env0.decls
    &&& env1.bindings.len() >= env0.bindings.len()
    &&& env1.bindings.take(env0.bindings.len() as int) == env0.bindings
}

/// What checking `s` in `env0` gave: the checked statement with the
/// environment `env1` after it, or the error.
pub open spec fn stmt_outcome(
    r: Result<CheckedStmt, TypeError>,
    s: StatementDV<()>,
    env0: TypeEnvV,
    env1: TypeEnvV,
    expected_return: TypeV,
) -> bool {
    match r {
        Ok(c) => check_stmt(s, env0, expected_return) == Ok::<_, Seq<char>>((c@, env1)),
        Err(err) => check_stmt(s, env0, expected_return) == Err::<(CStmtV, TypeEnvV), _>(err.message@),
    }
}

proof fn lemma_prepend_push<A>(before: Seq<A>, x: A, rest: Seq<A>)
    ensures
        before + (seq![x] + rest) == before.push(x) + rest,
{
    assert(before + (seq![x] + rest) =~= before.push(x) + rest);
}

pub open spec fn stmts_view<T: View>(s: Seq<StatementD<T>>) -> Seq<StatementDV<T::V>> {
    Seq::new(s.len(), |i: int| s[i]@)
}

fn unit_stmt(stmt: Statement<Type>) -> (r: CheckedStmt)
    ensures
        r.stmt == stmt,
        r.ty == Type::Unit,
{
    StatementD { stmt, ty: Type::Unit }
}

fn type_check_stmt(s: &UncheckedStmt, env: &mut TypeEnv, expected_return: &Type) -> (r: Result<
    CheckedStmt,
    TypeError,
>)
    ensures
        stmt_outcome(r, s@, old(env)@, final(env)@, expected_return@),
        extends(final(env)@, old(env)@),
        s@.stmt is Block ==> final(env)@ == old(env)@,
    decreases s, 1nat,
{
    match &s.stmt {
        Statement::Decl { .. } => type_check_decl(s, env, expected_return),
        Statement::Assign { .. } => type_check_assign(s, env, expected_return),
        Statement::Block { .. } => type_check_block(s, env, expected_return),
        Statement::Call { .. } => type_check_call_stmt(s, env, expected_return),
        Statement::If { .. } => type_check_if(s, env, expected_return),
        Statement::While { .. } => type_check_while(s, env, expected_return),
        Statement::Return(..) => type_check_return(s, env, expected_return),
        Statement::Match { .. } => type_check_match(s, env, expected_return),
    }
}

pub proof fn lemma_extends_refl(env: TypeEnvV)
    ensures
        extends(env, env),
{
    assert(env.bindings.take(env.bindings.len() as int) =~= env.bindings);
}

pub proof fn lemma_extends_trans(a: TypeEnvV, b: TypeEnvV, c: TypeEnvV)
    requires
        extends(b, a),
        extends(c, b),
    ensures
        extends(c, a),
{
    assert(c.bindings.take(a.bindings.len() as int) =~= b.bindings.take(a.bindings.len() as int));
}

fn type_check_decl(s: &UncheckedStmt, env: &mut TypeEnv, expected_return: &Type) -> (r: Result<
    CheckedStmt,
    TypeError,
>)
    requires
        s@.stmt is Decl,
    ensures
        stmt_outcome(r, s@, old(env)@, final(env)@, expected_return@),
        extends(final(env)@, old(env)@),
    decreases s, 0nat,
{
    proof {
        lemma_extends_refl(env@);
    }
    let Statement::Decl { name, ty, init } = &s.stmt else {
        proof {
            assert(false);
        }
        return fail(String::new());
    };
    if matches!(ty, Type::Unit) {
        return fail(text("cannot declare variable of type void"));
    }
    let mut context = text("declaration of variable '");
    context.append(name.as_str());
    context.append("'");
    match check_type_reference(ty, env, &context) {
        Ok(_) => {},
        Err(err) => return Err(err),
    }
    if env.get(name).is_some() {
        let mut m = text("redeclaration of variable: ");
        m.append(name.as_str());
        return fail(m);
    }
    let ci = match type_check_expr(init, env, Some(ty)) {
        Ok(c) => c,
        Err(err) => return Err(err),
    };
    if !types_compatible(&ci.ty, ty) {
        let mut m = text("declaration of ");
        m.append(name.as_str());
        m.append(": expected ");
        push_type_debug(&mut m, ty);
        m.append(", got ");
        push_type_debug(&mut m, &ci.ty);
        return fail(m);
    }
    let ghost env0 = env@;
    env.declare(name.clone(), clone_type(ty));
    proof {
        assert(env@.bindings.take(env0.bindings.len() as int) =~= env0.bindings);
    }
    Ok(unit_stmt(Statement::Decl { name: name.clone(), ty: clone_type(ty), init: Box::new(ci) }))
}

fn type_check_assign(s: &UncheckedStmt, env: &mut TypeEnv, expected_return: &Type) -> (r: Result<
    CheckedStmt,
    TypeError,
>)
    requires
        s@.stmt is Assign,
    ensures
        stmt_outcome(r, s@, old(env)@, final(env)@, expected_return@),
        extends(final(env)@, old(env)@),
    decreases s, 0nat,
{
    proof {
        lemma_extends_refl(env@);
    }
    let Statement::Assign { target, value } = &s.stmt else {
        proof {
            assert(false);
        }
        return fail(String::new());
    };
    let ct = match type_check_expr(target, env, None) {
        Ok(c) => c,
        Err(err) => return Err(err),
    };
    if !assignable_target(target) {
        return fail(text("invalid assignment target"));
    }
    let cv = match type_check_expr(value, env, Some(&ct.ty)) {
        Ok(c) => c,
        Err(err) => return Err(err),
    };
    if !types_compatible(&cv.ty, &ct.ty) {
        let mut m = text("assignment: expected ");
        push_type_debug(&mut m, &ct.ty);
        m.append(", got ");
        push_type_debug(&mut m, &cv.ty);
        return fail(m);
    }
    Ok(unit_stmt(Statement::Assign { target: Box::new(ct), value: Box::new(cv) }))
}

fn type_check_block(s: &UncheckedStmt, env: &mut TypeEnv, expected_return: &Type) -> (r: Result<
    CheckedStmt,
    TypeError,
>)
    requires
        s@.stmt is Block,
    ensures
        stmt_outcome(r, s@, old(env)@, final(env)@, expected_return@),
        extends(final(env)@, old(env)@),
        final(env)@ == old(env)@,
    decreases s, 0nat,
{
    let Statement::Block { seq } = &s.stmt else {
        proof {
            assert(false);
        }
        return fail(String::new());
    };
    proof {
        assert(stmts_view(seq@) =~= s@.stmt->Block_seq);
    }
    let ghost env0 = env@;
    let mark = env.snapshot();
    let checked = check_stmts_exec(seq, env, expected_return);
    env.restore(mark);
    proof {
        assert(env@.bindings =~= env0.bindings);
        lemma_extends_refl(env0);
    }
    let cs = match checked {
        Ok(cs) => cs,
        Err(err) => return Err(err),
    };
    let r = unit_stmt(Statement::Block { seq: cs });
    proof {
        assert(r@.stmt->Block_seq =~= stmts_view(cs@));
        lemma_extends_refl(env0);
    }
    Ok(r)
}

#[verifier::rlimit(40)]
fn check_stmts_exec(seq: &Vec<UncheckedStmt>, env: &mut TypeEnv, expected_return: &Type) -> (r: Result<
    Vec<CheckedStmt>,
    TypeError,
>)
    ensures
        match r {
            Ok(cs) => check_stmts(stmts_view(seq@), old(env)@, expected_return@) == Ok::<_, Seq<char>>(
                (stmts_view(cs@), final(env)@),
            ),
            Err(err) => check_stmts(stmts_view(seq@), old(env)@, expected_return@) == Err::<
                (Seq<CStmtV>, TypeEnvV),
                _,
            >(err.message@),
        },
        extends(final(env)@, old(env)@),
    decreases seq, 0nat,
{
    let ghost sv = stmts_view(seq@);
    let ghost env0 = env@;
    let mut out: Vec<CheckedStmt> = Vec::new();
    let mut i: usize = 0;
    assert(sv.skip(0) =~= sv);
    proof {
        lemma_extends_refl(env0);
    }
    while i < seq.len()
        invariant
            i <= seq@.len(),
            sv == stmts_view(seq@),
            env0 == old(env)@,
            extends(env@, env0),
            check_stmts(sv, env0, expected_return@) == match check_stmts(
                sv.skip(i as int),
                env@,
                expected_return@,
            ) {
                Err(m) => Err(m),
                Ok((cs, e2)) => Ok((stmts_view(out@) + cs, e2)),
            },
        decreases seq@.len() - i,
    {
        proof {
            assert(decreases_to!(seq => seq@[i as int]));
            assert(sv.skip(i as int)[0] == sv[i as int]);
            assert(sv.skip(i as int).drop_first() =~= sv.skip(i + 1));
        }
        let ghost env_i = env@;
        let c = match type_check_stmt(&seq[i], env, expected_return) {
            Ok(c) => c,
            Err(err) => {
                proof {
                    lemma_extends_trans(env0, env_i, env@);
                }
                return Err(err);
            },
        };
        proof {
            lemma_extends_trans(env0, env_i, env@);
        }
        let ghost before = stmts_view(out@);
        let ghost cv = c@;
        out.push(c);
        proof {
            assert(stmts_view(out@) =~= before.push(cv));
            assert forall|cs: Seq<CStmtV>| #![auto] before + (seq![cv] + cs) == stmts_view(out@) + cs by {
                lemma_prepend_push(before, cv, cs);
            }
        }
        i = i + 1;
    }
    proof {
        assert(sv.skip(i as int) =~= Seq::<StatementDV<()>>::empty());
        assert(stmts_view(out@) + Seq::<CStmtV>::empty() =~= stmts_view(out@));
    }
    Ok(out)
}

fn type_check_call_stmt(s: &UncheckedStmt, env: &mut TypeEnv, expected_return: &Type) -> (r: Result<
    CheckedStmt,
    TypeError,
>)
    requires
        s@.stmt is Call,
    ensures
        stmt_outcome(r, s@, old(env)@, final(env)@, expected_return@),
        extends(final(env)@, old(env)@),
    decreases s, 0nat,
{
    proof {
        lemma_extends_refl(env@);
    }
    let Statement::Call { name, args } = &s.stmt else {
        proof {
            assert(false);
        }
        return fail(String::new());
    };
    let t = match env.get(name) {
        Some(t) => t,
        None => {
            let mut m = text("undefined function: ");
            m.append(name.as_str());
            return fail(m);
        },
    };
    let params = match t {
        Type::Function { params, .. } => params,
        _ => {
            let mut m = text("'");
            m.append(name.as_str());
            m.append("' is not a function");
            return fail(m);
        },
    };
    proof {
        assert(exprs_view(args@) =~= s@.stmt->Call_args);
        assert(t@->params =~= types_view(params@));
    }
    if args.len() != params.len() {
        let mut m = text("function '");
        m.append(name.as_str());
        m.append("' expects ");
        push_decimal(&mut m, params.len());
        m.append(" arguments, got ");
        push_decimal(&mut m, args.len());
        return fail(m);
    }
    let cs = match check_args_exec(args, params, env) {
        Ok(cs) => cs,
        Err(err) => return Err(err),
    };
    match check_call_exec(name, &cs, env) {
        Ok(_) => {},
        Err(err) => return Err(err),
    }
    let r = unit_stmt(Statement::Call { name: name.clone(), args: cs });
    proof {
        assert(r@.stmt->Call_args =~= exprs_view(cs@));
    }
    Ok(r)
}

fn check_call_exec(name: &String, args: &Vec<CheckedExpr>, env: &TypeEnv) -> (r: Result<(), TypeError>)
    ensures
        result_view(r) == check_call(name@, exprs_view(args@), env@),
{
    match env.get(name) {
        Some(Type::Function { params, .. }) => {
            proof {
                assert(types_view(params@) =~= lookup(env@.bindings, name@)->Some_0->params);
            }
            if args.len() != params.len() {
                let mut m = text("function '");
                m.append(name.as_str());
                m.append("' expects ");
                push_decimal(&mut m, params.len());
                m.append(" arguments, got ");
                push_decimal(&mut m, args.len());
                return fail(m);
            }
            check_argument_types_exec(args, params, name)
        },
        Some(_) => {
            let mut m = text("'");
            m.append(name.as_str());
            m.append("' is not a function");
            fail(m)
        },
        None => {
            let mut m = text("undefined function: ");
            m.append(name.as_str());
            fail(m)
        },
    }
}

#[verifier::rlimit(40)]
fn type_check_if(s: &UncheckedStmt, env: &mut TypeEnv, expected_return: &Type) -> (r: Result<
    CheckedStmt,
    TypeError,
>)
    requires
        s@.stmt is If,
    ensures
        stmt_outcome(r, s@, old(env)@, final(env)@, expected_return@),
        extends(final(env)@, old(env)@),
    decreases s, 0nat,
{
    proof {
        lemma_extends_refl(env@);
    }
    let ghost env0 = env@;
    let Statement::If { cond, then_branch, else_branch } = &s.stmt else {
        proof {
            assert(false);
        }
        return fail(String::new());
    };
    let cc = match type_check_expr(cond, env, None) {
        Ok(c) => c,
        Err(err) => return Err(err),
    };
    if !matches!(cc.ty, Type::Bool) {
        let mut m = text("if condition must be Bool, got ");
        push_type_debug(&mut m, &cc.ty);
        return fail(m);
    }
    let ct = match type_check_stmt(then_branch, env, expected_return) {
        Ok(c) => c,
        Err(err) => return Err(err),
    };
    let ghost env1 = env@;
    let ce = match else_branch {
        Some(e) => match type_check_stmt(e, env, expected_return) {
            Ok(c) => Some(Box::new(c)),
            Err(err) => {
                proof {
                    lemma_extends_trans(env0, env1, env@);
                }
                return Err(err);
            },
        },
        None => None,
    };
    proof {
        lemma_extends_refl(env1);
        lemma_extends_trans(env0, env1, env@);
    }
    Ok(unit_stmt(Statement::If { cond: Box::new(cc), then_branch: Box::new(ct), else_branch: ce }))
}

fn type_check_while(s: &UncheckedStmt, env: &mut TypeEnv, expected_return: &Type) -> (r: Result<
    CheckedStmt,
    TypeError,
>)
    requires
        s@.stmt is While,
    ensures
        stmt_outcome(r, s@, old(env)@, final(env)@, expected_return@),
        extends(final(env)@, old(env)@),
    decreases s, 0nat,
{
    proof {
        lemma_extends_refl(env@);
    }
    let Statement::While { cond, body } = &s.stmt else {
        proof {
            assert(false);
        }
        return fail(String::new());
    };
    let cc = match type_check_expr(cond, env, None) {
        Ok(c) => c,
        Err(err) => return Err(err),
    };
    if !matches!(cc.ty, Type::Bool) {
        let mut m = text("while condition must be Bool, got ");
        push_type_debug(&mut m, &cc.ty);
        return fail(m);
    }
    let cb = match type_check_stmt(body, env, expected_return) {
        Ok(c) => c,
        Err(err) => return Err(err),
    };
    Ok(unit_stmt(Statement::While { cond: Box::new(cc), body: Box::new(cb) }))
}

fn type_check_return(s: &UncheckedStmt, env: &mut TypeEnv, expected_return: &Type) -> (r: Result<
    CheckedStmt,
    TypeError,
>)
    requires
        s@.stmt is Return,
    ensures
        stmt_outcome(r, s@, old(env)@, final(env)@, expected_return@),
        extends(final(env)@, old(env)@),
    decreases s, 0nat,
{
    proof {
        lemma_extends_refl(env@);
    }
    let Statement::Return(value) = &s.stmt else {
        proof {
            assert(false);
        }
        return fail(String::new());
    };
    match value {
        None => {
            if !matches!(expected_return, Type::Unit) {
                let mut m = text("non-void function must return a value of type ");
                push_type_debug(&mut m, expected_return);
                return fail(m);
            }
            Ok(unit_stmt(Statement::Return(None)))
        },
        Some(e) => {
            if matches!(expected_return, Type::Unit) {
                return fail(text("void function must not return a value"));
            }
            let ce = match type_check_expr(e, env, Some(expected_return)) {
                Ok(c) => c,
                Err(err) => return Err(err),
            };
            if !types_compatible(&ce.ty, expected_return) {
                let mut m = text("return type mismatch: expected ");
                push_type_debug(&mut m, expected_return);
                m.append(", got ");
                push_type_debug(&mut m, &ce.ty);
                return fail(m);
            }
            Ok(unit_stmt(Statement::Return(Some(Box::new(ce)))))
        },
    }
}

fn type_check_match(s: &UncheckedStmt, env: &mut TypeEnv, expected_return: &Type) -> (r: Result<
    CheckedStmt,
    TypeError,
>)
    requires
        s@.stmt is Match,
    ensures
        stmt_outcome(r, s@, old(env)@, final(env)@, expected_return@),
        extends(final(env)@, old(env)@),
    decreases s, 0nat,
{
    proof {
        lemma_extends_refl(env@);
    }
    let Statement::Match { target, arms } = &s.stmt else {
        proof {
            assert(false);
        }
        return fail(String::new());
    };
    let ct = match type_check_expr(target, env, None) {
        Ok(c) => c,
        Err(err) => return Err(err),
    };
    let ename = match &ct.ty {
        Type::Enum(n) => n.clone(),
        other => {
            let mut m = text("match target must be an enum, got ");
            push_type_debug(&mut m, other);
            return fail(m);
        },
    };
    let decl = match env.get_type_decl(UDTKind::Enum, &ename) {
        Some(d) => clone_decl(d),
        None => {
            let mut m = text("unknown enum type in match: ");
            m.append(ename.as_str());
            return fail(m);
        },
    };
    proof {
        assert(decl@.members =~= members_view(decl.members@));
        assert(arms_view(arms@) =~= s@.stmt->Match_arms);
    }
    let (carms, seen) = match check_arms_exec(arms, env, expected_return, &decl.members, &ename) {
        Ok(p) => p,
        Err(err) => return Err(err),
    };
    let missing = sort_names_exec(&unmatched_variants_exec(&decl.members, &seen));
    if missing.len() != 0 {
        let mut m = text("non-exhaustive match for enum ");
        m.append(ename.as_str());
        m.append(": missing variants ");
        push_name_list_debug(&mut m, &missing);
        return fail(m);
    }
    let r = unit_stmt(Statement::Match { target: Box::new(ct), arms: carms });
    proof {
        assert(r@.stmt->Match_arms =~= arms_view(carms@));
    }
    Ok(r)
}

pub open spec fn arms_view<T: View>(arms: Seq<MatchArm<T>>) -> Seq<MatchArmV<T::V>> {
    Seq::new(
        arms.len(),
        |i: int|
            MatchArmV {
                variant: arms[i].variant@,
                binding: match arms[i].binding {
                    Some(b) => Some(b@),
                    None => None,
                },
                body: Box::new(arms[i].body@),
            },
    )
}

fn check_arms_exec(
    arms: &Vec<MatchArm<()>>,
    env: &mut TypeEnv,
    expected_return: &Type,
    members: &Vec<UDTMember>,
    ename: &String,
) -> (r: Result<(Vec<MatchArm<Type>>, Vec<String>), TypeError>)
    ensures
        match r {
            Ok((cs, seen)) => check_arms(
                arms_view(arms@),
                old(env)@,
                expected_return@,
                members_view(members@),
                ename@,
                Seq::empty(),
            ) == Ok::<_, Seq<char>>((arms_view(cs@), names_view(seen@))) && final(env)@ == old(env)@,
            Err(err) => check_arms(
                arms_view(arms@),
                old(env)@,
                expected_return@,
                members_view(members@),
                ename@,
                Seq::empty(),
            ) == Err::<(Seq<MatchArmV<TypeV>>, Seq<Seq<char>>), _>(err.message@),
        },
        extends(final(env)@, old(env)@),
    decreases arms, 0nat,
{
    let ghost av = arms_view(arms@);
    let ghost mv = members_view(members@);
    let ghost env0 = env@;
    let mut out: Vec<MatchArm<Type>> = Vec::new();
    let mut seen: Vec<String> = Vec::new();
    let mut i: usize = 0;
    assert(av.skip(0) =~= av);
    assert(names_view(seen@) =~= Seq::<Seq<char>>::empty());
    proof {
        lemma_extends_refl(env0);
    }
    while i < arms.len()
        invariant
            i <= arms@.len(),
            av == arms_view(arms@),
            mv == members_view(members@),
            env0 == old(env)@,
            env@ == env0,
            extends(env@, env0),
            check_arms(av, env0, expected_return@, mv, ename@, Seq::empty()) == match check_arms(
                av.skip(i as int),
                env0,
                expected_return@,
                mv,
                ename@,
                names_view(seen@),
            ) {
                Err(m) => Err(m),
                Ok((cs, s2)) => Ok((arms_view(out@) + cs, s2)),
            },
        decreases arms@.len() - i,
    {
        proof {
            assert(decreases_to!(arms => arms@[i as int]));
            assert(av.skip(i as int)[0] == av[i as int]);
            assert(av.skip(i as int).drop_first() =~= av.skip(i + 1));
        }
        let arm = &arms[i];
        if contains_name(&seen, &arm.variant) {
            let mut m = text("duplicate match arm for variant '");
            m.append(arm.variant.as_str());
            m.append("' in enum ");
            m.append(ename.as_str());
            return fail(m);
        }
        let ghost seen_before = names_view(seen@);
        seen.push(arm.variant.clone());
        assert(names_view(seen@) =~= seen_before.push(arm.variant@));
        let payload = match find_variant_payload(members, &arm.variant) {
            Some(p) => p,
            None => {
                let mut m = text("unknown variant '");
                m.append(arm.variant.as_str());
                m.append("' for enum ");
                m.append(ename.as_str());
                return fail(m);
            },
        };
        let mark = env.snapshot();
        match payload {
            Some(pty) => env.declare(arm.variant.clone(), clone_type(pty)),
            None => {},
        }
        let ghost arm_env = env@;
        proof {
            assert(extends(arm_env, env0)) by {
                assert(arm_env.bindings.take(env0.bindings.len() as int) =~= env0.bindings);
            }
        }
        let cb = match type_check_stmt(&arm.body, env, expected_return) {
            Ok(c) => c,
            Err(err) => {
                proof {
                    lemma_extends_trans(env0, arm_env, env@);
                }
                return Err(err);
            },
        };
        proof {
            lemma_extends_trans(env0, arm_env, env@);
        }
        env.restore(mark);
        assert(env@ =~= env0);
        let binding = match payload {
            Some(_) => Some(arm.variant.clone()),
            None => None,
        };
        let ghost before = arms_view(out@);
        let carm = MatchArm { variant: arm.variant.clone(), binding, body: Box::new(cb) };
        let ghost entry = MatchArmV { variant: carm.variant@, binding: match &carm.binding { Some(b) => Some(b@), None => None }, body: Box::new(carm.body@) };
        out.push(carm);
        proof {
            assert(arms_view(out@) =~= before.push(entry));
            assert forall|cs: Seq<MatchArmV<TypeV>>| #![auto] before + (seq![entry] + cs) == arms_view(
                out@,
            ) + cs by {
                lemma_prepend_push(before, entry, cs);
            }
        }
        i = i + 1;
    }
    proof {
        assert(av.skip(i as int) =~= Seq::<MatchArmV<()>>::empty());
        assert(arms_view(out@) + Seq::<MatchArmV<TypeV>>::empty() =~= arms_view(out@));
    }
    Ok((out, seen))
}


fn type_check_fun_decl(f: &UncheckedFunDecl, env: &mut TypeEnv, fn_mark: usize) -> (r: Result<
    CheckedFunDecl,
    TypeError,
>)
    requires
        fn_mark <= old(env)@.bindings.len(),
    ensures
        result_view(r) == check_fun_decl(
            f@,
            TypeEnvV { bindings: old(env)@.bindings.take(fn_mark as int), decls: old(env)@.decls },
        ),
        final(env)@.decls == old(env)@.decls,
        fn_mark <= final(env)@.bindings.len(),
        final(env)@.bindings.take(fn_mark as int) == old(env)@.bindings.take(fn_mark as int),
{
    let ghost fn_env = TypeEnvV {
        bindings: env@.bindings.take(fn_mark as int),
        decls: env@.decls,
    };
    env.restore(fn_mark);
    let ghost pv = f@.params;
    let mut i: usize = 0;
    assert(param_bindings(pv.take(0)) =~= Seq::<(Seq<char>, TypeV)>::empty());
    assert(fn_env.bindings + Seq::<(Seq<char>, TypeV)>::empty() =~= fn_env.bindings);
    while i < f.params.len()
        invariant
            i <= f.params@.len(),
            pv == f@.params,
            pv.len() == f.params@.len(),
            env@.decls == fn_env.decls,
            env@.bindings == fn_env.bindings + param_bindings(pv.take(i as int)),
            fn_env.bindings.len() == fn_mark,
        decreases f.params@.len() - i,
    {
        let ghost before = env@.bindings;
        env.declare(f.params[i].name.clone(), clone_type(&f.params[i].ty));
        proof {
            assert(pv[i as int] == f.params@[i as int]@);
            assert(param_bindings(pv.take(i + 1)) =~= param_bindings(pv.take(i as int)).push(
                (pv[i as int].name, pv[i as int].ty),
            ));
            assert(env@.bindings =~= fn_env.bindings + param_bindings(pv.take(i + 1)));
        }
        i = i + 1;
    }
    assert(pv.take(f.params@.len() as int) =~= pv);
    let ghost body_env = env@;
    assert(body_env.bindings.take(fn_mark as int) =~= fn_env.bindings);
    let body = match type_check_stmt(&f.body, env, &f.return_type) {
        Ok(b) => b,
        Err(err) => {
            proof {
                assert(env@.bindings.take(fn_mark as int) =~= body_env.bindings.take(fn_mark as int));
            }
            return Err(err);
        },
    };
    proof {
        assert(env@.bindings.take(fn_mark as int) =~= body_env.bindings.take(fn_mark as int));
    }
    let r = FunDecl {
        name: f.name.clone(),
        params: clone_params(&f.params),
        return_type: clone_type(&f.return_type),
        body: Box::new(body),
    };
    proof {
        assert(r@.params =~= f@.params);
    }
    Ok(r)
}

/// The type of a function with the signature of `f`.
fn signature_type_of(f: &UncheckedFunDecl) -> (r: Type)
    ensures
        r@ == signature_type(f@),
{
    let mut params: Vec<Type> = Vec::new();
    let mut i: usize = 0;
    while i < f.params.len()
        invariant
            i <= f.params@.len(),
            params@.len() == i,
            forall|j: int| 0 <= j < i ==> #[trigger] params@[j]@ == f.params@[j].ty@,
        decreases f.params@.len() - i,
    {
        params.push(clone_type(&f.params[i].ty));
        i = i + 1;
    }
    let ghost pv = params@;
    let r = Type::Function { params, return_type: Box::new(clone_type(&f.return_type)) };
    proof {
        let got = r@->params;
        let want = signature_type(f@)->params;
        assert(got.len() == pv.len());
        assert(want.len() == f@.params.len());
        assert forall|j: int| 0 <= j < pv.len() implies got[j] == want[j] by {
            assert(got[j] == pv[j]@);
            assert(pv[j]@ == f.params@[j].ty@);
            assert(f@.params[j] == f.params@[j]@);
            assert(want[j] == f@.params[j].ty);
        }
        assert(got =~= want);
    }
    r
}

fn check_type_decls_unique_exec(decls: &Vec<UDTDecl>) -> (r: Result<(), TypeError>)
    ensures
        result_view(r) == check_type_decls_unique(Seq::new(decls@.len(), |i: int| decls@[i]@), 0),
{
    let ghost dv = Seq::new(decls@.len(), |i: int| decls@[i]@);
    let mut j: usize = 0;
    while j < decls.len()
        invariant
            j <= decls@.len(),
            dv == Seq::new(decls@.len(), |i: int| decls@[i]@),
            check_type_decls_unique(dv, 0) == check_type_decls_unique(dv, j as nat),
        decreases decls@.len() - j,
    {
        let mut i: usize = 0;
        while i < j
            invariant
                i <= j < decls@.len(),
                dv == Seq::new(decls@.len(), |i: int| decls@[i]@),
                check_type_decls_unique(dv, 0) == check_type_decls_unique(dv, j as nat),
                forall|k: int| 0 <= k < i ==> !#[trigger] same_decl_key(dv, k, j as int),
            decreases j - i,
        {
            if decls[i].specifier == decls[j].specifier && decls[i].identifier == decls[j].identifier {
                assert(same_decl_key(dv, i as int, j as int));
                let mut m = text("duplicate type declaration: ");
                match decls[j].specifier {
                    UDTKind::Struct => m.append("Struct"),
                    UDTKind::Enum => m.append("Enum"),
                }
                m.append(" ");
                m.append(decls[j].identifier.as_str());
                assert(m@ == "duplicate type declaration: "@ + kind_debug(dv[j as int].specifier) + " "@
                    + dv[j as int].identifier);
                assert(check_type_decls_unique(dv, j as nat) == Err::<(), Seq<char>>(m@));
                return fail(m);
            }
            i = i + 1;
        }
        j = j + 1;
    }
    Ok(())
}

fn validate_members_exec(d: &UDTDecl, env: &TypeEnv) -> (r: Result<(), TypeError>)
    ensures
        result_view(r) == validate_members(d@, env@.decls, 0),
{
    let mut k: usize = 0;
    while k < d.members.len()
        invariant
            k <= d.members@.len(),
            validate_members(d@, env@.decls, 0) == validate_members(d@, env@.decls, k as nat),
        decreases d.members@.len() - k,
    {
        match &d.members[k] {
            UDTMember::Field(field) => {
                let mut context = text("field '");
                context.append(d.identifier.as_str());
                context.append(".");
                context.append(field.name.as_str());
                context.append("'");
                match check_type_reference(&field.ty, env, &context) {
                    Ok(_) => {},
                    Err(err) => return Err(err),
                }
            },
            UDTMember::EnumVariant { name, ty: Some(ty) } => {
                let mut context = text("payload for variant '");
                context.append(d.identifier.as_str());
                context.append(".");
                context.append(name.as_str());
                context.append("'");
                match check_type_reference(ty, env, &context) {
                    Ok(_) => {},
                    Err(err) => return Err(err),
                }
            },
            UDTMember::EnumVariant { ty: None, .. } => {},
        }
        k = k + 1;
    }
    Ok(())
}

fn validate_params_exec(f: &UncheckedFunDecl, env: &TypeEnv) -> (r: Result<(), TypeError>)
    ensures
        result_view(r) == validate_params(f@, env@.decls, 0),
{
    let mut k: usize = 0;
    while k < f.params.len()
        invariant
            k <= f.params@.len(),
            validate_params(f@, env@.decls, 0) == validate_params(f@, env@.decls, k as nat),
        decreases f.params@.len() - k,
    {
        let mut context = text("parameter '");
        context.append(f.params[k].name.as_str());
        context.append("' of function '");
        context.append(f.name.as_str());
        context.append("'");
        match check_type_reference(&f.params[k].ty, env, &context) {
            Ok(_) => {},
            Err(err) => return Err(err),
        }
        k = k + 1;
    }
    Ok(())
}

fn validate_program_type_references_exec(program: &UncheckedProgram, env: &TypeEnv) -> (r: Result<
    (),
    TypeError,
>)
    requires
        env@.decls == program@.type_declarations,
    ensures
        result_view(r) == validate_program_type_references(program@),
{
    let ghost dv = program@.type_declarations;
    let ghost fv = program@.functions;
    let mut i: usize = 0;
    while i < program.type_declarations.len()
        invariant
            i <= program.type_declarations@.len(),
            dv == program@.type_declarations,
            env@.decls == dv,
            validate_decls(dv, 0) == validate_decls(dv, i as nat),
        decreases program.type_declarations@.len() - i,
    {
        match validate_members_exec(&program.type_declarations[i], env) {
            Ok(_) => {},
            Err(err) => return Err(err),
        }
        i = i + 1;
    }
    let mut i: usize = 0;
    while i < program.functions.len()
        invariant
            i <= program.functions@.len(),
            dv == program@.type_declarations,
            fv == program@.functions,
            env@.decls == dv,
            validate_decls(dv, 0) == Ok::<(), Seq<char>>(()),
            validate_functions(fv, dv, 0) == validate_functions(fv, dv, i as nat),
        decreases program.functions@.len() - i,
    {
        let f = &program.functions[i];
        let mut context = text("return type of function '");
        context.append(f.name.as_str());
        context.append("'");
        match check_type_reference(&f.return_type, env, &context) {
            Ok(_) => {},
            Err(err) => return Err(err),
        }
        match validate_params_exec(f, env) {
            Ok(_) => {},
            Err(err) => return Err(err),
        }
        i = i + 1;
    }
    Ok(())
}

/// The type of the standard library's `print`.
fn print_signature() -> (t: Type)
    ensures
        t@ == (TypeV::Function { params: seq![TypeV::Any], return_type: Box::new(TypeV::Unit) }),
{
    let mut params: Vec<Type> = Vec::new();
    params.push(Type::Any);
    assert(params@.len() == 1);
    assert(params@[0]@ == TypeV::Any);
    let unit = Type::Unit;
    assert(unit@ == TypeV::Unit);
    let t = Type::Function { params, return_type: Box::new(unit) };
    assert(t@->params =~= seq![TypeV::Any]);
    assert(t@->return_type == Box::new(TypeV::Unit));
    t
}

fn declare_functions(program: &UncheckedProgram, env: &mut TypeEnv)
    requires
        old(env)@.bindings == native_bindings(),
    ensures
        final(env)@.bindings == native_bindings() + function_bindings(program@.functions),
        final(env)@.decls == old(env)@.decls,
{
    let ghost fv = program@.functions;
    let ghost dv = env@.decls;
    let mut i: usize = 0;
    assert(function_bindings(fv.take(0)) =~= Seq::<(Seq<char>, TypeV)>::empty());
    while i < program.functions.len()
        invariant
            i <= program.functions@.len(),
            fv == program@.functions,
            env@.decls == dv,
            env@.bindings == native_bindings() + function_bindings(fv.take(i as int)),
        decreases program.functions@.len() - i,
    {
        let f = &program.functions[i];
        let t = signature_type_of(f);
        env.declare(f.name.clone(), t);
        proof {
            assert(fv[i as int] == f@);
            assert(function_bindings(fv.take(i + 1)) =~= function_bindings(fv.take(i as int)).push(
                (fv[i as int].name, signature_type(fv[i as int])),
            ));
            assert(env@.bindings =~= native_bindings() + function_bindings(fv.take(i + 1)));
        }
        i = i + 1;
    }
    assert(fv.take(program.functions@.len() as int) =~= fv);
}

#[verifier::rlimit(80)]
fn check_functions(program: &UncheckedProgram, env: &mut TypeEnv, fn_mark: usize) -> (r: Result<
    Vec<CheckedFunDecl>,
    TypeError,
>)
    requires
        fn_mark <= old(env)@.bindings.len(),
        old(env)@.decls == program@.type_declarations,
        old(env)@.bindings.take(fn_mark as int) == function_env(program@).bindings,
    ensures
        match r {
            Ok(fs) => check_fun_decls(program@.functions, function_env(program@)) == Ok::<_, Seq<char>>(
                Seq::new(fs@.len(), |k: int| fs@[k]@),
            ),
            Err(err) => check_fun_decls(program@.functions, function_env(program@)) == Err::<
                Seq<FunDeclV<TypeV>>,
                _,
            >(err.message@),
        },
{
    let ghost fv = program@.functions;
    let ghost dv = program@.type_declarations;
    let ghost fn_env = function_env(program@);
    let mut functions: Vec<CheckedFunDecl> = Vec::new();
    let mut i: usize = 0;
    assert(fv.skip(0) =~= fv);
    while i < program.functions.len()
        invariant
            i <= program.functions@.len(),
            fv == program@.functions,
            dv == program@.type_declarations,
            fn_env == function_env(program@),
            env@.decls == dv,
            fn_mark <= env@.bindings.len(),
            env@.bindings.take(fn_mark as int) == fn_env.bindings,
            check_fun_decls(fv, fn_env) == match check_fun_decls(fv.skip(i as int), fn_env) {
                Err(m) => Err(m),
                Ok(cs) => Ok(Seq::new(functions@.len(), |k: int| functions@[k]@) + cs),
            },
        decreases program.functions@.len() - i,
    {
        proof {
            assert(fv.skip(i as int)[0] == fv[i as int]);
            assert(fv.skip(i as int).drop_first() =~= fv.skip(i + 1));
        }
        let c = match type_check_fun_decl(&program.functions[i], env, fn_mark) {
            Ok(c) => c,
            Err(err) => return Err(err),
        };
        let ghost before = Seq::new(functions@.len(), |k: int| functions@[k]@);
        let ghost cv = c@;
        functions.push(c);
        proof {
            assert(Seq::new(functions@.len(), |k: int| functions@[k]@) =~= before.push(cv));
            assert forall|cs: Seq<FunDeclV<TypeV>>| #![auto] before + (seq![cv] + cs) == Seq::new(
                functions@.len(),
                |k: int| functions@[k]@,
            ) + cs by {
                lemma_prepend_push(before, cv, cs);
            }
        }
        i = i + 1;
    }
    proof {
        assert(fv.skip(i as int) =~= Seq::<FunDeclV<()>>::empty());
    }
    proof {
        assert(Seq::new(functions@.len(), |k: int| functions@[k]@) + Seq::<FunDeclV<TypeV>>::empty()
            =~= Seq::new(functions@.len(), |k: int| functions@[k]@));
    }
    Ok(functions)
}

/// Type-checks a program. Returns `Ok(CheckedProgram)` if it is well typed,
/// and otherwise `Err(TypeError)` for the first violation. Requires a `main`
/// function with signature `void main()`.
#[verifier::rlimit(80)]
pub fn type_check(program: &UncheckedProgram) -> (r: Result<CheckedProgram, TypeError>)
    ensures
        result_view(r) == type_check_spec(program@),
{
    match check_type_decls_unique_exec(&program.type_declarations) {
        Ok(_) => {},
        Err(err) => return Err(err),
    }
    let ghost dv = program@.type_declarations;
    let ghost fv = program@.functions;
    let mut env = TypeEnv::with_type_decls(clone_decls(&program.type_declarations));
    assert(env@.decls =~= dv);
    match validate_program_type_references_exec(program, &env) {
        Ok(_) => {},
        Err(err) => return Err(err),
    }
    match program.main_function() {
        None => return fail(text("program must have a main function")),
        Some(f) => {
            if !matches!(f.return_type, Type::Unit) {
                return fail(text("main function must return void"));
            }
            if f.params.len() != 0 {
                return fail(text("main function must have no parameters"));
            }
        },
    }
    let print_type = print_signature();
    assert(print_type@ == native_bindings()[0].1);
    env.declare(text("print"), print_type);
    assert(env@.bindings =~= native_bindings());
    declare_functions(program, &mut env);
    let fn_mark = env.snapshot();
    let ghost fn_env = function_env(program@);
    assert(env@.bindings.take(fn_mark as int) =~= fn_env.bindings);
    let functions = match check_functions(program, &mut env, fn_mark) {
        Ok(fs) => fs,
        Err(err) => return Err(err),
    };
    let r = Program { type_declarations: clone_decls(&program.type_declarations), functions };
    proof {
        assert(r@.type_declarations =~= dv);
        assert(r@.functions =~= Seq::new(functions@.len(), |k: int| functions@[k]@));
    }
    Ok(r)
}

} // verus!
