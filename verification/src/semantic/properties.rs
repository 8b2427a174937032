//! Properties of the typing rules that hold of every program.
use vstd::prelude::*;
use crate::ir::ast::{
    main_index, CExprV, ExprV, FunDeclV, MatchArmV, StatementV, TypeV, UDTDeclV, UDTKind, UDTMemberV, UExprV, UProgramV,
    UStmtV,
};
use crate::semantic::environment::{find_decl, lookup};
use crate::semantic::environment::TypeEnvV;
use crate::semantic::rules::{
    check_args, check_argument_types, check_type_decls_unique, same_decl_key, validate_decls,
    validate_functions, validate_members, validate_params, validate_type_reference,
    validate_type_references, check_arms, check_expr, check_fun_decl, variant_payload, check_fun_decls, check_main, check_stmt, compatible, declare, function_env,
    type_check_spec,
};
use crate::semantic::type_checker::{extends, lemma_extends_refl, lemma_extends_trans};

verus! {

/// Whether a function type occurs anywhere in `t`.
pub open spec fn mentions_function(t: TypeV) -> bool
    decreases t,
{
    match t {
        TypeV::Function { .. } => true,
        TypeV::Array(x) => mentions_function(*x),
        _ => false,
    }
}

/// Anything may be passed where `Any` is expected.
pub proof fn law_any_accepts_everything(t: TypeV)
    ensures
        compatible(t, TypeV::Any),
{
}

/// `Int` and `Float` convert into each other.
pub proof fn law_numbers_convert()
    ensures
        compatible(TypeV::Int, TypeV::Float),
        compatible(TypeV::Float, TypeV::Int),
{
}

/// Every type that mentions no function type is compatible with itself.
/// (A function type is compatible with nothing but `Any`.)
pub proof fn law_compatible_reflexive(t: TypeV)
    requires
        !mentions_function(t),
    ensures
        compatible(t, t),
    decreases t,
{
    if let TypeV::Array(x) = t {
        law_compatible_reflexive(*x);
    }
}

/// Checking a statement keeps the type declarations and every binding in
/// scope before it: it can only add bindings after them.
pub proof fn law_statement_extends_scope(s: UStmtV, env: TypeEnvV, expected_return: TypeV)
    requires
        check_stmt(s, env, expected_return) is Ok,
    ensures
        check_stmt(s, env, expected_return) matches Ok((_, env1)) && extends(env1, env),
    decreases s,
{
    lemma_extends_refl(env);
    match s.stmt {
        StatementV::Decl { name, ty, .. } => {
            let env1 = declare(env, name, ty);
            assert(env1.bindings.take(env.bindings.len() as int) =~= env.bindings);
        },
        StatementV::If { cond, then_branch, else_branch } => {
            law_statement_extends_scope(*then_branch, env, expected_return);
            if let Some(e) = else_branch {
                if let Ok((_, env1)) = check_stmt(*then_branch, env, expected_return) {
                    law_statement_extends_scope(*e, env1, expected_return);
                    if let Ok((_, env2)) = check_stmt(*e, env1, expected_return) {
                        lemma_extends_trans(env, env1, env2);
                    }
                }
            }
        },
        StatementV::While { body, .. } => {
            law_statement_extends_scope(*body, env, expected_return);
        },
        _ => {},
    }
}

/// A block and a match leave the environment exactly as they found it: what
/// a block declares, and the payload binding of a match arm, end with them.
pub proof fn law_block_and_match_scope(s: UStmtV, env: TypeEnvV, expected_return: TypeV)
    requires
        s.stmt is Block || s.stmt is Match,
        check_stmt(s, env, expected_return) is Ok,
    ensures
        check_stmt(s, env, expected_return) matches Ok((_, env1)) && env1 == env,
{
}

/// A program that type-checks has a `main` function that returns `void`
/// and takes no parameters.
pub proof fn law_checked_program_has_main(p: UProgramV)
    requires
        type_check_spec(p) is Ok,
    ensures
        main_index(p.functions) matches Some(i) && p.functions[i as int].return_type == TypeV::Unit
            && p.functions[i as int].params.len() == 0,
{
    assert(check_main(p.functions) is Ok);
}

proof fn lemma_fun_decls_keep_signatures(fs: Seq<FunDeclV<()>>, fn_env: TypeEnvV)
    requires
        check_fun_decls(fs, fn_env) is Ok,
    ensures
        check_fun_decls(fs, fn_env) matches Ok(cs) && cs.len() == fs.len() && forall|i: int|
            0 <= i < fs.len() ==> {
                &&& #[trigger] cs[i].name == fs[i].name
                &&& cs[i].params == fs[i].params
                &&& cs[i].return_type == fs[i].return_type
            },
    decreases fs.len(),
{
    if fs.len() > 0 {
        lemma_fun_decls_keep_signatures(fs.drop_first(), fn_env);
        let c = check_fun_decl(fs[0], fn_env)->Ok_0;
        let cs = check_fun_decls(fs.drop_first(), fn_env)->Ok_0;
        assert forall|i: int| 0 < i < fs.len() implies (seq![c] + cs)[i].name == fs[i].name by {
            assert(fs.drop_first()[i - 1] == fs[i]);
        }
    }
}

proof fn lemma_main_index_names<A, B>(fs: Seq<FunDeclV<A>>, gs: Seq<FunDeclV<B>>)
    requires
        fs.len() == gs.len(),
        forall|i: int| 0 <= i < fs.len() ==> #[trigger] fs[i].name == gs[i].name,
    ensures
        main_index(fs) == main_index(gs),
    decreases fs.len(),
{
    if fs.len() > 0 {
        assert forall|i: int| 0 <= i < fs.len() - 1 implies #[trigger] fs.drop_first()[i].name
            == gs.drop_first()[i].name by {
            assert(fs[i + 1].name == gs[i + 1].name);
        }
        lemma_main_index_names(fs.drop_first(), gs.drop_first());
    }
}

/// Type checking keeps the type declarations and, function by function,
/// each name, parameter list and return type; so the checked program's
/// `main` is found where the unchecked program's was.
pub proof fn law_checked_program_keeps_signatures(p: UProgramV)
    requires
        type_check_spec(p) is Ok,
    ensures
        type_check_spec(p) matches Ok(c) && {
            &&& c.type_declarations == p.type_declarations
            &&& c.functions.len() == p.functions.len()
            &&& forall|i: int|
                0 <= i < p.functions.len() ==> {
                    &&& #[trigger] c.functions[i].name == p.functions[i].name
                    &&& c.functions[i].params == p.functions[i].params
                    &&& c.functions[i].return_type == p.functions[i].return_type
                }
            &&& main_index(c.functions) == main_index(p.functions)
        },
{
    lemma_fun_decls_keep_signatures(p.functions, function_env(p));
    let c = type_check_spec(p)->Ok_0;
    lemma_main_index_names(c.functions, p.functions);
}

/// The type the context expects matters only for an initializer `{ ... }`
/// at the top of the expression: any other expression checks the same
/// whatever is expected (a cast gives its operand its own target type, and a
/// call argument its parameter type).
pub proof fn law_expected_type_only_for_initializers(
    e: UExprV,
    env: TypeEnvV,
    x: Option<TypeV>,
    y: Option<TypeV>,
)
    requires
        !(e.exp is Init),
    ensures
        check_expr(e, env, x) == check_expr(e, env, y),
{
}

/// A function body is checked in the scope of the functions (the first
/// `mark` bindings) and its parameters alone: whatever else an environment
/// binds after them, for instance the variables of a function checked
/// before, does not change the outcome. A checked function keeps its name,
/// parameters and return type.
pub proof fn law_function_check_ignores_other_bindings(
    f: FunDeclV<()>,
    env1: TypeEnvV,
    env2: TypeEnvV,
    mark: nat,
)
    requires
        mark <= env1.bindings.len(),
        mark <= env2.bindings.len(),
        env1.bindings.take(mark as int) == env2.bindings.take(mark as int),
        env1.decls == env2.decls,
    ensures
        check_fun_decl(f, TypeEnvV { bindings: env1.bindings.take(mark as int), decls: env1.decls })
            == check_fun_decl(f, TypeEnvV { bindings: env2.bindings.take(mark as int), decls: env2.decls }),
        check_fun_decl(f, TypeEnvV { bindings: env1.bindings.take(mark as int), decls: env1.decls })
            matches Ok(d) ==> d.name == f.name && d.params == f.params && d.return_type == f.return_type,
{
}

/// Unary minus accepts exactly the numbers: `-e` checks, whatever type the
/// context expects, exactly when `e` checks with type `Int` or `Float`, and
/// then has `e`'s type.
pub proof fn law_negation_keeps_numeric_type(e: UExprV, env: TypeEnvV, expected: Option<TypeV>)
    requires
        e.exp is Neg,
    ensures
        check_expr(e, env, expected) matches Ok(c) ==> {
            &&& c.ty is Int || c.ty is Float
            &&& check_expr(*e.exp->Neg_0, env, None) matches Ok(ci) && ci.ty == c.ty
        },
        check_expr(*e.exp->Neg_0, env, None) matches Ok(ci) ==> ((ci.ty is Int || ci.ty is Float) ==> (
        check_expr(e, env, expected) matches Ok(c) && c.ty == ci.ty)),
{
}

proof fn lemma_argument_types_fit(args: Seq<CExprV>, params: Seq<TypeV>, name: Seq<char>, i: nat)
    requires
        check_argument_types(args, params, name, i) is Ok,
    ensures
        forall|j: int| i <= j < args.len() ==> compatible(#[trigger] args[j].ty, params[j]),
    decreases args.len() - i,
{
    if i < args.len() {
        lemma_argument_types_fit(args, params, name, i + 1);
    }
}

proof fn lemma_check_args_len(args: Seq<UExprV>, params: Seq<TypeV>, env: TypeEnvV)
    requires
        check_args(args, params, env) is Ok,
    ensures
        check_args(args, params, env) matches Ok(cs) && cs.len() == args.len(),
    decreases args.len(),
{
    if args.len() > 0 {
        lemma_check_args_len(args.drop_first(), params.drop_first(), env);
    }
}

/// A call that checks names a function in scope, passes as many arguments
/// as it has parameters, each of a type that fits the parameter at its
/// position, and has the function's return type.
pub proof fn law_call_arguments_fit(e: UExprV, env: TypeEnvV, expected: Option<TypeV>)
    requires
        e.exp is Call,
        check_expr(e, env, expected) is Ok,
    ensures
        check_expr(e, env, expected) matches Ok(c) && lookup(env.bindings, e.exp->Call_name) matches Some(
            TypeV::Function { params, return_type },
        ) && c.exp matches ExprV::Call { name, args } && {
            &&& name == e.exp->Call_name
            &&& args.len() == params.len()
            &&& args.len() == e.exp->Call_args.len()
            &&& forall|i: int| 0 <= i < args.len() ==> compatible(#[trigger] args[i].ty, params[i])
            &&& c.ty == *return_type
        },
{
    let name = e.exp->Call_name;
    let args = e.exp->Call_args;
    let params = lookup(env.bindings, name)->Some_0->Function_params;
    lemma_check_args_len(args, params, env);
    let cs = check_args(args, params, env)->Ok_0;
    lemma_argument_types_fit(cs, params, name, 0);
}

/// A call statement that checks calls a function in scope with as many
/// arguments as it has parameters, each of a type that fits the parameter at
/// its position; it leaves the scope as it was.
pub proof fn law_call_statement_arguments_fit(s: UStmtV, env: TypeEnvV, expected_return: TypeV)
    requires
        s.stmt is Call,
        check_stmt(s, env, expected_return) is Ok,
    ensures
        check_stmt(s, env, expected_return) matches Ok((c, env1)) && lookup(
            env.bindings,
            s.stmt->Call_name,
        ) matches Some(TypeV::Function { params, .. }) && c.stmt matches StatementV::Call { name, args } && {
            &&& env1 == env
            &&& name == s.stmt->Call_name
            &&& args.len() == params.len()
            &&& forall|i: int| 0 <= i < args.len() ==> compatible(#[trigger] args[i].ty, params[i])
        },
{
    let name = s.stmt->Call_name;
    let args = s.stmt->Call_args;
    let params = lookup(env.bindings, name)->Some_0->Function_params;
    lemma_check_args_len(args, params, env);
    let cs = check_args(args, params, env)->Ok_0;
    lemma_argument_types_fit(cs, params, name, 0);
}

/// The latest binding of a name is the one that counts.
pub proof fn law_latest_binding_counts(bindings: Seq<(Seq<char>, TypeV)>, name: Seq<char>, t: TypeV)
    ensures
        lookup(bindings.push((name, t)), name) == Some(t),
{
    assert(bindings.push((name, t)).last() == (name, t));
}

/// Each arm of a match is checked in the scope of the match extended by one
/// binding: for a variant with payload type `t`, the variant's name bound to
/// `t` (so that in the arm the name has type `t`); for a unit variant,
/// nothing. The checked arm keeps its variant, names the binding, and its
/// body is the body checked in that scope.
pub proof fn law_match_arm_scope(
    arms: Seq<MatchArmV<()>>,
    env: TypeEnvV,
    expected_return: TypeV,
    members: Seq<UDTMemberV>,
    ename: Seq<char>,
    seen: Seq<Seq<char>>,
)
    requires
        check_arms(arms, env, expected_return, members, ename, seen) is Ok,
    ensures
        check_arms(arms, env, expected_return, members, ename, seen) matches Ok((carms, _)) && {
            &&& carms.len() == arms.len()
            &&& forall|i: int|
                0 <= i < arms.len() ==> {
                    let v = arms[i].variant;
                    &&& (#[trigger] carms[i]).variant == v
                    &&& variant_payload(members, v) matches Some(pt) && match pt {
                        Some(t) => {
                            let arm_env = TypeEnvV { bindings: env.bindings.push((v, t)), decls: env.decls };
                            &&& lookup(arm_env.bindings, v) == Some(t)
                            &&& carms[i].binding == Some(v)
                            &&& check_stmt(*arms[i].body, arm_env, expected_return) matches Ok((cb, _))
                                && *carms[i].body == cb
                        },
                        None => {
                            &&& carms[i].binding is None
                            &&& check_stmt(*arms[i].body, env, expected_return) matches Ok((cb, _))
                                && *carms[i].body == cb
                        },
                    }
                }
        },
    decreases arms.len(),
{
    if arms.len() > 0 {
        let v = arms[0].variant;
        law_match_arm_scope(arms.drop_first(), env, expected_return, members, ename, seen.push(v));
        let (carms, _) = check_arms(arms, env, expected_return, members, ename, seen)->Ok_0;
        let (rest, _) = check_arms(arms.drop_first(), env, expected_return, members, ename, seen.push(v))->Ok_0;
        assert forall|i: int| 1 <= i < arms.len() implies carms[i] == rest[i - 1] && arms[i] == arms.drop_first()[i - 1] by {
        }
        if let Some(Some(t)) = variant_payload(members, v) {
            law_latest_binding_counts(env.bindings, v, t);
        }
    }
}

proof fn lemma_decls_unique_from(decls: Seq<UDTDeclV>, j: nat)
    ensures
        check_type_decls_unique(decls, j) is Ok <==> forall|i: int, k: int|
            0 <= i < k < decls.len() && j <= k ==> !(#[trigger] decls[i].specifier == #[trigger] decls[k].specifier
                && decls[i].identifier == decls[k].identifier),
    decreases decls.len() - j,
{
    if j < decls.len() {
        lemma_decls_unique_from(decls, j + 1);
        if exists|i: int| 0 <= i < j && #[trigger] same_decl_key(decls, i, j as int) {
            let i = choose|i: int| 0 <= i < j && #[trigger] same_decl_key(decls, i, j as int);
            assert(decls[i].specifier == decls[j as int].specifier);
        } else {
            assert forall|i: int| 0 <= i < j implies !(#[trigger] decls[i].specifier == decls[j as int].specifier
                && decls[i].identifier == decls[j as int].identifier) by {
                assert(!same_decl_key(decls, i, j as int));
            }
            if check_type_decls_unique(decls, j + 1) is Ok {
                assert forall|i: int, k: int|
                    0 <= i < k < decls.len() && j <= k implies !(#[trigger] decls[i].specifier
                    == #[trigger] decls[k].specifier && decls[i].identifier == decls[k].identifier) by {
                    if k == j {
                        assert(!(decls[i].specifier == decls[j as int].specifier
                            && decls[i].identifier == decls[j as int].identifier));
                    }
                }
            }
        }
    }
}

/// The type declarations pass exactly when no two of them have the same
/// kind and the same name (a struct and an enum may share a name).
pub proof fn law_declarations_unique(decls: Seq<UDTDeclV>)
    ensures
        check_type_decls_unique(decls, 0) is Ok <==> forall|i: int, k: int|
            0 <= i < k < decls.len() ==> !(#[trigger] decls[i].specifier == #[trigger] decls[k].specifier
                && decls[i].identifier == decls[k].identifier),
{
    lemma_decls_unique_from(decls, 0);
}

/// Whether every struct and enum type named anywhere in `t` is declared.
pub open spec fn names_declared_types(t: TypeV, decls: Seq<UDTDeclV>) -> bool
    decreases t,
{
    match t {
        TypeV::Array(x) => names_declared_types(*x, decls),
        TypeV::Struct(n) => find_decl(decls, UDTKind::Struct, n) is Some,
        TypeV::Enum(n) => find_decl(decls, UDTKind::Enum, n) is Some,
        TypeV::Function { params, return_type } => (forall|k: int|
            0 <= k < params.len() ==> names_declared_types(#[trigger] params[k], decls)) && names_declared_types(
            *return_type,
            decls,
        ),
        _ => true,
    }
}

proof fn lemma_validate_type(t: TypeV, decls: Seq<UDTDeclV>, context: Seq<char>)
    ensures
        validate_type_reference(t, decls, context) is Ok <==> names_declared_types(t, decls),
    decreases t, 1nat,
{
    match t {
        TypeV::Array(x) => lemma_validate_type(*x, decls, context),
        TypeV::Function { params, return_type } => {
            lemma_validate_types(params, decls, context);
            lemma_validate_type(*return_type, decls, context);
        },
        _ => {},
    }
}

proof fn lemma_validate_types(ts: Seq<TypeV>, decls: Seq<UDTDeclV>, context: Seq<char>)
    ensures
        validate_type_references(ts, decls, context) is Ok <==> forall|k: int|
            0 <= k < ts.len() ==> names_declared_types(#[trigger] ts[k], decls),
    decreases ts, 0nat,
{
    if ts.len() > 0 {
        lemma_validate_type(ts[0], decls, context);
        lemma_validate_types(ts.drop_first(), decls, context);
        assert forall|k: int| 1 <= k < ts.len() implies #[trigger] ts[k] == ts.drop_first()[k - 1] by {}
        if forall|k: int| 0 <= k < ts.drop_first().len() ==> names_declared_types(#[trigger] ts.drop_first()[k], decls) {
            if names_declared_types(ts[0], decls) {
                assert forall|k: int| 0 <= k < ts.len() implies names_declared_types(#[trigger] ts[k], decls) by {
                    if k > 0 {
                        assert(ts[k] == ts.drop_first()[k - 1]);
                    }
                }
            }
        }
    }
}

proof fn lemma_validate_members(d: UDTDeclV, decls: Seq<UDTDeclV>, k: nat)
    requires
        validate_members(d, decls, k) is Ok,
    ensures
        forall|m: int|
            k <= m < d.members.len() ==> match #[trigger] d.members[m] {
                UDTMemberV::Field { ty, .. } => names_declared_types(ty, decls),
                UDTMemberV::EnumVariant { ty: Some(ty), .. } => names_declared_types(ty, decls),
                _ => true,
            },
    decreases d.members.len() - k,
{
    if k < d.members.len() {
        match d.members[k as int] {
            UDTMemberV::Field { name, ty } => lemma_validate_type(
                ty,
                decls,
                "field '"@ + d.identifier + "."@ + name + "'"@,
            ),
            UDTMemberV::EnumVariant { name, ty: Some(ty) } => lemma_validate_type(
                ty,
                decls,
                "payload for variant '"@ + d.identifier + "."@ + name + "'"@,
            ),
            _ => {},
        }
        lemma_validate_members(d, decls, k + 1);
    }
}

proof fn lemma_validate_decls(decls: Seq<UDTDeclV>, i: nat)
    requires
        validate_decls(decls, i) is Ok,
    ensures
        forall|j: int, m: int|
            i <= j < decls.len() && 0 <= m < decls[j].members.len() ==> match #[trigger] decls[j].members[m] {
                UDTMemberV::Field { ty, .. } => names_declared_types(ty, decls),
                UDTMemberV::EnumVariant { ty: Some(ty), .. } => names_declared_types(ty, decls),
                _ => true,
            },
    decreases decls.len() - i,
{
    if i < decls.len() {
        lemma_validate_members(decls[i as int], decls, 0);
        lemma_validate_decls(decls, i + 1);
    }
}

proof fn lemma_validate_params(f: FunDeclV<()>, decls: Seq<UDTDeclV>, k: nat)
    requires
        validate_params(f, decls, k) is Ok,
    ensures
        forall|m: int| k <= m < f.params.len() ==> names_declared_types((#[trigger] f.params[m]).ty, decls),
    decreases f.params.len() - k,
{
    if k < f.params.len() {
        lemma_validate_type(
            f.params[k as int].ty,
            decls,
            "parameter '"@ + f.params[k as int].name + "' of function '"@ + f.name + "'"@,
        );
        lemma_validate_params(f, decls, k + 1);
    }
}

proof fn lemma_validate_functions(fs: Seq<FunDeclV<()>>, decls: Seq<UDTDeclV>, i: nat)
    requires
        validate_functions(fs, decls, i) is Ok,
    ensures
        forall|j: int|
            i <= j < fs.len() ==> {
                &&& names_declared_types((#[trigger] fs[j]).return_type, decls)
                &&& forall|m: int| 0 <= m < fs[j].params.len() ==> names_declared_types(
                    (#[trigger] fs[j].params[m]).ty,
                    decls,
                )
            },
    decreases fs.len() - i,
{
    if i < fs.len() {
        lemma_validate_type(fs[i as int].return_type, decls, "return type of function '"@ + fs[i as int].name + "'"@);
        lemma_validate_params(fs[i as int], decls, 0);
        lemma_validate_functions(fs, decls, i + 1);
    }
}

/// In a program that type-checks, every struct and enum type named by a
/// field, a variant's payload, a parameter or a return type is declared.
pub proof fn law_checked_program_declares_its_types(p: UProgramV)
    requires
        type_check_spec(p) is Ok,
    ensures
        forall|j: int, m: int|
            0 <= j < p.type_declarations.len() && 0 <= m < p.type_declarations[j].members.len()
                ==> match #[trigger] p.type_declarations[j].members[m] {
                UDTMemberV::Field { ty, .. } => names_declared_types(ty, p.type_declarations),
                UDTMemberV::EnumVariant { ty: Some(ty), .. } => names_declared_types(ty, p.type_declarations),
                _ => true,
            },
        forall|j: int|
            0 <= j < p.functions.len() ==> {
                &&& names_declared_types((#[trigger] p.functions[j]).return_type, p.type_declarations)
                &&& forall|m: int| 0 <= m < p.functions[j].params.len() ==> names_declared_types(
                    (#[trigger] p.functions[j].params[m]).ty,
                    p.type_declarations,
                )
            },
{
    lemma_validate_decls(p.type_declarations, 0);
    lemma_validate_functions(p.functions, p.type_declarations, 0);
}

} // verus!
