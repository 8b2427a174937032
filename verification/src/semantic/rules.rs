//! The typing rules of MiniC, as spec functions over the views of the syntax
//! tree. `type_check` computes exactly what these functions define: either the
//! annotated program or the message of the first rule that the program breaks.
use vstd::prelude::*;
use crate::ir::ast::{
    type_debug, main_index, CExprV, CProgramV, CStmtV, ExprDV, ExprV, FunDeclV, LiteralV,
    MatchArmV, ParamV, ProgramV, StatementDV, StatementV, TypeV, UDTDeclV, UDTKind, UDTMemberV,
    UExprV, UProgramV, UStmtV,
};
use crate::semantic::environment::{find_decl, lookup, TypeEnvV};
use crate::text::{decimal, quoted};

verus! {

/// How `{:?}` writes a declaration kind.
pub open spec fn kind_debug(k: UDTKind) -> Seq<char> {
    match k {
        UDTKind::Struct => "Struct"@,
        UDTKind::Enum => "Enum"@,
    }
}

/// The names of `names`, each as a string literal, separated by `", "`.
pub open spec fn quoted_list(names: Seq<Seq<char>>) -> Seq<char>
    decreases names.len(),
{
    if names.len() == 0 {
        Seq::empty()
    } else if names.len() == 1 {
        quoted(names[0])
    } else {
        quoted_list(names.drop_last()) + ", "@ + quoted(names.last())
    }
}

/// How `{:?}` writes a list of strings.
pub open spec fn name_list_debug(names: Seq<Seq<char>>) -> Seq<char> {
    "["@ + quoted_list(names) + "]"@
}

/// Whether a value of type `a` may be used where type `b` is expected:
/// anything fits `Any`, `Int` and `Float` convert into each other, arrays
/// follow their element types, and a struct or enum only fits itself.
pub open spec fn compatible(a: TypeV, b: TypeV) -> bool
    decreases a,
{
    if b is Any {
        true
    } else {
        match a {
            TypeV::Int => b is Int || b is Float,
            TypeV::Float => b is Int || b is Float,
            TypeV::Bool => b is Bool,
            TypeV::Str => b is Str,
            TypeV::Unit => b is Unit,
            TypeV::Array(x) => match b {
                TypeV::Array(y) => compatible(*x, *y),
                _ => false,
            },
            TypeV::Struct(x) => b == TypeV::Struct(x),
            TypeV::Enum(x) => b == TypeV::Enum(x),
            _ => false,
        }
    }
}

pub open spec fn is_numeric(t: TypeV) -> bool {
    t is Int || t is Float
}

/// The type of an arithmetic operation on operands of types `l` and `r`.
pub open spec fn numeric_binop_result(l: TypeV, r: TypeV) -> Result<TypeV, Seq<char>> {
    if l is Int && r is Int {
        Ok(TypeV::Int)
    } else if is_numeric(l) && is_numeric(r) {
        Ok(TypeV::Float)
    } else {
        Err("arithmetic operands must be Int or Float"@)
    }
}

pub open spec fn literal_type(l: LiteralV) -> TypeV {
    match l {
        LiteralV::Int(_) => TypeV::Int,
        LiteralV::Float(_) => TypeV::Float,
        LiteralV::Str(_) => TypeV::Str,
        LiteralV::Bool(_) => TypeV::Bool,
    }
}

/// Whether a checked expression `e` of type `from` may be cast to `to`: the
/// same type, a numeric conversion, or an initializer of a struct or an
/// enum variant cast to a struct or an enum type.
pub open spec fn is_valid_cast(from: TypeV, to: TypeV, e: ExprV<TypeV>) -> bool {
    from == to || (from is Int && to is Float) || (from is Float && to is Int) || (to is Struct
        && e is Init) || (to is Enum && e is EnumVariant)
}

/// Whether `e` denotes a place that can be assigned to: a variable, or an
/// index or member access on such a place.
pub open spec fn is_assignable_target(e: ExprV<()>) -> bool
    decreases e,
{
    match e {
        ExprV::Ident(_) => true,
        ExprV::Index { base, .. } => is_assignable_target(base.exp),
        ExprV::Member { base, .. } => is_assignable_target(base.exp),
        _ => false,
    }
}

/// Whether every struct and enum named in `t` is declared.
pub open spec fn validate_type_reference(t: TypeV, decls: Seq<UDTDeclV>, context: Seq<char>)
    -> Result<(), Seq<char>>
    decreases t,
{
    match t {
        TypeV::Array(inner) => validate_type_reference(*inner, decls, context),
        TypeV::Struct(name) => if find_decl(decls, UDTKind::Struct, name) is Some {
            Ok(())
        } else {
            Err("unknown struct type '"@ + name + "' in "@ + context)
        },
        TypeV::Enum(name) => if find_decl(decls, UDTKind::Enum, name) is Some {
            Ok(())
        } else {
            Err("unknown enum type '"@ + name + "' in "@ + context)
        },
        TypeV::Function { params, return_type } => match validate_type_references(
            params,
            decls,
            context,
        ) {
            Err(m) => Err(m),
            Ok(_) => validate_type_reference(*return_type, decls, context),
        },
        _ => Ok(()),
    }
}

pub open spec fn validate_type_references(ts: Seq<TypeV>, decls: Seq<UDTDeclV>, context: Seq<char>)
    -> Result<(), Seq<char>>
    decreases ts,
{
    if ts.len() == 0 {
        Ok(())
    } else {
        match validate_type_reference(ts[0], decls, context) {
            Err(m) => Err(m),
            Ok(_) => validate_type_references(ts.drop_first(), decls, context),
        }
    }
}

/// The type of the first field named `name` among `members`.
pub open spec fn field_type(members: Seq<UDTMemberV>, name: Seq<char>) -> Option<TypeV>
    decreases members.len(),
{
    if members.len() == 0 {
        None
    } else {
        match members[0] {
            UDTMemberV::Field { name: n, ty } if n == name => Some(ty),
            _ => field_type(members.drop_first(), name),
        }
    }
}

/// The payload type of the first variant named `name` among `members`
/// (`Some(None)` for a unit variant, `None` if there is no such variant).
pub open spec fn variant_payload(members: Seq<UDTMemberV>, name: Seq<char>) -> Option<Option<TypeV>>
    decreases members.len(),
{
    if members.len() == 0 {
        None
    } else {
        match members[0] {
            UDTMemberV::EnumVariant { name: n, ty } if n == name => Some(ty),
            _ => variant_payload(members.drop_first(), name),
        }
    }
}

/// The field names of `members`, each once, in the order of their first
/// declaration.
pub open spec fn field_names(members: Seq<UDTMemberV>) -> Seq<Seq<char>>
    decreases members.len(),
{
    if members.len() == 0 {
        Seq::empty()
    } else {
        let rest = field_names(members.drop_last());
        match members.last() {
            UDTMemberV::Field { name, .. } => if rest.contains(name) {
                rest
            } else {
                rest.push(name)
            },
            _ => rest,
        }
    }
}

/// The variant names of `members` that are not in `seen`, each once, in the
/// order of their first declaration.
pub open spec fn unmatched_variants(members: Seq<UDTMemberV>, seen: Seq<Seq<char>>) -> Seq<Seq<char>>
    decreases members.len(),
{
    if members.len() == 0 {
        Seq::empty()
    } else {
        let rest = unmatched_variants(members.drop_last(), seen);
        match members.last() {
            UDTMemberV::EnumVariant { name, .. } => if rest.contains(name) || seen.contains(name) {
                rest
            } else {
                rest.push(name)
            },
            _ => rest,
        }
    }
}

/// `names` without `name`.
pub open spec fn remove_name(names: Seq<Seq<char>>, name: Seq<char>) -> Seq<Seq<char>>
    decreases names.len(),
{
    if names.len() == 0 {
        Seq::empty()
    } else {
        let rest = remove_name(names.drop_last(), name);
        if names.last() == name {
            rest
        } else {
            rest.push(names.last())
        }
    }
}

/// Whether `a` sorts before `b` (character by character, as `String` does).
pub open spec fn str_lt(a: Seq<char>, b: Seq<char>) -> bool
    decreases a.len(),
{
    if a.len() == 0 {
        b.len() > 0
    } else if b.len() == 0 {
        false
    } else if a[0] != b[0] {
        (a[0] as u32) < (b[0] as u32)
    } else {
        str_lt(a.drop_first(), b.drop_first())
    }
}

/// How many leading names of `s` sort before `x`.
pub open spec fn insert_position(s: Seq<Seq<char>>, x: Seq<char>) -> nat
    decreases s.len(),
{
    if s.len() == 0 {
        0
    } else if str_lt(s[0], x) {
        1 + insert_position(s.drop_first(), x)
    } else {
        0
    }
}

pub open spec fn insert_sorted(s: Seq<Seq<char>>, x: Seq<char>) -> Seq<Seq<char>> {
    let k = insert_position(s, x) as int;
    s.take(k).push(x) + s.skip(k)
}

/// `s` sorted by insertion.
pub open spec fn sort_names(s: Seq<Seq<char>>) -> Seq<Seq<char>>
    decreases s.len(),
{
    if s.len() == 0 {
        Seq::empty()
    } else {
        insert_sorted(sort_names(s.drop_last()), s.last())
    }
}

/// The environment extended by a binding of `name` to `t`.
pub open spec fn declare(env: TypeEnvV, name: Seq<char>, t: TypeV) -> TypeEnvV {
    TypeEnvV { bindings: env.bindings.push((name, t)), decls: env.decls }
}

pub open spec fn mk(exp: ExprV<TypeV>, ty: TypeV) -> CExprV {
    ExprDV { exp, ty }
}

/// Checks each argument against its parameter type: the first incompatible
/// one (numbered from `i + 1`) is reported.
pub open spec fn check_argument_types(
    args: Seq<CExprV>,
    params: Seq<TypeV>,
    name: Seq<char>,
    i: nat,
) -> Result<(), Seq<char>>
    decreases args.len() - i,
{
    if i >= args.len() {
        Ok(())
    } else if !compatible(args[i as int].ty, params[i as int]) {
        Err(
            "argument "@ + decimal(i + 1) + " to "@ + name + ": expected "@ + type_debug(
                params[i as int],
            ) + ", got "@ + type_debug(args[i as int].ty),
        )
    } else {
        check_argument_types(args, params, name, i + 1)
    }
}

/// Checks that all elements after the first are compatible with `first`.
pub open spec fn check_elements_agree(elems: Seq<CExprV>, first: TypeV, i: nat) -> bool
    decreases elems.len() - i,
{
    if i >= elems.len() {
        true
    } else {
        compatible(elems[i as int].ty, first) && check_elements_agree(elems, first, i + 1)
    }
}

/// The message that an unexpected initializer gets, when the expected type
/// is neither a struct nor an enum.
pub open spec fn init_misuse(expected: Option<TypeV>) -> Seq<char> {
    match expected {
        Some(t) => "struct/enum init used with non-struct, non-enum type "@ + type_debug(t),
        None => "struct/enum init used outside of variable declaration"@,
    }
}

/// The type of an expression, and the expression with every node annotated
/// with its type; or the message of the first rule it breaks. `expected` is
/// the type the context asks for: it gives an initializer `{ ... }` its type.
pub open spec fn check_expr(e: UExprV, env: TypeEnvV, expected: Option<TypeV>) -> Result<CExprV, Seq<char>>
    decreases e,
{
    match e.exp {
        ExprV::Literal(l) => Ok(mk(ExprV::Literal(l), literal_type(l))),
        ExprV::Ident(name) => match lookup(env.bindings, name) {
            Some(TypeV::Function { .. }) => Err(
                "cannot use function '"@ + name + "' as a value"@,
            ),
            Some(t) => Ok(mk(ExprV::Ident(name), t)),
            None => Err("undeclared variable: "@ + name),
        },
        ExprV::Neg(inner) => match check_expr(*inner, env, None) {
            Err(m) => Err(m),
            Ok(c) => if is_numeric(c.ty) {
                Ok(mk(ExprV::Neg(Box::new(c)), c.ty))
            } else {
                Err("unary minus requires Int or Float"@)
            },
        },
        ExprV::Add(l, r) => check_arith(check_expr(*l, env, None), check_expr(*r, env, None), 0),
        ExprV::Sub(l, r) => check_arith(check_expr(*l, env, None), check_expr(*r, env, None), 1),
        ExprV::Mul(l, r) => check_arith(check_expr(*l, env, None), check_expr(*r, env, None), 2),
        ExprV::Div(l, r) => check_arith(check_expr(*l, env, None), check_expr(*r, env, None), 3),
        ExprV::Eq(l, r) => check_equality(check_expr(*l, env, None), check_expr(*r, env, None), true),
        ExprV::Ne(l, r) => check_equality(check_expr(*l, env, None), check_expr(*r, env, None), false),
        ExprV::Lt(l, r) => check_ordering(check_expr(*l, env, None), check_expr(*r, env, None), 0),
        ExprV::Le(l, r) => check_ordering(check_expr(*l, env, None), check_expr(*r, env, None), 1),
        ExprV::Gt(l, r) => check_ordering(check_expr(*l, env, None), check_expr(*r, env, None), 2),
        ExprV::Ge(l, r) => check_ordering(check_expr(*l, env, None), check_expr(*r, env, None), 3),
        ExprV::Not(inner) => match check_expr(*inner, env, None) {
            Err(m) => Err(m),
            Ok(c) => if c.ty is Bool {
                Ok(mk(ExprV::Not(Box::new(c)), TypeV::Bool))
            } else {
                Err("not requires Bool operand"@)
            },
        },
        ExprV::And(l, r) => check_logic(check_expr(*l, env, None), check_expr(*r, env, None), true),
        ExprV::Or(l, r) => check_logic(check_expr(*l, env, None), check_expr(*r, env, None), false),
        ExprV::Call { name, args } => match lookup(env.bindings, name) {
            Some(TypeV::Function { params, return_type }) => if args.len() != params.len() {
                Err(
                    "function '"@ + name + "' expects "@ + decimal(params.len()) + " arguments, got "@
                        + decimal(args.len()),
                )
            } else {
                match check_args(args, params, env) {
                    Err(m) => Err(m),
                    Ok(cs) => match check_argument_types(cs, params, name, 0) {
                        Err(m) => Err(m),
                        Ok(_) => Ok(mk(ExprV::Call { name, args: cs }, *return_type)),
                    },
                }
            },
            Some(_) => Err("'"@ + name + "' is not a function"@),
            None => Err("undefined function: "@ + name),
        },
        ExprV::ArrayLit(elems) => if elems.len() == 0 {
            Err("empty array literal needs type annotation"@)
        } else {
            match check_elems(elems, env) {
                Err(m) => Err(m),
                Ok(cs) => if check_elements_agree(cs, cs[0].ty, 1) {
                    Ok(mk(ExprV::ArrayLit(cs), TypeV::Array(Box::new(cs[0].ty))))
                } else {
                    Err("array elements must have same type"@)
                },
            }
        },
        ExprV::Index { base, index } => match check_expr(*index, env, None) {
            Err(m) => Err(m),
            Ok(ci) => if !(ci.ty is Int) {
                Err("array index must be Int"@)
            } else {
                match check_expr(*base, env, None) {
                    Err(m) => Err(m),
                    Ok(cb) => match cb.ty {
                        TypeV::Array(elem) => Ok(
                            mk(ExprV::Index { base: Box::new(cb), index: Box::new(ci) }, *elem),
                        ),
                        _ => Err("indexed expression must be array"@),
                    },
                }
            },
        },
        ExprV::Member { base, member } => match check_expr(*base, env, None) {
            Err(m) => Err(m),
            Ok(cb) => match cb.ty {
                TypeV::Struct(id) => match find_decl(env.decls, UDTKind::Struct, id) {
                    None => Err("unknown struct type in member access: "@ + id),
                    Some(d) => match field_type(d.members, member) {
                        None => Err("unknown member '"@ + member + "' on struct "@ + id),
                        Some(ft) => Ok(mk(ExprV::Member { base: Box::new(cb), member }, ft)),
                    },
                },
                TypeV::Enum(id) => Err(
                    "cannot access enum variants directly, use match for '"@ + id + "'"@,
                ),
                other => Err("member access requires struct base type, got "@ + type_debug(other)),
            },
        },
        ExprV::Init { fields } => match expected {
            Some(TypeV::Struct(sname)) => match find_decl(env.decls, UDTKind::Struct, sname) {
                None => Err("unknown struct type: "@ + sname),
                Some(d) => match check_struct_fields(fields, sname, d.members, env, field_names(d.members)) {
                    Err(m) => Err(m),
                    Ok((cs, missing)) => if missing.len() != 0 {
                        Err(
                            "missing fields in struct "@ + sname + " initializer: "@ + name_list_debug(
                                missing,
                            ),
                        )
                    } else {
                        Ok(mk(ExprV::Init { fields: cs }, TypeV::Struct(sname)))
                    },
                },
            },
            Some(TypeV::Enum(ename)) => if fields.len() != 1 {
                Err("enum init requires exactly one variant, got "@ + decimal(fields.len()))
            } else {
                match find_decl(env.decls, UDTKind::Enum, ename) {
                    None => Err("unknown enum type: "@ + ename),
                    Some(d) => {
                        let variant = fields[0].0;
                        match variant_payload(d.members, variant) {
                            None => Err("unknown variant '"@ + variant + "' for enum "@ + ename),
                            Some(Some(pt)) => match fields[0].1 {
                                Some(pe) => match check_expr(pe, env, Some(pt)) {
                                    Err(m) => Err(m),
                                    Ok(cp) => if compatible(cp.ty, pt) {
                                        Ok(
                                            mk(
                                                ExprV::EnumVariant {
                                                    enum_name: Some(ename),
                                                    variant,
                                                    payload: Some(Box::new(cp)),
                                                },
                                                TypeV::Enum(ename),
                                            ),
                                        )
                                    } else {
                                        Err(
                                            "variant '"@ + variant + "' expects "@ + type_debug(pt)
                                                + " payload, got "@ + type_debug(cp.ty),
                                        )
                                    },
                                },
                                None => Err(
                                    "variant '"@ + variant + "' requires a payload value, use { ."@
                                        + variant + " = expr }"@,
                                ),
                            },
                            Some(None) => match fields[0].1 {
                                None => Ok(
                                    mk(
                                        ExprV::EnumVariant {
                                            enum_name: Some(ename),
                                            variant,
                                            payload: None,
                                        },
                                        TypeV::Enum(ename),
                                    ),
                                ),
                                Some(_) => Err(
                                    "variant '"@ + variant + "' is a unit variant and takes no value"@,
                                ),
                            },
                        }
                    },
                }
            },
            _ => Err(init_misuse(expected)),
        },
        ExprV::Cast { ty, expr } => match validate_type_reference(ty, env.decls, "cast target type"@) {
            Err(m) => Err(m),
            Ok(_) => match check_expr(*expr, env, Some(ty)) {
                Err(m) => Err(m),
                Ok(ci) => if is_valid_cast(ci.ty, ty, ci.exp) {
                    Ok(mk(ExprV::Cast { ty, expr: Box::new(ci) }, ty))
                } else {
                    Err("invalid cast from "@ + type_debug(ci.ty) + " to "@ + type_debug(ty))
                },
            },
        },
        ExprV::EnumVariant { enum_name, variant, payload } => {
            let cp = match payload {
                Some(p) => match check_expr(*p, env, None) {
                    Err(m) => Err(m),
                    Ok(c) => Ok(Some(Box::new(c))),
                },
                None => Ok(None),
            };
            match cp {
                Err(m) => Err(m),
                Ok(cp) => match enum_name {
                    Some(n) => Ok(
                        mk(ExprV::EnumVariant { enum_name, variant, payload: cp }, TypeV::Enum(n)),
                    ),
                    None => Err("enum variant without enum type"@),
                },
            }
        },
    }
}

/// Checks each argument with the type of its parameter expected.
pub open spec fn check_args(args: Seq<UExprV>, params: Seq<TypeV>, env: TypeEnvV) -> Result<
    Seq<CExprV>,
    Seq<char>,
>
    decreases args,
{
    if args.len() == 0 {
        Ok(Seq::empty())
    } else {
        match check_expr(args[0], env, Some(params[0])) {
            Err(m) => Err(m),
            Ok(c) => match check_args(args.drop_first(), params.drop_first(), env) {
                Err(m) => Err(m),
                Ok(cs) => Ok(seq![c] + cs),
            },
        }
    }
}

/// Checks each element with no type expected.
pub open spec fn check_elems(elems: Seq<UExprV>, env: TypeEnvV) -> Result<Seq<CExprV>, Seq<char>>
    decreases elems,
{
    if elems.len() == 0 {
        Ok(Seq::empty())
    } else {
        match check_expr(elems[0], env, None) {
            Err(m) => Err(m),
            Ok(c) => match check_elems(elems.drop_first(), env) {
                Err(m) => Err(m),
                Ok(cs) => Ok(seq![c] + cs),
            },
        }
    }
}

/// Checks the fields of an initializer of struct `sname` with members
/// `members`; `expected` holds the field names not yet given. Returns the
/// checked fields and the field names still missing.
pub open spec fn check_struct_fields(
    fields: Seq<(Seq<char>, Option<UExprV>)>,
    sname: Seq<char>,
    members: Seq<UDTMemberV>,
    env: TypeEnvV,
    expected: Seq<Seq<char>>,
) -> Result<(Seq<(Seq<char>, Option<CExprV>)>, Seq<Seq<char>>), Seq<char>>
    decreases fields,
{
    if fields.len() == 0 {
        Ok((Seq::empty(), expected))
    } else {
        let fname = fields[0].0;
        match fields[0].1 {
            None => Err("field '"@ + fname + "' in struct "@ + sname + " must have a value"@),
            Some(fe) => match field_type(members, fname) {
                None => Err("unknown field '"@ + fname + "' in struct "@ + sname),
                Some(ft) => match check_expr(fe, env, Some(ft)) {
                    Err(m) => Err(m),
                    Ok(c) => if !compatible(c.ty, ft) {
                        Err(
                            "field '"@ + fname + "' expects "@ + type_debug(ft) + ", got "@
                                + type_debug(c.ty),
                        )
                    } else if !expected.contains(fname) {
                        Err(
                            "duplicate field '"@ + fname + "' in struct "@ + sname
                                + " initializer"@,
                        )
                    } else {
                        match check_struct_fields(
                            fields.drop_first(),
                            sname,
                            members,
                            env,
                            remove_name(expected, fname),
                        ) {
                            Err(m) => Err(m),
                            Ok((cs, missing)) => Ok((seq![(fname, Some(c))] + cs, missing)),
                        }
                    },
                },
            },
        }
    }
}

/// An arithmetic operation (`op`: 0 add, 1 subtract, 2 multiply, 3 divide)
/// on checked operands.
pub open spec fn check_arith(
    l: Result<CExprV, Seq<char>>,
    r: Result<CExprV, Seq<char>>,
    op: int,
) -> Result<CExprV, Seq<char>> {
    match l {
        Err(m) => Err(m),
        Ok(l) => match r {
            Err(m) => Err(m),
            Ok(r) => match numeric_binop_result(l.ty, r.ty) {
                Err(m) => Err(m),
                Ok(t) => {
                    let (a, b) = (Box::new(l), Box::new(r));
                    Ok(
                        mk(
                            if op == 0 {
                                ExprV::Add(a, b)
                            } else if op == 1 {
                                ExprV::Sub(a, b)
                            } else if op == 2 {
                                ExprV::Mul(a, b)
                            } else {
                                ExprV::Div(a, b)
                            },
                            t,
                        ),
                    )
                },
            },
        },
    }
}

/// An equality (`eq`) or inequality test on checked operands.
pub open spec fn check_equality(
    l: Result<CExprV, Seq<char>>,
    r: Result<CExprV, Seq<char>>,
    eq: bool,
) -> Result<CExprV, Seq<char>> {
    match l {
        Err(m) => Err(m),
        Ok(l) => match r {
            Err(m) => Err(m),
            Ok(r) => if !compatible(l.ty, r.ty) {
                Err(
                    "equality operands must have compatible types, got "@ + type_debug(l.ty)
                        + " and "@ + type_debug(r.ty),
                )
            } else {
                let (a, b) = (Box::new(l), Box::new(r));
                Ok(mk(if eq { ExprV::Eq(a, b) } else { ExprV::Ne(a, b) }, TypeV::Bool))
            },
        },
    }
}

/// An ordering comparison (`op`: 0 `<`, 1 `<=`, 2 `>`, 3 `>=`) on checked
/// operands.
pub open spec fn check_ordering(
    l: Result<CExprV, Seq<char>>,
    r: Result<CExprV, Seq<char>>,
    op: int,
) -> Result<CExprV, Seq<char>> {
    match l {
        Err(m) => Err(m),
        Ok(l) => match r {
            Err(m) => Err(m),
            Ok(r) => if !is_numeric(l.ty) || !is_numeric(r.ty) {
                Err(
                    "ordering comparison requires numeric operands, got "@ + type_debug(l.ty)
                        + " and "@ + type_debug(r.ty),
                )
            } else {
                let (a, b) = (Box::new(l), Box::new(r));
                Ok(
                    mk(
                        if op == 0 {
                            ExprV::Lt(a, b)
                        } else if op == 1 {
                            ExprV::Le(a, b)
                        } else if op == 2 {
                            ExprV::Gt(a, b)
                        } else {
                            ExprV::Ge(a, b)
                        },
                        TypeV::Bool,
                    ),
                )
            },
        },
    }
}

/// A conjunction (`and`) or disjunction on checked operands.
pub open spec fn check_logic(
    l: Result<CExprV, Seq<char>>,
    r: Result<CExprV, Seq<char>>,
    and: bool,
) -> Result<CExprV, Seq<char>> {
    match l {
        Err(m) => Err(m),
        Ok(l) => match r {
            Err(m) => Err(m),
            Ok(r) => if !(l.ty is Bool) || !(r.ty is Bool) {
                Err("and/or require Bool operands"@)
            } else {
                let (a, b) = (Box::new(l), Box::new(r));
                Ok(mk(if and { ExprV::And(a, b) } else { ExprV::Or(a, b) }, TypeV::Bool))
            },
        },
    }
}


/// The argument check that a call statement makes once its arguments are
/// checked: the callee must still be a function of as many parameters, and
/// each argument must fit its parameter.
pub open spec fn check_call(name: Seq<char>, args: Seq<CExprV>, env: TypeEnvV) -> Result<(), Seq<char>> {
    match lookup(env.bindings, name) {
        Some(TypeV::Function { params, .. }) => if args.len() != params.len() {
            Err(
                "function '"@ + name + "' expects "@ + decimal(params.len()) + " arguments, got "@
                    + decimal(args.len()),
            )
        } else {
            check_argument_types(args, params, name, 0)
        },
        Some(_) => Err("'"@ + name + "' is not a function"@),
        None => Err("undefined function: "@ + name),
    }
}

pub open spec fn mk_stmt(stmt: StatementV<TypeV>) -> CStmtV {
    StatementDV { stmt, ty: TypeV::Unit }
}

/// The checked statement and the environment after it; or the message of
/// the first rule the statement breaks. `expected_return` is the return
/// type of the enclosing function.
pub open spec fn check_stmt(s: UStmtV, env: TypeEnvV, expected_return: TypeV) -> Result<
    (CStmtV, TypeEnvV),
    Seq<char>,
>
    decreases s,
{
    match s.stmt {
        StatementV::Decl { name, ty, init } => if ty is Unit {
            Err("cannot declare variable of type void"@)
        } else {
            match validate_type_reference(ty, env.decls, "declaration of variable '"@ + name + "'"@) {
                Err(m) => Err(m),
                Ok(_) => if lookup(env.bindings, name) is Some {
                    Err("redeclaration of variable: "@ + name)
                } else {
                    match check_expr(*init, env, Some(ty)) {
                        Err(m) => Err(m),
                        Ok(ci) => if !compatible(ci.ty, ty) {
                            Err(
                                "declaration of "@ + name + ": expected "@ + type_debug(ty)
                                    + ", got "@ + type_debug(ci.ty),
                            )
                        } else {
                            Ok(
                                (
                                    mk_stmt(StatementV::Decl { name, ty, init: Box::new(ci) }),
                                    declare(env, name, ty),
                                ),
                            )
                        },
                    }
                },
            }
        },
        StatementV::Assign { target, value } => match check_expr(*target, env, None) {
            Err(m) => Err(m),
            Ok(ct) => if !is_assignable_target(target.exp) {
                Err("invalid assignment target"@)
            } else {
                match check_expr(*value, env, Some(ct.ty)) {
                    Err(m) => Err(m),
                    Ok(cv) => if !compatible(cv.ty, ct.ty) {
                        Err(
                            "assignment: expected "@ + type_debug(ct.ty) + ", got "@ + type_debug(
                                cv.ty,
                            ),
                        )
                    } else {
                        Ok(
                            (
                                mk_stmt(
                                    StatementV::Assign { target: Box::new(ct), value: Box::new(cv) },
                                ),
                                env,
                            ),
                        )
                    },
                }
            },
        },
        StatementV::Block { seq } => match check_stmts(seq, env, expected_return) {
            Err(m) => Err(m),
            Ok((cs, _)) => Ok((mk_stmt(StatementV::Block { seq: cs }), env)),
        },
        StatementV::Call { name, args } => match lookup(env.bindings, name) {
            Some(TypeV::Function { params, .. }) => if args.len() != params.len() {
                Err(
                    "function '"@ + name + "' expects "@ + decimal(params.len()) + " arguments, got "@
                        + decimal(args.len()),
                )
            } else {
                match check_args(args, params, env) {
                    Err(m) => Err(m),
                    Ok(cs) => match check_call(name, cs, env) {
                        Err(m) => Err(m),
                        Ok(_) => Ok((mk_stmt(StatementV::Call { name, args: cs }), env)),
                    },
                }
            },
            Some(_) => Err("'"@ + name + "' is not a function"@),
            None => Err("undefined function: "@ + name),
        },
        StatementV::If { cond, then_branch, else_branch } => match check_expr(*cond, env, None) {
            Err(m) => Err(m),
            Ok(cc) => if !(cc.ty is Bool) {
                Err("if condition must be Bool, got "@ + type_debug(cc.ty))
            } else {
                match check_stmt(*then_branch, env, expected_return) {
                    Err(m) => Err(m),
                    Ok((ct, env1)) => match else_branch {
                        None => Ok(
                            (
                                mk_stmt(
                                    StatementV::If {
                                        cond: Box::new(cc),
                                        then_branch: Box::new(ct),
                                        else_branch: None,
                                    },
                                ),
                                env1,
                            ),
                        ),
                        Some(e) => match check_stmt(*e, env1, expected_return) {
                            Err(m) => Err(m),
                            Ok((ce, env2)) => Ok(
                                (
                                    mk_stmt(
                                        StatementV::If {
                                            cond: Box::new(cc),
                                            then_branch: Box::new(ct),
                                            else_branch: Some(Box::new(ce)),
                                        },
                                    ),
                                    env2,
                                ),
                            ),
                        },
                    },
                }
            },
        },
        StatementV::While { cond, body } => match check_expr(*cond, env, None) {
            Err(m) => Err(m),
            Ok(cc) => if !(cc.ty is Bool) {
                Err("while condition must be Bool, got "@ + type_debug(cc.ty))
            } else {
                match check_stmt(*body, env, expected_return) {
                    Err(m) => Err(m),
                    Ok((cb, env1)) => Ok(
                        (mk_stmt(StatementV::While { cond: Box::new(cc), body: Box::new(cb) }), env1),
                    ),
                }
            },
        },
        StatementV::Return(None) => if !(expected_return is Unit) {
            Err("non-void function must return a value of type "@ + type_debug(expected_return))
        } else {
            Ok((mk_stmt(StatementV::Return(None)), env))
        },
        StatementV::Return(Some(e)) => if expected_return is Unit {
            Err("void function must not return a value"@)
        } else {
            match check_expr(*e, env, Some(expected_return)) {
                Err(m) => Err(m),
                Ok(ce) => if !compatible(ce.ty, expected_return) {
                    Err(
                        "return type mismatch: expected "@ + type_debug(expected_return) + ", got "@
                            + type_debug(ce.ty),
                    )
                } else {
                    Ok((mk_stmt(StatementV::Return(Some(Box::new(ce)))), env))
                },
            }
        },
        StatementV::Match { target, arms } => match check_expr(*target, env, None) {
            Err(m) => Err(m),
            Ok(ct) => match ct.ty {
                TypeV::Enum(ename) => match find_decl(env.decls, UDTKind::Enum, ename) {
                    None => Err("unknown enum type in match: "@ + ename),
                    Some(d) => match check_arms(arms, env, expected_return, d.members, ename, Seq::empty()) {
                        Err(m) => Err(m),
                        Ok((carms, seen)) => {
                            let missing = sort_names(unmatched_variants(d.members, seen));
                            if missing.len() != 0 {
                                Err(
                                    "non-exhaustive match for enum "@ + ename + ": missing variants "@
                                        + name_list_debug(missing),
                                )
                            } else {
                                Ok((mk_stmt(StatementV::Match { target: Box::new(ct), arms: carms }), env))
                            }
                        },
                    },
                },
                other => Err("match target must be an enum, got "@ + type_debug(other)),
            },
        },
    }
}

/// Checks the statements of a block in order, each in the environment the
/// previous one left.
pub open spec fn check_stmts(seq: Seq<UStmtV>, env: TypeEnvV, expected_return: TypeV) -> Result<
    (Seq<CStmtV>, TypeEnvV),
    Seq<char>,
>
    decreases seq,
{
    if seq.len() == 0 {
        Ok((Seq::empty(), env))
    } else {
        match check_stmt(seq[0], env, expected_return) {
            Err(m) => Err(m),
            Ok((c, env1)) => match check_stmts(seq.drop_first(), env1, expected_return) {
                Err(m) => Err(m),
                Ok((cs, env2)) => Ok((seq![c] + cs, env2)),
            },
        }
    }
}

/// Checks the arms of a match on enum `ename` with members `members`;
/// `seen` holds the variants already handled. Each arm is checked in `env`
/// extended by its payload binding, which does not outlive the arm.
pub open spec fn check_arms(
    arms: Seq<MatchArmV<()>>,
    env: TypeEnvV,
    expected_return: TypeV,
    members: Seq<UDTMemberV>,
    ename: Seq<char>,
    seen: Seq<Seq<char>>,
) -> Result<(Seq<MatchArmV<TypeV>>, Seq<Seq<char>>), Seq<char>>
    decreases arms,
{
    if arms.len() == 0 {
        Ok((Seq::empty(), seen))
    } else {
        let v = arms[0].variant;
        if seen.contains(v) {
            Err("duplicate match arm for variant '"@ + v + "' in enum "@ + ename)
        } else {
            match variant_payload(members, v) {
                None => Err("unknown variant '"@ + v + "' for enum "@ + ename),
                Some(pt) => {
                    let arm_env = match pt {
                        Some(t) => declare(env, v, t),
                        None => env,
                    };
                    match check_stmt(*arms[0].body, arm_env, expected_return) {
                        Err(m) => Err(m),
                        Ok((cb, _)) => match check_arms(
                            arms.drop_first(),
                            env,
                            expected_return,
                            members,
                            ename,
                            seen.push(v),
                        ) {
                            Err(m) => Err(m),
                            Ok((cs, seen2)) => Ok(
                                (
                                    seq![
                                        MatchArmV {
                                            variant: v,
                                            binding: if pt is Some { Some(v) } else { None },
                                            body: Box::new(cb),
                                        },
                                    ] + cs,
                                    seen2,
                                ),
                            ),
                        },
                    }
                },
            }
        }
    }
}


/// Whether declarations `i` and `j` share kind and name.
pub open spec fn same_decl_key(decls: Seq<UDTDeclV>, i: int, j: int) -> bool {
    decls[i].specifier == decls[j].specifier && decls[i].identifier == decls[j].identifier
}

/// Rejects the first declaration, from position `j` on, whose kind and
/// name an earlier declaration already has.
pub open spec fn check_type_decls_unique(decls: Seq<UDTDeclV>, j: nat) -> Result<(), Seq<char>>
    decreases decls.len() - j,
{
    if j >= decls.len() {
        Ok(())
    } else if exists|i: int| 0 <= i < j && #[trigger] same_decl_key(decls, i, j as int) {
        Err(
            "duplicate type declaration: "@ + kind_debug(decls[j as int].specifier) + " "@
                + decls[j as int].identifier,
        )
    } else {
        check_type_decls_unique(decls, j + 1)
    }
}

/// Validates the type named by each member of a declaration, from member `k` on.
pub open spec fn validate_members(d: UDTDeclV, decls: Seq<UDTDeclV>, k: nat) -> Result<(), Seq<char>>
    decreases d.members.len() - k,
{
    if k >= d.members.len() {
        Ok(())
    } else {
        let r = match d.members[k as int] {
            UDTMemberV::Field { name, ty } => validate_type_reference(
                ty,
                decls,
                "field '"@ + d.identifier + "."@ + name + "'"@,
            ),
            UDTMemberV::EnumVariant { name, ty: Some(ty) } => validate_type_reference(
                ty,
                decls,
                "payload for variant '"@ + d.identifier + "."@ + name + "'"@,
            ),
            UDTMemberV::EnumVariant { ty: None, .. } => Ok(()),
        };
        match r {
            Err(m) => Err(m),
            Ok(_) => validate_members(d, decls, k + 1),
        }
    }
}

pub open spec fn validate_decls(decls: Seq<UDTDeclV>, i: nat) -> Result<(), Seq<char>>
    decreases decls.len() - i,
{
    if i >= decls.len() {
        Ok(())
    } else {
        match validate_members(decls[i as int], decls, 0) {
            Err(m) => Err(m),
            Ok(_) => validate_decls(decls, i + 1),
        }
    }
}

/// Validates the parameter types of function `f`, from parameter `k` on.
pub open spec fn validate_params(f: FunDeclV<()>, decls: Seq<UDTDeclV>, k: nat) -> Result<(), Seq<char>>
    decreases f.params.len() - k,
{
    if k >= f.params.len() {
        Ok(())
    } else {
        match validate_type_reference(
            f.params[k as int].ty,
            decls,
            "parameter '"@ + f.params[k as int].name + "' of function '"@ + f.name + "'"@,
        ) {
            Err(m) => Err(m),
            Ok(_) => validate_params(f, decls, k + 1),
        }
    }
}

pub open spec fn validate_functions(fs: Seq<FunDeclV<()>>, decls: Seq<UDTDeclV>, i: nat) -> Result<(), Seq<char>>
    decreases fs.len() - i,
{
    if i >= fs.len() {
        Ok(())
    } else {
        match validate_type_reference(
            fs[i as int].return_type,
            decls,
            "return type of function '"@ + fs[i as int].name + "'"@,
        ) {
            Err(m) => Err(m),
            Ok(_) => match validate_params(fs[i as int], decls, 0) {
                Err(m) => Err(m),
                Ok(_) => validate_functions(fs, decls, i + 1),
            },
        }
    }
}

/// Every struct and enum that a declaration or a function signature names
/// must be declared.
pub open spec fn validate_program_type_references(p: UProgramV) -> Result<(), Seq<char>> {
    match validate_decls(p.type_declarations, 0) {
        Err(m) => Err(m),
        Ok(_) => validate_functions(p.functions, p.type_declarations, 0),
    }
}

/// The functions of the standard library, with their types.
pub open spec fn native_bindings() -> Seq<(Seq<char>, TypeV)> {
    seq![("print"@, TypeV::Function { params: seq![TypeV::Any], return_type: Box::new(TypeV::Unit) })]
}

/// The type of a function with this signature.
pub open spec fn signature_type(f: FunDeclV<()>) -> TypeV {
    TypeV::Function {
        params: Seq::new(f.params.len(), |i: int| f.params[i].ty),
        return_type: Box::new(f.return_type),
    }
}

/// The bindings of the functions `fs`, in order.
pub open spec fn function_bindings(fs: Seq<FunDeclV<()>>) -> Seq<(Seq<char>, TypeV)> {
    Seq::new(fs.len(), |i: int| (fs[i].name, signature_type(fs[i])))
}

/// The bindings of the parameters `ps`, in order.
pub open spec fn param_bindings(ps: Seq<ParamV>) -> Seq<(Seq<char>, TypeV)> {
    Seq::new(ps.len(), |i: int| (ps[i].name, ps[i].ty))
}

/// Checks the body of `f` in the environment of the functions extended by
/// its parameters.
pub open spec fn check_fun_decl(f: FunDeclV<()>, fn_env: TypeEnvV) -> Result<FunDeclV<TypeV>, Seq<char>> {
    let env = TypeEnvV { bindings: fn_env.bindings + param_bindings(f.params), decls: fn_env.decls };
    match check_stmt(*f.body, env, f.return_type) {
        Err(m) => Err(m),
        Ok((body, _)) => Ok(
            FunDeclV {
                name: f.name,
                params: f.params,
                return_type: f.return_type,
                body: Box::new(body),
            },
        ),
    }
}

pub open spec fn check_fun_decls(fs: Seq<FunDeclV<()>>, fn_env: TypeEnvV) -> Result<Seq<FunDeclV<TypeV>>, Seq<char>>
    decreases fs.len(),
{
    if fs.len() == 0 {
        Ok(Seq::empty())
    } else {
        match check_fun_decl(fs[0], fn_env) {
            Err(m) => Err(m),
            Ok(c) => match check_fun_decls(fs.drop_first(), fn_env) {
                Err(m) => Err(m),
                Ok(cs) => Ok(seq![c] + cs),
            },
        }
    }
}

/// The requirements on `main`: it exists, returns `void` and takes no
/// parameters.
pub open spec fn check_main(fs: Seq<FunDeclV<()>>) -> Result<(), Seq<char>> {
    match main_index(fs) {
        None => Err("program must have a main function"@),
        Some(i) => if !(fs[i as int].return_type is Unit) {
            Err("main function must return void"@)
        } else if fs[i as int].params.len() != 0 {
            Err("main function must have no parameters"@)
        } else {
            Ok(())
        },
    }
}

/// The environment in which every function body is checked: the standard
/// library, then the program's functions.
pub open spec fn function_env(p: UProgramV) -> TypeEnvV {
    TypeEnvV {
        bindings: native_bindings() + function_bindings(p.functions),
        decls: p.type_declarations,
    }
}

/// The checked program, or the message of the first rule it breaks.
pub open spec fn type_check_spec(p: UProgramV) -> Result<CProgramV, Seq<char>> {
    match check_type_decls_unique(p.type_declarations, 0) {
        Err(m) => Err(m),
        Ok(_) => match validate_program_type_references(p) {
            Err(m) => Err(m),
            Ok(_) => match check_main(p.functions) {
                Err(m) => Err(m),
                Ok(_) => match check_fun_decls(p.functions, function_env(p)) {
                    Err(m) => Err(m),
                    Ok(fs) => Ok(ProgramV { type_declarations: p.type_declarations, functions: fs }),
                },
            },
        },
    }
}

} // verus!
