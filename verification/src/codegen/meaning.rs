//! What the generated code means: a condition jumps to its false label
//! exactly when it does not hold, and a copy of a struct or enum value
//! copies every scalar component, an enum's tag first.
use vstd::prelude::*;
use crate::ir::ast::{
    main_index, CExprV, CProgramV, CStmtV, ExprDV, FunDeclV, ExprV, LiteralV, MatchArmV, StatementV, TypeV, UDTDeclV, UDTKind, UDTMemberV,
};
use crate::semantic::environment::find_decl;
use crate::codegen::scope::law_fresh_names_differ;
use crate::ir::tac::{AddressV, InstructionV, Operator};
use crate::codegen::lowering::{
    component_copy, component_fields_copy, copy_fuel, lower_copy_to_prefix, first_payload, lower_enum_variant, member_fields, new_label,
    translate_arguments, translate_arm, translate_conditional_false, translate_expression,
    translate_member_address, translate_program, translate_statement, variant_position, CodegenEnvV,
};

verus! {

/// Whether the relational operator `op` relates `a` and `b`.
pub open spec fn operator_holds(op: Operator, a: int, b: int) -> bool {
    match op {
        Operator::EQ => a == b,
        Operator::NE => a != b,
        Operator::LT => a < b,
        Operator::LTE => a <= b,
        Operator::GT => a > b,
        Operator::GTE => a >= b,
        _ => false,
    }
}

/// Whether `e` is one of the six comparisons of the source language.
pub open spec fn is_comparison<A>(e: ExprV<A>) -> bool {
    e is Lt || e is Le || e is Gt || e is Ge || e is Eq || e is Ne
}

/// Whether the source comparison `e` holds of the operand values `a` and `b`.
pub open spec fn comparison_holds<A>(e: ExprV<A>, a: int, b: int) -> bool {
    match e {
        ExprV::Lt(..) => a < b,
        ExprV::Le(..) => a <= b,
        ExprV::Gt(..) => a > b,
        ExprV::Ge(..) => a >= b,
        ExprV::Eq(..) => a == b,
        ExprV::Ne(..) => a != b,
        _ => false,
    }
}

/// The two operands of a comparison.
pub open spec fn comparison_operands<A>(e: ExprV<A>) -> (ExprDV<A>, ExprDV<A>) {
    match e {
        ExprV::Lt(l, r) => (*l, *r),
        ExprV::Le(l, r) => (*l, *r),
        ExprV::Gt(l, r) => (*l, *r),
        ExprV::Ge(l, r) => (*l, *r),
        ExprV::Eq(l, r) => (*l, *r),
        ExprV::Ne(l, r) => (*l, *r),
        _ => arbitrary(),
    }
}

/// A comparison used as a condition ends in one relational jump to the
/// false label, on the left operand's address and then the right one's,
/// whose operator holds of two values exactly when the comparison does not:
/// the code falls through into the `then` branch exactly when the
/// comparison holds.
pub proof fn law_comparison_jumps_when_false(e: CExprV, env: CodegenEnvV, label: Seq<char>)
    requires
        is_comparison(e.exp),
        translate_conditional_false(e, env, label) is Some,
    ensures
        translate_conditional_false(e, env, label) matches Some((insts, _)) && {
            let (l, r) = comparison_operands(e.exp);
            &&& insts.len() > 0
            &&& insts.last() matches InstructionV::ConditionalJMPRelational(op, la, ra, target) && {
                &&& target == label
                &&& forall|a: int, b: int| #[trigger] operator_holds(op, a, b) == !comparison_holds(e.exp, a, b)
                &&& translate_expression(l, env) matches Some((la2, _, env1)) && {
                    &&& la == la2
                    &&& translate_expression(r, env1) matches Some((ra2, _, _)) && ra == ra2
                }
            }
        },
{
}

/// A condition that is the literal `true` never jumps; the literal `false`
/// always jumps to the false label.
pub proof fn law_constant_conditions(e: CExprV, env: CodegenEnvV, label: Seq<char>)
    requires
        e.exp is Literal,
        e.exp->Literal_0 is Bool,
    ensures
        translate_conditional_false(e, env, label) matches Some((insts, env1)) && env1 == env && (
        if e.exp->Literal_0->Bool_0 {
            insts.len() == 0
        } else {
            insts == seq![InstructionV::JMP(label)]
        }),
{
}

/// Copying a value of enum type copies its tag first, from `src.tag` to
/// `dest.tag`, before any payload component.
pub proof fn law_enum_copy_copies_tag_first(
    dest: Seq<char>,
    src: Seq<char>,
    name: Seq<char>,
    decls: Seq<UDTDeclV>,
    fuel: nat,
)
    requires
        component_copy(dest, src, TypeV::Enum(name), decls, fuel) is Some,
    ensures
        component_copy(dest, src, TypeV::Enum(name), decls, fuel) matches Some(insts) && insts.len() > 0
            && insts[0] == InstructionV::CopyAssignment(
            AddressV::Variable(dest + "."@ + "tag"@, TypeV::Int),
            AddressV::Variable(src + "."@ + "tag"@, TypeV::Int),
        ),
{
}

/// Copying a value of a scalar type (neither struct nor enum) is one copy
/// from `src` to `dest` at that type.
pub proof fn law_scalar_copy(dest: Seq<char>, src: Seq<char>, ty: TypeV, decls: Seq<UDTDeclV>, fuel: nat)
    requires
        !(ty is Struct || ty is Enum),
    ensures
        component_copy(dest, src, ty, decls, fuel) == Some(
            seq![InstructionV::CopyAssignment(AddressV::Variable(dest, ty), AddressV::Variable(src, ty))],
        ),
{
}

/// Whether `k` is the position of the first variant named `variant` among
/// `members`.
pub open spec fn first_variant_at(members: Seq<UDTMemberV>, variant: Seq<char>, k: int) -> bool {
    &&& 0 <= k < members.len()
    &&& members[k] matches UDTMemberV::EnumVariant { name, .. } && name == variant
    &&& forall|j: int|
        0 <= j < k ==> !(#[trigger] members[j] matches UDTMemberV::EnumVariant { name, .. } && name == variant)
}

proof fn lemma_variant_position(members: Seq<UDTMemberV>, variant: Seq<char>)
    ensures
        variant_position(members, variant) matches Some(k) ==> first_variant_at(members, variant, k as int),
    decreases members.len(),
{
    if members.len() > 0 {
        lemma_variant_position(members.drop_first(), variant);
        if !(members[0] matches UDTMemberV::EnumVariant { name, .. } && name == variant) {
            if let Some(k) = variant_position(members.drop_first(), variant) {
                assert forall|j: int| 0 <= j < k + 1 implies !(#[trigger] members[j] matches UDTMemberV::EnumVariant {
                    name,
                    ..
                } && name == variant) by {
                    if j > 0 {
                        assert(members[j] == members.drop_first()[j - 1]);
                    }
                }
                assert(members[k + 1 as int] == members.drop_first()[k as int]);
            }
        }
    }
}

proof fn lemma_first_payload(members: Seq<UDTMemberV>, variant: Seq<char>)
    ensures
        first_payload(members, variant) matches Some(t) ==> exists|i: int|
            0 <= i < members.len() && #[trigger] members[i] == (UDTMemberV::EnumVariant {
                name: variant,
                ty: Some(t),
            }),
    decreases members.len(),
{
    if members.len() > 0 {
        lemma_first_payload(members.drop_first(), variant);
        if let Some(t) = first_payload(members.drop_first(), variant) {
            if !(members[0] matches UDTMemberV::EnumVariant { name, ty: Some(_) } && name == variant) {
                let i = choose|i: int|
                    0 <= i < members.len() - 1 && #[trigger] members.drop_first()[i] == (UDTMemberV::EnumVariant {
                        name: variant,
                        ty: Some(t),
                    });
                assert(members[i + 1] == members.drop_first()[i]);
            }
        }
    }
}

/// The tag test of a match arm compares the tag of the matched value with
/// the position, among the members of the enum, of the first variant named
/// by the arm, and skips to the arm's own fresh label when they differ; the
/// arm ends by jumping to the end of the match, then that label. When the
/// arm binds the payload, its next instruction copies the payload, at the
/// type a variant of that name declares, into a temporary.
pub proof fn law_arm_tests_tag_position(
    arm: MatchArmV<TypeV>,
    env: CodegenEnvV,
    enum_name: Seq<char>,
    tag_var: Seq<char>,
    end_label: Seq<char>,
)
    requires
        translate_arm(arm, env, enum_name, tag_var, end_label) is Some,
    ensures
        translate_arm(arm, env, enum_name, tag_var, end_label) matches Some((insts, _)) && new_label(env) matches Some(
            (next, _),
        ) && find_decl(env.decls, UDTKind::Enum, enum_name) matches Some(d) && {
            &&& insts.len() >= 3
            &&& insts[0] matches InstructionV::ConditionalJMPRelational(
            op,
            x,
            AddressV::Constant(LiteralV::Int(k), kt),
            target,
        ) && {
            &&& op == Operator::NE
            &&& x == AddressV::Variable(tag_var + "."@ + "tag"@, TypeV::Int)
            &&& kt == TypeV::Int
            &&& target == next
            &&& first_variant_at(d.members, arm.variant, k as int)
            &&& insts[insts.len() - 2] == InstructionV::JMP(end_label)
            &&& insts.last() == InstructionV::Label(next)
            &&& arm.binding is Some ==> (insts[1] matches InstructionV::CopyAssignment(
                AddressV::Temporary(_, pt),
                AddressV::Variable(p, pt2),
            ) && {
                &&& p == tag_var + "."@ + "payload"@
                &&& pt == pt2
                &&& exists|i: int|
                    0 <= i < d.members.len() && #[trigger] d.members[i] == (UDTMemberV::EnumVariant {
                        name: arm.variant,
                        ty: Some(pt),
                    })
            })
        }
        },
{
    let (next, env1) = new_label(env)->0;
    let d = find_decl(env1.decls, UDTKind::Enum, enum_name)->0;
    lemma_variant_position(d.members, arm.variant);
    lemma_first_payload(d.members, arm.variant);
}

/// Initializing a value of an enum with a variant stores, first, the
/// position of the first variant of that name among the enum's members into
/// `dest.tag`; a unit variant stores nothing else.
pub proof fn law_variant_init_stores_position(
    dest: Seq<char>,
    n: Seq<char>,
    enum_name: Option<Seq<char>>,
    variant: Seq<char>,
    payload: Option<Box<CExprV>>,
    env: CodegenEnvV,
)
    requires
        lower_enum_variant(dest, n, enum_name, variant, payload, env) is Some,
    ensures
        lower_enum_variant(dest, n, enum_name, variant, payload, env) matches Some((insts, _)) && find_decl(
            env.decls,
            UDTKind::Enum,
            match enum_name {
                Some(x) => x,
                None => n,
            },
        ) matches Some(d) && {
            &&& insts.len() > 0
            &&& payload is None ==> insts.len() == 1
            &&& insts[0] matches InstructionV::CopyAssignment(x, AddressV::Constant(LiteralV::Int(k), kt)) && {
                &&& x == AddressV::Variable(dest + "."@ + "tag"@, TypeV::Int)
                &&& kt == TypeV::Int
                &&& first_variant_at(d.members, variant, k as int)
            }
        },
{
    let ename = match enum_name {
        Some(x) => x,
        None => n,
    };
    let d = find_decl(env.decls, UDTKind::Enum, ename)->0;
    lemma_variant_position(d.members, variant);
}

proof fn lemma_member_fields(members: Seq<UDTMemberV>)
    ensures
        forall|i: int|
            0 <= i < members.len() ==> (#[trigger] members[i] matches UDTMemberV::Field { name, ty }
                ==> member_fields(members).contains((name, ty))),
    decreases members.len(),
{
    if members.len() > 0 {
        lemma_member_fields(members.drop_last());
        let rest = member_fields(members.drop_last());
        assert forall|i: int| 0 <= i < members.len() implies (#[trigger] members[i] matches UDTMemberV::Field {
            name,
            ty,
        } ==> member_fields(members).contains((name, ty))) by {
            if let UDTMemberV::Field { name, ty } = members[i] {
                if i < members.len() - 1 {
                    assert(members[i] == members.drop_last()[i]);
                    let j = choose|j: int| 0 <= j < rest.len() && rest[j] == (name, ty);
                    if let UDTMemberV::Field { name: n2, ty: t2 } = members.last() {
                        assert(rest.push((n2, t2))[j] == (name, ty));
                    }
                } else {
                    assert(member_fields(members).last() == (name, ty));
                }
            }
        }
    }
}

proof fn lemma_fields_copy_contains(
    dest: Seq<char>,
    src: Seq<char>,
    fields: Seq<(Seq<char>, TypeV)>,
    decls: Seq<UDTDeclV>,
    fuel: nat,
)
    ensures
        component_fields_copy(dest, src, fields, decls, fuel) matches Some(insts) ==> forall|j: int|
            0 <= j < fields.len() && !((#[trigger] fields[j]).1 is Struct || fields[j].1 is Enum) ==> insts.contains(
                InstructionV::CopyAssignment(
                    AddressV::Variable(dest + "."@ + fields[j].0, fields[j].1),
                    AddressV::Variable(src + "."@ + fields[j].0, fields[j].1),
                ),
            ),
    decreases fields.len(),
{
    if fields.len() > 0 {
        lemma_fields_copy_contains(dest, src, fields.drop_first(), decls, fuel);
        if let Some(insts) = component_fields_copy(dest, src, fields, decls, fuel) {
            let a = component_copy(dest + "."@ + fields[0].0, src + "."@ + fields[0].0, fields[0].1, decls, fuel)->0;
            let b = component_fields_copy(dest, src, fields.drop_first(), decls, fuel)->0;
            assert forall|j: int|
                0 <= j < fields.len() && !((#[trigger] fields[j]).1 is Struct || fields[j].1 is Enum) implies insts.contains(
                InstructionV::CopyAssignment(
                    AddressV::Variable(dest + "."@ + fields[j].0, fields[j].1),
                    AddressV::Variable(src + "."@ + fields[j].0, fields[j].1),
                ),
            ) by {
                if j == 0 {
                    assert(insts[0] == a[0]);
                } else {
                    assert(fields[j] == fields.drop_first()[j - 1]);
                    let c = InstructionV::CopyAssignment(
                        AddressV::Variable(dest + "."@ + fields[j].0, fields[j].1),
                        AddressV::Variable(src + "."@ + fields[j].0, fields[j].1),
                    );
                    let m = choose|m: int| 0 <= m < b.len() && b[m] == c;
                    assert(insts[a.len() + m] == c);
                }
            }
        }
    }
}

/// Copying a struct value copies every scalar field of the struct from
/// `src.field` to `dest.field`, at the field's type.
pub proof fn law_struct_copy_copies_every_scalar_field(
    dest: Seq<char>,
    src: Seq<char>,
    name: Seq<char>,
    decls: Seq<UDTDeclV>,
    fuel: nat,
)
    requires
        component_copy(dest, src, TypeV::Struct(name), decls, fuel) is Some,
    ensures
        component_copy(dest, src, TypeV::Struct(name), decls, fuel) matches Some(insts) && find_decl(
            decls,
            UDTKind::Struct,
            name,
        ) matches Some(d) && forall|i: int|
            0 <= i < d.members.len() ==> (#[trigger] d.members[i] matches UDTMemberV::Field { name: f, ty: t }
                ==> (!(t is Struct || t is Enum) ==> insts.contains(
                InstructionV::CopyAssignment(
                    AddressV::Variable(dest + "."@ + f, t),
                    AddressV::Variable(src + "."@ + f, t),
                ),
            ))),
{
    let d = find_decl(decls, UDTKind::Struct, name)->0;
    let fields = member_fields(d.members);
    lemma_member_fields(d.members);
    lemma_fields_copy_contains(dest, src, fields, decls, (fuel - 1) as nat);
    assert forall|i: int| 0 <= i < d.members.len() implies (#[trigger] d.members[i] matches UDTMemberV::Field {
        name: f,
        ty: t,
    } ==> (!(t is Struct || t is Enum) ==> component_copy(dest, src, TypeV::Struct(name), decls, fuel)->0.contains(
        InstructionV::CopyAssignment(AddressV::Variable(dest + "."@ + f, t), AddressV::Variable(src + "."@ + f, t)),
    ))) by {
        if let UDTMemberV::Field { name: f, ty: t } = d.members[i] {
            let j = choose|j: int| 0 <= j < fields.len() && fields[j] == (f, t);
            assert(fields[j].0 == f && fields[j].1 == t);
        }
    }
}

/// An addition is computed into a fresh temporary of the expression's
/// type: the code of the left operand, then of the right one, then one
/// `Add` of their addresses into the temporary.
pub proof fn law_addition_code(e: CExprV, env: CodegenEnvV)
    requires
        e.exp is Add,
        translate_expression(e, env) is Some,
    ensures
        translate_expression(e, env) matches Some((a, insts, _)) && translate_expression(
            *e.exp->Add_0,
            env,
        ) matches Some((la, li, env1)) && translate_expression(*e.exp->Add_1, env1) matches Some(
            (ra, ri, _),
        ) && a matches AddressV::Temporary(_, t) && {
            &&& t == e.ty
            &&& insts == li + ri + seq![InstructionV::BinaryAssignment(Operator::Add, a, la, ra)]
        },
{
}

/// A call statement computes its arguments, passes each argument's address
/// in order, and calls the function with as many arguments as it was given.
pub proof fn law_call_passes_each_argument(s: CStmtV, env: CodegenEnvV)
    requires
        s.stmt is Call,
        translate_statement(s, env) is Some,
    ensures
        translate_statement(s, env) matches Some((insts, _)) && translate_arguments(
            s.stmt->Call_args,
            env,
        ) matches Some((addrs, ai, _)) && {
            let n = s.stmt->Call_args.len();
            &&& addrs.len() == n
            &&& insts.len() == ai.len() + n + 1
            &&& insts.subrange(0, ai.len() as int) == ai
            &&& forall|i: int| 0 <= i < n ==> #[trigger] insts[ai.len() + i] == InstructionV::Param(addrs[i])
            &&& insts.last() == InstructionV::Call(None, s.stmt->Call_name, n as usize)
        },
{
    lemma_arguments_len(s.stmt->Call_args, env);
    let (addrs, ai, _) = translate_arguments(s.stmt->Call_args, env)->0;
    let (insts, _) = translate_statement(s, env)->0;
    assert(insts.subrange(0, ai.len() as int) =~= ai);
}

proof fn lemma_arguments_len(args: Seq<CExprV>, env: CodegenEnvV)
    ensures
        translate_arguments(args, env) matches Some((addrs, _, _)) ==> addrs.len() == args.len(),
    decreases args.len(),
{
    if args.len() > 0 {
        lemma_arguments_len(args.drop_last(), env);
    }
}

/// An `if` with an `else` uses two different fresh labels: the condition
/// jumps to the first when false, the `then` code ends by jumping to the
/// second, the `else` code starts at the first, and the second ends it all.
pub proof fn law_if_layout(s: CStmtV, env: CodegenEnvV)
    requires
        s.stmt matches StatementV::If { else_branch: Some(_), .. },
        translate_statement(s, env) is Some,
    ensures
        translate_statement(s, env) matches Some((insts, _)) && new_label(env) matches Some((le, env1))
            && new_label(env1) matches Some((lend, env2)) && translate_conditional_false(
            *s.stmt->If_cond,
            env2,
            le,
        ) matches Some((ci, env3)) && translate_statement(*s.stmt->If_then_branch, env3) matches Some(
            (ti, env4),
        ) && translate_statement(*s.stmt->If_else_branch->0, env4) matches Some((ei, _)) && {
            &&& le != lend
            &&& insts == ci + ti + seq![InstructionV::JMP(lend), InstructionV::Label(le)] + ei + seq![
                InstructionV::Label(lend),
            ]
        },
{
    law_fresh_names_differ(env.label + 1, env.label + 2);
}

/// A name stands for the address the innermost enclosing `match` arm bound
/// it to, and otherwise for the variable of that name; it needs no code and
/// uses no counter.
pub proof fn law_identifier_address(e: CExprV, env: CodegenEnvV)
    requires
        e.exp is Ident,
    ensures
        translate_expression(e, env) == Some(
            (
                if env.aliases.dom().contains(e.exp->Ident_0) {
                    env.aliases[e.exp->Ident_0]
                } else {
                    AddressV::Variable(e.exp->Ident_0, e.ty)
                },
                Seq::<InstructionV>::empty(),
                env,
            ),
        ),
{
}

/// A literal is a constant of the expression's type, needing no code.
pub proof fn law_literal_address(e: CExprV, env: CodegenEnvV)
    requires
        e.exp is Literal,
    ensures
        translate_expression(e, env) == Some(
            (AddressV::Constant(e.exp->Literal_0, e.ty), Seq::<InstructionV>::empty(), env),
        ),
{
}

/// A member access is the variable `base.member`, at the member's type,
/// where `base` is the name of the base's address; it needs no code.
pub proof fn law_member_address(e: CExprV, env: CodegenEnvV)
    requires
        e.exp is Member,
        translate_expression(e, env) is Some,
    ensures
        translate_expression(e, env) matches Some((a, insts, _)) && translate_expression(
            *e.exp->Member_base,
            env,
        ) matches Some((ba, bi, _)) && {
            &&& insts.len() == 0
            &&& bi.len() == 0
            &&& (ba matches AddressV::Variable(p, _) || ba matches AddressV::Temporary(p, _))
            &&& a == AddressV::Variable(
                match ba {
                    AddressV::Variable(p, _) => p,
                    AddressV::Temporary(p, _) => p,
                    AddressV::Constant(..) => Seq::empty(),
                } + "."@ + e.exp->Member_member,
                e.ty,
            )
        },
{
    let base = *e.exp->Member_base;
    let m = e.exp->Member_member;
    assert(translate_expression(e, env) matches Some((a, insts, env1)) && translate_member_address(base, m, e.ty, env)
        == Some((a, env1)) && insts.len() == 0);
}

/// A cast needs the code of its operand and nothing more; its address is
/// the operand's, at the cast's type.
pub proof fn law_cast_retypes(e: CExprV, env: CodegenEnvV)
    requires
        e.exp is Cast,
        translate_expression(e, env) is Some,
    ensures
        translate_expression(e, env) matches Some((a, insts, env1)) && translate_expression(
            *e.exp->Cast_expr,
            env,
        ) matches Some((oa, oi, env2)) && {
            &&& insts == oi
            &&& env1 == env2
            &&& match oa {
                AddressV::Constant(l, _) => a == AddressV::Constant(l, e.ty),
                AddressV::Variable(n, _) => a == AddressV::Variable(n, e.ty),
                AddressV::Temporary(n, _) => a == AddressV::Temporary(n, e.ty),
            }
        },
{
}

/// `not x` leaves a fresh boolean temporary holding the opposite of `x`:
/// after `x`'s code, when `x` is false control jumps to a fresh label where
/// the temporary is set to true; otherwise it falls through to set it to
/// false and jumps past, to a second, different fresh label.
pub proof fn law_not_code(e: CExprV, env: CodegenEnvV)
    requires
        e.exp is Not,
        translate_expression(e, env) is Some,
    ensures
        translate_expression(e, env) matches Some((t, insts, _)) && translate_expression(*e.exp->Not_0, env)
            matches Some((a, xi, env1)) && new_label(env1) matches Some((lf, env2)) && new_label(env2) matches Some(
            (lx, _),
        ) && {
            &&& t is Temporary
            &&& t->Temporary_1 == TypeV::Bool
            &&& lf != lx
            &&& insts == xi + seq![
                InstructionV::ConditionalJMPFalse(a, lf),
                InstructionV::CopyAssignment(t, AddressV::Constant(LiteralV::Bool(false), TypeV::Bool)),
                InstructionV::JMP(lx),
                InstructionV::Label(lf),
                InstructionV::CopyAssignment(t, AddressV::Constant(LiteralV::Bool(true), TypeV::Bool)),
                InstructionV::Label(lx),
            ]
        },
{
    let (_, _, env1) = translate_expression(*e.exp->Not_0, env)->0;
    law_fresh_names_differ(env1.label + 1, env1.label + 2);
}

/// `l and r` leaves a fresh boolean temporary that is true exactly when
/// both operands are: after both operands' code, a false left or a false
/// right jumps to a fresh label where the temporary is set to false;
/// otherwise it is set to true and control jumps past, to a second,
/// different fresh label.
pub proof fn law_and_code(e: CExprV, env: CodegenEnvV)
    requires
        e.exp is And,
        translate_expression(e, env) is Some,
    ensures
        translate_expression(e, env) matches Some((t, insts, _)) && translate_expression(*e.exp->And_0, env)
            matches Some((la, li, env1)) && translate_expression(*e.exp->And_1, env1) matches Some(
            (ra, ri, env2),
        ) && new_label(env2) matches Some((lf, env3)) && new_label(env3) matches Some((lx, _)) && {
            &&& t is Temporary
            &&& t->Temporary_1 == TypeV::Bool
            &&& lf != lx
            &&& insts == li + seq![InstructionV::ConditionalJMPFalse(la, lf)] + ri + seq![
                InstructionV::ConditionalJMPFalse(ra, lf),
                InstructionV::CopyAssignment(t, AddressV::Constant(LiteralV::Bool(true), TypeV::Bool)),
                InstructionV::JMP(lx),
                InstructionV::Label(lf),
                InstructionV::CopyAssignment(t, AddressV::Constant(LiteralV::Bool(false), TypeV::Bool)),
                InstructionV::Label(lx),
            ]
        },
{
    let (_, _, env1) = translate_expression(*e.exp->And_0, env)->0;
    let (_, _, env2) = translate_expression(*e.exp->And_1, env1)->0;
    law_fresh_names_differ(env2.label + 1, env2.label + 2);
}

/// `l or r` leaves a fresh boolean temporary that is true exactly when
/// either operand is: a true left jumps straight to the "true" label, a
/// false left goes on to test the right, whose truth also jumps to the
/// "true" label where the temporary is set to true; otherwise it is set to
/// false. The three labels are fresh and different.
pub proof fn law_or_code(e: CExprV, env: CodegenEnvV)
    requires
        e.exp is Or,
        translate_expression(e, env) is Some,
    ensures
        translate_expression(e, env) matches Some((t, insts, _)) && translate_expression(*e.exp->Or_0, env)
            matches Some((la, li, env1)) && translate_expression(*e.exp->Or_1, env1) matches Some(
            (ra, ri, env2),
        ) && new_label(env2) matches Some((lt, env3)) && new_label(env3) matches Some((lf, env4))
            && new_label(env4) matches Some((lx, _)) && {
            &&& t is Temporary
            &&& t->Temporary_1 == TypeV::Bool
            &&& lt != lf && lf != lx && lt != lx
            &&& insts == li + seq![
                InstructionV::ConditionalJMPFalse(la, lf),
                InstructionV::JMP(lt),
                InstructionV::Label(lf),
            ] + ri + seq![
                InstructionV::ConditionalJMP(ra, lt),
                InstructionV::CopyAssignment(t, AddressV::Constant(LiteralV::Bool(false), TypeV::Bool)),
                InstructionV::JMP(lx),
                InstructionV::Label(lt),
                InstructionV::CopyAssignment(t, AddressV::Constant(LiteralV::Bool(true), TypeV::Bool)),
                InstructionV::Label(lx),
            ]
        },
{
    let (_, _, env1) = translate_expression(*e.exp->Or_0, env)->0;
    let (_, _, env2) = translate_expression(*e.exp->Or_1, env1)->0;
    law_fresh_names_differ(env2.label + 1, env2.label + 2);
    law_fresh_names_differ(env2.label + 2, env2.label + 3);
    law_fresh_names_differ(env2.label + 1, env2.label + 3);
}

/// Declaring a scalar variable computes the initializer and ends by copying
/// its address into the variable, at the declared type.
pub proof fn law_scalar_declaration_code(s: CStmtV, env: CodegenEnvV)
    requires
        s.stmt matches StatementV::Decl { ty, .. } && !(ty is Struct || ty is Enum),
        translate_statement(s, env) is Some,
    ensures
        translate_statement(s, env) matches Some((insts, env1)) && translate_expression(
            *s.stmt->Decl_init,
            env,
        ) matches Some((a, ii, env2)) && {
            &&& env1 == env2
            &&& insts == ii.push(
                InstructionV::CopyAssignment(AddressV::Variable(s.stmt->Decl_name, s.stmt->Decl_ty), a),
            )
        },
{
}

/// The code of a program is the label named after its first function
/// called `main`, then the code of that function's body, translated with
/// the program's type declarations.
pub proof fn law_program_code(p: CProgramV, env: CodegenEnvV)
    requires
        translate_program(p, env) is Some,
    ensures
        translate_program(p, env) matches Some((insts, _)) && main_index(p.functions) matches Some(i) && {
            &&& p.functions[i as int].name == "main"@
            &&& forall|j: int| 0 <= j < i ==> (#[trigger] p.functions[j]).name != "main"@
            &&& insts.len() >= 1
            &&& insts[0] == InstructionV::Label(p.functions[i as int].name)
            &&& translate_statement(*p.functions[i as int].body, CodegenEnvV { decls: p.type_declarations, ..env })
                matches Some((bi, _)) && insts.skip(1) == bi
        },
{
    lemma_main_index_first(p.functions);
    let (insts, _) = translate_program(p, env)->0;
    let i = main_index(p.functions)->0;
    let (bi, _) = translate_statement(*p.functions[i as int].body, CodegenEnvV { decls: p.type_declarations, ..env })->0;
    assert(insts.skip(1) =~= bi);
}

proof fn lemma_main_index_first<A>(fs: Seq<FunDeclV<A>>)
    ensures
        main_index(fs) matches Some(i) ==> i < fs.len() && fs[i as int].name == "main"@ && forall|j: int|
            0 <= j < i ==> (#[trigger] fs[j]).name != "main"@,
    decreases fs.len(),
{
    if fs.len() > 0 {
        lemma_main_index_first(fs.drop_first());
        if fs[0].name != "main"@ {
            if let Some(k) = main_index(fs.drop_first()) {
                assert forall|j: int| 0 <= j < k + 1 implies (#[trigger] fs[j]).name != "main"@ by {
                    if j > 0 {
                        assert(fs[j] == fs.drop_first()[j - 1]);
                    }
                }
                assert(fs[k + 1 as int] == fs.drop_first()[k as int]);
            }
        }
    }
}

/// Copying a struct variable (one that no `match` arm has bound) into
/// `dest` copies every scalar field of the struct from `x.field` to
/// `dest.field`, at the field's type.
pub proof fn law_struct_variable_copy(dest: Seq<char>, sname: Seq<char>, source: CExprV, env: CodegenEnvV)
    requires
        source.exp is Ident,
        !env.aliases.dom().contains(source.exp->Ident_0),
        lower_copy_to_prefix(dest, TypeV::Struct(sname), source, env) is Some,
    ensures
        lower_copy_to_prefix(dest, TypeV::Struct(sname), source, env) matches Some((insts, env1)) && find_decl(
            env.decls,
            UDTKind::Struct,
            sname,
        ) matches Some(d) && {
            let x = source.exp->Ident_0;
            &&& env1 == env
            &&& forall|i: int|
                0 <= i < d.members.len() ==> (#[trigger] d.members[i] matches UDTMemberV::Field { name: f, ty: t }
                    ==> (!(t is Struct || t is Enum) ==> insts.contains(
                    InstructionV::CopyAssignment(
                        AddressV::Variable(dest + "."@ + f, t),
                        AddressV::Variable(x + "."@ + f, t),
                    ),
                )))
        },
{
    let x = source.exp->Ident_0;
    let d = find_decl(env.decls, UDTKind::Struct, sname)->0;
    let fields = member_fields(d.members);
    lemma_member_fields(d.members);
    lemma_fields_copy_contains(dest, x, fields, env.decls, copy_fuel(env.decls));
    let (insts, _) = lower_copy_to_prefix(dest, TypeV::Struct(sname), source, env)->0;
    let copies = component_fields_copy(dest, x, fields, env.decls, copy_fuel(env.decls))->0;
    assert(insts == copies);
    assert forall|i: int| 0 <= i < d.members.len() implies (#[trigger] d.members[i] matches UDTMemberV::Field {
        name: f,
        ty: t,
    } ==> (!(t is Struct || t is Enum) ==> insts.contains(
        InstructionV::CopyAssignment(AddressV::Variable(dest + "."@ + f, t), AddressV::Variable(x + "."@ + f, t)),
    ))) by {
        if let UDTMemberV::Field { name: f, ty: t } = d.members[i] {
            let j = choose|j: int| 0 <= j < fields.len() && fields[j] == (f, t);
            assert(fields[j].0 == f && fields[j].1 == t);
        }
    }
}

/// Copying an enum variable (one that no `match` arm has bound) into
/// `dest` copies its tag first, from `x.tag` to `dest.tag`.
pub proof fn law_enum_variable_copy(dest: Seq<char>, ename: Seq<char>, source: CExprV, env: CodegenEnvV)
    requires
        source.exp is Ident,
        !env.aliases.dom().contains(source.exp->Ident_0),
        lower_copy_to_prefix(dest, TypeV::Enum(ename), source, env) is Some,
    ensures
        lower_copy_to_prefix(dest, TypeV::Enum(ename), source, env) matches Some((insts, env1)) && {
            &&& env1 == env
            &&& insts.len() > 0
            &&& insts[0] == InstructionV::CopyAssignment(
                AddressV::Variable(dest + "."@ + "tag"@, TypeV::Int),
                AddressV::Variable(source.exp->Ident_0 + "."@ + "tag"@, TypeV::Int),
            )
        },
{
}

/// The address of argument `i`, translated after the arguments before it.
#[verifier::opaque]
pub open spec fn argument_address(args: Seq<CExprV>, env: CodegenEnvV, i: int) -> Option<AddressV> {
    match translate_arguments(args.take(i), env) {
        Some((_, _, env_i)) => match translate_expression(args[i], env_i) {
            Some((a, _, _)) => Some(a),
            None => None,
        },
        None => None,
    }
}

proof fn lemma_argument_address_last(args: Seq<CExprV>, env: CodegenEnvV)
    requires
        args.len() > 0,
        translate_arguments(args, env) is Some,
    ensures
        translate_arguments(args, env) matches Some((addrs, _, _)) && translate_arguments(args.drop_last(), env)
            matches Some((faddrs, _, _)) && {
            &&& addrs == faddrs.push(addrs.last())
            &&& argument_address(args, env, args.len() - 1) == Some(addrs.last())
        },
{
    reveal(argument_address);
    assert(args.take(args.len() - 1) =~= args.drop_last());
}

proof fn lemma_argument_address_front(args: Seq<CExprV>, env: CodegenEnvV, i: int)
    requires
        0 <= i < args.len() - 1,
    ensures
        argument_address(args.drop_last(), env, i) == argument_address(args, env, i),
{
    reveal(argument_address);
    assert(args.drop_last().take(i) =~= args.take(i));
}

/// The arguments of a call are translated left to right: the address of
/// argument `i` is that of `args[i]` translated after the arguments before
/// it.
pub proof fn law_arguments_in_order(args: Seq<CExprV>, env: CodegenEnvV)
    requires
        translate_arguments(args, env) is Some,
    ensures
        translate_arguments(args, env) matches Some((addrs, _, _)) && {
            &&& addrs.len() == args.len()
            &&& forall|i: int| 0 <= i < args.len() ==> #[trigger] argument_address(args, env, i) == Some(addrs[i])
        },
    decreases args.len(),
{
    lemma_arguments_len(args, env);
    if args.len() > 0 {
        let front = args.drop_last();
        lemma_argument_address_last(args, env);
        law_arguments_in_order(front, env);
        let (addrs, _, _) = translate_arguments(args, env)->0;
        let (faddrs, _, _) = translate_arguments(front, env)->0;
        assert forall|i: int| 0 <= i < args.len() implies #[trigger] argument_address(args, env, i) == Some(addrs[i]) by {
            if i < args.len() - 1 {
                lemma_argument_address_front(args, env, i);
                assert(addrs[i] == faddrs[i]);
            }
        }
    }
}

} // verus!
