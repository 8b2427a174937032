//! What the three-address-code generator emits, as spec functions over the
//! views of checked programs. A result of `None` marks an input on which
//! the generator stops: a construct it does not lower, a declaration it
//! cannot find, a value type that contains itself, or a counter at its limit.
use vstd::prelude::*;
use crate::ir::ast::{
    main_index, CExprV, CProgramV, CStmtV, ExprV, LiteralV, MatchArmV, StatementV, TypeV, UDTDeclV,
    UDTKind, UDTMemberV,
};
use crate::ir::tac::{AddressV, InstructionV, Operator};
use crate::semantic::environment::find_decl;
use crate::text::decimal;

verus! {

/// The view of the code generator's environment: its four counters, the
/// type declarations, and the addresses that names currently stand for.
pub struct CodegenEnvV {
    pub label: nat,
    pub temporary: nat,
    pub struct_temp: nat,
    pub match_binding: nat,
    pub decls: Seq<UDTDeclV>,
    pub aliases: Map<Seq<char>, AddressV>,
}

pub open spec fn label_name(n: nat) -> Seq<char> {
    "Label"@ + decimal(n) + ":"@
}

pub open spec fn temporary_name(n: nat) -> Seq<char> {
    "temp"@ + decimal(n)
}

pub open spec fn struct_temp_name(n: nat) -> Seq<char> {
    "_init"@ + decimal(n)
}

pub open spec fn match_binding_name(n: nat) -> Seq<char> {
    "_match"@ + decimal(n)
}

/// A fresh label, and the environment that has used it.
pub open spec fn new_label(env: CodegenEnvV) -> Option<(Seq<char>, CodegenEnvV)> {
    if env.label + 1 > usize::MAX {
        None
    } else {
        Some((label_name(env.label + 1), CodegenEnvV { label: env.label + 1, ..env }))
    }
}

pub open spec fn new_temporary(env: CodegenEnvV) -> Option<(Seq<char>, CodegenEnvV)> {
    if env.temporary + 1 > usize::MAX {
        None
    } else {
        Some((temporary_name(env.temporary + 1), CodegenEnvV { temporary: env.temporary + 1, ..env }))
    }
}

pub open spec fn new_struct_temp(env: CodegenEnvV) -> Option<(Seq<char>, CodegenEnvV)> {
    if env.struct_temp + 1 > usize::MAX {
        None
    } else {
        Some(
            (struct_temp_name(env.struct_temp + 1), CodegenEnvV { struct_temp: env.struct_temp + 1, ..env }),
        )
    }
}

pub open spec fn new_match_binding(env: CodegenEnvV) -> Option<(Seq<char>, CodegenEnvV)> {
    if env.match_binding + 1 > usize::MAX {
        None
    } else {
        Some(
            (
                match_binding_name(env.match_binding + 1),
                CodegenEnvV { match_binding: env.match_binding + 1, ..env },
            ),
        )
    }
}

/// The address `name` stands for: its alias, or else the variable itself.
pub open spec fn name_address(env: CodegenEnvV, name: Seq<char>, ty: TypeV) -> AddressV {
    if env.aliases.dom().contains(name) {
        env.aliases[name]
    } else {
        AddressV::Variable(name, ty)
    }
}

/// `path.member`.
pub open spec fn dotted(path: Seq<char>, member: Seq<char>) -> Seq<char> {
    path + "."@ + member
}

/// The position among `members` of the first variant named `variant`.
pub open spec fn variant_position(members: Seq<UDTMemberV>, variant: Seq<char>) -> Option<nat>
    decreases members.len(),
{
    if members.len() == 0 {
        None
    } else if members[0] matches UDTMemberV::EnumVariant { name, .. } && name == variant {
        Some(0)
    } else {
        match variant_position(members.drop_first(), variant) {
            Some(i) => Some(i + 1),
            None => None,
        }
    }
}

/// The tag of `variant` in enum `enum_name`: its position among the members.
pub open spec fn variant_tag_index(decls: Seq<UDTDeclV>, enum_name: Seq<char>, variant: Seq<char>) -> Option<i64> {
    match find_decl(decls, UDTKind::Enum, enum_name) {
        None => None,
        Some(d) => match variant_position(d.members, variant) {
            Some(i) => if i <= i64::MAX {
                Some(i as i64)
            } else {
                None
            },
            None => None,
        },
    }
}

/// The payload type of the first variant named `variant` that has one.
pub open spec fn first_payload(members: Seq<UDTMemberV>, variant: Seq<char>) -> Option<TypeV>
    decreases members.len(),
{
    if members.len() == 0 {
        None
    } else {
        match members[0] {
            UDTMemberV::EnumVariant { name, ty: Some(t) } if name == variant => Some(t),
            _ => first_payload(members.drop_first(), variant),
        }
    }
}

/// The payload type of `variant` in enum `enum_name`, if it has one.
pub open spec fn variant_payload_ty(decls: Seq<UDTDeclV>, enum_name: Seq<char>, variant: Seq<char>) -> Option<TypeV> {
    match find_decl(decls, UDTKind::Enum, enum_name) {
        None => None,
        Some(d) => first_payload(d.members, variant),
    }
}

/// The fields of `members` with their types, in order.
pub open spec fn member_fields(members: Seq<UDTMemberV>) -> Seq<(Seq<char>, TypeV)>
    decreases members.len(),
{
    if members.len() == 0 {
        Seq::empty()
    } else {
        let rest = member_fields(members.drop_last());
        match members.last() {
            UDTMemberV::Field { name, ty } => rest.push((name, ty)),
            _ => rest,
        }
    }
}

/// The fields of struct `name`, if it is declared.
pub open spec fn struct_fields(decls: Seq<UDTDeclV>, name: Seq<char>) -> Option<Seq<(Seq<char>, TypeV)>> {
    match find_decl(decls, UDTKind::Struct, name) {
        Some(d) => Some(member_fields(d.members)),
        None => None,
    }
}

/// The payload types of `members`, each once, in order of first appearance.
pub open spec fn payload_types(members: Seq<UDTMemberV>) -> Seq<TypeV>
    decreases members.len(),
{
    if members.len() == 0 {
        Seq::empty()
    } else {
        let rest = payload_types(members.drop_last());
        match members.last() {
            UDTMemberV::EnumVariant { ty: Some(t), .. } => if rest.contains(t) {
                rest
            } else {
                rest.push(t)
            },
            _ => rest,
        }
    }
}

/// The payload types of enum `name` (none if it is not declared).
pub open spec fn enum_payload_types(decls: Seq<UDTDeclV>, name: Seq<char>) -> Seq<TypeV> {
    match find_decl(decls, UDTKind::Enum, name) {
        Some(d) => payload_types(d.members),
        None => Seq::empty(),
    }
}

/// How deep struct and enum components may nest before a value type must
/// contain itself.
pub open spec fn copy_fuel(decls: Seq<UDTDeclV>) -> nat {
    decls.len() + 1
}

/// The prefix of a variable or temporary address.
pub open spec fn address_prefix(a: AddressV) -> Option<Seq<char>> {
    match a {
        AddressV::Variable(n, _) => Some(n),
        AddressV::Temporary(n, _) => Some(n),
        AddressV::Constant(..) => None,
    }
}

/// The copies of every scalar component of a value of type `ty` from
/// `src` to `dest`, struct fields and enum tags and payloads included.
pub open spec fn component_copy(
    dest: Seq<char>,
    src: Seq<char>,
    ty: TypeV,
    decls: Seq<UDTDeclV>,
    fuel: nat,
) -> Option<Seq<InstructionV>>
    decreases fuel, 0nat, 0nat,
{
    match ty {
        TypeV::Struct(name) => if fuel == 0 {
            None
        } else {
            match struct_fields(decls, name) {
                None => None,
                Some(fields) => component_fields_copy(dest, src, fields, decls, (fuel - 1) as nat),
            }
        },
        TypeV::Enum(name) => if fuel == 0 {
            None
        } else {
            let tag = InstructionV::CopyAssignment(
                AddressV::Variable(dotted(dest, "tag"@), TypeV::Int),
                AddressV::Variable(dotted(src, "tag"@), TypeV::Int),
            );
            match component_payloads_copy(
                dotted(dest, "payload"@),
                dotted(src, "payload"@),
                enum_payload_types(decls, name),
                decls,
                (fuel - 1) as nat,
            ) {
                None => None,
                Some(rest) => Some(seq![tag] + rest),
            }
        },
        _ => Some(
            seq![
                InstructionV::CopyAssignment(AddressV::Variable(dest, ty), AddressV::Variable(src, ty)),
            ],
        ),
    }
}

/// The component copies of each field of `fields`, in order.
pub open spec fn component_fields_copy(
    dest: Seq<char>,
    src: Seq<char>,
    fields: Seq<(Seq<char>, TypeV)>,
    decls: Seq<UDTDeclV>,
    fuel: nat,
) -> Option<Seq<InstructionV>>
    decreases fuel, 1nat, fields.len(),
{
    if fields.len() == 0 {
        Some(Seq::empty())
    } else {
        match component_copy(dotted(dest, fields[0].0), dotted(src, fields[0].0), fields[0].1, decls, fuel) {
            None => None,
            Some(a) => match component_fields_copy(dest, src, fields.drop_first(), decls, fuel) {
                None => None,
                Some(b) => Some(a + b),
            },
        }
    }
}

/// The component copies of an enum payload, once for each payload type.
pub open spec fn component_payloads_copy(
    dest: Seq<char>,
    src: Seq<char>,
    tys: Seq<TypeV>,
    decls: Seq<UDTDeclV>,
    fuel: nat,
) -> Option<Seq<InstructionV>>
    decreases fuel, 1nat, tys.len(),
{
    if tys.len() == 0 {
        Some(Seq::empty())
    } else {
        match component_copy(dest, src, tys[0], decls, fuel) {
            None => None,
            Some(a) => match component_payloads_copy(dest, src, tys.drop_first(), decls, fuel) {
                None => None,
                Some(b) => Some(a + b),
            },
        }
    }
}


pub open spec fn bool_const(b: bool) -> AddressV {
    AddressV::Constant(LiteralV::Bool(b), TypeV::Bool)
}

/// A negation of the value at `addr` (computed by `insts`) into a fresh
/// boolean temporary.
pub open spec fn not_code(addr: AddressV, insts: Seq<InstructionV>, env1: CodegenEnvV) -> Option<
    (AddressV, Seq<InstructionV>, CodegenEnvV),
> {
    match new_label(env1) {
        None => None,
        Some((label_false, env2)) => match new_label(env2) {
            None => None,
            Some((label_exit, env3)) => match new_temporary(env3) {
                None => None,
                Some((t, env4)) => {
                    let temp = AddressV::Temporary(t, TypeV::Bool);
                    Some(
                        (
                            temp,
                            insts + seq![
                                InstructionV::ConditionalJMPFalse(addr, label_false),
                                InstructionV::CopyAssignment(temp, bool_const(false)),
                                InstructionV::JMP(label_exit),
                                InstructionV::Label(label_false),
                                InstructionV::CopyAssignment(temp, bool_const(true)),
                                InstructionV::Label(label_exit),
                            ],
                            env4,
                        ),
                    )
                },
            },
        },
    }
}

/// A short-circuit disjunction of two computed operands into a fresh
/// boolean temporary.
pub open spec fn or_code(
    la: AddressV,
    li: Seq<InstructionV>,
    ra: AddressV,
    ri: Seq<InstructionV>,
    env2: CodegenEnvV,
) -> Option<(AddressV, Seq<InstructionV>, CodegenEnvV)> {
    match new_label(env2) {
        None => None,
        Some((label_true, env3)) => match new_label(env3) {
            None => None,
            Some((label_false, env4)) => match new_label(env4) {
                None => None,
                Some((label_exit, env5)) => match new_temporary(env5) {
                    None => None,
                    Some((t, env6)) => {
                        let temp = AddressV::Temporary(t, TypeV::Bool);
                        Some(
                            (
                                temp,
                                li + seq![
                                    InstructionV::ConditionalJMPFalse(la, label_false),
                                    InstructionV::JMP(label_true),
                                    InstructionV::Label(label_false),
                                ] + ri + seq![
                                    InstructionV::ConditionalJMP(ra, label_true),
                                    InstructionV::CopyAssignment(temp, bool_const(false)),
                                    InstructionV::JMP(label_exit),
                                    InstructionV::Label(label_true),
                                    InstructionV::CopyAssignment(temp, bool_const(true)),
                                    InstructionV::Label(label_exit),
                                ],
                                env6,
                            ),
                        )
                    },
                },
            },
        },
    }
}

/// A short-circuit conjunction of two computed operands into a fresh
/// boolean temporary.
pub open spec fn and_code(
    la: AddressV,
    li: Seq<InstructionV>,
    ra: AddressV,
    ri: Seq<InstructionV>,
    env2: CodegenEnvV,
) -> Option<(AddressV, Seq<InstructionV>, CodegenEnvV)> {
    match new_label(env2) {
        None => None,
        Some((label_false, env3)) => match new_label(env3) {
            None => None,
            Some((label_exit, env4)) => match new_temporary(env4) {
                None => None,
                Some((t, env5)) => {
                    let temp = AddressV::Temporary(t, TypeV::Bool);
                    Some(
                        (
                            temp,
                            li + seq![InstructionV::ConditionalJMPFalse(la, label_false)] + ri + seq![
                                InstructionV::ConditionalJMPFalse(ra, label_false),
                                InstructionV::CopyAssignment(temp, bool_const(true)),
                                InstructionV::JMP(label_exit),
                                InstructionV::Label(label_false),
                                InstructionV::CopyAssignment(temp, bool_const(false)),
                                InstructionV::Label(label_exit),
                            ],
                            env5,
                        ),
                    )
                },
            },
        },
    }
}

/// An addition of two computed operands into a fresh temporary of type `ty`.
pub open spec fn add_code(
    la: AddressV,
    li: Seq<InstructionV>,
    ra: AddressV,
    ri: Seq<InstructionV>,
    ty: TypeV,
    env2: CodegenEnvV,
) -> Option<(AddressV, Seq<InstructionV>, CodegenEnvV)> {
    match new_temporary(env2) {
        None => None,
        Some((t, env3)) => {
            let temp = AddressV::Temporary(t, ty);
            Some((temp, li + ri + seq![InstructionV::BinaryAssignment(Operator::Add, temp, la, ra)], env3))
        },
    }
}

/// The address of `e`'s value and the instructions that compute it.
pub open spec fn translate_expression(e: CExprV, env: CodegenEnvV) -> Option<
    (AddressV, Seq<InstructionV>, CodegenEnvV),
>
    decreases e, 1nat,
{
    match e.exp {
        ExprV::Literal(v) => Some((AddressV::Constant(v, e.ty), Seq::empty(), env)),
        ExprV::Ident(name) => Some((name_address(env, name, e.ty), Seq::empty(), env)),
        ExprV::Member { base, member } => match translate_member_address(*base, member, e.ty, env) {
            None => None,
            Some((a, env1)) => Some((a, Seq::empty(), env1)),
        },
        ExprV::Not(x) => match translate_expression(*x, env) {
            None => None,
            Some((a, insts, env1)) => not_code(a, insts, env1),
        },
        ExprV::Or(l, r) => match translate_expression(*l, env) {
            None => None,
            Some((la, li, env1)) => match translate_expression(*r, env1) {
                None => None,
                Some((ra, ri, env2)) => or_code(la, li, ra, ri, env2),
            },
        },
        ExprV::And(l, r) => match translate_expression(*l, env) {
            None => None,
            Some((la, li, env1)) => match translate_expression(*r, env1) {
                None => None,
                Some((ra, ri, env2)) => and_code(la, li, ra, ri, env2),
            },
        },
        ExprV::Add(l, r) => match translate_expression(*l, env) {
            None => None,
            Some((la, li, env1)) => match translate_expression(*r, env1) {
                None => None,
                Some((ra, ri, env2)) => add_code(la, li, ra, ri, e.ty, env2),
            },
        },
        ExprV::Init { .. } => match new_struct_temp(env) {
            None => None,
            Some((name, env1)) => match lower_initializer(name, e, env1) {
                None => None,
                Some((insts, env2)) => Some((AddressV::Variable(name, e.ty), insts, env2)),
            },
        },
        ExprV::EnumVariant { .. } => match new_struct_temp(env) {
            None => None,
            Some((name, env1)) => match lower_initializer(name, e, env1) {
                None => None,
                Some((insts, env2)) => Some((AddressV::Variable(name, e.ty), insts, env2)),
            },
        },
        ExprV::Cast { expr, .. } => match translate_expression(*expr, env) {
            None => None,
            Some((a, insts, env1)) => Some(
                (
                    match a {
                        AddressV::Constant(l, _) => AddressV::Constant(l, e.ty),
                        AddressV::Variable(n, _) => AddressV::Variable(n, e.ty),
                        AddressV::Temporary(n, _) => AddressV::Temporary(n, e.ty),
                    },
                    insts,
                    env1,
                ),
            ),
        },
        _ => None,
    }
}

/// The address `base.member` (of type `ty`). The base must need no
/// instructions of its own and must not be a constant.
pub open spec fn translate_member_address(base: CExprV, member: Seq<char>, ty: TypeV, env: CodegenEnvV) -> Option<
    (AddressV, CodegenEnvV),
>
    decreases base, 2nat,
{
    match translate_expression(base, env) {
        None => None,
        Some((a, insts, env1)) => if insts.len() != 0 {
            None
        } else {
            match address_prefix(a) {
                None => None,
                Some(p) => Some((AddressV::Variable(dotted(p, member), ty), env1)),
            }
        },
    }
}

/// The lowering of an initializer `e` (of a struct, or of an enum variant)
/// into the components of `dest`: what copying `e` into `dest` at `e`'s own
/// type does.
pub open spec fn lower_initializer(dest: Seq<char>, e: CExprV, env: CodegenEnvV) -> Option<
    (Seq<InstructionV>, CodegenEnvV),
>
    decreases e, 0nat,
{
    match e.exp {
        ExprV::Init { fields } => if e.ty is Struct {
            lower_init_fields(dest, fields, env)
        } else {
            None
        },
        ExprV::EnumVariant { enum_name, variant, payload } => match e.ty {
            TypeV::Enum(n) => lower_enum_variant(dest, n, enum_name, variant, payload, env),
            _ => None,
        },
        _ => None,
    }
}

/// Copies each field initializer into `dest.field`, in order.
pub open spec fn lower_init_fields(
    dest: Seq<char>,
    fields: Seq<(Seq<char>, Option<CExprV>)>,
    env: CodegenEnvV,
) -> Option<(Seq<InstructionV>, CodegenEnvV)>
    decreases fields, 0nat,
{
    if fields.len() == 0 {
        Some((Seq::empty(), env))
    } else {
        match fields[0].1 {
            None => None,
            Some(fe) => match lower_copy_to_prefix(dotted(dest, fields[0].0), fe.ty, fe, env) {
                None => None,
                Some((a, env1)) => match lower_init_fields(dest, fields.drop_first(), env1) {
                    None => None,
                    Some((b, env2)) => Some((a + b, env2)),
                },
            },
        }
    }
}

/// Stores the tag of `variant` (of enum `enum_name`, or else `n`) in
/// `dest.tag` and its payload, if any, in `dest.payload`.
pub open spec fn lower_enum_variant(
    dest: Seq<char>,
    n: Seq<char>,
    enum_name: Option<Seq<char>>,
    variant: Seq<char>,
    payload: Option<Box<CExprV>>,
    env: CodegenEnvV,
) -> Option<(Seq<InstructionV>, CodegenEnvV)>
    decreases payload, 0nat,
{
    let ename = match enum_name {
        Some(x) => x,
        None => n,
    };
    match variant_tag_index(env.decls, ename, variant) {
        None => None,
        Some(ordinal) => {
            let tag = InstructionV::CopyAssignment(
                AddressV::Variable(dotted(dest, "tag"@), TypeV::Int),
                AddressV::Constant(LiteralV::Int(ordinal), TypeV::Int),
            );
            match payload {
                None => Some((seq![tag], env)),
                Some(p) => match lower_copy_to_prefix(dotted(dest, "payload"@), p.ty, *p, env) {
                    None => None,
                    Some((rest, env1)) => Some((seq![tag] + rest, env1)),
                },
            }
        },
    }
}

/// The instructions that store the value of `source` into the variable
/// (or, for a struct or an enum, the components) named `dest`.
pub open spec fn lower_copy_to_prefix(dest: Seq<char>, dest_ty: TypeV, source: CExprV, env: CodegenEnvV) -> Option<
    (Seq<InstructionV>, CodegenEnvV),
>
    decreases source, 3nat,
{
    match dest_ty {
        TypeV::Struct(s) => lower_struct_copy(dest, s, source, env),
        TypeV::Enum(n) => lower_enum_copy(dest, n, source, env),
        _ => match translate_expression(source, env) {
            None => None,
            Some((a, insts, env1)) => Some(
                (insts.push(InstructionV::CopyAssignment(AddressV::Variable(dest, dest_ty), a)), env1),
            ),
        },
    }
}

pub open spec fn lower_struct_copy(dest: Seq<char>, s: Seq<char>, source: CExprV, env: CodegenEnvV) -> Option<
    (Seq<InstructionV>, CodegenEnvV),
>
    decreases source, 2nat,
{
    match source.exp {
        ExprV::Cast { expr, .. } => lower_copy_to_prefix(dest, source.ty, *expr, env),
        ExprV::Init { fields } => lower_init_fields(dest, fields, env),
        _ => match translate_expression(source, env) {
            None => None,
            Some((a, insts, env1)) => match address_prefix(a) {
                None => None,
                Some(p) => match struct_fields(env1.decls, s) {
                    None => None,
                    Some(fields) => match component_fields_copy(
                        dest,
                        p,
                        fields,
                        env1.decls,
                        copy_fuel(env1.decls),
                    ) {
                        None => None,
                        Some(copies) => Some((insts + copies, env1)),
                    },
                },
            },
        },
    }
}

pub open spec fn lower_enum_copy(dest: Seq<char>, n: Seq<char>, source: CExprV, env: CodegenEnvV) -> Option<
    (Seq<InstructionV>, CodegenEnvV),
>
    decreases source, 2nat,
{
    match source.exp {
        ExprV::Cast { expr, .. } => lower_copy_to_prefix(dest, source.ty, *expr, env),
        ExprV::EnumVariant { enum_name, variant, payload } => lower_enum_variant(
            dest,
            n,
            enum_name,
            variant,
            payload,
            env,
        ),
        _ => match translate_expression(source, env) {
            None => None,
            Some((a, insts, env1)) => match address_prefix(a) {
                None => None,
                Some(p) => {
                    let tag = InstructionV::CopyAssignment(
                        AddressV::Variable(dotted(dest, "tag"@), TypeV::Int),
                        AddressV::Variable(dotted(p, "tag"@), TypeV::Int),
                    );
                    match component_payloads_copy(
                        dotted(dest, "payload"@),
                        dotted(p, "payload"@),
                        enum_payload_types(env1.decls, n),
                        env1.decls,
                        copy_fuel(env1.decls),
                    ) {
                        None => None,
                        Some(copies) => Some((insts.push(tag) + copies, env1)),
                    }
                },
            },
        },
    }
}


/// A conditional jump to `label` taken exactly when `op` relates the values
/// of `l` and `r`.
pub open spec fn translate_relational_false(
    l: CExprV,
    r: CExprV,
    op: Operator,
    label: Seq<char>,
    env: CodegenEnvV,
) -> Option<(Seq<InstructionV>, CodegenEnvV)> {
    match translate_expression(l, env) {
        None => None,
        Some((la, li, env1)) => match translate_expression(r, env1) {
            None => None,
            Some((ra, ri, env2)) => Some(
                (li + ri + seq![InstructionV::ConditionalJMPRelational(op, la, ra, label)], env2),
            ),
        },
    }
}

/// The instructions that jump to `label` when `e` is false and fall through
/// when it is true. A comparison jumps on the negated operator.
pub open spec fn translate_conditional_false(e: CExprV, env: CodegenEnvV, label: Seq<char>) -> Option<
    (Seq<InstructionV>, CodegenEnvV),
> {
    match e.exp {
        ExprV::Literal(LiteralV::Bool(true)) => Some((Seq::empty(), env)),
        ExprV::Literal(LiteralV::Bool(false)) => Some((seq![InstructionV::JMP(label)], env)),
        ExprV::Ident(name) => Some(
            (seq![InstructionV::ConditionalJMPFalse(name_address(env, name, e.ty), label)], env),
        ),
        ExprV::Lt(l, r) => translate_relational_false(*l, *r, Operator::GTE, label, env),
        ExprV::Le(l, r) => translate_relational_false(*l, *r, Operator::GT, label, env),
        ExprV::Gt(l, r) => translate_relational_false(*l, *r, Operator::LTE, label, env),
        ExprV::Ge(l, r) => translate_relational_false(*l, *r, Operator::LT, label, env),
        ExprV::Eq(l, r) => translate_relational_false(*l, *r, Operator::NE, label, env),
        ExprV::Ne(l, r) => translate_relational_false(*l, *r, Operator::EQ, label, env),
        _ => match translate_expression(e, env) {
            None => None,
            Some((a, insts, env1)) => Some((insts.push(InstructionV::ConditionalJMPFalse(a, label)), env1)),
        },
    }
}

/// The address an assignment target denotes.
pub open spec fn translate_lvalue(target: CExprV, env: CodegenEnvV) -> Option<(AddressV, CodegenEnvV)> {
    match target.exp {
        ExprV::Ident(name) => Some((name_address(env, name, target.ty), env)),
        ExprV::Member { base, member } => translate_member_address(*base, member, target.ty, env),
        _ => None,
    }
}

/// The arguments translated in order: their addresses and all their
/// instructions.
pub open spec fn translate_arguments(args: Seq<CExprV>, env: CodegenEnvV) -> Option<
    (Seq<AddressV>, Seq<InstructionV>, CodegenEnvV),
>
    decreases args.len(),
{
    if args.len() == 0 {
        Some((Seq::empty(), Seq::empty(), env))
    } else {
        match translate_arguments(args.drop_last(), env) {
            None => None,
            Some((addrs, insts, env1)) => match translate_expression(args.last(), env1) {
                None => None,
                Some((a, i, env2)) => Some((addrs.push(a), insts + i, env2)),
            },
        }
    }
}

/// The environment with the alias of `name` put back to `previous`.
pub open spec fn restore_alias(env: CodegenEnvV, name: Seq<char>, previous: Option<AddressV>) -> CodegenEnvV {
    match previous {
        Some(a) => CodegenEnvV { aliases: env.aliases.insert(name, a), ..env },
        None => CodegenEnvV { aliases: env.aliases.remove(name), ..env },
    }
}

/// The alias `name` has in `env`, if any.
pub open spec fn alias_of(env: CodegenEnvV, name: Seq<char>) -> Option<AddressV> {
    if env.aliases.dom().contains(name) {
        Some(env.aliases[name])
    } else {
        None
    }
}

/// The three-address code of a statement, and the environment after it.
#[verifier::rlimit(60)]
pub open spec fn translate_statement(s: CStmtV, env: CodegenEnvV) -> Option<(Seq<InstructionV>, CodegenEnvV)>
    decreases s, 1nat,
{
    match s.stmt {
        StatementV::Block { seq } => translate_statements(seq, env),
        StatementV::Decl { name, ty, init } => lower_copy_to_prefix(name, ty, *init, env),
        StatementV::Assign { target, value } => match translate_lvalue(*target, env) {
            None => None,
            Some((a, env1)) => match address_prefix(a) {
                None => None,
                Some(p) => lower_copy_to_prefix(
                    p,
                    match a {
                        AddressV::Variable(_, t) => t,
                        AddressV::Temporary(_, t) => t,
                        AddressV::Constant(_, t) => t,
                    },
                    *value,
                    env1,
                ),
            },
        },
        StatementV::Call { name, args } => match translate_arguments(args, env) {
            None => None,
            Some((addrs, insts, env1)) => Some(
                (
                    insts + Seq::new(addrs.len(), |i: int| InstructionV::Param(addrs[i])) + seq![
                        InstructionV::Call(None, name, args.len() as usize),
                    ],
                    env1,
                ),
            ),
        },
        StatementV::If { else_branch: Some(_), .. } => translate_if(s, env),
        StatementV::Match { target, arms } => match new_label(env) {
            None => None,
            Some((end_label, env1)) => match target.ty {
                TypeV::Enum(enum_name) => match translate_expression(*target, env1) {
                    None => None,
                    Some((ta, ti, env2)) => match ta {
                        AddressV::Variable(tag_var, _) => match translate_arms(
                            arms,
                            env2,
                            enum_name,
                            tag_var,
                            end_label,
                        ) {
                            None => None,
                            Some((ai, env3)) => Some((ti + ai + seq![InstructionV::Label(end_label)], env3)),
                        },
                        _ => None,
                    },
                },
                _ => None,
            },
        },
        _ => None,
    }
}

/// An `if` with an `else`: jump to the else branch when the condition is
/// false, else run the then branch and jump past the else branch.
pub open spec fn translate_if(s: CStmtV, env: CodegenEnvV) -> Option<(Seq<InstructionV>, CodegenEnvV)>
    decreases s, 0nat,
{
    match s.stmt {
        StatementV::If { cond, then_branch, else_branch: Some(else_body) } => match new_label(env) {
            None => None,
            Some((label_else, env1)) => match new_label(env1) {
                None => None,
                Some((label_end, env2)) => match translate_conditional_false(*cond, env2, label_else) {
                    None => None,
                    Some((ci, env3)) => match translate_statement(*then_branch, env3) {
                        None => None,
                        Some((ti, env4)) => match translate_statement(*else_body, env4) {
                            None => None,
                            Some((ei, env5)) => Some(
                                (
                                    ci + ti + seq![InstructionV::JMP(label_end), InstructionV::Label(label_else)]
                                        + ei + seq![InstructionV::Label(label_end)],
                                    env5,
                                ),
                            ),
                        },
                    },
                },
            },
        },
        _ => None,
    }
}

/// The code of an `if` with an `else`, assembled from the code of its parts.
pub proof fn lemma_if_result(
    s: CStmtV,
    env0: CodegenEnvV,
    label_else: Seq<char>,
    env1: CodegenEnvV,
    label_end: Seq<char>,
    env2: CodegenEnvV,
    ci: Seq<InstructionV>,
    env3: CodegenEnvV,
    ti: Seq<InstructionV>,
    env4: CodegenEnvV,
    ei: Seq<InstructionV>,
    env5: CodegenEnvV,
)
    requires
        s.stmt is If,
        s.stmt->If_else_branch is Some,
        new_label(env0) == Some((label_else, env1)),
        new_label(env1) == Some((label_end, env2)),
        translate_conditional_false(*s.stmt->If_cond, env2, label_else) == Some((ci, env3)),
        translate_statement(*s.stmt->If_then_branch, env3) == Some((ti, env4)),
        translate_statement(*s.stmt->If_else_branch->0, env4) == Some((ei, env5)),
    ensures
        translate_if(s, env0) == Some(
            (
                ci + ti + seq![InstructionV::JMP(label_end), InstructionV::Label(label_else)] + ei
                    + seq![InstructionV::Label(label_end)],
                env5,
            ),
        ),
{
}

/// The statements translated in order.
pub open spec fn translate_statements(seq: Seq<CStmtV>, env: CodegenEnvV) -> Option<
    (Seq<InstructionV>, CodegenEnvV),
>
    decreases seq, 0nat,
{
    if seq.len() == 0 {
        Some((Seq::empty(), env))
    } else {
        match translate_statement(seq[0], env) {
            None => None,
            Some((a, env1)) => match translate_statements(seq.drop_first(), env1) {
                None => None,
                Some((b, env2)) => Some((a + b, env2)),
            },
        }
    }
}

/// The arms of a match on the enum value `tag_var` of enum `enum_name`, in
/// order.
pub open spec fn translate_arms(
    arms: Seq<MatchArmV<TypeV>>,
    env: CodegenEnvV,
    enum_name: Seq<char>,
    tag_var: Seq<char>,
    end_label: Seq<char>,
) -> Option<(Seq<InstructionV>, CodegenEnvV)>
    decreases arms, 0nat,
{
    if arms.len() == 0 {
        Some((Seq::empty(), env))
    } else {
        match translate_arm(arms[0], env, enum_name, tag_var, end_label) {
            None => None,
            Some((a, env1)) => match translate_arms(arms.drop_first(), env1, enum_name, tag_var, end_label) {
                None => None,
                Some((rest, env2)) => Some((a + rest, env2)),
            },
        }
    }
}

/// One arm: test the tag against the arm's variant (skipping to the next
/// arm on a mismatch), bind the payload to a fresh temporary for the length
/// of the body, run the body, and jump to `end_label`.
pub open spec fn translate_arm(
    arm: MatchArmV<TypeV>,
    env: CodegenEnvV,
    enum_name: Seq<char>,
    tag_var: Seq<char>,
    end_label: Seq<char>,
) -> Option<(Seq<InstructionV>, CodegenEnvV)>
    decreases arm, 0nat,
{
    match new_label(env) {
        None => None,
        Some((next_label, env1)) => match variant_tag_index(env1.decls, enum_name, arm.variant) {
            None => None,
            Some(ordinal) => {
                let test = InstructionV::ConditionalJMPRelational(
                    Operator::NE,
                    AddressV::Variable(dotted(tag_var, "tag"@), TypeV::Int),
                    AddressV::Constant(LiteralV::Int(ordinal), TypeV::Int),
                    next_label,
                );
                let body = match arm.binding {
                    Some(b) => match variant_payload_ty(env1.decls, enum_name, arm.variant) {
                        None => None,
                        Some(pt) => match new_match_binding(env1) {
                            None => None,
                            Some((mb, env2)) => {
                                let baddr = AddressV::Temporary(mb, pt);
                                let copy = InstructionV::CopyAssignment(
                                    baddr,
                                    AddressV::Variable(dotted(tag_var, "payload"@), pt),
                                );
                                let previous = alias_of(env2, b);
                                let env3 = CodegenEnvV { aliases: env2.aliases.insert(b, baddr), ..env2 };
                                match translate_statement(*arm.body, env3) {
                                    None => None,
                                    Some((bi, env4)) => Some((seq![copy] + bi, restore_alias(env4, b, previous))),
                                }
                            },
                        },
                    },
                    None => translate_statement(*arm.body, env1),
                };
                match body {
                    None => None,
                    Some((bi, env5)) => Some(
                        (
                            seq![test] + bi + seq![InstructionV::JMP(end_label), InstructionV::Label(next_label)],
                            env5,
                        ),
                    ),
                }
            },
        },
    }
}

/// The code of a checked program: the label of `main`, then its body,
/// translated with the program's type declarations.
pub open spec fn translate_program(p: CProgramV, env: CodegenEnvV) -> Option<(Seq<InstructionV>, CodegenEnvV)> {
    let env1 = CodegenEnvV { decls: p.type_declarations, ..env };
    match main_index(p.functions) {
        None => None,
        Some(i) => match translate_statement(*p.functions[i as int].body, env1) {
            None => None,
            Some((insts, env2)) => Some((seq![InstructionV::Label(p.functions[i as int].name)] + insts, env2)),
        },
    }
}

} // verus!
