//! What the typing rules say of each kind of expression and statement, in
//! terms of the types of their parts.
use vstd::prelude::*;
use crate::ir::ast::{CExprV, ExprV, LiteralV, MatchArmV, StatementV, TypeV, UDTKind, UDTMemberV, UExprV, UStmtV};
use crate::semantic::environment::{find_decl, lookup, TypeEnvV};
use crate::semantic::rules::{
    check_arms, check_elements_agree, check_elems, check_expr, check_stmt, check_struct_fields, compatible, field_names, field_type,
    insert_position, remove_name, sort_names,
    unmatched_variants, variant_payload,
};
use crate::semantic::type_checker::operands;

verus! {

pub open spec fn numeric(t: TypeV) -> bool {
    t is Int || t is Float
}

/// A literal always checks, at the type of its kind.
pub proof fn law_literal_types(e: UExprV, env: TypeEnvV, expected: Option<TypeV>)
    requires
        e.exp is Literal,
    ensures
        check_expr(e, env, expected) matches Ok(c) && c.exp == ExprV::<TypeV>::Literal(e.exp->Literal_0) && match e.exp->Literal_0 {
            LiteralV::Int(_) => c.ty is Int,
            LiteralV::Float(_) => c.ty is Float,
            LiteralV::Str(_) => c.ty is Str,
            LiteralV::Bool(_) => c.ty is Bool,
        },
{
}

/// A name checks exactly when it is bound to a type other than a function
/// type, and then has that type.
pub proof fn law_identifier_types(e: UExprV, env: TypeEnvV, expected: Option<TypeV>)
    requires
        e.exp is Ident,
    ensures
        check_expr(e, env, expected) is Ok <==> (lookup(env.bindings, e.exp->Ident_0) matches Some(t)
            && !(t is Function)),
        check_expr(e, env, expected) matches Ok(c) ==> lookup(env.bindings, e.exp->Ident_0) == Some(c.ty),
{
}

/// `+ - * /` check exactly when both operands check with numeric types; the
/// result is `Int` when both are `Int` and `Float` otherwise.
pub proof fn law_arithmetic_types(e: UExprV, env: TypeEnvV, expected: Option<TypeV>)
    requires
        e.exp is Add || e.exp is Sub || e.exp is Mul || e.exp is Div,
    ensures
        check_expr(e, env, expected) is Ok <==> (check_expr(operands(e.exp).0, env, None) matches Ok(cl)
            && check_expr(operands(e.exp).1, env, None) matches Ok(cr) && numeric(cl.ty) && numeric(cr.ty)),
        check_expr(e, env, expected) matches Ok(c) ==> (check_expr(operands(e.exp).0, env, None) matches Ok(
            cl,
        ) && check_expr(operands(e.exp).1, env, None) matches Ok(cr) && {
            &&& (c.ty is Int) == (cl.ty is Int && cr.ty is Int)
            &&& numeric(c.ty)
        }),
{
}

/// `< <= > >=` check exactly when both operands check with numeric types,
/// and give `Bool`.
pub proof fn law_ordering_types(e: UExprV, env: TypeEnvV, expected: Option<TypeV>)
    requires
        e.exp is Lt || e.exp is Le || e.exp is Gt || e.exp is Ge,
    ensures
        check_expr(e, env, expected) is Ok <==> (check_expr(operands(e.exp).0, env, None) matches Ok(cl)
            && check_expr(operands(e.exp).1, env, None) matches Ok(cr) && numeric(cl.ty) && numeric(cr.ty)),
        check_expr(e, env, expected) matches Ok(c) ==> c.ty is Bool,
{
}

/// `== !=` check exactly when both operands check and the left one's type
/// fits the right one's, and give `Bool`.
pub proof fn law_equality_types(e: UExprV, env: TypeEnvV, expected: Option<TypeV>)
    requires
        e.exp is Eq || e.exp is Ne,
    ensures
        check_expr(e, env, expected) is Ok <==> (check_expr(operands(e.exp).0, env, None) matches Ok(cl)
            && check_expr(operands(e.exp).1, env, None) matches Ok(cr) && compatible(cl.ty, cr.ty)),
        check_expr(e, env, expected) matches Ok(c) ==> c.ty is Bool,
{
}

/// `and` and `or` check exactly when both operands check with type `Bool`,
/// and give `Bool`; so does `not` of one operand.
pub proof fn law_logic_types(e: UExprV, env: TypeEnvV, expected: Option<TypeV>)
    requires
        e.exp is And || e.exp is Or || e.exp is Not,
    ensures
        e.exp is Not ==> (check_expr(e, env, expected) is Ok <==> (check_expr(
            *e.exp->Not_0,
            env,
            None,
        ) matches Ok(ci) && ci.ty is Bool)),
        !(e.exp is Not) ==> (check_expr(e, env, expected) is Ok <==> (check_expr(
            operands(e.exp).0,
            env,
            None,
        ) matches Ok(cl) && check_expr(operands(e.exp).1, env, None) matches Ok(cr) && cl.ty is Bool
            && cr.ty is Bool)),
        check_expr(e, env, expected) matches Ok(c) ==> c.ty is Bool,
{
}

/// An indexing checks to the element type of an array, with an `Int` index.
pub proof fn law_index_types(e: UExprV, env: TypeEnvV, expected: Option<TypeV>)
    requires
        e.exp is Index,
    ensures
        check_expr(e, env, expected) matches Ok(c) ==> (check_expr(*e.exp->Index_base, env, None) matches Ok(
            cb,
        ) && check_expr(*e.exp->Index_index, env, None) matches Ok(ci) && {
            &&& ci.ty is Int
            &&& cb.ty == TypeV::Array(Box::new(c.ty))
        }),
{
}

proof fn lemma_field_type_declared(members: Seq<UDTMemberV>, name: Seq<char>)
    ensures
        field_type(members, name) matches Some(t) ==> exists|i: int|
            0 <= i < members.len() && #[trigger] members[i] == (UDTMemberV::Field { name, ty: t }),
    decreases members.len(),
{
    if members.len() > 0 {
        lemma_field_type_declared(members.drop_first(), name);
        if let Some(t) = field_type(members.drop_first(), name) {
            if !(members[0] matches UDTMemberV::Field { name: n, .. } && n == name) {
                let i = choose|i: int|
                    0 <= i < members.len() - 1 && #[trigger] members.drop_first()[i] == (UDTMemberV::Field {
                        name,
                        ty: t,
                    });
                assert(members[i + 1] == members.drop_first()[i]);
            }
        }
    }
}

/// A member access checks to the type of a field of that name declared in
/// the struct that the base has as its type.
pub proof fn law_member_types(e: UExprV, env: TypeEnvV, expected: Option<TypeV>)
    requires
        e.exp is Member,
    ensures
        check_expr(e, env, expected) matches Ok(c) ==> (check_expr(*e.exp->Member_base, env, None) matches Ok(
            cb,
        ) && cb.ty matches TypeV::Struct(id) && find_decl(env.decls, UDTKind::Struct, id) matches Some(d)
            && exists|i: int|
            0 <= i < d.members.len() && #[trigger] d.members[i] == (UDTMemberV::Field {
                name: e.exp->Member_member,
                ty: c.ty,
            })),
{
    if let Ok(cb) = check_expr(*e.exp->Member_base, env, None) {
        if let TypeV::Struct(id) = cb.ty {
            if let Some(d) = find_decl(env.decls, UDTKind::Struct, id) {
                lemma_field_type_declared(d.members, e.exp->Member_member);
            }
        }
    }
}

/// A cast checks to its target type, from an operand checked with that
/// type expected, when the operand has that type, the two are `Int` and
/// `Float`, or the operand is an initializer of a struct or an enum variant
/// cast to a struct or enum type.
pub proof fn law_cast_types(e: UExprV, env: TypeEnvV, expected: Option<TypeV>)
    requires
        e.exp is Cast,
    ensures
        check_expr(e, env, expected) matches Ok(c) ==> {
            let ty = e.exp->Cast_ty;
            &&& c.ty == ty
            &&& check_expr(*e.exp->Cast_expr, env, Some(ty)) matches Ok(ci) && {
                ||| ci.ty == ty
                ||| ci.ty is Int && ty is Float
                ||| ci.ty is Float && ty is Int
                ||| ty is Struct && ci.exp is Init
                ||| ty is Enum && ci.exp is EnumVariant
            }
        },
{
}

/// A declaration that checks is of a non-`void` type, names a variable not
/// yet bound, has an initializer whose type fits the declared one, and adds
/// exactly the binding of the name to the declared type.
pub proof fn law_declaration(s: UStmtV, env: TypeEnvV, expected_return: TypeV)
    requires
        s.stmt is Decl,
    ensures
        check_stmt(s, env, expected_return) matches Ok((_, env1)) ==> {
            let name = s.stmt->Decl_name;
            let ty = s.stmt->Decl_ty;
            &&& !(ty is Unit)
            &&& lookup(env.bindings, name) is None
            &&& check_expr(*s.stmt->Decl_init, env, Some(ty)) matches Ok(ci) && compatible(ci.ty, ty)
            &&& env1.decls == env.decls
            &&& env1.bindings == env.bindings.push((name, ty))
        },
{
}

/// An assignment that checks has a value whose type fits the target's, and
/// binds nothing.
pub proof fn law_assignment(s: UStmtV, env: TypeEnvV, expected_return: TypeV)
    requires
        s.stmt is Assign,
    ensures
        check_stmt(s, env, expected_return) matches Ok((_, env1)) ==> {
            &&& env1 == env
            &&& check_expr(*s.stmt->Assign_target, env, None) matches Ok(ct) && check_expr(
                *s.stmt->Assign_value,
                env,
                Some(ct.ty),
            ) matches Ok(cv) && compatible(cv.ty, ct.ty)
        },
{
}

/// The condition of an `if` or a `while` that checks is a `Bool`.
pub proof fn law_conditions_are_bool(s: UStmtV, env: TypeEnvV, expected_return: TypeV)
    requires
        s.stmt is If || s.stmt is While,
    ensures
        check_stmt(s, env, expected_return) is Ok ==> (check_expr(
            if s.stmt is If {
                *s.stmt->If_cond
            } else {
                *s.stmt->While_cond
            },
            env,
            None,
        ) matches Ok(cc) && cc.ty is Bool),
{
}

/// A `return` that checks returns nothing from a `void` function, and from
/// any other function a value whose type fits the return type.
pub proof fn law_return(s: UStmtV, env: TypeEnvV, expected_return: TypeV)
    requires
        s.stmt is Return,
    ensures
        check_stmt(s, env, expected_return) matches Ok((_, env1)) ==> env1 == env && match s.stmt->Return_0 {
            None => expected_return is Unit,
            Some(e) => check_expr(*e, env, Some(expected_return)) matches Ok(ce) && {
                &&& !(expected_return is Unit)
                &&& compatible(ce.ty, expected_return)
            },
        },
{
}

proof fn lemma_insert_position_bound(s: Seq<Seq<char>>, x: Seq<char>)
    ensures
        insert_position(s, x) <= s.len(),
    decreases s.len(),
{
    if s.len() > 0 {
        lemma_insert_position_bound(s.drop_first(), x);
    }
}

proof fn lemma_sort_names_len(s: Seq<Seq<char>>)
    ensures
        sort_names(s).len() == s.len(),
    decreases s.len(),
{
    if s.len() > 0 {
        lemma_sort_names_len(s.drop_last());
        lemma_insert_position_bound(sort_names(s.drop_last()), s.last());
    }
}

proof fn lemma_no_unmatched(members: Seq<UDTMemberV>, seen: Seq<Seq<char>>)
    requires
        unmatched_variants(members, seen).len() == 0,
    ensures
        forall|i: int|
            0 <= i < members.len() ==> (#[trigger] members[i] matches UDTMemberV::EnumVariant { name, .. }
                ==> seen.contains(name)),
    decreases members.len(),
{
    if members.len() > 0 {
        let rest = unmatched_variants(members.drop_last(), seen);
        assert(rest.len() == 0);
        lemma_no_unmatched(members.drop_last(), seen);
        assert forall|i: int| 0 <= i < members.len() implies (#[trigger] members[i] matches UDTMemberV::EnumVariant {
            name,
            ..
        } ==> seen.contains(name)) by {
            if i < members.len() - 1 {
                assert(members[i] == members.drop_last()[i]);
            }
        }
    }
}

proof fn lemma_variant_payload_declared(members: Seq<UDTMemberV>, v: Seq<char>)
    ensures
        variant_payload(members, v) is Some ==> exists|i: int|
            0 <= i < members.len() && is_variant_named(#[trigger] members[i], v),
    decreases members.len(),
{
    if members.len() > 0 {
        lemma_variant_payload_declared(members.drop_first(), v);
        if !is_variant_named(members[0], v) {
            if variant_payload(members.drop_first(), v) is Some {
                let i = choose|i: int|
                    0 <= i < members.len() - 1 && is_variant_named(#[trigger] members.drop_first()[i], v);
                assert(members[i + 1] == members.drop_first()[i]);
            }
        }
    }
}

/// Whether `m` is a variant named `v`.
pub open spec fn is_variant_named(m: UDTMemberV, v: Seq<char>) -> bool {
    m matches UDTMemberV::EnumVariant { name, .. } && name == v
}

/// The variants of the arms, in order.
pub open spec fn arm_variants<A>(arms: Seq<MatchArmV<A>>) -> Seq<Seq<char>> {
    Seq::new(arms.len(), |j: int| arms[j].variant)
}

proof fn lemma_arms_seen(
    arms: Seq<MatchArmV<()>>,
    env: TypeEnvV,
    expected_return: TypeV,
    members: Seq<UDTMemberV>,
    ename: Seq<char>,
    seen: Seq<Seq<char>>,
)
    requires
        check_arms(arms, env, expected_return, members, ename, seen) is Ok,
    ensures
        check_arms(arms, env, expected_return, members, ename, seen) matches Ok((_, seen2)) && {
            &&& seen2 == seen + arm_variants(arms)
            &&& forall|j: int| 0 <= j < arms.len() ==> !seen.contains(#[trigger] arms[j].variant)
            &&& forall|j: int, k: int| 0 <= j < k < arms.len() ==> #[trigger] arms[j].variant != #[trigger] arms[k].variant
            &&& forall|j: int| 0 <= j < arms.len() ==> variant_payload(members, #[trigger] arms[j].variant) is Some
        },
    decreases arms.len(),
{
    if arms.len() > 0 {
        let v = arms[0].variant;
        let rest = arms.drop_first();
        lemma_arms_seen(rest, env, expected_return, members, ename, seen.push(v));
        assert(seen.push(v) + arm_variants(rest) =~= seen + arm_variants(arms));
        assert forall|j: int| 0 <= j < arms.len() implies !seen.contains(#[trigger] arms[j].variant) by {
            if j > 0 {
                assert(arms[j] == rest[j - 1]);
                if seen.contains(arms[j].variant) {
                    let m = choose|m: int| 0 <= m < seen.len() && seen[m] == arms[j].variant;
                    assert(seen.push(v)[m] == arms[j].variant);
                }
            }
        }
        assert forall|j: int, k: int| 0 <= j < k < arms.len() implies #[trigger] arms[j].variant
            != #[trigger] arms[k].variant by {
            assert(arms[k] == rest[k - 1]);
            if j == 0 {
                assert(seen.push(v)[seen.len() as int] == v);
            } else {
                assert(arms[j] == rest[j - 1]);
            }
        }
        assert forall|j: int| 0 <= j < arms.len() implies variant_payload(members, #[trigger] arms[j].variant) is Some by {
            if j > 0 {
                assert(arms[j] == rest[j - 1]);
            }
        }
    }
}

/// A match that checks is on a value of a declared enum; its arms name
/// variants of that enum, no variant twice, and every variant of the enum
/// has an arm.
pub proof fn law_match_is_exhaustive(s: UStmtV, env: TypeEnvV, expected_return: TypeV)
    requires
        s.stmt is Match,
        check_stmt(s, env, expected_return) is Ok,
    ensures
        check_expr(*s.stmt->Match_target, env, None) matches Ok(ct) && ct.ty matches TypeV::Enum(en)
            && find_decl(env.decls, UDTKind::Enum, en) matches Some(d) && {
            let arms = s.stmt->Match_arms;
            &&& forall|i: int|
                0 <= i < d.members.len() ==> (#[trigger] d.members[i] matches UDTMemberV::EnumVariant { name, .. }
                    ==> exists|j: int| 0 <= j < arms.len() && #[trigger] arms[j].variant == name)
            &&& forall|j: int|
                0 <= j < arms.len() ==> exists|i: int|
                    0 <= i < d.members.len() && is_variant_named(#[trigger] d.members[i], (#[trigger] arms[j]).variant)
            &&& forall|j: int, k: int| 0 <= j < k < arms.len() ==> #[trigger] arms[j].variant != #[trigger] arms[k].variant
        },
{
    let arms = s.stmt->Match_arms;
    let ct = check_expr(*s.stmt->Match_target, env, None)->Ok_0;
    let en = ct.ty->Enum_0;
    let d = find_decl(env.decls, UDTKind::Enum, en)->0;
    lemma_arms_seen(arms, env, expected_return, d.members, en, Seq::empty());
    let seen2 = check_arms(arms, env, expected_return, d.members, en, Seq::empty())->Ok_0.1;
    assert(seen2 =~= arm_variants(arms));
    lemma_sort_names_len(unmatched_variants(d.members, seen2));
    lemma_no_unmatched(d.members, seen2);
    assert forall|i: int| 0 <= i < d.members.len() implies (#[trigger] d.members[i] matches UDTMemberV::EnumVariant {
        name,
        ..
    } ==> exists|j: int| 0 <= j < arms.len() && #[trigger] arms[j].variant == name) by {
        if let UDTMemberV::EnumVariant { name, .. } = d.members[i] {
            assert(seen2.contains(name));
            let j = choose|j: int| 0 <= j < seen2.len() && seen2[j] == name;
            assert(arms[j].variant == name);
        }
    }
    assert forall|j: int| 0 <= j < arms.len() implies exists|i: int|
        0 <= i < d.members.len() && is_variant_named(#[trigger] d.members[i], (#[trigger] arms[j]).variant) by {
        lemma_variant_payload_declared(d.members, arms[j].variant);
    }
}

proof fn lemma_variant_payload_member(members: Seq<UDTMemberV>, v: Seq<char>)
    ensures
        variant_payload(members, v) matches Some(pt) ==> exists|i: int|
            0 <= i < members.len() && #[trigger] members[i] == (UDTMemberV::EnumVariant { name: v, ty: pt }),
    decreases members.len(),
{
    if members.len() > 0 {
        lemma_variant_payload_member(members.drop_first(), v);
        if !is_variant_named(members[0], v) {
            if let Some(pt) = variant_payload(members.drop_first(), v) {
                let i = choose|i: int|
                    0 <= i < members.len() - 1 && #[trigger] members.drop_first()[i] == (UDTMemberV::EnumVariant {
                        name: v,
                        ty: pt,
                    });
                assert(members[i + 1] == members.drop_first()[i]);
            }
        }
    }
}

/// An initializer checked where an enum is expected names exactly one
/// variant, declared in that enum; it carries a payload exactly when that
/// variant declares a payload type, and the payload's type fits it. The
/// result is that variant of that enum.
pub proof fn law_enum_initializer(e: UExprV, env: TypeEnvV, ename: Seq<char>)
    requires
        e.exp is Init,
        check_expr(e, env, Some(TypeV::Enum(ename))) is Ok,
    ensures
        check_expr(e, env, Some(TypeV::Enum(ename))) matches Ok(c) && find_decl(
            env.decls,
            UDTKind::Enum,
            ename,
        ) matches Some(d) && c.exp matches ExprV::EnumVariant { enum_name, variant, payload } && {
            let fields = e.exp->Init_fields;
            &&& fields.len() == 1
            &&& c.ty == TypeV::Enum(ename)
            &&& enum_name == Some(ename)
            &&& variant == fields[0].0
            &&& exists|i: int|
                0 <= i < d.members.len() && #[trigger] d.members[i] == (UDTMemberV::EnumVariant {
                    name: variant,
                    ty: match payload {
                        Some(p) => Some(variant_payload(d.members, variant)->0->0),
                        None => None,
                    },
                })
            &&& (payload is Some) == (fields[0].1 is Some)
            &&& payload matches Some(p) ==> compatible(p.ty, variant_payload(d.members, variant)->0->0)
        },
{
    let d = find_decl(env.decls, UDTKind::Enum, ename)->0;
    lemma_variant_payload_member(d.members, e.exp->Init_fields[0].0);
}

proof fn lemma_remove_name(names: Seq<Seq<char>>, x: Seq<char>, y: Seq<char>)
    ensures
        remove_name(names, x).contains(y) <==> (names.contains(y) && y != x),
    decreases names.len(),
{
    if names.len() > 0 {
        lemma_remove_name(names.drop_last(), x, y);
        let rest = remove_name(names.drop_last(), x);
        if names.drop_last().contains(y) {
            let m = choose|m: int| 0 <= m < names.drop_last().len() && names.drop_last()[m] == y;
            assert(names[m] == y);
        }
        if rest.contains(y) && names.last() != x {
            let m = choose|m: int| 0 <= m < rest.len() && rest[m] == y;
            assert(rest.push(names.last())[m] == y);
        }
        if names.contains(y) {
            let m = choose|m: int| 0 <= m < names.len() && names[m] == y;
            if m < names.len() - 1 {
                assert(names.drop_last()[m] == y);
            }
        }
        if names.last() != x {
            assert(rest.push(names.last())[rest.len() as int] == names.last());
        }
    }
}

proof fn lemma_field_names(members: Seq<UDTMemberV>)
    ensures
        forall|i: int|
            0 <= i < members.len() ==> (#[trigger] members[i] matches UDTMemberV::Field { name, .. }
                ==> field_names(members).contains(name)),
    decreases members.len(),
{
    if members.len() > 0 {
        lemma_field_names(members.drop_last());
        let rest = field_names(members.drop_last());
        assert forall|i: int| 0 <= i < members.len() implies (#[trigger] members[i] matches UDTMemberV::Field {
            name,
            ..
        } ==> field_names(members).contains(name)) by {
            if let UDTMemberV::Field { name, .. } = members[i] {
                if i < members.len() - 1 {
                    assert(members[i] == members.drop_last()[i]);
                    let m = choose|m: int| 0 <= m < rest.len() && rest[m] == name;
                    if let UDTMemberV::Field { name: n2, .. } = members.last() {
                        assert(rest.push(n2)[m] == name);
                    }
                } else if !rest.contains(name) {
                    assert(rest.push(name)[rest.len() as int] == name);
                }
            }
        }
    }
}

/// Whether the given field `fld` has a value that checks, with `ft`
/// expected, to a type that fits `ft`, and `cfield` is the field with that
/// checked value.
pub open spec fn value_fits(
    fld: (Seq<char>, Option<UExprV>),
    ft: TypeV,
    env: TypeEnvV,
    cfield: (Seq<char>, Option<CExprV>),
) -> bool {
    match fld.1 {
        Some(fe) => match check_expr(fe, env, Some(ft)) {
            Ok(cf) => compatible(cf.ty, ft) && cfield == (fld.0, Some(cf)),
            Err(_) => false,
        },
        None => false,
    }
}

/// The names of the given fields, in order.
pub open spec fn given_names<A>(fields: Seq<(Seq<char>, Option<A>)>) -> Seq<Seq<char>> {
    Seq::new(fields.len(), |j: int| fields[j].0)
}

proof fn lemma_struct_fields(
    fields: Seq<(Seq<char>, Option<UExprV>)>,
    sname: Seq<char>,
    members: Seq<UDTMemberV>,
    env: TypeEnvV,
    expected: Seq<Seq<char>>,
)
    requires
        check_struct_fields(fields, sname, members, env, expected) is Ok,
    ensures
        check_struct_fields(fields, sname, members, env, expected) matches Ok((cs, missing)) && {
            &&& cs.len() == fields.len()
            &&& forall|j: int|
                0 <= j < fields.len() ==> (field_type(members, (#[trigger] fields[j]).0) matches Some(ft)
                    && value_fits(fields[j], ft, env, cs[j]))
            &&& forall|j: int| 0 <= j < fields.len() ==> expected.contains(#[trigger] fields[j].0)
            &&& forall|j: int, k: int| 0 <= j < k < fields.len() ==> #[trigger] fields[j].0 != #[trigger] fields[k].0
            &&& forall|y: Seq<char>| #[trigger] missing.contains(y) <==> (expected.contains(y) && !given_names(fields).contains(y))
        },
    decreases fields.len(),
{
    if fields.len() > 0 {
        let fname = fields[0].0;
        let rest = fields.drop_first();
        let expected1 = remove_name(expected, fname);
        lemma_struct_fields(rest, sname, members, env, expected1);
        let (cs, missing) = check_struct_fields(fields, sname, members, env, expected)->Ok_0;
        let (cs1, _) = check_struct_fields(rest, sname, members, env, expected1)->Ok_0;
        assert forall|j: int| 0 <= j < fields.len() implies (field_type(members, (#[trigger] fields[j]).0) matches Some(
            ft,
        ) && value_fits(fields[j], ft, env, cs[j])) by {
            if j > 0 {
                assert(fields[j] == rest[j - 1]);
                assert(cs[j] == cs1[j - 1]);
            }
        }
        assert forall|j: int| 0 <= j < fields.len() implies expected.contains(#[trigger] fields[j].0) by {
            if j > 0 {
                assert(fields[j] == rest[j - 1]);
                lemma_remove_name(expected, fname, fields[j].0);
            }
        }
        assert forall|j: int, k: int| 0 <= j < k < fields.len() implies #[trigger] fields[j].0 != #[trigger] fields[k].0 by {
            assert(fields[k] == rest[k - 1]);
            lemma_remove_name(expected, fname, fields[k].0);
            if j > 0 {
                assert(fields[j] == rest[j - 1]);
            }
        }
        assert forall|y: Seq<char>| #[trigger] missing.contains(y) <==> (expected.contains(y) && !given_names(
            fields,
        ).contains(y)) by {
            lemma_remove_name(expected, fname, y);
            if given_names(rest).contains(y) {
                let m = choose|m: int| 0 <= m < given_names(rest).len() && given_names(rest)[m] == y;
                assert(given_names(fields)[m + 1] == y);
            }
            if given_names(fields).contains(y) {
                let m = choose|m: int| 0 <= m < given_names(fields).len() && given_names(fields)[m] == y;
                if m > 0 {
                    assert(given_names(rest)[m - 1] == y);
                }
            }
            assert(given_names(fields)[0] == fname);
        }
    }
}

/// An initializer checked where a struct is expected gives every field of
/// the struct exactly once, each with a value whose type fits the type the
/// struct declares for it; the result is the initializer of that struct
/// with those values checked.
pub proof fn law_struct_initializer(e: UExprV, env: TypeEnvV, sname: Seq<char>)
    requires
        e.exp is Init,
        check_expr(e, env, Some(TypeV::Struct(sname))) is Ok,
    ensures
        check_expr(e, env, Some(TypeV::Struct(sname))) matches Ok(c) && find_decl(
            env.decls,
            UDTKind::Struct,
            sname,
        ) matches Some(d) && c.exp matches ExprV::Init { fields: cs } && {
            let fields = e.exp->Init_fields;
            &&& c.ty == TypeV::Struct(sname)
            &&& cs.len() == fields.len()
            &&& forall|j: int|
                0 <= j < fields.len() ==> exists|i: int|
                    0 <= i < d.members.len() && #[trigger] d.members[i] == (UDTMemberV::Field {
                        name: (#[trigger] fields[j]).0,
                        ty: field_type(d.members, fields[j].0)->0,
                    }) && value_fits(fields[j], field_type(d.members, fields[j].0)->0, env, cs[j])
            &&& forall|j: int, k: int| 0 <= j < k < fields.len() ==> #[trigger] fields[j].0 != #[trigger] fields[k].0
            &&& forall|i: int|
                0 <= i < d.members.len() ==> (#[trigger] d.members[i] matches UDTMemberV::Field { name, .. }
                    ==> given_names(fields).contains(name))
        },
{
    let fields = e.exp->Init_fields;
    let d = find_decl(env.decls, UDTKind::Struct, sname)->0;
    lemma_struct_fields(fields, sname, d.members, env, field_names(d.members));
    lemma_field_names(d.members);
    let (cs, missing) = check_struct_fields(fields, sname, d.members, env, field_names(d.members))->Ok_0;
    assert forall|j: int| 0 <= j < fields.len() implies exists|i: int|
        0 <= i < d.members.len() && #[trigger] d.members[i] == (UDTMemberV::Field {
            name: (#[trigger] fields[j]).0,
            ty: field_type(d.members, fields[j].0)->0,
        }) && value_fits(fields[j], field_type(d.members, fields[j].0)->0, env, cs[j]) by {
        lemma_field_type_declared(d.members, fields[j].0);
    }
    assert forall|i: int| 0 <= i < d.members.len() implies (#[trigger] d.members[i] matches UDTMemberV::Field {
        name,
        ..
    } ==> given_names(fields).contains(name)) by {
        if let UDTMemberV::Field { name, .. } = d.members[i] {
            if !given_names(fields).contains(name) {
                assert(missing.contains(name));
            }
        }
    }
}

proof fn lemma_elements_agree(elems: Seq<CExprV>, first: TypeV, i: nat)
    ensures
        check_elements_agree(elems, first, i) <==> forall|j: int|
            i <= j < elems.len() ==> compatible(#[trigger] elems[j].ty, first),
    decreases elems.len() - i,
{
    if i < elems.len() {
        lemma_elements_agree(elems, first, i + 1);
    }
}

proof fn lemma_check_elems(elems: Seq<UExprV>, env: TypeEnvV)
    ensures
        check_elems(elems, env) matches Ok(cs) ==> cs.len() == elems.len() && forall|j: int|
            0 <= j < elems.len() ==> check_expr(#[trigger] elems[j], env, None) == Ok::<CExprV, Seq<char>>(cs[j]),
    decreases elems.len(),
{
    if elems.len() > 0 {
        lemma_check_elems(elems.drop_first(), env);
        if let Ok(cs) = check_elems(elems, env) {
            let rest = check_elems(elems.drop_first(), env)->Ok_0;
            assert forall|j: int| 0 <= j < elems.len() implies check_expr(#[trigger] elems[j], env, None)
                == Ok::<CExprV, Seq<char>>(cs[j]) by {
                if j > 0 {
                    assert(elems[j] == elems.drop_first()[j - 1]);
                    assert(cs[j] == rest[j - 1]);
                }
            }
        }
    }
}

/// A non-empty array literal checks only when every element checks and
/// every later element's type fits the first one's; it is an array of the first
/// element's type.
pub proof fn law_array_literal(e: UExprV, env: TypeEnvV, expected: Option<TypeV>)
    requires
        e.exp is ArrayLit,
    ensures
        check_expr(e, env, expected) matches Ok(c) ==> {
            let elems = e.exp->ArrayLit_0;
            &&& elems.len() > 0
            &&& check_expr(elems[0], env, None) matches Ok(c0) && {
                &&& c.ty == TypeV::Array(Box::new(c0.ty))
                &&& forall|j: int|
                    1 <= j < elems.len() ==> (check_expr(#[trigger] elems[j], env, None) matches Ok(cj)
                        && compatible(cj.ty, c0.ty))
            }
        },
        e.exp->ArrayLit_0.len() == 0 ==> check_expr(e, env, expected) is Err,
{
    let elems = e.exp->ArrayLit_0;
    lemma_check_elems(elems, env);
    if let Ok(cs) = check_elems(elems, env) {
        if cs.len() > 0 {
            lemma_elements_agree(cs, cs[0].ty, 1);
        }
    }
}

} // verus!
