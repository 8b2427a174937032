//! What translation does to the generator's environment: it only moves the
//! counters forward. The names a `match` arm binds are gone once the arm is
//! done, and the type declarations stay as they were.
use vstd::prelude::*;
use crate::ir::ast::{main_index, CExprV, CProgramV, CStmtV, ExprV, MatchArmV, StatementV, TypeV};
use crate::ir::tac::{AddressV, Operator};
use crate::text::{decimal, lemma_numbered_names_differ};
use crate::codegen::lowering::{
    address_prefix, alias_of, dotted, lower_copy_to_prefix, lower_enum_copy, lower_enum_variant,
    lower_init_fields, lower_initializer, lower_struct_copy, new_label, new_match_binding,
    new_struct_temp, restore_alias, translate_arguments, translate_arm, translate_arms,
    translate_conditional_false, translate_expression, translate_if, translate_lvalue,
    translate_member_address, translate_program, translate_relational_false, translate_statement,
    translate_statements, variant_payload_ty, variant_tag_index, CodegenEnvV, label_name,
    temporary_name, struct_temp_name, match_binding_name,
};

verus! {

/// `env1` has the aliases and the type declarations of `env0`, and none of
/// its counters is behind those of `env0`.
pub open spec fn moves_forward(env0: CodegenEnvV, env1: CodegenEnvV) -> bool {
    &&& env1.aliases == env0.aliases
    &&& env1.decls == env0.decls
    &&& env0.label <= env1.label
    &&& env0.temporary <= env1.temporary
    &&& env0.struct_temp <= env1.struct_temp
    &&& env0.match_binding <= env1.match_binding
}

proof fn lemma_expression_forward(e: CExprV, env: CodegenEnvV)
    ensures
        translate_expression(e, env) matches Some((_, _, env1)) ==> moves_forward(env, env1),
    decreases e, 1nat,
{
    match e.exp {
        ExprV::Member { base, member } => lemma_member_forward(*base, member, e.ty, env),
        ExprV::Not(x) => lemma_expression_forward(*x, env),
        ExprV::Or(l, r) => {
            lemma_expression_forward(*l, env);
            if let Some((_, _, env1)) = translate_expression(*l, env) {
                lemma_expression_forward(*r, env1);
            }
        },
        ExprV::And(l, r) => {
            lemma_expression_forward(*l, env);
            if let Some((_, _, env1)) = translate_expression(*l, env) {
                lemma_expression_forward(*r, env1);
            }
        },
        ExprV::Add(l, r) => {
            lemma_expression_forward(*l, env);
            if let Some((_, _, env1)) = translate_expression(*l, env) {
                lemma_expression_forward(*r, env1);
            }
        },
        ExprV::Init { .. } => {
            if let Some((name, env1)) = new_struct_temp(env) {
                lemma_initializer_forward(name, e, env1);
            }
        },
        ExprV::EnumVariant { .. } => {
            if let Some((name, env1)) = new_struct_temp(env) {
                lemma_initializer_forward(name, e, env1);
            }
        },
        ExprV::Cast { expr, .. } => lemma_expression_forward(*expr, env),
        _ => {},
    }
}

proof fn lemma_member_forward(base: CExprV, member: Seq<char>, ty: TypeV, env: CodegenEnvV)
    ensures
        translate_member_address(base, member, ty, env) matches Some((_, env1)) ==> moves_forward(env, env1),
    decreases base, 2nat,
{
    lemma_expression_forward(base, env);
}

proof fn lemma_initializer_forward(dest: Seq<char>, e: CExprV, env: CodegenEnvV)
    ensures
        lower_initializer(dest, e, env) matches Some((_, env1)) ==> moves_forward(env, env1),
    decreases e, 0nat,
{
    match e.exp {
        ExprV::Init { fields } => lemma_init_fields_forward(dest, fields, env),
        ExprV::EnumVariant { enum_name, variant, payload } => {
            if let TypeV::Enum(n) = e.ty {
                lemma_enum_variant_forward(dest, n, enum_name, variant, payload, env);
            }
        },
        _ => {},
    }
}

proof fn lemma_init_fields_forward(dest: Seq<char>, fields: Seq<(Seq<char>, Option<CExprV>)>, env: CodegenEnvV)
    ensures
        lower_init_fields(dest, fields, env) matches Some((_, env1)) ==> moves_forward(env, env1),
    decreases fields, 0nat,
{
    if fields.len() > 0 {
        if let Some(fe) = fields[0].1 {
            lemma_copy_forward(dotted(dest, fields[0].0), fe.ty, fe, env);
            if let Some((_, env1)) = lower_copy_to_prefix(dotted(dest, fields[0].0), fe.ty, fe, env) {
                lemma_init_fields_forward(dest, fields.drop_first(), env1);
            }
        }
    }
}

proof fn lemma_enum_variant_forward(
    dest: Seq<char>,
    n: Seq<char>,
    enum_name: Option<Seq<char>>,
    variant: Seq<char>,
    payload: Option<Box<CExprV>>,
    env: CodegenEnvV,
)
    ensures
        lower_enum_variant(dest, n, enum_name, variant, payload, env) matches Some((_, env1))
            ==> moves_forward(env, env1),
    decreases payload, 0nat,
{
    if let Some(p) = payload {
        lemma_copy_forward(dotted(dest, "payload"@), p.ty, *p, env);
    }
}

proof fn lemma_copy_forward(dest: Seq<char>, dest_ty: TypeV, source: CExprV, env: CodegenEnvV)
    ensures
        lower_copy_to_prefix(dest, dest_ty, source, env) matches Some((_, env1)) ==> moves_forward(env, env1),
    decreases source, 3nat,
{
    match dest_ty {
        TypeV::Struct(s) => lemma_struct_copy_forward(dest, s, source, env),
        TypeV::Enum(n) => lemma_enum_copy_forward(dest, n, source, env),
        _ => lemma_expression_forward(source, env),
    }
}

proof fn lemma_struct_copy_forward(dest: Seq<char>, s: Seq<char>, source: CExprV, env: CodegenEnvV)
    ensures
        lower_struct_copy(dest, s, source, env) matches Some((_, env1)) ==> moves_forward(env, env1),
    decreases source, 2nat,
{
    match source.exp {
        ExprV::Cast { expr, .. } => lemma_copy_forward(dest, source.ty, *expr, env),
        ExprV::Init { fields } => lemma_init_fields_forward(dest, fields, env),
        _ => lemma_expression_forward(source, env),
    }
}

proof fn lemma_enum_copy_forward(dest: Seq<char>, n: Seq<char>, source: CExprV, env: CodegenEnvV)
    ensures
        lower_enum_copy(dest, n, source, env) matches Some((_, env1)) ==> moves_forward(env, env1),
    decreases source, 2nat,
{
    match source.exp {
        ExprV::Cast { expr, .. } => lemma_copy_forward(dest, source.ty, *expr, env),
        ExprV::EnumVariant { enum_name, variant, payload } => lemma_enum_variant_forward(
            dest,
            n,
            enum_name,
            variant,
            payload,
            env,
        ),
        _ => lemma_expression_forward(source, env),
    }
}

proof fn lemma_relational_forward(l: CExprV, r: CExprV, op: Operator, label: Seq<char>, env: CodegenEnvV)
    ensures
        translate_relational_false(l, r, op, label, env) matches Some((_, env1)) ==> moves_forward(env, env1),
{
    lemma_expression_forward(l, env);
    if let Some((_, _, env1)) = translate_expression(l, env) {
        lemma_expression_forward(r, env1);
    }
}

proof fn lemma_conditional_forward(e: CExprV, env: CodegenEnvV, label: Seq<char>)
    ensures
        translate_conditional_false(e, env, label) matches Some((_, env1)) ==> moves_forward(env, env1),
{
    match e.exp {
        ExprV::Lt(l, r) => lemma_relational_forward(*l, *r, Operator::GTE, label, env),
        ExprV::Le(l, r) => lemma_relational_forward(*l, *r, Operator::GT, label, env),
        ExprV::Gt(l, r) => lemma_relational_forward(*l, *r, Operator::LTE, label, env),
        ExprV::Ge(l, r) => lemma_relational_forward(*l, *r, Operator::LT, label, env),
        ExprV::Eq(l, r) => lemma_relational_forward(*l, *r, Operator::NE, label, env),
        ExprV::Ne(l, r) => lemma_relational_forward(*l, *r, Operator::EQ, label, env),
        _ => lemma_expression_forward(e, env),
    }
}

proof fn lemma_lvalue_forward(target: CExprV, env: CodegenEnvV)
    ensures
        translate_lvalue(target, env) matches Some((_, env1)) ==> moves_forward(env, env1),
{
    if let ExprV::Member { base, member } = target.exp {
        lemma_member_forward(*base, member, target.ty, env);
    }
}

proof fn lemma_arguments_forward(args: Seq<CExprV>, env: CodegenEnvV)
    ensures
        translate_arguments(args, env) matches Some((_, _, env1)) ==> moves_forward(env, env1),
    decreases args.len(),
{
    if args.len() > 0 {
        lemma_arguments_forward(args.drop_last(), env);
        if let Some((_, _, env1)) = translate_arguments(args.drop_last(), env) {
            lemma_expression_forward(args.last(), env1);
        }
    }
}

proof fn lemma_statement_forward(s: CStmtV, env: CodegenEnvV)
    ensures
        translate_statement(s, env) matches Some((_, env1)) ==> moves_forward(env, env1),
    decreases s, 1nat,
{
    match s.stmt {
        StatementV::Block { seq } => lemma_statements_forward(seq, env),
        StatementV::Decl { name, ty, init } => lemma_copy_forward(name, ty, *init, env),
        StatementV::Assign { target, value } => {
            lemma_lvalue_forward(*target, env);
            if let Some((a, env1)) = translate_lvalue(*target, env) {
                if let Some(p) = address_prefix(a) {
                    let t = match a {
                        AddressV::Variable(_, t) => t,
                        AddressV::Temporary(_, t) => t,
                        AddressV::Constant(_, t) => t,
                    };
                    lemma_copy_forward(p, t, *value, env1);
                }
            }
        },
        StatementV::Call { args, .. } => lemma_arguments_forward(args, env),
        StatementV::If { else_branch: Some(_), .. } => lemma_if_forward(s, env),
        StatementV::Match { target, arms } => {
            if let Some((end_label, env1)) = new_label(env) {
                if let TypeV::Enum(enum_name) = target.ty {
                    lemma_expression_forward(*target, env1);
                    if let Some((ta, _, env2)) = translate_expression(*target, env1) {
                        if let AddressV::Variable(tag_var, _) = ta {
                            lemma_arms_forward(arms, env2, enum_name, tag_var, end_label);
                        }
                    }
                }
            }
        },
        _ => {},
    }
}

proof fn lemma_if_forward(s: CStmtV, env: CodegenEnvV)
    ensures
        translate_if(s, env) matches Some((_, env1)) ==> moves_forward(env, env1),
    decreases s, 0nat,
{
    if let StatementV::If { cond, then_branch, else_branch: Some(else_body) } = s.stmt {
        if let Some((label_else, env1)) = new_label(env) {
            if let Some((_, env2)) = new_label(env1) {
                lemma_conditional_forward(*cond, env2, label_else);
                if let Some((_, env3)) = translate_conditional_false(*cond, env2, label_else) {
                    lemma_statement_forward(*then_branch, env3);
                    if let Some((_, env4)) = translate_statement(*then_branch, env3) {
                        lemma_statement_forward(*else_body, env4);
                    }
                }
            }
        }
    }
}

proof fn lemma_statements_forward(seq: Seq<CStmtV>, env: CodegenEnvV)
    ensures
        translate_statements(seq, env) matches Some((_, env1)) ==> moves_forward(env, env1),
    decreases seq, 0nat,
{
    if seq.len() > 0 {
        lemma_statement_forward(seq[0], env);
        if let Some((_, env1)) = translate_statement(seq[0], env) {
            lemma_statements_forward(seq.drop_first(), env1);
        }
    }
}

proof fn lemma_arms_forward(
    arms: Seq<MatchArmV<TypeV>>,
    env: CodegenEnvV,
    enum_name: Seq<char>,
    tag_var: Seq<char>,
    end_label: Seq<char>,
)
    ensures
        translate_arms(arms, env, enum_name, tag_var, end_label) matches Some((_, env1)) ==> moves_forward(
            env,
            env1,
        ),
    decreases arms, 0nat,
{
    if arms.len() > 0 {
        lemma_arm_forward(arms[0], env, enum_name, tag_var, end_label);
        if let Some((_, env1)) = translate_arm(arms[0], env, enum_name, tag_var, end_label) {
            lemma_arms_forward(arms.drop_first(), env1, enum_name, tag_var, end_label);
        }
    }
}

proof fn lemma_arm_forward(
    arm: MatchArmV<TypeV>,
    env: CodegenEnvV,
    enum_name: Seq<char>,
    tag_var: Seq<char>,
    end_label: Seq<char>,
)
    ensures
        translate_arm(arm, env, enum_name, tag_var, end_label) matches Some((_, env1)) ==> moves_forward(
            env,
            env1,
        ),
    decreases arm, 0nat,
{
    if let Some((_, env1)) = new_label(env) {
        if let Some(_) = variant_tag_index(env1.decls, enum_name, arm.variant) {
            match arm.binding {
                Some(b) => {
                    if let Some(pt) = variant_payload_ty(env1.decls, enum_name, arm.variant) {
                        if let Some((mb, env2)) = new_match_binding(env1) {
                            let baddr = AddressV::Temporary(mb, pt);
                            let previous = alias_of(env2, b);
                            let env3 = CodegenEnvV { aliases: env2.aliases.insert(b, baddr), ..env2 };
                            lemma_statement_forward(*arm.body, env3);
                            if let Some((_, env4)) = translate_statement(*arm.body, env3) {
                                assert(restore_alias(env4, b, previous).aliases =~= env2.aliases);
                            }
                        }
                    }
                },
                None => lemma_statement_forward(*arm.body, env1),
            }
        }
    }
}

/// Translating a statement leaves the addresses that names stand for, and
/// the type declarations, as they were; no counter goes back, so no label or
/// temporary made later repeats one made before. In particular the payload
/// binding of a `match` arm does not outlive the arm.
pub proof fn law_statement_moves_forward(s: CStmtV, env: CodegenEnvV)
    requires
        translate_statement(s, env) is Some,
    ensures
        translate_statement(s, env) matches Some((_, env1)) && moves_forward(env, env1),
{
    lemma_statement_forward(s, env);
}

/// Translating a program leaves the addresses that names stand for as they
/// were and installs the program's type declarations.
pub proof fn law_program_moves_forward(p: CProgramV, env: CodegenEnvV)
    requires
        translate_program(p, env) is Some,
    ensures
        translate_program(p, env) matches Some((_, env1)) && moves_forward(
            CodegenEnvV { decls: p.type_declarations, ..env },
            env1,
        ),
{
    let i = main_index(p.functions)->0;
    lemma_statement_forward(*p.functions[i as int].body, CodegenEnvV { decls: p.type_declarations, ..env });
}

/// Names made from different counter values differ: two labels, two
/// temporaries, two initializer temporaries or two match bindings made at
/// different points of a translation never coincide.
pub proof fn law_fresh_names_differ(n: nat, m: nat)
    requires
        n != m,
    ensures
        label_name(n) != label_name(m),
        temporary_name(n) != temporary_name(m),
        struct_temp_name(n) != struct_temp_name(m),
        match_binding_name(n) != match_binding_name(m),
{
    lemma_numbered_names_differ("Label"@, ":"@, n, m);
    lemma_numbered_names_differ("temp"@, Seq::empty(), n, m);
    lemma_numbered_names_differ("_init"@, Seq::empty(), n, m);
    lemma_numbered_names_differ("_match"@, Seq::empty(), n, m);
    assert("temp"@ + decimal(n) + Seq::empty() =~= temporary_name(n));
    assert("temp"@ + decimal(m) + Seq::empty() =~= temporary_name(m));
    assert("_init"@ + decimal(n) + Seq::empty() =~= struct_temp_name(n));
    assert("_init"@ + decimal(m) + Seq::empty() =~= struct_temp_name(m));
    assert("_match"@ + decimal(n) + Seq::empty() =~= match_binding_name(n));
    assert("_match"@ + decimal(m) + Seq::empty() =~= match_binding_name(m));
}

/// The labels that `k` fresh-label requests in a row give, and the
/// environment after them.
pub open spec fn take_labels(env: CodegenEnvV, k: nat) -> Option<(Seq<Seq<char>>, CodegenEnvV)>
    decreases k,
{
    if k == 0 {
        Some((Seq::empty(), env))
    } else {
        match take_labels(env, (k - 1) as nat) {
            None => None,
            Some((ls, env1)) => match new_label(env1) {
                None => None,
                Some((l, env2)) => Some((ls.push(l), env2)),
            },
        }
    }
}

/// `k` fresh-label requests in a row give `Label{n+1}:` up to `Label{n+k}:`,
/// where `n` is the label counter before them, leave the counter at `n + k`
/// and change nothing else; no two of them are equal. From a new
/// environment (`n == 0`) the `i`-th request gives `Label{i}:`.
pub proof fn law_labels_in_sequence(env: CodegenEnvV, k: nat)
    requires
        env.label + k <= usize::MAX,
    ensures
        take_labels(env, k) matches Some((ls, env1)) && {
            &&& ls.len() == k
            &&& env1 == (CodegenEnvV { label: env.label + k, ..env })
            &&& forall|i: int| 0 <= i < k ==> #[trigger] ls[i] == label_name((env.label + i + 1) as nat)
            &&& forall|i: int, j: int| 0 <= i < j < k ==> #[trigger] ls[i] != #[trigger] ls[j]
        },
    decreases k,
{
    if k > 0 {
        law_labels_in_sequence(env, (k - 1) as nat);
        let (ls0, env1) = take_labels(env, (k - 1) as nat)->0;
        let (l, env2) = new_label(env1)->0;
        let ls = ls0.push(l);
        assert forall|i: int| 0 <= i < k implies #[trigger] ls[i] == label_name((env.label + i + 1) as nat) by {
            if i < k - 1 {
                assert(ls[i] == ls0[i]);
            }
        }
        assert forall|i: int, j: int| 0 <= i < j < k implies #[trigger] ls[i] != #[trigger] ls[j] by {
            assert(ls[i] == label_name((env.label + i + 1) as nat));
            assert(ls[j] == label_name((env.label + j + 1) as nat));
            law_fresh_names_differ((env.label + i + 1) as nat, (env.label + j + 1) as nat);
        }
    }
}

/// Binding `name` to `address` for the length of a `match` arm and then
/// putting back what `name` stood for before gives the environment back
/// exactly: the same aliases for every name, the same counters and the same
/// type declarations.
pub proof fn law_alias_round_trip(env: CodegenEnvV, name: Seq<char>, address: AddressV)
    ensures
        restore_alias(
            CodegenEnvV { aliases: env.aliases.insert(name, address), ..env },
            name,
            alias_of(env, name),
        ) == env,
{
    let bound = CodegenEnvV { aliases: env.aliases.insert(name, address), ..env };
    assert(restore_alias(bound, name, alias_of(env, name)).aliases =~= env.aliases);
}

} // verus!
