//! Lowering of checked MiniC programs to three-address code. What each
//! function emits is defined in [`crate::codegen::lowering`].
use vstd::prelude::*;
use crate::ir::ast::{
    main_index, CStmtV, MatchArm, MatchArmV, StatementDV, StatementV,
    clone_decls, clone_type, opt_type_view, CheckedExpr, CheckedProgram, CheckedStmt, Expr, ExprD,
    Literal, LiteralV, Statement, Type, TypeV, UDTDecl, UDTDeclV, UDTKind, UDTMember, CExprV, ExprV,
    CheckedFunDecl,
};
use crate::ir::tac::{instrs_view, Address, AddressV, Instruction, InstructionV, Operator, TACProgram};
use crate::codegen::lowering::{
    component_copy, component_fields_copy, component_payloads_copy, dotted, translate_expression,
    translate_member_address, lower_initializer, lower_init_fields, lower_enum_variant,
    lower_copy_to_prefix, lower_struct_copy, lower_enum_copy, address_prefix, copy_fuel, bool_const,
    name_address, translate_statements, translate_arms,
    translate_conditional_false, translate_relational_false, translate_lvalue, translate_arguments,
    translate_arm, not_code, or_code, and_code, add_code,
    alias_of, enum_payload_types, label_name, match_binding_name, member_fields, new_label,
    new_match_binding, new_struct_temp, new_temporary, payload_types, restore_alias,
    struct_fields, struct_temp_name, temporary_name, variant_payload_ty, variant_position,
    variant_tag_index, first_payload, lemma_if_result, CodegenEnvV,
};
use crate::codegen::lowering;
use crate::semantic::environment::{decl_index, find_decl, lemma_decl_index};
use crate::text::push_decimal;

verus! {

/// The addresses that names stand for, from a list of bindings in which a
/// later binding of a name replaces an earlier one.
pub open spec fn alias_map(s: Seq<(Seq<char>, AddressV)>) -> Map<Seq<char>, AddressV>
    decreases s.len(),
{
    if s.len() == 0 {
        Map::empty()
    } else {
        alias_map(s.drop_last()).insert(s.last().0, s.last().1)
    }
}

/// `s` without the bindings of `name`.
pub open spec fn without_key(s: Seq<(Seq<char>, AddressV)>, name: Seq<char>) -> Seq<(Seq<char>, AddressV)>
    decreases s.len(),
{
    if s.len() == 0 {
        s
    } else {
        let rest = without_key(s.drop_last(), name);
        if s.last().0 == name {
            rest
        } else {
            rest.push(s.last())
        }
    }
}

proof fn lemma_without_key(s: Seq<(Seq<char>, AddressV)>, name: Seq<char>)
    ensures
        alias_map(without_key(s, name)) == alias_map(s).remove(name),
    decreases s.len(),
{
    if s.len() > 0 {
        lemma_without_key(s.drop_last(), name);
        let rest = without_key(s.drop_last(), name);
        if s.last().0 != name {
            assert(rest.push(s.last()).drop_last() =~= rest);
        }
        assert(alias_map(without_key(s, name)) =~= alias_map(s).remove(name));
    } else {
        assert(alias_map(s).remove(name) =~= Map::<Seq<char>, AddressV>::empty());
    }
}

proof fn lemma_alias_map_suffix(s: Seq<(Seq<char>, AddressV)>, i: int, name: Seq<char>)
    requires
        0 <= i <= s.len(),
        forall|j: int| i <= j < s.len() ==> s[j].0 != name,
    ensures
        alias_map(s).dom().contains(name) == alias_map(s.take(i)).dom().contains(name),
        alias_map(s).dom().contains(name) ==> alias_map(s)[name] == alias_map(s.take(i))[name],
    decreases s.len(),
{
    if s.len() == i {
        assert(s.take(i) =~= s);
    } else {
        let d = s.drop_last();
        assert(d.take(i) =~= s.take(i));
        lemma_alias_map_suffix(d, i, name);
    }
}

/// Whether `ts` holds `t`.
fn contains_type(ts: &Vec<Type>, t: &Type) -> (r: bool)
    ensures
        r == Seq::new(ts@.len(), |j: int| ts@[j]@).contains(t@),
{
    let ghost tv = Seq::new(ts@.len(), |j: int| ts@[j]@);
    let mut i: usize = 0;
    while i < ts.len()
        invariant
            i <= ts@.len(),
            tv == Seq::new(ts@.len(), |j: int| ts@[j]@),
            forall|j: int| 0 <= j < i ==> tv[j] != t@,
        decreases ts@.len() - i,
    {
        if crate::ir::ast::type_eq(&ts[i], t) {
            assert(tv[i as int] == t@);
            return true;
        }
        i = i + 1;
    }
    false
}

/// A copy of `l`.
pub fn clone_literal(l: &Literal) -> (r: Literal)
    ensures
        r@ == l@,
{
    match l {
        Literal::Int(i) => Literal::Int(*i),
        Literal::Float(f) => Literal::Float(*f),
        Literal::Str(s) => Literal::Str(s.clone()),
        Literal::Bool(b) => Literal::Bool(*b),
    }
}

/// A copy of `a`.
pub fn clone_address(a: &Address) -> (r: Address)
    ensures
        r@ == a@,
{
    match a {
        Address::Constant(l, t) => Address::Constant(clone_literal(l), clone_type(t)),
        Address::Variable(n, t) => Address::Variable(n.clone(), clone_type(t)),
        Address::Temporary(n, t) => Address::Temporary(n.clone(), clone_type(t)),
    }
}

/// The code generator's state: counters for fresh labels and temporaries,
/// the program's type declarations, and the addresses that names stand for
/// (a match arm's payload binding stands for the temporary holding it).
pub struct Environment {
    current_label: usize,
    current_temporary: usize,
    current_struct_temp: usize,
    current_match_binding: usize,
    type_declarations: Vec<UDTDecl>,
    binding_aliases: Vec<(String, Address)>,
}

impl Clone for Environment {
    /// A copy with the same counters, declarations and aliases.
    fn clone(&self) -> (r: Self)
        ensures
            r@ == self@,
    {
        let ghost src = self.alias_seq();
        let mut aliases: Vec<(String, Address)> = Vec::new();
        let mut i: usize = 0;
        while i < self.binding_aliases.len()
            invariant
                i <= self.binding_aliases@.len(),
                src == self.alias_seq(),
                aliases@.len() == i,
                forall|k: int| 0 <= k < i ==> (#[trigger] aliases@[k]).0@ == src[k].0 && aliases@[k].1@ == src[k].1,
            decreases self.binding_aliases@.len() - i,
        {
            let name = self.binding_aliases[i].0.clone();
            let address = clone_address(&self.binding_aliases[i].1);
            let ghost entry = (name@, address@);
            assert(entry == src[i as int]);
            let ghost before = aliases@;
            aliases.push((name, address));
            assert forall|k: int| 0 <= k < i + 1 implies (#[trigger] aliases@[k]).0@ == src[k].0 && aliases@[k].1@ == src[k].1 by {
                if k < i as int {
                    assert(aliases@[k] == before[k]);
                }
            }
            i = i + 1;
        }
        let decls = clone_decls(&self.type_declarations);
        let r = Environment {
            current_label: self.current_label,
            current_temporary: self.current_temporary,
            current_struct_temp: self.current_struct_temp,
            current_match_binding: self.current_match_binding,
            type_declarations: decls,
            binding_aliases: aliases,
        };
        assert(r.alias_seq() =~= src);
        assert(r@.decls =~= self@.decls);
        r
    }
}

impl View for Environment {
    type V = CodegenEnvV;

    closed spec fn view(&self) -> CodegenEnvV {
        CodegenEnvV {
            label: self.current_label as nat,
            temporary: self.current_temporary as nat,
            struct_temp: self.current_struct_temp as nat,
            match_binding: self.current_match_binding as nat,
            decls: Seq::new(self.type_declarations@.len(), |i: int| self.type_declarations@[i]@),
            aliases: alias_map(
                Seq::new(
                    self.binding_aliases@.len(),
                    |i: int| (self.binding_aliases@[i].0@, self.binding_aliases@[i].1@),
                ),
            ),
        }
    }
}

impl Environment {
    closed spec fn alias_seq(&self) -> Seq<(Seq<char>, AddressV)> {
        Seq::new(
            self.binding_aliases@.len(),
            |i: int| (self.binding_aliases@[i].0@, self.binding_aliases@[i].1@),
        )
    }

    /// A fresh environment: all counters at zero, no declarations, no aliases.
    pub fn new() -> (r: Self)
        ensures
            r@ == (CodegenEnvV {
                label: 0,
                temporary: 0,
                struct_temp: 0,
                match_binding: 0,
                decls: Seq::empty(),
                aliases: Map::empty(),
            }),
    {
        let r = Self {
            current_label: 0,
            current_temporary: 0,
            current_struct_temp: 0,
            current_match_binding: 0,
            type_declarations: Vec::new(),
            binding_aliases: Vec::new(),
        };
        assert(r@.decls =~= Seq::<UDTDeclV>::empty());
        assert(r.alias_seq() =~= Seq::<(Seq<char>, AddressV)>::empty());
        r
    }

    fn register_type_declarations(&mut self, type_declarations: Vec<UDTDecl>)
        ensures
            final(self)@ == (CodegenEnvV {
                decls: Seq::new(type_declarations@.len(), |i: int| type_declarations@[i]@),
                ..old(self)@
            }),
    {
        self.type_declarations = type_declarations;
        assert(self.alias_seq() =~= old(self).alias_seq());
    }

    fn new_label(&mut self) -> (r: String)
        requires
            new_label(old(self)@) is Some,
        ensures
            new_label(old(self)@) == Some((r@, final(self)@)),
    {
        self.current_label = self.current_label + 1;
        let mut r = String::from_str("Label");
        push_decimal(&mut r, self.current_label);
        r.append(":");
        assert(self.alias_seq() =~= old(self).alias_seq());
        assert(self@.decls =~= old(self)@.decls);
        r
    }

    fn new_temporary(&mut self) -> (r: String)
        requires
            new_temporary(old(self)@) is Some,
        ensures
            new_temporary(old(self)@) == Some((r@, final(self)@)),
    {
        self.current_temporary = self.current_temporary + 1;
        let mut r = String::from_str("temp");
        push_decimal(&mut r, self.current_temporary);
        assert(self.alias_seq() =~= old(self).alias_seq());
        assert(self@.decls =~= old(self)@.decls);
        r
    }

    fn new_struct_temp(&mut self) -> (r: String)
        requires
            new_struct_temp(old(self)@) is Some,
        ensures
            new_struct_temp(old(self)@) == Some((r@, final(self)@)),
    {
        self.current_struct_temp = self.current_struct_temp + 1;
        let mut r = String::from_str("_init");
        push_decimal(&mut r, self.current_struct_temp);
        assert(self.alias_seq() =~= old(self).alias_seq());
        assert(self@.decls =~= old(self)@.decls);
        r
    }

    fn new_match_binding(&mut self) -> (r: String)
        requires
            new_match_binding(old(self)@) is Some,
        ensures
            new_match_binding(old(self)@) == Some((r@, final(self)@)),
    {
        self.current_match_binding = self.current_match_binding + 1;
        let mut r = String::from_str("_match");
        push_decimal(&mut r, self.current_match_binding);
        assert(self.alias_seq() =~= old(self).alias_seq());
        assert(self@.decls =~= old(self)@.decls);
        r
    }

    /// The address `name` stands for, if it has an alias.
    fn alias_for(&self, name: &String) -> (r: Option<Address>)
        ensures
            match r {
                Some(a) => alias_of(self@, name@) == Some(a@),
                None => alias_of(self@, name@) is None,
            },
    {
        let ghost s = self.alias_seq();
        let mut i: usize = self.binding_aliases.len();
        while i > 0
            invariant
                i <= self.binding_aliases@.len(),
                s == self.alias_seq(),
                forall|j: int| i <= j < s.len() ==> s[j].0 != name@,
            decreases i,
        {
            if self.binding_aliases[i - 1].0 == *name {
                proof {
                    lemma_alias_map_suffix(s, i as int, name@);
                    assert(s.take(i as int).drop_last() =~= s.take(i - 1));
                }
                return Some(clone_address(&self.binding_aliases[i - 1].1));
            }
            i = i - 1;
        }
        proof {
            lemma_alias_map_suffix(s, 0, name@);
            assert(s.take(0) =~= Seq::<(Seq<char>, AddressV)>::empty());
        }
        None
    }

    /// The first declaration of kind `kind` named `name`, if any.
    fn find_type_decl(&self, kind: UDTKind, name: &String) -> (r: Option<&UDTDecl>)
        ensures
            match find_decl(self@.decls, kind, name@) {
                Some(d) => r matches Some(x) && x@ == d,
                None => r is None,
            },
    {
        let ghost dv = self@.decls;
        let mut i: usize = 0;
        while i < self.type_declarations.len()
            invariant
                i <= self.type_declarations@.len(),
                dv == self@.decls,
                forall|j: int|
                    0 <= j < i ==> !(#[trigger] dv[j].specifier == kind && dv[j].identifier == name@),
            decreases self.type_declarations@.len() - i,
        {
            if self.type_declarations[i].specifier == kind && self.type_declarations[i].identifier == *name {
                proof {
                    lemma_decl_index(dv, kind, name@, i as int);
                }
                return Some(&self.type_declarations[i]);
            }
            i = i + 1;
        }
        proof {
            lemma_decl_index(dv, kind, name@, i as int);
        }
        None
    }

    /// The tag of `variant` in enum `enum_name`.
    fn variant_tag_index(&self, enum_name: &String, variant: &String) -> (r: i64)
        requires
            variant_tag_index(self@.decls, enum_name@, variant@) is Some,
        ensures
            variant_tag_index(self@.decls, enum_name@, variant@) == Some(r),
    {
        let decl = match self.find_type_decl(UDTKind::Enum, enum_name) {
            Some(d) => d,
            None => {
                proof {
                    assert(false);
                }
                return 0;
            },
        };
        let ghost mv = decl@.members;
        assert(mv =~= Seq::new(decl.members@.len(), |j: int| decl.members@[j]@));
        let mut i: usize = 0;
        assert(mv.skip(0) =~= mv);
        while i < decl.members.len()
            invariant
                i <= decl.members@.len(),
                mv == decl@.members,
                mv.len() == decl.members@.len(),
                forall|j: int| 0 <= j < mv.len() ==> mv[j] == #[trigger] decl.members@[j]@,
                find_decl(self@.decls, UDTKind::Enum, enum_name@) == Some(decl@),
                variant_tag_index(self@.decls, enum_name@, variant@) is Some,
                variant_position(mv, variant@) == match variant_position(mv.skip(i as int), variant@) {
                    Some(k) => Some((k + i) as nat),
                    None => None,
                },
            decreases decl.members@.len() - i,
        {
            assert(mv.skip(i as int)[0] == mv[i as int]);
            assert(mv.skip(i as int).drop_first() =~= mv.skip(i + 1));
            if let UDTMember::EnumVariant { name, .. } = &decl.members[i] {
                if *name == *variant {
                    proof {
                        assert(decl.members@[i as int]@ matches crate::ir::ast::UDTMemberV::EnumVariant { name: n, .. } && n == variant@);
                        assert(variant_position(mv.skip(i as int), variant@) == Some(0nat));
                        assert(variant_position(mv, variant@) == Some(i as nat));
                    }
                    return i as i64;
                }
            }
            i = i + 1;
        }
        proof {
            assert(mv.skip(i as int) =~= Seq::<crate::ir::ast::UDTMemberV>::empty());
            assert(false);
        }
        0
    }

    /// The payload type of `variant` in enum `enum_name`, if it has one.
    fn variant_payload_ty(&self, enum_name: &String, variant: &String) -> (r: Option<Type>)
        ensures
            opt_type_view(r) == variant_payload_ty(self@.decls, enum_name@, variant@),
    {
        let decl = match self.find_type_decl(UDTKind::Enum, enum_name) {
            Some(d) => d,
            None => return None,
        };
        let ghost mv = decl@.members;
        assert(mv =~= Seq::new(decl.members@.len(), |j: int| decl.members@[j]@));
        let mut i: usize = 0;
        assert(mv.skip(0) =~= mv);
        while i < decl.members.len()
            invariant
                i <= decl.members@.len(),
                mv == decl@.members,
                mv.len() == decl.members@.len(),
                forall|j: int| 0 <= j < mv.len() ==> mv[j] == #[trigger] decl.members@[j]@,
                find_decl(self@.decls, UDTKind::Enum, enum_name@) == Some(decl@),
                first_payload(mv, variant@) == first_payload(mv.skip(i as int), variant@),
            decreases decl.members@.len() - i,
        {
            assert(mv.skip(i as int)[0] == mv[i as int]);
            assert(mv.skip(i as int).drop_first() =~= mv.skip(i + 1));
            if let UDTMember::EnumVariant { name, ty: Some(ty) } = &decl.members[i] {
                if *name == *variant {
                    proof {
                        assert(mv[i as int] == (crate::ir::ast::UDTMemberV::EnumVariant { name: name@, ty: Some(ty@) }));
                        assert(first_payload(mv.skip(i as int), variant@) == Some(ty@));
                    }
                    return Some(clone_type(ty));
                }
            }
            i = i + 1;
        }
        None
    }

    /// The fields of struct `name`, with their types.
    fn struct_fields(&self, name: &String) -> (r: Vec<(String, Type)>)
        requires
            struct_fields(self@.decls, name@) is Some,
        ensures
            struct_fields(self@.decls, name@) == Some(
                Seq::new(r@.len(), |j: int| (r@[j].0@, r@[j].1@)),
            ),
    {
        let decl = match self.find_type_decl(UDTKind::Struct, name) {
            Some(d) => d,
            None => {
                proof {
                    assert(false);
                }
                return Vec::new();
            },
        };
        let ghost mv = decl@.members;
        assert(mv =~= Seq::new(decl.members@.len(), |j: int| decl.members@[j]@));
        let mut r: Vec<(String, Type)> = Vec::new();
        let mut i: usize = 0;
        assert(Seq::new(r@.len(), |j: int| (r@[j].0@, r@[j].1@)) =~= member_fields(mv.take(0)));
        while i < decl.members.len()
            invariant
                i <= decl.members@.len(),
                mv == decl@.members,
                mv.len() == decl.members@.len(),
                forall|j: int| 0 <= j < mv.len() ==> mv[j] == #[trigger] decl.members@[j]@,
                find_decl(self@.decls, UDTKind::Struct, name@) == Some(decl@),
                Seq::new(r@.len(), |j: int| (r@[j].0@, r@[j].1@)) == member_fields(mv.take(i as int)),
            decreases decl.members@.len() - i,
        {
            assert(mv.take(i + 1).drop_last() =~= mv.take(i as int));
            let ghost before = Seq::new(r@.len(), |j: int| (r@[j].0@, r@[j].1@));
            if let UDTMember::Field(f) = &decl.members[i] {
                r.push((f.name.clone(), clone_type(&f.ty)));
                assert(Seq::new(r@.len(), |j: int| (r@[j].0@, r@[j].1@)) =~= before.push(
                    (f.name@, f.ty@),
                ));
            }
            i = i + 1;
        }
        assert(mv.take(decl.members@.len() as int) =~= mv);
        r
    }

    /// The payload types of enum `name`, each once.
    fn enum_payload_types(&self, name: &String) -> (r: Vec<Type>)
        ensures
            Seq::new(r@.len(), |j: int| r@[j]@) == enum_payload_types(self@.decls, name@),
    {
        let mut r: Vec<Type> = Vec::new();
        let decl = match self.find_type_decl(UDTKind::Enum, name) {
            Some(d) => d,
            None => {
                assert(Seq::new(r@.len(), |j: int| r@[j]@) =~= Seq::<TypeV>::empty());
                return r;
            },
        };
        let ghost mv = decl@.members;
        assert(mv =~= Seq::new(decl.members@.len(), |j: int| decl.members@[j]@));
        let mut i: usize = 0;
        assert(Seq::new(r@.len(), |j: int| r@[j]@) =~= payload_types(mv.take(0)));
        while i < decl.members.len()
            invariant
                i <= decl.members@.len(),
                mv == decl@.members,
                mv.len() == decl.members@.len(),
                forall|j: int| 0 <= j < mv.len() ==> mv[j] == #[trigger] decl.members@[j]@,
                find_decl(self@.decls, UDTKind::Enum, name@) == Some(decl@),
                Seq::new(r@.len(), |j: int| r@[j]@) == payload_types(mv.take(i as int)),
            decreases decl.members@.len() - i,
        {
            assert(mv.take(i + 1).drop_last() =~= mv.take(i as int));
            let ghost before = Seq::new(r@.len(), |j: int| r@[j]@);
            if let UDTMember::EnumVariant { ty: Some(ty), .. } = &decl.members[i] {
                if !contains_type(&r, ty) {
                    r.push(clone_type(ty));
                    assert(Seq::new(r@.len(), |j: int| r@[j]@) =~= before.push(ty@));
                }
            }
            i = i + 1;
        }
        assert(mv.take(decl.members@.len() as int) =~= mv);
        r
    }

    /// Makes `name` stand for `address`; returns what it stood for before.
    fn push_alias(&mut self, name: String, address: Address) -> (r: Option<Address>)
        ensures
            match r {
                Some(a) => alias_of(old(self)@, name@) == Some(a@),
                None => alias_of(old(self)@, name@) is None,
            },
            final(self)@ == (CodegenEnvV {
                aliases: old(self)@.aliases.insert(name@, address@),
                ..old(self)@
            }),
    {
        let previous = self.alias_for(&name);
        let ghost s = self.alias_seq();
        let ghost entry = (name@, address@);
        self.binding_aliases.push((name, address));
        assert(self.alias_seq() =~= s.push(entry));
        assert(self.alias_seq().drop_last() =~= s);
        assert(self@.decls =~= old(self)@.decls);
        previous
    }

    /// Puts the alias of `name` back to `previous`.
    fn restore_alias(&mut self, name: String, previous: Option<Address>)
        ensures
            final(self)@ == restore_alias(
                old(self)@,
                name@,
                match previous {
                    Some(a) => Some(a@),
                    None => None,
                },
            ),
    {
        match previous {
            Some(address) => {
                let ghost s = self.alias_seq();
                let ghost entry = (name@, address@);
                self.binding_aliases.push((name, address));
                assert(self.alias_seq() =~= s.push(entry));
                assert(self.alias_seq().drop_last() =~= s);
                assert(self@.decls =~= old(self)@.decls);
            },
            None => {
                let ghost s = self.alias_seq();
                let mut kept: Vec<(String, Address)> = Vec::new();
                let mut i: usize = 0;
                while i < self.binding_aliases.len()
                    invariant
                        i <= self.binding_aliases@.len(),
                        s == self.alias_seq(),
                        Seq::new(kept@.len(), |j: int| (kept@[j].0@, kept@[j].1@)) == without_key(
                            s.take(i as int),
                            name@,
                        ),
                    decreases self.binding_aliases@.len() - i,
                {
                    assert(s.take(i + 1).drop_last() =~= s.take(i as int));
                    let ghost before = Seq::new(kept@.len(), |j: int| (kept@[j].0@, kept@[j].1@));
                    if self.binding_aliases[i].0 != name {
                        let k = self.binding_aliases[i].0.clone();
                        let a = clone_address(&self.binding_aliases[i].1);
                        kept.push((k, a));
                        assert(Seq::new(kept@.len(), |j: int| (kept@[j].0@, kept@[j].1@)) =~= before.push(
                            s[i as int],
                        ));
                    }
                    i = i + 1;
                }
                assert(s.take(s.len() as int) =~= s);
                proof {
                    lemma_without_key(s, name@);
                }
                self.binding_aliases = kept;
                assert(self@.decls =~= old(self)@.decls);
                assert(self@.aliases =~= old(self)@.aliases.remove(name@));
            },
        }
    }
}


/// `path.member`.
fn dotted_name(path: &String, member: &str) -> (r: String)
    ensures
        r@ == dotted(path@, member@),
{
    let mut r = path.clone();
    r.append(".");
    r.append(member);
    r
}

fn push_instr(out: &mut Vec<Instruction>, i: Instruction)
    ensures
        instrs_view(final(out)@) == instrs_view(old(out)@).push(i@),
{
    let ghost iv = i@;
    out.push(i);
    assert(instrs_view(out@) =~= instrs_view(old(out)@).push(iv));
}

fn append_instrs(out: &mut Vec<Instruction>, more: Vec<Instruction>)
    ensures
        instrs_view(final(out)@) == instrs_view(old(out)@) + instrs_view(more@),
{
    let mut more = more;
    let ghost mv = instrs_view(more@);
    out.append(&mut more);
    assert(instrs_view(out@) =~= instrs_view(old(out)@) + mv);
}

fn component_copy_exec(env: &Environment, dest: &String, src: &String, ty: &Type, Ghost(fuel): Ghost<nat>) -> (r: Vec<Instruction>)
    requires
        component_copy(dest@, src@, ty@, env@.decls, fuel) is Some,
    ensures
        component_copy(dest@, src@, ty@, env@.decls, fuel) == Some(instrs_view(r@)),
    decreases fuel, 0nat, 0nat,
{
    match ty {
        Type::Struct(name) => {
            let fields = env.struct_fields(name);
            component_fields_copy_exec(env, dest, src, &fields, Ghost((fuel - 1) as nat))
        },
        Type::Enum(name) => {
            let mut out: Vec<Instruction> = Vec::new();
            push_instr(
                &mut out,
                Instruction::CopyAssignment(
                    Address::Variable(dotted_name(dest, "tag"), Type::Int),
                    Address::Variable(dotted_name(src, "tag"), Type::Int),
                ),
            );
            let tys = env.enum_payload_types(name);
            let copies = component_payloads_copy_exec(
                env,
                &dotted_name(dest, "payload"),
                &dotted_name(src, "payload"),
                &tys,
                Ghost((fuel - 1) as nat),
            );
            append_instrs(&mut out, copies);
            out
        },
        _ => {
            let mut out: Vec<Instruction> = Vec::new();
            push_instr(
                &mut out,
                Instruction::CopyAssignment(
                    Address::Variable(dest.clone(), clone_type(ty)),
                    Address::Variable(src.clone(), clone_type(ty)),
                ),
            );
            assert(instrs_view(out@) =~= seq![
                InstructionV::CopyAssignment(AddressV::Variable(dest@, ty@), AddressV::Variable(src@, ty@)),
            ]);
            out
        },
    }
}

fn component_fields_copy_exec(
    env: &Environment,
    dest: &String,
    src: &String,
    fields: &Vec<(String, Type)>,
    Ghost(fuel): Ghost<nat>,
) -> (r: Vec<Instruction>)
    requires
        component_fields_copy(
            dest@,
            src@,
            Seq::new(fields@.len(), |j: int| (fields@[j].0@, fields@[j].1@)),
            env@.decls,
            fuel,
        ) is Some,
    ensures
        component_fields_copy(
            dest@,
            src@,
            Seq::new(fields@.len(), |j: int| (fields@[j].0@, fields@[j].1@)),
            env@.decls,
            fuel,
        ) == Some(instrs_view(r@)),
    decreases fuel, 1nat, fields@.len(),
{
    let ghost fv = Seq::new(fields@.len(), |j: int| (fields@[j].0@, fields@[j].1@));
    let mut out: Vec<Instruction> = Vec::new();
    let mut i: usize = 0;
    assert(fv.skip(0) =~= fv);
    assert(instrs_view(out@) =~= Seq::<InstructionV>::empty());
    while i < fields.len()
        invariant
            i <= fields@.len(),
            fv == Seq::new(fields@.len(), |j: int| (fields@[j].0@, fields@[j].1@)),
            component_fields_copy(dest@, src@, fv, env@.decls, fuel) == match component_fields_copy(
                dest@,
                src@,
                fv.skip(i as int),
                env@.decls,
                fuel,
            ) {
                None => None,
                Some(b) => Some(instrs_view(out@) + b),
            },
            component_fields_copy(dest@, src@, fv, env@.decls, fuel) is Some,
        decreases fields@.len() - i,
    {
        assert(fv.skip(i as int)[0] == fv[i as int]);
        assert(fv.skip(i as int).drop_first() =~= fv.skip(i + 1));
        let copies = component_copy_exec(
            env,
            &dotted_name(dest, fields[i].0.as_str()),
            &dotted_name(src, fields[i].0.as_str()),
            &fields[i].1,
            Ghost(fuel),
        );
        let ghost before = instrs_view(out@);
        append_instrs(&mut out, copies);
        proof {
            assert forall|b: Seq<InstructionV>| #![auto] before + (instrs_view(copies@) + b) == instrs_view(out@) + b by {
                assert(before + (instrs_view(copies@) + b) =~= instrs_view(out@) + b);
            }
        }
        i = i + 1;
    }
    assert(fv.skip(i as int) =~= Seq::<(Seq<char>, TypeV)>::empty());
    assert(instrs_view(out@) + Seq::<InstructionV>::empty() =~= instrs_view(out@));
    out
}

fn component_payloads_copy_exec(
    env: &Environment,
    dest: &String,
    src: &String,
    tys: &Vec<Type>,
    Ghost(fuel): Ghost<nat>,
) -> (r: Vec<Instruction>)
    requires
        component_payloads_copy(dest@, src@, Seq::new(tys@.len(), |j: int| tys@[j]@), env@.decls, fuel) is Some,
    ensures
        component_payloads_copy(dest@, src@, Seq::new(tys@.len(), |j: int| tys@[j]@), env@.decls, fuel)
            == Some(instrs_view(r@)),
    decreases fuel, 1nat, tys@.len(),
{
    let ghost tv = Seq::new(tys@.len(), |j: int| tys@[j]@);
    let mut out: Vec<Instruction> = Vec::new();
    let mut i: usize = 0;
    assert(tv.skip(0) =~= tv);
    assert(instrs_view(out@) =~= Seq::<InstructionV>::empty());
    while i < tys.len()
        invariant
            i <= tys@.len(),
            tv == Seq::new(tys@.len(), |j: int| tys@[j]@),
            component_payloads_copy(dest@, src@, tv, env@.decls, fuel) == match component_payloads_copy(
                dest@,
                src@,
                tv.skip(i as int),
                env@.decls,
                fuel,
            ) {
                None => None,
                Some(b) => Some(instrs_view(out@) + b),
            },
            component_payloads_copy(dest@, src@, tv, env@.decls, fuel) is Some,
        decreases tys@.len() - i,
    {
        assert(tv.skip(i as int)[0] == tv[i as int]);
        assert(tv.skip(i as int).drop_first() =~= tv.skip(i + 1));
        let copies = component_copy_exec(env, dest, src, &tys[i], Ghost(fuel));
        let ghost before = instrs_view(out@);
        append_instrs(&mut out, copies);
        proof {
            assert forall|b: Seq<InstructionV>| #![auto] before + (instrs_view(copies@) + b) == instrs_view(out@) + b by {
                assert(before + (instrs_view(copies@) + b) =~= instrs_view(out@) + b);
            }
        }
        i = i + 1;
    }
    assert(tv.skip(i as int) =~= Seq::<TypeV>::empty());
    assert(instrs_view(out@) + Seq::<InstructionV>::empty() =~= instrs_view(out@));
    out
}


/// What translating `e` in `env0` gave: its address and instructions, with
/// the environment `env1` after it.
pub open spec fn expr_outcome(r: (Address, Vec<Instruction>), e: CExprV, env0: CodegenEnvV, env1: CodegenEnvV) -> bool {
    translate_expression(e, env0) == Some((r.0@, instrs_view(r.1@), env1))
}

fn bool_constant(b: bool) -> (r: Address)
    ensures
        r@ == bool_const(b),
{
    Address::Constant(Literal::Bool(b), Type::Bool)
}

fn translate_expression_exec(e: &CheckedExpr, env: &mut Environment) -> (r: (Address, Vec<Instruction>))
    requires
        translate_expression(e@, old(env)@) is Some,
    ensures
        expr_outcome(r, e@, old(env)@, final(env)@),
    decreases e, 5nat,
{
    match &e.exp {
        Expr::Literal(v) => {
            let r = (Address::Constant(clone_literal(v), clone_type(&e.ty)), Vec::new());
            assert(instrs_view(r.1@) =~= Seq::<InstructionV>::empty());
            r
        },
        Expr::Ident(name) => {
            let a = match env.alias_for(name) {
                Some(a) => a,
                None => Address::Variable(name.clone(), clone_type(&e.ty)),
            };
            let r = (a, Vec::new());
            assert(instrs_view(r.1@) =~= Seq::<InstructionV>::empty());
            r
        },
        Expr::Member { base, member } => {
            let a = translate_member_address_exec(base, member, &e.ty, env);
            let r = (a, Vec::new());
            assert(instrs_view(r.1@) =~= Seq::<InstructionV>::empty());
            r
        },
        Expr::Not(..) => translate_not(e, env),
        Expr::Or(..) => translate_or(e, env),
        Expr::And(..) => translate_and(e, env),
        Expr::Add(..) => translate_add(e, env),
        Expr::Init { .. } | Expr::EnumVariant { .. } => {
            let name = env.new_struct_temp();
            let insts = lower_initializer_exec(&name, e, env);
            (Address::Variable(name, clone_type(&e.ty)), insts)
        },
        Expr::Cast { expr, .. } => {
            let (a, insts) = translate_expression_exec(expr, env);
            let ty = clone_type(&e.ty);
            let a2 = match a {
                Address::Constant(l, _) => Address::Constant(l, ty),
                Address::Variable(n, _) => Address::Variable(n, ty),
                Address::Temporary(n, _) => Address::Temporary(n, ty),
            };
            (a2, insts)
        },
        _ => {
            proof {
                assert(false);
            }
            (Address::Variable(String::new(), Type::Unit), Vec::new())
        },
    }
}

fn translate_member_address_exec(base: &CheckedExpr, member: &String, ty: &Type, env: &mut Environment) -> (r: Address)
    requires
        translate_member_address(base@, member@, ty@, old(env)@) is Some,
    ensures
        translate_member_address(base@, member@, ty@, old(env)@) == Some((r@, final(env)@)),
    decreases base, 6nat,
{
    let (a, insts) = translate_expression_exec(base, env);
    let prefix = match &a {
        Address::Variable(n, _) => n,
        Address::Temporary(n, _) => n,
        Address::Constant(..) => {
            proof {
                assert(false);
            }
            return a;
        },
    };
    Address::Variable(dotted_name(prefix, member.as_str()), clone_type(ty))
}

fn translate_not(e: &CheckedExpr, env: &mut Environment) -> (r: (Address, Vec<Instruction>))
    requires
        e@.exp is Not,
        translate_expression(e@, old(env)@) is Some,
    ensures
        expr_outcome(r, e@, old(env)@, final(env)@),
    decreases e, 4nat,
{
    let Expr::Not(x) = &e.exp else {
        proof {
            assert(false);
        }
        return (Address::Variable(String::new(), Type::Unit), Vec::new());
    };
    let (addr, insts) = translate_expression_exec(x, env);
    emit_not(addr, insts, env)
}

fn emit_not(addr: Address, insts: Vec<Instruction>, env: &mut Environment) -> (r: (Address, Vec<Instruction>))
    requires
        not_code(addr@, instrs_view(insts@), old(env)@) is Some,
    ensures
        not_code(addr@, instrs_view(insts@), old(env)@) == Some((r.0@, instrs_view(r.1@), final(env)@)),
{
    let mut insts = insts;
    let label_false = env.new_label();
    let label_exit = env.new_label();
    let t = env.new_temporary();
    let ghost tv = t@;
    let ghost lf = label_false@;
    let ghost lx = label_exit@;
    let ghost av = addr@;
    let ghost start = instrs_view(insts@);
    push_instr(&mut insts, Instruction::ConditionalJMPFalse(addr, label_false.clone()));
    push_instr(&mut insts, Instruction::CopyAssignment(Address::Temporary(t.clone(), Type::Bool), bool_constant(false)));
    push_instr(&mut insts, Instruction::JMP(label_exit.clone()));
    push_instr(&mut insts, Instruction::Label(label_false));
    push_instr(&mut insts, Instruction::CopyAssignment(Address::Temporary(t.clone(), Type::Bool), bool_constant(true)));
    push_instr(&mut insts, Instruction::Label(label_exit));
    let ghost temp = AddressV::Temporary(tv, TypeV::Bool);
    assert(instrs_view(insts@) =~= start + seq![
        InstructionV::ConditionalJMPFalse(av, lf),
        InstructionV::CopyAssignment(temp, bool_const(false)),
        InstructionV::JMP(lx),
        InstructionV::Label(lf),
        InstructionV::CopyAssignment(temp, bool_const(true)),
        InstructionV::Label(lx),
    ]);
    (Address::Temporary(t, Type::Bool), insts)
}

fn translate_or(e: &CheckedExpr, env: &mut Environment) -> (r: (Address, Vec<Instruction>))
    requires
        e@.exp is Or,
        translate_expression(e@, old(env)@) is Some,
    ensures
        expr_outcome(r, e@, old(env)@, final(env)@),
    decreases e, 4nat,
{
    let Expr::Or(l, rr) = &e.exp else {
        proof {
            assert(false);
        }
        return (Address::Variable(String::new(), Type::Unit), Vec::new());
    };
    let (la, li) = translate_expression_exec(l, env);
    let (ra, ri) = translate_expression_exec(rr, env);
    emit_or(la, li, ra, ri, env)
}

#[verifier::rlimit(30)]
fn emit_or(la: Address, li: Vec<Instruction>, ra: Address, ri: Vec<Instruction>, env: &mut Environment) -> (r: (
    Address,
    Vec<Instruction>,
))
    requires
        or_code(la@, instrs_view(li@), ra@, instrs_view(ri@), old(env)@) is Some,
    ensures
        or_code(la@, instrs_view(li@), ra@, instrs_view(ri@), old(env)@) == Some(
            (r.0@, instrs_view(r.1@), final(env)@),
        ),
{
    let mut insts = li;
    let label_true = env.new_label();
    let label_false = env.new_label();
    let label_exit = env.new_label();
    let t = env.new_temporary();
    let ghost tv = t@;
    let ghost lt = label_true@;
    let ghost lf = label_false@;
    let ghost lx = label_exit@;
    let ghost lav = la@;
    let ghost rav = ra@;
    let ghost liv = instrs_view(insts@);
    let ghost riv = instrs_view(ri@);
    push_instr(&mut insts, Instruction::ConditionalJMPFalse(la, label_false.clone()));
    push_instr(&mut insts, Instruction::JMP(label_true.clone()));
    push_instr(&mut insts, Instruction::Label(label_false));
    append_instrs(&mut insts, ri);
    push_instr(&mut insts, Instruction::ConditionalJMP(ra, label_true.clone()));
    push_instr(&mut insts, Instruction::CopyAssignment(Address::Temporary(t.clone(), Type::Bool), bool_constant(false)));
    push_instr(&mut insts, Instruction::JMP(label_exit.clone()));
    push_instr(&mut insts, Instruction::Label(label_true));
    push_instr(&mut insts, Instruction::CopyAssignment(Address::Temporary(t.clone(), Type::Bool), bool_constant(true)));
    push_instr(&mut insts, Instruction::Label(label_exit));
    let ghost temp = AddressV::Temporary(tv, TypeV::Bool);
    assert(instrs_view(insts@) =~= liv + seq![
        InstructionV::ConditionalJMPFalse(lav, lf),
        InstructionV::JMP(lt),
        InstructionV::Label(lf),
    ] + riv + seq![
        InstructionV::ConditionalJMP(rav, lt),
        InstructionV::CopyAssignment(temp, bool_const(false)),
        InstructionV::JMP(lx),
        InstructionV::Label(lt),
        InstructionV::CopyAssignment(temp, bool_const(true)),
        InstructionV::Label(lx),
    ]);
    (Address::Temporary(t, Type::Bool), insts)
}

fn translate_and(e: &CheckedExpr, env: &mut Environment) -> (r: (Address, Vec<Instruction>))
    requires
        e@.exp is And,
        translate_expression(e@, old(env)@) is Some,
    ensures
        expr_outcome(r, e@, old(env)@, final(env)@),
    decreases e, 4nat,
{
    let Expr::And(l, rr) = &e.exp else {
        proof {
            assert(false);
        }
        return (Address::Variable(String::new(), Type::Unit), Vec::new());
    };
    let (la, li) = translate_expression_exec(l, env);
    let (ra, ri) = translate_expression_exec(rr, env);
    emit_and(la, li, ra, ri, env)
}

fn emit_and(la: Address, li: Vec<Instruction>, ra: Address, ri: Vec<Instruction>, env: &mut Environment) -> (r: (
    Address,
    Vec<Instruction>,
))
    requires
        and_code(la@, instrs_view(li@), ra@, instrs_view(ri@), old(env)@) is Some,
    ensures
        and_code(la@, instrs_view(li@), ra@, instrs_view(ri@), old(env)@) == Some(
            (r.0@, instrs_view(r.1@), final(env)@),
        ),
{
    let mut insts = li;
    let label_false = env.new_label();
    let label_exit = env.new_label();
    let t = env.new_temporary();
    let ghost tv = t@;
    let ghost lf = label_false@;
    let ghost lx = label_exit@;
    let ghost lav = la@;
    let ghost rav = ra@;
    let ghost liv = instrs_view(insts@);
    let ghost riv = instrs_view(ri@);
    push_instr(&mut insts, Instruction::ConditionalJMPFalse(la, label_false.clone()));
    append_instrs(&mut insts, ri);
    push_instr(&mut insts, Instruction::ConditionalJMPFalse(ra, label_false.clone()));
    push_instr(&mut insts, Instruction::CopyAssignment(Address::Temporary(t.clone(), Type::Bool), bool_constant(true)));
    push_instr(&mut insts, Instruction::JMP(label_exit.clone()));
    push_instr(&mut insts, Instruction::Label(label_false));
    push_instr(&mut insts, Instruction::CopyAssignment(Address::Temporary(t.clone(), Type::Bool), bool_constant(false)));
    push_instr(&mut insts, Instruction::Label(label_exit));
    let ghost temp = AddressV::Temporary(tv, TypeV::Bool);
    assert(instrs_view(insts@) =~= liv + seq![InstructionV::ConditionalJMPFalse(lav, lf)] + riv + seq![
        InstructionV::ConditionalJMPFalse(rav, lf),
        InstructionV::CopyAssignment(temp, bool_const(true)),
        InstructionV::JMP(lx),
        InstructionV::Label(lf),
        InstructionV::CopyAssignment(temp, bool_const(false)),
        InstructionV::Label(lx),
    ]);
    (Address::Temporary(t, Type::Bool), insts)
}

fn translate_add(e: &CheckedExpr, env: &mut Environment) -> (r: (Address, Vec<Instruction>))
    requires
        e@.exp is Add,
        translate_expression(e@, old(env)@) is Some,
    ensures
        expr_outcome(r, e@, old(env)@, final(env)@),
    decreases e, 4nat,
{
    let Expr::Add(l, rr) = &e.exp else {
        proof {
            assert(false);
        }
        return (Address::Variable(String::new(), Type::Unit), Vec::new());
    };
    let (la, li) = translate_expression_exec(l, env);
    let (ra, ri) = translate_expression_exec(rr, env);
    emit_add(la, li, ra, ri, &e.ty, env)
}

fn emit_add(la: Address, li: Vec<Instruction>, ra: Address, ri: Vec<Instruction>, ty: &Type, env: &mut Environment) -> (r: (
    Address,
    Vec<Instruction>,
))
    requires
        add_code(la@, instrs_view(li@), ra@, instrs_view(ri@), ty@, old(env)@) is Some,
    ensures
        add_code(la@, instrs_view(li@), ra@, instrs_view(ri@), ty@, old(env)@) == Some(
            (r.0@, instrs_view(r.1@), final(env)@),
        ),
{
    let mut insts = li;
    append_instrs(&mut insts, ri);
    let t = env.new_temporary();
    push_instr(
        &mut insts,
        Instruction::BinaryAssignment(Operator::Add, Address::Temporary(t.clone(), clone_type(ty)), la, ra),
    );
    (Address::Temporary(t, clone_type(ty)), insts)
}

fn lower_initializer_exec(dest: &String, e: &CheckedExpr, env: &mut Environment) -> (r: Vec<Instruction>)
    requires
        lower_initializer(dest@, e@, old(env)@) is Some,
    ensures
        lower_initializer(dest@, e@, old(env)@) == Some((instrs_view(r@), final(env)@)),
    decreases e, 3nat,
{
    match &e.exp {
        Expr::Init { fields } => {
            proof {
                assert(e@.exp->Init_fields =~= init_fields_view(fields@));
            }
            lower_init_fields_exec(dest, fields, env)
        },
        Expr::EnumVariant { enum_name, variant, payload } => {
            let n = match &e.ty {
                Type::Enum(n) => n,
                _ => {
                    proof {
                        assert(false);
                    }
                    return Vec::new();
                },
            };
            lower_enum_variant_exec(dest, n, enum_name, variant, payload, env)
        },
        _ => {
            proof {
                assert(false);
            }
            Vec::new()
        },
    }
}

pub open spec fn init_fields_view(fields: Seq<(String, Option<CheckedExpr>)>) -> Seq<(Seq<char>, Option<CExprV>)> {
    Seq::new(
        fields.len(),
        |i: int|
            (
                fields[i].0@,
                match fields[i].1 {
                    Some(e) => Some(e@),
                    None => None,
                },
            ),
    )
}

fn lower_init_fields_exec(dest: &String, fields: &Vec<(String, Option<CheckedExpr>)>, env: &mut Environment) -> (r: Vec<
    Instruction,
>)
    requires
        lower_init_fields(dest@, init_fields_view(fields@), old(env)@) is Some,
    ensures
        lower_init_fields(dest@, init_fields_view(fields@), old(env)@) == Some(
            (instrs_view(r@), final(env)@),
        ),
    decreases fields, 0nat,
{
    let ghost fv = init_fields_view(fields@);
    let ghost env0 = env@;
    let mut out: Vec<Instruction> = Vec::new();
    let mut i: usize = 0;
    assert(fv.skip(0) =~= fv);
    assert(instrs_view(out@) =~= Seq::<InstructionV>::empty());
    while i < fields.len()
        invariant
            i <= fields@.len(),
            fv == init_fields_view(fields@),
            env0 == old(env)@,
            lower_init_fields(dest@, fv, env0) == match lower_init_fields(dest@, fv.skip(i as int), env@) {
                None => None,
                Some((b, e2)) => Some((instrs_view(out@) + b, e2)),
            },
            lower_init_fields(dest@, fv, env0) is Some,
        decreases fields@.len() - i,
    {
        proof {
            assert(decreases_to!(fields => fields@[i as int]));
            assert(fv.skip(i as int)[0] == fv[i as int]);
            assert(fv.skip(i as int).drop_first() =~= fv.skip(i + 1));
        }
        let fe = match &fields[i].1 {
            Some(fe) => fe,
            None => {
                proof {
                    assert(false);
                }
                return out;
            },
        };
        let copies = lower_copy_to_prefix_exec(&dotted_name(dest, fields[i].0.as_str()), &fe.ty, fe, env);
        let ghost before = instrs_view(out@);
        append_instrs(&mut out, copies);
        proof {
            assert forall|b: Seq<InstructionV>| #![auto] before + (instrs_view(copies@) + b) == instrs_view(out@) + b by {
                assert(before + (instrs_view(copies@) + b) =~= instrs_view(out@) + b);
            }
        }
        i = i + 1;
    }
    assert(fv.skip(i as int) =~= Seq::<(Seq<char>, Option<CExprV>)>::empty());
    assert(instrs_view(out@) + Seq::<InstructionV>::empty() =~= instrs_view(out@));
    out
}

fn lower_enum_variant_exec(
    dest: &String,
    n: &String,
    enum_name: &Option<String>,
    variant: &String,
    payload: &Option<Box<CheckedExpr>>,
    env: &mut Environment,
) -> (r: Vec<Instruction>)
    requires
        lower_enum_variant(
            dest@,
            n@,
            match enum_name { Some(x) => Some(x@), None => None },
            variant@,
            match payload { Some(p) => Some(Box::new(p@)), None => None },
            old(env)@,
        ) is Some,
    ensures
        lower_enum_variant(
            dest@,
            n@,
            match enum_name { Some(x) => Some(x@), None => None },
            variant@,
            match payload { Some(p) => Some(Box::new(p@)), None => None },
            old(env)@,
        ) == Some((instrs_view(r@), final(env)@)),
    decreases payload, 0nat,
{
    let ename = match enum_name {
        Some(x) => x,
        None => n,
    };
    let ordinal = env.variant_tag_index(ename, variant);
    let mut out: Vec<Instruction> = Vec::new();
    push_instr(
        &mut out,
        Instruction::CopyAssignment(
            Address::Variable(dotted_name(dest, "tag"), Type::Int),
            Address::Constant(Literal::Int(ordinal), Type::Int),
        ),
    );
    match payload {
        None => {},
        Some(p) => {
            let copies = lower_copy_to_prefix_exec(&dotted_name(dest, "payload"), &p.ty, p, env);
            append_instrs(&mut out, copies);
        },
    }
    out
}

fn lower_copy_to_prefix_exec(dest: &String, dest_ty: &Type, source: &CheckedExpr, env: &mut Environment) -> (r: Vec<
    Instruction,
>)
    requires
        lower_copy_to_prefix(dest@, dest_ty@, source@, old(env)@) is Some,
    ensures
        lower_copy_to_prefix(dest@, dest_ty@, source@, old(env)@) == Some((instrs_view(r@), final(env)@)),
    decreases source, 8nat,
{
    match dest_ty {
        Type::Struct(s) => lower_struct_copy_exec(dest, s, source, env),
        Type::Enum(n) => lower_enum_copy_exec(dest, n, source, env),
        _ => {
            let (a, mut insts) = translate_expression_exec(source, env);
            push_instr(&mut insts, Instruction::CopyAssignment(Address::Variable(dest.clone(), clone_type(dest_ty)), a));
            insts
        },
    }
}

fn lower_struct_copy_exec(dest: &String, s: &String, source: &CheckedExpr, env: &mut Environment) -> (r: Vec<
    Instruction,
>)
    requires
        lower_struct_copy(dest@, s@, source@, old(env)@) is Some,
    ensures
        lower_struct_copy(dest@, s@, source@, old(env)@) == Some((instrs_view(r@), final(env)@)),
    decreases source, 7nat,
{
    match &source.exp {
        Expr::Cast { expr, .. } => lower_copy_to_prefix_exec(dest, &source.ty, expr, env),
        Expr::Init { fields } => {
            proof {
                assert(source@.exp->Init_fields =~= init_fields_view(fields@));
            }
            lower_init_fields_exec(dest, fields, env)
        },
        _ => {
            let (a, mut insts) = translate_expression_exec(source, env);
            let prefix = match &a {
                Address::Variable(p, _) => p,
                Address::Temporary(p, _) => p,
                Address::Constant(..) => {
                    proof {
                        assert(false);
                    }
                    return insts;
                },
            };
            let fields = env.struct_fields(s);
            let copies = component_fields_copy_exec(env, dest, prefix, &fields, Ghost(copy_fuel(env@.decls)));
            append_instrs(&mut insts, copies);
            insts
        },
    }
}

fn lower_enum_copy_exec(dest: &String, n: &String, source: &CheckedExpr, env: &mut Environment) -> (r: Vec<
    Instruction,
>)
    requires
        lower_enum_copy(dest@, n@, source@, old(env)@) is Some,
    ensures
        lower_enum_copy(dest@, n@, source@, old(env)@) == Some((instrs_view(r@), final(env)@)),
    decreases source, 7nat,
{
    match &source.exp {
        Expr::Cast { expr, .. } => lower_copy_to_prefix_exec(dest, &source.ty, expr, env),
        Expr::EnumVariant { enum_name, variant, payload } => lower_enum_variant_exec(
            dest,
            n,
            enum_name,
            variant,
            payload,
            env,
        ),
        _ => {
            let (a, mut insts) = translate_expression_exec(source, env);
            let prefix = match &a {
                Address::Variable(p, _) => p,
                Address::Temporary(p, _) => p,
                Address::Constant(..) => {
                    proof {
                        assert(false);
                    }
                    return insts;
                },
            };
            push_instr(
                &mut insts,
                Instruction::CopyAssignment(
                    Address::Variable(dotted_name(dest, "tag"), Type::Int),
                    Address::Variable(dotted_name(prefix, "tag"), Type::Int),
                ),
            );
            let tys = env.enum_payload_types(n);
            let copies = component_payloads_copy_exec(
                env,
                &dotted_name(dest, "payload"),
                &dotted_name(prefix, "payload"),
                &tys,
                Ghost(copy_fuel(env@.decls)),
            );
            append_instrs(&mut insts, copies);
            insts
        },
    }
}


fn translate_relational_false_exec(
    l: &CheckedExpr,
    r: &CheckedExpr,
    op: Operator,
    label: String,
    env: &mut Environment,
) -> (res: Vec<Instruction>)
    requires
        translate_relational_false(l@, r@, op, label@, old(env)@) is Some,
    ensures
        translate_relational_false(l@, r@, op, label@, old(env)@) == Some((instrs_view(res@), final(env)@)),
{
    let (la, mut insts) = translate_expression_exec(l, env);
    let (ra, ri) = translate_expression_exec(r, env);
    append_instrs(&mut insts, ri);
    push_instr(&mut insts, Instruction::ConditionalJMPRelational(op, la, ra, label));
    insts
}

#[verifier::rlimit(30)]
fn translate_conditional_false_exec(e: &CheckedExpr, env: &mut Environment, label: String) -> (r: Vec<Instruction>)
    requires
        translate_conditional_false(e@, old(env)@, label@) is Some,
    ensures
        translate_conditional_false(e@, old(env)@, label@) == Some((instrs_view(r@), final(env)@)),
{
    match &e.exp {
        Expr::Literal(Literal::Bool(true)) => {
            let r: Vec<Instruction> = Vec::new();
            assert(instrs_view(r@) =~= Seq::<InstructionV>::empty());
            r
        },
        Expr::Literal(Literal::Bool(false)) => {
            let mut r: Vec<Instruction> = Vec::new();
            push_instr(&mut r, Instruction::JMP(label));
            assert(instrs_view(r@) =~= seq![InstructionV::JMP(label@)]);
            r
        },
        Expr::Ident(name) => {
            let a = match env.alias_for(name) {
                Some(a) => a,
                None => Address::Variable(name.clone(), clone_type(&e.ty)),
            };
            let mut r: Vec<Instruction> = Vec::new();
            let ghost av = a@;
            push_instr(&mut r, Instruction::ConditionalJMPFalse(a, label));
            assert(instrs_view(r@) =~= seq![InstructionV::ConditionalJMPFalse(av, label@)]);
            r
        },
        Expr::Lt(l, r) => translate_relational_false_exec(l, r, Operator::GTE, label, env),
        Expr::Le(l, r) => translate_relational_false_exec(l, r, Operator::GT, label, env),
        Expr::Gt(l, r) => translate_relational_false_exec(l, r, Operator::LTE, label, env),
        Expr::Ge(l, r) => translate_relational_false_exec(l, r, Operator::LT, label, env),
        Expr::Eq(l, r) => translate_relational_false_exec(l, r, Operator::NE, label, env),
        Expr::Ne(l, r) => translate_relational_false_exec(l, r, Operator::EQ, label, env),
        _ => {
            let (a, mut insts) = translate_expression_exec(e, env);
            push_instr(&mut insts, Instruction::ConditionalJMPFalse(a, label));
            insts
        },
    }
}

fn translate_lvalue_exec(target: &CheckedExpr, env: &mut Environment) -> (r: Address)
    requires
        translate_lvalue(target@, old(env)@) is Some,
    ensures
        translate_lvalue(target@, old(env)@) == Some((r@, final(env)@)),
{
    match &target.exp {
        Expr::Ident(name) => match env.alias_for(name) {
            Some(a) => a,
            None => Address::Variable(name.clone(), clone_type(&target.ty)),
        },
        Expr::Member { base, member } => translate_member_address_exec(base, member, &target.ty, env),
        _ => {
            proof {
                assert(false);
            }
            Address::Variable(String::new(), Type::Unit)
        },
    }
}

pub open spec fn cexprs_view(s: Seq<CheckedExpr>) -> Seq<CExprV> {
    Seq::new(s.len(), |i: int| s[i]@)
}

fn translate_arguments_exec(args: &Vec<CheckedExpr>, env: &mut Environment) -> (r: (Vec<Address>, Vec<Instruction>))
    requires
        translate_arguments(cexprs_view(args@), old(env)@) is Some,
    ensures
        translate_arguments(cexprs_view(args@), old(env)@) == Some(
            (Seq::new(r.0@.len(), |i: int| r.0@[i]@), instrs_view(r.1@), final(env)@),
        ),
{
    let ghost av = cexprs_view(args@);
    let ghost env0 = env@;
    let mut addrs: Vec<Address> = Vec::new();
    let mut insts: Vec<Instruction> = Vec::new();
    let mut i: usize = 0;
    assert(av.take(0) =~= Seq::<CExprV>::empty());
    assert(Seq::new(addrs@.len(), |k: int| addrs@[k]@) =~= Seq::<AddressV>::empty());
    assert(instrs_view(insts@) =~= Seq::<InstructionV>::empty());
    proof {
        assert(av.take(args@.len() as int) =~= av);
        lemma_arguments_prefix(av, args@.len() as int, env0);
    }
    while i < args.len()
        invariant
            i <= args@.len(),
            av == cexprs_view(args@),
            env0 == old(env)@,
            translate_arguments(av, env0) is Some,
            forall|k: int| 0 <= k <= av.len() ==> #[trigger] translate_arguments(av.take(k), env0) is Some,
            translate_arguments(av.take(i as int), env0) == Some(
                (Seq::new(addrs@.len(), |k: int| addrs@[k]@), instrs_view(insts@), env@),
            ),
        decreases args@.len() - i,
    {
        proof {
            assert(av.take(i + 1).drop_last() =~= av.take(i as int));
            assert(translate_arguments(av.take(i + 1), env0) is Some);
        }
        let ghost before = Seq::new(addrs@.len(), |k: int| addrs@[k]@);
        let (a, ai) = translate_expression_exec(&args[i], env);
        let ghost a_v = a@;
        addrs.push(a);
        append_instrs(&mut insts, ai);
        assert(Seq::new(addrs@.len(), |k: int| addrs@[k]@) =~= before.push(a_v));
        i = i + 1;
    }
    assert(av.take(args@.len() as int) =~= av);
    (addrs, insts)
}

proof fn lemma_arguments_prefix(args: Seq<CExprV>, n: int, env: CodegenEnvV)
    requires
        0 <= n <= args.len(),
        translate_arguments(args.take(n), env) is Some,
    ensures
        forall|k: int| 0 <= k <= n ==> #[trigger] translate_arguments(args.take(k), env) is Some,
    decreases n,
{
    if n > 0 {
        assert(args.take(n).drop_last() =~= args.take(n - 1));
        lemma_arguments_prefix(args, n - 1, env);
    }
    assert forall|k: int| 0 <= k <= n implies #[trigger] translate_arguments(args.take(k), env) is Some by {
        if k == n {
        } else {
        }
    }
}

/// Translates a checked statement to three-address code.
pub fn translate_statement(statement: CheckedStmt, env: &mut Environment) -> (r: Vec<Instruction>)
    requires
        lowering::translate_statement(statement@, old(env)@) is Some,
    ensures
        lowering::translate_statement(statement@, old(env)@) == Some((instrs_view(r@), final(env)@)),
{
    translate_stmt(&statement, env)
}

fn translate_stmt(s: &CheckedStmt, env: &mut Environment) -> (r: Vec<Instruction>)
    requires
        lowering::translate_statement(s@, old(env)@) is Some,
    ensures
        lowering::translate_statement(s@, old(env)@) == Some((instrs_view(r@), final(env)@)),
    decreases s, 1nat,
{
    match &s.stmt {
        Statement::Block { seq } => {
            proof {
                assert(s@.stmt->Block_seq =~= Seq::new(seq@.len(), |i: int| seq@[i]@));
            }
            translate_stmts(seq, env)
        },
        Statement::Decl { name, ty, init } => lower_copy_to_prefix_exec(name, ty, init, env),
        Statement::Assign { target, value } => {
            let a = translate_lvalue_exec(target, env);
            match &a {
                Address::Variable(n, t) => lower_copy_to_prefix_exec(n, t, value, env),
                Address::Temporary(n, t) => lower_copy_to_prefix_exec(n, t, value, env),
                Address::Constant(..) => {
                    proof {
                        assert(false);
                    }
                    Vec::new()
                },
            }
        },
        Statement::Call { name, args } => {
            proof {
                assert(s@.stmt->Call_args =~= cexprs_view(args@));
            }
            let (addrs, mut insts) = translate_arguments_exec(args, env);
            let ghost start = instrs_view(insts@);
            let ghost addrs_v = Seq::new(addrs@.len(), |k: int| addrs@[k]@);
            let mut i: usize = 0;
            while i < addrs.len()
                invariant
                    i <= addrs@.len(),
                    addrs_v == Seq::new(addrs@.len(), |k: int| addrs@[k]@),
                    instrs_view(insts@) == start + Seq::new(i as nat, |k: int| InstructionV::Param(addrs_v[k])),
                decreases addrs@.len() - i,
            {
                push_instr(&mut insts, Instruction::Param(clone_address(&addrs[i])));
                assert(instrs_view(insts@) =~= start + Seq::new((i + 1) as nat, |k: int| InstructionV::Param(addrs_v[k])));
                i = i + 1;
            }
            push_instr(&mut insts, Instruction::Call(None, name.clone(), args.len()));
            insts
        },
        Statement::If { .. } => translate_if_exec(s, env),
        Statement::Match { .. } => translate_match(s, env),
        _ => {
            proof {
                assert(false);
            }
            Vec::new()
        },
    }
}

/// Appending the pieces of an `if` one by one gives their concatenation.
proof fn lemma_if_layout<A>(
    c: Seq<A>,
    t: Seq<A>,
    e: Seq<A>,
    jump: A,
    else_label: A,
    end_label: A,
    v1: Seq<A>,
    v2: Seq<A>,
    v3: Seq<A>,
    v4: Seq<A>,
    v5: Seq<A>,
)
    requires
        v1 == c + t,
        v2 == v1.push(jump),
        v3 == v2.push(else_label),
        v4 == v3 + e,
        v5 == v4.push(end_label),
    ensures
        v5 == c + t + seq![jump, else_label] + e + seq![end_label],
{
    assert(v5 =~= c + t + seq![jump, else_label] + e + seq![end_label]);
}

fn translate_if_exec(s: &CheckedStmt, env: &mut Environment) -> (r: Vec<Instruction>)
    requires
        lowering::translate_if(s@, old(env)@) is Some,
    ensures
        lowering::translate_if(s@, old(env)@) == Some((instrs_view(r@), final(env)@)),
    decreases s, 0nat,
{
    let Statement::If { cond, then_branch, else_branch: Some(else_body) } = &s.stmt else {
        proof {
            assert(false);
        }
        return Vec::new();
    };
    let ghost env0 = env@;
    let label_else = env.new_label();
    let ghost env1 = env@;
    let label_end = env.new_label();
    let ghost env2 = env@;
    let mut insts = translate_conditional_false_exec(cond, env, label_else.clone());
    let ghost env3 = env@;
    let ghost ci = instrs_view(insts@);
    let ti = translate_stmt(then_branch, env);
    let ghost env4 = env@;
    let ghost tiv = instrs_view(ti@);
    let ei = translate_stmt(else_body, env);
    let ghost env5 = env@;
    let ghost eiv = instrs_view(ei@);
    append_instrs(&mut insts, ti);
    let ghost v1 = instrs_view(insts@);
    push_instr(&mut insts, Instruction::JMP(label_end.clone()));
    let ghost v2 = instrs_view(insts@);
    push_instr(&mut insts, Instruction::Label(label_else.clone()));
    let ghost v3 = instrs_view(insts@);
    append_instrs(&mut insts, ei);
    let ghost v4 = instrs_view(insts@);
    push_instr(&mut insts, Instruction::Label(label_end.clone()));
    proof {
        lemma_if_result(s@, env0, label_else@, env1, label_end@, env2, ci, env3, tiv, env4, eiv, env5);
        lemma_if_layout(
            ci,
            tiv,
            eiv,
            InstructionV::JMP(label_end@),
            InstructionV::Label(label_else@),
            InstructionV::Label(label_end@),
            v1,
            v2,
            v3,
            v4,
            instrs_view(insts@),
        );
    }
    insts
}

fn translate_match(s: &CheckedStmt, env: &mut Environment) -> (r: Vec<Instruction>)
    requires
        s@.stmt is Match,
        lowering::translate_statement(s@, old(env)@) is Some,
    ensures
        lowering::translate_statement(s@, old(env)@) == Some((instrs_view(r@), final(env)@)),
    decreases s, 0nat,
{
    let Statement::Match { target, arms } = &s.stmt else {
        proof {
            assert(false);
        }
        return Vec::new();
    };
    let end_label = env.new_label();
    let enum_name = match &target.ty {
        Type::Enum(n) => n.clone(),
        _ => {
            proof {
                assert(false);
            }
            return Vec::new();
        },
    };
    let (ta, mut insts) = translate_expression_exec(target, env);
    let tag_var = match &ta {
        Address::Variable(n, _) => n.clone(),
        _ => {
            proof {
                assert(false);
            }
            return Vec::new();
        },
    };
    proof {
        assert(s@.stmt->Match_arms =~= arms_view(arms@));
    }
    let ai = translate_arms_exec(arms, env, &enum_name, &tag_var, &end_label);
    append_instrs(&mut insts, ai);
    push_instr(&mut insts, Instruction::Label(end_label));
    insts
}

pub open spec fn arms_view(arms: Seq<MatchArm<Type>>) -> Seq<MatchArmV<TypeV>> {
    Seq::new(arms.len(), |i: int| arm_view(arms[i]))
}

fn translate_stmts(seq: &Vec<CheckedStmt>, env: &mut Environment) -> (r: Vec<Instruction>)
    requires
        translate_statements(Seq::new(seq@.len(), |i: int| seq@[i]@), old(env)@) is Some,
    ensures
        translate_statements(Seq::new(seq@.len(), |i: int| seq@[i]@), old(env)@) == Some(
            (instrs_view(r@), final(env)@),
        ),
    decreases seq, 0nat,
{
    let ghost sv = Seq::new(seq@.len(), |i: int| seq@[i]@);
    let ghost env0 = env@;
    let mut out: Vec<Instruction> = Vec::new();
    let mut i: usize = 0;
    assert(sv.skip(0) =~= sv);
    assert(instrs_view(out@) =~= Seq::<InstructionV>::empty());
    while i < seq.len()
        invariant
            i <= seq@.len(),
            sv == Seq::new(seq@.len(), |i: int| seq@[i]@),
            env0 == old(env)@,
            translate_statements(sv, env0) == match translate_statements(sv.skip(i as int), env@) {
                None => None,
                Some((b, e2)) => Some((instrs_view(out@) + b, e2)),
            },
            translate_statements(sv, env0) is Some,
        decreases seq@.len() - i,
    {
        proof {
            assert(decreases_to!(seq => seq@[i as int]));
            assert(sv.skip(i as int)[0] == sv[i as int]);
            assert(sv.skip(i as int).drop_first() =~= sv.skip(i + 1));
        }
        let a = translate_stmt(&seq[i], env);
        let ghost before = instrs_view(out@);
        let ghost a_v = instrs_view(a@);
        append_instrs(&mut out, a);
        proof {
            assert forall|b: Seq<InstructionV>| #![auto] before + (a_v + b) == instrs_view(out@) + b by {
                assert(before + (a_v + b) =~= instrs_view(out@) + b);
            }
        }
        i = i + 1;
    }
    assert(sv.skip(i as int) =~= Seq::<CStmtV>::empty());
    assert(instrs_view(out@) + Seq::<InstructionV>::empty() =~= instrs_view(out@));
    out
}

fn translate_arms_exec(
    arms: &Vec<MatchArm<Type>>,
    env: &mut Environment,
    enum_name: &String,
    tag_var: &String,
    end_label: &String,
) -> (r: Vec<Instruction>)
    requires
        translate_arms(arms_view(arms@), old(env)@, enum_name@, tag_var@, end_label@) is Some,
    ensures
        translate_arms(arms_view(arms@), old(env)@, enum_name@, tag_var@, end_label@) == Some(
            (instrs_view(r@), final(env)@),
        ),
    decreases arms, 0nat,
{
    let ghost av = arms_view(arms@);
    let ghost env0 = env@;
    let mut out: Vec<Instruction> = Vec::new();
    let mut i: usize = 0;
    assert(av.skip(0) =~= av);
    assert(instrs_view(out@) =~= Seq::<InstructionV>::empty());
    while i < arms.len()
        invariant
            i <= arms@.len(),
            av == arms_view(arms@),
            env0 == old(env)@,
            translate_arms(av, env0, enum_name@, tag_var@, end_label@) == match translate_arms(
                av.skip(i as int),
                env@,
                enum_name@,
                tag_var@,
                end_label@,
            ) {
                None => None,
                Some((b, e2)) => Some((instrs_view(out@) + b, e2)),
            },
            translate_arms(av, env0, enum_name@, tag_var@, end_label@) is Some,
        decreases arms@.len() - i,
    {
        proof {
            assert(decreases_to!(arms => arms@[i as int]));
            assert(av.skip(i as int)[0] == av[i as int]);
            assert(av.skip(i as int).drop_first() =~= av.skip(i + 1));
        }
        let a = translate_arm_exec(&arms[i], env, enum_name, tag_var, end_label);
        let ghost before = instrs_view(out@);
        let ghost a_v = instrs_view(a@);
        append_instrs(&mut out, a);
        proof {
            assert forall|b: Seq<InstructionV>| #![auto] before + (a_v + b) == instrs_view(out@) + b by {
                assert(before + (a_v + b) =~= instrs_view(out@) + b);
            }
        }
        i = i + 1;
    }
    assert(av.skip(i as int) =~= Seq::<MatchArmV<TypeV>>::empty());
    assert(instrs_view(out@) + Seq::<InstructionV>::empty() =~= instrs_view(out@));
    out
}

pub open spec fn arm_view(arm: MatchArm<Type>) -> MatchArmV<TypeV> {
    MatchArmV {
        variant: arm.variant@,
        binding: match arm.binding {
            Some(b) => Some(b@),
            None => None,
        },
        body: Box::new(arm.body@),
    }
}

fn translate_arm_exec(
    arm: &MatchArm<Type>,
    env: &mut Environment,
    enum_name: &String,
    tag_var: &String,
    end_label: &String,
) -> (r: Vec<Instruction>)
    requires
        translate_arm(arm_view(*arm), old(env)@, enum_name@, tag_var@, end_label@) is Some,
    ensures
        translate_arm(arm_view(*arm), old(env)@, enum_name@, tag_var@, end_label@) == Some(
            (instrs_view(r@), final(env)@),
        ),
    decreases arm, 0nat,
{
    let next_label = env.new_label();
    let ordinal = env.variant_tag_index(enum_name, &arm.variant);
    let mut insts: Vec<Instruction> = Vec::new();
    push_instr(
        &mut insts,
        Instruction::ConditionalJMPRelational(
            Operator::NE,
            Address::Variable(dotted_name(tag_var, "tag"), Type::Int),
            Address::Constant(Literal::Int(ordinal), Type::Int),
            next_label.clone(),
        ),
    );
    match &arm.binding {
        Some(binding) => {
            let payload_ty = match env.variant_payload_ty(enum_name, &arm.variant) {
                Some(t) => t,
                None => {
                    proof {
                        assert(false);
                    }
                    return insts;
                },
            };
            let mb = env.new_match_binding();
            let binding_addr = Address::Temporary(mb, clone_type(&payload_ty));
            let payload_addr = Address::Variable(dotted_name(tag_var, "payload"), payload_ty);
            push_instr(&mut insts, Instruction::CopyAssignment(clone_address(&binding_addr), payload_addr));
            let previous = env.push_alias(binding.clone(), binding_addr);
            let bi = translate_stmt(&arm.body, env);
            append_instrs(&mut insts, bi);
            env.restore_alias(binding.clone(), previous);
        },
        None => {
            let bi = translate_stmt(&arm.body, env);
            append_instrs(&mut insts, bi);
        },
    }
    push_instr(&mut insts, Instruction::JMP(end_label.clone()));
    push_instr(&mut insts, Instruction::Label(next_label));
    insts
}

/// Translates the `main` function of a checked program, after registering
/// the program's type declarations.
pub fn translate_program(program: CheckedProgram, env: &mut Environment) -> (r: TACProgram)
    requires
        lowering::translate_program(program@, old(env)@) is Some,
    ensures
        lowering::translate_program(program@, old(env)@) == Some((instrs_view(r@), final(env)@)),
{
    let decls = clone_decls(&program.type_declarations);
    proof {
        assert(Seq::new(decls@.len(), |i: int| decls@[i]@) =~= program@.type_declarations);
    }
    env.register_type_declarations(decls);
    match program.main_function() {
        Some(f) => translate_function(f, env),
        None => {
            proof {
                assert(false);
            }
            Vec::new()
        },
    }
}

/// The label of the function, then the code of its body.
fn translate_function(function: &CheckedFunDecl, env: &mut Environment) -> (r: TACProgram)
    requires
        lowering::translate_statement(*function@.body, old(env)@) is Some,
    ensures
        lowering::translate_statement(*function@.body, old(env)@) matches Some((insts, env1))
            && instrs_view(r@) == seq![InstructionV::Label(function@.name)] + insts && final(env)@ == env1,
{
    let body: &CheckedStmt = &function.body;
    let mut instructions = translate_stmt(body, env);
    let ghost iv = instrs_view(instructions@);
    let ghost label = InstructionV::Label(function@.name);
    instructions.insert(0, Instruction::Label(function.name.clone()));
    assert(instrs_view(instructions@) =~= seq![label] + iv);
    instructions
}

} // verus!
