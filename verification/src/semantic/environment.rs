//! The type checker's environment: the types of the names in scope, and the
//! user-defined type declarations of the program.
use vstd::prelude::*;
use crate::ir::ast::{opt_type_view, Type, TypeV, UDTDecl, UDTDeclV, UDTKind};

verus! {

/// The view of a [`TypeEnv`]: bindings in the order they were declared
/// (a later binding of a name shadows an earlier one) and the type
/// declarations.
pub struct TypeEnvV {
    pub bindings: Seq<(Seq<char>, TypeV)>,
    pub decls: Seq<UDTDeclV>,
}

/// The type bound to `name`: that of its latest binding.
pub open spec fn lookup(bindings: Seq<(Seq<char>, TypeV)>, name: Seq<char>) -> Option<TypeV>
    decreases bindings.len(),
{
    if bindings.len() == 0 {
        None
    } else if bindings.last().0 == name {
        Some(bindings.last().1)
    } else {
        lookup(bindings.drop_last(), name)
    }
}

/// The position of the first declaration of kind `kind` named `name`.
pub open spec fn decl_index(decls: Seq<UDTDeclV>, kind: UDTKind, name: Seq<char>) -> Option<nat>
    decreases decls.len(),
{
    if decls.len() == 0 {
        None
    } else if decls[0].specifier == kind && decls[0].identifier == name {
        Some(0)
    } else {
        match decl_index(decls.drop_first(), kind, name) {
            Some(i) => Some(i + 1),
            None => None,
        }
    }
}

/// The first declaration of kind `kind` named `name`.
pub open spec fn find_decl(decls: Seq<UDTDeclV>, kind: UDTKind, name: Seq<char>) -> Option<UDTDeclV> {
    match decl_index(decls, kind, name) {
        Some(i) => Some(decls[i as int]),
        None => None,
    }
}

pub proof fn lemma_decl_index(decls: Seq<UDTDeclV>, kind: UDTKind, name: Seq<char>, i: int)
    requires
        0 <= i <= decls.len(),
        forall|j: int|
            0 <= j < i ==> !(#[trigger] decls[j].specifier == kind && decls[j].identifier == name),
    ensures
        i < decls.len() && decls[i].specifier == kind && decls[i].identifier == name
            ==> decl_index(decls, kind, name) == Some(i as nat),
        i == decls.len() ==> decl_index(decls, kind, name) is None,
    decreases i,
{
    if i > 0 {
        let rest = decls.drop_first();
        assert forall|j: int| 0 <= j < i - 1 implies !(#[trigger] rest[j].specifier == kind
            && rest[j].identifier == name) by {
            assert(rest[j] == decls[j + 1]);
        }
        lemma_decl_index(rest, kind, name, i - 1);
    }
}

proof fn lemma_decl_index_bound(decls: Seq<UDTDeclV>, kind: UDTKind, name: Seq<char>)
    ensures
        decl_index(decls, kind, name) matches Some(i) ==> i < decls.len()
            && decls[i as int].specifier == kind && decls[i as int].identifier == name,
    decreases decls.len(),
{
    if decls.len() > 0 {
        lemma_decl_index_bound(decls.drop_first(), kind, name);
    }
}

/// The names in scope with their types, and the program's type declarations.
pub struct TypeEnv {
    bindings: Vec<(String, Type)>,
    decls: Vec<UDTDecl>,
}

impl View for TypeEnv {
    type V = TypeEnvV;

    closed spec fn view(&self) -> TypeEnvV {
        TypeEnvV {
            bindings: Seq::new(
                self.bindings@.len(),
                |i: int| (self.bindings@[i].0@, self.bindings@[i].1@),
            ),
            decls: Seq::new(self.decls@.len(), |i: int| self.decls@[i]@),
        }
    }
}

impl TypeEnv {
    /// An environment with no names in scope and the given type declarations.
    pub fn with_type_decls(decls: Vec<UDTDecl>) -> (r: TypeEnv)
        ensures
            r@.bindings.len() == 0,
            r@.decls == Seq::new(decls@.len(), |i: int| decls@[i]@),
    {
        let r = TypeEnv { bindings: Vec::new(), decls };
        assert(r@.bindings =~= Seq::<(Seq<char>, TypeV)>::empty());
        r
    }

    /// The type bound to `name`, if any.
    pub fn get(&self, name: &String) -> (r: Option<&Type>)
        ensures
            opt_type_view(match r { Some(t) => Some(*t), None => None }) == lookup(self@.bindings, name@),
    {
        let ghost b = self@.bindings;
        let mut i: usize = self.bindings.len();
        assert(b.take(i as int) =~= b);
        while i > 0
            invariant
                i <= self.bindings@.len(),
                b == self@.bindings,
                lookup(b, name@) == lookup(b.take(i as int), name@),
            decreases i,
        {
            assert(b.take(i as int).drop_last() =~= b.take(i - 1));
            if self.bindings[i - 1].0 == *name {
                return Some(&self.bindings[i - 1].1);
            }
            i = i - 1;
        }
        None
    }

    /// Binds `name` to `ty`, shadowing any earlier binding of `name`.
    pub fn declare(&mut self, name: String, ty: Type)
        ensures
            final(self)@.bindings == old(self)@.bindings.push((name@, ty@)),
            final(self)@.decls == old(self)@.decls,
    {
        self.bindings.push((name, ty));
        assert(self@.bindings =~= old(self)@.bindings.push((name@, ty@)));
        assert(self@.decls =~= old(self)@.decls);
    }

    /// A mark to which [`TypeEnv::restore`] brings the bindings back.
    pub fn snapshot(&self) -> (r: usize)
        ensures
            r == self@.bindings.len(),
    {
        self.bindings.len()
    }

    /// Drops every binding made after `mark` was taken.
    pub fn restore(&mut self, mark: usize)
        requires
            mark <= old(self)@.bindings.len(),
        ensures
            final(self)@.bindings == old(self)@.bindings.take(mark as int),
            final(self)@.decls == old(self)@.decls,
    {
        self.bindings.truncate(mark);
        assert(self@.bindings =~= old(self)@.bindings.take(mark as int));
        assert(self@.decls =~= old(self)@.decls);
    }

    /// The first declaration of kind `kind` named `name`, if any.
    pub fn get_type_decl(&self, kind: UDTKind, name: &String) -> (r: Option<&UDTDecl>)
        ensures
            match find_decl(self@.decls, kind, name@) {
                Some(d) => r matches Some(x) && x@ == d,
                None => r is None,
            },
    {
        let mut i: usize = 0;
        while i < self.decls.len()
            invariant
                i <= self.decls@.len(),
                forall|j: int|
                    0 <= j < i ==> !(#[trigger] self@.decls[j].specifier == kind
                        && self@.decls[j].identifier == name@),
            decreases self.decls@.len() - i,
        {
            if self.decls[i].specifier == kind && self.decls[i].identifier == *name {
                proof {
                    lemma_decl_index(self@.decls, kind, name@, i as int);
                }
                return Some(&self.decls[i]);
            }
            i = i + 1;
        }
        proof {
            lemma_decl_index(self@.decls, kind, name@, i as int);
        }
        None
    }

    /// Whether a declaration of kind `kind` named `name` exists.
    pub fn has_type_decl(&self, kind: UDTKind, name: &String) -> (r: bool)
        ensures
            r == find_decl(self@.decls, kind, name@) is Some,
    {
        self.get_type_decl(kind, name).is_some()
    }
}

} // verus!
