//! The abstract syntax of MiniC programs, before and after type checking.
//!
//! Every node type has a mathematical view (the types ending in `V`), in which
//! strings are `Seq<char>` and vectors are `Seq`. Contracts speak of views.
use vstd::prelude::*;
use crate::text::{push_quoted, quoted};

verus! {

/// A MiniC type.
#[derive(Debug, PartialEq)]
pub enum Type {
    Int,
    Float,
    Bool,
    Str,
    Unit,
    Any,
    Array(Box<Type>),
    Struct(String),
    Enum(String),
    Function { params: Vec<Type>, return_type: Box<Type> },
}

/// A literal value. A float literal is held by its IEEE-754 bit pattern.
#[derive(Debug, PartialEq)]
pub enum Literal {
    Int(i64),
    Float(u64),
    Str(String),
    Bool(bool),
}

/// An expression node together with its annotation (`()` before type
/// checking, `Type` after).
#[derive(Debug, PartialEq)]
pub struct ExprD<T> {
    pub exp: Expr<T>,
    pub ty: T,
}

#[derive(Debug, PartialEq)]
pub enum Expr<T> {
    Literal(Literal),
    Ident(String),
    Neg(Box<ExprD<T>>),
    Add(Box<ExprD<T>>, Box<ExprD<T>>),
    Sub(Box<ExprD<T>>, Box<ExprD<T>>),
    Mul(Box<ExprD<T>>, Box<ExprD<T>>),
    Div(Box<ExprD<T>>, Box<ExprD<T>>),
    Eq(Box<ExprD<T>>, Box<ExprD<T>>),
    Ne(Box<ExprD<T>>, Box<ExprD<T>>),
    Lt(Box<ExprD<T>>, Box<ExprD<T>>),
    Le(Box<ExprD<T>>, Box<ExprD<T>>),
    Gt(Box<ExprD<T>>, Box<ExprD<T>>),
    Ge(Box<ExprD<T>>, Box<ExprD<T>>),
    And(Box<ExprD<T>>, Box<ExprD<T>>),
    Or(Box<ExprD<T>>, Box<ExprD<T>>),
    Not(Box<ExprD<T>>),
    Call { name: String, args: Vec<ExprD<T>> },
    ArrayLit(Vec<ExprD<T>>),
    Index { base: Box<ExprD<T>>, index: Box<ExprD<T>> },
    Member { base: Box<ExprD<T>>, member: String },
    Init { fields: Vec<(String, Option<ExprD<T>>)> },
    Cast { ty: Type, expr: Box<ExprD<T>> },
    EnumVariant { enum_name: Option<String>, variant: String, payload: Option<Box<ExprD<T>>> },
}

/// A statement node together with its annotation.
#[derive(Debug, PartialEq)]
pub struct StatementD<T> {
    pub stmt: Statement<T>,
    pub ty: T,
}

#[derive(Debug, PartialEq)]
pub enum Statement<T> {
    Decl { name: String, ty: Type, init: Box<ExprD<T>> },
    Assign { target: Box<ExprD<T>>, value: Box<ExprD<T>> },
    Block { seq: Vec<StatementD<T>> },
    Call { name: String, args: Vec<ExprD<T>> },
    If {
        cond: Box<ExprD<T>>,
        then_branch: Box<StatementD<T>>,
        else_branch: Option<Box<StatementD<T>>>,
    },
    While { cond: Box<ExprD<T>>, body: Box<StatementD<T>> },
    Return(Option<Box<ExprD<T>>>),
    Match { target: Box<ExprD<T>>, arms: Vec<MatchArm<T>> },
}

/// One arm of a `match`: the variant it handles, the name its payload is
/// bound to (if any), and its body.
#[derive(Debug, PartialEq)]
pub struct MatchArm<T> {
    pub variant: String,
    pub binding: Option<String>,
    pub body: Box<StatementD<T>>,
}

#[derive(Debug, PartialEq)]
pub struct Param {
    pub name: String,
    pub ty: Type,
}

#[derive(Debug, PartialEq)]
pub struct FunDecl<T> {
    pub name: String,
    pub params: Vec<Param>,
    pub return_type: Type,
    pub body: Box<StatementD<T>>,
}

#[derive(Debug, PartialEq)]
pub struct Program<T> {
    pub type_declarations: Vec<UDTDecl>,
    pub functions: Vec<FunDecl<T>>,
}

/// The kind of a user-defined type.
#[derive(Debug, PartialEq, Eq, Structural)]
pub enum UDTKind {
    Struct,
    Enum,
}

#[derive(Debug, PartialEq)]
pub struct FieldDecl {
    pub name: String,
    pub ty: Type,
}

#[derive(Debug, PartialEq)]
pub enum UDTMember {
    Field(FieldDecl),
    EnumVariant { name: String, ty: Option<Type> },
}

/// A user-defined type declaration (`struct` or `enum`).
#[derive(Debug, PartialEq)]
pub struct UDTDecl {
    pub specifier: UDTKind,
    pub identifier: String,
    pub members: Vec<UDTMember>,
}

pub type UncheckedExpr = ExprD<()>;

pub type CheckedExpr = ExprD<Type>;

pub type UncheckedStmt = StatementD<()>;

pub type CheckedStmt = StatementD<Type>;

pub type UncheckedFunDecl = FunDecl<()>;

pub type CheckedFunDecl = FunDecl<Type>;

pub type UncheckedProgram = Program<()>;

pub type CheckedProgram = Program<Type>;

// ---------------------------------------------------------------------------
// Views
// ---------------------------------------------------------------------------

pub enum TypeV {
    Int,
    Float,
    Bool,
    Str,
    Unit,
    Any,
    Array(Box<TypeV>),
    Struct(Seq<char>),
    Enum(Seq<char>),
    Function { params: Seq<TypeV>, return_type: Box<TypeV> },
}

pub enum LiteralV {
    Int(i64),
    Float(u64),
    Str(Seq<char>),
    Bool(bool),
}

pub struct ExprDV<A> {
    pub exp: ExprV<A>,
    pub ty: A,
}

pub enum ExprV<A> {
    Literal(LiteralV),
    Ident(Seq<char>),
    Neg(Box<ExprDV<A>>),
    Add(Box<ExprDV<A>>, Box<ExprDV<A>>),
    Sub(Box<ExprDV<A>>, Box<ExprDV<A>>),
    Mul(Box<ExprDV<A>>, Box<ExprDV<A>>),
    Div(Box<ExprDV<A>>, Box<ExprDV<A>>),
    Eq(Box<ExprDV<A>>, Box<ExprDV<A>>),
    Ne(Box<ExprDV<A>>, Box<ExprDV<A>>),
    Lt(Box<ExprDV<A>>, Box<ExprDV<A>>),
    Le(Box<ExprDV<A>>, Box<ExprDV<A>>),
    Gt(Box<ExprDV<A>>, Box<ExprDV<A>>),
    Ge(Box<ExprDV<A>>, Box<ExprDV<A>>),
    And(Box<ExprDV<A>>, Box<ExprDV<A>>),
    Or(Box<ExprDV<A>>, Box<ExprDV<A>>),
    Not(Box<ExprDV<A>>),
    Call { name: Seq<char>, args: Seq<ExprDV<A>> },
    ArrayLit(Seq<ExprDV<A>>),
    Index { base: Box<ExprDV<A>>, index: Box<ExprDV<A>> },
    Member { base: Box<ExprDV<A>>, member: Seq<char> },
    Init { fields: Seq<(Seq<char>, Option<ExprDV<A>>)> },
    Cast { ty: TypeV, expr: Box<ExprDV<A>> },
    EnumVariant { enum_name: Option<Seq<char>>, variant: Seq<char>, payload: Option<Box<ExprDV<A>>> },
}

pub struct StatementDV<A> {
    pub stmt: StatementV<A>,
    pub ty: A,
}

pub enum StatementV<A> {
    Decl { name: Seq<char>, ty: TypeV, init: Box<ExprDV<A>> },
    Assign { target: Box<ExprDV<A>>, value: Box<ExprDV<A>> },
    Block { seq: Seq<StatementDV<A>> },
    Call { name: Seq<char>, args: Seq<ExprDV<A>> },
    If {
        cond: Box<ExprDV<A>>,
        then_branch: Box<StatementDV<A>>,
        else_branch: Option<Box<StatementDV<A>>>,
    },
    While { cond: Box<ExprDV<A>>, body: Box<StatementDV<A>> },
    Return(Option<Box<ExprDV<A>>>),
    Match { target: Box<ExprDV<A>>, arms: Seq<MatchArmV<A>> },
}

pub struct MatchArmV<A> {
    pub variant: Seq<char>,
    pub binding: Option<Seq<char>>,
    pub body: Box<StatementDV<A>>,
}

pub struct ParamV {
    pub name: Seq<char>,
    pub ty: TypeV,
}

pub struct FunDeclV<A> {
    pub name: Seq<char>,
    pub params: Seq<ParamV>,
    pub return_type: TypeV,
    pub body: Box<StatementDV<A>>,
}

pub struct ProgramV<A> {
    pub type_declarations: Seq<UDTDeclV>,
    pub functions: Seq<FunDeclV<A>>,
}

pub enum UDTMemberV {
    Field { name: Seq<char>, ty: TypeV },
    EnumVariant { name: Seq<char>, ty: Option<TypeV> },
}

pub struct UDTDeclV {
    pub specifier: UDTKind,
    pub identifier: Seq<char>,
    pub members: Seq<UDTMemberV>,
}

pub type UExprV = ExprDV<()>;

pub type CExprV = ExprDV<TypeV>;

pub type UStmtV = StatementDV<()>;

pub type CStmtV = StatementDV<TypeV>;

pub type UProgramV = ProgramV<()>;

pub type CProgramV = ProgramV<TypeV>;

pub open spec fn type_view(t: Type) -> TypeV
    decreases t,
{
    match t {
        Type::Int => TypeV::Int,
        Type::Float => TypeV::Float,
        Type::Bool => TypeV::Bool,
        Type::Str => TypeV::Str,
        Type::Unit => TypeV::Unit,
        Type::Any => TypeV::Any,
        Type::Array(inner) => TypeV::Array(Box::new(type_view(*inner))),
        Type::Struct(s) => TypeV::Struct(s@),
        Type::Enum(s) => TypeV::Enum(s@),
        Type::Function { params, return_type } => TypeV::Function {
            params: Seq::new(
                params@.len(),
                |i: int| if 0 <= i < params@.len() { type_view(params@[i]) } else { TypeV::Unit },
            ),
            return_type: Box::new(type_view(*return_type)),
        },
    }
}

impl View for Type {
    type V = TypeV;

    open spec fn view(&self) -> TypeV {
        type_view(*self)
    }
}

pub open spec fn opt_type_view(t: Option<Type>) -> Option<TypeV> {
    match t {
        Some(t) => Some(t@),
        None => None,
    }
}

impl View for Literal {
    type V = LiteralV;

    open spec fn view(&self) -> LiteralV {
        match self {
            Literal::Int(i) => LiteralV::Int(*i),
            Literal::Float(f) => LiteralV::Float(*f),
            Literal::Str(s) => LiteralV::Str(s@),
            Literal::Bool(b) => LiteralV::Bool(*b),
        }
    }
}

pub open spec fn expr_view<T: View>(e: ExprD<T>) -> ExprDV<T::V>
    decreases e,
{
    let exp = match e.exp {
        Expr::Literal(l) => ExprV::Literal(l@),
        Expr::Ident(s) => ExprV::Ident(s@),
        Expr::Neg(a) => ExprV::Neg(Box::new(expr_view(*a))),
        Expr::Add(a, b) => ExprV::Add(Box::new(expr_view(*a)), Box::new(expr_view(*b))),
        Expr::Sub(a, b) => ExprV::Sub(Box::new(expr_view(*a)), Box::new(expr_view(*b))),
        Expr::Mul(a, b) => ExprV::Mul(Box::new(expr_view(*a)), Box::new(expr_view(*b))),
        Expr::Div(a, b) => ExprV::Div(Box::new(expr_view(*a)), Box::new(expr_view(*b))),
        Expr::Eq(a, b) => ExprV::Eq(Box::new(expr_view(*a)), Box::new(expr_view(*b))),
        Expr::Ne(a, b) => ExprV::Ne(Box::new(expr_view(*a)), Box::new(expr_view(*b))),
        Expr::Lt(a, b) => ExprV::Lt(Box::new(expr_view(*a)), Box::new(expr_view(*b))),
        Expr::Le(a, b) => ExprV::Le(Box::new(expr_view(*a)), Box::new(expr_view(*b))),
        Expr::Gt(a, b) => ExprV::Gt(Box::new(expr_view(*a)), Box::new(expr_view(*b))),
        Expr::Ge(a, b) => ExprV::Ge(Box::new(expr_view(*a)), Box::new(expr_view(*b))),
        Expr::And(a, b) => ExprV::And(Box::new(expr_view(*a)), Box::new(expr_view(*b))),
        Expr::Or(a, b) => ExprV::Or(Box::new(expr_view(*a)), Box::new(expr_view(*b))),
        Expr::Not(a) => ExprV::Not(Box::new(expr_view(*a))),
        Expr::Call { name, args } => ExprV::Call {
            name: name@,
            args: Seq::new(
                args@.len(),
                |i: int| if 0 <= i < args@.len() { expr_view(args@[i]) } else { arbitrary() },
            ),
        },
        Expr::ArrayLit(elems) => ExprV::ArrayLit(
            Seq::new(
                elems@.len(),
                |i: int| if 0 <= i < elems@.len() { expr_view(elems@[i]) } else { arbitrary() },
            ),
        ),
        Expr::Index { base, index } => ExprV::Index {
            base: Box::new(expr_view(*base)),
            index: Box::new(expr_view(*index)),
        },
        Expr::Member { base, member } => ExprV::Member {
            base: Box::new(expr_view(*base)),
            member: member@,
        },
        Expr::Init { fields } => ExprV::Init {
            fields: Seq::new(
                fields@.len(),
                |i: int|
                    if 0 <= i < fields@.len() {
                        (
                            fields@[i].0@,
                            match fields@[i].1 {
                                Some(f) => Some(expr_view(f)),
                                None => None,
                            },
                        )
                    } else {
                        (Seq::empty(), None)
                    },
            ),
        },
        Expr::Cast { ty, expr } => ExprV::Cast { ty: ty@, expr: Box::new(expr_view(*expr)) },
        Expr::EnumVariant { enum_name, variant, payload } => ExprV::EnumVariant {
            enum_name: match enum_name {
                Some(n) => Some(n@),
                None => None,
            },
            variant: variant@,
            payload: match payload {
                Some(p) => Some(Box::new(expr_view(*p))),
                None => None,
            },
        },
    };
    ExprDV { exp, ty: e.ty@ }
}


impl<T: View> View for ExprD<T> {
    type V = ExprDV<T::V>;

    open spec fn view(&self) -> ExprDV<T::V> {
        expr_view(*self)
    }
}

pub open spec fn stmt_view<T: View>(s: StatementD<T>) -> StatementDV<T::V>
    decreases s,
{
    let stmt = match s.stmt {
        Statement::Decl { name, ty, init } => StatementV::Decl { name: name@, ty: ty@, init: Box::new(init@) },
        Statement::Assign { target, value } => StatementV::Assign {
            target: Box::new(target@),
            value: Box::new(value@),
        },
        Statement::Block { seq } => StatementV::Block {
            seq: Seq::new(
                seq@.len(),
                |i: int| if 0 <= i < seq@.len() { stmt_view(seq@[i]) } else { arbitrary() },
            ),
        },
        Statement::Call { name, args } => StatementV::Call {
            name: name@,
            args: Seq::new(args@.len(), |i: int| args@[i]@),
        },
        Statement::If { cond, then_branch, else_branch } => StatementV::If {
            cond: Box::new(cond@),
            then_branch: Box::new(stmt_view(*then_branch)),
            else_branch: match else_branch {
                Some(e) => Some(Box::new(stmt_view(*e))),
                None => None,
            },
        },
        Statement::While { cond, body } => StatementV::While {
            cond: Box::new(cond@),
            body: Box::new(stmt_view(*body)),
        },
        Statement::Return(e) => StatementV::Return(
            match e {
                Some(e) => Some(Box::new(e@)),
                None => None,
            },
        ),
        Statement::Match { target, arms } => StatementV::Match {
            target: Box::new(target@),
            arms: Seq::new(
                arms@.len(),
                |i: int|
                    if 0 <= i < arms@.len() {
                        MatchArmV {
                            variant: arms@[i].variant@,
                            binding: match arms@[i].binding {
                                Some(b) => Some(b@),
                                None => None,
                            },
                            body: Box::new(stmt_view(*arms@[i].body)),
                        }
                    } else {
                        arbitrary()
                    },
            ),
        },
    };
    StatementDV { stmt, ty: s.ty@ }
}

impl<T: View> View for StatementD<T> {
    type V = StatementDV<T::V>;

    open spec fn view(&self) -> StatementDV<T::V> {
        stmt_view(*self)
    }
}

impl View for Param {
    type V = ParamV;

    open spec fn view(&self) -> ParamV {
        ParamV { name: self.name@, ty: self.ty@ }
    }
}

impl<T: View> View for FunDecl<T> {
    type V = FunDeclV<T::V>;

    open spec fn view(&self) -> FunDeclV<T::V> {
        FunDeclV {
            name: self.name@,
            params: Seq::new(self.params@.len(), |i: int| self.params@[i]@),
            return_type: self.return_type@,
            body: Box::new(self.body@),
        }
    }
}

impl View for UDTMember {
    type V = UDTMemberV;

    open spec fn view(&self) -> UDTMemberV {
        match self {
            UDTMember::Field(f) => UDTMemberV::Field { name: f.name@, ty: f.ty@ },
            UDTMember::EnumVariant { name, ty } => UDTMemberV::EnumVariant {
                name: name@,
                ty: opt_type_view(*ty),
            },
        }
    }
}

impl View for UDTDecl {
    type V = UDTDeclV;

    open spec fn view(&self) -> UDTDeclV {
        UDTDeclV {
            specifier: self.specifier,
            identifier: self.identifier@,
            members: Seq::new(self.members@.len(), |i: int| self.members@[i]@),
        }
    }
}

impl<T: View> View for Program<T> {
    type V = ProgramV<T::V>;

    open spec fn view(&self) -> ProgramV<T::V> {
        ProgramV {
            type_declarations: Seq::new(
                self.type_declarations@.len(),
                |i: int| self.type_declarations@[i]@,
            ),
            functions: Seq::new(self.functions@.len(), |i: int| self.functions@[i]@),
        }
    }
}

/// The position of the first function named `main`, if there is one.
pub open spec fn main_index<A>(functions: Seq<FunDeclV<A>>) -> Option<nat>
    decreases functions.len(),
{
    if functions.len() == 0 {
        None
    } else if functions[0].name == "main"@ {
        Some(0)
    } else {
        match main_index(functions.drop_first()) {
            Some(i) => Some(i + 1),
            None => None,
        }
    }
}


proof fn lemma_main_index<A>(functions: Seq<FunDeclV<A>>, i: int)
    requires
        0 <= i <= functions.len(),
        forall|j: int| 0 <= j < i ==> functions[j].name != "main"@,
    ensures
        i < functions.len() && functions[i].name == "main"@ ==> main_index(functions) == Some(
            i as nat,
        ),
        i == functions.len() ==> main_index(functions) is None,
    decreases i,
{
    if i > 0 {
        let rest = functions.drop_first();
        assert forall|j: int| 0 <= j < i - 1 implies rest[j].name != "main"@ by {
            assert(rest[j] == functions[j + 1]);
        }
        lemma_main_index(rest, i - 1);
    }
}

impl<T: View> Program<T> {
    /// The first function named `main`, if any.
    pub fn main_function(&self) -> (r: Option<&FunDecl<T>>)
        ensures
            match main_index(self@.functions) {
                Some(i) => r matches Some(f) && f@ == self@.functions[i as int],
                None => r is None,
            },
    {
        let main_name = String::from_str("main");
        let mut i: usize = 0;
        while i < self.functions.len()
            invariant
                i <= self.functions@.len(),
                main_name@ == "main"@,
                forall|j: int| 0 <= j < i ==> self@.functions[j].name != "main"@,
            decreases self.functions@.len() - i,
        {
            if self.functions[i].name == main_name {
                proof {
                    lemma_main_index(self@.functions, i as int);
                }
                return Some(&self.functions[i]);
            }
            i = i + 1;
        }
        proof {
            lemma_main_index(self@.functions, i as int);
        }
        None
    }
}


// ---------------------------------------------------------------------------
// Copying, comparing and printing types
// ---------------------------------------------------------------------------

/// A copy of `t`.
pub fn clone_type(t: &Type) -> (r: Type)
    ensures
        r@ == t@,
    decreases t,
{
    match t {
        Type::Int => Type::Int,
        Type::Float => Type::Float,
        Type::Bool => Type::Bool,
        Type::Str => Type::Str,
        Type::Unit => Type::Unit,
        Type::Any => Type::Any,
        Type::Array(inner) => Type::Array(Box::new(clone_type(inner))),
        Type::Struct(s) => Type::Struct(s.clone()),
        Type::Enum(s) => Type::Enum(s.clone()),
        Type::Function { params, return_type } => {
            let ps = clone_types(params);
            let r = Type::Function { params: ps, return_type: Box::new(clone_type(return_type)) };
            proof {
                let rv = Seq::new(ps@.len(), |j: int| ps@[j]@);
                assert(r@->params =~= rv);
                assert(t@->params =~= Seq::new(params@.len(), |j: int| params@[j]@));
                assert(rv =~= Seq::new(params@.len(), |j: int| params@[j]@));
            }
            r
        },
    }
}

/// A copy of each type of `ts`.
pub fn clone_types(ts: &Vec<Type>) -> (r: Vec<Type>)
    ensures
        r@.len() == ts@.len(),
        forall|i: int| 0 <= i < ts@.len() ==> #[trigger] r@[i]@ == ts@[i]@,
    decreases ts,
{
    let mut r: Vec<Type> = Vec::new();
    let mut i: usize = 0;
    while i < ts.len()
        invariant
            i <= ts@.len(),
            r@.len() == i,
            forall|j: int| 0 <= j < i ==> #[trigger] r@[j]@ == ts@[j]@,
        decreases ts@.len() - i,
    {
        proof {
            assert(decreases_to!(ts => ts@[i as int]));
        }
        r.push(clone_type(&ts[i]));
        i = i + 1;
    }
    r
}

/// A copy of `t`, if any.
pub fn clone_opt_type(t: &Option<Type>) -> (r: Option<Type>)
    ensures
        opt_type_view(r) == opt_type_view(*t),
{
    match t {
        Some(t) => Some(clone_type(t)),
        None => None,
    }
}

/// A copy of a parameter list.
pub fn clone_params(ps: &Vec<Param>) -> (r: Vec<Param>)
    ensures
        r@.len() == ps@.len(),
        forall|i: int| 0 <= i < ps@.len() ==> #[trigger] r@[i]@ == ps@[i]@,
{
    let mut r: Vec<Param> = Vec::new();
    let mut i: usize = 0;
    while i < ps.len()
        invariant
            i <= ps@.len(),
            r@.len() == i,
            forall|j: int| 0 <= j < i ==> #[trigger] r@[j]@ == ps@[j]@,
        decreases ps@.len() - i,
    {
        r.push(Param { name: ps[i].name.clone(), ty: clone_type(&ps[i].ty) });
        i = i + 1;
    }
    r
}

/// A copy of a member declaration.
pub fn clone_member(m: &UDTMember) -> (r: UDTMember)
    ensures
        r@ == m@,
{
    match m {
        UDTMember::Field(f) => UDTMember::Field(FieldDecl { name: f.name.clone(), ty: clone_type(&f.ty) }),
        UDTMember::EnumVariant { name, ty } => UDTMember::EnumVariant {
            name: name.clone(),
            ty: clone_opt_type(ty),
        },
    }
}

/// A copy of a type declaration.
pub fn clone_decl(d: &UDTDecl) -> (r: UDTDecl)
    ensures
        r@ == d@,
{
    let mut members: Vec<UDTMember> = Vec::new();
    let mut i: usize = 0;
    while i < d.members.len()
        invariant
            i <= d.members@.len(),
            members@.len() == i,
            forall|j: int| 0 <= j < i ==> #[trigger] members@[j]@ == d.members@[j]@,
        decreases d.members@.len() - i,
    {
        members.push(clone_member(&d.members[i]));
        i = i + 1;
    }
    let specifier = match d.specifier {
        UDTKind::Struct => UDTKind::Struct,
        UDTKind::Enum => UDTKind::Enum,
    };
    let r = UDTDecl { specifier, identifier: d.identifier.clone(), members };
    assert(r@.members =~= d@.members);
    r
}

/// A copy of a list of type declarations.
pub fn clone_decls(ds: &Vec<UDTDecl>) -> (r: Vec<UDTDecl>)
    ensures
        r@.len() == ds@.len(),
        forall|i: int| 0 <= i < ds@.len() ==> #[trigger] r@[i]@ == ds@[i]@,
{
    let mut r: Vec<UDTDecl> = Vec::new();
    let mut i: usize = 0;
    while i < ds.len()
        invariant
            i <= ds@.len(),
            r@.len() == i,
            forall|j: int| 0 <= j < i ==> #[trigger] r@[j]@ == ds@[j]@,
        decreases ds@.len() - i,
    {
        r.push(clone_decl(&ds[i]));
        i = i + 1;
    }
    r
}

/// Whether `a` and `b` are the same type.
pub fn type_eq(a: &Type, b: &Type) -> (r: bool)
    ensures
        r == (a@ == b@),
    decreases a,
{
    match (a, b) {
        (Type::Int, Type::Int) => true,
        (Type::Float, Type::Float) => true,
        (Type::Bool, Type::Bool) => true,
        (Type::Str, Type::Str) => true,
        (Type::Unit, Type::Unit) => true,
        (Type::Any, Type::Any) => true,
        (Type::Array(x), Type::Array(y)) => type_eq(x, y),
        (Type::Struct(x), Type::Struct(y)) => *x == *y,
        (Type::Enum(x), Type::Enum(y)) => *x == *y,
        (
            Type::Function { params: pa, return_type: ra },
            Type::Function { params: pb, return_type: rb },
        ) => {
            let same_params = types_eq(pa, pb);
            let same_return = type_eq(ra, rb);
            proof {
                let va = a@->params;
                let vb = b@->params;
                assert(va =~= Seq::new(pa@.len(), |j: int| pa@[j]@));
                assert(vb =~= Seq::new(pb@.len(), |j: int| pb@[j]@));
                if same_params {
                    assert(va =~= vb);
                }
                if a@ == b@ {
                    assert(va.len() == vb.len());
                    assert forall|j: int| 0 <= j < pa@.len() implies pa@[j]@ == pb@[j]@ by {
                        assert(va[j] == vb[j]);
                    }
                }
            }
            same_params && same_return
        },
        _ => false,
    }
}

/// Whether `a` and `b` hold the same types in the same order.
pub fn types_eq(a: &Vec<Type>, b: &Vec<Type>) -> (r: bool)
    ensures
        r == (a@.len() == b@.len() && forall|j: int| 0 <= j < a@.len() ==> #[trigger] a@[j]@ == b@[j]@),
    decreases a,
{
    if a.len() != b.len() {
        return false;
    }
    let mut i: usize = 0;
    while i < a.len()
        invariant
            i <= a@.len(),
            a@.len() == b@.len(),
            forall|j: int| 0 <= j < i ==> #[trigger] a@[j]@ == b@[j]@,
        decreases a@.len() - i,
    {
        proof {
            assert(decreases_to!(a => a@[i as int]));
        }
        if !type_eq(&a[i], &b[i]) {
            return false;
        }
        i = i + 1;
    }
    true
}

/// How `{:?}` writes a type.
pub open spec fn type_debug(t: TypeV) -> Seq<char>
    decreases t,
{
    match t {
        TypeV::Int => "Int"@,
        TypeV::Float => "Float"@,
        TypeV::Bool => "Bool"@,
        TypeV::Str => "Str"@,
        TypeV::Unit => "Unit"@,
        TypeV::Any => "Any"@,
        TypeV::Array(inner) => "Array("@ + type_debug(*inner) + ")"@,
        TypeV::Struct(s) => "Struct("@ + quoted(s) + ")"@,
        TypeV::Enum(s) => "Enum("@ + quoted(s) + ")"@,
        TypeV::Function { params, return_type } => "Function { params: ["@ + type_list_debug(params)
            + "], return_type: "@ + type_debug(*return_type) + " }"@,
    }
}

/// The types of `ts` written as by `{:?}` and separated by `", "`.
pub open spec fn type_list_debug(ts: Seq<TypeV>) -> Seq<char>
    decreases ts,
{
    if ts.len() == 0 {
        Seq::empty()
    } else if ts.len() == 1 {
        type_debug(ts[0])
    } else {
        type_list_debug(ts.drop_last()) + ", "@ + type_debug(ts.last())
    }
}

/// Appends `t` as written by `{:?}` to `out`.
pub fn push_type_debug(out: &mut String, t: &Type)
    ensures
        final(out)@ == old(out)@ + type_debug(t@),
    decreases t,
{
    match t {
        Type::Int => out.append("Int"),
        Type::Float => out.append("Float"),
        Type::Bool => out.append("Bool"),
        Type::Str => out.append("Str"),
        Type::Unit => out.append("Unit"),
        Type::Any => out.append("Any"),
        Type::Array(inner) => {
            out.append("Array(");
            push_type_debug(out, inner);
            out.append(")");
        },
        Type::Struct(s) => {
            out.append("Struct(");
            push_quoted(out, s.as_str());
            out.append(")");
        },
        Type::Enum(s) => {
            out.append("Enum(");
            push_quoted(out, s.as_str());
            out.append(")");
        },
        Type::Function { params, return_type } => {
            let ghost start = out@;
            out.append("Function { params: [");
            push_type_list_debug(out, params);
            out.append("], return_type: ");
            push_type_debug(out, return_type);
            out.append(" }");
            proof {
                assert(t@->params =~= Seq::new(params@.len(), |j: int| params@[j]@));
            }
            assert(out@ =~= start + type_debug(t@));
        },
    }
}

/// Appends the types of `ts`, written as by `{:?}` and separated by `", "`, to `out`.
pub fn push_type_list_debug(out: &mut String, ts: &Vec<Type>)
    ensures
        final(out)@ == old(out)@ + type_list_debug(Seq::new(ts@.len(), |j: int| ts@[j]@)),
    decreases ts,
{
    let ghost start = out@;
    let ghost pv = Seq::new(ts@.len(), |j: int| ts@[j]@);
    let mut i: usize = 0;
    while i < ts.len()
        invariant
            i <= ts@.len(),
            pv == Seq::new(ts@.len(), |j: int| ts@[j]@),
            out@ == start + type_list_debug(pv.take(i as int)),
        decreases ts@.len() - i,
    {
        proof {
            assert(decreases_to!(ts => ts@[i as int]));
        }
        if i > 0 {
            out.append(", ");
        }
        push_type_debug(out, &ts[i]);
        proof {
            let p = pv.take(i + 1);
            assert(p.drop_last() =~= pv.take(i as int));
            if i == 0 {
                assert(pv.take(0) =~= Seq::<TypeV>::empty());
            }
        }
        i = i + 1;
    }
    assert(pv.take(ts@.len() as int) =~= pv);
}

} // verus!
