//! Three-address code: the instructions the code generator emits.
use vstd::prelude::*;
use crate::ir::ast::{Literal, LiteralV, Type, TypeV};

verus! {

/// An operator of a binary assignment or a relational jump.
#[derive(Debug, Clone, Copy, PartialEq, Eq, Structural)]
pub enum Operator {
    Add,
    Sub,
    Mul,
    Div,
    EQ,
    NE,
    LT,
    LTE,
    GT,
    GTE,
}

/// An operand: a constant, a program variable (possibly a dotted path into
/// a struct or enum value), or a temporary made by the code generator.
#[derive(Debug, PartialEq)]
pub enum Address {
    Constant(Literal, Type),
    Variable(String, Type),
    Temporary(String, Type),
}

#[derive(Debug, PartialEq)]
pub enum Instruction {
    Label(String),
    CopyAssignment(Address, Address),
    BinaryAssignment(Operator, Address, Address, Address),
    Param(Address),
    Call(Option<Address>, String, usize),
    JMP(String),
    ConditionalJMP(Address, String),
    ConditionalJMPFalse(Address, String),
    ConditionalJMPRelational(Operator, Address, Address, String),
}

pub type TACProgram = Vec<Instruction>;

pub enum AddressV {
    Constant(LiteralV, TypeV),
    Variable(Seq<char>, TypeV),
    Temporary(Seq<char>, TypeV),
}

pub enum InstructionV {
    Label(Seq<char>),
    CopyAssignment(AddressV, AddressV),
    BinaryAssignment(Operator, AddressV, AddressV, AddressV),
    Param(AddressV),
    Call(Option<AddressV>, Seq<char>, usize),
    JMP(Seq<char>),
    ConditionalJMP(AddressV, Seq<char>),
    ConditionalJMPFalse(AddressV, Seq<char>),
    ConditionalJMPRelational(Operator, AddressV, AddressV, Seq<char>),
}

impl View for Address {
    type V = AddressV;

    open spec fn view(&self) -> AddressV {
        match self {
            Address::Constant(l, t) => AddressV::Constant(l@, t@),
            Address::Variable(n, t) => AddressV::Variable(n@, t@),
            Address::Temporary(n, t) => AddressV::Temporary(n@, t@),
        }
    }
}

impl View for Instruction {
    type V = InstructionV;

    open spec fn view(&self) -> InstructionV {
        match self {
            Instruction::Label(l) => InstructionV::Label(l@),
            Instruction::CopyAssignment(a, b) => InstructionV::CopyAssignment(a@, b@),
            Instruction::BinaryAssignment(op, a, b, c) => InstructionV::BinaryAssignment(*op, a@, b@, c@),
            Instruction::Param(a) => InstructionV::Param(a@),
            Instruction::Call(a, n, k) => InstructionV::Call(
                match a {
                    Some(a) => Some(a@),
                    None => None,
                },
                n@,
                *k,
            ),
            Instruction::JMP(l) => InstructionV::JMP(l@),
            Instruction::ConditionalJMP(a, l) => InstructionV::ConditionalJMP(a@, l@),
            Instruction::ConditionalJMPFalse(a, l) => InstructionV::ConditionalJMPFalse(a@, l@),
            Instruction::ConditionalJMPRelational(op, a, b, l) => InstructionV::ConditionalJMPRelational(
                *op,
                a@,
                b@,
                l@,
            ),
        }
    }
}

/// The views of a list of instructions.
pub open spec fn instrs_view(s: Seq<Instruction>) -> Seq<InstructionV> {
    Seq::new(s.len(), |i: int| s[i]@)
}

} // verus!
