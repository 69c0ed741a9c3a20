use vstd::prelude::*;

verus! {

/// Stack arithmetic: `add`, `sub`, `neg`.
#[derive(Debug, Clone, Copy, PartialEq, Eq, Structural)]
pub enum ArithmeticIns {
    Add,
    Sub,
    Neg,
}

/// Comparisons (`eq`, `gt`, `lt`) and bitwise operations (`and`, `or`, `not`).
#[derive(Debug, Clone, Copy, PartialEq, Eq, Structural)]
pub enum LogicalIns {
    Eq,
    Gt,
    Lt,
    And,
    Or,
    Not,
}

/// Branching: `label`, `goto`, `if-goto`.
#[derive(Debug, Clone, Copy, PartialEq, Eq, Structural)]
pub enum FlowIns {
    Label,
    Goto,
    IfGoto,
}

/// The two operands of `push` / `pop`: a segment name and an index, both as written.
#[derive(Debug)]
pub struct ArgsWithTwo {
    pub arg1: String,
    pub arg2: String,
}

/// One instruction of the stack machine.
#[derive(Debug)]
pub enum Instruction {
    ArithmeticIns(ArithmeticIns),
    LogicalIns(LogicalIns),
    Push(ArgsWithTwo),
    Pop(ArgsWithTwo),
    FlowIns(FlowIns, String),
    DefFunc(String, i16),
    CallFunc(String, i16),
    RetFunc,
}

/// An instruction with its texts seen as character sequences.
pub enum InstrView {
    Arith(ArithmeticIns),
    Logic(LogicalIns),
    Push(Seq<char>, Seq<char>),
    Pop(Seq<char>, Seq<char>),
    Flow(FlowIns, Seq<char>),
    DefFunc(Seq<char>, i16),
    CallFunc(Seq<char>, i16),
    Ret,
}

impl View for Instruction {
    type V = InstrView;

    open spec fn view(&self) -> InstrView {
        match self {
            Instruction::ArithmeticIns(a) => InstrView::Arith(*a),
            Instruction::LogicalIns(l) => InstrView::Logic(*l),
            Instruction::Push(args) => InstrView::Push(args.arg1@, args.arg2@),
            Instruction::Pop(args) => InstrView::Pop(args.arg1@, args.arg2@),
            Instruction::FlowIns(f, s) => InstrView::Flow(*f, s@),
            Instruction::DefFunc(name, n) => InstrView::DefFunc(name@, *n),
            Instruction::CallFunc(name, n) => InstrView::CallFunc(name@, *n),
            Instruction::RetFunc => InstrView::Ret,
        }
    }
}

pub open spec fn view_opt(o: Option<Instruction>) -> Option<InstrView> {
    match o {
        Some(i) => Some(i@),
        None => None,
    }
}

} // verus!
