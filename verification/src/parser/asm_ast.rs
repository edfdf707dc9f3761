//! Syntax tree of the assembly language, with its mathematical view.

use crate::number::Number;
use crate::parser::ast::{
    Expression, ExpressionView, SelectedExpressions, SelectedExpressionsView, Statement,
    StatementView,
};
use vstd::prelude::*;

verus! {

/// What sets a register apart: being the program counter, or an assignment register.
#[derive(Clone, Copy, Debug, PartialEq, Eq)]
pub enum RegisterFlag {
    IsPC,
    IsAssignment,
}

/// Whether an identity is a lookup (`in`) or a permutation (`is`).
#[derive(Clone, Copy, Debug, PartialEq, Eq)]
pub enum PlookupOperator {
    In,
    Is,
}

/// A parameter of an instruction.
#[derive(Debug, PartialEq, Eq)]
pub struct InstructionParam {
    pub name: String,
    /// The static type, if any; `label` is the only one in use.
    pub param_type: Option<String>,
    /// The assignment register through which the argument is read (first) or written
    /// (second). The outer option tells whether the parameter is bound on that side, the
    /// inner one names the register.
    pub assignment_reg: (Option<Option<String>>, Option<Option<String>>),
}

/// An element of the body of an instruction: an expression or a lookup.
#[derive(Debug, PartialEq, Eq)]
pub enum InstructionBodyElement {
    Expression(Expression),
    PlookupIdentity(SelectedExpressions, PlookupOperator, SelectedExpressions),
}

/// A statement of an assembly source. The leading `usize` is the position in the source text.
#[derive(Debug, PartialEq, Eq)]
pub enum ASMStatement {
    Degree(usize, Number),
    RegisterDeclaration(usize, String, Option<RegisterFlag>),
    InstructionDeclaration(usize, String, Vec<InstructionParam>, Vec<InstructionBodyElement>),
    InlinePil(usize, Vec<Statement>),
    /// Registers written, the assignment register, and the value.
    Assignment(usize, Vec<String>, Option<String>, Box<Expression>),
    Instruction(usize, String, Vec<Expression>),
    Label(usize, String),
}

/// An assembly source: its statements in order.
#[derive(Debug, PartialEq, Eq)]
pub struct ASMFile(pub Vec<ASMStatement>);

/// The view of an [`InstructionParam`].
pub struct InstructionParamView {
    pub name: Seq<char>,
    pub param_type: Option<Seq<char>>,
    pub assignment_reg: (Option<Option<Seq<char>>>, Option<Option<Seq<char>>>),
}

/// The view of an [`InstructionBodyElement`].
pub enum InstructionBodyElementView {
    Expression(ExpressionView),
    PlookupIdentity(SelectedExpressionsView, PlookupOperator, SelectedExpressionsView),
}

/// The view of an [`ASMStatement`].
pub enum ASMStatementView {
    Degree(usize, int),
    RegisterDeclaration(usize, Seq<char>, Option<RegisterFlag>),
    InstructionDeclaration(
        usize,
        Seq<char>,
        Seq<InstructionParamView>,
        Seq<InstructionBodyElementView>,
    ),
    InlinePil(usize, Seq<StatementView>),
    Assignment(usize, Seq<Seq<char>>, Option<Seq<char>>, ExpressionView),
    Instruction(usize, Seq<char>, Seq<ExpressionView>),
    Label(usize, Seq<char>),
}

impl DeepView for RegisterFlag {
    type V = RegisterFlag;

    open spec fn deep_view(&self) -> RegisterFlag {
        *self
    }
}

impl DeepView for InstructionParam {
    type V = InstructionParamView;

    open spec fn deep_view(&self) -> InstructionParamView {
        InstructionParamView {
            name: self.name@,
            param_type: self.param_type.deep_view(),
            assignment_reg: self.assignment_reg.deep_view(),
        }
    }
}

impl DeepView for InstructionBodyElement {
    type V = InstructionBodyElementView;

    open spec fn deep_view(&self) -> InstructionBodyElementView {
        match self {
            InstructionBodyElement::Expression(e) => InstructionBodyElementView::Expression(
                e.deep_view(),
            ),
            InstructionBodyElement::PlookupIdentity(left, op, right) => {
                InstructionBodyElementView::PlookupIdentity(
                    left.deep_view(),
                    *op,
                    right.deep_view(),
                )
            },
        }
    }
}

impl DeepView for ASMStatement {
    type V = ASMStatementView;

    open spec fn deep_view(&self) -> ASMStatementView {
        match self {
            ASMStatement::Degree(start, degree) => ASMStatementView::Degree(*start, degree@),
            ASMStatement::RegisterDeclaration(start, name, flag) => {
                ASMStatementView::RegisterDeclaration(*start, name@, *flag)
            },
            ASMStatement::InstructionDeclaration(start, name, params, body) => {
                ASMStatementView::InstructionDeclaration(
                    *start,
                    name@,
                    params.deep_view(),
                    body.deep_view(),
                )
            },
            ASMStatement::InlinePil(start, statements) => ASMStatementView::InlinePil(
                *start,
                statements.deep_view(),
            ),
            ASMStatement::Assignment(start, write_regs, assign_reg, value) => {
                ASMStatementView::Assignment(
                    *start,
                    write_regs.deep_view(),
                    assign_reg.deep_view(),
                    value.deep_view(),
                )
            },
            ASMStatement::Instruction(start, name, args) => ASMStatementView::Instruction(
                *start,
                name@,
                args.deep_view(),
            ),
            ASMStatement::Label(start, name) => ASMStatementView::Label(*start, name@),
        }
    }
}

/// The position of a statement in the source text.
pub open spec fn statement_start(statement: ASMStatementView) -> usize {
    match statement {
        ASMStatementView::Degree(start, _) => start,
        ASMStatementView::RegisterDeclaration(start, _, _) => start,
        ASMStatementView::InstructionDeclaration(start, _, _, _) => start,
        ASMStatementView::InlinePil(start, _) => start,
        ASMStatementView::Assignment(start, _, _, _) => start,
        ASMStatementView::Instruction(start, _, _) => start,
        ASMStatementView::Label(start, _) => start,
    }
}

impl ASMStatement {
    /// The position of the statement in the source text.
    pub fn start(&self) -> (r: usize)
        ensures
            r == statement_start(self.deep_view()),
    {
        match self {
            ASMStatement::Degree(start, _) => *start,
            ASMStatement::RegisterDeclaration(start, _, _) => *start,
            ASMStatement::InstructionDeclaration(start, _, _, _) => *start,
            ASMStatement::InlinePil(start, _) => *start,
            ASMStatement::Assignment(start, _, _, _) => *start,
            ASMStatement::Instruction(start, _, _) => *start,
            ASMStatement::Label(start, _) => *start,
        }
    }
}

impl DeepView for ASMFile {
    type V = Seq<ASMStatementView>;

    open spec fn deep_view(&self) -> Seq<ASMStatementView> {
        self.0.deep_view()
    }
}

} // verus!
