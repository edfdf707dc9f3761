//! Flattening of the value of an assignment into an affine sum over registers, the constant
//! and free inputs.

use crate::asm_compiler::error::{outcome, CompileError};
use crate::asm_compiler::state::{
    ASMPILConverter, AffineExpressionComponent, AffineExpressionComponentView,
};
use crate::number::Number;
use crate::parser::ast::{BinaryOperator, Expression, ExpressionView, UnaryOperator};
use vstd::prelude::*;

verus! {

/// The terms with each coefficient negated.
pub open spec fn negate_terms(terms: Seq<(int, AffineExpressionComponentView)>) -> Seq<
    (int, AffineExpressionComponentView),
> {
    Seq::new(terms.len(), |i: int| (-terms[i].0, terms[i].1))
}

/// The terms with each coefficient multiplied by `factor`.
pub open spec fn scale_terms(
    factor: int,
    terms: Seq<(int, AffineExpressionComponentView)>,
) -> Seq<(int, AffineExpressionComponentView)> {
    Seq::new(terms.len(), |i: int| (factor * terms[i].0, terms[i].1))
}

/// The coefficient of a value that is a single constant term.
pub open spec fn constant_factor(terms: Seq<(int, AffineExpressionComponentView)>) -> Option<int> {
    if terms.len() == 1 && terms[0].1 is Constant {
        Some(terms[0].0)
    } else {
        None
    }
}

/// The terms of an expression that is affine in registers and free inputs: numbers,
/// plain column references and free inputs, combined by sum, difference, negation and
/// multiplication by a constant. Terms with the same component are not merged. Anything
/// else has no affine value.
pub open spec fn affine_terms(e: ExpressionView) -> Result<
    Seq<(int, AffineExpressionComponentView)>,
    CompileError,
>
    decreases e,
{
    match e {
        ExpressionView::Number(n) => Ok(seq![(n, AffineExpressionComponentView::Constant)]),
        ExpressionView::PolynomialReference(r) => if r.namespace is None && r.index is None
            && !r.next {
            Ok(seq![(1, AffineExpressionComponentView::Register(r.name))])
        } else {
            Err(CompileError::Shape)
        },
        ExpressionView::FreeInput(inner) => Ok(
            seq![(1, AffineExpressionComponentView::FreeInput(*inner))],
        ),
        ExpressionView::BinaryOperation(left, op, right) => match op {
            BinaryOperator::Add | BinaryOperator::Sub | BinaryOperator::Mul => match (
                affine_terms(*left),
                affine_terms(*right),
            ) {
                (Ok(l), Ok(r)) => match op {
                    BinaryOperator::Add => Ok(l + r),
                    BinaryOperator::Sub => Ok(l + negate_terms(r)),
                    _ => match constant_factor(l) {
                        Some(f) => Ok(scale_terms(f, r)),
                        None => match constant_factor(r) {
                            Some(f) => Ok(scale_terms(f, l)),
                            None => Err(CompileError::Shape),
                        },
                    },
                },
                _ => Err(CompileError::Shape),
            },
            _ => Err(CompileError::Shape),
        },
        ExpressionView::UnaryOperation(op, inner) => match op {
            UnaryOperator::Minus => match affine_terms(*inner) {
                Ok(t) => Ok(negate_terms(t)),
                Err(e) => Err(e),
            },
            UnaryOperator::Plus => Err(CompileError::Shape),
        },
        _ => Err(CompileError::Shape),
    }
}

/// Every failure of the normaliser is a shape error.
pub proof fn lemma_affine_terms_error(e: ExpressionView)
    ensures
        affine_terms(e) is Err ==> affine_terms(e) == Err::<
            Seq<(int, AffineExpressionComponentView)>,
            CompileError,
        >(CompileError::Shape),
    decreases e,
{
    match e {
        ExpressionView::UnaryOperation(op, inner) => {
            lemma_affine_terms_error(*inner);
        },
        _ => {},
    }
}

/// The terms with each coefficient multiplied by `factor`.
fn scale_assignment_value(factor: &Number, terms: Vec<(Number, AffineExpressionComponent)>) -> (r:
    Vec<(Number, AffineExpressionComponent)>)
    ensures
        r.deep_view() == scale_terms(factor@, terms.deep_view()),
{
    let mut terms = terms;
    let ghost before = terms.deep_view();
    let mut i: usize = 0;
    while i < terms.len()
        invariant
            i <= terms.len(),
            terms.len() == before.len(),
            forall|j: int|
                0 <= j < i ==> (#[trigger] terms[j]).deep_view() == (
                    factor@ * before[j].0,
                    before[j].1,
                ),
            forall|j: int| i <= j < terms.len() ==> (#[trigger] terms[j]).deep_view() == before[j],
        decreases terms.len() - i,
    {
        let scaled = factor.product(&terms[i].0);
        terms[i].0 = scaled;
        i += 1;
    }
    terms
}

/// The coefficient of a value that is a single constant term.
fn constant_factor_of(terms: &Vec<(Number, AffineExpressionComponent)>) -> (r: Option<Number>)
    ensures
        r.deep_view() == constant_factor(terms.deep_view()),
{
    if terms.len() == 1 {
        match &terms[0].1 {
            AffineExpressionComponent::Constant => Some(terms[0].0.duplicate()),
            _ => None,
        }
    } else {
        None
    }
}

impl ASMPILConverter {
    /// The affine value of an expression; see [`affine_terms`].
    pub fn process_assignment_value(&self, value: &Expression) -> (r: Result<
        Vec<(Number, AffineExpressionComponent)>,
        CompileError,
    >)
        ensures
            outcome(r) == affine_terms(value.deep_view()),
        decreases value,
    {
        match value {
            Expression::PolynomialReference(reference) => {
                if reference.namespace.is_none() && reference.index.is_none() && !reference.next {
                    let mut terms: Vec<(Number, AffineExpressionComponent)> = Vec::new();
                    terms.push(
                        (
                            Number::from_u64(1),
                            AffineExpressionComponent::Register(reference.name.clone()),
                        ),
                    );
                    assert(terms.deep_view() =~= seq![
                        (1int, AffineExpressionComponentView::Register(reference.name@)),
                    ]);
                    Ok(terms)
                } else {
                    Err(CompileError::Shape)
                }
            },
            Expression::Number(n) => {
                let mut terms: Vec<(Number, AffineExpressionComponent)> = Vec::new();
                terms.push((n.duplicate(), AffineExpressionComponent::Constant));
                assert(terms.deep_view() =~= seq![(n@, AffineExpressionComponentView::Constant)]);
                Ok(terms)
            },
            Expression::FreeInput(inner) => {
                let mut terms: Vec<(Number, AffineExpressionComponent)> = Vec::new();
                terms.push(
                    (Number::from_u64(1), AffineExpressionComponent::FreeInput(inner.duplicate())),
                );
                assert(terms.deep_view() =~= seq![
                    (1int, AffineExpressionComponentView::FreeInput(inner.deep_view())),
                ]);
                Ok(terms)
            },
            Expression::BinaryOperation(left, op, right) => {
                match op {
                    BinaryOperator::Add | BinaryOperator::Sub | BinaryOperator::Mul => {
                        let l = self.process_assignment_value(left);
                        let r = self.process_assignment_value(right);
                        match (l, r) {
                            (Ok(l), Ok(r)) => match op {
                                BinaryOperator::Add => Ok(self.add_assignment_value(l, r)),
                                BinaryOperator::Sub => {
                                    let negated = self.negate_assignment_value(r);
                                    Ok(self.add_assignment_value(l, negated))
                                },
                                _ => match constant_factor_of(&l) {
                                    Some(f) => Ok(scale_assignment_value(&f, r)),
                                    None => match constant_factor_of(&r) {
                                        Some(f) => Ok(scale_assignment_value(&f, l)),
                                        None => Err(CompileError::Shape),
                                    },
                                },
                            },
                            _ => Err(CompileError::Shape),
                        }
                    },
                    _ => Err(CompileError::Shape),
                }
            },
            Expression::UnaryOperation(op, inner) => {
                match op {
                    UnaryOperator::Minus => match self.process_assignment_value(inner) {
                        Ok(t) => Ok(self.negate_assignment_value(t)),
                        Err(e) => Err(e),
                    },
                    UnaryOperator::Plus => Err(CompileError::Shape),
                }
            },
            _ => Err(CompileError::Shape),
        }
    }

    /// The sum of two affine values: the terms of the first, then those of the second.
    pub fn add_assignment_value(
        &self,
        left: Vec<(Number, AffineExpressionComponent)>,
        right: Vec<(Number, AffineExpressionComponent)>,
    ) -> (r: Vec<(Number, AffineExpressionComponent)>)
        ensures
            r.deep_view() == left.deep_view() + right.deep_view(),
    {
        let mut left = left;
        let mut right = right;
        left.append(&mut right);
        left
    }

    /// The affine value with each coefficient negated.
    pub fn negate_assignment_value(&self, expr: Vec<(Number, AffineExpressionComponent)>) -> (r:
        Vec<(Number, AffineExpressionComponent)>)
        ensures
            r.deep_view() == negate_terms(expr.deep_view()),
    {
        let mut terms = expr;
        let ghost before = terms.deep_view();
        let mut i: usize = 0;
        while i < terms.len()
            invariant
                i <= terms.len(),
                terms.len() == before.len(),
                forall|j: int|
                    0 <= j < i ==> (#[trigger] terms[j]).deep_view() == (
                        -before[j].0,
                        before[j].1,
                    ),
                forall|j: int|
                    i <= j < terms.len() ==> (#[trigger] terms[j]).deep_view() == before[j],
            decreases terms.len() - i,
        {
            let negated = terms[i].0.negated();
            terms[i].0 = negated;
            i += 1;
        }
        terms
    }
}

} // verus!
