//! Constructors for expressions and statements, and the two rewrites that instruction
//! bodies need: recognising an update and substituting parameter names.

use crate::asm_compiler::error::{outcome, CompileError};
use crate::number::Number;
use crate::parser::ast::{
    duplicate_optional_name, expression_view, group_expression_views, BinaryOperator, Expression,
    ExpressionView, FunctionDefinition, FunctionDefinitionView, PolynomialName, PolynomialNameView,
    PolynomialReference, PolynomialReferenceView, SelectedExpressions, SelectedExpressionsView,
    Statement, StatementView, UnaryOperator,
};
use crate::text::same_name;
use vstd::prelude::*;
use vstd::string::*;

verus! {

broadcast use group_expression_views;

/// A reference to column `name` without namespace or index.
pub open spec fn reference_view(name: Seq<char>, next: bool) -> ExpressionView {
    ExpressionView::PolynomialReference(
        PolynomialReferenceView { namespace: None, name, index: None, next },
    )
}

/// A reference to column `name` in the current row.
pub open spec fn direct_reference_view(name: Seq<char>) -> ExpressionView {
    reference_view(name, false)
}

/// A reference to column `name` in the next row.
pub open spec fn next_reference_view(name: Seq<char>) -> ExpressionView {
    reference_view(name, true)
}

/// The operation `op` on two expressions.
pub open spec fn binary_view(
    left: ExpressionView,
    op: BinaryOperator,
    right: ExpressionView,
) -> ExpressionView {
    ExpressionView::BinaryOperation(Box::new(left), op, Box::new(right))
}

/// The product of two expressions.
pub open spec fn mul_view(left: ExpressionView, right: ExpressionView) -> ExpressionView {
    binary_view(left, BinaryOperator::Mul, right)
}

/// The difference of two expressions.
pub open spec fn sub_view(left: ExpressionView, right: ExpressionView) -> ExpressionView {
    binary_view(left, BinaryOperator::Sub, right)
}

/// The sum of two expressions.
pub open spec fn add_view(left: ExpressionView, right: ExpressionView) -> ExpressionView {
    binary_view(left, BinaryOperator::Add, right)
}

/// The operation `op` on one expression.
pub open spec fn unary_view(op: UnaryOperator, inner: ExpressionView) -> ExpressionView {
    ExpressionView::UnaryOperation(op, Box::new(inner))
}

/// The number literal with the given value.
pub open spec fn number_view(value: int) -> ExpressionView {
    ExpressionView::Number(value)
}

/// The declaration of one witness column, with its query if it has one.
pub open spec fn witness_column_view(
    start: usize,
    name: Seq<char>,
    def: Option<FunctionDefinitionView>,
) -> StatementView {
    StatementView::PolynomialCommitDeclaration(
        start,
        seq![PolynomialNameView { name, array_size: None }],
        def,
    )
}

/// The left-nested sum of a list of expressions; the number zero for the empty list.
pub open spec fn sum_view(terms: Seq<ExpressionView>) -> ExpressionView
    decreases terms.len(),
{
    if terms.len() == 0 {
        number_view(0)
    } else if terms.len() == 1 {
        terms[0]
    } else {
        add_view(sum_view(terms.drop_last()), terms.last())
    }
}

/// Splits `X' - e` into the updated column `X` and the value `e`. Any other expression is
/// returned whole. A next-row reference with a namespace or an index cannot be updated.
pub open spec fn extract_update_view(e: ExpressionView) -> Result<
    (Option<Seq<char>>, ExpressionView),
    CompileError,
> {
    match e {
        ExpressionView::BinaryOperation(left, BinaryOperator::Sub, right) => match *left {
            ExpressionView::PolynomialReference(r) => if r.next {
                if r.namespace is Some || r.index is Some {
                    Err(CompileError::Shape)
                } else {
                    Ok((Some(r.name), *right))
                }
            } else {
                Ok((None, e))
            },
            _ => Ok((None, e)),
        },
        _ => Ok((None, e)),
    }
}

/// The name that replaces `name`: the second component of the last pair whose first
/// component is `name`, or `name` itself if there is none.
pub open spec fn substitute_name(
    name: Seq<char>,
    substitution: Seq<(Seq<char>, Seq<char>)>,
) -> Seq<char>
    decreases substitution.len(),
{
    if substitution.len() == 0 {
        name
    } else if substitution.last().0 == name {
        substitution.last().1
    } else {
        substitute_name(name, substitution.drop_last())
    }
}

/// The expression with the names of column references replaced. Free inputs, the patterns
/// of match arms and the indices of references are left as they are.
pub open spec fn substitute_view(
    e: ExpressionView,
    substitution: Seq<(Seq<char>, Seq<char>)>,
) -> ExpressionView
    decreases e,
{
    match e {
        ExpressionView::PolynomialReference(r) => ExpressionView::PolynomialReference(
            PolynomialReferenceView {
                namespace: r.namespace,
                name: substitute_name(r.name, substitution),
                index: r.index,
                next: r.next,
            },
        ),
        ExpressionView::BinaryOperation(left, op, right) => binary_view(
            substitute_view(*left, substitution),
            op,
            substitute_view(*right, substitution),
        ),
        ExpressionView::UnaryOperation(op, inner) => unary_view(
            op,
            substitute_view(*inner, substitution),
        ),
        ExpressionView::FunctionCall(name, args) => ExpressionView::FunctionCall(
            name,
            Seq::new(
                args.len(),
                |i: int|
                    if 0 <= i < args.len() {
                        substitute_view(args[i], substitution)
                    } else {
                        number_view(0)
                    },
            ),
        ),
        ExpressionView::Tuple(items) => ExpressionView::Tuple(
            Seq::new(
                items.len(),
                |i: int|
                    if 0 <= i < items.len() {
                        substitute_view(items[i], substitution)
                    } else {
                        number_view(0)
                    },
            ),
        ),
        ExpressionView::MatchExpression(scrutinee, arms) => ExpressionView::MatchExpression(
            Box::new(substitute_view(*scrutinee, substitution)),
            Seq::new(
                arms.len(),
                |i: int|
                    if 0 <= i < arms.len() {
                        (arms[i].0, substitute_view(arms[i].1, substitution))
                    } else {
                        (None, number_view(0))
                    },
            ),
        ),
        ExpressionView::Constant(_)
        | ExpressionView::PublicReference(_)
        | ExpressionView::Number(_)
        | ExpressionView::String(_)
        | ExpressionView::FreeInput(_) => e,
    }
}

/// The list with each expression substituted.
pub open spec fn substitute_seq_view(
    items: Seq<ExpressionView>,
    substitution: Seq<(Seq<char>, Seq<char>)>,
) -> Seq<ExpressionView> {
    Seq::new(items.len(), |i: int| substitute_view(items[i], substitution))
}

/// One side of a lookup with its selector and each of its expressions substituted.
pub open spec fn substitute_selected_view(
    input: SelectedExpressionsView,
    substitution: Seq<(Seq<char>, Seq<char>)>,
) -> SelectedExpressionsView {
    SelectedExpressionsView {
        selector: match input.selector {
            Some(s) => Some(substitute_view(s, substitution)),
            None => None,
        },
        expressions: substitute_seq_view(input.expressions, substitution),
    }
}

/// The declaration of one witness column, with its query if it has one.
pub fn witness_column(start: usize, name: String, def: Option<FunctionDefinition>) -> (r:
    Statement)
    ensures
        r.deep_view() == witness_column_view(start, name@, def.deep_view()),
{
    let mut names: Vec<PolynomialName> = Vec::new();
    names.push(PolynomialName { name, array_size: None });
    let r = Statement::PolynomialCommitDeclaration(start, names, def);
    assert(names.deep_view() =~= seq![PolynomialNameView { name: name@, array_size: None }]);
    r
}

/// A reference to column `name` in the current row.
pub fn direct_reference(name: &str) -> (r: Expression)
    ensures
        r.deep_view() == direct_reference_view(name@),
{
    Expression::PolynomialReference(
        PolynomialReference {
            namespace: None,
            name: String::from_str(name),
            index: None,
            next: false,
        },
    )
}

/// A reference to column `name` in the next row.
pub fn next_reference(name: &str) -> (r: Expression)
    ensures
        r.deep_view() == next_reference_view(name@),
{
    Expression::PolynomialReference(
        PolynomialReference {
            namespace: None,
            name: String::from_str(name),
            index: None,
            next: true,
        },
    )
}

/// The product of two expressions.
pub fn build_mul(left: Expression, right: Expression) -> (r: Expression)
    ensures
        r.deep_view() == mul_view(left.deep_view(), right.deep_view()),
{
    build_binary_expr(left, BinaryOperator::Mul, right)
}

/// The difference of two expressions.
pub fn build_sub(left: Expression, right: Expression) -> (r: Expression)
    ensures
        r.deep_view() == sub_view(left.deep_view(), right.deep_view()),
{
    build_binary_expr(left, BinaryOperator::Sub, right)
}

/// The sum of two expressions.
pub fn build_add(left: Expression, right: Expression) -> (r: Expression)
    ensures
        r.deep_view() == add_view(left.deep_view(), right.deep_view()),
{
    build_binary_expr(left, BinaryOperator::Add, right)
}

/// The operation `op` on two expressions.
pub fn build_binary_expr(left: Expression, op: BinaryOperator, right: Expression) -> (r:
    Expression)
    ensures
        r.deep_view() == binary_view(left.deep_view(), op, right.deep_view()),
{
    Expression::BinaryOperation(Box::new(left), op, Box::new(right))
}

/// The operation `op` on one expression.
pub fn build_unary_expr(op: UnaryOperator, exp: Expression) -> (r: Expression)
    ensures
        r.deep_view() == unary_view(op, exp.deep_view()),
{
    Expression::UnaryOperation(op, Box::new(exp))
}

/// The number literal with the given value.
pub fn build_number(value: Number) -> (r: Expression)
    ensures
        r.deep_view() == number_view(value@),
{
    Expression::Number(value)
}

/// Splits an update `X' - e` into the column and the value; see [`extract_update_view`].
pub fn extract_update(expr: Expression) -> (r: Result<(Option<String>, Expression), CompileError>)
    ensures
        outcome(r) == extract_update_view(expr.deep_view()),
{
    proof {
        reveal_with_fuel(expression_view, 2);
    }
    match expr {
        Expression::BinaryOperation(left, BinaryOperator::Sub, right) => {
            match *left {
                Expression::PolynomialReference(reference) => {
                    if reference.next {
                        if reference.namespace.is_some() || reference.index.is_some() {
                            Err(CompileError::Shape)
                        } else {
                            Ok((Some(reference.name), *right))
                        }
                    } else {
                        Ok(
                            (
                                None,
                                build_binary_expr(
                                    Expression::PolynomialReference(reference),
                                    BinaryOperator::Sub,
                                    *right,
                                ),
                            ),
                        )
                    }
                },
                other => Ok((None, build_binary_expr(other, BinaryOperator::Sub, *right))),
            }
        },
        other => Ok((None, other)),
    }
}

/// The name that replaces `input`; see [`substitute_name`].
pub fn substitute_string(input: &String, substitution: &Vec<(String, String)>) -> (r: String)
    ensures
        r@ == substitute_name(input@, substitution.deep_view()),
{
    let mut i: usize = substitution.len();
    assert(substitution.deep_view().take(i as int) =~= substitution.deep_view());
    while i > 0
        invariant
            i <= substitution.len(),
            substitute_name(input@, substitution.deep_view()) == substitute_name(
                input@,
                substitution.deep_view().take(i as int),
            ),
        decreases i,
    {
        i -= 1;
        let ghost prefix = substitution.deep_view().take(i + 1);
        assert(prefix.drop_last() =~= substitution.deep_view().take(i as int));
        if same_name(&substitution[i].0, input) {
            return substitution[i].1.clone();
        }
    }
    input.clone()
}

/// The list with each expression substituted.
pub fn substitute_vec(input: &Vec<Expression>, substitution: &Vec<(String, String)>) -> (r: Vec<
    Expression,
>)
    ensures
        r.deep_view() == substitute_seq_view(input.deep_view(), substitution.deep_view()),
{
    let mut out: Vec<Expression> = Vec::new();
    let mut i: usize = 0;
    while i < input.len()
        invariant
            i <= input.len(),
            out.len() == i,
            forall|j: int|
                0 <= j < i ==> (#[trigger] out[j]).deep_view() == substitute_view(
                    input[j].deep_view(),
                    substitution.deep_view(),
                ),
        decreases input.len() - i,
    {
        out.push(substitute(&input[i], substitution));
        i += 1;
    }
    out
}

/// One side of a lookup with its selector and each of its expressions substituted.
pub fn substitute_selected_exprs(
    input: &SelectedExpressions,
    substitution: &Vec<(String, String)>,
) -> (r: SelectedExpressions)
    ensures
        r.deep_view() == substitute_selected_view(input.deep_view(), substitution.deep_view()),
{
    let selector = match &input.selector {
        Some(s) => Some(substitute(s, substitution)),
        None => None,
    };
    SelectedExpressions { selector, expressions: substitute_vec(&input.expressions, substitution) }
}

/// The expression with the names of column references replaced; see [`substitute_view`].
pub fn substitute(input: &Expression, substitution: &Vec<(String, String)>) -> (r: Expression)
    ensures
        r.deep_view() == substitute_view(input.deep_view(), substitution.deep_view()),
    decreases input,
{
    let ghost s = substitution.deep_view();
    match input {
        Expression::PolynomialReference(reference) => {
            let index = match &reference.index {
                Some(i) => Some(Box::new(i.duplicate())),
                None => None,
            };
            Expression::PolynomialReference(
                PolynomialReference {
                    namespace: duplicate_optional_name(&reference.namespace),
                    name: substitute_string(&reference.name, substitution),
                    index,
                    next: reference.next,
                },
            )
        },
        Expression::BinaryOperation(left, op, right) => build_binary_expr(
            substitute(left, substitution),
            *op,
            substitute(right, substitution),
        ),
        Expression::UnaryOperation(op, exp) => build_unary_expr(*op, substitute(exp, substitution)),
        Expression::FunctionCall(name, args) => {
            let mut out: Vec<Expression> = Vec::new();
            let mut i: usize = 0;
            while i < args.len()
                invariant
                    i <= args.len(),
                    out.len() == i,
                    s == substitution.deep_view(),
                    input matches Expression::FunctionCall(_, v) && v == *args,
                    forall|j: int|
                        0 <= j < i ==> (#[trigger] out[j]).deep_view() == substitute_view(
                            args[j].deep_view(),
                            s,
                        ),
                decreases args.len() - i,
            {
                let item = substitute(&args[i], substitution);
                out.push(item);
                i += 1;
            }
            let r = Expression::FunctionCall(name.clone(), out);
            assert(r.deep_view()->FunctionCall_1 =~= substitute_view(
                input.deep_view(),
                s,
            )->FunctionCall_1);
            r
        },
        Expression::Tuple(items) => {
            let mut out: Vec<Expression> = Vec::new();
            let mut i: usize = 0;
            while i < items.len()
                invariant
                    i <= items.len(),
                    out.len() == i,
                    s == substitution.deep_view(),
                    input matches Expression::Tuple(v) && v == *items,
                    forall|j: int|
                        0 <= j < i ==> (#[trigger] out[j]).deep_view() == substitute_view(
                            items[j].deep_view(),
                            s,
                        ),
                decreases items.len() - i,
            {
                let item = substitute(&items[i], substitution);
                out.push(item);
                i += 1;
            }
            let r = Expression::Tuple(out);
            assert(r.deep_view()->Tuple_0 =~= substitute_view(input.deep_view(), s)->Tuple_0);
            r
        },
        Expression::MatchExpression(scrutinee, arms) => {
            let mut out: Vec<(Option<Expression>, Expression)> = Vec::new();
            let mut i: usize = 0;
            while i < arms.len()
                invariant
                    i <= arms.len(),
                    out.len() == i,
                    s == substitution.deep_view(),
                    input matches Expression::MatchExpression(_, v) && v == *arms,
                    forall|j: int|
                        0 <= j < i ==> (#[trigger] out[j]).deep_view() == (
                            arms[j].0.deep_view(),
                            substitute_view(arms[j].1.deep_view(), s),
                        ),
                decreases arms.len() - i,
            {
                let pattern = match &arms[i].0 {
                    Some(p) => Some(p.duplicate()),
                    None => None,
                };
                let value = substitute(&arms[i].1, substitution);
                out.push((pattern, value));
                i += 1;
            }
            let r = Expression::MatchExpression(Box::new(substitute(scrutinee, substitution)), out);
            assert(r.deep_view()->MatchExpression_1 =~= substitute_view(
                input.deep_view(),
                s,
            )->MatchExpression_1);
            r
        },
        Expression::Constant(_)
        | Expression::PublicReference(_)
        | Expression::Number(_)
        | Expression::String(_)
        | Expression::FreeInput(_) => input.duplicate(),
    }
}

} // verus!
