//! Syntax tree of the polynomial identity language (PIL), with its mathematical view.

use crate::number::Number;
use vstd::prelude::*;

verus! {

/// The operators on one expression.
#[derive(Clone, Copy, Debug, PartialEq, Eq)]
pub enum UnaryOperator {
    Plus,
    Minus,
}

/// The operators on two expressions.
#[derive(Clone, Copy, Debug, PartialEq, Eq)]
pub enum BinaryOperator {
    Add,
    Sub,
    Mul,
    Div,
    Mod,
    Pow,
    BinaryAnd,
    BinaryXor,
    BinaryOr,
    ShiftLeft,
    ShiftRight,
}

/// A reference to a column, possibly in the next row.
#[derive(Debug, PartialEq, Eq)]
pub struct PolynomialReference {
    pub namespace: Option<String>,
    pub name: String,
    pub index: Option<Box<Expression>>,
    pub next: bool,
}

/// An expression.
#[derive(Debug, PartialEq, Eq)]
pub enum Expression {
    /// Reference to a named constant.
    Constant(String),
    PolynomialReference(PolynomialReference),
    PublicReference(String),
    Number(Number),
    String(String),
    Tuple(Vec<Expression>),
    BinaryOperation(Box<Expression>, BinaryOperator, Box<Expression>),
    UnaryOperation(UnaryOperator, Box<Expression>),
    FunctionCall(String, Vec<Expression>),
    /// A value supplied from outside through a query.
    FreeInput(Box<Expression>),
    MatchExpression(Box<Expression>, Vec<(Option<Expression>, Expression)>),
}

/// One side of a lookup or permutation: the selected expressions and their selector.
#[derive(Debug, PartialEq, Eq)]
pub struct SelectedExpressions {
    pub selector: Option<Expression>,
    pub expressions: Vec<Expression>,
}

/// The values of a fixed column, row by row.
#[derive(Debug, PartialEq, Eq)]
pub enum ArrayExpression {
    Value(Vec<Expression>),
    RepeatedValue(Vec<Expression>),
    Concat(Box<ArrayExpression>, Box<ArrayExpression>),
}

/// How a column is defined.
#[derive(Debug, PartialEq, Eq)]
pub enum FunctionDefinition {
    /// Parameter names and the value as an expression in them.
    Mapping(Vec<String>, Expression),
    /// The values row by row.
    Array(ArrayExpression),
    /// Parameter names and the query put to the host.
    Query(Vec<String>, Expression),
}

/// The name of a declared column, with its size if it is an array.
#[derive(Debug, PartialEq, Eq)]
pub struct PolynomialName {
    pub name: String,
    pub array_size: Option<Expression>,
}

/// A PIL statement. The leading `usize` is the position in the source text.
#[derive(Debug, PartialEq, Eq)]
pub enum Statement {
    Include(usize, String),
    Namespace(usize, String, Expression),
    PolynomialDefinition(usize, String, Expression),
    PublicDeclaration(usize, String, PolynomialReference, Expression),
    PolynomialConstantDeclaration(usize, Vec<PolynomialName>),
    PolynomialConstantDefinition(usize, String, FunctionDefinition),
    PolynomialCommitDeclaration(usize, Vec<PolynomialName>, Option<FunctionDefinition>),
    PolynomialIdentity(usize, Expression),
    PlookupIdentity(usize, SelectedExpressions, SelectedExpressions),
    PermutationIdentity(usize, SelectedExpressions, SelectedExpressions),
    ConnectIdentity(usize, Vec<Expression>, Vec<Expression>),
    ConstantDefinition(usize, String, Expression),
}

/// A PIL file: its statements in order.
#[derive(Debug, PartialEq, Eq)]
pub struct PILFile(pub Vec<Statement>);

/// The view of a [`PolynomialReference`].
pub struct PolynomialReferenceView {
    pub namespace: Option<Seq<char>>,
    pub name: Seq<char>,
    pub index: Option<Box<ExpressionView>>,
    pub next: bool,
}

/// The view of an [`Expression`].
pub enum ExpressionView {
    Constant(Seq<char>),
    PolynomialReference(PolynomialReferenceView),
    PublicReference(Seq<char>),
    Number(int),
    String(Seq<char>),
    Tuple(Seq<ExpressionView>),
    BinaryOperation(Box<ExpressionView>, BinaryOperator, Box<ExpressionView>),
    UnaryOperation(UnaryOperator, Box<ExpressionView>),
    FunctionCall(Seq<char>, Seq<ExpressionView>),
    FreeInput(Box<ExpressionView>),
    MatchExpression(Box<ExpressionView>, Seq<(Option<ExpressionView>, ExpressionView)>),
}

/// The view of [`SelectedExpressions`].
pub struct SelectedExpressionsView {
    pub selector: Option<ExpressionView>,
    pub expressions: Seq<ExpressionView>,
}

/// The view of an [`ArrayExpression`].
pub enum ArrayExpressionView {
    Value(Seq<ExpressionView>),
    RepeatedValue(Seq<ExpressionView>),
    Concat(Box<ArrayExpressionView>, Box<ArrayExpressionView>),
}

/// The view of a [`FunctionDefinition`].
pub enum FunctionDefinitionView {
    Mapping(Seq<Seq<char>>, ExpressionView),
    Array(ArrayExpressionView),
    Query(Seq<Seq<char>>, ExpressionView),
}

/// The view of a [`PolynomialName`].
pub struct PolynomialNameView {
    pub name: Seq<char>,
    pub array_size: Option<ExpressionView>,
}

/// The view of a [`Statement`].
pub enum StatementView {
    Include(usize, Seq<char>),
    Namespace(usize, Seq<char>, ExpressionView),
    PolynomialDefinition(usize, Seq<char>, ExpressionView),
    PublicDeclaration(usize, Seq<char>, PolynomialReferenceView, ExpressionView),
    PolynomialConstantDeclaration(usize, Seq<PolynomialNameView>),
    PolynomialConstantDefinition(usize, Seq<char>, FunctionDefinitionView),
    PolynomialCommitDeclaration(usize, Seq<PolynomialNameView>, Option<FunctionDefinitionView>),
    PolynomialIdentity(usize, ExpressionView),
    PlookupIdentity(usize, SelectedExpressionsView, SelectedExpressionsView),
    PermutationIdentity(usize, SelectedExpressionsView, SelectedExpressionsView),
    ConnectIdentity(usize, Seq<ExpressionView>, Seq<ExpressionView>),
    ConstantDefinition(usize, Seq<char>, ExpressionView),
}

/// The mathematical value of an expression tree: names as character sequences, numbers as
/// integers, lists as sequences.
pub open spec fn expression_view(e: Expression) -> ExpressionView
    decreases e,
{
    match e {
        Expression::Constant(name) => ExpressionView::Constant(name@),
        Expression::PolynomialReference(r) => ExpressionView::PolynomialReference(
            PolynomialReferenceView {
                namespace: r.namespace.deep_view(),
                name: r.name@,
                index: match r.index {
                    Some(i) => Some(Box::new(expression_view(*i))),
                    None => None,
                },
                next: r.next,
            },
        ),
        Expression::PublicReference(name) => ExpressionView::PublicReference(name@),
        Expression::Number(n) => ExpressionView::Number(n@),
        Expression::String(s) => ExpressionView::String(s@),
        Expression::Tuple(items) => ExpressionView::Tuple(
            Seq::new(
                items.len() as nat,
                |i: int|
                    if 0 <= i < items.len() {
                        expression_view(items[i])
                    } else {
                        ExpressionView::Number(0)
                    },
            ),
        ),
        Expression::BinaryOperation(left, op, right) => ExpressionView::BinaryOperation(
            Box::new(expression_view(*left)),
            op,
            Box::new(expression_view(*right)),
        ),
        Expression::UnaryOperation(op, inner) => ExpressionView::UnaryOperation(
            op,
            Box::new(expression_view(*inner)),
        ),
        Expression::FunctionCall(name, args) => ExpressionView::FunctionCall(
            name@,
            Seq::new(
                args.len() as nat,
                |i: int|
                    if 0 <= i < args.len() {
                        expression_view(args[i])
                    } else {
                        ExpressionView::Number(0)
                    },
            ),
        ),
        Expression::FreeInput(inner) => ExpressionView::FreeInput(
            Box::new(expression_view(*inner)),
        ),
        Expression::MatchExpression(scrutinee, arms) => ExpressionView::MatchExpression(
            Box::new(expression_view(*scrutinee)),
            Seq::new(
                arms.len() as nat,
                |i: int|
                    if 0 <= i < arms.len() {
                        (
                            match arms[i].0 {
                                Some(p) => Some(expression_view(p)),
                                None => None,
                            },
                            expression_view(arms[i].1),
                        )
                    } else {
                        (None, ExpressionView::Number(0))
                    },
            ),
        ),
    }
}

impl DeepView for Expression {
    type V = ExpressionView;

    open spec fn deep_view(&self) -> ExpressionView {
        expression_view(*self)
    }
}

impl DeepView for PolynomialReference {
    type V = PolynomialReferenceView;

    open spec fn deep_view(&self) -> PolynomialReferenceView {
        PolynomialReferenceView {
            namespace: self.namespace.deep_view(),
            name: self.name@,
            index: match self.index {
                Some(i) => Some(Box::new(expression_view(*i))),
                None => None,
            },
            next: self.next,
        }
    }
}

impl DeepView for SelectedExpressions {
    type V = SelectedExpressionsView;

    open spec fn deep_view(&self) -> SelectedExpressionsView {
        SelectedExpressionsView {
            selector: self.selector.deep_view(),
            expressions: self.expressions.deep_view(),
        }
    }
}

/// The mathematical value of an array.
pub open spec fn array_expression_view(a: ArrayExpression) -> ArrayExpressionView
    decreases a,
{
    match a {
        ArrayExpression::Value(items) => ArrayExpressionView::Value(items.deep_view()),
        ArrayExpression::RepeatedValue(items) => ArrayExpressionView::RepeatedValue(
            items.deep_view(),
        ),
        ArrayExpression::Concat(left, right) => ArrayExpressionView::Concat(
            Box::new(array_expression_view(*left)),
            Box::new(array_expression_view(*right)),
        ),
    }
}

impl DeepView for ArrayExpression {
    type V = ArrayExpressionView;

    open spec fn deep_view(&self) -> ArrayExpressionView {
        array_expression_view(*self)
    }
}

impl DeepView for FunctionDefinition {
    type V = FunctionDefinitionView;

    open spec fn deep_view(&self) -> FunctionDefinitionView {
        match self {
            FunctionDefinition::Mapping(params, body) => FunctionDefinitionView::Mapping(
                params.deep_view(),
                body.deep_view(),
            ),
            FunctionDefinition::Array(values) => FunctionDefinitionView::Array(values.deep_view()),
            FunctionDefinition::Query(params, body) => FunctionDefinitionView::Query(
                params.deep_view(),
                body.deep_view(),
            ),
        }
    }
}

impl DeepView for PolynomialName {
    type V = PolynomialNameView;

    open spec fn deep_view(&self) -> PolynomialNameView {
        PolynomialNameView { name: self.name@, array_size: self.array_size.deep_view() }
    }
}

impl DeepView for Statement {
    type V = StatementView;

    open spec fn deep_view(&self) -> StatementView {
        match self {
            Statement::Include(start, path) => StatementView::Include(*start, path@),
            Statement::Namespace(start, name, degree) => StatementView::Namespace(
                *start,
                name@,
                degree.deep_view(),
            ),
            Statement::PolynomialDefinition(start, name, value) => {
                StatementView::PolynomialDefinition(*start, name@, value.deep_view())
            },
            Statement::PublicDeclaration(start, name, poly, index) => {
                StatementView::PublicDeclaration(*start, name@, poly.deep_view(), index.deep_view())
            },
            Statement::PolynomialConstantDeclaration(start, names) => {
                StatementView::PolynomialConstantDeclaration(*start, names.deep_view())
            },
            Statement::PolynomialConstantDefinition(start, name, definition) => {
                StatementView::PolynomialConstantDefinition(*start, name@, definition.deep_view())
            },
            Statement::PolynomialCommitDeclaration(start, names, definition) => {
                StatementView::PolynomialCommitDeclaration(
                    *start,
                    names.deep_view(),
                    definition.deep_view(),
                )
            },
            Statement::PolynomialIdentity(start, identity) => StatementView::PolynomialIdentity(
                *start,
                identity.deep_view(),
            ),
            Statement::PlookupIdentity(start, left, right) => StatementView::PlookupIdentity(
                *start,
                left.deep_view(),
                right.deep_view(),
            ),
            Statement::PermutationIdentity(start, left, right) => {
                StatementView::PermutationIdentity(*start, left.deep_view(), right.deep_view())
            },
            Statement::ConnectIdentity(start, left, right) => StatementView::ConnectIdentity(
                *start,
                left.deep_view(),
                right.deep_view(),
            ),
            Statement::ConstantDefinition(start, name, value) => StatementView::ConstantDefinition(
                *start,
                name@,
                value.deep_view(),
            ),
        }
    }
}

impl DeepView for PILFile {
    type V = Seq<StatementView>;

    open spec fn deep_view(&self) -> Seq<StatementView> {
        self.0.deep_view()
    }
}

/// The view of a tuple holds the views of its items.
pub broadcast proof fn lemma_tuple_view(items: Vec<Expression>)
    ensures
        #[trigger] expression_view(Expression::Tuple(items)) == ExpressionView::Tuple(
            items.deep_view(),
        ),
{
    assert(expression_view(Expression::Tuple(items))->Tuple_0 =~= items.deep_view());
}

/// The view of a call holds the views of its arguments.
pub broadcast proof fn lemma_function_call_view(name: String, args: Vec<Expression>)
    ensures
        #[trigger] expression_view(Expression::FunctionCall(name, args))
            == ExpressionView::FunctionCall(name@, args.deep_view()),
{
    assert(expression_view(Expression::FunctionCall(name, args))->FunctionCall_1
        =~= args.deep_view());
}

/// The view of a match holds the views of its scrutinee and arms.
pub broadcast proof fn lemma_match_view(
    scrutinee: Box<Expression>,
    arms: Vec<(Option<Expression>, Expression)>,
)
    ensures
        #[trigger] expression_view(Expression::MatchExpression(scrutinee, arms))
            == ExpressionView::MatchExpression(
            Box::new(expression_view(*scrutinee)),
            arms.deep_view(),
        ),
{
    assert(expression_view(Expression::MatchExpression(scrutinee, arms))->MatchExpression_1
        =~= arms.deep_view());
}

pub broadcast group group_expression_views {
    lemma_tuple_view,
    lemma_function_call_view,
    lemma_match_view,
}

/// Appending an item to a vector appends its view to the vector's view.
pub proof fn lemma_deep_view_push<T: DeepView>(before: Vec<T>, after: Vec<T>, item: T)
    requires
        after@ == before@.push(item),
    ensures
        after.deep_view() == before.deep_view().push(item.deep_view()),
{
}

/// The array that holds the given values and then zeroes for all remaining rows.
pub open spec fn padded_view(values: Seq<ExpressionView>) -> ArrayExpressionView {
    ArrayExpressionView::Concat(
        Box::new(ArrayExpressionView::Value(values)),
        Box::new(ArrayExpressionView::RepeatedValue(seq![ExpressionView::Number(0)])),
    )
}

impl ArrayExpression {
    /// The array of the given values.
    pub fn value(v: Vec<Expression>) -> (r: Self)
        ensures
            r.deep_view() == ArrayExpressionView::Value(v.deep_view()),
    {
        ArrayExpression::Value(v)
    }

    /// The array that repeats the given values.
    pub fn repeated_value(v: Vec<Expression>) -> (r: Self)
        ensures
            r.deep_view() == ArrayExpressionView::RepeatedValue(v.deep_view()),
    {
        ArrayExpression::RepeatedValue(v)
    }

    /// The array followed by another.
    pub fn concat(self, other: Self) -> (r: Self)
        ensures
            r.deep_view() == ArrayExpressionView::Concat(
                Box::new(self.deep_view()),
                Box::new(other.deep_view()),
            ),
    {
        ArrayExpression::Concat(Box::new(self), Box::new(other))
    }

    /// Continues the array with zeroes for all remaining rows.
    pub fn pad_with_zeroes(self) -> (r: Self)
        ensures
            r.deep_view() == ArrayExpressionView::Concat(
                Box::new(self.deep_view()),
                Box::new(ArrayExpressionView::RepeatedValue(seq![ExpressionView::Number(0)])),
            ),
    {
        let mut zero: Vec<Expression> = Vec::new();
        zero.push(Expression::Number(Number::from_u64(0)));
        assert(zero.deep_view() =~= seq![ExpressionView::Number(0)]);
        self.concat(ArrayExpression::repeated_value(zero))
    }
}

/// A copy of an optional name.
pub fn duplicate_optional_name(name: &Option<String>) -> (r: Option<String>)
    ensures
        r.deep_view() == name.deep_view(),
{
    match name {
        Some(n) => Some(n.clone()),
        None => None,
    }
}

/// A copy of a list of expressions.
pub fn duplicate_expressions(items: &Vec<Expression>) -> (r: Vec<Expression>)
    ensures
        r.deep_view() == items.deep_view(),
{
    let mut out: Vec<Expression> = Vec::new();
    let mut i: usize = 0;
    while i < items.len()
        invariant
            i <= items.len(),
            out.len() == i,
            forall|j: int| 0 <= j < i ==> (#[trigger] out[j]).deep_view() == items[j].deep_view(),
        decreases items.len() - i,
    {
        out.push(items[i].duplicate());
        i += 1;
    }
    out
}

impl Expression {
    /// A structural copy of the expression.
    pub fn duplicate(&self) -> (r: Expression)
        ensures
            r.deep_view() == self.deep_view(),
        decreases self,
    {
        match self {
            Expression::Constant(name) => Expression::Constant(name.clone()),
            Expression::PolynomialReference(r) => {
                let index = match &r.index {
                    Some(i) => Some(Box::new(i.duplicate())),
                    None => None,
                };
                Expression::PolynomialReference(
                    PolynomialReference {
                        namespace: duplicate_optional_name(&r.namespace),
                        name: r.name.clone(),
                        index,
                        next: r.next,
                    },
                )
            },
            Expression::PublicReference(name) => Expression::PublicReference(name.clone()),
            Expression::Number(n) => Expression::Number(n.duplicate()),
            Expression::String(s) => Expression::String(s.clone()),
            Expression::Tuple(items) => {
                let mut out: Vec<Expression> = Vec::new();
                let mut i: usize = 0;
                while i < items.len()
                    invariant
                        i <= items.len(),
                        out.len() == i,
                        self matches Expression::Tuple(v) && v == *items,
                        forall|j: int|
                            0 <= j < i ==> expression_view(#[trigger] out[j]) == expression_view(
                                items[j],
                            ),
                    decreases items.len() - i,
                {
                    let c = items[i].duplicate();
                    out.push(c);
                    i += 1;
                }
                let r = Expression::Tuple(out);
                assert(expression_view(r)->Tuple_0 =~= expression_view(*self)->Tuple_0);
                r
            },
            Expression::BinaryOperation(left, op, right) => Expression::BinaryOperation(
                Box::new(left.duplicate()),
                *op,
                Box::new(right.duplicate()),
            ),
            Expression::UnaryOperation(op, inner) => Expression::UnaryOperation(
                *op,
                Box::new(inner.duplicate()),
            ),
            Expression::FunctionCall(name, args) => {
                let mut out: Vec<Expression> = Vec::new();
                let mut i: usize = 0;
                while i < args.len()
                    invariant
                        i <= args.len(),
                        out.len() == i,
                        self matches Expression::FunctionCall(_, v) && v == *args,
                        forall|j: int|
                            0 <= j < i ==> expression_view(#[trigger] out[j]) == expression_view(
                                args[j],
                            ),
                    decreases args.len() - i,
                {
                    let c = args[i].duplicate();
                    out.push(c);
                    i += 1;
                }
                let r = Expression::FunctionCall(name.clone(), out);
                assert(expression_view(r)->FunctionCall_1 =~= expression_view(
                    *self,
                )->FunctionCall_1);
                r
            },
            Expression::FreeInput(inner) => Expression::FreeInput(Box::new(inner.duplicate())),
            Expression::MatchExpression(scrutinee, arms) => {
                let mut out: Vec<(Option<Expression>, Expression)> = Vec::new();
                let mut i: usize = 0;
                while i < arms.len()
                    invariant
                        i <= arms.len(),
                        out.len() == i,
                        self matches Expression::MatchExpression(_, v) && v == *arms,
                        forall|j: int|
                            0 <= j < i ==> (#[trigger] out[j]).deep_view() == arms[j].deep_view(),
                    decreases arms.len() - i,
                {
                    let pattern = match &arms[i].0 {
                        Some(p) => Some(p.duplicate()),
                        None => None,
                    };
                    let value = arms[i].1.duplicate();
                    out.push((pattern, value));
                    i += 1;
                }
                let r = Expression::MatchExpression(Box::new(scrutinee.duplicate()), out);
                assert(expression_view(r)->MatchExpression_1 =~= expression_view(
                    *self,
                )->MatchExpression_1);
                r
            },
        }
    }
}

/// A copy of a list of names.
pub fn duplicate_names(names: &Vec<String>) -> (r: Vec<String>)
    ensures
        r.deep_view() == names.deep_view(),
{
    let mut out: Vec<String> = Vec::new();
    let mut i: usize = 0;
    while i < names.len()
        invariant
            i <= names.len(),
            out.len() == i,
            forall|j: int| 0 <= j < i ==> (#[trigger] out[j])@ == names[j]@,
        decreases names.len() - i,
    {
        out.push(names[i].clone());
        i += 1;
    }
    assert(out.deep_view() =~= names.deep_view());
    out
}

impl PolynomialReference {
    /// A structural copy of the reference.
    pub fn duplicate(&self) -> (r: PolynomialReference)
        ensures
            r.deep_view() == self.deep_view(),
    {
        let index = match &self.index {
            Some(i) => Some(Box::new(i.duplicate())),
            None => None,
        };
        PolynomialReference {
            namespace: duplicate_optional_name(&self.namespace),
            name: self.name.clone(),
            index,
            next: self.next,
        }
    }
}

impl SelectedExpressions {
    /// A structural copy.
    pub fn duplicate(&self) -> (r: SelectedExpressions)
        ensures
            r.deep_view() == self.deep_view(),
    {
        let selector = match &self.selector {
            Some(e) => Some(e.duplicate()),
            None => None,
        };
        SelectedExpressions { selector, expressions: duplicate_expressions(&self.expressions) }
    }
}

impl ArrayExpression {
    /// A structural copy of the array.
    pub fn duplicate(&self) -> (r: ArrayExpression)
        ensures
            r.deep_view() == self.deep_view(),
        decreases self,
    {
        match self {
            ArrayExpression::Value(items) => ArrayExpression::Value(duplicate_expressions(items)),
            ArrayExpression::RepeatedValue(items) => ArrayExpression::RepeatedValue(
                duplicate_expressions(items),
            ),
            ArrayExpression::Concat(left, right) => ArrayExpression::Concat(
                Box::new(left.duplicate()),
                Box::new(right.duplicate()),
            ),
        }
    }
}

impl FunctionDefinition {
    /// A structural copy of the definition.
    pub fn duplicate(&self) -> (r: FunctionDefinition)
        ensures
            r.deep_view() == self.deep_view(),
    {
        match self {
            FunctionDefinition::Mapping(params, body) => FunctionDefinition::Mapping(
                duplicate_names(params),
                body.duplicate(),
            ),
            FunctionDefinition::Array(values) => FunctionDefinition::Array(values.duplicate()),
            FunctionDefinition::Query(params, body) => FunctionDefinition::Query(
                duplicate_names(params),
                body.duplicate(),
            ),
        }
    }
}

/// A copy of a list of declared columns.
pub fn duplicate_polynomial_names(names: &Vec<PolynomialName>) -> (r: Vec<PolynomialName>)
    ensures
        r.deep_view() == names.deep_view(),
{
    let mut out: Vec<PolynomialName> = Vec::new();
    let mut i: usize = 0;
    while i < names.len()
        invariant
            i <= names.len(),
            out.len() == i,
            forall|j: int| 0 <= j < i ==> (#[trigger] out[j]).deep_view() == names[j].deep_view(),
        decreases names.len() - i,
    {
        let array_size = match &names[i].array_size {
            Some(e) => Some(e.duplicate()),
            None => None,
        };
        out.push(PolynomialName { name: names[i].name.clone(), array_size });
        i += 1;
    }
    assert(out.deep_view() =~= names.deep_view());
    out
}

impl Statement {
    /// A structural copy of the statement.
    pub fn duplicate(&self) -> (r: Statement)
        ensures
            r.deep_view() == self.deep_view(),
    {
        match self {
            Statement::Include(start, path) => Statement::Include(*start, path.clone()),
            Statement::Namespace(start, name, degree) => Statement::Namespace(
                *start,
                name.clone(),
                degree.duplicate(),
            ),
            Statement::PolynomialDefinition(start, name, value) => Statement::PolynomialDefinition(
                *start,
                name.clone(),
                value.duplicate(),
            ),
            Statement::PublicDeclaration(start, name, poly, index) => Statement::PublicDeclaration(
                *start,
                name.clone(),
                poly.duplicate(),
                index.duplicate(),
            ),
            Statement::PolynomialConstantDeclaration(start, names) => {
                Statement::PolynomialConstantDeclaration(*start, duplicate_polynomial_names(names))
            },
            Statement::PolynomialConstantDefinition(start, name, definition) => {
                Statement::PolynomialConstantDefinition(
                    *start,
                    name.clone(),
                    definition.duplicate(),
                )
            },
            Statement::PolynomialCommitDeclaration(start, names, definition) => {
                let definition = match definition {
                    Some(d) => Some(d.duplicate()),
                    None => None,
                };
                Statement::PolynomialCommitDeclaration(
                    *start,
                    duplicate_polynomial_names(names),
                    definition,
                )
            },
            Statement::PolynomialIdentity(start, identity) => Statement::PolynomialIdentity(
                *start,
                identity.duplicate(),
            ),
            Statement::PlookupIdentity(start, left, right) => Statement::PlookupIdentity(
                *start,
                left.duplicate(),
                right.duplicate(),
            ),
            Statement::PermutationIdentity(start, left, right) => Statement::PermutationIdentity(
                *start,
                left.duplicate(),
                right.duplicate(),
            ),
            Statement::ConnectIdentity(start, left, right) => Statement::ConnectIdentity(
                *start,
                duplicate_expressions(left),
                duplicate_expressions(right),
            ),
            Statement::ConstantDefinition(start, name, value) => Statement::ConstantDefinition(
                *start,
                name.clone(),
                value.duplicate(),
            ),
        }
    }
}

/// A copy of a list of statements.
pub fn duplicate_statements(statements: &Vec<Statement>) -> (r: Vec<Statement>)
    ensures
        r.deep_view() == statements.deep_view(),
{
    let mut out: Vec<Statement> = Vec::new();
    let mut i: usize = 0;
    while i < statements.len()
        invariant
            i <= statements.len(),
            out.len() == i,
            forall|j: int|
                0 <= j < i ==> (#[trigger] out[j]).deep_view() == statements[j].deep_view(),
        decreases statements.len() - i,
    {
        out.push(statements[i].duplicate());
        i += 1;
    }
    assert(out.deep_view() =~= statements.deep_view());
    out
}

} // verus!
