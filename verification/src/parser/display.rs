//! The text of PIL statements.

use crate::number::{decimal_text, Number};
use crate::parser::ast::{
    lemma_function_call_view, lemma_match_view, lemma_tuple_view, ArrayExpression,
    ArrayExpressionView, BinaryOperator, Expression, ExpressionView, FunctionDefinition,
    FunctionDefinitionView, PILFile, PolynomialName, PolynomialNameView, PolynomialReference,
    SelectedExpressions, SelectedExpressionsView, Statement, StatementView, UnaryOperator,
};
use vstd::prelude::*;
use vstd::string::*;

verus! {

/// The texts one after the other, with `separator` between each two.
pub open spec fn join_texts(texts: Seq<Seq<char>>, separator: Seq<char>) -> Seq<char>
    decreases texts.len(),
{
    if texts.len() == 0 {
        seq![]
    } else if texts.len() == 1 {
        texts[0]
    } else {
        join_texts(texts.drop_last(), separator) + separator + texts.last()
    }
}

/// The texts one after the other.
pub open spec fn concat_texts(texts: Seq<Seq<char>>) -> Seq<char>
    decreases texts.len(),
{
    if texts.len() == 0 {
        seq![]
    } else {
        concat_texts(texts.drop_last()) + texts.last()
    }
}

/// The sign of a binary operator.
pub open spec fn binary_operator_text(op: BinaryOperator) -> Seq<char> {
    match op {
        BinaryOperator::Add => "+"@,
        BinaryOperator::Sub => "-"@,
        BinaryOperator::Mul => "*"@,
        BinaryOperator::Div => "/"@,
        BinaryOperator::Mod => "%"@,
        BinaryOperator::Pow => "**"@,
        BinaryOperator::BinaryAnd => "&"@,
        BinaryOperator::BinaryXor => "^"@,
        BinaryOperator::BinaryOr => "|"@,
        BinaryOperator::ShiftLeft => "<<"@,
        BinaryOperator::ShiftRight => ">>"@,
    }
}

/// The sign of a unary operator.
pub open spec fn unary_operator_text(op: UnaryOperator) -> Seq<char> {
    match op {
        UnaryOperator::Plus => "+"@,
        UnaryOperator::Minus => "-"@,
    }
}

/// The text of an expression. Binary operations are put in parentheses, so that the text
/// shows the tree.
pub open spec fn expression_text(e: ExpressionView) -> Seq<char>
    decreases e,
{
    match e {
        ExpressionView::Constant(name) => "%"@ + name,
        ExpressionView::PolynomialReference(r) => {
            (match r.namespace {
                Some(namespace) => namespace + "."@,
                None => seq![],
            }) + r.name + (match r.index {
                Some(index) => "["@ + expression_text(*index) + "]"@,
                None => seq![],
            }) + (if r.next {
                "'"@
            } else {
                seq![]
            })
        },
        ExpressionView::PublicReference(name) => ":"@ + name,
        ExpressionView::Number(n) => decimal_text(n),
        ExpressionView::String(s) => "\""@ + s + "\""@,
        ExpressionView::Tuple(items) => "("@ + join_texts(expression_texts(items), ", "@)
            + ")"@,
        ExpressionView::BinaryOperation(left, op, right) => "("@ + expression_text(*left) + " "@
            + binary_operator_text(op) + " "@ + expression_text(*right) + ")"@,
        ExpressionView::UnaryOperation(op, inner) => unary_operator_text(op) + expression_text(
            *inner,
        ),
        ExpressionView::FunctionCall(name, args) => name + "("@ + join_texts(
            expression_texts(args),
            ", "@,
        ) + ")"@,
        ExpressionView::FreeInput(inner) => "${ "@ + expression_text(*inner) + " }"@,
        ExpressionView::MatchExpression(scrutinee, arms) => "match "@ + expression_text(
            *scrutinee,
        ) + " { "@ + concat_texts(arm_texts(arms)) + "}"@,
    }
}

/// The texts of a list of expressions.
pub open spec fn expression_texts(items: Seq<ExpressionView>) -> Seq<Seq<char>>
    decreases items,
{
    Seq::new(
        items.len(),
        |i: int|
            if 0 <= i < items.len() {
                expression_text(items[i])
            } else {
                seq![]
            },
    )
}

/// The texts of the arms of a match: the pattern, or an underscore, then the value.
pub open spec fn arm_texts(arms: Seq<(Option<ExpressionView>, ExpressionView)>) -> Seq<Seq<char>>
    decreases arms,
{
    Seq::new(
        arms.len(),
        |i: int|
            if 0 <= i < arms.len() {
                (match arms[i].0 {
                    Some(pattern) => expression_text(pattern),
                    None => "_"@,
                }) + " => "@ + expression_text(arms[i].1) + ", "@
            } else {
                seq![]
            },
    )
}

/// The text of a list of expressions, separated by commas.
pub open spec fn expression_list_text(items: Seq<ExpressionView>) -> Seq<char> {
    join_texts(expression_texts(items), ", "@)
}

/// The text of a list with one more item.
pub proof fn lemma_join_push(texts: Seq<Seq<char>>, separator: Seq<char>, text: Seq<char>)
    ensures
        join_texts(texts.push(text), separator) == if texts.len() == 0 {
            text
        } else {
            join_texts(texts, separator) + separator + text
        },
{
    assert(texts.push(text).drop_last() =~= texts);
}

fn binary_operator_str(op: BinaryOperator) -> (r: &'static str)
    ensures
        r@ == binary_operator_text(op),
{
    match op {
        BinaryOperator::Add => "+",
        BinaryOperator::Sub => "-",
        BinaryOperator::Mul => "*",
        BinaryOperator::Div => "/",
        BinaryOperator::Mod => "%",
        BinaryOperator::Pow => "**",
        BinaryOperator::BinaryAnd => "&",
        BinaryOperator::BinaryXor => "^",
        BinaryOperator::BinaryOr => "|",
        BinaryOperator::ShiftLeft => "<<",
        BinaryOperator::ShiftRight => ">>",
    }
}

fn unary_operator_str(op: UnaryOperator) -> (r: &'static str)
    ensures
        r@ == unary_operator_text(op),
{
    match op {
        UnaryOperator::Plus => "+",
        UnaryOperator::Minus => "-",
    }
}

/// The text of a list of expressions, separated by commas.
pub fn format_expressions(items: &Vec<Expression>) -> (r: String)
    ensures
        r@ == expression_list_text(items.deep_view()),
    decreases items,
{
    let mut out = String::new();
    let ghost texts = expression_texts(items.deep_view());
    let mut i: usize = 0;
    while i < items.len()
        invariant
            i <= items.len(),
            texts == expression_texts(items.deep_view()),
            out@ == join_texts(texts.take(i as int), ", "@),
        decreases items.len() - i,
    {
        if i > 0 {
            out.append(", ");
        }
        let item = items[i].format();
        out.append(item.as_str());
        proof {
            assert(texts.take(i + 1) =~= texts.take(i as int).push(texts[i as int]));
            lemma_join_push(texts.take(i as int), ", "@, texts[i as int]);
        }
        i += 1;
    }
    assert(texts.take(i as int) =~= texts);
    out
}

impl PolynomialReference {
    /// The text of the reference: the namespace with a dot, the name, the index in
    /// brackets, and a prime for the next row.
    pub fn format(&self) -> (r: String)
        ensures
            r@ == expression_text(ExpressionView::PolynomialReference(self.deep_view())),
        decreases self,
    {
        let mut out = String::new();
        match &self.namespace {
            Some(namespace) => {
                out.append(namespace.as_str());
                out.append(".");
            },
            None => {},
        }
        out.append(self.name.as_str());
        match &self.index {
            Some(index) => {
                out.append("[");
                let text = index.format();
                out.append(text.as_str());
                out.append("]");
            },
            None => {},
        }
        if self.next {
            out.append("'");
        }
        out
    }
}

impl Expression {
    /// The text of the expression; see [`expression_text`].
    pub fn format(&self) -> (r: String)
        ensures
            r@ == expression_text(self.deep_view()),
        decreases self,
    {
        match self {
            Expression::Constant(name) => {
                let mut out = String::from_str("%");
                out.append(name.as_str());
                out
            },
            Expression::PolynomialReference(reference) => reference.format(),
            Expression::PublicReference(name) => {
                let mut out = String::from_str(":");
                out.append(name.as_str());
                out
            },
            Expression::Number(n) => n.to_decimal(),
            Expression::String(s) => {
                let mut out = String::from_str("\"");
                out.append(s.as_str());
                out.append("\"");
                out
            },
            Expression::Tuple(items) => {
                let mut out = String::from_str("(");
                let list = format_expressions(items);
                out.append(list.as_str());
                out.append(")");
                proof {
                    lemma_tuple_view(*items);
                }
                out
            },
            Expression::BinaryOperation(left, op, right) => {
                let mut out = String::from_str("(");
                let l = left.format();
                out.append(l.as_str());
                out.append(" ");
                out.append(binary_operator_str(*op));
                out.append(" ");
                let r = right.format();
                out.append(r.as_str());
                out.append(")");
                out
            },
            Expression::UnaryOperation(op, inner) => {
                let mut out = String::from_str(unary_operator_str(*op));
                let text = inner.format();
                out.append(text.as_str());
                out
            },
            Expression::FunctionCall(name, args) => {
                let mut out = name.clone();
                out.append("(");
                let list = format_expressions(args);
                out.append(list.as_str());
                out.append(")");
                proof {
                    lemma_function_call_view(*name, *args);
                }
                out
            },
            Expression::FreeInput(inner) => {
                let mut out = String::from_str("${ ");
                let text = inner.format();
                out.append(text.as_str());
                out.append(" }");
                out
            },
            Expression::MatchExpression(scrutinee, arms) => {
                let mut out = String::from_str("match ");
                let text = scrutinee.format();
                out.append(text.as_str());
                out.append(" { ");
                let ghost head = out@;
                let ghost texts = arm_texts(arms.deep_view());
                let mut i: usize = 0;
                while i < arms.len()
                    invariant
                        i <= arms.len(),
                        self matches Expression::MatchExpression(_, v) && v == *arms,
                        texts == arm_texts(arms.deep_view()),
                        out@ == head + concat_texts(texts.take(i as int)),
                    decreases arms.len() - i,
                {
                    match &arms[i].0 {
                        Some(pattern) => {
                            let text = pattern.format();
                            out.append(text.as_str());
                        },
                        None => {
                            out.append("_");
                        },
                    }
                    out.append(" => ");
                    let value = arms[i].1.format();
                    out.append(value.as_str());
                    out.append(", ");
                    proof {
                        assert(texts.take(i + 1).drop_last() =~= texts.take(i as int));
                    }
                    i += 1;
                }
                out.append("}");
                proof {
                    assert(texts.take(i as int) =~= texts);
                    lemma_match_view(*scrutinee, *arms);
                }
                out
            },
        }
    }
}

/// The text of one side of a lookup: the selector, if there is one, and the selected
/// expressions in braces.
pub open spec fn selected_text(selected: SelectedExpressionsView) -> Seq<char> {
    (match selected.selector {
        Some(selector) => expression_text(selector) + " "@,
        None => seq![],
    }) + "{ "@ + expression_list_text(selected.expressions) + " }"@
}

/// The text of an array: values in brackets, with a star if they repeat, joined by `+`.
pub open spec fn array_text(array: ArrayExpressionView) -> Seq<char>
    decreases array,
{
    match array {
        ArrayExpressionView::Value(items) => "["@ + expression_list_text(items) + "]"@,
        ArrayExpressionView::RepeatedValue(items) => "["@ + expression_list_text(items) + "]*"@,
        ArrayExpressionView::Concat(left, right) => array_text(*left) + " + "@ + array_text(
            *right,
        ),
    }
}

/// The text of the definition of a column, as it follows the column's name.
pub open spec fn definition_text(definition: FunctionDefinitionView) -> Seq<char> {
    match definition {
        FunctionDefinitionView::Mapping(params, body) => "("@ + join_texts(params, ", "@)
            + ") { "@ + expression_text(body) + " }"@,
        FunctionDefinitionView::Array(values) => " = "@ + array_text(values),
        FunctionDefinitionView::Query(params, query) => "("@ + join_texts(params, ", "@)
            + ") query "@ + expression_text(query),
    }
}

/// The text of the name of a declared column, with its size in brackets if it is an array.
pub open spec fn name_text(name: PolynomialNameView) -> Seq<char> {
    name.name + (match name.array_size {
        Some(size) => "["@ + expression_text(size) + "]"@,
        None => seq![],
    })
}

/// The text of a list of declared columns.
pub open spec fn names_text(names: Seq<PolynomialNameView>) -> Seq<char> {
    join_texts(Seq::new(names.len(), |i: int| name_text(names[i])), ", "@)
}

/// The text of a statement. An identity `left - right` is written `left = right;`, any
/// other identity `e` is written `e = 0;`.
pub open spec fn statement_text(statement: StatementView) -> Seq<char> {
    match statement {
        StatementView::Include(_, path) => "include \""@ + path + "\";"@,
        StatementView::Namespace(_, name, degree) => "namespace "@ + name + "("@
            + expression_text(degree) + ");"@,
        StatementView::PolynomialDefinition(_, name, value) => "pol "@ + name + " = "@
            + expression_text(value) + ";"@,
        StatementView::PublicDeclaration(_, name, poly, index) => "public "@ + name + " = "@
            + expression_text(ExpressionView::PolynomialReference(poly)) + "("@
            + expression_text(index) + ");"@,
        StatementView::PolynomialConstantDeclaration(_, names) => "pol constant "@ + names_text(
            names,
        ) + ";"@,
        StatementView::PolynomialConstantDefinition(_, name, definition) => "pol constant "@
            + name + definition_text(definition) + ";"@,
        StatementView::PolynomialCommitDeclaration(_, names, definition) => "pol commit "@
            + names_text(names) + (match definition {
            Some(d) => definition_text(d),
            None => seq![],
        }) + ";"@,
        StatementView::PolynomialIdentity(_, identity) => match identity {
            ExpressionView::BinaryOperation(left, BinaryOperator::Sub, right) => expression_text(
                *left,
            ) + " = "@ + expression_text(*right) + ";"@,
            _ => expression_text(identity) + " = 0;"@,
        },
        StatementView::PlookupIdentity(_, left, right) => selected_text(left) + " in "@
            + selected_text(right) + ";"@,
        StatementView::PermutationIdentity(_, left, right) => selected_text(left) + " is "@
            + selected_text(right) + ";"@,
        StatementView::ConnectIdentity(_, left, right) => "{ "@ + expression_list_text(left)
            + " } connect { "@ + expression_list_text(right) + " };"@,
        StatementView::ConstantDefinition(_, name, value) => "constant %"@ + name + " = "@
            + expression_text(value) + ";"@,
    }
}

/// The text of a file: each statement on a line of its own.
pub open spec fn file_text(statements: Seq<StatementView>) -> Seq<char> {
    concat_texts(Seq::new(statements.len(), |i: int| statement_text(statements[i]) + "\n"@))
}

/// The text of a list of names, separated by commas.
fn format_names(names: &Vec<String>) -> (r: String)
    ensures
        r@ == join_texts(names.deep_view(), ", "@),
{
    let mut out = String::new();
    let ghost texts = names.deep_view();
    let mut i: usize = 0;
    while i < names.len()
        invariant
            i <= names.len(),
            texts == names.deep_view(),
            out@ == join_texts(texts.take(i as int), ", "@),
        decreases names.len() - i,
    {
        if i > 0 {
            out.append(", ");
        }
        out.append(names[i].as_str());
        proof {
            assert(texts.take(i + 1) =~= texts.take(i as int).push(texts[i as int]));
            lemma_join_push(texts.take(i as int), ", "@, texts[i as int]);
        }
        i += 1;
    }
    assert(texts.take(i as int) =~= texts);
    out
}

impl SelectedExpressions {
    /// The text of one side of a lookup; see [`selected_text`].
    pub fn format(&self) -> (r: String)
        ensures
            r@ == selected_text(self.deep_view()),
    {
        let mut out = String::new();
        match &self.selector {
            Some(selector) => {
                let text = selector.format();
                out.append(text.as_str());
                out.append(" ");
            },
            None => {},
        }
        out.append("{ ");
        let list = format_expressions(&self.expressions);
        out.append(list.as_str());
        out.append(" }");
        out
    }
}

impl ArrayExpression {
    /// The text of the array; see [`array_text`].
    pub fn format(&self) -> (r: String)
        ensures
            r@ == array_text(self.deep_view()),
        decreases self,
    {
        match self {
            ArrayExpression::Value(items) => {
                let mut out = String::from_str("[");
                let list = format_expressions(items);
                out.append(list.as_str());
                out.append("]");
                out
            },
            ArrayExpression::RepeatedValue(items) => {
                let mut out = String::from_str("[");
                let list = format_expressions(items);
                out.append(list.as_str());
                out.append("]*");
                out
            },
            ArrayExpression::Concat(left, right) => {
                let mut out = left.format();
                out.append(" + ");
                let text = right.format();
                out.append(text.as_str());
                out
            },
        }
    }
}

impl FunctionDefinition {
    /// The text of the definition; see [`definition_text`].
    pub fn format(&self) -> (r: String)
        ensures
            r@ == definition_text(self.deep_view()),
    {
        match self {
            FunctionDefinition::Mapping(params, body) => {
                let mut out = String::from_str("(");
                let list = format_names(params);
                out.append(list.as_str());
                out.append(") { ");
                let text = body.format();
                out.append(text.as_str());
                out.append(" }");
                out
            },
            FunctionDefinition::Array(values) => {
                let mut out = String::from_str(" = ");
                let text = values.format();
                out.append(text.as_str());
                out
            },
            FunctionDefinition::Query(params, query) => {
                let mut out = String::from_str("(");
                let list = format_names(params);
                out.append(list.as_str());
                out.append(") query ");
                let text = query.format();
                out.append(text.as_str());
                out
            },
        }
    }
}

/// The text of a list of declared columns; see [`names_text`].
fn format_polynomial_names(names: &Vec<PolynomialName>) -> (r: String)
    ensures
        r@ == names_text(names.deep_view()),
{
    let mut out = String::new();
    let ghost texts = Seq::new(
        names.deep_view().len(),
        |i: int| name_text(names.deep_view()[i]),
    );
    let mut i: usize = 0;
    while i < names.len()
        invariant
            i <= names.len(),
            texts == Seq::new(names.deep_view().len(), |i: int| name_text(names.deep_view()[i])),
            out@ == join_texts(texts.take(i as int), ", "@),
        decreases names.len() - i,
    {
        if i > 0 {
            out.append(", ");
        }
        out.append(names[i].name.as_str());
        match &names[i].array_size {
            Some(size) => {
                out.append("[");
                let text = size.format();
                out.append(text.as_str());
                out.append("]");
            },
            None => {},
        }
        proof {
            assert(texts.take(i + 1) =~= texts.take(i as int).push(texts[i as int]));
            lemma_join_push(texts.take(i as int), ", "@, texts[i as int]);
        }
        i += 1;
    }
    assert(texts.take(i as int) =~= texts);
    out
}

impl Statement {
    /// The text of the statement; see [`statement_text`].
    pub fn format(&self) -> (r: String)
        ensures
            r@ == statement_text(self.deep_view()),
    {
        match self {
            Statement::Include(_, path) => {
                let mut out = String::from_str("include \"");
                out.append(path.as_str());
                out.append("\";");
                out
            },
            Statement::Namespace(_, name, degree) => {
                let mut out = String::from_str("namespace ");
                out.append(name.as_str());
                out.append("(");
                let text = degree.format();
                out.append(text.as_str());
                out.append(");");
                out
            },
            Statement::PolynomialDefinition(_, name, value) => {
                let mut out = String::from_str("pol ");
                out.append(name.as_str());
                out.append(" = ");
                let text = value.format();
                out.append(text.as_str());
                out.append(";");
                out
            },
            Statement::PublicDeclaration(_, name, poly, index) => {
                let mut out = String::from_str("public ");
                out.append(name.as_str());
                out.append(" = ");
                let reference = poly.format();
                out.append(reference.as_str());
                out.append("(");
                let text = index.format();
                out.append(text.as_str());
                out.append(");");
                out
            },
            Statement::PolynomialConstantDeclaration(_, names) => {
                let mut out = String::from_str("pol constant ");
                let list = format_polynomial_names(names);
                out.append(list.as_str());
                out.append(";");
                out
            },
            Statement::PolynomialConstantDefinition(_, name, definition) => {
                let mut out = String::from_str("pol constant ");
                out.append(name.as_str());
                let text = definition.format();
                out.append(text.as_str());
                out.append(";");
                out
            },
            Statement::PolynomialCommitDeclaration(_, names, definition) => {
                let mut out = String::from_str("pol commit ");
                let list = format_polynomial_names(names);
                out.append(list.as_str());
                match definition {
                    Some(d) => {
                        let text = d.format();
                        out.append(text.as_str());
                    },
                    None => {},
                }
                out.append(";");
                out
            },
            Statement::PolynomialIdentity(_, identity) => {
                match identity {
                    Expression::BinaryOperation(left, BinaryOperator::Sub, right) => {
                        let mut out = left.format();
                        out.append(" = ");
                        let text = right.format();
                        out.append(text.as_str());
                        out.append(";");
                        out
                    },
                    _ => {
                        let mut out = identity.format();
                        out.append(" = 0;");
                        out
                    },
                }
            },
            Statement::PlookupIdentity(_, left, right) => {
                let mut out = left.format();
                out.append(" in ");
                let text = right.format();
                out.append(text.as_str());
                out.append(";");
                out
            },
            Statement::PermutationIdentity(_, left, right) => {
                let mut out = left.format();
                out.append(" is ");
                let text = right.format();
                out.append(text.as_str());
                out.append(";");
                out
            },
            Statement::ConnectIdentity(_, left, right) => {
                let mut out = String::from_str("{ ");
                let l = format_expressions(left);
                out.append(l.as_str());
                out.append(" } connect { ");
                let r = format_expressions(right);
                out.append(r.as_str());
                out.append(" };");
                out
            },
            Statement::ConstantDefinition(_, name, value) => {
                let mut out = String::from_str("constant %");
                out.append(name.as_str());
                out.append(" = ");
                let text = value.format();
                out.append(text.as_str());
                out.append(";");
                out
            },
        }
    }
}

impl PILFile {
    /// The text of the file: each statement on a line of its own.
    pub fn format(&self) -> (r: String)
        ensures
            r@ == file_text(self.deep_view()),
    {
        let mut out = String::new();
        let ghost texts = Seq::new(
            self.deep_view().len(),
            |i: int| statement_text(self.deep_view()[i]) + "\n"@,
        );
        let mut i: usize = 0;
        while i < self.0.len()
            invariant
                i <= self.0.len(),
                texts == Seq::new(
                    self.deep_view().len(),
                    |i: int| statement_text(self.deep_view()[i]) + "\n"@,
                ),
                out@ == concat_texts(texts.take(i as int)),
            decreases self.0.len() - i,
        {
            let text = self.0[i].format();
            out.append(text.as_str());
            out.append("\n");
            proof {
                assert(texts.take(i + 1).drop_last() =~= texts.take(i as int));
            }
            i += 1;
        }
        assert(texts.take(i as int) =~= texts);
        out
    }
}

} // verus!
