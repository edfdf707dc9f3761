use powdr::number::Number;
use powdr::parser::ast::{
    ArrayExpression, BinaryOperator, Expression, FunctionDefinition, PILFile, PolynomialName,
    PolynomialReference, SelectedExpressions, Statement, UnaryOperator,
};
use powdr::parser::display::format_expressions;

fn num(value: i64) -> Expression {
    Expression::Number(Number::from_i64(value))
}

fn col(name: &str) -> Expression {
    Expression::PolynomialReference(PolynomialReference {
        namespace: None,
        name: name.to_string(),
        index: None,
        next: false,
    })
}

fn binary(left: Expression, op: BinaryOperator, right: Expression) -> Expression {
    Expression::BinaryOperation(Box::new(left), op, Box::new(right))
}

fn s(text: &str) -> String {
    text.to_string()
}

#[test]
fn text_of_leaves() {
    assert_eq!(Expression::Constant(s("N")).format(), "%N");
    assert_eq!(Expression::PublicReference(s("out")).format(), ":out");
    assert_eq!(num(0).format(), "0");
    assert_eq!(num(-17).format(), "-17");
    assert_eq!(Expression::String(s("input")).format(), "\"input\"");
    assert_eq!(col("A").format(), "A");
}

#[test]
fn text_of_references() {
    let full = PolynomialReference {
        namespace: Some(s("Main")),
        name: s("A"),
        index: Some(Box::new(binary(col("i"), BinaryOperator::Add, num(1)))),
        next: true,
    };
    assert_eq!(full.format(), "Main.A[(i + 1)]'");
    assert_eq!(Expression::PolynomialReference(full).format(), "Main.A[(i + 1)]'");
    let next = PolynomialReference { namespace: None, name: s("A"), index: None, next: true };
    assert_eq!(next.format(), "A'");
}

#[test]
fn text_of_operations() {
    let operators = [
        (BinaryOperator::Add, "+"),
        (BinaryOperator::Sub, "-"),
        (BinaryOperator::Mul, "*"),
        (BinaryOperator::Div, "/"),
        (BinaryOperator::Mod, "%"),
        (BinaryOperator::Pow, "**"),
        (BinaryOperator::BinaryAnd, "&"),
        (BinaryOperator::BinaryXor, "^"),
        (BinaryOperator::BinaryOr, "|"),
        (BinaryOperator::ShiftLeft, "<<"),
        (BinaryOperator::ShiftRight, ">>"),
    ];
    for (op, text) in operators {
        assert_eq!(binary(col("a"), op, num(2)).format(), format!("(a {text} 2)"));
    }
    assert_eq!(
        Expression::UnaryOperation(UnaryOperator::Minus, Box::new(col("a"))).format(),
        "-a"
    );
    assert_eq!(
        Expression::UnaryOperation(UnaryOperator::Plus, Box::new(col("a"))).format(),
        "+a"
    );
}

#[test]
fn text_of_lists() {
    assert_eq!(format_expressions(&vec![]), "");
    assert_eq!(format_expressions(&vec![col("a")]), "a");
    assert_eq!(format_expressions(&vec![col("a"), num(1), col("b")]), "a, 1, b");
    assert_eq!(Expression::Tuple(vec![]).format(), "()");
    assert_eq!(Expression::Tuple(vec![col("a"), num(1)]).format(), "(a, 1)");
    assert_eq!(Expression::FunctionCall(s("f"), vec![]).format(), "f()");
    assert_eq!(Expression::FunctionCall(s("f"), vec![col("a"), col("b")]).format(), "f(a, b)");
    assert_eq!(
        Expression::FreeInput(Box::new(Expression::Tuple(vec![
            Expression::String(s("input")),
            num(0)
        ])))
        .format(),
        "${ (\"input\", 0) }"
    );
}

#[test]
fn text_of_a_match() {
    let e = Expression::MatchExpression(
        Box::new(col("x")),
        vec![(Some(num(1)), col("a")), (None, num(0))],
    );
    assert_eq!(e.format(), "match x { 1 => a, _ => 0, }");
    assert_eq!(Expression::MatchExpression(Box::new(col("x")), vec![]).format(), "match x { }");
}

#[test]
fn text_of_arrays_and_definitions() {
    let values = ArrayExpression::value(vec![num(1), num(2)]);
    assert_eq!(values.format(), "[1, 2]");
    assert_eq!(ArrayExpression::repeated_value(vec![num(0)]).format(), "[0]*");
    let padded = ArrayExpression::value(vec![num(1), num(2)]).pad_with_zeroes();
    assert_eq!(
        padded,
        ArrayExpression::Concat(
            Box::new(ArrayExpression::Value(vec![num(1), num(2)])),
            Box::new(ArrayExpression::RepeatedValue(vec![num(0)])),
        )
    );
    assert_eq!(padded.format(), "[1, 2] + [0]*");
    let joined = ArrayExpression::value(vec![]).concat(ArrayExpression::repeated_value(vec![num(5)]));
    assert_eq!(joined.format(), "[] + [5]*");
    assert_eq!(
        FunctionDefinition::Mapping(vec![s("i"), s("j")], col("i")).format(),
        "(i, j) { i }"
    );
    assert_eq!(
        FunctionDefinition::Query(vec![s("i")], Expression::Tuple(vec![col("i")])).format(),
        "(i) query (i)"
    );
    assert_eq!(FunctionDefinition::Array(padded).format(), " = [1, 2] + [0]*");
}

#[test]
fn text_of_statements() {
    let name = |n: &str| PolynomialName { name: s(n), array_size: None };
    let sized = PolynomialName { name: s("arr"), array_size: Some(num(3)) };
    let selected = |selector: Option<Expression>, list: Vec<Expression>| SelectedExpressions {
        selector,
        expressions: list,
    };
    let reference = PolynomialReference { namespace: None, name: s("A"), index: None, next: false };
    let cases = vec![
        (Statement::Include(0, s("lib.pil")), "include \"lib.pil\";"),
        (Statement::Namespace(0, s("Main"), num(8)), "namespace Main(8);"),
        (Statement::PolynomialDefinition(0, s("x"), col("y")), "pol x = y;"),
        (Statement::PublicDeclaration(0, s("out"), reference, num(7)), "public out = A(7);"),
        (
            Statement::PolynomialConstantDeclaration(0, vec![name("A"), sized]),
            "pol constant A, arr[3];",
        ),
        (
            Statement::PolynomialConstantDefinition(
                0,
                s("L"),
                FunctionDefinition::Mapping(vec![s("i")], col("i")),
            ),
            "pol constant L(i) { i };",
        ),
        (Statement::PolynomialCommitDeclaration(0, vec![name("w")], None), "pol commit w;"),
        (
            Statement::PolynomialCommitDeclaration(
                0,
                vec![name("w")],
                Some(FunctionDefinition::Query(vec![s("i")], col("i"))),
            ),
            "pol commit w(i) query i;",
        ),
        (
            Statement::PolynomialIdentity(0, binary(col("a"), BinaryOperator::Sub, col("b"))),
            "a = b;",
        ),
        (
            Statement::PolynomialIdentity(0, binary(col("a"), BinaryOperator::Mul, col("b"))),
            "(a * b) = 0;",
        ),
        (Statement::PolynomialIdentity(0, col("a")), "a = 0;"),
        (
            Statement::PlookupIdentity(
                0,
                selected(Some(col("s")), vec![col("a"), col("b")]),
                selected(None, vec![col("c"), col("d")]),
            ),
            "s { a, b } in { c, d };",
        ),
        (
            Statement::PermutationIdentity(
                0,
                selected(None, vec![col("a")]),
                selected(Some(col("t")), vec![col("c")]),
            ),
            "{ a } is t { c };",
        ),
        (
            Statement::ConnectIdentity(0, vec![col("a"), col("b")], vec![col("c"), col("d")]),
            "{ a, b } connect { c, d };",
        ),
        (Statement::ConstantDefinition(0, s("N"), num(16)), "constant %N = 16;"),
    ];
    for (statement, text) in &cases {
        assert_eq!(statement.format(), *text);
    }
}

#[test]
fn text_of_a_file_has_one_line_per_statement() {
    let file = PILFile(vec![
        Statement::Namespace(0, s("Main"), num(8)),
        Statement::PolynomialIdentity(0, col("a")),
    ]);
    assert_eq!(file.format(), "namespace Main(8);\na = 0;\n");
    assert_eq!(PILFile(vec![]).format(), "");
}

#[test]
fn duplicate_copies_the_whole_tree() {
    let e = Expression::MatchExpression(
        Box::new(Expression::FunctionCall(
            s("f"),
            vec![Expression::Tuple(vec![
                col("a"),
                Expression::FreeInput(Box::new(Expression::String(s("x")))),
                Expression::Constant(s("N")),
                Expression::PublicReference(s("p")),
            ])],
        )),
        vec![
            (
                Some(num(1)),
                Expression::PolynomialReference(PolynomialReference {
                    namespace: Some(s("M")),
                    name: s("A"),
                    index: Some(Box::new(num(2))),
                    next: true,
                }),
            ),
            (None, Expression::UnaryOperation(UnaryOperator::Minus, Box::new(num(-3)))),
        ],
    );
    assert_eq!(e.duplicate(), e);
}
