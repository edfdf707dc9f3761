use powdr::asm_compiler::compile;
use powdr::asm_compiler::error::{CompileError, Diagnostic};
use powdr::number::Number;
use powdr::parser::asm_ast::{
    ASMFile, ASMStatement, InstructionBodyElement, InstructionParam, PlookupOperator,
    RegisterFlag,
};
use powdr::parser::ast::{
    ArrayExpression, BinaryOperator, Expression, FunctionDefinition, PILFile, PolynomialName,
    PolynomialReference, SelectedExpressions, Statement,
};

fn num(value: i64) -> Expression {
    Expression::Number(Number::from_i64(value))
}

fn col(name: &str) -> Expression {
    Expression::PolynomialReference(PolynomialReference {
        namespace: None,
        name: name.to_string(),
        index: None,
        next: false,
    })
}

fn next(name: &str) -> Expression {
    Expression::PolynomialReference(PolynomialReference {
        namespace: None,
        name: name.to_string(),
        index: None,
        next: true,
    })
}

fn binary(left: Expression, op: BinaryOperator, right: Expression) -> Expression {
    Expression::BinaryOperation(Box::new(left), op, Box::new(right))
}

fn add(left: Expression, right: Expression) -> Expression {
    binary(left, BinaryOperator::Add, right)
}

fn sub(left: Expression, right: Expression) -> Expression {
    binary(left, BinaryOperator::Sub, right)
}

fn mul(left: Expression, right: Expression) -> Expression {
    binary(left, BinaryOperator::Mul, right)
}

fn input(index: Expression) -> Expression {
    Expression::FreeInput(Box::new(Expression::Tuple(vec![
        Expression::String("input".to_string()),
        index,
    ])))
}

fn commit(name: &str) -> Statement {
    Statement::PolynomialCommitDeclaration(
        0,
        vec![PolynomialName { name: name.to_string(), array_size: None }],
        None,
    )
}

fn reg(name: &str, flag: Option<RegisterFlag>) -> ASMStatement {
    ASMStatement::RegisterDeclaration(0, name.to_string(), flag)
}

fn input_param(name: &str, register: &str) -> InstructionParam {
    InstructionParam {
        name: name.to_string(),
        param_type: None,
        assignment_reg: (Some(Some(register.to_string())), None),
    }
}

fn output_param(name: &str, register: &str) -> InstructionParam {
    InstructionParam {
        name: name.to_string(),
        param_type: None,
        assignment_reg: (None, Some(Some(register.to_string()))),
    }
}

fn label_param(name: &str) -> InstructionParam {
    InstructionParam {
        name: name.to_string(),
        param_type: Some("label".to_string()),
        assignment_reg: (None, None),
    }
}

fn instr(
    name: &str,
    params: Vec<InstructionParam>,
    body: Vec<InstructionBodyElement>,
) -> ASMStatement {
    ASMStatement::InstructionDeclaration(0, name.to_string(), params, body)
}

fn assign(target: &str, register: &str, value: Expression) -> ASMStatement {
    ASMStatement::Assignment(
        0,
        vec![target.to_string()],
        Some(register.to_string()),
        Box::new(value),
    )
}

fn call(name: &str, args: Vec<Expression>) -> ASMStatement {
    ASMStatement::Instruction(0, name.to_string(), args)
}

fn label(name: &str) -> ASMStatement {
    ASMStatement::Label(0, name.to_string())
}

fn text(pil: &PILFile) -> String {
    pil.format()
}

fn lines(pil: &PILFile) -> Vec<String> {
    pil.0.iter().map(|s| s.format()).collect()
}

fn simple_sum() -> ASMFile {
    ASMFile(vec![
        reg("pc", Some(RegisterFlag::IsPC)),
        reg("X", Some(RegisterFlag::IsAssignment)),
        reg("A", None),
        reg("CNT", None),
        ASMStatement::InlinePil(
            0,
            vec![
                commit("XInv"),
                commit("XIsZero"),
                Statement::PolynomialIdentity(
                    0,
                    sub(col("XIsZero"), sub(num(1), mul(col("X"), col("XInv")))),
                ),
                Statement::PolynomialIdentity(0, sub(mul(col("XIsZero"), col("X")), num(0))),
                Statement::PolynomialIdentity(
                    0,
                    sub(mul(col("XIsZero"), sub(num(1), col("XIsZero"))), num(0)),
                ),
            ],
        ),
        instr(
            "jmpz",
            vec![input_param("c", "X"), label_param("l")],
            vec![InstructionBodyElement::Expression(sub(
                next("pc"),
                add(
                    mul(col("XIsZero"), col("l")),
                    mul(sub(num(1), col("XIsZero")), add(col("pc"), num(1))),
                ),
            ))],
        ),
        instr(
            "jmp",
            vec![label_param("l")],
            vec![InstructionBodyElement::Expression(sub(next("pc"), col("l")))],
        ),
        instr(
            "dec_CNT",
            vec![],
            vec![InstructionBodyElement::Expression(sub(next("CNT"), sub(col("CNT"), num(1))))],
        ),
        instr(
            "assert_zero",
            vec![input_param("a", "X")],
            vec![InstructionBodyElement::Expression(sub(col("XIsZero"), num(1)))],
        ),
        assign("CNT", "X", input(num(1))),
        label("start"),
        call("jmpz", vec![col("CNT"), col("end")]),
        assign("A", "X", add(col("A"), input(add(col("CNT"), num(1))))),
        call("dec_CNT", vec![]),
        call("jmp", vec![col("start")]),
        label("end"),
        assign("A", "X", sub(col("A"), input(num(0)))),
        call("assert_zero", vec![col("A")]),
    ])
}

#[test]
fn compile_simple_sum() {
    let expectation = r#"
namespace Assembly(1024);
pol constant first_step = [1] + [0]*;
(first_step * pc) = 0;
pol commit pc;
pol commit X;
(first_step * A) = 0;
pol commit reg_write_X_A;
pol commit A;
(first_step * CNT) = 0;
pol commit reg_write_X_CNT;
pol commit CNT;
pol commit XInv;
pol commit XIsZero;
XIsZero = (1 - (X * XInv));
(XIsZero * X) = 0;
(XIsZero * (1 - XIsZero)) = 0;
pol commit instr_jmpz;
pol commit instr_jmpz_param_l;
pol commit instr_jmp;
pol commit instr_jmp_param_l;
pol commit instr_dec_CNT;
pol commit instr_assert_zero;
(instr_assert_zero * (XIsZero - 1)) = 0;
pol commit X_const;
pol commit X_read_free;
pol commit read_X_A;
pol commit read_X_CNT;
pol commit read_X_pc;
X = (((((read_X_A * A) + (read_X_CNT * CNT)) + (read_X_pc * pc)) + X_const) + (X_read_free * X_free_value));
A' = (((first_step' * 0) + (reg_write_X_A * X)) + ((1 - (first_step' + reg_write_X_A)) * A));
CNT' = ((((first_step' * 0) + (reg_write_X_CNT * X)) + (instr_dec_CNT * (CNT - 1))) + ((1 - ((first_step' + reg_write_X_CNT) + instr_dec_CNT)) * CNT));
pc' = ((((first_step' * 0) + (instr_jmpz * ((XIsZero * instr_jmpz_param_l) + ((1 - XIsZero) * (pc + 1))))) + (instr_jmp * instr_jmp_param_l)) + ((1 - ((first_step' + instr_jmpz) + instr_jmp)) * (pc + 1)));
pol constant line(i) { i };
pol commit X_free_value(i) query (i, pc, (0, ("input", 1)), (3, ("input", (CNT + 1))), (7, ("input", 0)));
pol constant p_reg_write_X_A = [0, 0, 0, 1, 0, 0, 0, 1, 0] + [0]*;
pol constant p_reg_write_X_CNT = [1, 0, 0, 0, 0, 0, 0, 0, 0] + [0]*;
pol constant p_instr_jmpz = [0, 0, 1, 0, 0, 0, 0, 0, 0] + [0]*;
pol constant p_instr_jmpz_param_l = [0, 0, 6, 0, 0, 0, 0, 0, 0] + [0]*;
pol constant p_instr_jmp = [0, 0, 0, 0, 0, 1, 0, 0, 0] + [0]*;
pol constant p_instr_jmp_param_l = [0, 0, 0, 0, 0, 1, 0, 0, 0] + [0]*;
pol constant p_instr_dec_CNT = [0, 0, 0, 0, 1, 0, 0, 0, 0] + [0]*;
pol constant p_instr_assert_zero = [0, 0, 0, 0, 0, 0, 0, 0, 1] + [0]*;
pol constant p_X_const = [0, 0, 0, 0, 0, 0, 0, 0, 0] + [0]*;
pol constant p_X_read_free = [1, 0, 0, 1, 0, 0, 0, -1, 0] + [0]*;
pol constant p_read_X_A = [0, 0, 0, 1, 0, 0, 0, 1, 1] + [0]*;
pol constant p_read_X_CNT = [0, 0, 1, 0, 0, 0, 0, 0, 0] + [0]*;
pol constant p_read_X_pc = [0, 0, 0, 0, 0, 0, 0, 0, 0] + [0]*;
{ pc, reg_write_X_A, reg_write_X_CNT, instr_jmpz, instr_jmpz_param_l, instr_jmp, instr_jmp_param_l, instr_dec_CNT, instr_assert_zero, X_const, X_read_free, read_X_A, read_X_CNT, read_X_pc } in { line, p_reg_write_X_A, p_reg_write_X_CNT, p_instr_jmpz, p_instr_jmpz_param_l, p_instr_jmp, p_instr_jmp_param_l, p_instr_dec_CNT, p_instr_assert_zero, p_X_const, p_X_read_free, p_read_X_A, p_read_X_CNT, p_read_X_pc };

"#;
    let pil = compile(simple_sum()).unwrap();
    assert_eq!(text(&pil).trim(), expectation.trim());
}

#[test]
fn compiling_twice_gives_the_same_statements() {
    let first = compile(simple_sum()).unwrap();
    let second = compile(simple_sum()).unwrap();
    assert_eq!(first, second);
    assert_eq!(text(&first), text(&second));
}

#[test]
fn empty_program_emits_the_structure() {
    let pil = compile(ASMFile(vec![])).unwrap();
    assert_eq!(
        lines(&pil),
        vec![
            "namespace Assembly(1024);",
            "pol constant first_step = [1] + [0]*;",
            "pol constant line(i) { i };",
            "{  } in {  };",
        ]
    );
}

#[test]
fn declarations_without_code_lines_give_empty_tables() {
    let pil = compile(ASMFile(vec![
        reg("pc", Some(RegisterFlag::IsPC)),
        reg("X", Some(RegisterFlag::IsAssignment)),
        reg("A", None),
    ]))
    .unwrap();
    assert_eq!(
        lines(&pil),
        vec![
            "namespace Assembly(1024);",
            "pol constant first_step = [1] + [0]*;",
            "(first_step * pc) = 0;",
            "pol commit pc;",
            "pol commit X;",
            "(first_step * A) = 0;",
            "pol commit reg_write_X_A;",
            "pol commit A;",
            "pol commit X_const;",
            "pol commit X_read_free;",
            "pol commit read_X_A;",
            "pol commit read_X_pc;",
            "X = ((((read_X_A * A) + (read_X_pc * pc)) + X_const) + (X_read_free * X_free_value));",
            "A' = (((first_step' * 0) + (reg_write_X_A * X)) + ((1 - (first_step' + reg_write_X_A)) * A));",
            "pc' = ((first_step' * 0) + ((1 - first_step') * (pc + 1)));",
            "pol constant line(i) { i };",
            "pol commit X_free_value(i) query (i, pc);",
            "pol constant p_reg_write_X_A = [] + [0]*;",
            "pol constant p_X_const = [] + [0]*;",
            "pol constant p_X_read_free = [] + [0]*;",
            "pol constant p_read_X_A = [] + [0]*;",
            "pol constant p_read_X_pc = [] + [0]*;",
            "{ pc, reg_write_X_A, X_const, X_read_free, read_X_A, read_X_pc } in { line, p_reg_write_X_A, p_X_const, p_X_read_free, p_read_X_A, p_read_X_pc };",
        ]
    );
}

#[test]
fn program_without_pc_has_no_line_pair_and_no_pc_in_queries() {
    let pil = compile(ASMFile(vec![
        reg("X", Some(RegisterFlag::IsAssignment)),
        reg("A", None),
        assign("A", "X", input(num(0))),
    ]))
    .unwrap();
    let out = lines(&pil);
    assert!(out.contains(&"pol commit X_free_value(i) query (i, (0, (\"input\", 0)));".to_string()));
    assert_eq!(
        out.last().unwrap(),
        "{ reg_write_X_A, X_const, X_read_free, read_X_A } in { p_reg_write_X_A, p_X_const, p_X_read_free, p_read_X_A };"
    );
    assert!(!out.iter().any(|l| l.contains("pc")));
}

#[test]
fn degree_of_one_is_accepted() {
    let pil = compile(ASMFile(vec![ASMStatement::Degree(0, Number::from_u64(1))])).unwrap();
    assert_eq!(lines(&pil)[0], "namespace Assembly(1);");
}

#[test]
fn degree_of_three_is_rejected() {
    let r = compile(ASMFile(vec![ASMStatement::Degree(0, Number::from_u64(3))]));
    assert_eq!(r.map_err(|d| d.error), Err(CompileError::Shape));
}

#[test]
fn leading_degree_sets_the_namespace_degree() {
    let pil = compile(ASMFile(vec![ASMStatement::Degree(0, Number::from_u64(65536))])).unwrap();
    assert_eq!(lines(&pil)[0], "namespace Assembly(65536);");
}

#[test]
fn degree_of_zero_is_rejected() {
    let r = compile(ASMFile(vec![ASMStatement::Degree(0, Number::from_u64(0))]));
    assert_eq!(r.map_err(|d| d.error), Err(CompileError::Shape));
}

#[test]
fn negative_degree_is_rejected() {
    let r = compile(ASMFile(vec![ASMStatement::Degree(0, Number::from_i64(-8))]));
    assert_eq!(r.map_err(|d| d.error), Err(CompileError::Shape));
}

#[test]
fn degree_after_the_start_is_rejected() {
    let r = compile(ASMFile(vec![
        reg("A", None),
        ASMStatement::Degree(0, Number::from_u64(8)),
    ]));
    assert_eq!(r.map_err(|d| d.error), Err(CompileError::Shape));
}

#[test]
fn label_positions_fill_the_jump_target() {
    let pil = compile(ASMFile(vec![
        reg("pc", Some(RegisterFlag::IsPC)),
        instr(
            "jmp",
            vec![label_param("l")],
            vec![InstructionBodyElement::Expression(sub(next("pc"), col("l")))],
        ),
        instr("nop", vec![], vec![]),
        label("start"),
        call("nop", vec![]),
        call("nop", vec![]),
        label("loop"),
        call("nop", vec![]),
        call("jmp", vec![col("loop")]),
    ]))
    .unwrap();
    let out = lines(&pil);
    assert!(out.contains(&"pol constant p_instr_jmp_param_l = [0, 0, 0, 0, 0, 3] + [0]*;".to_string()));
    assert!(out.contains(&"pol constant p_instr_jmp = [0, 0, 0, 0, 0, 1] + [0]*;".to_string()));
    assert!(out.contains(&"pol constant p_instr_nop = [0, 1, 1, 0, 1, 0] + [0]*;".to_string()));
}

fn adder(program: Vec<ASMStatement>) -> ASMFile {
    let mut statements = vec![
        reg("pc", Some(RegisterFlag::IsPC)),
        reg("X", Some(RegisterFlag::IsAssignment)),
        reg("Y", Some(RegisterFlag::IsAssignment)),
        reg("Z", Some(RegisterFlag::IsAssignment)),
        reg("A", None),
        reg("B", None),
        instr(
            "add",
            vec![input_param("a", "X"), input_param("b", "Y"), output_param("out", "Z")],
            vec![InstructionBodyElement::Expression(sub(col("Z"), add(col("X"), col("Y"))))],
        ),
    ];
    statements.extend(program);
    ASMFile(statements)
}

#[test]
fn functional_instruction_equals_explicit_call() {
    let functional = compile(adder(vec![ASMStatement::Assignment(
        0,
        vec!["A".to_string()],
        Some("Z".to_string()),
        Box::new(Expression::FunctionCall("add".to_string(), vec![col("A"), col("B")])),
    )]))
    .unwrap();
    let explicit = compile(adder(vec![call("add", vec![col("A"), col("B"), col("A")])])).unwrap();
    assert_eq!(functional, explicit);
    let out = lines(&functional);
    assert!(out.contains(&"pol constant p_instr_add = [1] + [0]*;".to_string()));
    assert!(out.contains(&"pol constant p_reg_write_Z_A = [1] + [0]*;".to_string()));
    assert!(out.contains(&"pol constant p_Z_read_free = [1] + [0]*;".to_string()));
    assert!(out.contains(&"pol constant p_read_X_A = [1] + [0]*;".to_string()));
    assert!(out.contains(&"pol constant p_read_Y_B = [1] + [0]*;".to_string()));
    assert!(out.contains(&"pol constant p_read_X_B = [0] + [0]*;".to_string()));
    assert!(out.contains(&"(instr_add * (Z - (X + Y))) = 0;".to_string()));
}

#[test]
fn inline_pil_passes_through_in_place() {
    let pil = compile(ASMFile(vec![
        reg("A", None),
        ASMStatement::InlinePil(
            0,
            vec![
                commit("first"),
                Statement::PolynomialIdentity(0, sub(col("first"), num(7))),
                commit("second"),
            ],
        ),
        reg("B", None),
    ]))
    .unwrap();
    let out = lines(&pil);
    assert_eq!(
        &out[2..9],
        &[
            "(first_step * A) = 0;",
            "pol commit A;",
            "pol commit first;",
            "first = 7;",
            "pol commit second;",
            "(first_step * B) = 0;",
            "pol commit B;",
        ]
    );
}

#[test]
fn lone_register_holds_its_value() {
    let pil = compile(ASMFile(vec![reg("R", None)])).unwrap();
    assert!(lines(&pil)
        .contains(&"R' = ((first_step' * 0) + ((1 - first_step') * R));".to_string()));
}

#[test]
fn free_input_query_tuple() {
    let pil = compile(ASMFile(vec![
        reg("pc", Some(RegisterFlag::IsPC)),
        reg("X", Some(RegisterFlag::IsAssignment)),
        reg("A", None),
        reg("CNT", None),
        label("a"),
        label("b"),
        label("c"),
        assign("A", "X", input(add(col("CNT"), num(1)))),
    ]))
    .unwrap();
    assert!(lines(&pil).contains(
        &"pol commit X_free_value(i) query (i, pc, (3, (\"input\", (CNT + 1))));".to_string()
    ));
    assert!(lines(&pil).contains(&"pol constant p_X_read_free = [0, 0, 0, 1] + [0]*;".to_string()));
}

#[test]
fn instruction_lookup_is_selected_by_the_flag() {
    let pil = compile(ASMFile(vec![
        reg("X", Some(RegisterFlag::IsAssignment)),
        instr(
            "check",
            vec![input_param("v", "X"), label_param("t")],
            vec![
                InstructionBodyElement::PlookupIdentity(
                    SelectedExpressions { selector: None, expressions: vec![col("X"), col("t")] },
                    PlookupOperator::In,
                    SelectedExpressions {
                        selector: Some(col("t")),
                        expressions: vec![col("TABLE"), col("t")],
                    },
                ),
                InstructionBodyElement::PlookupIdentity(
                    SelectedExpressions { selector: None, expressions: vec![col("X")] },
                    PlookupOperator::Is,
                    SelectedExpressions { selector: None, expressions: vec![col("PERM")] },
                ),
            ],
        ),
    ]))
    .unwrap();
    let out = lines(&pil);
    assert!(out.contains(
        &"instr_check { X, instr_check_param_t } in instr_check_param_t { TABLE, instr_check_param_t };"
            .to_string()
    ));
    assert!(out.contains(&"instr_check { X } is { PERM };".to_string()));
}

#[test]
fn selector_on_the_left_of_an_instruction_lookup_is_rejected() {
    let r = compile(ASMFile(vec![instr(
        "check",
        vec![],
        vec![InstructionBodyElement::PlookupIdentity(
            SelectedExpressions { selector: Some(col("S")), expressions: vec![col("X")] },
            PlookupOperator::In,
            SelectedExpressions { selector: None, expressions: vec![col("T")] },
        )],
    )]));
    assert_eq!(r.map_err(|d| d.error), Err(CompileError::Shape));
}

#[test]
fn second_program_counter_is_rejected() {
    let r = compile(ASMFile(vec![
        reg("pc", Some(RegisterFlag::IsPC)),
        reg("pc2", Some(RegisterFlag::IsPC)),
    ]));
    assert_eq!(r.map_err(|d| d.error), Err(CompileError::Shape));
}

#[test]
fn repeated_register_is_rejected() {
    let r = compile(ASMFile(vec![reg("A", None), reg("A", None)]));
    assert_eq!(r.map_err(|d| d.error), Err(CompileError::Shape));
}

#[test]
fn repeated_instruction_is_rejected() {
    let r = compile(ASMFile(vec![instr("nop", vec![], vec![]), instr("nop", vec![], vec![])]));
    assert_eq!(r.map_err(|d| d.error), Err(CompileError::Shape));
}

#[test]
fn implicit_assignment_register_is_rejected() {
    let r = compile(ASMFile(vec![
        reg("A", None),
        ASMStatement::Assignment(0, vec!["A".to_string()], None, Box::new(num(1))),
    ]));
    assert_eq!(r.map_err(|d| d.error), Err(CompileError::Shape));
}

#[test]
fn two_write_registers_are_rejected() {
    let r = compile(ASMFile(vec![
        reg("X", Some(RegisterFlag::IsAssignment)),
        reg("A", None),
        reg("B", None),
        ASMStatement::Assignment(
            0,
            vec!["A".to_string(), "B".to_string()],
            Some("X".to_string()),
            Box::new(num(1)),
        ),
    ]));
    assert_eq!(r.map_err(|d| d.error), Err(CompileError::Shape));
}

#[test]
fn product_of_registers_is_rejected() {
    let r = compile(ASMFile(vec![
        reg("X", Some(RegisterFlag::IsAssignment)),
        reg("A", None),
        assign("A", "X", mul(col("A"), col("A"))),
    ]));
    assert_eq!(r.map_err(|d| d.error), Err(CompileError::Shape));
}

#[test]
fn division_is_rejected() {
    let r = compile(ASMFile(vec![
        reg("X", Some(RegisterFlag::IsAssignment)),
        reg("A", None),
        assign("A", "X", binary(col("A"), BinaryOperator::Div, num(2))),
    ]));
    assert_eq!(r.map_err(|d| d.error), Err(CompileError::Shape));
}

#[test]
fn unknown_instruction_is_a_name_error() {
    let r = compile(ASMFile(vec![call("missing", vec![])]));
    assert_eq!(r.map_err(|d| d.error), Err(CompileError::Name));
}

#[test]
fn update_of_unknown_register_is_a_name_error() {
    let r = compile(ASMFile(vec![instr(
        "bump",
        vec![],
        vec![InstructionBodyElement::Expression(sub(next("A"), add(col("A"), num(1))))],
    )]));
    assert_eq!(r.map_err(|d| d.error), Err(CompileError::Name));
}

#[test]
fn write_to_unknown_register_is_a_name_error() {
    let r = compile(ASMFile(vec![
        reg("X", Some(RegisterFlag::IsAssignment)),
        assign("A", "X", num(1)),
    ]));
    assert_eq!(r.map_err(|d| d.error), Err(CompileError::Name));
}

#[test]
fn unknown_label_is_a_name_error() {
    let r = compile(ASMFile(vec![
        instr("jmp", vec![label_param("l")], vec![]),
        call("jmp", vec![col("nowhere")]),
    ]));
    assert_eq!(r.map_err(|d| d.error), Err(CompileError::Name));
}

#[test]
fn wrong_number_of_arguments_is_an_arity_error() {
    let r = compile(ASMFile(vec![
        instr("jmp", vec![label_param("l")], vec![]),
        label("here"),
        call("jmp", vec![col("here"), col("here")]),
    ]));
    assert_eq!(r.map_err(|d| d.error), Err(CompileError::Arity));
}

#[test]
fn number_as_label_is_an_arity_error() {
    let r = compile(ASMFile(vec![
        instr("jmp", vec![label_param("l")], vec![]),
        call("jmp", vec![num(3)]),
    ]));
    assert_eq!(r.map_err(|d| d.error), Err(CompileError::Arity));
}

#[test]
fn number_as_output_is_an_arity_error() {
    let r = compile(adder(vec![call("add", vec![col("A"), col("B"), num(1)])]));
    assert_eq!(r.map_err(|d| d.error), Err(CompileError::Arity));
}

#[test]
fn next_row_reference_as_output_is_an_arity_error() {
    let r = compile(adder(vec![call("add", vec![col("A"), col("B"), next("A")])]));
    assert_eq!(r.map_err(|d| d.error), Err(CompileError::Arity));
}

#[test]
fn functional_call_with_wrong_argument_count_is_an_arity_error() {
    let r = compile(adder(vec![ASMStatement::Assignment(
        0,
        vec!["A".to_string()],
        Some("Z".to_string()),
        Box::new(Expression::FunctionCall("add".to_string(), vec![col("A")])),
    )]));
    assert_eq!(r.map_err(|d| d.error), Err(CompileError::Arity));
}

#[test]
fn functional_call_through_the_wrong_register_is_an_invariant_error() {
    let r = compile(adder(vec![ASMStatement::Assignment(
        0,
        vec!["A".to_string()],
        Some("X".to_string()),
        Box::new(Expression::FunctionCall("add".to_string(), vec![col("A"), col("B")])),
    )]));
    assert_eq!(r.map_err(|d| d.error), Err(CompileError::Invariant));
}

#[test]
fn second_input_through_one_register_is_recorded() {
    let pil = compile(ASMFile(vec![
        reg("X", Some(RegisterFlag::IsAssignment)),
        reg("A", None),
        reg("B", None),
        instr("both", vec![input_param("a", "X"), input_param("b", "X")], vec![]),
        call("both", vec![col("A"), mul(num(3), col("B"))]),
    ]))
    .unwrap();
    let out = lines(&pil);
    assert!(out.contains(&"pol constant p_instr_both = [1] + [0]*;".to_string()));
    assert!(out.contains(&"pol constant p_read_X_A = [0] + [0]*;".to_string()));
    assert!(out.contains(&"pol constant p_read_X_B = [3] + [0]*;".to_string()));
}

fn adder_through_one_register(program: Vec<ASMStatement>) -> ASMFile {
    let mut statements = vec![
        reg("Z", Some(RegisterFlag::IsAssignment)),
        reg("A", None),
        reg("B", None),
        reg("X", None),
        instr(
            "add",
            vec![input_param("a", "Z"), input_param("b", "Z"), output_param("out", "Z")],
            vec![],
        ),
    ];
    statements.extend(program);
    ASMFile(statements)
}

#[test]
fn functional_instruction_through_one_register_equals_explicit_call() {
    let functional = compile(adder_through_one_register(vec![ASMStatement::Assignment(
        0,
        vec!["X".to_string()],
        Some("Z".to_string()),
        Box::new(Expression::FunctionCall("add".to_string(), vec![col("A"), col("B")])),
    )]))
    .unwrap();
    let explicit = compile(adder_through_one_register(vec![call(
        "add",
        vec![col("A"), col("B"), col("X")],
    )]))
    .unwrap();
    assert_eq!(functional, explicit);
    let out = lines(&functional);
    assert!(out.contains(&"pol constant p_instr_add = [1] + [0]*;".to_string()));
    assert!(out.contains(&"pol constant p_reg_write_Z_X = [1] + [0]*;".to_string()));
    assert!(out.contains(&"pol constant p_reg_write_Z_A = [0] + [0]*;".to_string()));
    assert!(out.contains(&"pol constant p_read_Z_B = [1] + [0]*;".to_string()));
    assert!(out.contains(&"pol constant p_Z_read_free = [1] + [0]*;".to_string()));
}

#[test]
fn program_columns_come_in_the_order_of_their_creation() {
    let pil = compile(ASMFile(vec![
        instr("zeta", vec![label_param("b"), label_param("a")], vec![]),
        instr("alpha", vec![], vec![]),
        reg("X", Some(RegisterFlag::IsAssignment)),
        reg("R", None),
    ]))
    .unwrap();
    let out = lines(&pil);
    let tables: Vec<&String> = out.iter().filter(|l| l.starts_with("pol constant p_")).collect();
    assert_eq!(
        tables,
        vec![
            "pol constant p_instr_zeta = [] + [0]*;",
            "pol constant p_instr_zeta_param_b = [] + [0]*;",
            "pol constant p_instr_zeta_param_a = [] + [0]*;",
            "pol constant p_instr_alpha = [] + [0]*;",
            "pol constant p_reg_write_X_R = [] + [0]*;",
            "pol constant p_X_const = [] + [0]*;",
            "pol constant p_X_read_free = [] + [0]*;",
            "pol constant p_read_X_R = [] + [0]*;",
        ]
    );
    assert_eq!(
        out.last().unwrap(),
        "{ instr_zeta, instr_zeta_param_b, instr_zeta_param_a, instr_alpha, reg_write_X_R, X_const, X_read_free, read_X_R } in { p_instr_zeta, p_instr_zeta_param_b, p_instr_zeta_param_a, p_instr_alpha, p_reg_write_X_R, p_X_const, p_X_read_free, p_read_X_R };"
    );
}

#[test]
fn errors_have_a_diagnostic_text() {
    assert_eq!(CompileError::Shape.diagnostic(), "unsupported form in the assembly source");
    assert_eq!(CompileError::Name.diagnostic(), "unknown name in the assembly source");
    assert_eq!(
        CompileError::Arity.diagnostic(),
        "wrong number or kind of arguments in an instruction call"
    );
    assert_eq!(
        CompileError::Invariant.diagnostic(),
        "conflicting bindings in an instruction call"
    );
}

#[test]
fn two_outputs_through_one_register_are_an_invariant_error() {
    let r = compile(ASMFile(vec![
        reg("X", Some(RegisterFlag::IsAssignment)),
        reg("A", None),
        reg("B", None),
        instr("both", vec![output_param("a", "X"), output_param("b", "X")], vec![]),
        call("both", vec![col("A"), col("B")]),
    ]));
    assert_eq!(r.map_err(|d| d.error), Err(CompileError::Invariant));
}

#[test]
fn coefficients_of_a_line_are_tabulated() {
    let pil = compile(ASMFile(vec![
        reg("X", Some(RegisterFlag::IsAssignment)),
        reg("A", None),
        reg("B", None),
        assign("A", "X", mul(num(2), add(col("A"), num(3)))),
        assign("B", "X", sub(num(5), mul(add(col("B"), col("A")), num(-4)))),
    ]))
    .unwrap();
    let out = lines(&pil);
    assert!(out.contains(&"pol constant p_read_X_A = [2, 4] + [0]*;".to_string()));
    assert!(out.contains(&"pol constant p_read_X_B = [0, 4] + [0]*;".to_string()));
    assert!(out.contains(&"pol constant p_X_const = [6, 5] + [0]*;".to_string()));
    assert!(out.contains(&"pol constant p_reg_write_X_A = [1, 0] + [0]*;".to_string()));
    assert!(out.contains(&"pol constant p_reg_write_X_B = [0, 1] + [0]*;".to_string()));
}

#[test]
fn tables_have_one_entry_per_code_line() {
    let pil = compile(simple_sum()).unwrap();
    let mut tables = 0;
    for s in &pil.0 {
        if let Statement::PolynomialConstantDefinition(_, name, FunctionDefinition::Array(a)) = s {
            if name.starts_with("p_") {
                tables += 1;
                match a {
                    ArrayExpression::Concat(values, padding) => {
                        match &**values {
                            ArrayExpression::Value(v) => assert_eq!(v.len(), 9),
                            _ => panic!("values expected"),
                        }
                        assert_eq!(
                            **padding,
                            ArrayExpression::RepeatedValue(vec![num(0)])
                        );
                    }
                    _ => panic!("padded array expected"),
                }
            }
        }
    }
    assert_eq!(tables, 13);
}

fn count(lines: &[String], wanted: impl Fn(&str) -> bool) -> usize {
    lines.iter().filter(|l| wanted(l)).count()
}

#[test]
fn every_regular_register_has_one_update_and_one_first_row_identity() {
    let out = lines(&compile(simple_sum()).unwrap());
    for register in ["A", "CNT", "pc"] {
        assert_eq!(count(&out, |l| l.starts_with(&format!("{register}' = "))), 1);
        assert_eq!(count(&out, |l| l == format!("(first_step * {register}) = 0;")), 1);
    }
    assert_eq!(count(&out, |l| l.starts_with("X' = ")), 0);
    assert_eq!(count(&out, |l| l == "(first_step * X) = 0;"), 0);
}

#[test]
fn every_assignment_register_has_one_read_constraint_and_one_free_value() {
    let pil = compile(adder(vec![])).unwrap();
    let out = lines(&pil);
    for register in ["X", "Y", "Z"] {
        assert_eq!(count(&out, |l| l.starts_with(&format!("{register} = "))), 1);
        assert!(out.contains(&format!(
            "{register} = (((((read_{register}_A * A) + (read_{register}_B * B)) + (read_{register}_pc * pc)) + {register}_const) + ({register}_read_free * {register}_free_value));"
        )));
        assert_eq!(
            count(&out, |l| l == format!("pol commit {register}_free_value(i) query (i, pc);")),
            1
        );
    }
    assert_eq!(count(&out, |l| l.contains("_free_value(i) query")), 3);
    assert_eq!(count(&out, |l| l.starts_with("A = ") || l.starts_with("B = ")), 0);
}

#[test]
fn line_column_is_defined_once() {
    let out = lines(&compile(simple_sum()).unwrap());
    assert_eq!(count(&out, |l| l == "pol constant line(i) { i };"), 1);
    let empty = lines(&compile(ASMFile(vec![])).unwrap());
    assert_eq!(count(&empty, |l| l == "pol constant line(i) { i };"), 1);
}

#[test]
fn lookup_pairs_each_witness_with_its_program_column() {
    let pil = compile(simple_sum()).unwrap();
    let (left, right) = match pil.0.last().unwrap() {
        Statement::PlookupIdentity(0, left, right) => (left, right),
        other => panic!("lookup expected, found {other:?}"),
    };
    assert_eq!(left.selector, None);
    assert_eq!(right.selector, None);
    assert_eq!(left.expressions.len(), right.expressions.len());
    assert_eq!(left.expressions.len(), 14);
    let mut columns = Vec::new();
    for (witness, fixed) in left.expressions.iter().zip(&right.expressions) {
        let (witness, fixed) = (witness.format(), fixed.format());
        if witness == "pc" {
            assert_eq!(fixed, "line");
        } else {
            assert_eq!(fixed, format!("p_{witness}"));
            columns.push(fixed);
        }
    }
    let out = lines(&pil);
    for column in &columns {
        assert_eq!(count(&out, |l| l.starts_with(&format!("pol constant {column} = "))), 1);
    }
    assert_eq!(count(&out, |l| l.starts_with("pol constant p_")), columns.len());
}

#[test]
fn degree_pads_nothing_but_names_the_namespace() {
    let mut statements = vec![ASMStatement::Degree(0, Number::from_u64(4))];
    statements.extend(simple_sum().0);
    let out = lines(&compile(ASMFile(statements)).unwrap());
    assert_eq!(out[0], "namespace Assembly(4);");
    assert!(out.contains(&"pol constant p_instr_jmp = [0, 0, 0, 0, 0, 1, 0, 0, 0] + [0]*;".to_string()));
}

#[test]
fn rejected_source_is_reported_with_its_location() {
    let r = compile(ASMFile(vec![
        ASMStatement::RegisterDeclaration(10, "A".to_string(), None),
        ASMStatement::Label(20, "l".to_string()),
        ASMStatement::Instruction(30, "missing".to_string(), vec![]),
        ASMStatement::RegisterDeclaration(40, "A".to_string(), None),
    ]));
    assert_eq!(
        r,
        Err(Diagnostic {
            error: CompileError::Name,
            location: Some(30),
            message: "unknown name in the assembly source".to_string(),
        })
    );
    let r = compile(ASMFile(vec![ASMStatement::Degree(7, Number::from_u64(3))]));
    assert_eq!(r, Err(Diagnostic::new(CompileError::Shape, Some(7))));
    let r = compile(ASMFile(vec![ASMStatement::Degree(8, Number::from_i64(-1))]));
    assert_eq!(r, Err(Diagnostic::new(CompileError::Shape, Some(8))));
    let r = compile(ASMFile(vec![
        ASMStatement::Label(1, "l".to_string()),
        ASMStatement::Degree(2, Number::from_u64(8)),
    ]));
    assert_eq!(r, Err(Diagnostic::new(CompileError::Shape, Some(2))));
}

#[test]
fn source_rejected_as_a_whole_has_no_location() {
    let r = compile(ASMFile(vec![
        reg("X", Some(RegisterFlag::IsAssignment)),
        ASMStatement::Assignment(
            5,
            vec!["A".to_string()],
            Some("X".to_string()),
            Box::new(num(1)),
        ),
    ]));
    assert_eq!(r, Err(Diagnostic::new(CompileError::Name, None)));
}
