use powdr::asm_compiler::error::{CompileError, Diagnostic};
use powdr::asm_compiler::state::{
    ASMPILConverter, AffineExpressionComponent, CodeLine, Instruction, Register,
};
use powdr::commit_evaluator::fixed_lookup_machine::FixedLookup;
use powdr::commit_evaluator::{FixedData, Identity, IdentityKind};
use powdr::number::Number;
use powdr::parser::asm_ast::{
    ASMFile, ASMStatement, InstructionBodyElement, InstructionParam, RegisterFlag,
};
use powdr::parser::ast::{
    BinaryOperator, Expression, PolynomialReference, SelectedExpressions, Statement,
    UnaryOperator,
};

fn num(value: i64) -> Expression {
    Expression::Number(Number::from_i64(value))
}

fn n(value: i64) -> Number {
    Number::from_i64(value)
}

fn col(name: &str) -> Expression {
    Expression::PolynomialReference(PolynomialReference {
        namespace: None,
        name: name.to_string(),
        index: None,
        next: false,
    })
}

fn binary(left: Expression, op: BinaryOperator, right: Expression) -> Expression {
    Expression::BinaryOperation(Box::new(left), op, Box::new(right))
}

fn register(name: &str) -> AffineExpressionComponent {
    AffineExpressionComponent::Register(name.to_string())
}

fn lines(converter: &ASMPILConverter) -> Vec<String> {
    converter.pil.iter().map(|s| s.format()).collect()
}

fn s(text: &str) -> String {
    text.to_string()
}

#[test]
fn new_converter_is_empty() {
    let c = ASMPILConverter::new();
    assert_eq!(c.degree_exponent, 0);
    assert!(c.pil.is_empty());
    assert_eq!(c.pc_name, None);
    assert!(c.registers.is_empty());
    assert!(c.instructions.is_empty());
    assert!(c.code_lines.is_empty());
    assert!(c.line_lookup.is_empty());
    assert!(c.program_constant_names.is_empty());
    assert_eq!(c.degree(), 1);
}

#[test]
fn set_degree_stores_the_exponent() {
    let mut c = ASMPILConverter::new();
    assert_eq!(c.set_degree(1024), Ok(()));
    assert_eq!(c.degree_exponent, 10);
    assert_eq!(c.degree(), 1024);
    assert_eq!(c.set_degree(1), Ok(()));
    assert_eq!(c.degree_exponent, 0);
    assert_eq!(c.degree(), 1);
    assert_eq!(c.set_degree(1 << 63), Ok(()));
    assert_eq!(c.degree_exponent, 63);
    assert_eq!(c.degree(), 1 << 63);
}

#[test]
fn set_degree_rejects_what_is_no_power_of_two() {
    let mut c = ASMPILConverter::new();
    c.set_degree(8).unwrap();
    for degree in [0, 3, 5, 6, 7, 1000, u64::MAX, (1 << 63) + 1] {
        assert_eq!(c.set_degree(degree), Err(CompileError::Shape));
        assert_eq!(c.degree(), 8);
    }
}

#[test]
fn witness_fixed_pair_is_matched_in_the_lookup() {
    let mut c = ASMPILConverter::new();
    c.create_witness_fixed_pair(3, &s("flag"));
    assert_eq!(lines(&c), vec!["pol commit flag;"]);
    assert_eq!(c.line_lookup, vec![(s("flag"), s("p_flag"))]);
    assert_eq!(c.program_constant_names, vec![s("p_flag")]);
    assert_eq!(
        c.pil[0],
        powdr::asm_compiler::builder::witness_column(3, s("flag"), None)
    );
}

#[test]
fn registers_are_listed_in_the_order_of_their_names() {
    let mut c = ASMPILConverter::new();
    c.handle_register_declaration(Some(RegisterFlag::IsAssignment), "Y", 0).unwrap();
    c.handle_register_declaration(None, "b", 0).unwrap();
    c.handle_register_declaration(Some(RegisterFlag::IsPC), "pc", 0).unwrap();
    c.handle_register_declaration(Some(RegisterFlag::IsAssignment), "X", 0).unwrap();
    c.handle_register_declaration(None, "A", 0).unwrap();
    assert_eq!(c.assignment_registers(), vec![s("X"), s("Y")]);
    assert_eq!(c.regular_registers(), vec![s("A"), s("b"), s("pc")]);
    assert_eq!(c.pc_name, Some(s("pc")));
    let names: Vec<&str> = c.registers.iter().map(|(name, _)| name.as_str()).collect();
    assert_eq!(names, vec!["A", "X", "Y", "b", "pc"]);
}

#[test]
fn register_declaration_creates_write_flags_for_declared_assignment_registers() {
    let mut c = ASMPILConverter::new();
    c.handle_register_declaration(None, "early", 1).unwrap();
    c.handle_register_declaration(Some(RegisterFlag::IsAssignment), "X", 2).unwrap();
    c.handle_register_declaration(Some(RegisterFlag::IsAssignment), "Y", 3).unwrap();
    c.handle_register_declaration(None, "A", 4).unwrap();
    assert_eq!(
        lines(&c),
        vec![
            "(first_step * early) = 0;",
            "pol commit early;",
            "pol commit X;",
            "pol commit Y;",
            "(first_step * A) = 0;",
            "pol commit reg_write_X_A;",
            "pol commit reg_write_Y_A;",
            "pol commit A;",
        ]
    );
    let a = &c.registers[0].1;
    assert!(!a.is_assignment);
    assert_eq!(
        a.update_expression().unwrap().format(),
        "((((first_step' * 0) + (reg_write_X_A * X)) + (reg_write_Y_A * Y)) + ((1 - ((first_step' + reg_write_X_A) + reg_write_Y_A)) * A))"
    );
    let x = &c.registers[1].1;
    assert_eq!(
        *x,
        Register { conditioned_updates: vec![], default_update: None, is_assignment: true }
    );
    assert_eq!(
        c.line_lookup,
        vec![(s("reg_write_X_A"), s("p_reg_write_X_A")), (s("reg_write_Y_A"), s("p_reg_write_Y_A"))]
    );
}

#[test]
fn program_counter_is_paired_with_line() {
    let mut c = ASMPILConverter::new();
    c.handle_register_declaration(Some(RegisterFlag::IsPC), "pc", 5).unwrap();
    assert_eq!(c.line_lookup, vec![(s("pc"), s("line"))]);
    assert!(c.program_constant_names.is_empty());
    assert_eq!(lines(&c), vec!["(first_step * pc) = 0;", "pol commit pc;"]);
    assert_eq!(c.pil[0], Statement::PolynomialIdentity(
        5,
        binary(col("first_step"), BinaryOperator::Mul, col("pc")),
    ));
    assert_eq!(
        c.registers[0].1.update_expression().unwrap().format(),
        "((first_step' * 0) + ((1 - first_step') * (pc + 1)))"
    );
    assert_eq!(
        c.handle_register_declaration(Some(RegisterFlag::IsPC), "other", 0),
        Err(CompileError::Shape)
    );
}

#[test]
fn instruction_definition_records_parameters_and_updates() {
    let mut c = ASMPILConverter::new();
    c.handle_register_declaration(None, "A", 0).unwrap();
    let params = vec![
        InstructionParam {
            name: s("l"),
            param_type: Some(s("label")),
            assignment_reg: (None, None),
        },
        InstructionParam {
            name: s("v"),
            param_type: None,
            assignment_reg: (Some(Some(s("X"))), None),
        },
    ];
    let body = vec![
        InstructionBodyElement::Expression(binary(
            Expression::PolynomialReference(PolynomialReference {
                namespace: None,
                name: s("A"),
                index: None,
                next: true,
            }),
            BinaryOperator::Sub,
            binary(col("A"), BinaryOperator::Add, col("l")),
        )),
        InstructionBodyElement::Expression(binary(col("l"), BinaryOperator::Mul, col("v"))),
    ];
    c.handle_instruction_def(9, body, s("step"), params).unwrap();
    assert_eq!(
        lines(&c),
        vec![
            "(first_step * A) = 0;",
            "pol commit A;",
            "pol commit instr_step;",
            "pol commit instr_step_param_l;",
            "(instr_step * (instr_step_param_l * v)) = 0;",
        ]
    );
    assert_eq!(
        c.registers[0].1.update_expression().unwrap().format(),
        "(((first_step' * 0) + (instr_step * (A + instr_step_param_l))) + ((1 - (first_step' + instr_step)) * A))"
    );
    assert_eq!(c.instructions.len(), 1);
    assert_eq!(c.instructions[0].0, "step");
    assert_eq!(c.instructions[0].1.params.len(), 2);
    assert_eq!(
        c.program_constant_names,
        vec![s("p_instr_step"), s("p_instr_step_param_l")]
    );
}

#[test]
fn affine_value_of_a_product_with_a_constant() {
    let c = ASMPILConverter::new();
    let left = binary(num(2), BinaryOperator::Mul, binary(col("A"), BinaryOperator::Add, num(3)));
    let right = binary(binary(col("A"), BinaryOperator::Add, num(3)), BinaryOperator::Mul, num(2));
    let expected = vec![(n(2), register("A")), (n(6), AffineExpressionComponent::Constant)];
    assert_eq!(c.process_assignment_value(&left), Ok(expected));
    let expected = vec![(n(2), register("A")), (n(6), AffineExpressionComponent::Constant)];
    assert_eq!(c.process_assignment_value(&right), Ok(expected));
}

#[test]
fn affine_value_keeps_terms_apart() {
    let c = ASMPILConverter::new();
    let value = binary(
        binary(col("A"), BinaryOperator::Add, col("A")),
        BinaryOperator::Sub,
        binary(num(1), BinaryOperator::Add, num(2)),
    );
    assert_eq!(
        c.process_assignment_value(&value),
        Ok(vec![
            (n(1), register("A")),
            (n(1), register("A")),
            (n(-1), AffineExpressionComponent::Constant),
            (n(-2), AffineExpressionComponent::Constant),
        ])
    );
}

#[test]
fn affine_value_of_a_free_input_and_of_a_negation() {
    let c = ASMPILConverter::new();
    let query = Expression::Tuple(vec![Expression::String(s("input")), num(0)]);
    let free = Expression::FreeInput(Box::new(Expression::Tuple(vec![
        Expression::String(s("input")),
        num(0),
    ])));
    let value = Expression::UnaryOperation(
        UnaryOperator::Minus,
        Box::new(binary(free, BinaryOperator::Sub, binary(num(3), BinaryOperator::Mul, col("B")))),
    );
    assert_eq!(
        c.process_assignment_value(&value),
        Ok(vec![
            (n(-1), AffineExpressionComponent::FreeInput(query)),
            (n(3), register("B")),
        ])
    );
}

#[test]
fn product_of_two_constants_is_a_constant() {
    let c = ASMPILConverter::new();
    let value = binary(num(-4), BinaryOperator::Mul, num(5));
    assert_eq!(
        c.process_assignment_value(&value),
        Ok(vec![(n(-20), AffineExpressionComponent::Constant)])
    );
}

#[test]
fn sum_and_negation_of_affine_values() {
    let c = ASMPILConverter::new();
    let left = vec![(n(1), register("A"))];
    let right = vec![(n(2), AffineExpressionComponent::Constant), (n(-3), register("B"))];
    assert_eq!(
        c.add_assignment_value(left, right),
        vec![
            (n(1), register("A")),
            (n(2), AffineExpressionComponent::Constant),
            (n(-3), register("B")),
        ]
    );
    let value = vec![(n(2), AffineExpressionComponent::Constant), (n(-3), register("B"))];
    assert_eq!(
        c.negate_assignment_value(value),
        vec![(n(-2), AffineExpressionComponent::Constant), (n(3), register("B"))]
    );
    assert_eq!(c.negate_assignment_value(vec![]), vec![]);
}

#[test]
fn what_is_not_affine_has_no_affine_value() {
    let c = ASMPILConverter::new();
    let rejected = vec![
        binary(col("A"), BinaryOperator::Mul, col("B")),
        binary(binary(num(1), BinaryOperator::Add, num(2)), BinaryOperator::Mul, col("B")),
        binary(col("A"), BinaryOperator::Div, num(2)),
        binary(col("A"), BinaryOperator::Mod, num(2)),
        binary(col("A"), BinaryOperator::Pow, num(2)),
        binary(col("A"), BinaryOperator::BinaryAnd, num(2)),
        binary(col("A"), BinaryOperator::BinaryXor, num(2)),
        binary(col("A"), BinaryOperator::BinaryOr, num(2)),
        binary(col("A"), BinaryOperator::ShiftLeft, num(2)),
        binary(col("A"), BinaryOperator::ShiftRight, num(2)),
        Expression::UnaryOperation(UnaryOperator::Plus, Box::new(col("A"))),
        Expression::String(s("text")),
        Expression::Tuple(vec![num(1)]),
        Expression::Constant(s("N")),
        Expression::PublicReference(s("out")),
        Expression::FunctionCall(s("f"), vec![]),
        Expression::MatchExpression(Box::new(num(1)), vec![]),
        Expression::PolynomialReference(PolynomialReference {
            namespace: None,
            name: s("A"),
            index: None,
            next: true,
        }),
        Expression::PolynomialReference(PolynomialReference {
            namespace: Some(s("N")),
            name: s("A"),
            index: None,
            next: false,
        }),
        Expression::PolynomialReference(PolynomialReference {
            namespace: None,
            name: s("A"),
            index: Some(Box::new(num(1))),
            next: false,
        }),
        binary(num(1), BinaryOperator::Add, Expression::String(s("text"))),
    ];
    for value in &rejected {
        assert_eq!(c.process_assignment_value(value), Err(CompileError::Shape));
    }
}

#[test]
fn assignment_becomes_a_code_line() {
    let mut c = ASMPILConverter::new();
    c.handle_assignment(
        0,
        vec![s("A")],
        Some(s("X")),
        &binary(col("B"), BinaryOperator::Sub, num(1)),
    )
    .unwrap();
    c.handle_assignment(0, vec![], Some(s("X")), &num(5)).unwrap();
    assert_eq!(
        c.code_lines,
        vec![
            CodeLine {
                write_regs: vec![(s("X"), vec![s("A")])],
                value: vec![(
                    s("X"),
                    vec![(n(1), register("B")), (n(-1), AffineExpressionComponent::Constant)]
                )],
                label: None,
                instruction: None,
                instruction_literal_args: vec![],
            },
            CodeLine {
                write_regs: vec![(s("X"), vec![])],
                value: vec![(s("X"), vec![(n(5), AffineExpressionComponent::Constant)])],
                label: None,
                instruction: None,
                instruction_literal_args: vec![],
            },
        ]
    );
}

#[test]
fn label_becomes_a_code_line() {
    let mut c = ASMPILConverter::new();
    c.handle_label(s("start"));
    assert_eq!(
        c.code_lines,
        vec![CodeLine {
            write_regs: vec![],
            value: vec![],
            label: Some(s("start")),
            instruction: None,
            instruction_literal_args: vec![],
        }]
    );
}

fn with_instruction(params: Vec<InstructionParam>) -> ASMPILConverter {
    let mut c = ASMPILConverter::new();
    c.instructions.push((s("op"), Instruction { params }));
    c
}

fn input_param(name: &str, register: &str) -> InstructionParam {
    InstructionParam {
        name: s(name),
        param_type: None,
        assignment_reg: (Some(Some(s(register))), None),
    }
}

fn output_param(name: &str, register: &str) -> InstructionParam {
    InstructionParam {
        name: s(name),
        param_type: None,
        assignment_reg: (None, Some(Some(s(register)))),
    }
}

fn label_param(name: &str) -> InstructionParam {
    InstructionParam { name: s(name), param_type: Some(s("label")), assignment_reg: (None, None) }
}

#[test]
fn instruction_call_binds_arguments_by_parameter() {
    let mut c = with_instruction(vec![
        input_param("b", "Y"),
        label_param("l"),
        output_param("out", "Z"),
        input_param("a", "X"),
    ]);
    c.handle_instruction(s("op"), vec![num(7), col("target"), col("R"), col("A")]).unwrap();
    assert_eq!(
        c.code_lines,
        vec![CodeLine {
            write_regs: vec![(s("Z"), vec![s("R")])],
            value: vec![
                (s("X"), vec![(n(1), register("A"))]),
                (s("Y"), vec![(n(7), AffineExpressionComponent::Constant)]),
            ],
            label: None,
            instruction: Some(s("op")),
            instruction_literal_args: vec![None, Some(s("target")), None, None],
        }]
    );
}

#[test]
fn functional_call_appends_the_written_register() {
    let params = vec![input_param("a", "X"), output_param("out", "Z")];
    let mut functional = with_instruction(params);
    functional
        .handle_functional_instruction(vec![s("R")], Some(s("Z")), s("op"), vec![col("A")])
        .unwrap();
    let mut explicit = with_instruction(vec![input_param("a", "X"), output_param("out", "Z")]);
    explicit.handle_instruction(s("op"), vec![col("A"), col("R")]).unwrap();
    assert_eq!(functional.code_lines, explicit.code_lines);
    assert_eq!(functional.code_lines[0].write_regs, vec![(s("Z"), vec![s("R")])]);
}

#[test]
fn functional_call_checks_the_last_parameter() {
    let call = |params: Vec<InstructionParam>, writes: Vec<String>, assign: Option<String>| {
        with_instruction(params).handle_functional_instruction(
            writes,
            assign,
            s("op"),
            vec![col("A")],
        )
    };
    let good = vec![input_param("a", "X"), output_param("out", "Z")];
    assert_eq!(call(good, vec![s("R")], Some(s("Z"))), Ok(()));
    let good = vec![input_param("a", "X"), output_param("out", "Z")];
    assert_eq!(call(good, vec![], Some(s("Z"))), Err(CompileError::Invariant));
    let good = vec![input_param("a", "X"), output_param("out", "Z")];
    assert_eq!(call(good, vec![s("R"), s("S")], Some(s("Z"))), Err(CompileError::Invariant));
    let good = vec![input_param("a", "X"), output_param("out", "Z")];
    assert_eq!(call(good, vec![s("R")], None), Err(CompileError::Shape));
    let typed = vec![
        input_param("a", "X"),
        InstructionParam {
            name: s("out"),
            param_type: Some(s("label")),
            assignment_reg: (None, Some(Some(s("Z")))),
        },
    ];
    assert_eq!(call(typed, vec![s("R")], Some(s("Z"))), Err(CompileError::Invariant));
    let input_last = vec![input_param("a", "X"), input_param("b", "Z")];
    assert_eq!(call(input_last, vec![s("R")], Some(s("Z"))), Err(CompileError::Invariant));
    let short = vec![output_param("out", "Z")];
    assert_eq!(call(short, vec![s("R")], Some(s("Z"))), Err(CompileError::Arity));
    let mut unknown = ASMPILConverter::new();
    assert_eq!(
        unknown.handle_functional_instruction(vec![s("R")], Some(s("Z")), s("op"), vec![]),
        Err(CompileError::Name)
    );
}

#[test]
fn parameters_without_a_named_register_or_type_are_rejected() {
    let implicit_input = InstructionParam {
        name: s("a"),
        param_type: None,
        assignment_reg: (Some(None), None),
    };
    let mut c = with_instruction(vec![implicit_input]);
    assert_eq!(c.handle_instruction(s("op"), vec![col("A")]), Err(CompileError::Shape));
    let implicit_output = InstructionParam {
        name: s("a"),
        param_type: None,
        assignment_reg: (None, Some(None)),
    };
    let mut c = with_instruction(vec![implicit_output]);
    assert_eq!(c.handle_instruction(s("op"), vec![col("A")]), Err(CompileError::Shape));
    let untyped =
        InstructionParam { name: s("a"), param_type: None, assignment_reg: (None, None) };
    let mut c = with_instruction(vec![untyped]);
    assert_eq!(c.handle_instruction(s("op"), vec![col("A")]), Err(CompileError::Shape));
    let other_type = InstructionParam {
        name: s("a"),
        param_type: Some(s("number")),
        assignment_reg: (None, None),
    };
    let mut c = with_instruction(vec![other_type]);
    assert_eq!(c.handle_instruction(s("op"), vec![col("A")]), Err(CompileError::Shape));
}

#[test]
fn output_named_like_a_bound_assignment_register_is_rejected() {
    let mut c = with_instruction(vec![output_param("a", "X"), output_param("b", "Y")]);
    assert_eq!(
        c.handle_instruction(s("op"), vec![col("A"), col("X")]),
        Err(CompileError::Invariant)
    );
}

#[test]
fn label_positions_are_rows_of_code_lines() {
    let mut c = ASMPILConverter::new();
    c.handle_label(s("start"));
    c.handle_assignment(0, vec![], Some(s("X")), &num(1)).unwrap();
    c.handle_label(s("loop"));
    c.handle_label(s("start"));
    assert_eq!(
        c.compute_label_positions(),
        vec![(s("start"), 0), (s("loop"), 2), (s("start"), 3)]
    );
}

#[test]
fn a_repeated_label_stands_for_its_last_row() {
    let pil = powdr::asm_compiler::compile(ASMFile(vec![
        ASMStatement::InstructionDeclaration(0, s("jmp"), vec![label_param("l")], vec![]),
        ASMStatement::Label(0, s("here")),
        ASMStatement::Instruction(0, s("jmp"), vec![col("here")]),
        ASMStatement::Label(0, s("here")),
    ]))
    .unwrap();
    let out: Vec<String> = pil.0.iter().map(|s| s.format()).collect();
    assert!(out.contains(&s("pol constant p_instr_jmp_param_l = [0, 2, 0] + [0]*;")));
}

#[test]
fn read_constraint_sums_registers_constant_and_free_input() {
    let mut c = ASMPILConverter::new();
    c.handle_register_declaration(Some(RegisterFlag::IsAssignment), "X", 0).unwrap();
    let before = c.pil.len();
    c.create_constraints_for_assignment_reg(s("X"));
    let out = lines(&c);
    assert_eq!(
        &out[before..],
        &[
            "pol commit X_const;",
            "pol commit X_read_free;",
            "X = (X_const + (X_read_free * X_free_value));",
        ]
    );
    assert_eq!(
        c.line_lookup,
        vec![(s("X_const"), s("p_X_const")), (s("X_read_free"), s("p_X_read_free"))]
    );
}

#[test]
fn translate_code_lines_fills_tables_in_the_order_of_creation() {
    let mut c = ASMPILConverter::new();
    c.handle_register_declaration(Some(RegisterFlag::IsAssignment), "X", 0).unwrap();
    c.handle_register_declaration(None, "A", 0).unwrap();
    c.create_constraints_for_assignment_reg(s("X"));
    c.handle_assignment(0, vec![s("A")], Some(s("X")), &binary(col("A"), BinaryOperator::Add, num(4)))
        .unwrap();
    let before = c.pil.len();
    c.translate_code_lines().unwrap();
    let out = lines(&c);
    assert_eq!(
        &out[before..],
        &[
            "pol constant line(i) { i };",
            "pol commit X_free_value(i) query (i);",
            "pol constant p_reg_write_X_A = [1] + [0]*;",
            "pol constant p_X_const = [4] + [0]*;",
            "pol constant p_X_read_free = [0] + [0]*;",
            "pol constant p_read_X_A = [1] + [0]*;",
        ]
    );
}

#[test]
fn translate_code_lines_has_one_table_for_a_repeated_column() {
    let mut c = ASMPILConverter::new();
    c.create_witness_fixed_pair(0, &s("flag"));
    c.create_witness_fixed_pair(0, &s("flag"));
    c.handle_label(s("only"));
    let before = c.pil.len();
    c.translate_code_lines().unwrap();
    assert_eq!(
        &lines(&c)[before..],
        &["pol constant line(i) { i };", "pol constant p_flag = [0] + [0]*;"]
    );
}

#[test]
fn literal_arguments_without_instruction_are_rejected() {
    let mut c = ASMPILConverter::new();
    c.code_lines.push(CodeLine {
        write_regs: vec![],
        value: vec![],
        label: None,
        instruction: None,
        instruction_literal_args: vec![None],
    });
    assert_eq!(c.translate_code_lines(), Err(CompileError::Invariant));
}

#[test]
fn free_input_into_an_undeclared_register_is_a_name_error() {
    let mut c = ASMPILConverter::new();
    c.create_witness_fixed_pair(0, &s("X_read_free"));
    let query = Expression::FreeInput(Box::new(num(0)));
    c.handle_assignment(0, vec![], Some(s("X")), &query).unwrap();
    assert_eq!(c.translate_code_lines(), Err(CompileError::Name));
}

#[test]
fn convert_hands_out_the_statements_and_keeps_the_state() {
    let mut c = ASMPILConverter::new();
    let pil = c
        .convert(ASMFile(vec![
            ASMStatement::Degree(0, Number::from_u64(16)),
            ASMStatement::RegisterDeclaration(0, s("A"), None),
        ]))
        .unwrap();
    assert_eq!(pil.0.len(), 7);
    assert_eq!(pil.0[0].format(), "namespace Assembly(16);");
    assert!(c.pil.is_empty());
    assert_eq!(c.degree(), 16);
    assert_eq!(c.registers.len(), 1);
}

#[test]
fn statements_are_handled_one_by_one() {
    let mut c = ASMPILConverter::new();
    assert_eq!(
        c.handle_statement(ASMStatement::Degree(0, Number::from_u64(8))),
        Err(CompileError::Shape)
    );
    c.handle_statement(ASMStatement::RegisterDeclaration(0, s("A"), None)).unwrap();
    c.handle_statement(ASMStatement::Label(0, s("l"))).unwrap();
    c.handle_statement(ASMStatement::InlinePil(
        0,
        vec![Statement::Include(0, s("other.pil"))],
    ))
    .unwrap();
    assert_eq!(
        lines(&c),
        vec!["(first_step * A) = 0;", "pol commit A;", "include \"other.pil\";"]
    );
    assert_eq!(c.code_lines.len(), 1);
    c.finish().unwrap();
    assert_eq!(lines(&c).last().unwrap(), "{  } in {  };");
}

#[test]
fn fixed_lookup_needs_no_identity_and_no_witness() {
    let fixed_data = FixedData { degree: 8, fixed_cols: vec![], witness_cols: vec![] };
    assert!(FixedLookup::try_new(&fixed_data, &vec![], &vec![]).is_some());
    assert_eq!(FixedLookup::try_new(&fixed_data, &vec![], &vec![s("w")]), None);
    let identity = Identity {
        id: 0,
        kind: IdentityKind::Plookup,
        left: SelectedExpressions { selector: None, expressions: vec![col("a")] },
        right: SelectedExpressions { selector: None, expressions: vec![col("b")] },
    };
    assert_eq!(FixedLookup::try_new(&fixed_data, &vec![identity], &vec![]), None);
}

fn declared() -> ASMPILConverter {
    let mut c = ASMPILConverter::new();
    c.set_degree(16).unwrap();
    c.handle_register_declaration(Some(RegisterFlag::IsPC), "pc", 0).unwrap();
    c.handle_register_declaration(Some(RegisterFlag::IsAssignment), "X", 0).unwrap();
    c.handle_register_declaration(None, "A", 0).unwrap();
    c.handle_instruction_def(0, vec![], s("nop"), vec![input_param("a", "X"), label_param("l")])
        .unwrap();
    c.handle_label(s("start"));
    c.handle_assignment(0, vec![s("A")], Some(s("X")), &num(1)).unwrap();
    c
}

#[test]
fn duplicate_of_the_state_is_equal() {
    assert_eq!(declared().duplicate(), declared());
}

#[test]
fn failed_steps_leave_the_state_as_it_was() {
    let before = declared();
    let mut c = declared();
    assert_eq!(c.set_degree(3), Err(CompileError::Shape));
    assert_eq!(c, before);
    assert_eq!(c.handle_register_declaration(None, "A", 0), Err(CompileError::Shape));
    assert_eq!(
        c.handle_register_declaration(Some(RegisterFlag::IsPC), "pc2", 0),
        Err(CompileError::Shape)
    );
    assert_eq!(c, before);
    assert_eq!(
        c.handle_assignment(0, vec![s("A")], None, &num(1)),
        Err(CompileError::Shape)
    );
    assert_eq!(
        c.handle_assignment(0, vec![s("A")], Some(s("X")), &Expression::String(s("x"))),
        Err(CompileError::Shape)
    );
    assert_eq!(c.handle_instruction(s("missing"), vec![]), Err(CompileError::Name));
    assert_eq!(c.handle_instruction(s("nop"), vec![col("A")]), Err(CompileError::Arity));
    assert_eq!(c.handle_instruction(s("nop"), vec![col("A"), num(1)]), Err(CompileError::Arity));
    assert_eq!(
        c.handle_functional_instruction(vec![s("A")], Some(s("X")), s("nop"), vec![col("A")]),
        Err(CompileError::Invariant)
    );
    assert_eq!(c, before);
}

#[test]
fn failed_instruction_definition_leaves_the_state_as_it_was() {
    let before = declared();
    let mut c = declared();
    let body = vec![
        InstructionBodyElement::Expression(binary(col("A"), BinaryOperator::Mul, col("l"))),
        InstructionBodyElement::Expression(binary(
            Expression::PolynomialReference(PolynomialReference {
                namespace: None,
                name: s("A"),
                index: None,
                next: true,
            }),
            BinaryOperator::Sub,
            num(1),
        )),
        InstructionBodyElement::Expression(binary(
            Expression::PolynomialReference(PolynomialReference {
                namespace: None,
                name: s("missing"),
                index: None,
                next: true,
            }),
            BinaryOperator::Sub,
            num(1),
        )),
    ];
    assert_eq!(
        c.handle_instruction_def(0, body, s("bad"), vec![label_param("l")]),
        Err(CompileError::Name)
    );
    assert_eq!(c, before);
    assert_eq!(
        c.handle_instruction_def(0, vec![], s("nop"), vec![]),
        Err(CompileError::Shape)
    );
    assert_eq!(c, before);
}

#[test]
fn failed_translation_and_conversion_leave_the_state_as_it_was() {
    let mut c = declared();
    c.handle_assignment(0, vec![s("missing")], Some(s("X")), &num(1)).unwrap();
    let before = c.duplicate();
    assert_eq!(c.translate_code_lines(), Err(CompileError::Name));
    assert_eq!(c, before);
    assert_eq!(c.finish(), Err(CompileError::Name));
    assert_eq!(c, before);
    assert_eq!(c.convert(ASMFile(vec![])), Err(Diagnostic::new(CompileError::Name, None)));
    assert_eq!(c, before);
    let mut d = declared();
    let start = declared();
    assert_eq!(
        d.convert(ASMFile(vec![
            ASMStatement::RegisterDeclaration(0, s("B"), None),
            ASMStatement::Instruction(9, s("missing"), vec![]),
        ])),
        Err(Diagnostic::new(CompileError::Name, Some(9)))
    );
    assert_eq!(d, start);
    assert_eq!(
        d.convert(ASMFile(vec![ASMStatement::Degree(4, Number::from_u64(3))])),
        Err(Diagnostic::new(CompileError::Shape, Some(4)))
    );
    assert_eq!(d, start);
    assert_eq!(
        d.handle_statement(ASMStatement::Instruction(0, s("missing"), vec![])),
        Err(CompileError::Name)
    );
    assert_eq!(d, start);
}

#[test]
fn second_input_through_one_register_replaces_the_first() {
    let mut c = with_instruction(vec![
        input_param("a", "Z"),
        input_param("b", "Z"),
        output_param("out", "Z"),
    ]);
    c.handle_functional_instruction(vec![s("X")], Some(s("Z")), s("op"), vec![col("A"), col("B")])
        .unwrap();
    let expected = CodeLine {
        write_regs: vec![(s("Z"), vec![s("X")])],
        value: vec![(s("Z"), vec![(n(1), register("B"))])],
        label: None,
        instruction: Some(s("op")),
        instruction_literal_args: vec![None, None, None],
    };
    assert_eq!(c.code_lines, vec![expected]);
    let mut explicit = with_instruction(vec![
        input_param("a", "Z"),
        input_param("b", "Z"),
        output_param("out", "Z"),
    ]);
    explicit.handle_instruction(s("op"), vec![col("A"), col("B"), col("X")]).unwrap();
    assert_eq!(explicit.code_lines, c.code_lines);
}
