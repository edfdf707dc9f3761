//! The program as fixed columns: the tables that hold, row by row, what each code line
//! selects, and the queries that supply its free inputs.

use crate::asm_compiler::builder::{
    add_view, build_add, build_mul, build_sub, direct_reference, direct_reference_view, mul_view,
    number_view, sub_view, sum_view, witness_column_view,
};
use crate::asm_compiler::error::CompileError;
use crate::asm_compiler::laws::lemma_create_constraints_wf;
use crate::asm_compiler::state::{
    lemma_create_pairs_empty, lemma_create_pairs_push, ASMPILConverter,
    AffineExpressionComponentView, CodeLineView, ConverterView,
};
use crate::ordered::{has_key, key_index};
use crate::parser::asm_ast::InstructionParamView;
use crate::parser::ast::{
    group_expression_views, padded_view, Expression, ExpressionView, FunctionDefinitionView,
    Statement, StatementView,
};
use crate::text::{
    const_name, fixed_name, free_value_name, instruction_flag_name, make_const_name,
    make_free_value_name, make_read_coefficient_name, make_read_free_name, param_column_name,
    read_coefficient_name, read_free_name, write_flag_name,
};
use vstd::prelude::*;
use vstd::string::*;

verus! {

broadcast use group_expression_views;

/// The sum of a list with one more term.
pub proof fn lemma_sum_push(terms: Seq<ExpressionView>, term: ExpressionView)
    ensures
        sum_view(terms.push(term)) == if terms.len() == 0 {
            term
        } else {
            add_view(sum_view(terms), term)
        },
{
    assert(terms.push(term).drop_last() =~= terms);
}

/// The sum so far with one more term.
fn add_term(sum: Option<Expression>, term: Expression) -> (r: Expression)
    ensures
        r.deep_view() == match sum {
            None => term.deep_view(),
            Some(s) => add_view(s.deep_view(), term.deep_view()),
        },
{
    match sum {
        None => term,
        Some(s) => build_add(s, term),
    }
}

impl ConverterView {
    /// The names of the coefficients with which the registers are read into `register`.
    pub open spec fn read_coefficient_names(self, register: Seq<char>) -> Seq<Seq<char>> {
        let regs = self.regular_registers();
        Seq::new(regs.len(), |k: int| read_coefficient_name(register, regs[k]))
    }

    /// The products of each register with the coefficient with which it is read.
    pub open spec fn read_terms(self, register: Seq<char>) -> Seq<ExpressionView> {
        let regs = self.regular_registers();
        Seq::new(
            regs.len(),
            |k: int|
                mul_view(
                    direct_reference_view(read_coefficient_name(register, regs[k])),
                    direct_reference_view(regs[k]),
                ),
        )
    }

    /// The identity that makes an assignment register an affine combination of the
    /// registers, a constant and a free input.
    pub open spec fn read_constraint(self, register: Seq<char>) -> StatementView {
        StatementView::PolynomialIdentity(
            0,
            sub_view(
                direct_reference_view(register),
                sum_view(
                    self.read_terms(register).push(
                        direct_reference_view(const_name(register)),
                    ).push(
                        mul_view(
                            direct_reference_view(read_free_name(register)),
                            direct_reference_view(free_value_name(register)),
                        ),
                    ),
                ),
            ),
        )
    }

    /// The state with the columns and the identity by which an assignment register reads
    /// its value.
    pub open spec fn create_constraints_for_assignment_reg(
        self,
        register: Seq<char>,
    ) -> ConverterView {
        self.create_witness_fixed_pair(0, const_name(register)).create_witness_fixed_pair(
            0,
            read_free_name(register),
        ).create_witness_fixed_pairs(0, self.read_coefficient_names(register)).emit(
            self.read_constraint(register),
        )
    }
}

impl ASMPILConverter {
    /// Creates the columns and the identity by which an assignment register reads its
    /// value; see [`ConverterView::create_constraints_for_assignment_reg`].
    pub fn create_constraints_for_assignment_reg(&mut self, register: String)
        ensures
            final(self).deep_view() == old(self).deep_view().create_constraints_for_assignment_reg(
                register@,
            ),
            old(self).deep_view().wf() ==> final(self).deep_view().wf(),
    {
        let ghost before = self.deep_view();
        proof {
            if before.wf() {
                lemma_create_constraints_wf(before, register@);
            }
        }
        let assign_const = make_const_name(&register);
        self.create_witness_fixed_pair(0, &assign_const);
        let read_free = make_read_free_name(&register);
        self.create_witness_fixed_pair(0, &read_free);
        let free_value = make_free_value_name(&register);
        let regular_registers = self.regular_registers();
        let ghost base = self.deep_view();
        let ghost regs = before.regular_registers();
        let ghost names = before.read_coefficient_names(register@);
        let ghost terms = before.read_terms(register@);
        let mut sum: Option<Expression> = None;
        let mut i: usize = 0;
        proof {
            lemma_create_pairs_empty(base, 0);
        }
        while i < regular_registers.len()
            invariant
                i <= regular_registers.len(),
                regular_registers.deep_view() == regs,
                regs == before.regular_registers(),
                names == before.read_coefficient_names(register@),
                terms == before.read_terms(register@),
                self.deep_view() == base.create_witness_fixed_pairs(0, names.take(i as int)),
                i == 0 ==> sum is None,
                i > 0 ==> sum is Some && sum->0.deep_view() == sum_view(terms.take(i as int)),
            decreases regular_registers.len() - i,
        {
            let name = &regular_registers[i];
            let read_coefficient = make_read_coefficient_name(&register, name);
            self.create_witness_fixed_pair(0, &read_coefficient);
            let term = build_mul(
                direct_reference(read_coefficient.as_str()),
                direct_reference(name.as_str()),
            );
            proof {
                assert(names.take(i + 1) =~= names.take(i as int).push(names[i as int]));
                lemma_create_pairs_push(base, 0, names.take(i as int), names[i as int]);
                assert(terms.take(i + 1) =~= terms.take(i as int).push(terms[i as int]));
                lemma_sum_push(terms.take(i as int), terms[i as int]);
            }
            sum = Some(add_term(sum, term));
            i += 1;
        }
        proof {
            assert(names.take(i as int) =~= names);
            assert(terms.take(i as int) =~= terms);
            lemma_sum_push(terms, direct_reference_view(const_name(register@)));
            lemma_sum_push(
                terms.push(direct_reference_view(const_name(register@))),
                mul_view(
                    direct_reference_view(read_free_name(register@)),
                    direct_reference_view(free_value_name(register@)),
                ),
            );
        }
        let with_const = add_term(sum, direct_reference(assign_const.as_str()));
        let constraint = build_add(
            with_const,
            build_mul(direct_reference(read_free.as_str()), direct_reference(free_value.as_str())),
        );
        self.emit(
            Statement::PolynomialIdentity(
                0,
                build_sub(direct_reference(register.as_str()), constraint),
            ),
        );
    }
}

/// The tables of the program: for each program column, in the order of creation, its value
/// in each row.
pub struct ProgramView {
    pub tables: Seq<(Seq<char>, Seq<int>)>,
    /// For each assignment register, in the order of names, the entries of its query.
    pub queries: Seq<(Seq<char>, Seq<ExpressionView>)>,
}

/// Every table has `n` rows.
pub open spec fn rows_have_length(tables: Seq<(Seq<char>, Seq<int>)>, n: int) -> bool {
    forall|k: int| 0 <= k < tables.len() ==> (#[trigger] tables[k]).1.len() == n
}

/// The names without repetition, each where it occurs first.
pub open spec fn distinct_names(names: Seq<Seq<char>>) -> Seq<Seq<char>>
    decreases names.len(),
{
    if names.len() == 0 {
        seq![]
    } else {
        let rest = distinct_names(names.drop_last());
        if rest.contains(names.last()) {
            rest
        } else {
            rest.push(names.last())
        }
    }
}

/// The tables with a zero column of `rows` rows for each of the names, without repetition
/// and in the order in which the names come.
pub open spec fn initial_tables(names: Seq<Seq<char>>, rows: nat) -> Seq<(Seq<char>, Seq<int>)>
    decreases names.len(),
{
    if names.len() == 0 {
        seq![]
    } else {
        let rest = initial_tables(names.drop_last(), rows);
        if has_key(rest, names.last()) {
            rest
        } else {
            rest.push((names.last(), Seq::new(rows, |i: int| 0int)))
        }
    }
}

/// The labels of the code lines with their row, in the order of the rows.
pub open spec fn label_positions(lines: Seq<CodeLineView>) -> Seq<(Seq<char>, usize)>
    decreases lines.len(),
{
    if lines.len() == 0 {
        seq![]
    } else {
        let rest = label_positions(lines.drop_last());
        match lines.last().label {
            Some(label) => rest.push((label, (lines.len() - 1) as usize)),
            None => rest,
        }
    }
}

/// The row of a label: that of the last line that carries it.
pub open spec fn label_position(positions: Seq<(Seq<char>, usize)>, label: Seq<char>) -> Option<
    usize,
>
    decreases positions.len(),
{
    if positions.len() == 0 {
        None
    } else if positions.last().0 == label {
        Some(positions.last().1)
    } else {
        label_position(positions.drop_last(), label)
    }
}

/// The tables with one cell set. The column must exist.
pub open spec fn set_cell(
    tables: Seq<(Seq<char>, Seq<int>)>,
    name: Seq<char>,
    row: int,
    value: int,
) -> Result<Seq<(Seq<char>, Seq<int>)>, CompileError> {
    let k = key_index(tables, name);
    if k < tables.len() {
        Ok(tables.update(k, (tables[k].0, tables[k].1.update(row, value))))
    } else {
        Err(CompileError::Name)
    }
}

/// The tables after `assign` has been flagged to write into each of the `targets` from
/// position `from` on.
pub open spec fn write_flags(
    tables: Seq<(Seq<char>, Seq<int>)>,
    row: int,
    assign: Seq<char>,
    targets: Seq<Seq<char>>,
    from: int,
) -> Result<Seq<(Seq<char>, Seq<int>)>, CompileError>
    decreases targets.len() - from,
{
    if from < 0 || from >= targets.len() {
        Ok(tables)
    } else {
        match set_cell(tables, fixed_name(write_flag_name(assign, targets[from])), row, 1) {
            Err(e) => Err(e),
            Ok(t) => write_flags(t, row, assign, targets, from + 1),
        }
    }
}

/// The tables after the write flags of a line have been set, from entry `from` on.
pub open spec fn write_all_flags(
    tables: Seq<(Seq<char>, Seq<int>)>,
    row: int,
    write_regs: Seq<(Seq<char>, Seq<Seq<char>>)>,
    from: int,
) -> Result<Seq<(Seq<char>, Seq<int>)>, CompileError>
    decreases write_regs.len() - from,
{
    if from < 0 || from >= write_regs.len() {
        Ok(tables)
    } else {
        match write_flags(tables, row, write_regs[from].0, write_regs[from].1, 0) {
            Err(e) => Err(e),
            Ok(t) => write_all_flags(t, row, write_regs, from + 1),
        }
    }
}

/// The tables after each assignment register that an instruction writes from has been
/// allowed a free input, from entry `from` on.
pub open spec fn free_written(
    tables: Seq<(Seq<char>, Seq<int>)>,
    row: int,
    write_regs: Seq<(Seq<char>, Seq<Seq<char>>)>,
    from: int,
) -> Result<Seq<(Seq<char>, Seq<int>)>, CompileError>
    decreases write_regs.len() - from,
{
    if from < 0 || from >= write_regs.len() {
        Ok(tables)
    } else if write_regs[from].1.len() == 0 {
        free_written(tables, row, write_regs, from + 1)
    } else {
        match set_cell(tables, fixed_name(read_free_name(write_regs[from].0)), row, 1) {
            Err(e) => Err(e),
            Ok(t) => free_written(t, row, write_regs, from + 1),
        }
    }
}

/// The tables after the label arguments of an instruction have been set to the rows of
/// their labels, from position `from` on. Arguments beyond the parameters are ignored.
pub open spec fn literal_args(
    tables: Seq<(Seq<char>, Seq<int>)>,
    row: int,
    instr: Seq<char>,
    args: Seq<Option<Seq<char>>>,
    params: Seq<InstructionParamView>,
    labels: Seq<(Seq<char>, usize)>,
    from: int,
) -> Result<Seq<(Seq<char>, Seq<int>)>, CompileError>
    decreases args.len() - from,
{
    if from < 0 || from >= args.len() || from >= params.len() {
        Ok(tables)
    } else {
        match args[from] {
            None => literal_args(tables, row, instr, args, params, labels, from + 1),
            Some(arg) => match label_position(labels, arg) {
                None => Err(CompileError::Name),
                Some(position) => match set_cell(
                    tables,
                    fixed_name(param_column_name(instr, params[from].name)),
                    row,
                    position as int,
                ) {
                    Err(e) => Err(e),
                    Ok(t) => literal_args(t, row, instr, args, params, labels, from + 1),
                },
            },
        }
    }
}

/// An entry that a free input adds to a query: a row, and the expression that gives the
/// input of that row.
pub open spec fn row_entry(row: int, input: ExpressionView) -> ExpressionView {
    ExpressionView::Tuple(seq![number_view(row), input])
}

/// Whether an expression is an entry that a free input adds to a query.
pub open spec fn is_row_entry(entry: ExpressionView) -> bool {
    entry matches ExpressionView::Tuple(items) && items.len() == 2 && items[0] is Number
}

impl ProgramView {
    /// The program with one more entry in the query of an assignment register.
    pub open spec fn ask(self, register: Seq<char>, query: ExpressionView) -> Result<
        ProgramView,
        CompileError,
    > {
        let k = key_index(self.queries, register);
        if k < self.queries.len() {
            Ok(
                ProgramView {
                    queries: self.queries.update(
                        k,
                        (self.queries[k].0, self.queries[k].1.push(query)),
                    ),
                    ..self
                },
            )
        } else {
            Err(CompileError::Name)
        }
    }

    /// The program after one term of a value has been read into `assign`: the coefficient
    /// goes to the column of the register, of the constant, or of the free input, and a
    /// free input adds the row and its expression to the query.
    pub open spec fn read_term(
        self,
        row: int,
        assign: Seq<char>,
        term: (int, AffineExpressionComponentView),
    ) -> Result<ProgramView, CompileError> {
        match term.1 {
            AffineExpressionComponentView::Register(reg) => match set_cell(
                self.tables,
                fixed_name(read_coefficient_name(assign, reg)),
                row,
                term.0,
            ) {
                Err(e) => Err(e),
                Ok(t) => Ok(ProgramView { tables: t, ..self }),
            },
            AffineExpressionComponentView::Constant => match set_cell(
                self.tables,
                fixed_name(const_name(assign)),
                row,
                term.0,
            ) {
                Err(e) => Err(e),
                Ok(t) => Ok(ProgramView { tables: t, ..self }),
            },
            AffineExpressionComponentView::FreeInput(e) => match set_cell(
                self.tables,
                fixed_name(read_free_name(assign)),
                row,
                term.0,
            ) {
                Err(e) => Err(e),
                Ok(t) => ProgramView { tables: t, ..self }.ask(assign, row_entry(row, e)),
            },
        }
    }

    /// The program after the terms of a value, from position `from` on.
    pub open spec fn read_terms(
        self,
        row: int,
        assign: Seq<char>,
        terms: Seq<(int, AffineExpressionComponentView)>,
        from: int,
    ) -> Result<ProgramView, CompileError>
        decreases terms.len() - from,
    {
        if from < 0 || from >= terms.len() {
            Ok(self)
        } else {
            match self.read_term(row, assign, terms[from]) {
                Err(e) => Err(e),
                Ok(p) => p.read_terms(row, assign, terms, from + 1),
            }
        }
    }

    /// The program after the values of a line, from entry `from` on.
    pub open spec fn read_values(
        self,
        row: int,
        value: Seq<(Seq<char>, Seq<(int, AffineExpressionComponentView)>)>,
        from: int,
    ) -> Result<ProgramView, CompileError>
        decreases value.len() - from,
    {
        if from < 0 || from >= value.len() {
            Ok(self)
        } else {
            match self.read_terms(row, value[from].0, value[from].1, 0) {
                Err(e) => Err(e),
                Ok(p) => p.read_values(row, value, from + 1),
            }
        }
    }

    /// The program after the instruction of a line: the assignment registers that it
    /// writes from may take a free input, its flag is set, and its label arguments are
    /// set to the rows of their labels.
    pub open spec fn run_instruction(
        self,
        s: ConverterView,
        labels: Seq<(Seq<char>, usize)>,
        row: int,
        instr: Seq<char>,
    ) -> Result<ProgramView, CompileError> {
        let line = s.code_lines[row];
        match free_written(self.tables, row, line.write_regs, 0) {
            Err(e) => Err(e),
            Ok(t) => match set_cell(t, fixed_name(instruction_flag_name(instr)), row, 1) {
                Err(e) => Err(e),
                Ok(t) => {
                    let k = key_index(s.instructions, instr);
                    if k >= s.instructions.len() {
                        Err(CompileError::Name)
                    } else {
                        match literal_args(
                            t,
                            row,
                            instr,
                            line.instruction_literal_args,
                            s.instructions[k].1.params,
                            labels,
                            0,
                        ) {
                            Err(e) => Err(e),
                            Ok(t) => Ok(ProgramView { tables: t, ..self }),
                        }
                    }
                },
            },
        }
    }

    /// The program after one code line: its write flags, the values it reads, and its
    /// instruction. A line without instruction has no label arguments.
    pub open spec fn translate_line(
        self,
        s: ConverterView,
        labels: Seq<(Seq<char>, usize)>,
        row: int,
    ) -> Result<ProgramView, CompileError> {
        let line = s.code_lines[row];
        match write_all_flags(self.tables, row, line.write_regs, 0) {
            Err(e) => Err(e),
            Ok(t) => match (ProgramView { tables: t, ..self }).read_values(row, line.value, 0) {
                Err(e) => Err(e),
                Ok(p) => match line.instruction {
                    Some(instr) => p.run_instruction(s, labels, row, instr),
                    None => if line.instruction_literal_args.len() == 0 {
                        Ok(p)
                    } else {
                        Err(CompileError::Invariant)
                    },
                },
            },
        }
    }

    /// The program after the code lines from row `from` on.
    pub open spec fn translate_lines(
        self,
        s: ConverterView,
        labels: Seq<(Seq<char>, usize)>,
        from: int,
    ) -> Result<ProgramView, CompileError>
        decreases s.code_lines.len() - from,
    {
        if from < 0 || from >= s.code_lines.len() {
            Ok(self)
        } else {
            match self.translate_line(s, labels, from) {
                Err(e) => Err(e),
                Ok(p) => p.translate_lines(s, labels, from + 1),
            }
        }
    }
}

/// The definition of the column that numbers the rows.
pub open spec fn line_definition() -> StatementView {
    StatementView::PolynomialConstantDefinition(
        0,
        "line"@,
        FunctionDefinitionView::Mapping(seq!["i"@], direct_reference_view("i"@)),
    )
}

/// The witness that supplies the free inputs of an assignment register, with its query.
pub open spec fn free_value_witness(entry: (Seq<char>, Seq<ExpressionView>)) -> StatementView {
    witness_column_view(
        0,
        free_value_name(entry.0),
        Some(FunctionDefinitionView::Query(seq!["i"@], ExpressionView::Tuple(entry.1))),
    )
}

/// The values of a column as number literals.
pub open spec fn table_values(column: Seq<int>) -> Seq<ExpressionView> {
    Seq::new(column.len(), |i: int| number_view(column[i]))
}

/// The definition of a program column: its values row by row, then zeroes.
pub open spec fn table_definition(entry: (Seq<char>, Seq<int>)) -> StatementView {
    StatementView::PolynomialConstantDefinition(
        0,
        entry.0,
        FunctionDefinitionView::Array(padded_view(table_values(entry.1))),
    )
}

/// The free-input witnesses of the assignment registers, in order.
pub open spec fn free_value_witnesses(queries: Seq<(Seq<char>, Seq<ExpressionView>)>) -> Seq<
    StatementView,
> {
    Seq::new(queries.len(), |k: int| free_value_witness(queries[k]))
}

/// The definitions of the program columns, in the order in which the columns were created.
pub open spec fn table_definitions(tables: Seq<(Seq<char>, Seq<int>)>) -> Seq<StatementView> {
    Seq::new(tables.len(), |k: int| table_definition(tables[k]))
}

impl ConverterView {
    /// The entries with which every query starts: the row and, if there is one, the
    /// program counter.
    pub open spec fn query_header(self) -> Seq<ExpressionView> {
        match self.pc_name {
            Some(pc) => seq![direct_reference_view("i"@), direct_reference_view(pc)],
            None => seq![direct_reference_view("i"@)],
        }
    }

    /// The queries before any code line: one for each assignment register.
    pub open spec fn initial_queries(self) -> Seq<(Seq<char>, Seq<ExpressionView>)> {
        let assign = self.assignment_registers();
        Seq::new(assign.len(), |k: int| (assign[k], self.query_header()))
    }

    /// The program before any code line.
    pub open spec fn initial_program(self) -> ProgramView {
        ProgramView {
            tables: initial_tables(self.program_constant_names, self.code_lines.len()),
            queries: self.initial_queries(),
        }
    }

    /// The program that the code lines select.
    pub open spec fn program(self) -> Result<ProgramView, CompileError> {
        self.initial_program().translate_lines(self, label_positions(self.code_lines), 0)
    }

    /// The state with the program: the column `line`, the free-input witness of each
    /// assignment register, and the program columns in the order in which they were
    /// created.
    pub open spec fn translate_code_lines(self) -> Result<ConverterView, CompileError> {
        match self.program() {
            Err(e) => Err(e),
            Ok(p) => Ok(
                ConverterView {
                    pil: self.pil.push(line_definition()) + free_value_witnesses(p.queries)
                        + table_definitions(p.tables),
                    ..self
                },
            ),
        }
    }
}

} // verus!
