//! Filling the tables of the program from the code lines.

use crate::asm_compiler::builder::{build_number, direct_reference, number_view, witness_column};
use crate::asm_compiler::error::{stepped, CompileError};
use crate::asm_compiler::program::{
    free_value_witnesses, free_written, initial_tables, label_position, label_positions,
    line_definition, literal_args, rows_have_length, set_cell, table_definitions, table_values,
    write_all_flags, write_flags, ProgramView,
};
use crate::asm_compiler::state::{ASMPILConverter, AffineExpressionComponent, ConverterView};
use crate::number::Number;
use crate::ordered::{find_key, key_index};
use crate::parser::asm_ast::InstructionParam;
use crate::parser::ast::{
    duplicate_expressions, group_expression_views, lemma_deep_view_push, ArrayExpression,
    Expression, FunctionDefinition, Statement,
};
use crate::text::{
    make_const_name, make_fixed_name, make_free_value_name, make_instruction_flag_name,
    make_param_column_name, make_read_coefficient_name, make_read_free_name, make_write_flag_name,
    same_name,
};
use vstd::prelude::*;
use vstd::string::*;

verus! {

broadcast use group_expression_views;

/// A column of zeroes.
fn zero_column(rows: usize) -> (r: Vec<Number>)
    ensures
        r.deep_view() == Seq::new(rows as nat, |i: int| 0int),
{
    let mut column: Vec<Number> = Vec::new();
    let mut i: usize = 0;
    while i < rows
        invariant
            i <= rows,
            column.len() == i,
            forall|j: int| 0 <= j < i ==> (#[trigger] column[j])@ == 0,
        decreases rows - i,
    {
        column.push(Number::from_u64(0));
        i += 1;
    }
    column
}

/// The row of a label; see [`label_position`].
fn find_label(labels: &Vec<(String, usize)>, label: &String) -> (r: Option<usize>)
    ensures
        r == label_position(labels.deep_view(), label@),
{
    let mut i: usize = labels.len();
    assert(labels.deep_view().take(i as int) =~= labels.deep_view());
    while i > 0
        invariant
            i <= labels.len(),
            label_position(labels.deep_view(), label@) == label_position(
                labels.deep_view().take(i as int),
                label@,
            ),
        decreases i,
    {
        i -= 1;
        let ghost prefix = labels.deep_view().take(i + 1);
        assert(prefix.drop_last() =~= labels.deep_view().take(i as int));
        if same_name(&labels[i].0, label) {
            return Some(labels[i].1);
        }
    }
    None
}

/// Sets one cell of the tables; see [`set_cell`].
fn set_table_cell(
    tables: &mut Vec<(String, Vec<Number>)>,
    name: &String,
    row: usize,
    value: Number,
    rows: usize,
) -> (r: Result<(), CompileError>)
    requires
        rows_have_length(old(tables).deep_view(), rows as int),
        row < rows,
    ensures
        stepped(r, final(tables).deep_view()) == set_cell(
            old(tables).deep_view(),
            name@,
            row as int,
            value@,
        ),
        rows_have_length(final(tables).deep_view(), rows as int),
{
    let k = find_key(tables, name);
    if k < tables.len() {
        let ghost before = tables.deep_view();
        tables[k].1[row] = value;
        proof {
            let after = tables.deep_view();
            let expected = before.update(
                k as int,
                (before[k as int].0, before[k as int].1.update(row as int, value@)),
            );
            assert forall|j: int| 0 <= j < after.len() implies after[j] == expected[j] by {}
            assert(after =~= expected);
        }
        Ok(())
    } else {
        Err(CompileError::Name)
    }
}

/// Sets the write flags of one assignment register; see [`write_flags`].
fn set_write_flags(
    tables: &mut Vec<(String, Vec<Number>)>,
    row: usize,
    assign: &String,
    targets: &Vec<String>,
    rows: usize,
) -> (r: Result<(), CompileError>)
    requires
        rows_have_length(old(tables).deep_view(), rows as int),
        row < rows,
    ensures
        stepped(r, final(tables).deep_view()) == write_flags(
            old(tables).deep_view(),
            row as int,
            assign@,
            targets.deep_view(),
            0,
        ),
        r is Ok ==> rows_have_length(final(tables).deep_view(), rows as int),
{
    let mut i: usize = 0;
    while i < targets.len()
        invariant
            i <= targets.len(),
            row < rows,
            rows_have_length(tables.deep_view(), rows as int),
            write_flags(old(tables).deep_view(), row as int, assign@, targets.deep_view(), 0)
                == write_flags(
                tables.deep_view(),
                row as int,
                assign@,
                targets.deep_view(),
                i as int,
            ),
        decreases targets.len() - i,
    {
        let flag = make_fixed_name(&make_write_flag_name(assign, &targets[i]));
        match set_table_cell(tables, &flag, row, Number::from_u64(1), rows) {
            Err(e) => {
                return Err(e);
            },
            Ok(()) => {},
        }
        i += 1;
    }
    Ok(())
}

/// Sets the write flags of a line; see [`write_all_flags`].
fn set_all_write_flags(
    tables: &mut Vec<(String, Vec<Number>)>,
    row: usize,
    write_regs: &Vec<(String, Vec<String>)>,
    rows: usize,
) -> (r: Result<(), CompileError>)
    requires
        rows_have_length(old(tables).deep_view(), rows as int),
        row < rows,
    ensures
        stepped(r, final(tables).deep_view()) == write_all_flags(
            old(tables).deep_view(),
            row as int,
            write_regs.deep_view(),
            0,
        ),
        r is Ok ==> rows_have_length(final(tables).deep_view(), rows as int),
{
    let mut i: usize = 0;
    while i < write_regs.len()
        invariant
            i <= write_regs.len(),
            row < rows,
            rows_have_length(tables.deep_view(), rows as int),
            write_all_flags(old(tables).deep_view(), row as int, write_regs.deep_view(), 0)
                == write_all_flags(
                tables.deep_view(),
                row as int,
                write_regs.deep_view(),
                i as int,
            ),
        decreases write_regs.len() - i,
    {
        match set_write_flags(tables, row, &write_regs[i].0, &write_regs[i].1, rows) {
            Err(e) => {
                return Err(e);
            },
            Ok(()) => {},
        }
        i += 1;
    }
    Ok(())
}

/// Allows a free input to each assignment register that is written from; see
/// [`free_written`].
fn set_free_written(
    tables: &mut Vec<(String, Vec<Number>)>,
    row: usize,
    write_regs: &Vec<(String, Vec<String>)>,
    rows: usize,
) -> (r: Result<(), CompileError>)
    requires
        rows_have_length(old(tables).deep_view(), rows as int),
        row < rows,
    ensures
        stepped(r, final(tables).deep_view()) == free_written(
            old(tables).deep_view(),
            row as int,
            write_regs.deep_view(),
            0,
        ),
        r is Ok ==> rows_have_length(final(tables).deep_view(), rows as int),
{
    let mut i: usize = 0;
    while i < write_regs.len()
        invariant
            i <= write_regs.len(),
            row < rows,
            rows_have_length(tables.deep_view(), rows as int),
            free_written(old(tables).deep_view(), row as int, write_regs.deep_view(), 0)
                == free_written(
                tables.deep_view(),
                row as int,
                write_regs.deep_view(),
                i as int,
            ),
        decreases write_regs.len() - i,
    {
        if write_regs[i].1.len() > 0 {
            let flag = make_fixed_name(&make_read_free_name(&write_regs[i].0));
            match set_table_cell(tables, &flag, row, Number::from_u64(1), rows) {
                Err(e) => {
                    return Err(e);
                },
                Ok(()) => {},
            }
        }
        i += 1;
    }
    Ok(())
}

/// Sets the label arguments of an instruction; see [`literal_args`].
fn set_literal_args(
    tables: &mut Vec<(String, Vec<Number>)>,
    row: usize,
    instr: &String,
    args: &Vec<Option<String>>,
    params: &Vec<InstructionParam>,
    labels: &Vec<(String, usize)>,
    rows: usize,
) -> (r: Result<(), CompileError>)
    requires
        rows_have_length(old(tables).deep_view(), rows as int),
        row < rows,
    ensures
        stepped(r, final(tables).deep_view()) == literal_args(
            old(tables).deep_view(),
            row as int,
            instr@,
            args.deep_view(),
            params.deep_view(),
            labels.deep_view(),
            0,
        ),
        r is Ok ==> rows_have_length(final(tables).deep_view(), rows as int),
{
    let mut i: usize = 0;
    while i < args.len() && i < params.len()
        invariant
            i <= args.len(),
            i <= params.len(),
            row < rows,
            rows_have_length(tables.deep_view(), rows as int),
            literal_args(
                old(tables).deep_view(),
                row as int,
                instr@,
                args.deep_view(),
                params.deep_view(),
                labels.deep_view(),
                0,
            ) == literal_args(
                tables.deep_view(),
                row as int,
                instr@,
                args.deep_view(),
                params.deep_view(),
                labels.deep_view(),
                i as int,
            ),
        decreases args.len() - i,
    {
        match &args[i] {
            None => {},
            Some(arg) => {
                let position = match find_label(labels, arg) {
                    None => {
                        return Err(CompileError::Name);
                    },
                    Some(p) => p,
                };
                let column = make_fixed_name(&make_param_column_name(instr, &params[i].name));
                match set_table_cell(tables, &column, row, Number::from_usize(position), rows) {
                    Err(e) => {
                        return Err(e);
                    },
                    Ok(()) => {},
                }
            },
        }
        i += 1;
    }
    Ok(())
}

/// The view of tables and queries together.
pub open spec fn program_view(
    tables: Vec<(String, Vec<Number>)>,
    queries: Vec<(String, Vec<Expression>)>,
) -> ProgramView {
    ProgramView { tables: tables.deep_view(), queries: queries.deep_view() }
}

/// Adds an entry to the query of an assignment register; see [`ProgramView::ask`].
fn ask_query(
    queries: &mut Vec<(String, Vec<Expression>)>,
    register: &String,
    query: Expression,
) -> (r: Result<(), CompileError>)
    ensures
        r is Ok <==> key_index(old(queries).deep_view(), register@) < old(queries).len(),
        r is Err ==> r == Err::<(), CompileError>(CompileError::Name),
        r is Ok ==> final(queries).deep_view() == old(queries).deep_view().update(
            key_index(old(queries).deep_view(), register@),
            (
                old(queries).deep_view()[key_index(old(queries).deep_view(), register@)].0,
                old(queries).deep_view()[key_index(old(queries).deep_view(), register@)].1.push(
                    query.deep_view(),
                ),
            ),
        ),
{
    let k = find_key(queries, register);
    if k < queries.len() {
        let ghost entries = queries[k as int].1;
        queries[k].1.push(query);
        proof {
            lemma_deep_view_push(entries, queries[k as int].1, query);
        }
        Ok(())
    } else {
        Err(CompileError::Name)
    }
}

/// Reads one term of a value; see [`ProgramView::read_term`].
fn read_term(
    tables: &mut Vec<(String, Vec<Number>)>,
    queries: &mut Vec<(String, Vec<Expression>)>,
    row: usize,
    assign: &String,
    term: &(Number, AffineExpressionComponent),
    rows: usize,
) -> (r: Result<(), CompileError>)
    requires
        rows_have_length(old(tables).deep_view(), rows as int),
        row < rows,
    ensures
        stepped(r, program_view(*final(tables), *final(queries))) == program_view(
            *old(tables),
            *old(queries),
        ).read_term(row as int, assign@, term.deep_view()),
        r is Ok ==> rows_have_length(final(tables).deep_view(), rows as int),
{
    match &term.1 {
        AffineExpressionComponent::Register(reg) => {
            let column = make_fixed_name(&make_read_coefficient_name(assign, reg));
            set_table_cell(tables, &column, row, term.0.duplicate(), rows)
        },
        AffineExpressionComponent::Constant => {
            let column = make_fixed_name(&make_const_name(assign));
            set_table_cell(tables, &column, row, term.0.duplicate(), rows)
        },
        AffineExpressionComponent::FreeInput(expr) => {
            let column = make_fixed_name(&make_read_free_name(assign));
            match set_table_cell(tables, &column, row, term.0.duplicate(), rows) {
                Err(e) => {
                    return Err(e);
                },
                Ok(()) => {},
            }
            let mut items: Vec<Expression> = Vec::new();
            items.push(build_number(Number::from_usize(row)));
            items.push(expr.duplicate());
            assert(items.deep_view() =~= seq![number_view(row as int), expr.deep_view()]);
            ask_query(queries, assign, Expression::Tuple(items))
        },
    }
}

/// Reads the terms of a value; see [`ProgramView::read_terms`].
fn read_terms(
    tables: &mut Vec<(String, Vec<Number>)>,
    queries: &mut Vec<(String, Vec<Expression>)>,
    row: usize,
    assign: &String,
    terms: &Vec<(Number, AffineExpressionComponent)>,
    rows: usize,
) -> (r: Result<(), CompileError>)
    requires
        rows_have_length(old(tables).deep_view(), rows as int),
        row < rows,
    ensures
        stepped(r, program_view(*final(tables), *final(queries))) == program_view(
            *old(tables),
            *old(queries),
        ).read_terms(row as int, assign@, terms.deep_view(), 0),
        r is Ok ==> rows_have_length(final(tables).deep_view(), rows as int),
{
    let mut i: usize = 0;
    while i < terms.len()
        invariant
            i <= terms.len(),
            row < rows,
            rows_have_length(tables.deep_view(), rows as int),
            program_view(*old(tables), *old(queries)).read_terms(
                row as int,
                assign@,
                terms.deep_view(),
                0,
            ) == program_view(*tables, *queries).read_terms(
                row as int,
                assign@,
                terms.deep_view(),
                i as int,
            ),
        decreases terms.len() - i,
    {
        match read_term(tables, queries, row, assign, &terms[i], rows) {
            Err(e) => {
                return Err(e);
            },
            Ok(()) => {},
        }
        i += 1;
    }
    Ok(())
}

/// Reads the values of a line; see [`ProgramView::read_values`].
fn read_values(
    tables: &mut Vec<(String, Vec<Number>)>,
    queries: &mut Vec<(String, Vec<Expression>)>,
    row: usize,
    value: &Vec<(String, Vec<(Number, AffineExpressionComponent)>)>,
    rows: usize,
) -> (r: Result<(), CompileError>)
    requires
        rows_have_length(old(tables).deep_view(), rows as int),
        row < rows,
    ensures
        stepped(r, program_view(*final(tables), *final(queries))) == program_view(
            *old(tables),
            *old(queries),
        ).read_values(row as int, value.deep_view(), 0),
        r is Ok ==> rows_have_length(final(tables).deep_view(), rows as int),
{
    let mut i: usize = 0;
    while i < value.len()
        invariant
            i <= value.len(),
            row < rows,
            rows_have_length(tables.deep_view(), rows as int),
            program_view(*old(tables), *old(queries)).read_values(
                row as int,
                value.deep_view(),
                0,
            ) == program_view(*tables, *queries).read_values(
                row as int,
                value.deep_view(),
                i as int,
            ),
        decreases value.len() - i,
    {
        match read_terms(tables, queries, row, &value[i].0, &value[i].1, rows) {
            Err(e) => {
                return Err(e);
            },
            Ok(()) => {},
        }
        i += 1;
    }
    Ok(())
}

impl ASMPILConverter {
    /// The rows of the labels; see [`label_positions`].
    pub fn compute_label_positions(&self) -> (r: Vec<(String, usize)>)
        ensures
            r.deep_view() == label_positions(self.deep_view().code_lines),
    {
        let mut positions: Vec<(String, usize)> = Vec::new();
        let ghost lines = self.deep_view().code_lines;
        let mut i: usize = 0;
        while i < self.code_lines.len()
            invariant
                i <= self.code_lines.len(),
                lines == self.code_lines.deep_view(),
                positions.deep_view() == label_positions(lines.take(i as int)),
            decreases self.code_lines.len() - i,
        {
            proof {
                assert(lines.take(i + 1).drop_last() =~= lines.take(i as int));
            }
            match &self.code_lines[i].label {
                Some(label) => {
                    let ghost before = positions;
                    let entry = (label.clone(), i);
                    positions.push(entry);
                    proof {
                        lemma_deep_view_push(before, positions, entry);
                    }
                },
                None => {},
            }
            i += 1;
        }
        assert(lines.take(i as int) =~= lines);
        positions
    }

    /// The tables before any code line; see [`initial_tables`].
    fn initial_tables(&self) -> (r: Vec<(String, Vec<Number>)>)
        ensures
            r.deep_view() == initial_tables(
                self.deep_view().program_constant_names,
                self.deep_view().code_lines.len(),
            ),
            rows_have_length(r.deep_view(), self.code_lines.len() as int),
    {
        let rows = self.code_lines.len();
        let ghost names = self.deep_view().program_constant_names;
        let mut tables: Vec<(String, Vec<Number>)> = Vec::new();
        let mut i: usize = 0;
        while i < self.program_constant_names.len()
            invariant
                i <= self.program_constant_names.len(),
                rows == self.code_lines.len(),
                names == self.program_constant_names.deep_view(),
                tables.deep_view() == initial_tables(names.take(i as int), rows as nat),
                rows_have_length(tables.deep_view(), rows as int),
            decreases self.program_constant_names.len() - i,
        {
            proof {
                assert(names.take(i + 1).drop_last() =~= names.take(i as int));
            }
            let name = &self.program_constant_names[i];
            if find_key(&tables, name) >= tables.len() {
                let ghost before = tables;
                let column = (name.clone(), zero_column(rows));
                tables.push(column);
                proof {
                    lemma_deep_view_push(before, tables, column);
                }
            }
            i += 1;
        }
        assert(names.take(i as int) =~= names);
        tables
    }

    /// The entries with which every query starts; see [`ConverterView::query_header`].
    fn query_header(&self) -> (r: Vec<Expression>)
        ensures
            r.deep_view() == self.deep_view().query_header(),
    {
        let mut header: Vec<Expression> = Vec::new();
        header.push(direct_reference("i"));
        match &self.pc_name {
            Some(pc) => {
                header.push(direct_reference(pc.as_str()));
            },
            None => {},
        }
        header
    }

    /// The queries before any code line; see [`ConverterView::initial_queries`].
    fn initial_queries(&self) -> (r: Vec<(String, Vec<Expression>)>)
        ensures
            r.deep_view() == self.deep_view().initial_queries(),
    {
        let registers = self.assignment_registers();
        let mut queries: Vec<(String, Vec<Expression>)> = Vec::new();
        let mut i: usize = 0;
        while i < registers.len()
            invariant
                i <= registers.len(),
                registers.deep_view() == self.deep_view().assignment_registers(),
                queries.len() == i,
                forall|k: int|
                    0 <= k < i ==> (#[trigger] queries[k]).deep_view() == (
                        registers[k]@,
                        self.deep_view().query_header(),
                    ),
            decreases registers.len() - i,
        {
            queries.push((registers[i].clone(), self.query_header()));
            i += 1;
        }
        queries
    }

    /// Handles the instruction of a line; see [`ProgramView::run_instruction`].
    fn run_instruction(
        &self,
        tables: &mut Vec<(String, Vec<Number>)>,
        queries: &Vec<(String, Vec<Expression>)>,
        labels: &Vec<(String, usize)>,
        row: usize,
        instr: &String,
    ) -> (r: Result<(), CompileError>)
        requires
            row < self.code_lines.len(),
            rows_have_length(old(tables).deep_view(), self.code_lines.len() as int),
        ensures
            stepped(r, program_view(*final(tables), *queries)) == program_view(
                *old(tables),
                *queries,
            ).run_instruction(self.deep_view(), labels.deep_view(), row as int, instr@),
            r is Ok ==> rows_have_length(final(tables).deep_view(), self.code_lines.len() as int),
    {
        let rows = self.code_lines.len();
        let line = &self.code_lines[row];
        match set_free_written(tables, row, &line.write_regs, rows) {
            Err(e) => {
                return Err(e);
            },
            Ok(()) => {},
        }
        let flag = make_fixed_name(&make_instruction_flag_name(instr));
        match set_table_cell(tables, &flag, row, Number::from_u64(1), rows) {
            Err(e) => {
                return Err(e);
            },
            Ok(()) => {},
        }
        let k = find_key(&self.instructions, instr);
        if k >= self.instructions.len() {
            return Err(CompileError::Name);
        }
        set_literal_args(
            tables,
            row,
            instr,
            &line.instruction_literal_args,
            &self.instructions[k].1.params,
            labels,
            rows,
        )
    }

    /// Translates one code line; see [`ProgramView::translate_line`].
    fn translate_line(
        &self,
        tables: &mut Vec<(String, Vec<Number>)>,
        queries: &mut Vec<(String, Vec<Expression>)>,
        labels: &Vec<(String, usize)>,
        row: usize,
    ) -> (r: Result<(), CompileError>)
        requires
            row < self.code_lines.len(),
            rows_have_length(old(tables).deep_view(), self.code_lines.len() as int),
        ensures
            stepped(r, program_view(*final(tables), *final(queries))) == program_view(
                *old(tables),
                *old(queries),
            ).translate_line(self.deep_view(), labels.deep_view(), row as int),
            r is Ok ==> rows_have_length(final(tables).deep_view(), self.code_lines.len() as int),
    {
        let rows = self.code_lines.len();
        let line = &self.code_lines[row];
        match set_all_write_flags(tables, row, &line.write_regs, rows) {
            Err(e) => {
                return Err(e);
            },
            Ok(()) => {},
        }
        match read_values(tables, queries, row, &line.value, rows) {
            Err(e) => {
                return Err(e);
            },
            Ok(()) => {},
        }
        match &line.instruction {
            Some(instr) => {
                self.run_instruction(tables, queries, labels, row, instr)
            },
            None => {
                if line.instruction_literal_args.len() == 0 {
                    Ok(())
                } else {
                    Err(CompileError::Invariant)
                }
            },
        }
    }

    /// Translates the code lines to fixed column but also fills
    /// the query hints for the free inputs.
    pub fn translate_code_lines(&mut self) -> (r: Result<(), CompileError>)
        ensures
            stepped(r, final(self).deep_view()) == old(self).deep_view().translate_code_lines(),
            old(self).deep_view().wf() && r is Ok ==> final(self).deep_view().wf(),
            r is Err ==> final(self).deep_view() == old(self).deep_view(),
    {
        let ghost before = self.deep_view();
        let rows = self.code_lines.len();
        let mut tables = self.initial_tables();
        let mut queries = self.initial_queries();
        let labels = self.compute_label_positions();
        let mut i: usize = 0;
        while i < rows
            invariant
                i <= rows,
                rows == self.code_lines.len(),
                self.deep_view() == before,
                before == old(self).deep_view(),
                labels.deep_view() == label_positions(before.code_lines),
                rows_have_length(tables.deep_view(), rows as int),
                before.program() == program_view(tables, queries).translate_lines(
                    before,
                    labels.deep_view(),
                    i as int,
                ),
            decreases rows - i,
        {
            match self.translate_line(&mut tables, &mut queries, &labels, i) {
                Err(e) => {
                    return Err(e);
                },
                Ok(()) => {},
            }
            i += 1;
        }
        let ghost program = program_view(tables, queries);
        let mut parameters: Vec<String> = Vec::new();
        parameters.push(String::from_str("i"));
        assert(parameters.deep_view() =~= seq!["i"@]);
        self.emit(
            Statement::PolynomialConstantDefinition(
                0,
                String::from_str("line"),
                FunctionDefinition::Mapping(parameters, direct_reference("i")),
            ),
        );
        let ghost lined = before.pil.push(line_definition());
        let ghost witnesses = free_value_witnesses(program.queries);
        let ghost definitions = table_definitions(program.tables);
        let mut q: usize = 0;
        while q < queries.len()
            invariant
                q <= queries.len(),
                program == program_view(tables, queries),
                witnesses == free_value_witnesses(program.queries),
                self.deep_view() == (ConverterView {
                    pil: lined + witnesses.take(q as int),
                    ..before
                }),
            decreases queries.len() - q,
        {
            let mut parameters: Vec<String> = Vec::new();
            parameters.push(String::from_str("i"));
            assert(parameters.deep_view() =~= seq!["i"@]);
            let statement = witness_column(
                0,
                make_free_value_name(&queries[q].0),
                Some(
                    FunctionDefinition::Query(
                        parameters,
                        Expression::Tuple(duplicate_expressions(&queries[q].1)),
                    ),
                ),
            );
            self.emit(statement);
            assert(lined + witnesses.take(q + 1) =~= (lined + witnesses.take(q as int)).push(
                witnesses[q as int],
            ));
            q += 1;
        }
        assert(witnesses.take(q as int) =~= witnesses);
        let mut t: usize = 0;
        while t < tables.len()
            invariant
                t <= tables.len(),
                program == program_view(tables, queries),
                definitions == table_definitions(program.tables),
                self.deep_view() == (ConverterView {
                    pil: lined + witnesses + definitions.take(t as int),
                    ..before
                }),
            decreases tables.len() - t,
        {
            let column = &tables[t].1;
            let mut values: Vec<Expression> = Vec::new();
            let mut j: usize = 0;
            while j < column.len()
                invariant
                    j <= column.len(),
                    values.len() == j,
                    forall|k: int|
                        0 <= k < j ==> (#[trigger] values[k]).deep_view() == number_view(
                            column[k]@,
                        ),
                decreases column.len() - j,
            {
                values.push(build_number(column[j].duplicate()));
                j += 1;
            }
            assert(values.deep_view() =~= table_values(program.tables[t as int].1));
            let statement = Statement::PolynomialConstantDefinition(
                0,
                tables[t].0.clone(),
                FunctionDefinition::Array(ArrayExpression::value(values).pad_with_zeroes()),
            );
            self.emit(statement);
            assert(lined + witnesses + definitions.take(t + 1) =~= (lined + witnesses
                + definitions.take(t as int)).push(definitions[t as int]));
            t += 1;
        }
        assert(definitions.take(t as int) =~= definitions);
        Ok(())
    }
}

} // verus!
