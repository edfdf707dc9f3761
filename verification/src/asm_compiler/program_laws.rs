//! What holds of the tables and queries of every program.

use crate::asm_compiler::builder::direct_reference_view;
use crate::asm_compiler::program::{
    distinct_names, free_written, initial_tables, is_row_entry, label_position, label_positions,
    literal_args, row_entry, rows_have_length, set_cell, write_all_flags, write_flags, ProgramView,
};
use crate::asm_compiler::state::{AffineExpressionComponentView, ConverterView};
use crate::ordered::{has_key, key_index, key_is, lemma_first_index, lemma_has_key};
use crate::parser::asm_ast::InstructionParamView;
use crate::parser::ast::ExpressionView;
use crate::text::{
    const_name, fixed_name, instruction_flag_name, param_column_name, read_coefficient_name,
    read_free_name, write_flag_name,
};
use vstd::prelude::*;

verus! {

/// Two lists of tables have the same columns with the same numbers of rows.
pub open spec fn same_columns(
    a: Seq<(Seq<char>, Seq<int>)>,
    b: Seq<(Seq<char>, Seq<int>)>,
) -> bool {
    &&& a.len() == b.len()
    &&& forall|k: int|
        0 <= k < a.len() ==> (#[trigger] a[k]).0 == b[k].0 && a[k].1.len() == b[k].1.len()
}

/// The second list of queries has the queries of the first, each with its entries and
/// possibly more after them, each of which pairs a row with an input.
pub open spec fn queries_extended(
    a: Seq<(Seq<char>, Seq<ExpressionView>)>,
    b: Seq<(Seq<char>, Seq<ExpressionView>)>,
) -> bool {
    &&& a.len() == b.len()
    &&& forall|k: int|
        0 <= k < a.len() ==> (#[trigger] a[k]).0 == b[k].0 && a[k].1.is_prefix_of(b[k].1)
    &&& forall|k: int, j: int|
        0 <= k < a.len() && a[k].1.len() <= j < b[k].1.len() ==> is_row_entry(
            #[trigger] b[k].1[j],
        )
}

/// The second program has the columns and queries of the first.
pub open spec fn program_extended(a: ProgramView, b: ProgramView) -> bool {
    same_columns(a.tables, b.tables) && queries_extended(a.queries, b.queries)
}

/// Having the same columns is transitive.
pub proof fn lemma_same_columns_transitive(
    a: Seq<(Seq<char>, Seq<int>)>,
    b: Seq<(Seq<char>, Seq<int>)>,
    c: Seq<(Seq<char>, Seq<int>)>,
)
    requires
        same_columns(a, b),
        same_columns(b, c),
    ensures
        same_columns(a, c),
{
}

/// Being extended is transitive.
pub proof fn lemma_program_extended_transitive(a: ProgramView, b: ProgramView, c: ProgramView)
    requires
        program_extended(a, b),
        program_extended(b, c),
    ensures
        program_extended(a, c),
{
    lemma_same_columns_transitive(a.tables, b.tables, c.tables);
    assert forall|k: int, j: int|
        0 <= k < a.queries.len() && a.queries[k].1.len() <= j < c.queries[k].1.len()
        implies is_row_entry(#[trigger] c.queries[k].1[j]) by {
        if j < b.queries[k].1.len() {
            assert(c.queries[k].1[j] == b.queries[k].1[j]);
        }
    }
}

/// Setting a cell keeps the columns and their numbers of rows.
pub proof fn lemma_set_cell_columns(
    tables: Seq<(Seq<char>, Seq<int>)>,
    name: Seq<char>,
    row: int,
    value: int,
    rows: int,
)
    requires
        rows_have_length(tables, rows),
        0 <= row < rows,
        set_cell(tables, name, row, value) is Ok,
    ensures
        same_columns(tables, set_cell(tables, name, row, value)->Ok_0),
        rows_have_length(set_cell(tables, name, row, value)->Ok_0, rows),
{
    lemma_first_index(tables, key_is::<Seq<int>>(name));
}

/// Setting the write flags of an assignment register keeps the columns and their rows.
pub proof fn lemma_write_flags_columns(
    tables: Seq<(Seq<char>, Seq<int>)>,
    row: int,
    assign: Seq<char>,
    targets: Seq<Seq<char>>,
    from: int,
    rows: int,
)
    requires
        rows_have_length(tables, rows),
        0 <= row < rows,
        write_flags(tables, row, assign, targets, from) is Ok,
    ensures
        same_columns(tables, write_flags(tables, row, assign, targets, from)->Ok_0),
        rows_have_length(write_flags(tables, row, assign, targets, from)->Ok_0, rows),
    decreases targets.len() - from,
{
    if 0 <= from < targets.len() {
        let name = fixed_name(write_flag_name(assign, targets[from]));
        lemma_set_cell_columns(tables, name, row, 1, rows);
        let t = set_cell(tables, name, row, 1)->Ok_0;
        lemma_write_flags_columns(t, row, assign, targets, from + 1, rows);
        lemma_same_columns_transitive(
            tables,
            t,
            write_flags(tables, row, assign, targets, from)->Ok_0,
        );
    }
}

/// Setting the write flags of a line keeps the columns and their rows.
pub proof fn lemma_write_all_flags_columns(
    tables: Seq<(Seq<char>, Seq<int>)>,
    row: int,
    write_regs: Seq<(Seq<char>, Seq<Seq<char>>)>,
    from: int,
    rows: int,
)
    requires
        rows_have_length(tables, rows),
        0 <= row < rows,
        write_all_flags(tables, row, write_regs, from) is Ok,
    ensures
        same_columns(tables, write_all_flags(tables, row, write_regs, from)->Ok_0),
        rows_have_length(write_all_flags(tables, row, write_regs, from)->Ok_0, rows),
    decreases write_regs.len() - from,
{
    if 0 <= from < write_regs.len() {
        lemma_write_flags_columns(tables, row, write_regs[from].0, write_regs[from].1, 0, rows);
        let t = write_flags(tables, row, write_regs[from].0, write_regs[from].1, 0)->Ok_0;
        lemma_write_all_flags_columns(t, row, write_regs, from + 1, rows);
        lemma_same_columns_transitive(
            tables,
            t,
            write_all_flags(tables, row, write_regs, from)->Ok_0,
        );
    }
}

/// Allowing free inputs to the written assignment registers keeps the columns and their
/// rows.
pub proof fn lemma_free_written_columns(
    tables: Seq<(Seq<char>, Seq<int>)>,
    row: int,
    write_regs: Seq<(Seq<char>, Seq<Seq<char>>)>,
    from: int,
    rows: int,
)
    requires
        rows_have_length(tables, rows),
        0 <= row < rows,
        free_written(tables, row, write_regs, from) is Ok,
    ensures
        same_columns(tables, free_written(tables, row, write_regs, from)->Ok_0),
        rows_have_length(free_written(tables, row, write_regs, from)->Ok_0, rows),
    decreases write_regs.len() - from,
{
    if 0 <= from < write_regs.len() {
        if write_regs[from].1.len() == 0 {
            lemma_free_written_columns(tables, row, write_regs, from + 1, rows);
        } else {
            let name = fixed_name(read_free_name(write_regs[from].0));
            lemma_set_cell_columns(tables, name, row, 1, rows);
            let t = set_cell(tables, name, row, 1)->Ok_0;
            lemma_free_written_columns(t, row, write_regs, from + 1, rows);
            lemma_same_columns_transitive(
                tables,
                t,
                free_written(tables, row, write_regs, from)->Ok_0,
            );
        }
    }
}

/// Setting the label arguments of an instruction keeps the columns and their rows.
pub proof fn lemma_literal_args_columns(
    tables: Seq<(Seq<char>, Seq<int>)>,
    row: int,
    instr: Seq<char>,
    args: Seq<Option<Seq<char>>>,
    params: Seq<InstructionParamView>,
    labels: Seq<(Seq<char>, usize)>,
    from: int,
    rows: int,
)
    requires
        rows_have_length(tables, rows),
        0 <= row < rows,
        literal_args(tables, row, instr, args, params, labels, from) is Ok,
    ensures
        same_columns(tables, literal_args(tables, row, instr, args, params, labels, from)->Ok_0),
        rows_have_length(
            literal_args(tables, row, instr, args, params, labels, from)->Ok_0,
            rows,
        ),
    decreases args.len() - from,
{
    if 0 <= from < args.len() && from < params.len() {
        match args[from] {
            None => {
                lemma_literal_args_columns(
                    tables,
                    row,
                    instr,
                    args,
                    params,
                    labels,
                    from + 1,
                    rows,
                );
            },
            Some(arg) => {
                let position = label_position(labels, arg)->0;
                let name = fixed_name(
                    param_column_name(instr, params[from].name),
                );
                lemma_set_cell_columns(tables, name, row, position as int, rows);
                let t = set_cell(tables, name, row, position as int)->Ok_0;
                lemma_literal_args_columns(t, row, instr, args, params, labels, from + 1, rows);
                lemma_same_columns_transitive(
                    tables,
                    t,
                    literal_args(tables, row, instr, args, params, labels, from)->Ok_0,
                );
            },
        }
    }
}

/// A new entry of a query keeps the queries and what they held.
pub proof fn lemma_ask_extends(p: ProgramView, register: Seq<char>, query: ExpressionView)
    requires
        p.ask(register, query) is Ok,
        is_row_entry(query),
    ensures
        program_extended(p, p.ask(register, query)->Ok_0),
{
    lemma_first_index(p.queries, key_is::<Seq<ExpressionView>>(register));
}

/// Queries extend themselves.
pub proof fn lemma_unchanged_queries_extended(q: Seq<(Seq<char>, Seq<ExpressionView>)>)
    ensures
        queries_extended(q, q),
{
}

/// Reading a term keeps the columns, their rows and the queries, and only adds to a query.
pub proof fn lemma_read_term_extends(
    p: ProgramView,
    row: int,
    assign: Seq<char>,
    term: (int, AffineExpressionComponentView),
    rows: int,
)
    requires
        rows_have_length(p.tables, rows),
        0 <= row < rows,
        p.read_term(row, assign, term) is Ok,
    ensures
        program_extended(p, p.read_term(row, assign, term)->Ok_0),
        rows_have_length(p.read_term(row, assign, term)->Ok_0.tables, rows),
{
    lemma_unchanged_queries_extended(p.queries);
    match term.1 {
        AffineExpressionComponentView::Register(reg) => {
            lemma_set_cell_columns(
                p.tables,
                fixed_name(read_coefficient_name(assign, reg)),
                row,
                term.0,
                rows,
            );
        },
        AffineExpressionComponentView::Constant => {
            lemma_set_cell_columns(
                p.tables,
                fixed_name(const_name(assign)),
                row,
                term.0,
                rows,
            );
        },
        AffineExpressionComponentView::FreeInput(e) => {
            let name = fixed_name(read_free_name(assign));
            lemma_set_cell_columns(p.tables, name, row, term.0, rows);
            let q = ProgramView { tables: set_cell(p.tables, name, row, term.0)->Ok_0, ..p };
            lemma_ask_extends(
                q,
                assign,
                row_entry(row, e),
            );
        },
    }
}

/// Reading the terms of a value keeps the columns, their rows and the queries.
pub proof fn lemma_read_terms_extends(
    p: ProgramView,
    row: int,
    assign: Seq<char>,
    terms: Seq<(int, AffineExpressionComponentView)>,
    from: int,
    rows: int,
)
    requires
        rows_have_length(p.tables, rows),
        0 <= row < rows,
        p.read_terms(row, assign, terms, from) is Ok,
    ensures
        program_extended(p, p.read_terms(row, assign, terms, from)->Ok_0),
        rows_have_length(p.read_terms(row, assign, terms, from)->Ok_0.tables, rows),
    decreases terms.len() - from,
{
    if 0 <= from < terms.len() {
        lemma_read_term_extends(p, row, assign, terms[from], rows);
        let q = p.read_term(row, assign, terms[from])->Ok_0;
        lemma_read_terms_extends(q, row, assign, terms, from + 1, rows);
        lemma_program_extended_transitive(p, q, p.read_terms(row, assign, terms, from)->Ok_0);
    } else {
        lemma_unchanged_queries_extended(p.queries);
    }
}

/// Reading the values of a line keeps the columns, their rows and the queries.
pub proof fn lemma_read_values_extends(
    p: ProgramView,
    row: int,
    value: Seq<(Seq<char>, Seq<(int, AffineExpressionComponentView)>)>,
    from: int,
    rows: int,
)
    requires
        rows_have_length(p.tables, rows),
        0 <= row < rows,
        p.read_values(row, value, from) is Ok,
    ensures
        program_extended(p, p.read_values(row, value, from)->Ok_0),
        rows_have_length(p.read_values(row, value, from)->Ok_0.tables, rows),
    decreases value.len() - from,
{
    if 0 <= from < value.len() {
        lemma_read_terms_extends(p, row, value[from].0, value[from].1, 0, rows);
        let q = p.read_terms(row, value[from].0, value[from].1, 0)->Ok_0;
        lemma_read_values_extends(q, row, value, from + 1, rows);
        lemma_program_extended_transitive(p, q, p.read_values(row, value, from)->Ok_0);
    } else {
        lemma_unchanged_queries_extended(p.queries);
    }
}

/// The instruction of a line keeps the columns, their rows and the queries.
pub proof fn lemma_run_instruction_extends(
    p: ProgramView,
    s: ConverterView,
    labels: Seq<(Seq<char>, usize)>,
    row: int,
    instr: Seq<char>,
)
    requires
        rows_have_length(p.tables, s.code_lines.len() as int),
        0 <= row < s.code_lines.len(),
        p.run_instruction(s, labels, row, instr) is Ok,
    ensures
        program_extended(p, p.run_instruction(s, labels, row, instr)->Ok_0),
        rows_have_length(
            p.run_instruction(s, labels, row, instr)->Ok_0.tables,
            s.code_lines.len() as int,
        ),
{
    let rows = s.code_lines.len() as int;
    let line = s.code_lines[row];
    lemma_unchanged_queries_extended(p.queries);
    lemma_free_written_columns(p.tables, row, line.write_regs, 0, rows);
    let a = free_written(p.tables, row, line.write_regs, 0)->Ok_0;
    let flag = fixed_name(instruction_flag_name(instr));
    lemma_set_cell_columns(a, flag, row, 1, rows);
    let b = set_cell(a, flag, row, 1)->Ok_0;
    let k = key_index(s.instructions, instr);
    lemma_literal_args_columns(
        b,
        row,
        instr,
        line.instruction_literal_args,
        s.instructions[k].1.params,
        labels,
        0,
        rows,
    );
    let c = literal_args(
        b,
        row,
        instr,
        line.instruction_literal_args,
        s.instructions[k].1.params,
        labels,
        0,
    )->Ok_0;
    lemma_same_columns_transitive(p.tables, a, b);
    lemma_same_columns_transitive(p.tables, b, c);
}

/// Translating a code line keeps the columns, their rows and the queries.
pub proof fn lemma_translate_line_extends(
    p: ProgramView,
    s: ConverterView,
    labels: Seq<(Seq<char>, usize)>,
    row: int,
)
    requires
        rows_have_length(p.tables, s.code_lines.len() as int),
        0 <= row < s.code_lines.len(),
        p.translate_line(s, labels, row) is Ok,
    ensures
        program_extended(p, p.translate_line(s, labels, row)->Ok_0),
        rows_have_length(p.translate_line(s, labels, row)->Ok_0.tables, s.code_lines.len() as int),
{
    let rows = s.code_lines.len() as int;
    let line = s.code_lines[row];
    lemma_unchanged_queries_extended(p.queries);
    lemma_write_all_flags_columns(p.tables, row, line.write_regs, 0, rows);
    let a = ProgramView { tables: write_all_flags(p.tables, row, line.write_regs, 0)->Ok_0, ..p };
    lemma_read_values_extends(a, row, line.value, 0, rows);
    let b = a.read_values(row, line.value, 0)->Ok_0;
    lemma_program_extended_transitive(p, a, b);
    match line.instruction {
        Some(instr) => {
            lemma_run_instruction_extends(b, s, labels, row, instr);
            lemma_program_extended_transitive(
                p,
                b,
                b.run_instruction(s, labels, row, instr)->Ok_0,
            );
        },
        None => {},
    }
}

/// Translating code lines keeps the columns, their numbers of rows and the queries, and
/// only adds entries to the queries.
pub proof fn lemma_translate_lines_extends(
    p: ProgramView,
    s: ConverterView,
    labels: Seq<(Seq<char>, usize)>,
    from: int,
)
    requires
        rows_have_length(p.tables, s.code_lines.len() as int),
        p.translate_lines(s, labels, from) is Ok,
    ensures
        program_extended(p, p.translate_lines(s, labels, from)->Ok_0),
        rows_have_length(
            p.translate_lines(s, labels, from)->Ok_0.tables,
            s.code_lines.len() as int,
        ),
    decreases s.code_lines.len() - from,
{
    if 0 <= from < s.code_lines.len() {
        lemma_translate_line_extends(p, s, labels, from);
        let q = p.translate_line(s, labels, from)->Ok_0;
        lemma_translate_lines_extends(q, s, labels, from + 1);
        lemma_program_extended_transitive(p, q, p.translate_lines(s, labels, from)->Ok_0);
    } else {
        lemma_unchanged_queries_extended(p.queries);
    }
}

/// A name is among the distinct names exactly if it is among the names.
pub proof fn lemma_distinct_names(names: Seq<Seq<char>>)
    ensures
        forall|name: Seq<char>|
            #[trigger] distinct_names(names).contains(name) <==> names.contains(name),
    decreases names.len(),
{
    if names.len() > 0 {
        let before = names.drop_last();
        let rest = distinct_names(before);
        let all = distinct_names(names);
        lemma_distinct_names(before);
        assert forall|name: Seq<char>| #[trigger] all.contains(name) <==> names.contains(
            name,
        ) by {
            if all.contains(name) {
                let i = choose|i: int| 0 <= i < all.len() && all[i] == name;
                if i < rest.len() {
                    assert(rest.contains(name));
                    let j = choose|j: int| 0 <= j < before.len() && before[j] == name;
                }
            }
            if names.contains(name) {
                let j = choose|j: int| 0 <= j < names.len() && names[j] == name;
                if j < names.len() - 1 {
                    assert(before[j] == name);
                }
                if rest.contains(name) {
                    let i = choose|i: int| 0 <= i < rest.len() && rest[i] == name;
                    assert(all[i] == name);
                } else {
                    assert(all[all.len() - 1] == name);
                }
            }
        }
    }
}

/// The tables before any code line: one column of `rows` zeroes for each name, in the
/// order in which the names come first.
pub proof fn lemma_initial_tables(names: Seq<Seq<char>>, rows: nat)
    ensures
        rows_have_length(initial_tables(names, rows), rows as int),
        forall|name: Seq<char>|
            #[trigger] has_key(initial_tables(names, rows), name) <==> names.contains(name),
        initial_tables(names, rows).len() == distinct_names(names).len(),
        forall|k: int|
            0 <= k < distinct_names(names).len() ==> (#[trigger] initial_tables(names, rows)[k]).0
                == distinct_names(names)[k],
    decreases names.len(),
{
    let tables = initial_tables(names, rows);
    if names.len() > 0 {
        let before = names.drop_last();
        let rest = initial_tables(before, rows);
        lemma_initial_tables(before, rows);
        lemma_distinct_names(before);
        let last = names.last();
        assert forall|name: Seq<char>| #[trigger] has_key(tables, name) <==> names.contains(
            name,
        ) by {
            lemma_has_key(tables, name);
            lemma_has_key(rest, name);
            if has_key(tables, name) {
                let i = choose|i: int| 0 <= i < tables.len() && (#[trigger] tables[i]).0 == name;
                if i < rest.len() {
                    let j = choose|j: int| 0 <= j < before.len() && before[j] == name;
                }
            }
            if names.contains(name) {
                let j = choose|j: int| 0 <= j < names.len() && names[j] == name;
                if j < names.len() - 1 {
                    assert(before[j] == name);
                }
                if has_key(rest, name) {
                    let i = choose|i: int| 0 <= i < rest.len() && (#[trigger] rest[i]).0 == name;
                    assert(tables[i].0 == name);
                } else {
                    assert(tables[tables.len() - 1].0 == name);
                }
            }
        }
    }
}

/// Lists with the same keys hold the same keys.
pub proof fn lemma_same_columns_keys(
    a: Seq<(Seq<char>, Seq<int>)>,
    b: Seq<(Seq<char>, Seq<int>)>,
)
    requires
        same_columns(a, b),
    ensures
        forall|name: Seq<char>| has_key(a, name) <==> has_key(b, name),
{
    assert forall|name: Seq<char>| has_key(a, name) <==> has_key(b, name) by {
        lemma_has_key(a, name);
        lemma_has_key(b, name);
        if has_key(a, name) {
            let i = choose|i: int| 0 <= i < a.len() && (#[trigger] a[i]).0 == name;
        }
        if has_key(b, name) {
            let i = choose|i: int| 0 <= i < b.len() && (#[trigger] b[i]).0 == name;
            assert(a[i].0 == name);
        }
    }
}

/// The tables of a program: there is exactly one for each program column, they are in the
/// order in which the columns were created, and each has one row for each code line. The
/// queries of a program: there is one for each assignment register, in order; each starts
/// with the row and, if there is one, the program counter; and every further entry pairs
/// a row with an input.
pub proof fn lemma_program_shape(s: ConverterView)
    requires
        s.program() is Ok,
    ensures
        rows_have_length(s.program()->Ok_0.tables, s.code_lines.len() as int),
        s.program()->Ok_0.tables.len() == distinct_names(s.program_constant_names).len(),
        forall|k: int|
            0 <= k < s.program()->Ok_0.tables.len() ==> (#[trigger] s.program()->Ok_0.tables[k]).0
                == distinct_names(s.program_constant_names)[k],
        forall|name: Seq<char>|
            has_key(s.program()->Ok_0.tables, name) <==> s.program_constant_names.contains(name),
        s.program()->Ok_0.queries.len() == s.assignment_registers().len(),
        forall|k: int|
            0 <= k < s.assignment_registers().len() ==> (#[trigger] s.program()->Ok_0.queries[k]).0
                == s.assignment_registers()[k] && s.query_header().is_prefix_of(
                s.program()->Ok_0.queries[k].1,
            ),
        forall|k: int, j: int|
            0 <= k < s.assignment_registers().len() && s.query_header().len() <= j
                < s.program()->Ok_0.queries[k].1.len() ==> is_row_entry(
                #[trigger] s.program()->Ok_0.queries[k].1[j],
            ),
{
    let start = s.initial_program();
    let end = s.program()->Ok_0;
    lemma_initial_tables(s.program_constant_names, s.code_lines.len());
    lemma_translate_lines_extends(
        start,
        s,
        label_positions(s.code_lines),
        0,
    );
    lemma_same_columns_keys(start.tables, end.tables);
    assert forall|k: int| 0 <= k < end.tables.len() implies (#[trigger] end.tables[k]).0
        == distinct_names(s.program_constant_names)[k] by {
        assert(start.tables[k].0 == end.tables[k].0);
    }
    assert forall|k: int| 0 <= k < s.assignment_registers().len() implies (
    #[trigger] end.queries[k]).0 == s.assignment_registers()[k] && s.query_header().is_prefix_of(
        end.queries[k].1,
    ) by {
        assert(start.queries[k].1.is_prefix_of(end.queries[k].1));
    }
}

/// Without a program counter no query holds an entry for it: every query is the row `i`,
/// followed only by entries that pair a row with an input.
pub proof fn lemma_queries_without_program_counter(s: ConverterView)
    requires
        s.pc_name is None,
        s.program() is Ok,
    ensures
        s.program()->Ok_0.queries.len() == s.assignment_registers().len(),
        forall|k: int|
            0 <= k < s.assignment_registers().len() ==> (
            #[trigger] s.program()->Ok_0.queries[k]).1.len() >= 1
                && s.program()->Ok_0.queries[k].1[0] == direct_reference_view("i"@),
        forall|k: int, j: int|
            0 <= k < s.assignment_registers().len() && 1 <= j
                < s.program()->Ok_0.queries[k].1.len() ==> is_row_entry(
                #[trigger] s.program()->Ok_0.queries[k].1[j],
            ),
{
    lemma_program_shape(s);
    let queries = s.program()->Ok_0.queries;
    assert forall|k: int| 0 <= k < s.assignment_registers().len() implies (
    #[trigger] queries[k]).1.len() >= 1 && queries[k].1[0] == direct_reference_view("i"@) by {
        assert(queries[k].1[0] == s.query_header()[0]);
    }
}

} // verus!
