//! What holds of every compilation.

use crate::asm_compiler::{first_statement, requested_degree};
use crate::asm_compiler::builder::{direct_reference_view, extract_update_view, substitute_view};
use crate::asm_compiler::code_lines::lemma_bind_arguments_count;
use crate::asm_compiler::declarations::{first_row_identity, literal_columns, literal_substitution};
use crate::asm_compiler::state::{
    lemma_create_pairs_empty, lemma_create_pairs_push, program_columns, CodeLineView, ConverterView,
    InstructionView, RegisterView,
};
use crate::ordered::{
    key_index, key_is, key_not_before, lemma_first_index, lemma_insert_entry_keeps,
    lemma_insert_entry_sorted,
};
use crate::parser::asm_ast::{
    ASMStatementView, InstructionBodyElementView, InstructionParamView, RegisterFlag,
};
use crate::parser::ast::ExpressionView;
use crate::text::{const_name, fixed_name, instruction_flag_name, read_free_name};
use vstd::prelude::*;

verus! {

/// No program column is called `line`.
pub proof fn lemma_fixed_name_is_not_line(name: Seq<char>)
    ensures
        fixed_name(name) != "line"@,
{
    reveal_strlit("p_");
    reveal_strlit("line");
    assert("line"@[0] == 'l');
}

/// The program columns of a lookup with one more pair of a witness and its program column.
pub proof fn lemma_program_columns_push(
    line_lookup: Seq<(Seq<char>, Seq<char>)>,
    pair: (Seq<char>, Seq<char>),
)
    ensures
        program_columns(line_lookup.push(pair)) == if pair.1 == "line"@ {
            program_columns(line_lookup)
        } else {
            program_columns(line_lookup).push(pair.1)
        },
{
    assert(line_lookup.push(pair).drop_last() =~= line_lookup);
}

/// A new pair of witness and program column keeps the state well formed.
pub proof fn lemma_create_pair_wf(s: ConverterView, start: usize, name: Seq<char>)
    requires
        s.wf(),
    ensures
        s.create_witness_fixed_pair(start, name).wf(),
{
    lemma_fixed_name_is_not_line(name);
    lemma_program_columns_push(s.line_lookup, (name, fixed_name(name)));
}

/// New pairs of witness and program column keep the state well formed.
pub proof fn lemma_create_pairs_wf(s: ConverterView, start: usize, names: Seq<Seq<char>>)
    requires
        s.wf(),
    ensures
        s.create_witness_fixed_pairs(start, names).wf(),
    decreases names.len(),
{
    if names.len() == 0 {
        lemma_create_pairs_empty(s, start);
    } else {
        let rest = names.drop_last();
        assert(names =~= rest.push(names.last()));
        lemma_create_pairs_wf(s, start, rest);
        lemma_create_pairs_push(s, start, rest, names.last());
        lemma_create_pair_wf(s.create_witness_fixed_pairs(start, rest), start, names.last());
    }
}

/// Declaring a register keeps the state well formed.
pub proof fn lemma_declare_register_wf(
    s: ConverterView,
    start: usize,
    name: Seq<char>,
    flag: Option<RegisterFlag>,
)
    requires
        s.wf(),
        s.declare_register(start, name, flag) is Ok,
    ensures
        s.declare_register(start, name, flag)->Ok_0.wf(),
{
    lemma_insert_entry_sorted(s.registers, name, s.new_register(name, flag));
    lemma_first_index(s.registers, key_not_before::<RegisterView>(name));
    match flag {
        Some(RegisterFlag::IsPC) => {
            lemma_program_columns_push(s.line_lookup, (name, "line"@));
        },
        Some(RegisterFlag::IsAssignment) => {},
        None => {
            lemma_create_pairs_wf(
                s.emit(first_row_identity(start, name)),
                start,
                s.write_flag_names(name),
            );
        },
    }
}

/// A new conditioned update keeps the state well formed.
pub proof fn lemma_add_conditioned_update_wf(
    s: ConverterView,
    register: Seq<char>,
    condition: ExpressionView,
    value: ExpressionView,
)
    requires
        s.wf(),
        s.add_conditioned_update(register, condition, value) is Ok,
    ensures
        s.add_conditioned_update(register, condition, value)->Ok_0.wf(),
{
    lemma_first_index(s.registers, key_is::<RegisterView>(register));
}

/// An element of an instruction's body keeps the state well formed.
pub proof fn lemma_body_element_wf(
    s: ConverterView,
    start: usize,
    flag: Seq<char>,
    substitution: Seq<(Seq<char>, Seq<char>)>,
    element: InstructionBodyElementView,
)
    requires
        s.wf(),
        s.body_element(start, flag, substitution, element) is Ok,
    ensures
        s.body_element(start, flag, substitution, element)->Ok_0.wf(),
{
    match element {
        InstructionBodyElementView::Expression(e) => {
            match extract_update_view(
                substitute_view(e, substitution),
            ) {
                Ok((Some(register), value)) => {
                    lemma_add_conditioned_update_wf(
                        s,
                        register,
                        direct_reference_view(flag),
                        value,
                    );
                },
                _ => {},
            }
        },
        _ => {},
    }
}

/// The body of an instruction keeps the state well formed.
pub proof fn lemma_body_elements_wf(
    s: ConverterView,
    start: usize,
    flag: Seq<char>,
    substitution: Seq<(Seq<char>, Seq<char>)>,
    body: Seq<InstructionBodyElementView>,
)
    requires
        s.wf(),
        s.body_elements(start, flag, substitution, body) is Ok,
    ensures
        s.body_elements(start, flag, substitution, body)->Ok_0.wf(),
    decreases body.len(),
{
    if body.len() > 0 {
        lemma_body_elements_wf(s, start, flag, substitution, body.drop_last());
        lemma_body_element_wf(
            s.body_elements(start, flag, substitution, body.drop_last())->Ok_0,
            start,
            flag,
            substitution,
            body.last(),
        );
    }
}

/// The body of an instruction declares no instruction.
pub proof fn lemma_body_elements_instructions(
    s: ConverterView,
    start: usize,
    flag: Seq<char>,
    substitution: Seq<(Seq<char>, Seq<char>)>,
    body: Seq<InstructionBodyElementView>,
)
    requires
        s.body_elements(start, flag, substitution, body) is Ok,
    ensures
        s.body_elements(start, flag, substitution, body)->Ok_0.instructions == s.instructions,
    decreases body.len(),
{
    if body.len() > 0 {
        lemma_body_elements_instructions(s, start, flag, substitution, body.drop_last());
    }
}

/// The body of an instruction adds no code line.
pub proof fn lemma_body_elements_code_lines(
    s: ConverterView,
    start: usize,
    flag: Seq<char>,
    substitution: Seq<(Seq<char>, Seq<char>)>,
    body: Seq<InstructionBodyElementView>,
)
    requires
        s.body_elements(start, flag, substitution, body) is Ok,
    ensures
        s.body_elements(start, flag, substitution, body)->Ok_0.code_lines == s.code_lines,
    decreases body.len(),
{
    if body.len() > 0 {
        lemma_body_elements_code_lines(s, start, flag, substitution, body.drop_last());
    }
}

/// Declaring an instruction keeps the state well formed.
pub proof fn lemma_define_instruction_wf(
    s: ConverterView,
    start: usize,
    name: Seq<char>,
    params: Seq<InstructionParamView>,
    body: Seq<InstructionBodyElementView>,
)
    requires
        s.wf(),
        s.define_instruction(start, name, params, body) is Ok,
    ensures
        s.define_instruction(start, name, params, body)->Ok_0.wf(),
{
    let flag = instruction_flag_name(name);
    let columns = literal_columns(name, params);
    let substitution = literal_substitution(name, params);
    let flagged = s.create_witness_fixed_pair(start, flag);
    lemma_create_pair_wf(s, start, flag);
    let prepared = flagged.create_witness_fixed_pairs(start, columns);
    lemma_create_pairs_wf(flagged, start, columns);
    lemma_body_elements_wf(prepared, start, flag, substitution, body);
    lemma_body_elements_instructions(prepared, start, flag, substitution, body);
    let t = prepared.body_elements(start, flag, substitution, body)->Ok_0;
    lemma_insert_entry_sorted(t.instructions, name, InstructionView { params });
    let defined = s.define_instruction(start, name, params, body)->Ok_0;
    lemma_body_elements_code_lines(prepared, start, flag, substitution, body);
    assert forall|i: int| 0 <= i < defined.code_lines.len() implies defined.line_matches(
        #[trigger] defined.code_lines[i],
    ) by {
        match s.code_lines[i].instruction {
            Some(other) => {
                lemma_insert_entry_keeps(t.instructions, name, InstructionView { params }, other);
            },
            None => {},
        }
    }
}

/// A statement of the source keeps the state well formed.
pub proof fn lemma_statement_wf(s: ConverterView, statement: ASMStatementView)
    requires
        s.wf(),
        s.statement(statement) is Ok,
    ensures
        s.statement(statement)->Ok_0.wf(),
{
    match statement {
        ASMStatementView::RegisterDeclaration(start, name, flags) => {
            lemma_declare_register_wf(s, start, name, flags);
        },
        ASMStatementView::InstructionDeclaration(start, name, params, body) => {
            lemma_define_instruction_wf(s, start, name, params, body);
        },
        ASMStatementView::Assignment(_, write_regs, assign_reg, value) => match value {
            ExpressionView::FunctionCall(function, args) => {
                lemma_instruction_call_wf(
                    s,
                    function,
                    args.push(direct_reference_view(write_regs[0])),
                );
            },
            _ => {
                lemma_push_line_wf(
                    s,
                    s.assignment(write_regs, assign_reg, value)->Ok_0.code_lines.last(),
                );
            },
        },
        ASMStatementView::Instruction(_, name, args) => {
            lemma_instruction_call_wf(s, name, args);
        },
        ASMStatementView::Label(_, name) => {
            lemma_push_line_wf(s, s.label(name).code_lines.last());
        },
        _ => {},
    }
}

/// A code line that matches its instruction keeps the state well formed.
pub proof fn lemma_push_line_wf(s: ConverterView, line: CodeLineView)
    requires
        s.wf(),
        s.line_matches(line),
    ensures
        s.push_line(line).wf(),
{
}

/// A call of an instruction keeps the state well formed.
pub proof fn lemma_instruction_call_wf(s: ConverterView, name: Seq<char>, args: Seq<ExpressionView>)
    requires
        s.wf(),
        s.instruction_call(name, args) is Ok,
    ensures
        s.instruction_call(name, args)->Ok_0.wf(),
{
    let params = s.instructions[key_index(s.instructions, name)].1.params;
    lemma_bind_arguments_count(params, args, args.len() as int);
    lemma_push_line_wf(s, s.instruction_call(name, args)->Ok_0.code_lines.last());
}

/// The statements of a source keep the state well formed.
pub proof fn lemma_statements_wf(s: ConverterView, input: Seq<ASMStatementView>, from: int)
    requires
        s.wf(),
        s.statements(input, from) is Ok,
    ensures
        s.statements(input, from)->Ok_0.wf(),
    decreases input.len() - from,
{
    if 0 <= from < input.len() {
        lemma_statement_wf(s, input[from]);
        lemma_statements_wf(s.statement(input[from])->Ok_0, input, from + 1);
    }
}

/// The read constraint of an assignment register keeps the state well formed.
pub proof fn lemma_create_constraints_wf(s: ConverterView, register: Seq<char>)
    requires
        s.wf(),
    ensures
        s.create_constraints_for_assignment_reg(register).wf(),
{
    let a = s.create_witness_fixed_pair(0, const_name(register));
    lemma_create_pair_wf(s, 0, const_name(register));
    let b = a.create_witness_fixed_pair(0, read_free_name(register));
    lemma_create_pair_wf(a, 0, read_free_name(register));
    lemma_create_pairs_wf(b, 0, s.read_coefficient_names(register));
}

/// The read constraints keep the state well formed.
pub proof fn lemma_read_constraints_wf(s: ConverterView, registers: Seq<Seq<char>>, from: int)
    requires
        s.wf(),
    ensures
        s.read_constraints(registers, from).wf(),
    decreases registers.len() - from,
{
    if 0 <= from < registers.len() {
        lemma_create_constraints_wf(s, registers[from]);
        lemma_read_constraints_wf(
            s.create_constraints_for_assignment_reg(registers[from]),
            registers,
            from + 1,
        );
    }
}

/// Completing the output keeps the state well formed.
pub proof fn lemma_finish_wf(s: ConverterView)
    requires
        s.wf(),
        s.finish() is Ok,
    ensures
        s.finish()->Ok_0.wf(),
{
    lemma_read_constraints_wf(s, s.assignment_registers(), 0);
}

/// Compiling a source keeps the state well formed: the registers and the instructions are
/// in the order of their names, and the line lookup pairs each witness column `W` with the
/// program column `p_W`, but for the program counter, which it pairs with `line`.
pub proof fn lemma_convert_wf(s: ConverterView, input: Seq<ASMStatementView>)
    requires
        s.wf(),
        s.convert(input) is Ok,
    ensures
        s.convert(input)->Ok_0.wf(),
{
    let degree = requested_degree(input)->Ok_0;
    let sized = s.set_degree(degree)->Ok_0;
    let started = ConverterView { pil: sized.pil + sized.header(), ..sized };
    lemma_statements_wf(started, input, first_statement(input));
    lemma_finish_wf(started.statements(input, first_statement(input))->Ok_0);
}

} // verus!
