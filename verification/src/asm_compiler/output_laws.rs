//! What holds of the statements of every compilation.

use crate::asm_compiler::{
    compile_view, first_statement, requested_degree, update_identities, update_identity,
};
use crate::asm_compiler::builder::{
    direct_reference_view, extract_update_view, next_reference_view, number_view, substitute_view,
    witness_column_view,
};
use crate::asm_compiler::declarations::{first_row_identity, literal_columns, literal_substitution};
use crate::asm_compiler::laws::{lemma_convert_wf, lemma_statements_wf};
use crate::asm_compiler::program::{
    distinct_names, free_value_witness, free_value_witnesses, line_definition, table_definitions,
    table_values,
};
use crate::asm_compiler::program_laws::lemma_program_shape;
use crate::asm_compiler::state::{names_with_flag, program_columns, ConverterView, RegisterView};
use crate::ordered::{
    has_key, key_index, key_is, key_not_before, key_position, lemma_first_index,
    lemma_first_index_is, lemma_has_key, lemma_insert_entry_keeps, sorted_by_key,
};
use crate::parser::asm_ast::{ASMStatementView, InstructionBodyElementView, RegisterFlag};
use crate::parser::ast::{
    ArrayExpressionView, BinaryOperator, ExpressionView, FunctionDefinitionView, StatementView,
};
use crate::text::{
    const_name, fixed_name, free_value_name, instruction_flag_name, lemma_name_less_irreflexive,
    name_less, read_free_name,
};
use vstd::prelude::*;

verus! {

/// How many of the statements satisfy `p`.
pub open spec fn count_of(statements: Seq<StatementView>, p: spec_fn(StatementView) -> bool) -> nat
    decreases statements.len(),
{
    if statements.len() == 0 {
        0
    } else {
        count_of(statements.drop_last(), p) + if p(statements.last()) {
            1nat
        } else {
            0nat
        }
    }
}

/// The identities that equate `left` with something: `left - right = 0`.
pub open spec fn identity_of(left: ExpressionView) -> spec_fn(StatementView) -> bool {
    |statement: StatementView|
        match statement {
            StatementView::PolynomialIdentity(
                _,
                ExpressionView::BinaryOperation(l, BinaryOperator::Sub, _),
            ) => *l == left,
            _ => false,
        }
}

/// The statements equal to the given one.
pub open spec fn same_as(statement: StatementView) -> spec_fn(StatementView) -> bool {
    |other: StatementView| other == statement
}

/// Counting is additive over concatenation.
pub proof fn lemma_count_add(
    a: Seq<StatementView>,
    b: Seq<StatementView>,
    p: spec_fn(StatementView) -> bool,
)
    ensures
        count_of(a + b, p) == count_of(a, p) + count_of(b, p),
    decreases b.len(),
{
    if b.len() > 0 {
        assert((a + b).drop_last() =~= a + b.drop_last());
        lemma_count_add(a, b.drop_last(), p);
    }
}

/// Statements of which none satisfies `p` count zero.
pub proof fn lemma_count_none(a: Seq<StatementView>, p: spec_fn(StatementView) -> bool)
    requires
        forall|i: int| 0 <= i < a.len() ==> !p(#[trigger] a[i]),
    ensures
        count_of(a, p) == 0,
    decreases a.len(),
{
    if a.len() > 0 {
        lemma_count_none(a.drop_last(), p);
    }
}

/// A single statement counts one if it satisfies `p`, and zero otherwise.
pub proof fn lemma_count_one(statement: StatementView, p: spec_fn(StatementView) -> bool)
    ensures
        count_of(seq![statement], p) == if p(statement) {
            1nat
        } else {
            0nat
        },
{
    assert(seq![statement].drop_last() =~= Seq::<StatementView>::empty());
    assert(count_of(Seq::<StatementView>::empty(), p) == 0);
}

/// The names of the registers with a given flag are those registers, in the order of
/// their names and without repetition.
pub proof fn lemma_names_with_flag(registers: Seq<(Seq<char>, RegisterView)>, assignment: bool)
    requires
        sorted_by_key(registers),
    ensures
        forall|i: int, j: int|
            0 <= i < j < names_with_flag(registers, assignment).len() ==> name_less(
                #[trigger] names_with_flag(registers, assignment)[i],
                #[trigger] names_with_flag(registers, assignment)[j],
            ),
        forall|j: int|
            0 <= j < names_with_flag(registers, assignment).len() ==> exists|k: int|
                0 <= k < registers.len() && (#[trigger] registers[k]).1.is_assignment == assignment
                    && registers[k].0 == #[trigger] names_with_flag(registers, assignment)[j],
        forall|k: int|
            0 <= k < registers.len() && (#[trigger] registers[k]).1.is_assignment == assignment
                ==> names_with_flag(registers, assignment).contains(registers[k].0),
    decreases registers.len(),
{
    let names = names_with_flag(registers, assignment);
    if registers.len() > 0 {
        let rest = registers.drop_last();
        let before = names_with_flag(rest, assignment);
        lemma_names_with_flag(rest, assignment);
        let last = registers.last();
        assert forall|i: int, j: int| 0 <= i < j < names.len() implies name_less(
            #[trigger] names[i],
            #[trigger] names[j],
        ) by {
            if j >= before.len() {
                let k = choose|k: int|
                    0 <= k < rest.len() && (#[trigger] rest[k]).1.is_assignment == assignment
                        && rest[k].0 == before[i];
            }
        }
        assert forall|k: int|
            0 <= k < registers.len() && (#[trigger] registers[k]).1.is_assignment
                == assignment implies names.contains(registers[k].0) by {
            if k < rest.len() {
                let j = choose|j: int| 0 <= j < before.len() && before[j] == rest[k].0;
                assert(names[j] == before[j]);
            } else {
                assert(names[names.len() - 1] == last.0);
            }
        }
    }
}

/// Names in strictly increasing order are pairwise different.
pub proof fn lemma_increasing_names_differ(names: Seq<Seq<char>>, i: int, j: int)
    requires
        forall|a: int, b: int|
            0 <= a < b < names.len() ==> name_less(#[trigger] names[a], #[trigger] names[b]),
        0 <= i < names.len(),
        0 <= j < names.len(),
        i != j,
    ensures
        names[i] != names[j],
{
    lemma_name_less_irreflexive(names[i]);
}

/// Among the update identities there is exactly one for each register that has an update,
/// and none for any other register.
pub proof fn lemma_one_update_identity(registers: Seq<(Seq<char>, RegisterView)>, k: int)
    requires
        sorted_by_key(registers),
        0 <= k < registers.len(),
    ensures
        count_of(
            update_identities(registers),
            identity_of(next_reference_view(registers[k].0)),
        ) == if registers[k].1.update_expression() is Some {
            1nat
        } else {
            0nat
        },
        registers[k].1.update_expression() is Some ==> update_identities(registers).contains(
            update_identity(registers[k].0, registers[k].1.update_expression()->0),
        ),
    decreases registers.len(),
{
    let name = registers[k].0;
    let rest = registers.drop_last();
    let last = registers.last();
    let before = update_identities(rest);
    let all = update_identities(registers);
    if k == registers.len() - 1 {
        assert forall|i: int| 0 <= i < rest.len() implies (#[trigger] rest[i]).0 != name by {
            lemma_name_less_irreflexive(name);
        }
        lemma_no_update_identity(rest, name);
        match last.1.update_expression() {
            Some(update) => {
                assert(all.drop_last() =~= before);
            },
            None => {},
        }
    } else {
        lemma_one_update_identity(rest, k);
        lemma_name_less_irreflexive(name);
        match last.1.update_expression() {
            Some(update) => {
                assert(all.drop_last() =~= before);
                if registers[k].1.update_expression() is Some {
                    let wanted = update_identity(name, registers[k].1.update_expression()->0);
                    let j = choose|j: int| 0 <= j < before.len() && before[j] == wanted;
                }
            },
            None => {},
        }
    }
}

/// Registers with other names contribute no update identity for `name`.
pub proof fn lemma_no_update_identity(registers: Seq<(Seq<char>, RegisterView)>, name: Seq<char>)
    requires
        forall|i: int| 0 <= i < registers.len() ==> (#[trigger] registers[i]).0 != name,
    ensures
        count_of(update_identities(registers), identity_of(next_reference_view(name))) == 0,
    decreases registers.len(),
{
    if registers.len() > 0 {
        let rest = registers.drop_last();
        lemma_no_update_identity(rest, name);
        let last = registers.last();
        match last.1.update_expression() {
            Some(update) => {
                assert(update_identities(registers).drop_last() =~= update_identities(rest));
            },
            None => {},
        }
    }
}

/// For every register that is no assignment register, the update identities hold exactly
/// one identity of the form `R' - U = 0`: the one with the register's update for `U`.
pub proof fn lemma_register_update_identity(s: ConverterView, k: int)
    requires
        s.wf(),
        0 <= k < s.registers.len(),
        !s.registers[k].1.is_assignment,
    ensures
        s.registers[k].1.update_expression() is Some,
        count_of(
            update_identities(s.registers),
            identity_of(next_reference_view(s.registers[k].0)),
        ) == 1,
        update_identities(s.registers).contains(
            update_identity(s.registers[k].0, s.registers[k].1.update_expression()->0),
        ),
{
    lemma_one_update_identity(s.registers, k);
}

/// The declaration of a register keeps the statements before it and adds, for a register
/// that is no assignment register, exactly one identity `first_step * R = 0`.
pub proof fn lemma_declaration_first_row(
    s: ConverterView,
    start: usize,
    name: Seq<char>,
    flag: Option<RegisterFlag>,
)
    requires
        s.declare_register(start, name, flag) is Ok,
    ensures
        s.pil.is_prefix_of(s.declare_register(start, name, flag)->Ok_0.pil),
        count_of(
            s.declare_register(start, name, flag)->Ok_0.pil.skip(s.pil.len() as int),
            same_as(first_row_identity(start, name)),
        ) == if flag == Some(RegisterFlag::IsAssignment) {
            0nat
        } else {
            1nat
        },
{
    let t = s.declare_register(start, name, flag)->Ok_0;
    let added = t.pil.skip(s.pil.len() as int);
    let p = same_as(first_row_identity(start, name));
    let declaration = witness_column_view(start, name, None);
    lemma_count_one(first_row_identity(start, name), p);
    lemma_count_one(declaration, p);
    match flag {
        Some(RegisterFlag::IsPC) => {
            assert(added =~= seq![first_row_identity(start, name)] + seq![declaration]);
            lemma_count_add(seq![first_row_identity(start, name)], seq![declaration], p);
        },
        Some(RegisterFlag::IsAssignment) => {
            assert(added =~= seq![declaration]);
        },
        None => {
            let flags = s.write_flag_names(name);
            let columns = Seq::new(
                flags.len(),
                |k: int| witness_column_view(start, flags[k], None),
            );
            assert(added =~= seq![first_row_identity(start, name)] + columns + seq![declaration]);
            lemma_count_none(columns, p);
            lemma_count_add(seq![first_row_identity(start, name)], columns, p);
            lemma_count_add(seq![first_row_identity(start, name)] + columns, seq![declaration], p);
        },
    }
}

/// The statements by which an assignment register reads its value: the witness columns
/// of its constant, of its free input and of the coefficients of the registers, and
/// then the identity.
pub open spec fn constraint_statements(s: ConverterView, register: Seq<char>) -> Seq<
    StatementView,
> {
    let names = s.read_coefficient_names(register);
    seq![
        witness_column_view(0, const_name(register), None),
        witness_column_view(0, read_free_name(register), None),
    ] + Seq::new(names.len(), |k: int| witness_column_view(0, names[k], None)) + seq![
        s.read_constraint(register),
    ]
}

/// The statements by which the assignment registers from position `from` on read their
/// values.
pub open spec fn all_constraint_statements(
    s: ConverterView,
    registers: Seq<Seq<char>>,
    from: int,
) -> Seq<StatementView>
    decreases registers.len() - from,
{
    if from < 0 || from >= registers.len() {
        seq![]
    } else {
        constraint_statements(s, registers[from]) + all_constraint_statements(
            s,
            registers,
            from + 1,
        )
    }
}

/// The read constraint of an assignment register adds its statements and changes nothing
/// else but the line lookup.
pub proof fn lemma_create_constraints_statements(s: ConverterView, register: Seq<char>)
    ensures
        s.create_constraints_for_assignment_reg(register).pil == s.pil + constraint_statements(
            s,
            register,
        ),
        s.create_constraints_for_assignment_reg(register).registers == s.registers,
        s.create_constraints_for_assignment_reg(register).code_lines == s.code_lines,
        s.create_constraints_for_assignment_reg(register).instructions == s.instructions,
        s.create_constraints_for_assignment_reg(register).pc_name == s.pc_name,
{
}

/// The read constraints add their statements in the order of the registers and change
/// nothing else but the line lookup.
pub proof fn lemma_read_constraints_statements(
    s: ConverterView,
    registers: Seq<Seq<char>>,
    from: int,
)
    ensures
        s.read_constraints(registers, from).pil == s.pil + all_constraint_statements(
            s,
            registers,
            from,
        ),
        s.read_constraints(registers, from).registers == s.registers,
        s.read_constraints(registers, from).code_lines == s.code_lines,
        s.read_constraints(registers, from).instructions == s.instructions,
        s.read_constraints(registers, from).pc_name == s.pc_name,
    decreases registers.len() - from,
{
    if 0 <= from < registers.len() {
        let t = s.create_constraints_for_assignment_reg(registers[from]);
        lemma_create_constraints_statements(s, registers[from]);
        lemma_read_constraints_statements(t, registers, from + 1);
        lemma_same_registers_same_statements(s, t, registers, from + 1);
    }
}

/// The statements of the read constraints depend on the registers only.
pub proof fn lemma_same_registers_same_statements(
    s: ConverterView,
    t: ConverterView,
    registers: Seq<Seq<char>>,
    from: int,
)
    requires
        s.registers == t.registers,
    ensures
        all_constraint_statements(s, registers, from) == all_constraint_statements(
            t,
            registers,
            from,
        ),
    decreases registers.len() - from,
{
    if 0 <= from < registers.len() {
        lemma_same_registers_same_statements(s, t, registers, from + 1);
    }
}

/// Among the statements of the read constraints there is exactly one identity that
/// expresses a given assignment register: its read constraint.
pub proof fn lemma_one_read_constraint(
    s: ConverterView,
    registers: Seq<Seq<char>>,
    from: int,
    name: Seq<char>,
)
    requires
        0 <= from,
        forall|a: int, b: int|
            0 <= a < b < registers.len() ==> #[trigger] registers[a] != #[trigger] registers[b],
    ensures
        count_of(
            all_constraint_statements(s, registers, from),
            identity_of(direct_reference_view(name)),
        ) == if exists|k: int| from <= k < registers.len() && registers[k] == name {
            1nat
        } else {
            0nat
        },
        (exists|k: int| from <= k < registers.len() && registers[k] == name)
            ==> all_constraint_statements(s, registers, from).contains(s.read_constraint(name)),
    decreases registers.len() - from,
{
    let p = identity_of(direct_reference_view(name));
    if from < registers.len() {
        let register = registers[from];
        let names = s.read_coefficient_names(register);
        let head = seq![
            witness_column_view(0, const_name(register), None),
            witness_column_view(0, read_free_name(register), None),
        ] + Seq::new(names.len(), |k: int| witness_column_view(0, names[k], None));
        let own = constraint_statements(s, register);
        let rest = all_constraint_statements(s, registers, from + 1);
        lemma_count_none(head, p);
        lemma_count_one(s.read_constraint(register), p);
        lemma_count_add(head, seq![s.read_constraint(register)], p);
        lemma_count_add(own, rest, p);
        lemma_one_read_constraint(s, registers, from + 1, name);
        if register == name {
            assert((own + rest)[own.len() - 1] == s.read_constraint(name));
        } else {
            if exists|k: int| from <= k < registers.len() && registers[k] == name {
                let k = choose|k: int| from <= k < registers.len() && registers[k] == name;
                let j = choose|j: int| 0 <= j < rest.len() && rest[j] == s.read_constraint(name);
                assert((own + rest)[own.len() + j] == s.read_constraint(name));
            }
        }
    }
}

/// For every assignment register, the read constraints hold exactly one identity that
/// expresses it: the one that makes it the sum of the registers, each with its read
/// coefficient, of its constant, and of its free input under its flag.
pub proof fn lemma_assignment_register_read_constraint(s: ConverterView, k: int)
    requires
        s.wf(),
        0 <= k < s.registers.len(),
        s.registers[k].1.is_assignment,
    ensures
        count_of(
            all_constraint_statements(s, s.assignment_registers(), 0),
            identity_of(direct_reference_view(s.registers[k].0)),
        ) == 1,
        all_constraint_statements(s, s.assignment_registers(), 0).contains(
            s.read_constraint(s.registers[k].0),
        ),
{
    let names = s.assignment_registers();
    lemma_names_with_flag(s.registers, true);
    assert forall|a: int, b: int| 0 <= a < b < names.len() implies #[trigger] names[a]
        != #[trigger] names[b] by {
        lemma_increasing_names_differ(names, a, b);
    }
    let j = choose|j: int| 0 <= j < names.len() && names[j] == s.registers[k].0;
    lemma_one_read_constraint(s, names, 0, s.registers[k].0);
}

/// The free-input witnesses are those of the assignment registers: every assignment
/// register has one, and every one belongs to an assignment register.
pub proof fn lemma_free_value_witnesses(s: ConverterView)
    requires
        s.wf(),
        s.program() is Ok,
    ensures
        forall|k: int|
            0 <= k < s.registers.len() && (#[trigger] s.registers[k]).1.is_assignment
                ==> exists|j: int|
                0 <= j < s.program()->Ok_0.queries.len() && #[trigger] free_value_witnesses(
                    s.program()->Ok_0.queries,
                )[j] == free_value_witness(
                    (s.registers[k].0, s.program()->Ok_0.queries[j].1),
                ),
        forall|j: int|
            0 <= j < s.program()->Ok_0.queries.len() ==> exists|k: int|
                0 <= k < s.registers.len() && (#[trigger] s.registers[k]).1.is_assignment
                    && #[trigger] free_value_witnesses(s.program()->Ok_0.queries)[j]
                    == free_value_witness((s.registers[k].0, s.program()->Ok_0.queries[j].1)),
{
    let names = s.assignment_registers();
    let queries = s.program()->Ok_0.queries;
    lemma_names_with_flag(s.registers, true);
    lemma_program_shape(s);
    assert forall|k: int|
        0 <= k < s.registers.len() && (#[trigger] s.registers[k]).1.is_assignment implies exists|
        j: int,
    |
        0 <= j < queries.len() && #[trigger] free_value_witnesses(queries)[j]
            == free_value_witness((s.registers[k].0, queries[j].1)) by {
        let j = choose|j: int| 0 <= j < names.len() && names[j] == s.registers[k].0;
        assert(free_value_witnesses(queries)[j] == free_value_witness(queries[j]));
    }
}

/// The lookup that closes the output: the witness columns on the left and, in the same
/// positions, their program columns on the right. The column of a witness `W` is `p_W`,
/// but for the program counter, whose column is `line`. The program columns on the right
/// are the program columns of the state, in the order in which they were created.
pub proof fn lemma_line_plookup(s: ConverterView)
    requires
        s.wf(),
    ensures
        s.line_plookup() matches StatementView::PlookupIdentity(_, left, right) && {
            &&& left.selector is None
            &&& right.selector is None
            &&& left.expressions.len() == s.line_lookup.len()
            &&& right.expressions.len() == s.line_lookup.len()
            &&& forall|k: int|
                0 <= k < s.line_lookup.len() ==> {
                    &&& #[trigger] left.expressions[k] == direct_reference_view(
                        s.line_lookup[k].0,
                    )
                    &&& right.expressions[k] == direct_reference_view(s.line_lookup[k].1)
                    &&& (s.line_lookup[k].1 == fixed_name(s.line_lookup[k].0) || (s.pc_name
                        == Some(s.line_lookup[k].0) && s.line_lookup[k].1 == "line"@))
                }
        },
        s.program_constant_names == program_columns(s.line_lookup),
{
}

/// The statements that hold the program: the column `line`, once; a free-input witness for
/// each assignment register and for nothing else; and a definition for each program
/// column, in the order in which the columns were created, with one value for each code
/// line, continued with zeroes.
pub proof fn lemma_program_statements(s: ConverterView)
    requires
        s.translate_code_lines() is Ok,
    ensures
        s.program() is Ok,
        s.translate_code_lines()->Ok_0.pil == s.pil + (seq![line_definition()]
            + free_value_witnesses(s.program()->Ok_0.queries) + table_definitions(
            s.program()->Ok_0.tables,
        )),
        count_of(
            seq![line_definition()] + free_value_witnesses(s.program()->Ok_0.queries)
                + table_definitions(s.program()->Ok_0.tables),
            same_as(line_definition()),
        ) == 1,
        free_value_witnesses(s.program()->Ok_0.queries).len() == s.assignment_registers().len(),
        forall|k: int|
            0 <= k < s.assignment_registers().len() ==> #[trigger] free_value_witnesses(
                s.program()->Ok_0.queries,
            )[k] == witness_column_view(
                0,
                free_value_name(s.assignment_registers()[k]),
                Some(
                    FunctionDefinitionView::Query(
                        seq!["i"@],
                        ExpressionView::Tuple(s.program()->Ok_0.queries[k].1),
                    ),
                ),
            ),
        table_definitions(s.program()->Ok_0.tables).len() == s.program()->Ok_0.tables.len(),
        forall|k: int|
            0 <= k < s.program()->Ok_0.tables.len() ==> {
                &&& #[trigger] table_definitions(s.program()->Ok_0.tables)[k]
                    == StatementView::PolynomialConstantDefinition(
                    0,
                    s.program()->Ok_0.tables[k].0,
                    FunctionDefinitionView::Array(
                        ArrayExpressionView::Concat(
                            Box::new(
                                ArrayExpressionView::Value(
                                    table_values(s.program()->Ok_0.tables[k].1),
                                ),
                            ),
                            Box::new(ArrayExpressionView::RepeatedValue(seq![number_view(0)])),
                        ),
                    ),
                )
                &&& table_values(s.program()->Ok_0.tables[k].1).len() == s.code_lines.len()
                &&& s.program_constant_names.contains(s.program()->Ok_0.tables[k].0)
            },
        forall|name: Seq<char>|
            s.program_constant_names.contains(name) ==> has_key(s.program()->Ok_0.tables, name),
        s.program()->Ok_0.tables.len() == distinct_names(s.program_constant_names).len(),
        forall|k: int|
            0 <= k < s.program()->Ok_0.tables.len() ==> (#[trigger] s.program()->Ok_0.tables[k]).0
                == distinct_names(s.program_constant_names)[k],
{
    let program = s.program()->Ok_0;
    let witnesses = free_value_witnesses(program.queries);
    let tables = table_definitions(program.tables);
    let p = same_as(line_definition());
    lemma_program_shape(s);
    lemma_count_one(line_definition(), p);
    lemma_count_none(witnesses, p);
    lemma_count_none(tables, p);
    lemma_count_add(seq![line_definition()], witnesses, p);
    lemma_count_add(seq![line_definition()] + witnesses, tables, p);
    assert forall|k: int| 0 <= k < program.tables.len() implies s.program_constant_names.contains(
        (#[trigger] program.tables[k]).0,
    ) by {
        lemma_has_key(program.tables, program.tables[k].0);
    }
}

/// The order of the output once the source is consumed: what the source produced, the
/// read constraints of the assignment registers, the update identities of the registers,
/// the program, and the lookup.
pub proof fn lemma_finish_layout(s: ConverterView)
    requires
        s.finish() is Ok,
    ensures
        s.read_constraints(s.assignment_registers(), 0).translate_code_lines_after_updates() is Ok,
        s.finish()->Ok_0.pil == s.pil + all_constraint_statements(
            s,
            s.assignment_registers(),
            0,
        ) + update_identities(s.registers) + (seq![line_definition()] + free_value_witnesses(
            s.finished_program().queries,
        ) + table_definitions(s.finished_program().tables)) + seq![
            s.finish()->Ok_0.line_plookup(),
        ],
        s.finish()->Ok_0.line_lookup == s.read_constraints(
            s.assignment_registers(),
            0,
        ).line_lookup,
        s.finish()->Ok_0.registers == s.registers,
{
    let constrained = s.read_constraints(s.assignment_registers(), 0);
    lemma_read_constraints_statements(s, s.assignment_registers(), 0);
    let updated = constrained.with_update_identities();
    lemma_program_statements(updated);
}

/// The body of an instruction only adds statements.
pub proof fn lemma_body_elements_extend(
    s: ConverterView,
    start: usize,
    flag: Seq<char>,
    substitution: Seq<(Seq<char>, Seq<char>)>,
    body: Seq<InstructionBodyElementView>,
)
    requires
        s.body_elements(start, flag, substitution, body) is Ok,
    ensures
        s.pil.is_prefix_of(s.body_elements(start, flag, substitution, body)->Ok_0.pil),
    decreases body.len(),
{
    if body.len() > 0 {
        lemma_body_elements_extend(s, start, flag, substitution, body.drop_last());
    }
}

/// A statement of the source only adds statements to the output.
pub proof fn lemma_statement_extends(s: ConverterView, statement: ASMStatementView)
    requires
        s.statement(statement) is Ok,
    ensures
        s.pil.is_prefix_of(s.statement(statement)->Ok_0.pil),
{
    match statement {
        ASMStatementView::RegisterDeclaration(start, name, flags) => {
            lemma_declaration_first_row(s, start, name, flags);
        },
        ASMStatementView::InstructionDeclaration(start, name, params, body) => {
            let flag = instruction_flag_name(name);
            let prepared = s.create_witness_fixed_pair(start, flag).create_witness_fixed_pairs(
                start,
                literal_columns(name, params),
            );
            lemma_body_elements_extend(
                prepared,
                start,
                flag,
                literal_substitution(name, params),
                body,
            );
        },
        _ => {},
    }
}

/// The statements of a source only add statements to the output.
pub proof fn lemma_statements_extend(s: ConverterView, input: Seq<ASMStatementView>, from: int)
    requires
        s.statements(input, from) is Ok,
    ensures
        s.pil.is_prefix_of(s.statements(input, from)->Ok_0.pil),
    decreases input.len() - from,
{
    if 0 <= from < input.len() {
        let next = s.statement(input[from])->Ok_0;
        lemma_statement_extends(s, input[from]);
        lemma_statements_extend(next, input, from + 1);
    }
}

/// The state of a compilation once the source is consumed: what the leading statements
/// and the statements of the source leave.
pub open spec fn source_state(input: Seq<ASMStatementView>) -> ConverterView {
    let sized = ConverterView::empty().set_degree(requested_degree(input)->Ok_0)->Ok_0;
    ConverterView { pil: sized.header(), ..sized }.statements(
        input,
        first_statement(input),
    )->Ok_0
}

/// The order of the statements of every compilation: the namespace with the degree and
/// the column of the first row; what the statements of the source produce, in their
/// order; the read constraints of the assignment registers; the update identities of
/// the registers; the column `line`, the free-input witnesses and the program columns;
/// and the lookup.
pub proof fn lemma_compile_layout(input: Seq<ASMStatementView>)
    requires
        compile_view(input) is Ok,
    ensures
        source_state(input).wf(),
        source_state(input).finish() is Ok,
        source_state(input).header().is_prefix_of(source_state(input).pil),
        source_state(input).header()[0] == StatementView::Namespace(
            0,
            "Assembly"@,
            number_view(source_state(input).degree() as int),
        ),
        compile_view(input)->Ok_0 == source_state(input).pil + all_constraint_statements(
            source_state(input),
            source_state(input).assignment_registers(),
            0,
        ) + update_identities(source_state(input).registers) + (seq![line_definition()]
            + free_value_witnesses(source_state(input).finished_program().queries)
            + table_definitions(source_state(input).finished_program().tables)) + seq![
            source_state(input).finish()->Ok_0.line_plookup(),
        ],
{
    let sized = ConverterView::empty().set_degree(requested_degree(input)->Ok_0)->Ok_0;
    let started = ConverterView { pil: sized.pil + sized.header(), ..sized };
    let read = source_state(input);
    lemma_statements_wf(started, input, first_statement(input));
    lemma_statements_extend(started, input, first_statement(input));
    lemma_statements_degree(started, input, first_statement(input));
    lemma_finish_layout(read);
}

/// The statements of a source keep the degree.
pub proof fn lemma_statements_degree(s: ConverterView, input: Seq<ASMStatementView>, from: int)
    requires
        s.statements(input, from) is Ok,
    ensures
        s.statements(input, from)->Ok_0.degree_exponent == s.degree_exponent,
    decreases input.len() - from,
{
    if 0 <= from < input.len() {
        let next = s.statement(input[from])->Ok_0;
        match input[from] {
            ASMStatementView::InstructionDeclaration(start, name, params, body) => {
                let flag = instruction_flag_name(name);
                let prepared = s.create_witness_fixed_pair(
                    start,
                    flag,
                ).create_witness_fixed_pairs(start, literal_columns(name, params));
                lemma_body_elements_degree(
                    prepared,
                    start,
                    flag,
                    literal_substitution(name, params),
                    body,
                );
            },
            _ => {},
        }
        lemma_statements_degree(next, input, from + 1);
    }
}

/// The body of an instruction keeps the degree.
pub proof fn lemma_body_elements_degree(
    s: ConverterView,
    start: usize,
    flag: Seq<char>,
    substitution: Seq<(Seq<char>, Seq<char>)>,
    body: Seq<InstructionBodyElementView>,
)
    requires
        s.body_elements(start, flag, substitution, body) is Ok,
    ensures
        s.body_elements(start, flag, substitution, body)->Ok_0.degree_exponent
            == s.degree_exponent,
    decreases body.len(),
{
    if body.len() > 0 {
        lemma_body_elements_degree(s, start, flag, substitution, body.drop_last());
    }
}

/// The witness columns of a line lookup, in order.
pub open spec fn lookup_witnesses(line_lookup: Seq<(Seq<char>, Seq<char>)>) -> Seq<Seq<char>> {
    Seq::new(line_lookup.len(), |k: int| line_lookup[k].0)
}

/// The witness columns that a statement of the source puts into the line lookup: the
/// program counter; the write flags of a register, one for each assignment register
/// declared before it, in their order; the flag of an instruction and then the columns of
/// its literal parameters, in their order.
pub open spec fn statement_witnesses(s: ConverterView, statement: ASMStatementView) -> Seq<
    Seq<char>,
> {
    match statement {
        ASMStatementView::RegisterDeclaration(_, name, flag) => match flag {
            Some(RegisterFlag::IsPC) => seq![name],
            Some(RegisterFlag::IsAssignment) => seq![],
            None => s.write_flag_names(name),
        },
        ASMStatementView::InstructionDeclaration(_, name, params, _) => seq![
            instruction_flag_name(name),
        ] + literal_columns(name, params),
        _ => seq![],
    }
}

/// The witness columns that the statements of a source from position `from` on put into
/// the line lookup, in the order of the statements.
pub open spec fn statements_witnesses(
    s: ConverterView,
    input: Seq<ASMStatementView>,
    from: int,
) -> Seq<Seq<char>>
    decreases input.len() - from,
{
    if from < 0 || from >= input.len() || s.statement(input[from]) is Err {
        seq![]
    } else {
        statement_witnesses(s, input[from]) + statements_witnesses(
            s.statement(input[from])->Ok_0,
            input,
            from + 1,
        )
    }
}

/// The witness columns that the read constraints of the assignment registers from
/// position `from` on put into the line lookup: for each register its constant, its
/// free-input flag, and its read coefficients in the order of the registers read.
pub open spec fn constraint_witnesses(
    s: ConverterView,
    registers: Seq<Seq<char>>,
    from: int,
) -> Seq<Seq<char>>
    decreases registers.len() - from,
{
    if from < 0 || from >= registers.len() {
        seq![]
    } else {
        seq![const_name(registers[from]), read_free_name(registers[from])]
            + s.read_coefficient_names(registers[from]) + constraint_witnesses(
            s,
            registers,
            from + 1,
        )
    }
}

/// The body of an instruction puts nothing into the line lookup.
pub proof fn lemma_body_elements_lookup(
    s: ConverterView,
    start: usize,
    flag: Seq<char>,
    substitution: Seq<(Seq<char>, Seq<char>)>,
    body: Seq<InstructionBodyElementView>,
)
    requires
        s.body_elements(start, flag, substitution, body) is Ok,
    ensures
        s.body_elements(start, flag, substitution, body)->Ok_0.line_lookup == s.line_lookup,
    decreases body.len(),
{
    if body.len() > 0 {
        lemma_body_elements_lookup(s, start, flag, substitution, body.drop_last());
    }
}

/// A statement of the source appends its witness columns to the line lookup.
pub proof fn lemma_statement_witnesses(s: ConverterView, statement: ASMStatementView)
    requires
        s.statement(statement) is Ok,
    ensures
        lookup_witnesses(s.statement(statement)->Ok_0.line_lookup) == lookup_witnesses(
            s.line_lookup,
        ) + statement_witnesses(s, statement),
{
    match statement {
        ASMStatementView::InstructionDeclaration(start, name, params, body) => {
            let flag = instruction_flag_name(name);
            let prepared = s.create_witness_fixed_pair(start, flag).create_witness_fixed_pairs(
                start,
                literal_columns(name, params),
            );
            lemma_body_elements_lookup(
                prepared,
                start,
                flag,
                literal_substitution(name, params),
                body,
            );
        },
        _ => {},
    }
}

/// The statements of a source append their witness columns to the line lookup, in the
/// order of the statements.
pub proof fn lemma_statements_witnesses(s: ConverterView, input: Seq<ASMStatementView>, from: int)
    requires
        s.statements(input, from) is Ok,
    ensures
        lookup_witnesses(s.statements(input, from)->Ok_0.line_lookup) == lookup_witnesses(
            s.line_lookup,
        ) + statements_witnesses(s, input, from),
    decreases input.len() - from,
{
    if 0 <= from < input.len() {
        let next = s.statement(input[from])->Ok_0;
        lemma_statement_witnesses(s, input[from]);
        lemma_statements_witnesses(next, input, from + 1);
    }
}

/// The witness columns of the read constraints depend on the registers only.
pub proof fn lemma_same_registers_same_witnesses(
    s: ConverterView,
    t: ConverterView,
    registers: Seq<Seq<char>>,
    from: int,
)
    requires
        s.registers == t.registers,
    ensures
        constraint_witnesses(s, registers, from) == constraint_witnesses(t, registers, from),
    decreases registers.len() - from,
{
    if 0 <= from < registers.len() {
        lemma_same_registers_same_witnesses(s, t, registers, from + 1);
    }
}

/// The read constraints append their witness columns to the line lookup, in the order of
/// the assignment registers.
pub proof fn lemma_read_constraints_witnesses(
    s: ConverterView,
    registers: Seq<Seq<char>>,
    from: int,
)
    ensures
        lookup_witnesses(s.read_constraints(registers, from).line_lookup) == lookup_witnesses(
            s.line_lookup,
        ) + constraint_witnesses(s, registers, from),
    decreases registers.len() - from,
{
    if 0 <= from < registers.len() {
        let t = s.create_constraints_for_assignment_reg(registers[from]);
        lemma_create_constraints_statements(s, registers[from]);
        lemma_read_constraints_witnesses(t, registers, from + 1);
        lemma_same_registers_same_witnesses(s, t, registers, from + 1);
    }
}

/// The state in which a compilation begins: the degree set, and the leading statements.
pub open spec fn initial_state(input: Seq<ASMStatementView>) -> ConverterView {
    let sized = ConverterView::empty().set_degree(requested_degree(input)->Ok_0)->Ok_0;
    ConverterView { pil: sized.header(), ..sized }
}

/// The lookup that closes a compilation lists on its left, in this order: the witness
/// columns of the statements of the source, as the statements come; then the witness
/// columns of the read constraints, assignment register by assignment register in the
/// order of their names. On its right it lists, in the same positions, the column `line`
/// for the program counter and the program column `p_W` for every other witness `W`.
pub proof fn lemma_compile_lookup_order(input: Seq<ASMStatementView>)
    requires
        compile_view(input) is Ok,
    ensures
        compile_view(input)->Ok_0.last() matches StatementView::PlookupIdentity(_, left, right)
            && {
            let witnesses = statements_witnesses(
                initial_state(input),
                input,
                first_statement(input),
            ) + constraint_witnesses(
                source_state(input),
                source_state(input).assignment_registers(),
                0,
            );
            &&& left.expressions.len() == witnesses.len()
            &&& right.expressions.len() == witnesses.len()
            &&& forall|k: int|
                0 <= k < witnesses.len() ==> {
                    &&& #[trigger] left.expressions[k] == direct_reference_view(witnesses[k])
                    &&& right.expressions[k] == direct_reference_view(fixed_name(witnesses[k]))
                        || (source_state(input).pc_name == Some(witnesses[k])
                        && right.expressions[k] == direct_reference_view("line"@))
                }
        },
{
    let start = initial_state(input);
    let read = source_state(input);
    let last = ConverterView::empty().convert(input)->Ok_0;
    lemma_compile_layout(input);
    lemma_compile_ends_with_lookup(input);
    lemma_line_plookup(last);
    lemma_statements_witnesses(start, input, first_statement(input));
    lemma_read_constraints_witnesses(read, read.assignment_registers(), 0);
    lemma_finish_layout(read);
    lemma_read_constraints_statements(read, read.assignment_registers(), 0);
}

/// Whether a statement is an identity between two expressions, `left - right = 0`.
pub open spec fn is_difference(statement: StatementView) -> bool {
    statement matches StatementView::PolynomialIdentity(
        _,
        ExpressionView::BinaryOperation(_, BinaryOperator::Sub, _),
    )
}

/// Whether no statement from position `from` on is an identity between two expressions.
pub open spec fn no_difference_from(statements: Seq<StatementView>, from: int) -> bool {
    forall|j: int| from <= j < statements.len() ==> !is_difference(#[trigger] statements[j])
}

/// The body of an instruction adds no identity between two expressions: what it adds
/// are products with the instruction's flag, lookups and permutations.
pub proof fn lemma_body_elements_no_difference(
    s: ConverterView,
    start: usize,
    flag: Seq<char>,
    substitution: Seq<(Seq<char>, Seq<char>)>,
    body: Seq<InstructionBodyElementView>,
)
    requires
        s.body_elements(start, flag, substitution, body) is Ok,
    ensures
        no_difference_from(
            s.body_elements(start, flag, substitution, body)->Ok_0.pil,
            s.pil.len() as int,
        ),
    decreases body.len(),
{
    if body.len() > 0 {
        lemma_body_elements_no_difference(s, start, flag, substitution, body.drop_last());
        lemma_body_elements_extend(s, start, flag, substitution, body.drop_last());
    }
}

/// A statement of the source other than inline statements adds no identity between two
/// expressions.
pub proof fn lemma_statement_no_difference(s: ConverterView, statement: ASMStatementView)
    requires
        s.statement(statement) is Ok,
        !(statement is InlinePil),
    ensures
        no_difference_from(s.statement(statement)->Ok_0.pil, s.pil.len() as int),
{
    let t = s.statement(statement)->Ok_0;
    match statement {
        ASMStatementView::InstructionDeclaration(start, name, params, body) => {
            let flag = instruction_flag_name(name);
            let prepared = s.create_witness_fixed_pair(start, flag).create_witness_fixed_pairs(
                start,
                literal_columns(name, params),
            );
            lemma_body_elements_no_difference(
                prepared,
                start,
                flag,
                literal_substitution(name, params),
                body,
            );
            lemma_body_elements_extend(
                prepared,
                start,
                flag,
                literal_substitution(name, params),
                body,
            );
            assert forall|j: int| s.pil.len() <= j < t.pil.len() implies !is_difference(
                #[trigger] t.pil[j],
            ) by {
                if j < prepared.pil.len() {
                    assert(t.pil[j] == prepared.pil[j]);
                }
            }
        },
        _ => {},
    }
}

/// The statements of a source without inline statements add no identity between two
/// expressions.
pub proof fn lemma_statements_no_difference(
    s: ConverterView,
    input: Seq<ASMStatementView>,
    from: int,
)
    requires
        s.statements(input, from) is Ok,
        forall|j: int| from <= j < input.len() ==> !(#[trigger] input[j] is InlinePil),
    ensures
        no_difference_from(s.statements(input, from)->Ok_0.pil, s.pil.len() as int),
    decreases input.len() - from,
{
    if 0 <= from < input.len() {
        let next = s.statement(input[from])->Ok_0;
        let last = s.statements(input, from)->Ok_0;
        lemma_statement_no_difference(s, input[from]);
        lemma_statement_extends(s, input[from]);
        lemma_statements_no_difference(next, input, from + 1);
        lemma_statements_extend(next, input, from + 1);
        assert forall|j: int| s.pil.len() <= j < last.pil.len() implies !is_difference(
            #[trigger] last.pil[j],
        ) by {
            if j < next.pil.len() {
                assert(last.pil[j] == next.pil[j]);
            }
        }
    }
}

/// The read constraints hold no identity that gives a column its value in the next row.
pub proof fn lemma_read_constraints_no_update(
    s: ConverterView,
    registers: Seq<Seq<char>>,
    from: int,
    name: Seq<char>,
)
    ensures
        count_of(
            all_constraint_statements(s, registers, from),
            identity_of(next_reference_view(name)),
        ) == 0,
    decreases registers.len() - from,
{
    let p = identity_of(next_reference_view(name));
    if 0 <= from < registers.len() {
        let own = constraint_statements(s, registers[from]);
        lemma_read_constraints_no_update(s, registers, from + 1, name);
        lemma_count_none(own, p);
        lemma_count_add(own, all_constraint_statements(s, registers, from + 1), p);
    }
}

/// A register that a source declares is a register of the state that the source leaves,
/// and is an assignment register there exactly if it is declared as one.
pub proof fn lemma_declared_register(
    s: ConverterView,
    input: Seq<ASMStatementView>,
    from: int,
    at: int,
)
    requires
        s.statements(input, from) is Ok,
        0 <= from <= at < input.len(),
        input[at] is RegisterDeclaration,
    ensures
        has_key(s.statements(input, from)->Ok_0.registers, input[at]->RegisterDeclaration_1),
        s.statements(input, from)->Ok_0.registers[key_index(
            s.statements(input, from)->Ok_0.registers,
            input[at]->RegisterDeclaration_1,
        )].1.is_assignment == (input[at]->RegisterDeclaration_2 == Some(
            RegisterFlag::IsAssignment,
        )),
    decreases input.len() - from,
{
    let next = s.statement(input[from])->Ok_0;
    let name = input[at]->RegisterDeclaration_1;
    if from == at {
        let flag = input[at]->RegisterDeclaration_2;
        let register = s.new_register(name, flag);
        lemma_has_key(s.registers, name);
        lemma_has_key(next.registers, name);
        let position = key_position(s.registers, name);
        lemma_first_index(s.registers, key_not_before::<RegisterView>(name));
        assert(next.registers[position] == (name, register));
        lemma_first_index(next.registers, key_is::<RegisterView>(name));
        lemma_statements_keep_register(next, input, from + 1, name);
    } else {
        lemma_declared_register(next, input, from + 1, at);
    }
}

/// The statements of a source keep the registers that are declared, and what kind of
/// register each is.
pub proof fn lemma_statements_keep_register(
    s: ConverterView,
    input: Seq<ASMStatementView>,
    from: int,
    name: Seq<char>,
)
    requires
        s.statements(input, from) is Ok,
        has_key(s.registers, name),
    ensures
        has_key(s.statements(input, from)->Ok_0.registers, name),
        s.statements(input, from)->Ok_0.registers[key_index(
            s.statements(input, from)->Ok_0.registers,
            name,
        )].1.is_assignment == s.registers[key_index(s.registers, name)].1.is_assignment,
    decreases input.len() - from,
{
    if 0 <= from < input.len() {
        let next = s.statement(input[from])->Ok_0;
        lemma_statement_keeps_register(s, input[from], name);
        lemma_statements_keep_register(next, input, from + 1, name);
    }
}

/// A conditioned update keeps the registers and what kind of register each is.
pub proof fn lemma_update_keeps_register(
    s: ConverterView,
    register: Seq<char>,
    condition: ExpressionView,
    value: ExpressionView,
    name: Seq<char>,
)
    requires
        s.add_conditioned_update(register, condition, value) is Ok,
        has_key(s.registers, name),
    ensures
        has_key(s.add_conditioned_update(register, condition, value)->Ok_0.registers, name),
        s.add_conditioned_update(register, condition, value)->Ok_0.registers[key_index(
            s.add_conditioned_update(register, condition, value)->Ok_0.registers,
            name,
        )].1.is_assignment == s.registers[key_index(s.registers, name)].1.is_assignment,
{
    let t = s.add_conditioned_update(register, condition, value)->Ok_0;
    let i = key_index(s.registers, name);
    lemma_first_index(s.registers, key_is::<RegisterView>(name));
    lemma_first_index(s.registers, key_is::<RegisterView>(register));
    lemma_first_index_is(t.registers, key_is::<RegisterView>(name), i);
}

/// The body of an instruction keeps the registers and what kind of register each is.
pub proof fn lemma_body_elements_keep_register(
    s: ConverterView,
    start: usize,
    flag: Seq<char>,
    substitution: Seq<(Seq<char>, Seq<char>)>,
    body: Seq<InstructionBodyElementView>,
    name: Seq<char>,
)
    requires
        s.body_elements(start, flag, substitution, body) is Ok,
        has_key(s.registers, name),
    ensures
        has_key(s.body_elements(start, flag, substitution, body)->Ok_0.registers, name),
        s.body_elements(start, flag, substitution, body)->Ok_0.registers[key_index(
            s.body_elements(start, flag, substitution, body)->Ok_0.registers,
            name,
        )].1.is_assignment == s.registers[key_index(s.registers, name)].1.is_assignment,
    decreases body.len(),
{
    if body.len() > 0 {
        let before = s.body_elements(start, flag, substitution, body.drop_last())->Ok_0;
        lemma_body_elements_keep_register(s, start, flag, substitution, body.drop_last(), name);
        match body.last() {
            InstructionBodyElementView::Expression(e) => {
                match extract_update_view(substitute_view(e, substitution)) {
                    Ok((Some(register), value)) => {
                        lemma_update_keeps_register(
                            before,
                            register,
                            direct_reference_view(flag),
                            value,
                            name,
                        );
                    },
                    _ => {},
                }
            },
            _ => {},
        }
    }
}

/// A statement of the source keeps the registers that are declared, and what kind of
/// register each is.
pub proof fn lemma_statement_keeps_register(
    s: ConverterView,
    statement: ASMStatementView,
    name: Seq<char>,
)
    requires
        s.statement(statement) is Ok,
        has_key(s.registers, name),
    ensures
        has_key(s.statement(statement)->Ok_0.registers, name),
        s.statement(statement)->Ok_0.registers[key_index(
            s.statement(statement)->Ok_0.registers,
            name,
        )].1.is_assignment == s.registers[key_index(s.registers, name)].1.is_assignment,
{
    match statement {
        ASMStatementView::RegisterDeclaration(_, declared, flag) => {
            lemma_insert_entry_keeps(s.registers, declared, s.new_register(declared, flag), name);
        },
        ASMStatementView::InstructionDeclaration(start, instruction, params, body) => {
            let flag = instruction_flag_name(instruction);
            let prepared = s.create_witness_fixed_pair(start, flag).create_witness_fixed_pairs(
                start,
                literal_columns(instruction, params),
            );
            lemma_body_elements_keep_register(
                prepared,
                start,
                flag,
                literal_substitution(instruction, params),
                body,
                name,
            );
        },
        _ => {},
    }
}

/// Among all statements of a compilation of a source without inline statements there is
/// exactly one identity `R' - U = 0` for every register `R` that has an update, with the
/// register's update for `U`, and none for any other register. Every register that is no
/// assignment register has an update.
pub proof fn lemma_compile_update_identities(input: Seq<ASMStatementView>, k: int)
    requires
        compile_view(input) is Ok,
        forall|j: int| 0 <= j < input.len() ==> !(#[trigger] input[j] is InlinePil),
        0 <= k < source_state(input).registers.len(),
    ensures
        count_of(
            compile_view(input)->Ok_0,
            identity_of(next_reference_view(source_state(input).registers[k].0)),
        ) == if source_state(input).registers[k].1.update_expression() is Some {
            1nat
        } else {
            0nat
        },
        source_state(input).registers[k].1.update_expression() is Some
            ==> compile_view(input)->Ok_0.contains(
            update_identity(
                source_state(input).registers[k].0,
                source_state(input).registers[k].1.update_expression()->0,
            ),
        ),
        !source_state(input).registers[k].1.is_assignment
            ==> source_state(input).registers[k].1.update_expression() is Some,
{
    let start = initial_state(input);
    let read = source_state(input);
    let name = read.registers[k].0;
    let p = identity_of(next_reference_view(name));
    let constraints = all_constraint_statements(read, read.assignment_registers(), 0);
    let updates = update_identities(read.registers);
    let program = seq![line_definition()] + free_value_witnesses(read.finished_program().queries)
        + table_definitions(read.finished_program().tables);
    let lookup = seq![read.finish()->Ok_0.line_plookup()];
    lemma_compile_layout(input);
    lemma_statements_no_difference(start, input, first_statement(input));
    lemma_count_none(read.pil, p);
    lemma_read_constraints_no_update(read, read.assignment_registers(), 0, name);
    lemma_one_update_identity(read.registers, k);
    lemma_count_none(program, p);
    lemma_count_none(lookup, p);
    lemma_count_add(read.pil, constraints, p);
    lemma_count_add(read.pil + constraints, updates, p);
    lemma_count_add(read.pil + constraints + updates, program, p);
    lemma_count_add(read.pil + constraints + updates + program, lookup, p);
    if read.registers[k].1.update_expression() is Some {
        let wanted = update_identity(name, read.registers[k].1.update_expression()->0);
        let j = choose|j: int| 0 <= j < updates.len() && updates[j] == wanted;
        let all = compile_view(input)->Ok_0;
        assert(all[read.pil.len() + constraints.len() + j] == wanted);
    }
}

/// For every register that a source without inline statements declares as the program
/// counter or as a plain register, the statements of the compilation hold exactly one
/// identity of the form `R' - U = 0`.
pub proof fn lemma_declared_register_update_identity(input: Seq<ASMStatementView>, at: int)
    requires
        compile_view(input) is Ok,
        forall|j: int| 0 <= j < input.len() ==> !(#[trigger] input[j] is InlinePil),
        first_statement(input) <= at < input.len(),
        input[at] is RegisterDeclaration,
        input[at]->RegisterDeclaration_2 != Some(RegisterFlag::IsAssignment),
    ensures
        count_of(
            compile_view(input)->Ok_0,
            identity_of(next_reference_view(input[at]->RegisterDeclaration_1)),
        ) == 1,
{
    let read = source_state(input);
    let name = input[at]->RegisterDeclaration_1;
    lemma_compile_layout(input);
    lemma_declared_register(initial_state(input), input, first_statement(input), at);
    lemma_has_key(read.registers, name);
    lemma_compile_update_identities(input, key_index(read.registers, name));
}

/// Two sources with the same statements compile to the same statements, or are rejected
/// for the same reason.
pub proof fn lemma_compile_deterministic(
    first: Seq<ASMStatementView>,
    second: Seq<ASMStatementView>,
)
    requires
        first == second,
    ensures
        compile_view(first) == compile_view(second),
{
}

/// The state in which a compilation ends is well formed, and its last statement is the
/// lookup of that state.
pub proof fn lemma_compile_ends_with_lookup(input: Seq<ASMStatementView>)
    requires
        compile_view(input) is Ok,
    ensures
        ConverterView::empty().convert(input) is Ok,
        ConverterView::empty().convert(input)->Ok_0.wf(),
        compile_view(input)->Ok_0.len() > 0,
        compile_view(input)->Ok_0.last() == ConverterView::empty().convert(
            input,
        )->Ok_0.line_plookup(),
{
    lemma_convert_wf(ConverterView::empty(), input);
}

} // verus!
