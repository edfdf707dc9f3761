//! Lowering of assembly sources to polynomial identities.
//!
//! A source declares registers and instructions and lists a program of labels,
//! assignments and instruction calls. [`compile`] turns it into the statements of a
//! namespace `Assembly`: witness columns, identities that update the registers from row to
//! row, fixed columns that hold the program, and one lookup that ties the witness columns
//! to the program. What is produced is stated by [`compile_view`].

pub mod affine;
pub mod builder;
pub mod code_lines;
pub mod declarations;
pub mod error;
pub mod laws;
pub mod output_laws;
pub mod program;
pub mod program_laws;
pub mod state;
pub mod translate;

use crate::asm_compiler::builder::{
    build_number, build_sub, direct_reference, direct_reference_view, next_reference,
    next_reference_view, number_view, sub_view,
};
use crate::asm_compiler::error::{diagnostic_text, stepped, CompileError, Diagnostic};
use crate::asm_compiler::laws::{lemma_convert_wf, lemma_finish_wf};
use crate::asm_compiler::program::ProgramView;
use crate::asm_compiler::state::{ASMPILConverter, ConverterView, RegisterView};
use crate::number::Number;
use crate::parser::asm_ast::{statement_start, ASMFile, ASMStatement, ASMStatementView};
use crate::parser::ast::{
    group_expression_views, padded_view, ArrayExpression, Expression, ExpressionView,
    FunctionDefinition, FunctionDefinitionView, PILFile, SelectedExpressions,
    SelectedExpressionsView, Statement, StatementView,
};
use vstd::prelude::*;
use vstd::string::*;

verus! {

broadcast use group_expression_views;

/// The identities that update the registers, in the order of the registers. A register
/// without update has none.
pub open spec fn update_identities(registers: Seq<(Seq<char>, RegisterView)>) -> Seq<StatementView>
    decreases registers.len(),
{
    if registers.len() == 0 {
        seq![]
    } else {
        let rest = update_identities(registers.drop_last());
        match registers.last().1.update_expression() {
            Some(update) => rest.push(update_identity(registers.last().0, update)),
            None => rest,
        }
    }
}

/// The identity that gives a register its value in the next row.
pub open spec fn update_identity(name: Seq<char>, update: ExpressionView) -> StatementView {
    StatementView::PolynomialIdentity(0, sub_view(next_reference_view(name), update))
}

/// The degree that a leading degree statement asks for; 1024 without one.
pub open spec fn requested_degree(input: Seq<ASMStatementView>) -> Result<u64, CompileError> {
    if input.len() > 0 && input[0] is Degree {
        if 0 <= input[0]->Degree_1 <= u64::MAX {
            Ok(input[0]->Degree_1 as u64)
        } else {
            Err(CompileError::Shape)
        }
    } else {
        Ok(1024)
    }
}

/// Where the statements after a leading degree statement begin.
pub open spec fn first_statement(input: Seq<ASMStatementView>) -> int {
    if input.len() > 0 && input[0] is Degree {
        1
    } else {
        0
    }
}

impl ConverterView {
    /// The state with the statements with which the output begins.
    pub open spec fn emitting_header(self) -> ConverterView {
        ConverterView { pil: self.pil + self.header(), ..self }
    }

    /// The statements with which the output begins: the namespace with its degree, and
    /// the column that marks the first row.
    pub open spec fn header(self) -> Seq<StatementView> {
        seq![
            StatementView::Namespace(0, "Assembly"@, number_view(self.degree() as int)),
            StatementView::PolynomialConstantDefinition(
                0,
                "first_step"@,
                FunctionDefinitionView::Array(padded_view(seq![number_view(1)])),
            ),
        ]
    }

    /// The state after one statement of the source. A degree is only accepted at the
    /// start, inline statements go to the output as they are, and an assignment whose
    /// value is a call is a call of that instruction.
    pub open spec fn statement(self, statement: ASMStatementView) -> Result<
        ConverterView,
        CompileError,
    > {
        match statement {
            ASMStatementView::Degree(_, _) => Err(CompileError::Shape),
            ASMStatementView::RegisterDeclaration(start, name, flags) => self.declare_register(
                start,
                name,
                flags,
            ),
            ASMStatementView::InstructionDeclaration(start, name, params, body) => {
                self.define_instruction(start, name, params, body)
            },
            ASMStatementView::InlinePil(_, statements) => Ok(
                ConverterView { pil: self.pil + statements, ..self },
            ),
            ASMStatementView::Assignment(_, write_regs, assign_reg, value) => match value {
                ExpressionView::FunctionCall(function, args) => self.functional_instruction(
                    write_regs,
                    assign_reg,
                    function,
                    args,
                ),
                _ => self.assignment(write_regs, assign_reg, value),
            },
            ASMStatementView::Instruction(_, name, args) => self.instruction_call(name, args),
            ASMStatementView::Label(_, name) => Ok(self.label(name)),
        }
    }

    /// The state after the statements of the source from position `from` on.
    pub open spec fn statements(self, input: Seq<ASMStatementView>, from: int) -> Result<
        ConverterView,
        CompileError,
    >
        decreases input.len() - from,
    {
        if from < 0 || from >= input.len() {
            Ok(self)
        } else {
            match self.statement(input[from]) {
                Err(e) => Err(e),
                Ok(s) => s.statements(input, from + 1),
            }
        }
    }

    /// The state with the read constraint of each of the given assignment registers, from
    /// position `from` on.
    pub open spec fn read_constraints(self, registers: Seq<Seq<char>>, from: int) -> ConverterView
        decreases registers.len() - from,
    {
        if from < 0 || from >= registers.len() {
            self
        } else {
            self.create_constraints_for_assignment_reg(registers[from]).read_constraints(
                registers,
                from + 1,
            )
        }
    }

    /// The lookup that ties the witness columns of each row to a row of the program.
    pub open spec fn line_plookup(self) -> StatementView {
        StatementView::PlookupIdentity(
            0,
            SelectedExpressionsView {
                selector: None,
                expressions: Seq::new(
                    self.line_lookup.len(),
                    |k: int| direct_reference_view(self.line_lookup[k].0),
                ),
            },
            SelectedExpressionsView {
                selector: None,
                expressions: Seq::new(
                    self.line_lookup.len(),
                    |k: int| direct_reference_view(self.line_lookup[k].1),
                ),
            },
        )
    }

    /// The state with the update identities of its registers.
    pub open spec fn with_update_identities(self) -> ConverterView {
        ConverterView { pil: self.pil + update_identities(self.registers), ..self }
    }

    /// The state with the update identities of its registers and then the program.
    pub open spec fn translate_code_lines_after_updates(self) -> Result<
        ConverterView,
        CompileError,
    > {
        self.with_update_identities().translate_code_lines()
    }

    /// The program of the state once the source is consumed.
    pub open spec fn finished_program(self) -> ProgramView {
        self.read_constraints(
            self.assignment_registers(),
            0,
        ).with_update_identities().program()->Ok_0
    }

    /// The state once the source is consumed: the read constraints of the assignment
    /// registers, the update identities of the registers, the program, and the lookup.
    pub open spec fn finish(self) -> Result<ConverterView, CompileError> {
        match self.read_constraints(
            self.assignment_registers(),
            0,
        ).translate_code_lines_after_updates() {
            Err(e) => Err(e),
            Ok(translated) => Ok(translated.emit(translated.line_plookup())),
        }
    }

    /// The position of the first statement from position `from` on that is rejected.
    pub open spec fn failure_location(self, input: Seq<ASMStatementView>, from: int) -> Option<
        usize,
    >
        decreases input.len() - from,
    {
        if from < 0 || from >= input.len() {
            None
        } else {
            match self.statement(input[from]) {
                Err(_) => Some(statement_start(input[from])),
                Ok(s) => s.failure_location(input, from + 1),
            }
        }
    }

    /// The position of the statement at which a source is rejected: the degree statement
    /// for a degree that cannot be had, else the first statement that is rejected.
    pub open spec fn convert_location(self, input: Seq<ASMStatementView>) -> Option<usize> {
        match requested_degree(input) {
            Err(_) => Some(statement_start(input[0])),
            Ok(degree) => match self.set_degree(degree) {
                Err(_) => if first_statement(input) == 1 {
                    Some(statement_start(input[0]))
                } else {
                    None
                },
                Ok(sized) => (ConverterView {
                    pil: sized.pil + sized.header(),
                    ..sized
                }).failure_location(input, first_statement(input)),
            },
        }
    }

    /// The state after a whole source.
    pub open spec fn convert(self, input: Seq<ASMStatementView>) -> Result<
        ConverterView,
        CompileError,
    > {
        match requested_degree(input) {
            Err(e) => Err(e),
            Ok(degree) => match self.set_degree(degree) {
                Err(e) => Err(e),
                Ok(sized) => match (ConverterView {
                    pil: sized.pil + sized.header(),
                    ..sized
                }).statements(input, first_statement(input)) {
                    Err(e) => Err(e),
                    Ok(read) => read.finish(),
                },
            },
        }
    }
}

/// The statements that a source compiles to, or the reason why it is rejected.
/// Where a source is rejected, [`compile_location`] says at which statement.
pub open spec fn compile_view(input: Seq<ASMStatementView>) -> Result<
    Seq<StatementView>,
    CompileError,
> {
    match ConverterView::empty().convert(input) {
        Err(e) => Err(e),
        Ok(s) => Ok(s.pil),
    }
}

/// The position of the statement at which a source is rejected; none where it is accepted,
/// or rejected only once all of its statements are read.
pub open spec fn compile_location(input: Seq<ASMStatementView>) -> Option<usize> {
    ConverterView::empty().convert_location(input)
}

/// Compiles a parsed assembly source to the statements of its constraint system. A source
/// that is rejected is reported with the kind of the error, the position of the statement
/// at which it is rejected, and a diagnostic text.
pub fn compile(input: ASMFile) -> (r: Result<PILFile, Diagnostic>)
    ensures
        match r {
            Ok(pil) => compile_view(input.deep_view()) == Ok::<Seq<StatementView>, CompileError>(
                pil.deep_view(),
            ),
            Err(d) => compile_view(input.deep_view()) == Err::<Seq<StatementView>, CompileError>(
                d.error,
            ) && d.location == compile_location(input.deep_view()) && d.message@
                == diagnostic_text(d.error),
        },
{
    let mut converter = ASMPILConverter::new();
    converter.convert(input)
}

/// Statements that are all accepted are rejected nowhere.
pub proof fn lemma_no_failure_location(s: ConverterView, input: Seq<ASMStatementView>, from: int)
    requires
        s.statements(input, from) is Ok,
    ensures
        s.failure_location(input, from) is None,
    decreases input.len() - from,
{
    if 0 <= from < input.len() {
        lemma_no_failure_location(s.statement(input[from])->Ok_0, input, from + 1);
    }
}

/// The statements in reverse order, so that they can be taken out one by one.
fn reversed(statements: Vec<ASMStatement>) -> (r: Vec<ASMStatement>)
    ensures
        r.len() == statements.len(),
        forall|j: int|
            0 <= j < r.len() ==> (#[trigger] r[j]) == statements[statements.len() - 1 - j],
{
    let count = statements.len();
    let mut rest = statements;
    let mut pending: Vec<ASMStatement> = Vec::new();
    while rest.len() > 0
        invariant
            rest.len() + pending.len() == count,
            count == statements.len(),
            forall|j: int| 0 <= j < rest.len() ==> rest[j] == statements[j],
            forall|j: int|
                0 <= j < pending.len() ==> (#[trigger] pending[j]) == statements[count - 1 - j],
        decreases rest.len(),
    {
        match rest.pop() {
            Some(statement) => {
                pending.push(statement);
            },
            None => {},
        }
    }
    pending
}

impl ASMPILConverter {
    /// Handles one statement of the source; see [`ConverterView::statement`].
    pub fn handle_statement(&mut self, statement: ASMStatement) -> (r: Result<(), CompileError>)
        ensures
            stepped(r, final(self).deep_view()) == old(self).deep_view().statement(
                statement.deep_view(),
            ),
            old(self).deep_view().wf() && r is Ok ==> final(self).deep_view().wf(),
            r is Err ==> final(self).deep_view() == old(self).deep_view(),
    {
        match statement {
            ASMStatement::Degree(_, _) => Err(CompileError::Shape),
            ASMStatement::RegisterDeclaration(start, name, flags) => {
                self.handle_register_declaration(flags, name.as_str(), start)
            },
            ASMStatement::InstructionDeclaration(start, name, params, body) => {
                self.handle_instruction_def(start, body, name, params)
            },
            ASMStatement::InlinePil(_start, statements) => {
                let mut statements = statements;
                let ghost before = self.pil.deep_view();
                let ghost added = statements.deep_view();
                self.pil.append(&mut statements);
                assert(self.pil.deep_view() =~= before + added);
                Ok(())
            },
            ASMStatement::Assignment(start, write_regs, assign_reg, value) => match *value {
                Expression::FunctionCall(function_name, args) => {
                    self.handle_functional_instruction(write_regs, assign_reg, function_name, args)
                },
                other => self.handle_assignment(start, write_regs, assign_reg, &other),
            },
            ASMStatement::Instruction(_start, instr_name, args) => {
                self.handle_instruction(instr_name, args)
            },
            ASMStatement::Label(_start, name) => {
                self.handle_label(name);
                Ok(())
            },
        }
    }

    /// Emits the update identity of each register that has an update.
    fn emit_update_identities(&mut self)
        ensures
            final(self).deep_view() == (ConverterView {
                pil: old(self).deep_view().pil + update_identities(old(self).deep_view().registers),
                ..old(self).deep_view()
            }),
    {
        let ghost before = self.deep_view();
        let ghost registers = before.registers;
        let count = self.registers.len();
        let mut i: usize = 0;
        while i < count
            invariant
                i <= count,
                count == self.registers.len(),
                before == old(self).deep_view(),
                registers == before.registers,
                self.deep_view() == (ConverterView {
                    pil: before.pil + update_identities(registers.take(i as int)),
                    ..before
                }),
            decreases count - i,
        {
            proof {
                assert(registers.take(i + 1).drop_last() =~= registers.take(i as int));
            }
            match self.registers[i].1.update_expression() {
                Some(update) => {
                    let statement = Statement::PolynomialIdentity(
                        0,
                        build_sub(next_reference(self.registers[i].0.as_str()), update),
                    );
                    self.emit(statement);
                },
                None => {},
            }
            i += 1;
        }
        assert(registers.take(i as int) =~= registers);
    }

    /// The lookup that ties the witness columns to the program; see
    /// [`ConverterView::line_plookup`].
    fn line_plookup(&self) -> (r: Statement)
        ensures
            r.deep_view() == self.deep_view().line_plookup(),
    {
        let mut witnesses: Vec<Expression> = Vec::new();
        let mut fixed: Vec<Expression> = Vec::new();
        let mut i: usize = 0;
        while i < self.line_lookup.len()
            invariant
                i <= self.line_lookup.len(),
                witnesses.len() == i,
                fixed.len() == i,
                forall|k: int|
                    0 <= k < i ==> (#[trigger] witnesses[k]).deep_view() == direct_reference_view(
                        self.line_lookup[k].0@,
                    ),
                forall|k: int|
                    0 <= k < i ==> (#[trigger] fixed[k]).deep_view() == direct_reference_view(
                        self.line_lookup[k].1@,
                    ),
            decreases self.line_lookup.len() - i,
        {
            witnesses.push(direct_reference(self.line_lookup[i].0.as_str()));
            fixed.push(direct_reference(self.line_lookup[i].1.as_str()));
            i += 1;
        }
        proof {
            let lookup = self.deep_view().line_lookup;
            assert(witnesses.deep_view() =~= Seq::new(
                lookup.len(),
                |k: int| direct_reference_view(lookup[k].0),
            ));
            assert(fixed.deep_view() =~= Seq::new(
                lookup.len(),
                |k: int| direct_reference_view(lookup[k].1),
            ));
        }
        Statement::PlookupIdentity(
            0,
            SelectedExpressions { selector: None, expressions: witnesses },
            SelectedExpressions { selector: None, expressions: fixed },
        )
    }

    /// Completes the output once the source is consumed; see [`ConverterView::finish`].
    pub fn finish(&mut self) -> (r: Result<(), CompileError>)
        ensures
            stepped(r, final(self).deep_view()) == old(self).deep_view().finish(),
            old(self).deep_view().wf() && r is Ok ==> final(self).deep_view().wf(),
            r is Err ==> final(self).deep_view() == old(self).deep_view(),
    {
        let ghost before = self.deep_view();
        let snapshot = self.duplicate();
        let assignment_registers = self.assignment_registers();
        let ghost names = assignment_registers.deep_view();
        let mut i: usize = 0;
        while i < assignment_registers.len()
            invariant
                i <= assignment_registers.len(),
                names == assignment_registers.deep_view(),
                before.read_constraints(names, 0) == self.deep_view().read_constraints(
                    names,
                    i as int,
                ),
            decreases assignment_registers.len() - i,
        {
            self.create_constraints_for_assignment_reg(assignment_registers[i].clone());
            i += 1;
        }
        self.emit_update_identities();
        match self.translate_code_lines() {
            Err(e) => {
                *self = snapshot;
                return Err(e);
            },
            Ok(()) => {},
        }
        let lookup = self.line_plookup();
        self.emit(lookup);
        proof {
            if before.wf() {
                lemma_finish_wf(before);
            }
        }
        Ok(())
    }

    /// Sets the degree and emits the statements with which the output begins.
    fn begin(&mut self, degree: u64) -> (r: Result<(), CompileError>)
        ensures
            stepped(r, final(self).deep_view()) == match old(self).deep_view().set_degree(degree) {
                Err(e) => Err(e),
                Ok(sized) => Ok(ConverterView { pil: sized.pil + sized.header(), ..sized }),
            },
            r is Err ==> final(self).deep_view() == old(self).deep_view(),
    {
        match self.set_degree(degree) {
            Err(e) => {
                return Err(e);
            },
            Ok(()) => {},
        }
        let ghost sized = self.deep_view();
        self.emit(
            Statement::Namespace(
                0,
                String::from_str("Assembly"),
                build_number(Number::from_u64(self.degree())),
            ),
        );
        let mut one: Vec<Expression> = Vec::new();
        one.push(build_number(Number::from_u64(1)));
        assert(one.deep_view() =~= seq![number_view(1)]);
        self.emit(
            Statement::PolynomialConstantDefinition(
                0,
                String::from_str("first_step"),
                FunctionDefinition::Array(ArrayExpression::value(one).pad_with_zeroes()),
            ),
        );
        assert(self.deep_view().pil =~= sized.pil + sized.header());
        Ok(())
    }

    /// Handles the statements of a source from position `skip` on; see
    /// [`ConverterView::statements`].
    fn handle_statements(&mut self, statements: Vec<ASMStatement>, skip: usize) -> (r: Result<
        (),
        (CompileError, usize),
    >)
        requires
            skip <= statements.len(),
        ensures
            match r {
                Ok(_) => old(self).deep_view().statements(statements.deep_view(), skip as int)
                    == Ok::<ConverterView, CompileError>(final(self).deep_view()),
                Err(failure) => old(self).deep_view().statements(
                    statements.deep_view(),
                    skip as int,
                ) == Err::<ConverterView, CompileError>(failure.0)
                    && old(self).deep_view().failure_location(
                    statements.deep_view(),
                    skip as int,
                ) == Some(failure.1),
            },
    {
        let ghost source = statements.deep_view();
        let count = statements.len();
        let mut pending = reversed(statements);
        let mut position: usize = 0;
        while position < count
            invariant
                position <= count,
                skip <= count,
                count == statements.len(),
                source == statements.deep_view(),
                position + pending.len() == count,
                forall|j: int|
                    0 <= j < pending.len() ==> (#[trigger] pending[j]) == statements[count - 1
                        - j],
                position <= skip ==> self.deep_view() == old(self).deep_view(),
                position > skip ==> old(self).deep_view().statements(source, skip as int)
                    == self.deep_view().statements(source, position as int),
                position > skip ==> old(self).deep_view().failure_location(source, skip as int)
                    == self.deep_view().failure_location(source, position as int),
            decreases count - position,
        {
            match pending.pop() {
                Some(statement) => {
                    if position >= skip {
                        let start = statement.start();
                        match self.handle_statement(statement) {
                            Err(e) => {
                                return Err((e, start));
                            },
                            Ok(()) => {},
                        }
                    }
                },
                None => {},
            }
            position += 1;
        }
        Ok(())
    }

    /// Compiles a source on top of this state and hands out the statements produced.
    pub fn convert(&mut self, input: ASMFile) -> (r: Result<PILFile, Diagnostic>)
        ensures
            match r {
                Ok(pil) => old(self).deep_view().convert(input.deep_view()) is Ok
                    && pil.deep_view() == old(self).deep_view().convert(input.deep_view())->Ok_0.pil
                    && final(self).deep_view() == (ConverterView {
                    pil: seq![],
                    ..old(self).deep_view().convert(input.deep_view())->Ok_0
                }),
                Err(d) => old(self).deep_view().convert(input.deep_view()) == Err::<
                    ConverterView,
                    CompileError,
                >(d.error) && d.location == old(self).deep_view().convert_location(
                    input.deep_view(),
                ) && d.message@ == diagnostic_text(d.error),
            },
            old(self).deep_view().wf() && r is Ok ==> final(self).deep_view().wf(),
            r is Err ==> final(self).deep_view() == old(self).deep_view(),
    {
        let ghost source = input.deep_view();
        let ASMFile(statements) = input;
        let mut degree: u64 = 1024;
        let mut skip: usize = 0;
        if statements.len() > 0 {
            match &statements[0] {
                ASMStatement::Degree(_, d) => {
                    match d.to_u64() {
                        Some(d) => {
                            degree = d;
                        },
                        None => {
                            return Err(
                                Diagnostic::new(CompileError::Shape, Some(statements[0].start())),
                            );
                        },
                    }
                    skip = 1;
                },
                _ => {},
            }
        }
        let snapshot = self.duplicate();
        match self.begin(degree) {
            Err(e) => {
                let location = if skip == 1 {
                    Some(statements[0].start())
                } else {
                    None
                };
                return Err(Diagnostic::new(e, location));
            },
            Ok(()) => {},
        }
        match self.handle_statements(statements, skip) {
            Err(failure) => {
                *self = snapshot;
                return Err(Diagnostic::new(failure.0, Some(failure.1)));
            },
            Ok(()) => {},
        }
        proof {
            lemma_no_failure_location(
                old(self).deep_view().set_degree(degree)->Ok_0.emitting_header(),
                source,
                skip as int,
            );
        }
        match self.finish() {
            Err(e) => {
                *self = snapshot;
                return Err(Diagnostic::new(e, None));
            },
            Ok(()) => {},
        }
        let mut pil: Vec<Statement> = Vec::new();
        pil.append(&mut self.pil);
        assert(self.pil.deep_view() =~= seq![]);
        proof {
            if old(self).deep_view().wf() {
                lemma_convert_wf(old(self).deep_view(), source);
            }
        }
        Ok(PILFile(pil))
    }
}

} // verus!
